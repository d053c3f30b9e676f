//! The serialization codec: converts the whole dataset (scalar entries and
//! list entries) to and from a single snapshot buffer. One method — a JSON
//! text format — is implemented; the method tag anticipates more.
//!
//! The snapshot buffer is produced and parsed by serde_json behind two
//! trusted wrappers. What the parser yields on given bytes is a function of
//! the bytes alone; it is named by `parsed_snapshot`, and both directions of
//! the codec are specified through that name, which makes the snapshot
//! round-trip a consequence of the two contracts.

use crate::assoc::{amap_of, distinct_keys};
use vstd::prelude::*;

verus! {

/// The serialization method a store uses, chosen once at construction.
#[derive(Debug, Clone, Copy)]
pub enum SerializationMethod {
    Json,
}

impl From<i32> for SerializationMethod {
    /// The numeric tag of a method; unknown tags fall back to JSON.
    fn from(item: i32) -> (r: Self) {
        match item {
            0 => SerializationMethod::Json,
            _ => SerializationMethod::Json,
        }
    }
}

impl vstd::std_specs::convert::FromSpecImpl<i32> for SerializationMethod {
    open spec fn obeys_from_spec() -> bool {
        true
    }

    open spec fn from_spec(item: i32) -> Self {
        SerializationMethod::Json
    }
}

/// What parsing a snapshot buffer yields: `None` when the bytes are not the
/// JSON text of a pair of string maps (scalar entries, then list entries),
/// otherwise those two maps. This names the result of serde_json's parser at
/// that type, a function of the bytes alone.
pub uninterp spec fn parsed_snapshot(bytes: Seq<u8>) -> Option<
    (Map<Seq<char>, Seq<char>>, Map<Seq<char>, Seq<Seq<char>>>),
>;

/// Relies on serde_json::to_string on a pair of string maps. It cannot fail
/// at this type: serialization errors come only from a failing `Serialize`
/// implementation or from a map with non-string keys, and writing into the
/// output vector cannot fail. It returns JSON text that serde_json::from_str
/// at the same type parses back to maps equal to the input, so the buffer's
/// `parsed_snapshot` is exactly the input maps.
#[verifier::external_body]
fn encode_snapshot_json(map: &Vec<(String, String)>, list_map: &Vec<(String, Vec<String>)>) -> (r:
    Result<Vec<u8>, String>)
    ensures
        r is Ok,
        (r matches Ok(b) ==> parsed_snapshot(b@) == Some((amap_of(map@), amap_of(list_map@)))),
{
    let scalars: std::collections::BTreeMap<&str, &str> = map.iter().map(
        |e: &(String, String)| (e.0.as_str(), e.1.as_str()),
    ).collect();
    let lists: std::collections::BTreeMap<&str, Vec<&str>> = list_map.iter().map(
        |e: &(String, Vec<String>)| (e.0.as_str(), e.1.iter().map(|s: &String| s.as_str()).collect()),
    ).collect();
    match serde_json::to_string(&(scalars, lists)) {
        Ok(text) => Ok(text.into_bytes()),
        Err(e) => Err(e.to_string()),
    }
}

/// Relies on serde_json::from_str at the snapshot type (a pair of string
/// maps), with str::from_utf8 viewing the bytes as text: the parse result is
/// a function of the bytes alone, named `parsed_snapshot`. The maps come out
/// of HashMaps, so their keys are distinct.
#[verifier::external_body]
fn decode_snapshot_json(ser_db: &[u8]) -> (r: Result<
    (Vec<(String, String)>, Vec<(String, Vec<String>)>),
    String,
>)
    ensures
        (r matches Ok(maps) ==> parsed_snapshot(ser_db@) == Some(
            (amap_of(maps.0@), amap_of(maps.1@)),
        ) && distinct_keys(maps.0@) && distinct_keys(maps.1@)),
        (r matches Err(_) ==> parsed_snapshot(ser_db@) is None),
{
    let text = match std::str::from_utf8(ser_db) {
        Ok(t) => t,
        Err(e) => return Err(e.to_string()),
    };
    match serde_json::from_str::<(
        std::collections::HashMap<String, String>,
        std::collections::HashMap<String, Vec<String>>,
    )>(text) {
        Ok((m, lm)) => Ok((m.into_iter().collect(), lm.into_iter().collect())),
        Err(e) => Err(e.to_string()),
    }
}

pub(crate) struct JsonSerializer {}

impl JsonSerializer {
    pub(crate) fn new() -> JsonSerializer {
        JsonSerializer {  }
    }

    /// Encodes the full dataset as one snapshot buffer; this never fails for
    /// the text datasets the store holds.
    pub(crate) fn serialize_db(
        &self,
        map: &Vec<(String, String)>,
        list_map: &Vec<(String, Vec<String>)>,
    ) -> (r: Result<Vec<u8>, String>)
        ensures
            r is Ok,
            (r matches Ok(b) ==> parsed_snapshot(b@) == Some(
                (amap_of(map@), amap_of(list_map@)),
            )),
    {
        encode_snapshot_json(map, list_map)
    }

    /// Decodes a snapshot buffer back into the two entry lists; fails exactly
    /// when the buffer is not a well-formed snapshot.
    pub(crate) fn deserialize_db(&self, ser_db: &[u8]) -> (r: Result<
        (Vec<(String, String)>, Vec<(String, Vec<String>)>),
        String,
    >)
        ensures
            (r matches Ok(maps) ==> parsed_snapshot(ser_db@) == Some(
                (amap_of(maps.0@), amap_of(maps.1@)),
            ) && distinct_keys(maps.0@) && distinct_keys(maps.1@)),
            (r is Ok <==> parsed_snapshot(ser_db@) is Some),
    {
        decode_snapshot_json(ser_db)
    }
}

/// Dispatches the dataset codec over the chosen serialization method.
pub(crate) struct Serializer {
    ser_method: SerializationMethod,
    json_serializer: JsonSerializer,
}

impl Serializer {
    pub(crate) fn new(ser_method: SerializationMethod) -> Serializer {
        Serializer { ser_method, json_serializer: JsonSerializer::new() }
    }

    /// Encodes the full dataset as one snapshot buffer; this never fails for
    /// the text datasets the store holds.
    pub(crate) fn serialize_db(
        &self,
        map: &Vec<(String, String)>,
        list_map: &Vec<(String, Vec<String>)>,
    ) -> (r: Result<Vec<u8>, String>)
        ensures
            r is Ok,
            (r matches Ok(b) ==> parsed_snapshot(b@) == Some(
                (amap_of(map@), amap_of(list_map@)),
            )),
    {
        match self.ser_method {
            SerializationMethod::Json => self.json_serializer.serialize_db(map, list_map),
        }
    }

    /// Decodes a snapshot buffer back into the two entry lists.
    pub(crate) fn deserialize_db(&self, ser_db: &[u8]) -> (r: Result<
        (Vec<(String, String)>, Vec<(String, Vec<String>)>),
        String,
    >)
        ensures
            (r matches Ok(maps) ==> parsed_snapshot(ser_db@) == Some(
                (amap_of(maps.0@), amap_of(maps.1@)),
            ) && distinct_keys(maps.0@) && distinct_keys(maps.1@)),
            (r is Ok <==> parsed_snapshot(ser_db@) is Some),
    {
        match self.ser_method {
            SerializationMethod::Json => self.json_serializer.deserialize_db(ser_db),
        }
    }
}

} // verus!
