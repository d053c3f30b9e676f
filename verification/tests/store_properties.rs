use rusty_pickle::error::ErrorType;
use rusty_pickle::{DumpPolicy, Pickle, PickleListExtender, SerializationMethod};

fn new_db(policy: DumpPolicy) -> Pickle {
    Pickle::new(String::from("store.db"), policy, SerializationMethod::Json)
}

#[test]
fn value_round_trip_int() {
    let mut db = new_db(DumpPolicy::Never);
    db.set("n", serde_json::to_string(&-42i32).unwrap(), 0).unwrap();
    let back: i32 = serde_json::from_str(&db.get("n").unwrap()).unwrap();
    assert_eq!(back, -42);
}

#[test]
fn value_round_trip_string() {
    let mut db = new_db(DumpPolicy::Never);
    let v = String::from("hello \"quoted\" world");
    db.set("s", serde_json::to_string(&v).unwrap(), 0).unwrap();
    let back: String = serde_json::from_str(&db.get("s").unwrap()).unwrap();
    assert_eq!(back, v);
}

#[test]
fn value_round_trip_vec() {
    let mut db = new_db(DumpPolicy::Never);
    let v = vec![1, 2, 3];
    db.set("v", serde_json::to_string(&v).unwrap(), 0).unwrap();
    let back: Vec<i32> = serde_json::from_str(&db.get("v").unwrap()).unwrap();
    assert_eq!(back, v);
}

#[test]
fn value_round_trip_wrong_type_is_absent() {
    let mut db = new_db(DumpPolicy::Never);
    db.set("s", serde_json::to_string(&"text").unwrap(), 0).unwrap();
    let back = db.get("s").and_then(|t| serde_json::from_str::<i32>(&t).ok());
    assert!(back.is_none());
}

#[test]
fn snapshot_round_trip() {
    let mut db = new_db(DumpPolicy::UponRequest);
    db.set("a", serde_json::to_string(&1).unwrap(), 0).unwrap();
    db.set("b", serde_json::to_string(&"x").unwrap(), 0).unwrap();
    db.ladd("l", serde_json::to_string(&7).unwrap(), 0).unwrap();
    db.ladd("l", serde_json::to_string(&8).unwrap(), 0).unwrap();
    let pending = db.dump(0).unwrap().unwrap();

    let db2 = Pickle::load(
        &pending.payload,
        String::from("store.db"),
        DumpPolicy::Never,
        SerializationMethod::Json,
    )
    .unwrap();
    assert_eq!(db2.get("a").unwrap(), db.get("a").unwrap());
    assert_eq!(db2.get("b").unwrap(), db.get("b").unwrap());
    assert_eq!(db2.lget("l").unwrap(), db.lget("l").unwrap());
    assert_eq!(db2.key_count(), 3);
}

#[test]
fn dump_payload_is_json_snapshot() {
    let mut db = new_db(DumpPolicy::UponRequest);
    db.set("a", String::from("1"), 0).unwrap();
    db.ladd("l", String::from("2"), 0).unwrap();
    let pending = db.dump(0).unwrap().unwrap();
    let parsed: (
        std::collections::HashMap<String, String>,
        std::collections::HashMap<String, Vec<String>>,
    ) = serde_json::from_slice(&pending.payload).unwrap();
    assert_eq!(parsed.0.get("a").unwrap(), "1");
    assert_eq!(parsed.1.get("l").unwrap(), &vec![String::from("2")]);
}

#[test]
fn key_exclusivity() {
    let mut db = new_db(DumpPolicy::Never);
    db.set("k", String::from("1"), 0).unwrap();
    assert!(!db.exists_as_list("k"));
    assert!(db.key_exists("k"));

    db.ladd("k", String::from("2"), 0).unwrap();
    assert!(db.get("k").is_none());
    assert!(db.exists_as_list("k"));
    assert!(db.key_exists("k"));
    assert_eq!(db.key_count(), 1);

    db.set("k", String::from("3"), 0).unwrap();
    assert!(!db.exists_as_list("k"));
    assert_eq!(db.get("k").unwrap(), "3");
    assert_eq!(db.key_count(), 1);
}

#[test]
fn set_rolls_back_when_dump_fails() {
    let mut db = new_db(DumpPolicy::Auto);
    db.set("k", String::from("1"), 0).unwrap();

    let pending = db.set("k", String::from("2"), 1).unwrap().unwrap();
    let err = db.abort_dump(pending, String::from("disk full"));
    assert!(matches!(err.get_type(), ErrorType::Io));
    assert_eq!(err.message(), "disk full");
    assert_eq!(db.get("k").unwrap(), "1");
}

#[test]
fn fresh_set_rolls_back_to_absent() {
    let mut db = new_db(DumpPolicy::Auto);
    let pending = db.set("k", String::from("1"), 0).unwrap().unwrap();
    let _ = db.abort_dump(pending, String::from("read-only file system"));
    assert!(db.get("k").is_none());
    assert!(!db.key_exists("k"));
}

#[test]
fn remove_rolls_back_when_dump_fails() {
    let mut db = new_db(DumpPolicy::Auto);
    db.set("k", String::from("1"), 0).unwrap();
    let (found, pending) = db.remove("k", 1).unwrap();
    assert!(found);
    let _ = db.abort_dump(pending.unwrap(), String::from("disk full"));
    assert_eq!(db.get("k").unwrap(), "1");
}

#[test]
fn never_policy_never_dumps() {
    let mut db = new_db(DumpPolicy::Never);
    assert!(db.set("a", String::from("1"), 0).unwrap().is_none());
    assert!(db.set("b", String::from("2"), 100).unwrap().is_none());
    assert!(db.ladd("l", String::from("3"), 200).unwrap().is_none());
    assert!(db.remove("a", 300).unwrap().1.is_none());
    // the manual dump request is honored as a silent no-op
    assert!(db.dump(400).unwrap().is_none());
}

#[test]
fn upon_request_policy_dumps_only_on_request() {
    let mut db = new_db(DumpPolicy::UponRequest);
    assert!(db.set("a", String::from("1"), 0).unwrap().is_none());
    assert!(db.dump(0).unwrap().is_some());
}

#[test]
fn periodic_policy_dumps_once_per_interval() {
    let mut db = new_db(DumpPolicy::Periodic(1));
    // the first mutation has no prior dump to measure from, so it triggers
    assert!(db.set("a", String::from("1"), 10).unwrap().is_some());
    // back-to-back within the interval: at most one dump
    assert!(db.set("b", String::from("2"), 10).unwrap().is_none());
    assert!(db.set("c", String::from("3"), 11).unwrap().is_none());
    // past the interval: exactly one more
    assert!(db.set("d", String::from("4"), 12).unwrap().is_some());
    assert!(db.set("e", String::from("5"), 12).unwrap().is_none());
}

#[test]
fn manual_dump_resets_periodic_timer() {
    let mut db = new_db(DumpPolicy::Periodic(10));
    assert!(db.set("a", String::from("1"), 100).unwrap().is_some());
    assert!(db.set("b", String::from("2"), 105).unwrap().is_none());
    let pending = db.dump(105).unwrap().unwrap();
    drop(pending);
    db.mark_dumped(105);
    assert!(db.set("c", String::from("3"), 110).unwrap().is_none());
    assert!(db.set("d", String::from("4"), 116).unwrap().is_some());
}

#[test]
fn temp_path_distinct_from_backing() {
    let db = new_db(DumpPolicy::UponRequest);
    let pending = db.dump(1234).unwrap().unwrap();
    assert_eq!(pending.temp_path, "store.db.temp.1234");
    assert_eq!(pending.target_path, "store.db");
    assert_ne!(pending.temp_path, pending.target_path);
}

#[test]
fn end_to_end_auto_policy() {
    let mut db = Pickle::new(
        String::from("e2e.db"),
        DumpPolicy::Auto,
        SerializationMethod::Json,
    );
    db.set("a", serde_json::to_string(&1).unwrap(), 0).unwrap();
    let pending = db
        .set("b", serde_json::to_string(&"x").unwrap(), 0)
        .unwrap()
        .unwrap();

    let db2 = Pickle::load_json(&pending.payload, String::from("e2e.db"), DumpPolicy::Auto)
        .unwrap();
    let a: i64 = serde_json::from_str(&db2.get("a").unwrap()).unwrap();
    assert_eq!(a, 1);
    let b: String = serde_json::from_str(&db2.get("b").unwrap()).unwrap();
    assert_eq!(b, "x");
    assert_eq!(db2.key_count(), 2);
}

#[test]
fn remove_reports_and_removes() {
    let mut db = new_db(DumpPolicy::Never);
    db.set("a", String::from("1"), 0).unwrap();
    db.ladd("l", String::from("2"), 0).unwrap();

    assert_eq!(db.remove("a", 0).unwrap().0, true);
    assert!(db.get("a").is_none());
    assert_eq!(db.remove("a", 0).unwrap().0, false);
    assert_eq!(db.remove("l", 0).unwrap().0, true);
    assert!(!db.key_exists("l"));
    assert_eq!(db.key_count(), 0);
}

#[test]
fn list_keys_enumerates_scalars_only() {
    let mut db = new_db(DumpPolicy::Never);
    db.set("a", String::from("1"), 0).unwrap();
    db.set("b", String::from("2"), 0).unwrap();
    db.ladd("l", String::from("3"), 0).unwrap();
    let mut keys = db.list_keys();
    keys.sort();
    assert_eq!(keys, vec![String::from("a"), String::from("b")]);
}

#[test]
fn load_rejects_malformed_snapshot() {
    let r = Pickle::load(
        "this is not a snapshot".as_bytes(),
        String::from("bad.db"),
        DumpPolicy::Never,
        SerializationMethod::Json,
    );
    let err = match r {
        Err(e) => e,
        Ok(_) => panic!("expected a serialization error"),
    };
    assert!(matches!(err.get_type(), ErrorType::Serialization));
}

#[test]
fn load_rejects_key_in_both_mappings() {
    let content = r#"[{"k":"1"},{"k":["2"]}]"#;
    let r = Pickle::load(
        content.as_bytes(),
        String::from("bad.db"),
        DumpPolicy::Never,
        SerializationMethod::Json,
    );
    let err = match r {
        Err(e) => e,
        Ok(_) => panic!("expected a serialization error"),
    };
    assert!(matches!(err.get_type(), ErrorType::Serialization));
}

#[test]
fn extender_chains_appends() {
    let mut db = new_db(DumpPolicy::Never);
    let ext = PickleListExtender::new(String::from("l"));
    ext.ladd(&mut db, String::from("1"), 0).unwrap();
    ext.lextend(&mut db, vec![String::from("2"), String::from("3")], 0)
        .unwrap();
    assert_eq!(
        db.lget("l").unwrap(),
        vec![String::from("1"), String::from("2"), String::from("3")]
    );
}

#[test]
fn serialization_method_from_i32() {
    assert!(matches!(SerializationMethod::from(0), SerializationMethod::Json));
    assert!(matches!(SerializationMethod::from(7), SerializationMethod::Json));
}
