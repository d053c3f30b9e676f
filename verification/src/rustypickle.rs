//! The value store and its dump engine.
//!
//! Two mappings hold the dataset: scalar entries (key to one encoded value)
//! and list entries (key to ordered encoded items), a key never in both.
//! Mutating operations consult the dump policy; when a dump is due they
//! encode the snapshot and hand back a [`PendingDump`] naming the temporary
//! path to write, the backing path to rename onto, and the bytes. The caller
//! performs the two file steps and reports back: [`Pickle::mark_dumped`] on
//! success, [`Pickle::abort_dump`] on failure — the latter rolls the mapping
//! the operation touched back to its pre-operation state, so memory and disk
//! never silently diverge.

use crate::assoc::{
    amap_of, assoc_get, assoc_insert, assoc_remove, distinct_keys, lemma_amap_dom,
    lemma_amap_index, lemma_amap_len,
};
use crate::error::{Error, ErrorCode};
use crate::serialization::{parsed_snapshot, SerializationMethod, Serializer};
use vstd::prelude::*;
use vstd::string::StringExecFns;

verus! {

/// When a mutating operation automatically persists the dataset.
#[derive(Debug, Clone, Copy)]
pub enum DumpPolicy {
    /// Automatic triggers never write; a manual dump request is a silent no-op.
    Never,
    /// Every mutating operation triggers a dump.
    Auto,
    /// Only an explicit `dump` call writes.
    UponRequest,
    /// A mutating operation triggers a dump only when more than this many
    /// seconds have passed since the last dump decision.
    Periodic(u64),
}

/// Whether a mutating operation at time `now_s` must trigger a dump, given
/// the policy and the time of the last dump decision.
pub open spec fn dump_due(policy: DumpPolicy, last_dump: Option<u64>, now_s: u64) -> bool {
    match policy {
        DumpPolicy::Never => false,
        DumpPolicy::Auto => true,
        DumpPolicy::UponRequest => false,
        DumpPolicy::Periodic(interval) => match last_dump {
            None => true,
            Some(t) => now_s > t && now_s - t > interval,
        },
    }
}

/// The last-dump time after a mutating operation consulted the policy at
/// `now_s`: under `Periodic` a firing trigger resets the timer to the
/// decision time — even if the write that follows fails — so a failing
/// target is not retried in a hot loop; other policies keep no timing state.
pub open spec fn next_last_dump(policy: DumpPolicy, last_dump: Option<u64>, now_s: u64) -> Option<
    u64,
> {
    if policy is Periodic && dump_due(policy, last_dump, now_s) {
        Some(now_s)
    } else {
        last_dump
    }
}

/// The decimal digit character for `d` (`d < 10`).
pub open spec fn dec_digit(d: nat) -> char {
    if d == 0 {
        '0'
    } else if d == 1 {
        '1'
    } else if d == 2 {
        '2'
    } else if d == 3 {
        '3'
    } else if d == 4 {
        '4'
    } else if d == 5 {
        '5'
    } else if d == 6 {
        '6'
    } else if d == 7 {
        '7'
    } else if d == 8 {
        '8'
    } else {
        '9'
    }
}

/// The decimal digit characters of `n`, most significant first.
pub open spec fn dec_str(n: nat) -> Seq<char>
    decreases n,
{
    if n < 10 {
        seq![dec_digit(n)]
    } else {
        dec_str(n / 10).push(dec_digit(n % 10))
    }
}

proof fn lemma_dec_str_len(n: nat)
    ensures
        dec_str(n).len() >= 1,
    decreases n,
{
    if n >= 10 {
        lemma_dec_str_len(n / 10);
    }
}

fn dec_digit_str(d: u64) -> (r: &'static str)
    requires
        d < 10,
    ensures
        r@ == seq![dec_digit(d as nat)],
{
    let r: &'static str = if d == 0 {
        "0"
    } else if d == 1 {
        "1"
    } else if d == 2 {
        "2"
    } else if d == 3 {
        "3"
    } else if d == 4 {
        "4"
    } else if d == 5 {
        "5"
    } else if d == 6 {
        "6"
    } else if d == 7 {
        "7"
    } else if d == 8 {
        "8"
    } else {
        "9"
    };
    proof {
        reveal_strlit("0");
        reveal_strlit("1");
        reveal_strlit("2");
        reveal_strlit("3");
        reveal_strlit("4");
        reveal_strlit("5");
        reveal_strlit("6");
        reveal_strlit("7");
        reveal_strlit("8");
        reveal_strlit("9");
        assert(r@ =~= seq![dec_digit(d as nat)]);
    }
    r
}

/// The decimal text of `n`, for the temporary file's uniqueness suffix.
fn u64_dec(n: u64) -> (s: String)
    ensures
        s@ == dec_str(n as nat),
    decreases n,
{
    if n < 10 {
        dec_digit_str(n).to_owned()
    } else {
        proof {
            assert(n / 10 < n) by (nonlinear_arith)
                requires
                    n >= 10,
            ;
        }
        let mut s = u64_dec(n / 10);
        s.append(dec_digit_str(n % 10));
        proof {
            assert(s@ =~= dec_str(n as nat));
        }
        s
    }
}

/// The temporary path a dump writes before the atomic rename:
/// `<path>.temp.<seconds>`.
pub open spec fn temp_path_of(path: Seq<char>, now_s: u64) -> Seq<char> {
    path + ".temp."@ + dec_str(now_s as nat)
}

/// The record a pending dump carries for rolling its operation back if the
/// file write fails: what stood under the touched key before the operation,
/// or nothing for a manual dump, which changes no state.
pub enum Undo {
    /// The operation replaced or removed the scalar entry under `key`;
    /// `prev_value` is what was there before, if anything.
    Scalar { key: String, prev_value: Option<String> },
    /// The operation replaced or removed the list entry under `key`;
    /// `prev_items` is what was there before, if anything.
    List { key: String, prev_items: Option<Vec<String>> },
    /// A manual dump: nothing to roll back.
    Nothing,
}

/// A dump the store has prepared but not performed: the caller writes
/// `payload` to the fresh `temp_path`, renames it onto `target_path`, and
/// reports the outcome through [`Pickle::mark_dumped`] or
/// [`Pickle::abort_dump`].
pub struct PendingDump {
    /// The fresh temporary path to write the payload to.
    pub temp_path: String,
    /// The backing path the temporary file is renamed onto.
    pub target_path: String,
    /// The encoded snapshot of the dataset at preparation time.
    pub payload: Vec<u8>,
    /// The rollback record `Pickle::abort_dump` applies on failure.
    pub undo: Undo,
}

impl PendingDump {
    /// The encoded snapshot bytes to write.
    pub open spec fn payload_view(self) -> Seq<u8> {
        self.payload@
    }

    /// The temporary path to write the payload to.
    pub open spec fn temp_path_view(self) -> Seq<char> {
        self.temp_path@
    }

    /// The backing path the temporary file is renamed onto.
    pub open spec fn target_path_view(self) -> Seq<char> {
        self.target_path@
    }

    /// The scalar mapping rolled back to its state before the operation that
    /// prepared this dump.
    pub open spec fn restore_scalars(self, scalars: Map<Seq<char>, Seq<char>>) -> Map<
        Seq<char>,
        Seq<char>,
    > {
        match self.undo {
            Undo::Scalar { key, prev_value: Some(p) } => scalars.insert(key@, p@),
            Undo::Scalar { key, prev_value: None } => scalars.remove(key@),
            _ => scalars,
        }
    }

    /// The list mapping rolled back to its state before the operation that
    /// prepared this dump.
    pub open spec fn restore_lists(self, lists: Map<Seq<char>, Seq<Seq<char>>>) -> Map<
        Seq<char>,
        Seq<Seq<char>>,
    > {
        match self.undo {
            Undo::List { key, prev_items: Some(p) } => lists.insert(key@, p.deep_view()),
            Undo::List { key, prev_items: None } => lists.remove(key@),
            _ => lists,
        }
    }

    /// Rolling this dump back in `db`'s current state keeps the store's key
    /// exclusivity.
    pub open spec fn fits(self, db: Pickle) -> bool {
        match self.undo {
            Undo::Scalar { key, prev_value: Some(p) } => !db.list_view().contains_key(key@),
            Undo::List { key, prev_items: Some(p) } => !db.scalar_view().contains_key(key@),
            _ => true,
        }
    }
}

/// The items of the list entry under `k` extended by `items`, starting from
/// an empty list when no entry is there.
pub open spec fn appended_list(
    lists: Map<Seq<char>, Seq<Seq<char>>>,
    k: Seq<char>,
    items: Seq<Seq<char>>,
) -> Seq<Seq<char>> {
    if lists.contains_key(k) {
        lists[k] + items
    } else {
        items
    }
}

/// A snapshot buffer `load` accepts: it parses, and no key appears both as a
/// scalar entry and as a list entry.
pub open spec fn load_accepts(content: Seq<u8>) -> bool {
    match parsed_snapshot(content) {
        Some(maps) => maps.0.dom().disjoint(maps.1.dom()),
        None => false,
    }
}

/// The in-memory key-value store.
pub struct Pickle {
    map: Vec<(String, String)>,
    list_map: Vec<(String, Vec<String>)>,
    serializer: Serializer,
    db_file_path: String,
    dump_policy: DumpPolicy,
    last_dump: Option<u64>,
}

impl Pickle {
    /// The scalar mapping: key to one encoded value.
    pub closed spec fn scalar_view(self) -> Map<Seq<char>, Seq<char>> {
        amap_of(self.map@)
    }

    /// The list mapping: key to ordered encoded items.
    pub closed spec fn list_view(self) -> Map<Seq<char>, Seq<Seq<char>>> {
        amap_of(self.list_map@)
    }

    /// The backing file path the store is bound to.
    pub closed spec fn path_view(self) -> Seq<char> {
        self.db_file_path@
    }

    /// The dump policy chosen at construction.
    pub closed spec fn policy(self) -> DumpPolicy {
        self.dump_policy
    }

    /// The time of the last dump decision, if any.
    pub closed spec fn last_dump_time(self) -> Option<u64> {
        self.last_dump
    }

    /// Well-formed: keys are distinct within each mapping and no key is in
    /// both mappings at once.
    pub closed spec fn wf(self) -> bool {
        &&& distinct_keys(self.map@)
        &&& distinct_keys(self.list_map@)
        &&& self.scalar_view().dom().disjoint(self.list_view().dom())
    }

    /// Constructs a new, empty store bound to `db_path`. The backing file is
    /// neither read nor written at construction time.
    pub fn new(
        db_path: String,
        dump_policy: DumpPolicy,
        serialization_method: SerializationMethod,
    ) -> (db: Pickle)
        ensures
            db.wf(),
            db.scalar_view() == Map::<Seq<char>, Seq<char>>::empty(),
            db.list_view() == Map::<Seq<char>, Seq<Seq<char>>>::empty(),
            db.path_view() == db_path@,
            db.policy() == dump_policy,
            db.last_dump_time() is None,
    {
        let db = Pickle {
            map: Vec::new(),
            list_map: Vec::new(),
            serializer: Serializer::new(serialization_method),
            db_file_path: db_path,
            dump_policy,
            last_dump: None,
        };
        proof {
            assert(db.scalar_view() =~= Map::<Seq<char>, Seq<char>>::empty());
            assert(db.list_view() =~= Map::<Seq<char>, Seq<Seq<char>>>::empty());
            assert(db.scalar_view().dom() =~= Set::<Seq<char>>::empty());
        }
        db
    }

    /// Retrieves the encoded value stored under `key` in the scalar mapping;
    /// a missing key — including a key that holds a list — yields `None`.
    /// Decoding the text against the caller's expected type happens outside
    /// the store, so a type mismatch also resolves to an absent value there.
    pub fn get(&self, key: &str) -> (r: Option<String>)
        requires
            self.wf(),
        ensures
            (match r {
                Some(v) => self.scalar_view().contains_key(key@)
                    && v@ == self.scalar_view()[key@],
                None => !self.scalar_view().contains_key(key@),
            }),
    {
        let k = key.to_owned();
        match assoc_get(&self.map, &k) {
            Some(v) => Some(v.clone()),
            None => None,
        }
    }

    /// True when `key` is present in either mapping.
    pub fn key_exists(&self, key: &str) -> (r: bool)
        requires
            self.wf(),
        ensures
            r == (self.scalar_view().contains_key(key@) || self.list_view().contains_key(key@)),
    {
        let k = key.to_owned();
        assoc_get(&self.map, &k).is_some() || assoc_get(&self.list_map, &k).is_some()
    }

    /// True when `key` holds a list entry.
    pub fn exists_as_list(&self, key: &str) -> (r: bool)
        requires
            self.wf(),
        ensures
            r == self.list_view().contains_key(key@),
    {
        let k = key.to_owned();
        assoc_get(&self.list_map, &k).is_some()
    }

    /// The total number of keys across both mappings.
    pub fn key_count(&self) -> (n: usize)
        requires
            self.wf(),
            self.scalar_view().dom().len() + self.list_view().dom().len() <= usize::MAX,
        ensures
            n == self.scalar_view().dom().len() + self.list_view().dom().len(),
    {
        proof {
            lemma_amap_len(self.map@);
            lemma_amap_len(self.list_map@);
        }
        self.map.len() + self.list_map.len()
    }

    /// The keys of the scalar mapping, each exactly once. List-entry keys are
    /// a separate concern, left to list-specific enumeration.
    pub fn list_keys(&self) -> (keys: Vec<String>)
        requires
            self.wf(),
        ensures
            keys@.len() == self.scalar_view().dom().len(),
            forall|i: int|
                0 <= i < keys@.len() ==> self.scalar_view().contains_key(#[trigger] keys@[i]@),
            forall|k: Seq<char>|
                #[trigger] self.scalar_view().contains_key(k) ==> exists|i: int|
                    0 <= i < keys@.len() && keys@[i]@ == k,
            forall|i: int, j: int| 0 <= i < j < keys@.len() ==> keys@[i]@ != keys@[j]@,
    {
        let mut keys: Vec<String> = Vec::new();
        let mut i: usize = 0;
        while i < self.map.len()
            invariant
                i <= self.map@.len(),
                keys@.len() == i,
                forall|j: int| 0 <= j < i ==> keys@[j]@ == self.map@[j].0@,
            decreases self.map@.len() - i,
        {
            keys.push(self.map[i].0.clone());
            i = i + 1;
        }
        proof {
            lemma_amap_len(self.map@);
            lemma_amap_dom(self.map@);
            assert forall|i: int|
                0 <= i < keys@.len() implies self.scalar_view().contains_key(
                #[trigger] keys@[i]@,
            ) by {
                assert(self.map@[i].0@ == keys@[i]@);
            }
            assert forall|k: Seq<char>|
                #[trigger] self.scalar_view().contains_key(k) implies exists|i: int|
                0 <= i < keys@.len() && keys@[i]@ == k by {
                let i = choose|i: int| 0 <= i < self.map@.len() && self.map@[i].0@ == k;
                assert(keys@[i]@ == k);
            }
        }
        keys
    }

    /// Consults the dump policy at `now_s`; under `Periodic` a firing
    /// trigger resets the timer to the decision time.
    fn consult_policy(&mut self, now_s: u64) -> (due: bool)
        ensures
            due == dump_due(old(self).dump_policy, old(self).last_dump, now_s),
            final(self).last_dump == next_last_dump(
                old(self).dump_policy,
                old(self).last_dump,
                now_s,
            ),
            final(self).map == old(self).map,
            final(self).list_map == old(self).list_map,
            final(self).serializer == old(self).serializer,
            final(self).db_file_path == old(self).db_file_path,
            final(self).dump_policy == old(self).dump_policy,
    {
        match self.dump_policy {
            DumpPolicy::Auto => true,
            DumpPolicy::Periodic(interval) => {
                let due = match self.last_dump {
                    None => true,
                    Some(t) => now_s > t && now_s - t > interval,
                };
                if due {
                    self.last_dump = Some(now_s);
                }
                due
            },
            _ => false,
        }
    }

    /// Encodes the snapshot — which cannot fail for the text datasets the
    /// store holds — and derives the fresh temporary path and the backing
    /// path for the atomic swap.
    fn prepare_dump(&self, now_s: u64) -> (r: (Vec<u8>, String, String))
        ensures
            parsed_snapshot(r.0@) == Some((self.scalar_view(), self.list_view())),
            r.1@ == temp_path_of(self.path_view(), now_s),
            r.2@ == self.path_view(),
            r.1@ != r.2@,
    {
        let payload = match self.serializer.serialize_db(&self.map, &self.list_map) {
            Ok(payload) => payload,
            Err(_) => unreached(),
        };
        let suffix = u64_dec(now_s);
        let temp_path = self.db_file_path.clone().concat(".temp.").concat(suffix.as_str());
        proof {
            reveal_strlit(".temp.");
            lemma_dec_str_len(now_s as nat);
            assert(temp_path@ =~= temp_path_of(self.db_file_path@, now_s));
            assert(temp_path@.len() > self.db_file_path@.len());
        }
        (payload, temp_path, self.db_file_path.clone())
    }

    /// Sets `key` to the encoded `value`. A list entry under the key is
    /// removed first, so afterwards the key is a scalar entry only. When the
    /// policy makes a dump due, the snapshot is encoded and handed back as a
    /// pending dump; this never fails, since snapshot encoding cannot fail
    /// for the text datasets the store holds.
    pub fn set(&mut self, key: &str, value: String, now_s: u64) -> (r: Result<
        Option<PendingDump>,
        Error,
    >)
        requires
            old(self).wf(),
        ensures
            final(self).wf(),
            final(self).path_view() == old(self).path_view(),
            final(self).policy() == old(self).policy(),
            final(self).last_dump_time() == next_last_dump(
                old(self).policy(),
                old(self).last_dump_time(),
                now_s,
            ),
            final(self).list_view() == old(self).list_view().remove(key@),
            (match r {
                Ok(j) => {
                    &&& final(self).scalar_view() == old(self).scalar_view().insert(key@, value@)
                    &&& (j is Some <==> dump_due(
                        old(self).policy(),
                        old(self).last_dump_time(),
                        now_s,
                    ))
                    &&& (match j {
                        Some(p) => {
                            &&& parsed_snapshot(p.payload_view()) == Some(
                                (final(self).scalar_view(), final(self).list_view()),
                            )
                            &&& p.temp_path_view() == temp_path_of(old(self).path_view(), now_s)
                            &&& p.target_path_view() == old(self).path_view()
                            &&& p.temp_path_view() != p.target_path_view()
                            &&& p.restore_scalars(final(self).scalar_view()) == old(self).scalar_view()
                            &&& p.restore_lists(final(self).list_view()) == final(self).list_view()
                            &&& p.fits(*final(self))
                        },
                        None => true,
                    })
                },
                Err(_) => false,
            }),
    {
        let ghost old_scalars = self.scalar_view();
        let ghost old_lists = self.list_view();
        let k = key.to_owned();
        let _ = assoc_remove(&mut self.list_map, &k);
        let prev = assoc_insert(&mut self.map, &k, value);
        proof {
            lemma_disjoint_insert_remove(old_scalars.dom(), old_lists.dom(), k@);
        }
        let due = self.consult_policy(now_s);
        if !due {
            return Ok(None);
        }
        let (payload, temp_path, target_path) = self.prepare_dump(now_s);
        let p = PendingDump {
            temp_path,
            target_path,
            payload,
            undo: Undo::Scalar { key: k, prev_value: prev },
        };
        proof {
            assert(p.restore_scalars(self.scalar_view()) =~= old_scalars);
            assert(p.restore_lists(self.list_view()) =~= self.list_view());
        }
        Ok(Some(p))
    }

    /// Removes `key` from whichever mapping holds it. Returns whether an
    /// entry was removed, together with the pending dump when the removal
    /// triggered one; at most one dump covers the call, and it never fails.
    pub fn remove(&mut self, key: &str, now_s: u64) -> (r: Result<
        (bool, Option<PendingDump>),
        Error,
    >)
        requires
            old(self).wf(),
        ensures
            final(self).wf(),
            final(self).path_view() == old(self).path_view(),
            final(self).policy() == old(self).policy(),
            (match r {
                Ok(res) => {
                    &&& res.0 == (old(self).scalar_view().contains_key(key@) || old(self).list_view().contains_key(key@))
                    &&& final(self).scalar_view() == old(self).scalar_view().remove(key@)
                    &&& final(self).list_view() == old(self).list_view().remove(key@)
                    &&& final(self).last_dump_time() == (if res.0 {
                        next_last_dump(old(self).policy(), old(self).last_dump_time(), now_s)
                    } else {
                        old(self).last_dump_time()
                    })
                    &&& (res.1 is Some <==> res.0 && dump_due(
                        old(self).policy(),
                        old(self).last_dump_time(),
                        now_s,
                    ))
                    &&& (match res.1 {
                        Some(p) => {
                            &&& parsed_snapshot(p.payload_view()) == Some(
                                (final(self).scalar_view(), final(self).list_view()),
                            )
                            &&& p.temp_path_view() == temp_path_of(old(self).path_view(), now_s)
                            &&& p.target_path_view() == old(self).path_view()
                            &&& p.temp_path_view() != p.target_path_view()
                            &&& p.restore_scalars(final(self).scalar_view()) == old(self).scalar_view()
                            &&& p.restore_lists(final(self).list_view()) == old(self).list_view()
                            &&& p.fits(*final(self))
                        },
                        None => true,
                    })
                },
                Err(_) => false,
            }),
    {
        let ghost old_scalars = self.scalar_view();
        let ghost old_lists = self.list_view();
        let k = key.to_owned();
        match assoc_remove(&mut self.map, &k) {
            Some(val) => {
                proof {
                    lemma_disjoint_shrink(old_scalars.dom(), old_lists.dom(), k@);
                    assert(self.list_view() =~= old_lists.remove(k@));
                }
                let due = self.consult_policy(now_s);
                if !due {
                    return Ok((true, None));
                }
                let (payload, temp_path, target_path) = self.prepare_dump(now_s);
                let p = PendingDump {
                    temp_path,
                    target_path,
                    payload,
                    undo: Undo::Scalar { key: k, prev_value: Some(val) },
                };
                proof {
                    assert(p.restore_scalars(self.scalar_view()) =~= old_scalars);
                    assert(p.restore_lists(self.list_view()) =~= old_lists);
                }
                Ok((true, Some(p)))
            },
            None => {
                match assoc_remove(&mut self.list_map, &k) {
                    Some(items) => {
                        proof {
                            lemma_disjoint_shrink(old_scalars.dom(), old_lists.dom(), k@);
                            assert(self.scalar_view() =~= old_scalars.remove(k@));
                        }
                        let due = self.consult_policy(now_s);
                        if !due {
                            return Ok((true, None));
                        }
                        let (payload, temp_path, target_path) = self.prepare_dump(now_s);
                        let p = PendingDump {
                            temp_path,
                            target_path,
                            payload,
                            undo: Undo::List { key: k, prev_items: Some(items) },
                        };
                        proof {
                            assert(p.restore_scalars(self.scalar_view()) =~= old_scalars);
                            assert(p.restore_lists(self.list_view()) =~= old_lists);
                        }
                        Ok((true, Some(p)))
                    },
                    None => {
                        proof {
                            assert(self.scalar_view() =~= old_scalars.remove(k@));
                            assert(self.list_view() =~= old_lists.remove(k@));
                        }
                        Ok((false, None))
                    },
                }
            },
        }
    }

    /// Appends one encoded item to the list entry under `key`, creating the
    /// list if absent; a scalar entry under the key is removed first, so
    /// afterwards the key is a list entry only. Dump handling mirrors `set`
    /// and, like it, never fails.
    pub fn ladd(&mut self, key: &str, value: String, now_s: u64) -> (r: Result<
        Option<PendingDump>,
        Error,
    >)
        requires
            old(self).wf(),
        ensures
            final(self).wf(),
            final(self).path_view() == old(self).path_view(),
            final(self).policy() == old(self).policy(),
            final(self).last_dump_time() == next_last_dump(
                old(self).policy(),
                old(self).last_dump_time(),
                now_s,
            ),
            final(self).scalar_view() == old(self).scalar_view().remove(key@),
            (match r {
                Ok(j) => {
                    &&& final(self).list_view() == old(self).list_view().insert(
                        key@,
                        appended_list(old(self).list_view(), key@, seq![value@]),
                    )
                    &&& (j is Some <==> dump_due(
                        old(self).policy(),
                        old(self).last_dump_time(),
                        now_s,
                    ))
                    &&& (match j {
                        Some(p) => {
                            &&& parsed_snapshot(p.payload_view()) == Some(
                                (final(self).scalar_view(), final(self).list_view()),
                            )
                            &&& p.temp_path_view() == temp_path_of(old(self).path_view(), now_s)
                            &&& p.target_path_view() == old(self).path_view()
                            &&& p.temp_path_view() != p.target_path_view()
                            &&& p.restore_lists(final(self).list_view()) == old(self).list_view()
                            &&& p.restore_scalars(final(self).scalar_view()) == final(self).scalar_view()
                            &&& p.fits(*final(self))
                        },
                        None => true,
                    })
                },
                Err(_) => false,
            }),
    {
        let ghost old_scalars = self.scalar_view();
        let ghost old_lists = self.list_view();
        let k = key.to_owned();
        let _ = assoc_remove(&mut self.map, &k);
        let (items, prev): (Vec<String>, Option<Vec<String>>) = match assoc_remove(
            &mut self.list_map,
            &k,
        ) {
            Some(olditems) => {
                let snapshot = clone_string_vec(&olditems);
                (olditems, Some(snapshot))
            },
            None => (Vec::new(), None),
        };
        let mut items = items;
        items.push(value);
        proof {
            assert(items.deep_view() =~= appended_list(old_lists, k@, seq![value@]));
        }
        let _ = assoc_insert(&mut self.list_map, &k, items);
        proof {
            assert(self.list_view() =~= old_lists.insert(
                k@,
                appended_list(old_lists, k@, seq![value@]),
            ));
            lemma_disjoint_insert_remove(old_lists.dom(), old_scalars.dom(), k@);
        }
        let due = self.consult_policy(now_s);
        if !due {
            return Ok(None);
        }
        let (payload, temp_path, target_path) = self.prepare_dump(now_s);
        let p = PendingDump {
            temp_path,
            target_path,
            payload,
            undo: Undo::List { key: k, prev_items: prev },
        };
        proof {
            assert(p.restore_lists(self.list_view()) =~= old_lists);
            assert(p.restore_scalars(self.scalar_view()) =~= self.scalar_view());
        }
        Ok(Some(p))
    }

    /// Appends every item of `values`, in order, to the list entry under
    /// `key`, creating the list if absent; a scalar entry under the key is
    /// removed first. One dump covers the whole extension, and it never
    /// fails.
    pub fn lextend(&mut self, key: &str, values: Vec<String>, now_s: u64) -> (r: Result<
        Option<PendingDump>,
        Error,
    >)
        requires
            old(self).wf(),
        ensures
            final(self).wf(),
            final(self).path_view() == old(self).path_view(),
            final(self).policy() == old(self).policy(),
            final(self).last_dump_time() == next_last_dump(
                old(self).policy(),
                old(self).last_dump_time(),
                now_s,
            ),
            final(self).scalar_view() == old(self).scalar_view().remove(key@),
            (match r {
                Ok(j) => {
                    &&& final(self).list_view() == old(self).list_view().insert(
                        key@,
                        appended_list(old(self).list_view(), key@, values.deep_view()),
                    )
                    &&& (j is Some <==> dump_due(
                        old(self).policy(),
                        old(self).last_dump_time(),
                        now_s,
                    ))
                    &&& (match j {
                        Some(p) => {
                            &&& parsed_snapshot(p.payload_view()) == Some(
                                (final(self).scalar_view(), final(self).list_view()),
                            )
                            &&& p.temp_path_view() == temp_path_of(old(self).path_view(), now_s)
                            &&& p.target_path_view() == old(self).path_view()
                            &&& p.temp_path_view() != p.target_path_view()
                            &&& p.restore_lists(final(self).list_view()) == old(self).list_view()
                            &&& p.restore_scalars(final(self).scalar_view()) == final(self).scalar_view()
                            &&& p.fits(*final(self))
                        },
                        None => true,
                    })
                },
                Err(_) => false,
            }),
    {
        let ghost old_scalars = self.scalar_view();
        let ghost old_lists = self.list_view();
        let k = key.to_owned();
        let _ = assoc_remove(&mut self.map, &k);
        let (items, prev): (Vec<String>, Option<Vec<String>>) = match assoc_remove(
            &mut self.list_map,
            &k,
        ) {
            Some(olditems) => {
                let snapshot = clone_string_vec(&olditems);
                (olditems, Some(snapshot))
            },
            None => (Vec::new(), None),
        };
        let mut items = items;
        append_all(&mut items, &values);
        proof {
            assert(items.deep_view() =~= appended_list(old_lists, k@, values.deep_view()));
        }
        let _ = assoc_insert(&mut self.list_map, &k, items);
        proof {
            assert(self.list_view() =~= old_lists.insert(
                k@,
                appended_list(old_lists, k@, values.deep_view()),
            ));
            lemma_disjoint_insert_remove(old_lists.dom(), old_scalars.dom(), k@);
        }
        let due = self.consult_policy(now_s);
        if !due {
            return Ok(None);
        }
        let (payload, temp_path, target_path) = self.prepare_dump(now_s);
        let p = PendingDump {
            temp_path,
            target_path,
            payload,
            undo: Undo::List { key: k, prev_items: prev },
        };
        proof {
            assert(p.restore_lists(self.list_view()) =~= old_lists);
            assert(p.restore_scalars(self.scalar_view()) =~= self.scalar_view());
        }
        Ok(Some(p))
    }

    /// The encoded items of the list entry under `key`, in order, or `None`
    /// when the key holds no list.
    pub fn lget(&self, key: &str) -> (r: Option<Vec<String>>)
        requires
            self.wf(),
        ensures
            (match r {
                Some(items) => self.list_view().contains_key(key@) && items.deep_view()
                    == self.list_view()[key@],
                None => !self.list_view().contains_key(key@),
            }),
    {
        let k = key.to_owned();
        match assoc_get(&self.list_map, &k) {
            Some(items) => Some(clone_string_vec(items)),
            None => None,
        }
    }

    /// Prepares a manual dump of the current dataset. Under `Never` the
    /// request is honored as a silent no-op: nothing is handed out, nothing
    /// is written. Under every other policy the snapshot is encoded — which
    /// cannot fail for the text datasets the store holds — and returned for
    /// the caller to write. Memory does not change; report a completed write
    /// with `mark_dumped`.
    pub fn dump(&self, now_s: u64) -> (r: Result<Option<PendingDump>, Error>)
        requires
            self.wf(),
        ensures
            (match r {
                Ok(j) => {
                    &&& (j is Some <==> !(self.policy() is Never))
                    &&& (match j {
                        Some(p) => {
                            &&& parsed_snapshot(p.payload_view()) == Some(
                                (self.scalar_view(), self.list_view()),
                            )
                            &&& p.temp_path_view() == temp_path_of(self.path_view(), now_s)
                            &&& p.target_path_view() == self.path_view()
                            &&& p.temp_path_view() != p.target_path_view()
                            &&& p.restore_scalars(self.scalar_view()) == self.scalar_view()
                            &&& p.restore_lists(self.list_view()) == self.list_view()
                            &&& p.fits(*self)
                        },
                        None => true,
                    })
                },
                Err(_) => false,
            }),
    {
        match self.dump_policy {
            DumpPolicy::Never => Ok(None),
            _ => {
                let (payload, temp_path, target_path) = self.prepare_dump(now_s);
                Ok(
                    Some(
                        (PendingDump { temp_path, target_path, payload, undo: Undo::Nothing }),
                    ),
                )
            },
        }
    }

    /// Records that a prepared dump's write and rename completed at `now_s`:
    /// under `Periodic` the timer resets to that time; other policies keep no
    /// timing state. Memory is already in its post-operation state.
    pub fn mark_dumped(&mut self, now_s: u64)
        requires
            old(self).wf(),
        ensures
            final(self).wf(),
            final(self).scalar_view() == old(self).scalar_view(),
            final(self).list_view() == old(self).list_view(),
            final(self).path_view() == old(self).path_view(),
            final(self).policy() == old(self).policy(),
            final(self).last_dump_time() == (if old(self).policy() is Periodic {
                Some(now_s)
            } else {
                old(self).last_dump_time()
            }),
    {
        match self.dump_policy {
            DumpPolicy::Periodic(_) => {
                self.last_dump = Some(now_s);
            },
            _ => {},
        }
    }

    /// Reports that the write or rename of a prepared dump failed: the
    /// mapping the operation touched is rolled back to its pre-operation
    /// state, and the I/O error to propagate — carrying `io_message` — is
    /// returned. The previously persisted file was never touched, so memory
    /// and disk agree again.
    pub fn abort_dump(&mut self, pending: PendingDump, io_message: String) -> (e: Error)
        requires
            old(self).wf(),
            pending.fits(*old(self)),
        ensures
            final(self).wf(),
            final(self).scalar_view() == pending.restore_scalars(old(self).scalar_view()),
            final(self).list_view() == pending.restore_lists(old(self).list_view()),
            final(self).path_view() == old(self).path_view(),
            final(self).policy() == old(self).policy(),
            final(self).last_dump_time() == old(self).last_dump_time(),
            e.is_io(),
            e.message_view() == io_message@,
    {
        let ghost old_scalars = self.scalar_view();
        let ghost old_lists = self.list_view();
        match pending.undo {
            Undo::Scalar { key, prev_value: Some(v) } => {
                let _ = assoc_insert(&mut self.map, &key, v);
                proof {
                    lemma_disjoint_insert_fresh(old_scalars.dom(), old_lists.dom(), key@);
                }
            },
            Undo::Scalar { key, prev_value: None } => {
                let _ = assoc_remove(&mut self.map, &key);
                proof {
                    lemma_disjoint_shrink(old_scalars.dom(), old_lists.dom(), key@);
                }
            },
            Undo::List { key, prev_items: Some(items) } => {
                let _ = assoc_insert(&mut self.list_map, &key, items);
                proof {
                    lemma_disjoint_insert_fresh(old_lists.dom(), old_scalars.dom(), key@);
                }
            },
            Undo::List { key, prev_items: None } => {
                let _ = assoc_remove(&mut self.list_map, &key);
                proof {
                    lemma_disjoint_shrink(old_lists.dom(), old_scalars.dom(), key@);
                }
            },
            Undo::Nothing => {},
        }
        Error::new(ErrorCode::Io(io_message))
    }

    /// Builds a store from the bytes of a persisted snapshot, bound to
    /// `db_path`. Fails with a serialization error exactly when the bytes are
    /// not a well-formed snapshot for the codec, or when the decoded snapshot
    /// holds some key both as a scalar and as a list entry.
    pub fn load(
        content: &[u8],
        db_path: String,
        dump_policy: DumpPolicy,
        serialization_method: SerializationMethod,
    ) -> (r: Result<Pickle, Error>)
        ensures
            (match r {
                Ok(db) => {
                    &&& db.wf()
                    &&& load_accepts(content@)
                    &&& parsed_snapshot(content@) == Some((db.scalar_view(), db.list_view()))
                    &&& db.path_view() == db_path@
                    &&& db.policy() == dump_policy
                    &&& db.last_dump_time() is None
                },
                Err(e) => e.is_serialization() && !load_accepts(content@),
            }),
    {
        let serializer = Serializer::new(serialization_method);
        match serializer.deserialize_db(content) {
            Ok((map, list_map)) => {
                if disjoint_check(&map, &list_map) {
                    let db = Pickle {
                        map,
                        list_map,
                        serializer,
                        db_file_path: db_path,
                        dump_policy,
                        last_dump: None,
                    };
                    Ok(db)
                } else {
                    Err(
                        Error::new(
                            ErrorCode::Serialization(
                                "snapshot holds a key as both a scalar and a list".to_owned(),
                            ),
                        ),
                    )
                }
            },
            Err(msg) => Err(Error::new(ErrorCode::Serialization(msg))),
        }
    }

    /// Builds a store from the bytes of a persisted snapshot using the JSON
    /// method.
    pub fn load_json(content: &[u8], db_path: String, dump_policy: DumpPolicy) -> (r: Result<
        Pickle,
        Error,
    >)
        ensures
            (match r {
                Ok(db) => {
                    &&& db.wf()
                    &&& load_accepts(content@)
                    &&& parsed_snapshot(content@) == Some((db.scalar_view(), db.list_view()))
                    &&& db.path_view() == db_path@
                    &&& db.policy() == dump_policy
                    &&& db.last_dump_time() is None
                },
                Err(e) => e.is_serialization() && !load_accepts(content@),
            }),
    {
        Pickle::load(content, db_path, dump_policy, SerializationMethod::Json)
    }
}

/// A copy of a vector of encoded items, equal under the deep view.
fn clone_string_vec(v: &Vec<String>) -> (r: Vec<String>)
    ensures
        r.deep_view() == v.deep_view(),
{
    let mut r: Vec<String> = Vec::new();
    let mut i: usize = 0;
    while i < v.len()
        invariant
            i <= v@.len(),
            r@.len() == i,
            forall|j: int| 0 <= j < i ==> r@[j]@ == v@[j]@,
        decreases v@.len() - i,
    {
        r.push(v[i].clone());
        i = i + 1;
    }
    proof {
        assert(r.deep_view() =~= v.deep_view());
    }
    r
}

/// Appends clones of all of `values` to `items`, in order.
fn append_all(items: &mut Vec<String>, values: &Vec<String>)
    ensures
        final(items).deep_view() == old(items).deep_view() + values.deep_view(),
{
    let mut i: usize = 0;
    while i < values.len()
        invariant
            i <= values@.len(),
            items@.len() == old(items)@.len() + i,
            forall|j: int| 0 <= j < old(items)@.len() ==> items@[j] == old(items)@[j],
            forall|j: int| 0 <= j < i ==> items@[old(items)@.len() + j]@ == values@[j]@,
        decreases values@.len() - i,
    {
        items.push(values[i].clone());
        i = i + 1;
    }
    proof {
        assert(items.deep_view() =~= old(items).deep_view() + values.deep_view());
    }
}

/// True exactly when no key is in both decoded mappings.
fn disjoint_check(map: &Vec<(String, String)>, list_map: &Vec<(String, Vec<String>)>) -> (r: bool)
    requires
        distinct_keys(map@),
        distinct_keys(list_map@),
    ensures
        r == amap_of(map@).dom().disjoint(amap_of(list_map@).dom()),
{
    let mut i: usize = 0;
    while i < map.len()
        invariant
            i <= map@.len(),
            distinct_keys(map@),
            distinct_keys(list_map@),
            forall|j: int| 0 <= j < i ==> !amap_of(list_map@).contains_key(#[trigger] map@[j].0@),
        decreases map@.len() - i,
    {
        if assoc_get(list_map, &map[i].0).is_some() {
            proof {
                lemma_amap_index(map@, i as int);
                assert(!amap_of(map@).dom().disjoint(amap_of(list_map@).dom()));
            }
            return false;
        }
        i = i + 1;
    }
    proof {
        lemma_amap_dom(map@);
        assert forall|x: Seq<char>|
            amap_of(map@).dom().contains(x) implies !amap_of(list_map@).dom().contains(x) by {
            let j = choose|j: int| 0 <= j < map@.len() && map@[j].0@ == x;
            assert(!amap_of(list_map@).contains_key(map@[j].0@));
        }
    }
    true
}

/// Key disjointness survives moving a key out of one mapping into the other.
proof fn lemma_disjoint_insert_remove(a: Set<Seq<char>>, b: Set<Seq<char>>, x: Seq<char>)
    requires
        a.disjoint(b),
    ensures
        a.insert(x).disjoint(b.remove(x)),
        b.remove(x).disjoint(a.insert(x)),
{
}

/// Key disjointness survives shrinking either side.
proof fn lemma_disjoint_shrink(a: Set<Seq<char>>, b: Set<Seq<char>>, x: Seq<char>)
    requires
        a.disjoint(b),
    ensures
        a.remove(x).disjoint(b),
        a.disjoint(b.remove(x)),
        b.disjoint(a.remove(x)),
        b.remove(x).disjoint(a),
{
}

/// Key disjointness survives inserting an element absent from the other side.
proof fn lemma_disjoint_insert_fresh(a: Set<Seq<char>>, b: Set<Seq<char>>, x: Seq<char>)
    requires
        a.disjoint(b),
        !b.contains(x),
    ensures
        a.insert(x).disjoint(b),
        b.disjoint(a.insert(x)),
{
}

/// Key exclusivity: in a well-formed store no key is at once a scalar entry
/// and a list entry.
pub proof fn lemma_key_exclusivity(db: Pickle, k: Seq<char>)
    requires
        db.wf(),
    ensures
        !(db.scalar_view().contains_key(k) && db.list_view().contains_key(k)),
{
}

/// Snapshot round-trip: a payload that encodes a well-formed store's dataset
/// — as every payload a dump prepares does — is accepted by `load`, which by
/// its contract then rebuilds exactly the dataset the payload parses to:
/// the store's own two mappings.
pub proof fn lemma_snapshot_round_trip(db: Pickle, payload: Seq<u8>)
    requires
        db.wf(),
        parsed_snapshot(payload) == Some((db.scalar_view(), db.list_view())),
    ensures
        load_accepts(payload),
        (parsed_snapshot(payload) matches Some(maps) && maps.0 == db.scalar_view() && maps.1
            == db.list_view()),
{
}

/// Never policy: no mutating operation ever triggers a dump, and no timing
/// state accrues.
pub proof fn lemma_never_no_trigger(last_dump: Option<u64>, now_s: u64)
    ensures
        !dump_due(DumpPolicy::Never, last_dump, now_s),
        next_last_dump(DumpPolicy::Never, last_dump, now_s) == last_dump,
{
}

/// Periodic policy: when a mutating operation at `t1` triggered a dump, a
/// second operation no later than the interval after `t1` does not trigger —
/// two back-to-back mutations dump at most once.
pub proof fn lemma_periodic_at_most_one(interval: u64, last_dump: Option<u64>, t1: u64, t2: u64)
    requires
        dump_due(DumpPolicy::Periodic(interval), last_dump, t1),
        t2 <= t1 + interval,
    ensures
        !dump_due(
            DumpPolicy::Periodic(interval),
            next_last_dump(DumpPolicy::Periodic(interval), last_dump, t1), t2),
{
}

/// Periodic policy: once more than the interval has passed since the last
/// trigger, the next mutating operation triggers exactly one more dump.
pub proof fn lemma_periodic_fires_again(interval: u64, t1: u64, t2: u64)
    requires
        t2 > t1 + interval,
    ensures
        dump_due(DumpPolicy::Periodic(interval), Some(t1), t2),
{
}

} // verus!
