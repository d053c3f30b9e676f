//! A chaining helper for appending several items to one list entry.

use crate::error::Error;
use crate::rustypickle::{
    appended_list, dump_due, next_last_dump, temp_path_of, PendingDump, Pickle,
};
use crate::serialization::parsed_snapshot;
use vstd::prelude::*;

verus! {

/// A short-lived handle naming one list entry, for fluent multi-item append
/// chains; each call delegates to the store's list-append primitives. It
/// carries no state beyond the list name, so it cannot outlive anything.
pub struct PickleListExtender {
    list_name: String,
}

impl PickleListExtender {
    /// The name of the list entry this handle appends to.
    pub closed spec fn name_view(self) -> Seq<char> {
        self.list_name@
    }

    /// A handle for the list entry under `list_name`.
    pub fn new(list_name: String) -> (e: PickleListExtender)
        ensures
            e.name_view() == list_name@,
    {
        PickleListExtender { list_name }
    }

    /// Appends one encoded item to the named list, exactly as `Pickle::ladd`
    /// does for this handle's name; like it, this never fails.
    pub fn ladd(&self, db: &mut Pickle, value: String, now_s: u64) -> (r: Result<
        Option<PendingDump>,
        Error,
    >)
        requires
            old(db).wf(),
        ensures
            final(db).wf(),
            final(db).path_view() == old(db).path_view(),
            final(db).policy() == old(db).policy(),
            final(db).last_dump_time() == next_last_dump(
                old(db).policy(),
                old(db).last_dump_time(),
                now_s,
            ),
            final(db).scalar_view() == old(db).scalar_view().remove(self.name_view()),
            (match r {
                Ok(j) => {
                    &&& final(db).list_view() == old(db).list_view().insert(
                        self.name_view(),
                        appended_list(old(db).list_view(), self.name_view(), seq![value@]),
                    )
                    &&& (j is Some <==> dump_due(
                        old(db).policy(),
                        old(db).last_dump_time(),
                        now_s,
                    ))
                    &&& (match j {
                        Some(p) => {
                            &&& parsed_snapshot(p.payload_view()) == Some(
                                (final(db).scalar_view(), final(db).list_view()),
                            )
                            &&& p.temp_path_view() == temp_path_of(old(db).path_view(), now_s)
                            &&& p.target_path_view() == old(db).path_view()
                            &&& p.temp_path_view() != p.target_path_view()
                            &&& p.restore_lists(final(db).list_view()) == old(db).list_view()
                            &&& p.restore_scalars(final(db).scalar_view()) == final(db).scalar_view()
                            &&& p.fits(*final(db))
                        },
                        None => true,
                    })
                },
                Err(_) => false,
            }),
    {
        db.ladd(self.list_name.as_str(), value, now_s)
    }

    /// Appends every item of `values`, in order, to the named list, exactly
    /// as `Pickle::lextend` does for this handle's name; like it, this never
    /// fails.
    pub fn lextend(&self, db: &mut Pickle, values: Vec<String>, now_s: u64) -> (r: Result<
        Option<PendingDump>,
        Error,
    >)
        requires
            old(db).wf(),
        ensures
            final(db).wf(),
            final(db).path_view() == old(db).path_view(),
            final(db).policy() == old(db).policy(),
            final(db).last_dump_time() == next_last_dump(
                old(db).policy(),
                old(db).last_dump_time(),
                now_s,
            ),
            final(db).scalar_view() == old(db).scalar_view().remove(self.name_view()),
            (match r {
                Ok(j) => {
                    &&& final(db).list_view() == old(db).list_view().insert(
                        self.name_view(),
                        appended_list(old(db).list_view(), self.name_view(), values.deep_view()),
                    )
                    &&& (j is Some <==> dump_due(
                        old(db).policy(),
                        old(db).last_dump_time(),
                        now_s,
                    ))
                    &&& (match j {
                        Some(p) => {
                            &&& parsed_snapshot(p.payload_view()) == Some(
                                (final(db).scalar_view(), final(db).list_view()),
                            )
                            &&& p.temp_path_view() == temp_path_of(old(db).path_view(), now_s)
                            &&& p.target_path_view() == old(db).path_view()
                            &&& p.temp_path_view() != p.target_path_view()
                            &&& p.restore_lists(final(db).list_view()) == old(db).list_view()
                            &&& p.restore_scalars(final(db).scalar_view()) == final(db).scalar_view()
                            &&& p.fits(*final(db))
                        },
                        None => true,
                    })
                },
                Err(_) => false,
            }),
    {
        db.lextend(self.list_name.as_str(), values, now_s)
    }
}

} // verus!
