//! The program store: one record per tracked program plus the two
//! append-only history tables. This is the data that the surrounding
//! application persists; the store here is the verified model of it, with
//! the same operations, keyed by program name.
//!
//! The program list is kept in strictly ascending name order, so names are
//! unique and every read hands the programs back in the deterministic order
//! that the update-check pass processes them in.

use vstd::prelude::*;

use crate::sorting::{
    contains_name, insert_at_name_position, lemma_sorted_insert_ensures, sorted_insert,
    strictly_sorted_by_name,
};
use crate::text::str_eq;
use crate::{
    check_history_views, program_views, timestamp_view, update_history_views, NotificationInfo,
    Program, ProgramView, Timestamp, UpdateCheckHistoryEntry, UpdateCheckHistoryEntryView,
    UpdateHistoryEntry, UpdateHistoryEntryView,
};

verus! {

/// How a store operation can be refused.
#[derive(Debug, PartialEq, Eq, Structural, Clone, Copy)]
pub enum DbError {
    /// A program with the given name is already stored.
    ProgramAlreadyExists,
    /// No program with the given name is stored.
    ProgramNotFound,
}

/// `p` with a new latest version, observed at `t`.
pub open spec fn with_latest_version(p: ProgramView, version: Seq<char>, t: int) -> ProgramView {
    ProgramView { latest_version: version, latest_version_last_updated: t, ..p }
}

/// `p` with a new current version, adopted at `t`.
pub open spec fn with_current_version(p: ProgramView, version: Seq<char>, t: int) -> ProgramView {
    ProgramView { current_version: version, current_version_last_updated: t, ..p }
}

/// `p` with the notification-sent flag replaced.
pub open spec fn with_notification_sent(p: ProgramView, sent: bool) -> ProgramView {
    ProgramView { notification_sent: sent, ..p }
}

/// `p` with the notification-sent timestamp replaced.
pub open spec fn with_notification_sent_on(p: ProgramView, sent_on: Option<int>) -> ProgramView {
    ProgramView { notification_sent_on: sent_on, ..p }
}

/// The store: tracked programs plus the check-history and update-history
/// tables.
pub struct Db {
    programs: Vec<Program>,
    update_checks: Vec<UpdateCheckHistoryEntry>,
    updates: Vec<UpdateHistoryEntry>,
}

/// Specification-level image of a [`Db`].
pub struct DbView {
    pub programs: Seq<ProgramView>,
    pub update_check_history: Seq<UpdateCheckHistoryEntryView>,
    pub update_history: Seq<UpdateHistoryEntryView>,
}

impl View for Db {
    type V = DbView;

    closed spec fn view(&self) -> DbView {
        DbView {
            programs: program_views(self.programs@),
            update_check_history: check_history_views(self.update_checks@),
            update_history: update_history_views(self.updates@),
        }
    }
}

impl Db {
    /// The program list is in strictly ascending name order, so names are
    /// unique. Every constructor establishes this and every operation keeps
    /// it.
    pub open spec fn wf(&self) -> bool {
        strictly_sorted_by_name(self@.programs)
    }

    /// An empty store.
    pub fn new() -> (r: Self)
        ensures
            r.wf(),
            r@.programs == Seq::<ProgramView>::empty(),
            r@.update_check_history == Seq::<UpdateCheckHistoryEntryView>::empty(),
            r@.update_history == Seq::<UpdateHistoryEntryView>::empty(),
    {
        let r = Db { programs: Vec::new(), update_checks: Vec::new(), updates: Vec::new() };
        proof {
            assert(r@.programs =~= Seq::<ProgramView>::empty());
            assert(r@.update_check_history =~= Seq::<UpdateCheckHistoryEntryView>::empty());
            assert(r@.update_history =~= Seq::<UpdateHistoryEntryView>::empty());
        }
        r
    }

    /// Add a program to the store. Refused when a program with the same name
    /// is already stored; nothing changes in that case.
    pub fn insert_program(&mut self, program: &Program) -> (r: Result<(), DbError>)
        requires
            old(self).wf(),
        ensures
            final(self).wf(),
            r is Ok <==> !contains_name(old(self)@.programs, program@.name),
            r is Ok ==> final(self)@.programs == sorted_insert(old(self)@.programs, program@),
            r is Err ==> r == Err::<(), DbError>(DbError::ProgramAlreadyExists)
                && final(self)@.programs == old(self)@.programs,
            final(self)@.update_check_history == old(self)@.update_check_history,
            final(self)@.update_history == old(self)@.update_history,
    {
        if self.get_program(program.name.as_str()).is_some() {
            return Err(DbError::ProgramAlreadyExists);
        }
        insert_at_name_position(&mut self.programs, program.clone());
        proof {
            lemma_sorted_insert_ensures(old(self)@.programs, program@);
        }
        Ok(())
    }

    /// Remove the program with this name from the store. Refused when no
    /// such program is stored; nothing changes in that case.
    pub fn remove_program(&mut self, name: &str) -> (r: Result<(), DbError>)
        requires
            old(self).wf(),
        ensures
            final(self).wf(),
            r is Ok <==> contains_name(old(self)@.programs, name@),
            r is Ok ==> exists|i: int|
                0 <= i < old(self)@.programs.len() && old(self)@.programs[i].name == name@
                    && final(self)@.programs == old(self)@.programs.remove(i),
            r is Err ==> r == Err::<(), DbError>(DbError::ProgramNotFound)
                && final(self)@.programs == old(self)@.programs,
            final(self)@.update_check_history == old(self)@.update_check_history,
            final(self)@.update_history == old(self)@.update_history,
    {
        let n = self.programs.len();
        let mut i: usize = 0;
        while i < n
            invariant
                i <= n,
                n == self.programs.len(),
                old(self).wf(),
                self.programs@ == old(self).programs@,
                self.update_checks@ == old(self).update_checks@,
                self.updates@ == old(self).updates@,
                forall|k: int| 0 <= k < i ==> self.programs@[k]@.name != name@,
            decreases n - i,
        {
            if str_eq(self.programs[i].name.as_str(), name) {
                let ghost before = self@.programs;
                proof {
                    assert(before == old(self)@.programs);
                    assert(strictly_sorted_by_name(before));
                    assert(old(self)@.programs[i as int].name == name@);
                }
                self.programs.remove(i);
                proof {
                    assert(self@.programs =~= before.remove(i as int));
                    assert(before[i as int].name == name@);
                    assert forall|a: int, b: int|
                        0 <= a < b < self@.programs.len() implies crate::text::chars_lt(
                        self@.programs[a].name,
                        self@.programs[b].name,
                    ) by {
                        if b < i {
                            assert(self@.programs[a] == before[a]);
                            assert(self@.programs[b] == before[b]);
                        } else if a < i {
                            assert(self@.programs[a] == before[a]);
                            assert(self@.programs[b] == before[b + 1]);
                        } else {
                            assert(self@.programs[a] == before[a + 1]);
                            assert(self@.programs[b] == before[b + 1]);
                        }
                    }
                }
                return Ok(());
            }
            i += 1;
        }
        proof {
            if contains_name(self@.programs, name@) {
                let k = choose|k: int|
                    0 <= k < self@.programs.len() && self@.programs[k].name == name@;
                assert(self.programs@[k]@.name == name@);
            }
        }
        Err(DbError::ProgramNotFound)
    }

    /// Retrieve the program with this name, or `None` when no program with
    /// that name is stored.
    pub fn get_program(&self, name: &str) -> (r: Option<Program>)
        requires
            self.wf(),
        ensures
            r is Some <==> contains_name(self@.programs, name@),
            match r {
                Some(p) => forall|i: int|
                    0 <= i < self@.programs.len() && (#[trigger] self@.programs[i]).name == name@
                        ==> p@ == self@.programs[i],
                None => true,
            },
    {
        let n = self.programs.len();
        let mut i: usize = 0;
        while i < n
            invariant
                i <= n,
                n == self.programs.len(),
                self.wf(),
                forall|k: int| 0 <= k < i ==> self.programs@[k]@.name != name@,
            decreases n - i,
        {
            if str_eq(self.programs[i].name.as_str(), name) {
                let p = self.programs[i].clone();
                proof {
                    assert(self@.programs[i as int].name == name@);
                    assert forall|k: int|
                        0 <= k < self@.programs.len() && (#[trigger] self@.programs[k]).name
                            == name@ implies p@ == self@.programs[k] by {
                        if k != i as int {
                            crate::text::lemma_chars_lt_irreflexive(self@.programs[k].name);
                        }
                    }
                }
                return Some(p);
            }
            i += 1;
        }
        proof {
            if contains_name(self@.programs, name@) {
                let k = choose|k: int|
                    0 <= k < self@.programs.len() && self@.programs[k].name == name@;
                assert(self.programs@[k]@.name == name@);
            }
        }
        None
    }

    /// Retrieve all stored programs, in ascending name order.
    pub fn get_all_programs(&self) -> (r: Vec<Program>)
        ensures
            program_views(r@) == self@.programs,
    {
        let n = self.programs.len();
        let mut r: Vec<Program> = Vec::new();
        let mut i: usize = 0;
        while i < n
            invariant
                i <= n,
                n == self.programs.len(),
                r@.len() == i,
                forall|k: int| 0 <= k < i ==> r@[k]@ == self.programs@[k]@,
            decreases n - i,
        {
            r.push(self.programs[i].clone());
            i += 1;
        }
        proof {
            assert(program_views(r@) =~= self@.programs);
        }
        r
    }

    /// How many programs are stored.
    pub fn program_count(&self) -> (r: usize)
        ensures
            r == self@.programs.len(),
    {
        self.programs.len()
    }

    /// A reference to the `i`-th program in name order.
    pub fn program_at(&self, i: usize) -> (r: &Program)
        requires
            i < self@.programs.len(),
        ensures
            r@ == self@.programs[i as int],
    {
        &self.programs[i]
    }

    /// Record a newly observed latest version for the program with this
    /// name; programs with other names are untouched.
    pub fn update_latest_version(
        &mut self,
        name: &str,
        latest_version: &str,
        latest_version_last_updated: Timestamp,
    )
        requires
            old(self).wf(),
        ensures
            final(self).wf(),
            final(self)@.programs.len() == old(self)@.programs.len(),
            forall|j: int|
                0 <= j < old(self)@.programs.len() ==> final(self)@.programs[j] == (
                if old(self)@.programs[j].name == name@ {
                    with_latest_version(
                        old(self)@.programs[j],
                        latest_version@,
                        latest_version_last_updated as int,
                    )
                } else {
                    old(self)@.programs[j]
                }),
            final(self)@.update_check_history == old(self)@.update_check_history,
            final(self)@.update_history == old(self)@.update_history,
    {
        let n = self.programs.len();
        let mut j: usize = 0;
        while j < n
            invariant
                j <= n,
                n == self.programs@.len(),
                self.programs@.len() == old(self).programs@.len(),
                forall|k: int| j <= k < n ==> self.programs@[k] == old(self).programs@[k],
                forall|k: int|
                    0 <= k < j ==> self.programs@[k]@ == (
                    if old(self).programs@[k]@.name == name@ {
                        with_latest_version(
                            old(self).programs@[k]@,
                            latest_version@,
                            latest_version_last_updated as int,
                        )
                    } else {
                        old(self).programs@[k]@
                    }),
                self.update_checks@ == old(self).update_checks@,
                self.updates@ == old(self).updates@,
            decreases n - j,
        {
            if str_eq(self.programs[j].name.as_str(), name) {
                self.programs[j].latest_version = latest_version.to_owned();
                self.programs[j].latest_version_last_updated = latest_version_last_updated;
            }
            j += 1;
        }
        proof {
            self.lemma_same_names_keep_wf(old(self));
        }
    }

    /// Record an adopted current version for the program with this name;
    /// programs with other names are untouched.
    pub fn update_current_version(
        &mut self,
        name: &str,
        current_version: &str,
        current_version_last_updated: Timestamp,
    )
        requires
            old(self).wf(),
        ensures
            final(self).wf(),
            final(self)@.programs.len() == old(self)@.programs.len(),
            forall|j: int|
                0 <= j < old(self)@.programs.len() ==> final(self)@.programs[j] == (
                if old(self)@.programs[j].name == name@ {
                    with_current_version(
                        old(self)@.programs[j],
                        current_version@,
                        current_version_last_updated as int,
                    )
                } else {
                    old(self)@.programs[j]
                }),
            final(self)@.update_check_history == old(self)@.update_check_history,
            final(self)@.update_history == old(self)@.update_history,
    {
        let n = self.programs.len();
        let mut j: usize = 0;
        while j < n
            invariant
                j <= n,
                n == self.programs@.len(),
                self.programs@.len() == old(self).programs@.len(),
                forall|k: int| j <= k < n ==> self.programs@[k] == old(self).programs@[k],
                forall|k: int|
                    0 <= k < j ==> self.programs@[k]@ == (
                    if old(self).programs@[k]@.name == name@ {
                        with_current_version(
                            old(self).programs@[k]@,
                            current_version@,
                            current_version_last_updated as int,
                        )
                    } else {
                        old(self).programs@[k]@
                    }),
                self.update_checks@ == old(self).update_checks@,
                self.updates@ == old(self).updates@,
            decreases n - j,
        {
            if str_eq(self.programs[j].name.as_str(), name) {
                self.programs[j].current_version = current_version.to_owned();
                self.programs[j].current_version_last_updated = current_version_last_updated;
            }
            j += 1;
        }
        proof {
            self.lemma_same_names_keep_wf(old(self));
        }
    }

    /// Set whether a notification has been sent for the program with this
    /// name; programs with other names are untouched.
    pub fn set_notification_sent(&mut self, program_name: &str, notification_sent: bool)
        requires
            old(self).wf(),
        ensures
            final(self).wf(),
            final(self)@.programs.len() == old(self)@.programs.len(),
            forall|j: int|
                0 <= j < old(self)@.programs.len() ==> final(self)@.programs[j] == (
                if old(self)@.programs[j].name == program_name@ {
                    with_notification_sent(old(self)@.programs[j], notification_sent)
                } else {
                    old(self)@.programs[j]
                }),
            final(self)@.update_check_history == old(self)@.update_check_history,
            final(self)@.update_history == old(self)@.update_history,
    {
        let n = self.programs.len();
        let mut j: usize = 0;
        while j < n
            invariant
                j <= n,
                n == self.programs@.len(),
                self.programs@.len() == old(self).programs@.len(),
                forall|k: int| j <= k < n ==> self.programs@[k] == old(self).programs@[k],
                forall|k: int|
                    0 <= k < j ==> self.programs@[k]@ == (
                    if old(self).programs@[k]@.name == program_name@ {
                        with_notification_sent(old(self).programs@[k]@, notification_sent)
                    } else {
                        old(self).programs@[k]@
                    }),
                self.update_checks@ == old(self).update_checks@,
                self.updates@ == old(self).updates@,
            decreases n - j,
        {
            if str_eq(self.programs[j].name.as_str(), program_name) {
                self.programs[j].notification_sent = notification_sent;
            }
            j += 1;
        }
        proof {
            self.lemma_same_names_keep_wf(old(self));
        }
    }

    /// Set when a notification was sent for the program with this name;
    /// programs with other names are untouched.
    pub fn set_notification_sent_on(
        &mut self,
        program_name: &str,
        notification_sent_on: Option<Timestamp>,
    )
        requires
            old(self).wf(),
        ensures
            final(self).wf(),
            final(self)@.programs.len() == old(self)@.programs.len(),
            forall|j: int|
                0 <= j < old(self)@.programs.len() ==> final(self)@.programs[j] == (
                if old(self)@.programs[j].name == program_name@ {
                    with_notification_sent_on(
                        old(self)@.programs[j],
                        timestamp_view(notification_sent_on),
                    )
                } else {
                    old(self)@.programs[j]
                }),
            final(self)@.update_check_history == old(self)@.update_check_history,
            final(self)@.update_history == old(self)@.update_history,
    {
        let n = self.programs.len();
        let mut j: usize = 0;
        while j < n
            invariant
                j <= n,
                n == self.programs@.len(),
                self.programs@.len() == old(self).programs@.len(),
                forall|k: int| j <= k < n ==> self.programs@[k] == old(self).programs@[k],
                forall|k: int|
                    0 <= k < j ==> self.programs@[k]@ == (
                    if old(self).programs@[k]@.name == program_name@ {
                        with_notification_sent_on(
                            old(self).programs@[k]@,
                            timestamp_view(notification_sent_on),
                        )
                    } else {
                        old(self).programs@[k]@
                    }),
                self.update_checks@ == old(self).update_checks@,
                self.updates@ == old(self).updates@,
            decreases n - j,
        {
            if str_eq(self.programs[j].name.as_str(), program_name) {
                self.programs[j].notification_sent_on = notification_sent_on;
            }
            j += 1;
        }
        proof {
            self.lemma_same_names_keep_wf(old(self));
        }
    }

    /// Read the notification state of the program with this name, or `None`
    /// when no program with that name is stored.
    pub fn get_notification_info(&self, program_name: &str) -> (r: Option<NotificationInfo>)
        requires
            self.wf(),
        ensures
            r is Some <==> contains_name(self@.programs, program_name@),
            match r {
                Some(info) => forall|i: int|
                    0 <= i < self@.programs.len() && self@.programs[i].name == program_name@
                        ==> info.sent == self@.programs[i].notification_sent && timestamp_view(
                        info.sent_on,
                    ) == self@.programs[i].notification_sent_on,
                None => true,
            },
    {
        let n = self.programs.len();
        let mut i: usize = 0;
        while i < n
            invariant
                i <= n,
                n == self.programs.len(),
                self.wf(),
                forall|k: int| 0 <= k < i ==> self.programs@[k]@.name != program_name@,
            decreases n - i,
        {
            if str_eq(self.programs[i].name.as_str(), program_name) {
                let info = NotificationInfo {
                    sent: self.programs[i].notification_sent,
                    sent_on: self.programs[i].notification_sent_on,
                };
                proof {
                    assert(self@.programs[i as int].name == program_name@);
                    assert forall|k: int|
                        0 <= k < self@.programs.len() && self@.programs[k].name == program_name@
                            implies k == i as int by {
                        if k != i as int {
                            crate::text::lemma_chars_lt_irreflexive(self@.programs[k].name);
                        }
                    }
                }
                return Some(info);
            }
            i += 1;
        }
        proof {
            if contains_name(self@.programs, program_name@) {
                let k = choose|k: int|
                    0 <= k < self@.programs.len() && self@.programs[k].name == program_name@;
                assert(self.programs@[k]@.name == program_name@);
            }
        }
        None
    }

    /// Append one completed check pass to the check-history table.
    pub fn insert_update_check_history(&mut self, update_check: &UpdateCheckHistoryEntry)
        ensures
            final(self)@.programs == old(self)@.programs,
            final(self)@.update_check_history == old(self)@.update_check_history.push(update_check@),
            final(self)@.update_history == old(self)@.update_history,
            old(self).wf() ==> final(self).wf(),
    {
        let ghost before = self@.update_check_history;
        self.update_checks.push(update_check.clone());
        proof {
            assert(self@.update_check_history =~= before.push(update_check@));
            assert(self@.programs =~= old(self)@.programs);
        }
    }

    /// The most recently appended check pass, or `None` when no pass has
    /// been recorded yet.
    pub fn get_latest_update_check_from_history(&self) -> (r: Option<UpdateCheckHistoryEntry>)
        ensures
            r is Some <==> self@.update_check_history.len() > 0,
            match r {
                Some(e) => e@ == self@.update_check_history.last(),
                None => true,
            },
    {
        let n = self.update_checks.len();
        if n == 0 {
            None
        } else {
            Some(self.update_checks[n - 1].clone())
        }
    }

    /// The recorded check passes, newest first, at most `max_entries` of
    /// them (at most 100 when no bound is given).
    pub fn get_all_update_checks(&self, max_entries: Option<u32>) -> (r: Vec<
        UpdateCheckHistoryEntry,
    >)
        ensures
            r@.len() == vstd::math::min(
                match max_entries {
                    Some(m) => m as int,
                    None => 100,
                },
                self@.update_check_history.len() as int,
            ),
            forall|i: int|
                0 <= i < r@.len() ==> r@[i]@ == self@.update_check_history[
                    self@.update_check_history.len() - 1 - i],
    {
        let limit: usize = match max_entries {
            Some(m) => m as usize,
            None => 100,
        };
        let n = self.update_checks.len();
        let count = if limit < n {
            limit
        } else {
            n
        };
        let mut r: Vec<UpdateCheckHistoryEntry> = Vec::new();
        let mut i: usize = 0;
        while i < count
            invariant
                i <= count,
                count <= n,
                n == self.update_checks.len(),
                r@.len() == i,
                forall|k: int| 0 <= k < i ==> r@[k]@ == self.update_checks@[n - 1 - k]@,
            decreases count - i,
        {
            r.push(self.update_checks[n - 1 - i].clone());
            i += 1;
        }
        r
    }

    /// Append one applied update to the update-history table.
    pub fn insert_performed_update(&mut self, update_history_entry: &UpdateHistoryEntry)
        ensures
            final(self)@.programs == old(self)@.programs,
            final(self)@.update_check_history == old(self)@.update_check_history,
            final(self)@.update_history == old(self)@.update_history.push(update_history_entry@),
            old(self).wf() ==> final(self).wf(),
    {
        let ghost before = self@.update_history;
        self.updates.push(update_history_entry.clone());
        proof {
            assert(self@.update_history =~= before.push(update_history_entry@));
            assert(self@.programs =~= old(self)@.programs);
        }
    }

    /// The recorded applied updates, oldest first, at most `max_entries` of
    /// them (at most 100 when no bound is given).
    pub fn get_all_updates(&self, max_entries: Option<u32>) -> (r: Vec<UpdateHistoryEntry>)
        ensures
            r@.len() == vstd::math::min(
                match max_entries {
                    Some(m) => m as int,
                    None => 100,
                },
                self@.update_history.len() as int,
            ),
            forall|i: int| 0 <= i < r@.len() ==> r@[i]@ == self@.update_history[i],
    {
        let limit: usize = match max_entries {
            Some(m) => m as usize,
            None => 100,
        };
        let n = self.updates.len();
        let count = if limit < n {
            limit
        } else {
            n
        };
        let mut r: Vec<UpdateHistoryEntry> = Vec::new();
        let mut i: usize = 0;
        while i < count
            invariant
                i <= count,
                count <= n,
                n == self.updates.len(),
                r@.len() == i,
                forall|k: int| 0 <= k < i ==> r@[k]@ == self.updates@[k]@,
            decreases count - i,
        {
            r.push(self.updates[i].clone());
            i += 1;
        }
        r
    }

    /// Replacing program fields other than the name cannot disturb the name
    /// order.
    proof fn lemma_same_names_keep_wf(&self, previous: &Db)
        requires
            previous.wf(),
            self@.programs.len() == previous@.programs.len(),
            forall|j: int|
                0 <= j < self@.programs.len() ==> #[trigger] self@.programs[j].name
                    == previous@.programs[j].name,
        ensures
            self.wf(),
    {
        assert forall|a: int, b: int|
            0 <= a < b < self@.programs.len() implies crate::text::chars_lt(
            self@.programs[a].name,
            self@.programs[b].name,
        ) by {
            assert(self@.programs[a].name == previous@.programs[a].name);
            assert(self@.programs[b].name == previous@.programs[b].name);
        }
    }
}

} // verus!
