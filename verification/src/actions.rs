//! The user-facing actions whose decisions the store is answerable for.
//! The surrounding application wires them to the command line; the one
//! with state-transition logic of its own is adopting an update.

use vstd::prelude::*;

use crate::db::{with_current_version, Db};
use crate::sorting::{contains_name, lemma_strictly_sorted_names_distinct};
use crate::{Timestamp, UpdateHistoryEntry, UpdateHistoryEntryView};

verus! {

/// What asking to adopt a program's latest version led to.
#[derive(Debug, PartialEq)]
pub enum UpdateOutcome {
    /// The current version was set to the recorded latest version; the
    /// entry records the adoption and was appended to the update history.
    Applied(UpdateHistoryEntry),
    /// The current version already equals the latest one; nothing changed.
    AlreadyUpToDate,
    /// No program with the given name is stored; nothing changed.
    NotFound,
}

/// Promotes the named program's `current_version` to its recorded
/// `latest_version`, appending exactly one update-history entry whose
/// `old_version` is the version current before the call. When the program
/// is unknown or already up to date, nothing changes and the outcome says
/// which of the two held.
pub fn apply_update(db: &mut Db, name: &str, now: Timestamp) -> (r: UpdateOutcome)
    requires
        old(db).wf(),
    ensures
        final(db).wf(),
        ({
            let rows = old(db)@.programs;
            match r {
                UpdateOutcome::NotFound => {
                    &&& !contains_name(rows, name@)
                    &&& final(db)@.programs == rows
                    &&& final(db)@.update_check_history == old(db)@.update_check_history
                    &&& final(db)@.update_history == old(db)@.update_history
                },
                UpdateOutcome::AlreadyUpToDate => {
                    &&& contains_name(rows, name@)
                    &&& forall|i: int|
                        0 <= i < rows.len() && (#[trigger] rows[i]).name == name@
                            ==> rows[i].current_version == rows[i].latest_version
                    &&& final(db)@.programs == rows
                    &&& final(db)@.update_check_history == old(db)@.update_check_history
                    &&& final(db)@.update_history == old(db)@.update_history
                },
                UpdateOutcome::Applied(entry) => {
                    &&& contains_name(rows, name@)
                    &&& forall|i: int|
                        0 <= i < rows.len() ==> final(db)@.programs[i] == (
                        if (#[trigger] rows[i]).name == name@ {
                            with_current_version(rows[i], rows[i].latest_version, now as int)
                        } else {
                            rows[i]
                        })
                    &&& forall|i: int|
                        0 <= i < rows.len() && (#[trigger] rows[i]).name == name@ ==> {
                            &&& rows[i].current_version != rows[i].latest_version
                            &&& entry@ == UpdateHistoryEntryView {
                                date: now as int,
                                name: name@,
                                old_version: rows[i].current_version,
                                updated_to: rows[i].latest_version,
                            }
                        }
                    &&& final(db)@.update_check_history == old(db)@.update_check_history
                    &&& final(db)@.update_history == old(db)@.update_history.push(entry@)
                },
            }
        }),
{
    let program = match db.get_program(name) {
        None => {
            return UpdateOutcome::NotFound;
        },
        Some(p) => p,
    };
    let ghost rows = old(db)@.programs;
    let ghost i0 = choose|i: int| 0 <= i < rows.len() && rows[i].name == name@ && program@ == rows[i];
    proof {
        assert forall|i: int|
            0 <= i < rows.len() && (#[trigger] rows[i]).name == name@ implies i == i0 by {
            if i != i0 {
                lemma_strictly_sorted_names_distinct(rows, i, i0);
            }
        }
    }
    if program.current_version == program.latest_version {
        return UpdateOutcome::AlreadyUpToDate;
    }
    db.update_current_version(name, program.latest_version.as_str(), now);
    let entry = UpdateHistoryEntry {
        date: now,
        name: program.name,
        old_version: program.current_version,
        updated_to: program.latest_version,
    };
    db.insert_performed_update(&entry);
    UpdateOutcome::Applied(entry)
}

} // verus!
