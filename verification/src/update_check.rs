//! The update-check engine: for each tracked program, compare the version
//! fetched from its provider against the stored state, evolve the stored
//! version fields and the notification de-duplication flags, and report
//! which programs have an update visible.
//!
//! Fetching itself is the surrounding application's job; a pass takes the
//! fetched version strings as input, one per program in name order, with
//! `None` standing for a provider failure. Programs are processed
//! sequentially; the first failure stops the pass. Store changes made for
//! earlier programs remain, and the check-history entry — written exactly
//! once per completed pass — is then not written at all.

use vstd::prelude::*;

use crate::cli::CheckArgs;
use crate::db::{
    with_current_version, with_latest_version, with_notification_sent, with_notification_sent_on,
    Db,
};
use crate::sorting::{
    insertion_sort, lemma_insertion_sort_identity, lemma_strictly_sorted_names_distinct,
    program_names, strictly_sorted_by_name,
};
use crate::text::join_with;
use crate::{
    program_views, Program, ProgramView, Timestamp, UpdateCheckHistoryEntry,
    UpdateCheckHistoryEntryView, UpdateCheckType,
};

verus! {

/// Why an update-check pass stopped early.
#[derive(Debug, PartialEq)]
pub enum UpdateCheckError {
    /// The version provider failed for this program. The pass aborts there:
    /// a partial pass cannot be told apart from a real "no update" outcome
    /// at report time.
    ProviderFailure { program_name: String },
}

/// The specification-level images of the fetched versions.
pub open spec fn fetched_views(s: Seq<Option<String>>) -> Seq<Option<Seq<char>>> {
    s.map_values(|o: Option<String>| match o {
        Some(v) => Some(v@),
        None => None,
    })
}

/// Whether this check marks the updates it surfaces as already notified.
/// Only a manual check run without `allow_notification` does: the user has
/// seen the update, so the scheduled loop must not re-alert.
pub open spec fn suppresses_notification(
    check_args: Option<CheckArgs>,
    check_type: UpdateCheckType,
) -> bool {
    check_type is Manual && match check_args {
        Some(a) => !a.allow_notification,
        None => false,
    }
}

/// Whether this check also adopts a newly found version as the current one.
pub open spec fn adopts_current_version(check_args: Option<CheckArgs>) -> bool {
    match check_args {
        Some(a) => a.set_current_version,
        None => false,
    }
}

/// Whether the fetched version makes an update visible for this program:
/// either it differs from the recorded latest version, or that latest
/// version has not been adopted as the current one yet.
pub open spec fn update_visible(p: ProgramView, fetched: Seq<char>) -> bool {
    fetched != p.latest_version || fetched != p.current_version
}

/// How one program's stored record evolves in one check, given the fetched
/// version — the truth table of new-version against manual-suppression:
///
/// - The fetched version differs from the recorded latest one: record it,
///   stamped `now`; the de-duplication window resets, so the notification
///   flag is cleared (or, under suppression, set at once) and the sent-on
///   time is dropped; under `set_current` the current version is adopted
///   too.
/// - The fetched version is already recorded but not adopted: the record
///   keeps its versions; suppression may still raise the notification flag.
/// - The fetched version is recorded and adopted: nothing changes.
pub open spec fn checked_program(
    p: ProgramView,
    fetched: Seq<char>,
    suppress: bool,
    set_current: bool,
    now: int,
) -> ProgramView {
    if fetched != p.latest_version {
        ProgramView {
            latest_version: fetched,
            latest_version_last_updated: now,
            current_version: if set_current {
                fetched
            } else {
                p.current_version
            },
            current_version_last_updated: if set_current {
                now
            } else {
                p.current_version_last_updated
            },
            notification_sent: suppress,
            notification_sent_on: None,
            ..p
        }
    } else if fetched != p.current_version {
        ProgramView { notification_sent: p.notification_sent || suppress, ..p }
    } else {
        p
    }
}

/// The programs reported by a pass over the first `k` programs: each one
/// whose fetched version made an update visible, with its record as the
/// pass leaves it, in processing order.
pub open spec fn pass_result(
    rows: Seq<ProgramView>,
    fetched: Seq<Option<Seq<char>>>,
    suppress: bool,
    set_current: bool,
    now: int,
    k: int,
) -> Seq<ProgramView>
    decreases k,
{
    if k <= 0 {
        Seq::empty()
    } else {
        let prev = pass_result(rows, fetched, suppress, set_current, now, k - 1);
        if fetched[k - 1] is Some && update_visible(rows[k - 1], fetched[k - 1].unwrap()) {
            prev.push(
                checked_program(rows[k - 1], fetched[k - 1].unwrap(), suppress, set_current, now),
            )
        } else {
            prev
        }
    }
}

/// This name belongs to one of the first `k` programs.
pub open spec fn name_among(rows: Seq<ProgramView>, k: int, name: Seq<char>) -> bool {
    exists|j: int| 0 <= j < k && rows[j].name == name
}

/// A pass over name-ordered programs reports at most one entry per program,
/// in the same strict name order.
pub proof fn lemma_pass_result_sorted(
    rows: Seq<ProgramView>,
    fetched: Seq<Option<Seq<char>>>,
    suppress: bool,
    set_current: bool,
    now: int,
    k: int,
)
    requires
        strictly_sorted_by_name(rows),
        0 <= k <= rows.len(),
    ensures
        pass_result(rows, fetched, suppress, set_current, now, k).len() <= k,
        strictly_sorted_by_name(pass_result(rows, fetched, suppress, set_current, now, k)),
        forall|m: int|
            0 <= m < pass_result(rows, fetched, suppress, set_current, now, k).len()
                ==> name_among(
                rows,
                k,
                #[trigger] pass_result(rows, fetched, suppress, set_current, now, k)[m].name,
            ),
    decreases k,
{
    if k > 0 {
        lemma_pass_result_sorted(rows, fetched, suppress, set_current, now, k - 1);
        let prev = pass_result(rows, fetched, suppress, set_current, now, k - 1);
        let cur = pass_result(rows, fetched, suppress, set_current, now, k);
        assert(forall|m: int|
            0 <= m < prev.len() ==> name_among(rows, k, #[trigger] prev[m].name)) by {
            assert forall|m: int| 0 <= m < prev.len() implies name_among(
                rows,
                k,
                #[trigger] prev[m].name,
            ) by {
                let j = choose|j: int| 0 <= j < k - 1 && rows[j].name == prev[m].name;
                assert(0 <= j < k && rows[j].name == prev[m].name);
            }
        }
        if fetched[k - 1] is Some && update_visible(rows[k - 1], fetched[k - 1].unwrap()) {
            let added = checked_program(
                rows[k - 1],
                fetched[k - 1].unwrap(),
                suppress,
                set_current,
                now,
            );
            assert(added.name == rows[k - 1].name);
            assert(cur == prev.push(added));
            assert forall|a: int, b: int|
                0 <= a < b < cur.len() implies crate::text::chars_lt(
                cur[a].name,
                cur[b].name,
            ) by {
                if b < cur.len() - 1 {
                    assert(cur[a] == prev[a]);
                    assert(cur[b] == prev[b]);
                } else {
                    assert(cur[a] == prev[a]);
                    assert(name_among(rows, k - 1, prev[a].name));
                    let j = choose|j: int| 0 <= j < k - 1 && rows[j].name == prev[a].name;
                    assert(crate::text::chars_lt(rows[j].name, rows[k - 1].name));
                }
            }
            assert forall|m: int| 0 <= m < cur.len() implies name_among(
                rows,
                k,
                #[trigger] cur[m].name,
            ) by {
                if m < cur.len() - 1 {
                    assert(cur[m] == prev[m]);
                } else {
                    assert(cur[m].name == rows[k - 1].name);
                }
            }
        }
    }
}

/// A program whose fetched version made an update visible is among the
/// programs a pass over at least that many programs reports.
pub proof fn lemma_pass_result_contains(
    rows: Seq<ProgramView>,
    fetched: Seq<Option<Seq<char>>>,
    suppress: bool,
    set_current: bool,
    now: int,
    i: int,
    k: int,
)
    requires
        0 <= i < k <= rows.len(),
        fetched[i] is Some,
        update_visible(rows[i], fetched[i].unwrap()),
    ensures
        pass_result(rows, fetched, suppress, set_current, now, k).contains(
            checked_program(rows[i], fetched[i].unwrap(), suppress, set_current, now),
        ),
    decreases k,
{
    let cur = pass_result(rows, fetched, suppress, set_current, now, k);
    let prev = pass_result(rows, fetched, suppress, set_current, now, k - 1);
    let target = checked_program(rows[i], fetched[i].unwrap(), suppress, set_current, now);
    if i == k - 1 {
        assert(cur == prev.push(target));
        assert(cur[cur.len() - 1] == target);
    } else {
        lemma_pass_result_contains(rows, fetched, suppress, set_current, now, i, k - 1);
        let m = choose|m: int| 0 <= m < prev.len() && prev[m] == target;
        if fetched[k - 1] is Some && update_visible(rows[k - 1], fetched[k - 1].unwrap()) {
            assert(cur[m] == target);
        } else {
            assert(cur == prev);
        }
    }
}

/// For every program whose fetched version differs from the recorded
/// latest one, one completed pass records the fetched version as the
/// latest, stamped with the pass time; leaves the notification flag
/// cleared exactly when nothing suppresses it (a timed pass, or a manual
/// one run with `allow_notification`); and reports the program.
pub proof fn lemma_new_version_recorded(
    rows: Seq<ProgramView>,
    fetched: Seq<Option<Seq<char>>>,
    suppress: bool,
    set_current: bool,
    now: int,
    i: int,
)
    requires
        0 <= i < rows.len(),
        fetched[i] is Some,
        fetched[i].unwrap() != rows[i].latest_version,
    ensures
        ({
            let after = checked_program(rows[i], fetched[i].unwrap(), suppress, set_current, now);
            &&& after.latest_version == fetched[i].unwrap()
            &&& after.latest_version_last_updated == now
            &&& after.notification_sent == suppress
            &&& after.notification_sent_on is None
            &&& pass_result(rows, fetched, suppress, set_current, now, rows.len() as int).contains(
                after,
            )
        }),
{
    lemma_pass_result_contains(rows, fetched, suppress, set_current, now, i, rows.len() as int);
}

/// A pass in which no program has a visible update reports nothing.
pub proof fn lemma_pass_result_empty(
    rows: Seq<ProgramView>,
    fetched: Seq<Option<Seq<char>>>,
    suppress: bool,
    set_current: bool,
    now: int,
    k: int,
)
    requires
        forall|j: int|
            0 <= j < k ==> #[trigger] fetched[j] is Some ==> !update_visible(
                rows[j],
                fetched[j].unwrap(),
            ),
    ensures
        pass_result(rows, fetched, suppress, set_current, now, k) == Seq::<ProgramView>::empty(),
    decreases k,
{
    if k > 0 {
        lemma_pass_result_empty(rows, fetched, suppress, set_current, now, k - 1);
    }
}

/// Checking twice in a row is idempotent: after one pass, a second pass
/// over the same fetched versions alters no program record and reports
/// nothing.
///
/// Two kinds of input are left out, because on them the second pass must
/// report again: a program already sitting in the recorded-but-not-adopted
/// state is reported by every pass until its update is applied; and a
/// newly found version that the first pass records without adopting
/// (`set_current` unset) puts the program into exactly that state.
pub proof fn lemma_check_idempotent(
    rows: Seq<ProgramView>,
    fetched: Seq<Option<Seq<char>>>,
    suppress: bool,
    set_current: bool,
    suppress2: bool,
    set_current2: bool,
    now: int,
    now2: int,
)
    requires
        fetched.len() == rows.len(),
        forall|i: int| 0 <= i < rows.len() ==> #[trigger] fetched[i] is Some,
        forall|i: int|
            0 <= i < rows.len() && #[trigger] fetched[i].unwrap() == rows[i].latest_version
                ==> fetched[i].unwrap() == rows[i].current_version,
        forall|i: int|
            0 <= i < rows.len() && #[trigger] fetched[i].unwrap() != rows[i].latest_version
                ==> set_current,
    ensures
        ({
            let rows1 = Seq::new(
                rows.len(),
                |i: int| checked_program(rows[i], fetched[i].unwrap(), suppress, set_current, now),
            );
            &&& forall|i: int|
                0 <= i < rows1.len() ==> checked_program(
                    #[trigger] rows1[i],
                    fetched[i].unwrap(),
                    suppress2,
                    set_current2,
                    now2,
                ) == rows1[i]
            &&& pass_result(rows1, fetched, suppress2, set_current2, now2, rows1.len() as int)
                == Seq::<ProgramView>::empty()
        }),
{
    let rows1 = Seq::new(
        rows.len(),
        |i: int| checked_program(rows[i], fetched[i].unwrap(), suppress, set_current, now),
    );
    assert forall|i: int| 0 <= i < rows1.len() implies !update_visible(
        rows1[i],
        fetched[i].unwrap(),
    ) && checked_program(
        #[trigger] rows1[i],
        fetched[i].unwrap(),
        suppress2,
        set_current2,
        now2,
    ) == rows1[i] by {
        let v = fetched[i].unwrap();
        if v != rows[i].latest_version {
            assert(set_current);
            assert(rows1[i].latest_version == v);
            assert(rows1[i].current_version == v);
        } else {
            assert(rows[i].current_version == v);
            assert(rows1[i] == rows[i]);
        }
    }
    lemma_pass_result_empty(rows1, fetched, suppress2, set_current2, now2, rows1.len() as int);
}

/// Checks all stored programs against the versions fetched for them, in
/// ascending name order (`fetched[i]` belongs to the `i`-th program in that
/// order; `None` means the provider failed for it).
///
/// For each program processed, the store evolves by
/// [`checked_program`]; the first fetch failure stops the pass with an
/// error naming the program, leaving earlier programs' changes in place and
/// the check history unwritten. When every program was processed, exactly
/// one check-history entry is appended, recording the count and the names
/// of the programs with a visible update, and those programs are returned
/// in name order.
pub fn check_for_updates(
    db: &mut Db,
    fetched: &Vec<Option<String>>,
    check_args: Option<CheckArgs>,
    update_check_type: UpdateCheckType,
    now: Timestamp,
) -> (r: Result<Vec<Program>, UpdateCheckError>)
    requires
        old(db).wf(),
        fetched@.len() == old(db)@.programs.len(),
        old(db)@.programs.len() <= u32::MAX,
    ensures
        final(db).wf(),
        final(db)@.programs.len() == old(db)@.programs.len(),
        final(db)@.update_history == old(db)@.update_history,
        ({
            let rows = old(db)@.programs;
            let f = fetched_views(fetched@);
            let suppress = suppresses_notification(check_args, update_check_type);
            let set_current = adopts_current_version(check_args);
            let n = rows.len() as int;
            match r {
                Ok(v) => {
                    &&& forall|i: int| 0 <= i < n ==> f[i] is Some
                    &&& forall|i: int|
                        0 <= i < n ==> final(db)@.programs[i] == checked_program(
                            rows[i],
                            #[trigger] f[i].unwrap(),
                            suppress,
                            set_current,
                            now as int,
                        )
                    &&& program_views(v@) == pass_result(
                        rows,
                        f,
                        suppress,
                        set_current,
                        now as int,
                        n,
                    )
                    &&& final(db)@.update_check_history == old(db)@.update_check_history.push(
                        UpdateCheckHistoryEntryView {
                            date: now as int,
                            check_type: update_check_type,
                            updates_available: pass_result(
                                rows,
                                f,
                                suppress,
                                set_current,
                                now as int,
                                n,
                            ).len() as int,
                            programs: join_with(
                                program_names(
                                    pass_result(rows, f, suppress, set_current, now as int, n),
                                ),
                                ", "@,
                            ),
                        },
                    )
                },
                Err(e) => {
                    &&& exists|k: int|
                        #![trigger f[k]]
                        {
                            &&& 0 <= k < n
                            &&& f[k] is None
                            &&& forall|j: int| 0 <= j < k ==> f[j] is Some
                            &&& forall|j: int|
                                0 <= j < k ==> final(db)@.programs[j] == checked_program(
                                    rows[j],
                                    #[trigger] f[j].unwrap(),
                                    suppress,
                                    set_current,
                                    now as int,
                                )
                            &&& forall|j: int|
                                k <= j < n ==> final(db)@.programs[j] == #[trigger] rows[j]
                            &&& match e {
                                UpdateCheckError::ProviderFailure { program_name } => program_name@
                                    == rows[k].name,
                            }
                        }
                    &&& final(db)@.update_check_history == old(db)@.update_check_history
                },
            }
        }),
{
    let ghost rows = old(db)@.programs;
    let ghost f = fetched_views(fetched@);
    let suppress = match update_check_type {
        UpdateCheckType::Manual => match &check_args {
            Some(a) => !a.allow_notification,
            None => false,
        },
        UpdateCheckType::Timed => false,
    };
    let set_current = match &check_args {
        Some(a) => a.set_current_version,
        None => false,
    };
    assert(suppress == suppresses_notification(check_args, update_check_type));
    assert(set_current == adopts_current_version(check_args));

    let n = db.program_count();
    let mut result: Vec<Program> = Vec::new();
    let mut i: usize = 0;
    while i < n
        invariant
            old(db).wf(),
            db.wf(),
            rows == old(db)@.programs,
            f == fetched_views(fetched@),
            fetched@.len() == n,
            n == rows.len(),
            n <= u32::MAX,
            i <= n,
            db@.programs.len() == n,
            suppress == suppresses_notification(check_args, update_check_type),
            set_current == adopts_current_version(check_args),
            forall|j: int| 0 <= j < i ==> f[j] is Some,
            forall|j: int|
                0 <= j < i ==> db@.programs[j] == checked_program(
                    rows[j],
                    #[trigger] f[j].unwrap(),
                    suppress,
                    set_current,
                    now as int,
                ),
            forall|j: int| i <= j < n ==> db@.programs[j] == #[trigger] rows[j],
            db@.update_check_history == old(db)@.update_check_history,
            db@.update_history == old(db)@.update_history,
            program_views(result@) == pass_result(rows, f, suppress, set_current, now as int, i as int),
            result@.len() <= i,
        decreases n - i,
    {
        proof {
            assert(f[i as int] == match fetched@[i as int] {
                Some(v) => Some(v@),
                None => None::<Seq<char>>,
            });
        }
        match &fetched[i] {
            None => {
                let program_name = db.program_at(i).name.clone();
                proof {
                    assert(f[i as int] is None);
                    assert(program_name@ == rows[i as int].name);
                }
                return Err(UpdateCheckError::ProviderFailure { program_name });
            },
            Some(latest_version) => {
                let program = db.program_at(i).clone();
                proof {
                    assert(program@ == rows[i as int]);
                    assert(latest_version@ == f[i as int].unwrap());
                    assert forall|j: int| 0 <= j < n && j != i as int implies db@.programs[j].name
                        != program@.name by {
                        lemma_strictly_sorted_names_distinct(db@.programs, j, i as int);
                        assert(db@.programs[i as int].name == program@.name);
                    }
                }
                let ghost checked = checked_program(
                    rows[i as int],
                    f[i as int].unwrap(),
                    suppress,
                    set_current,
                    now as int,
                );
                if !(program.latest_version == *latest_version) {
                    // A version not yet recorded: reset the notification
                    // window, record it, and optionally adopt it.
                    db.set_notification_sent(program.name.as_str(), false);
                    db.set_notification_sent_on(program.name.as_str(), None);
                    db.update_latest_version(program.name.as_str(), latest_version.as_str(), now);
                    if set_current {
                        db.update_current_version(
                            program.name.as_str(),
                            latest_version.as_str(),
                            now,
                        );
                    }
                    if suppress {
                        db.set_notification_sent(program.name.as_str(), true);
                    }
                    proof {
                        assert(db@.programs[i as int] == checked);
                        assert(db@.programs.len() == n);
                    }
                    let updated = db.program_at(i).clone();
                    let ghost before = program_views(result@);
                    result.push(updated);
                    proof {
                        assert(program_views(result@) =~= before.push(checked));
                    }
                } else if !(program.current_version == *latest_version) {
                    // The recorded latest version has not been adopted yet:
                    // the update stays visible; suppression may still mark
                    // it notified.
                    if suppress {
                        db.set_notification_sent(program.name.as_str(), true);
                    }
                    proof {
                        assert(db@.programs[i as int] == checked);
                    }
                    let updated = db.program_at(i).clone();
                    let ghost before = program_views(result@);
                    result.push(updated);
                    proof {
                        assert(program_views(result@) =~= before.push(checked));
                    }
                } else {
                    proof {
                        assert(db@.programs[i as int] == checked);
                    }
                }
                i += 1;
            },
        }
    }
    proof {
        lemma_pass_result_sorted(rows, f, suppress, set_current, now as int, n as int);
        lemma_insertion_sort_identity(program_views(result@));
    }
    let result_for_history = clone_programs(&result);
    let entry = UpdateCheckHistoryEntry::from_now(update_check_type, result_for_history, now);
    db.insert_update_check_history(&entry);
    Ok(result)
}

/// A copy of the given program list.
fn clone_programs(v: &Vec<Program>) -> (r: Vec<Program>)
    ensures
        program_views(r@) == program_views(v@),
{
    let mut r: Vec<Program> = Vec::new();
    let mut i: usize = 0;
    while i < v.len()
        invariant
            i <= v@.len(),
            r@.len() == i,
            forall|k: int| 0 <= k < i ==> r@[k]@ == v@[k]@,
        decreases v@.len() - i,
    {
        r.push(v[i].clone());
        i += 1;
    }
    proof {
        assert(program_views(r@) =~= program_views(v@));
    }
    r
}

} // verus!
