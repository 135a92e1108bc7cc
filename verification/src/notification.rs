//! The notification dispatcher's decision logic: which of the programs
//! with a visible update still owe an outbound notification, the message
//! composed for them, and the flag updates owed once dispatch is
//! confirmed.
//!
//! Handing the message to the external notification channel is the
//! surrounding application's job. The application first builds a plan,
//! then sends the plan's message, and only on confirmed dispatch marks the
//! plan's programs as notified. A failed dispatch touches no flags, so the
//! next pass retries the same set.

use vstd::prelude::*;

use vstd::string::StringExecFns;

use crate::db::{with_notification_sent, with_notification_sent_on, Db};
use crate::sorting::{contains_name, program_names};
use crate::{program_views, string_views, Program, ProgramView, Timestamp};

verus! {

/// Why no notification plan could be built.
#[derive(Debug, PartialEq)]
pub enum NotificationError {
    /// A program in the update set has no store record: the store and the
    /// in-memory view diverged.
    ProgramMissing { program_name: String },
}

/// One outbound notification: the composed message and the programs it
/// covers, whose flags are to be set once dispatch is confirmed.
#[derive(Debug, PartialEq)]
pub struct NotificationPlan {
    /// One `name: current -> latest` line per covered program.
    pub message: String,
    /// The names of the covered programs, in input order.
    pub program_names: Vec<String>,
}

/// The message line announcing this program's update.
pub open spec fn notification_line(p: ProgramView) -> Seq<char> {
    p.name + ": "@ + p.current_version + " -> "@ + p.latest_version + "\n"@
}

/// The outbound message for these programs: their lines, in order.
pub open spec fn notification_message(ps: Seq<ProgramView>) -> Seq<char>
    decreases ps.len(),
{
    if ps.len() == 0 {
        Seq::empty()
    } else {
        notification_message(ps.drop_last()) + notification_line(ps.last())
    }
}

/// The notification-sent flag stored for this name (meaningful when the
/// store holds the name, which under distinct names pins the record).
pub open spec fn stored_notification_sent(rows: Seq<ProgramView>, name: Seq<char>) -> bool {
    rows[choose|i: int| 0 <= i < rows.len() && rows[i].name == name].notification_sent
}

/// Of the first `k` programs, those whose stored record does not have the
/// notification-sent flag raised: the programs still owing an outbound
/// notification, in input order.
pub open spec fn eligible_programs(
    rows: Seq<ProgramView>,
    ps: Seq<ProgramView>,
    k: int,
) -> Seq<ProgramView>
    decreases k,
{
    if k <= 0 {
        Seq::empty()
    } else {
        let prev = eligible_programs(rows, ps, k - 1);
        if !stored_notification_sent(rows, ps[k - 1].name) {
            prev.push(ps[k - 1])
        } else {
            prev
        }
    }
}

/// Decides which of the given programs still owe a notification and
/// composes the outbound message for them.
///
/// Every given program must have a store record; the first one without
/// fails the call (nothing is decided then). Programs whose record has
/// `notification_sent` raised are excluded but not re-flagged. When no
/// program is left, no message is owed (`Ok(None)`): no network call is to
/// be made.
pub fn build_notification(db: &Db, programs: &Vec<Program>) -> (r: Result<
    Option<NotificationPlan>,
    NotificationError,
>)
    requires
        db.wf(),
    ensures
        ({
            let rows = db@.programs;
            let ps = program_views(programs@);
            let n = ps.len() as int;
            match r {
                Ok(plan_opt) => {
                    &&& forall|i: int|
                        0 <= i < n ==> contains_name(rows, #[trigger] ps[i].name)
                    &&& match plan_opt {
                        Some(plan) => eligible_programs(rows, ps, n).len() > 0
                            && plan.message@ == notification_message(
                            eligible_programs(rows, ps, n),
                        ) && string_views(plan.program_names@) == program_names(
                            eligible_programs(rows, ps, n),
                        ),
                        None => eligible_programs(rows, ps, n).len() == 0,
                    }
                },
                Err(e) => exists|k: int|
                    #![trigger ps[k]]
                    {
                        &&& 0 <= k < n
                        &&& !contains_name(rows, ps[k].name)
                        &&& forall|j: int| 0 <= j < k ==> contains_name(rows, #[trigger] ps[j].name)
                        &&& match e {
                            NotificationError::ProgramMissing { program_name } => program_name@
                                == ps[k].name,
                        }
                    },
            }
        }),
{
    let ghost rows = db@.programs;
    let ghost ps = program_views(programs@);
    let n = programs.len();
    let mut message = String::new();
    let mut names: Vec<String> = Vec::new();
    let mut i: usize = 0;
    while i < n
        invariant
            db.wf(),
            rows == db@.programs,
            ps == program_views(programs@),
            n == ps.len(),
            i <= n,
            forall|k: int| 0 <= k < i ==> contains_name(rows, #[trigger] ps[k].name),
            message@ == notification_message(eligible_programs(rows, ps, i as int)),
            string_views(names@) == program_names(eligible_programs(rows, ps, i as int)),
        decreases n - i,
    {
        let ghost prev = eligible_programs(rows, ps, i as int);
        match db.get_notification_info(programs[i].name.as_str()) {
            None => {
                let program_name = programs[i].name.clone();
                proof {
                    assert(!contains_name(rows, ps[i as int].name));
                }
                return Err(NotificationError::ProgramMissing { program_name });
            },
            Some(info) => {
                proof {
                    assert(contains_name(rows, ps[i as int].name));
                    let w = choose|w: int| 0 <= w < rows.len() && rows[w].name == ps[i as int].name;
                    assert(info.sent == rows[w].notification_sent);
                    assert(stored_notification_sent(rows, ps[i as int].name) == info.sent);
                }
                if !info.sent {
                    let ghost message0 = message@;
                    let ghost names0 = names@;
                    message.append(programs[i].name.as_str());
                    message.append(": ");
                    message.append(programs[i].current_version.as_str());
                    message.append(" -> ");
                    message.append(programs[i].latest_version.as_str());
                    message.append("\n");
                    names.push(programs[i].name.clone());
                    proof {
                        assert(eligible_programs(rows, ps, i as int + 1) == prev.push(
                            ps[i as int],
                        ));
                        assert(eligible_programs(rows, ps, i as int + 1).drop_last() =~= prev);
                        assert(message@ =~= message0 + notification_line(ps[i as int]));
                        let next = eligible_programs(rows, ps, i as int + 1);
                        assert(program_names(prev).len() == prev.len());
                        assert(string_views(names0).len() == names0.len());
                        assert(prev.len() == names0.len());
                        assert(next.len() == prev.len() + 1);
                        assert(names@ == names0.push(names@[names0.len() as int]));
                        assert(names@[names0.len() as int]@ == ps[i as int].name);
                        assert forall|k: int|
                            0 <= k < names@.len() implies string_views(names@)[k] == program_names(
                            next,
                        )[k] by {
                            if k < names0.len() {
                                assert(names@[k] == names0[k]);
                                assert(string_views(names0)[k] == program_names(prev)[k]);
                                assert(next[k] == prev[k]);
                            } else {
                                assert(next[k] == ps[i as int]);
                            }
                        }
                        assert(string_views(names@) =~= program_names(next));
                    }
                } else {
                    proof {
                        assert(eligible_programs(rows, ps, i as int + 1) == prev);
                    }
                }
                i += 1;
            },
        }
    }
    if names.is_empty() {
        proof {
            assert(program_names(eligible_programs(rows, ps, n as int)).len() == eligible_programs(
                rows,
                ps,
                n as int,
            ).len());
        }
        Ok(None)
    } else {
        proof {
            assert(program_names(eligible_programs(rows, ps, n as int)).len() == eligible_programs(
                rows,
                ps,
                n as int,
            ).len());
        }
        Ok(Some(NotificationPlan { message, program_names: names }))
    }
}

/// A name whose stored record has the notification flag raised — whether
/// by an earlier confirmed dispatch or by a manual check run without
/// `allow_notification` — is never part of a notification plan: manual
/// suppression holds until a new version resets the flag.
pub proof fn lemma_sent_flag_excludes(
    rows: Seq<ProgramView>,
    ps: Seq<ProgramView>,
    k: int,
    name: Seq<char>,
)
    requires
        stored_notification_sent(rows, name),
    ensures
        !program_names(eligible_programs(rows, ps, k)).contains(name),
    decreases k,
{
    if k > 0 {
        lemma_sent_flag_excludes(rows, ps, k - 1, name);
        let prev = eligible_programs(rows, ps, k - 1);
        let cur = eligible_programs(rows, ps, k);
        if !stored_notification_sent(rows, ps[k - 1].name) {
            assert(ps[k - 1].name != name);
            assert(cur == prev.push(ps[k - 1]));
            if program_names(cur).contains(name) {
                let m = choose|m: int|
                    0 <= m < cur.len() && #[trigger] program_names(cur)[m] == name;
                assert(program_names(cur)[m] == cur[m].name);
                if m < prev.len() {
                    assert(cur[m] == prev[m]);
                    assert(program_names(prev)[m] == name);
                }
            }
        } else {
            assert(cur == prev);
        }
    } else {
        if program_names(eligible_programs(rows, ps, k)).contains(name) {
            let m = choose|m: int|
                0 <= m < eligible_programs(rows, ps, k).len() && #[trigger] program_names(
                    eligible_programs(rows, ps, k),
                )[m] == name;
        }
    }
}

/// Retrying a failed dispatch is safe: a failed dispatch marks nothing, so
/// which programs a plan covers depends only on the stored notification
/// flags of the named programs — two stores that agree on those flags
/// yield the same plan for the same update set.
pub proof fn lemma_retry_safety(
    rows1: Seq<ProgramView>,
    rows2: Seq<ProgramView>,
    ps: Seq<ProgramView>,
    k: int,
)
    requires
        forall|i: int|
            0 <= i < ps.len() ==> stored_notification_sent(rows1, #[trigger] ps[i].name)
                == stored_notification_sent(rows2, ps[i].name),
        k <= ps.len(),
    ensures
        eligible_programs(rows1, ps, k) == eligible_programs(rows2, ps, k),
    decreases k,
{
    if k > 0 {
        lemma_retry_safety(rows1, rows2, ps, k - 1);
    }
}

/// Records a confirmed dispatch: every program whose name is listed gets
/// its notification-sent flag raised and the dispatch time recorded;
/// programs with other names are untouched.
pub fn mark_notified(db: &mut Db, program_names: &Vec<String>, now: Timestamp)
    requires
        old(db).wf(),
    ensures
        final(db).wf(),
        final(db)@.programs.len() == old(db)@.programs.len(),
        forall|j: int|
            0 <= j < old(db)@.programs.len() ==> final(db)@.programs[j] == (
            if string_views(program_names@).contains(old(db)@.programs[j].name) {
                with_notification_sent_on(
                    with_notification_sent(old(db)@.programs[j], true),
                    Some(now as int),
                )
            } else {
                old(db)@.programs[j]
            }),
        final(db)@.update_check_history == old(db)@.update_check_history,
        final(db)@.update_history == old(db)@.update_history,
{
    let ghost rows = old(db)@.programs;
    let ghost listed = string_views(program_names@);
    let n = program_names.len();
    let mut i: usize = 0;
    while i < n
        invariant
            old(db).wf(),
            db.wf(),
            rows == old(db)@.programs,
            listed == string_views(program_names@),
            n == listed.len(),
            i <= n,
            db@.programs.len() == rows.len(),
            forall|j: int|
                0 <= j < rows.len() ==> db@.programs[j] == (
                if listed.take(i as int).contains(rows[j].name) {
                    with_notification_sent_on(
                        with_notification_sent(rows[j], true),
                        Some(now as int),
                    )
                } else {
                    rows[j]
                }),
            db@.update_check_history == old(db)@.update_check_history,
            db@.update_history == old(db)@.update_history,
        decreases n - i,
    {
        let ghost before = db@.programs;
        db.set_notification_sent(program_names[i].as_str(), true);
        db.set_notification_sent_on(program_names[i].as_str(), Some(now));
        proof {
            assert forall|j: int| 0 <= j < rows.len() implies db@.programs[j] == (
                if listed.take(i as int + 1).contains(rows[j].name) {
                    with_notification_sent_on(
                        with_notification_sent(rows[j], true),
                        Some(now as int),
                    )
                } else {
                    rows[j]
                }) by {
                assert(listed[i as int] == program_names@[i as int]@);
                if listed.take(i as int + 1).contains(rows[j].name) {
                    if listed.take(i as int).contains(rows[j].name) {
                        assert(before[j] == with_notification_sent_on(
                            with_notification_sent(rows[j], true),
                            Some(now as int),
                        ));
                        assert(before[j].name == rows[j].name);
                    } else {
                        let w = choose|w: int|
                            0 <= w < i as int + 1 && #[trigger] listed.take(i as int + 1)[w]
                                == rows[j].name;
                        assert(w == i as int);
                        assert(rows[j].name == listed[i as int]);
                        assert(before[j] == rows[j]);
                    }
                } else {
                    assert(!listed.take(i as int).contains(rows[j].name)) by {
                        if listed.take(i as int).contains(rows[j].name) {
                            let w = choose|w: int|
                                0 <= w < i as int && #[trigger] listed.take(i as int)[w]
                                    == rows[j].name;
                            assert(listed.take(i as int + 1)[w] == rows[j].name);
                        }
                    }
                    assert(before[j] == rows[j]);
                    assert(before[j].name != listed[i as int]) by {
                        if rows[j].name == listed[i as int] {
                            assert(listed.take(i as int + 1)[i as int] == rows[j].name);
                        }
                    }
                }
            }
        }
        i += 1;
    }
    proof {
        assert(listed.take(n as int) =~= listed);
        assert forall|j: int| 0 <= j < rows.len() implies db@.programs[j] == (
            if listed.contains(rows[j].name) {
                with_notification_sent_on(with_notification_sent(rows[j], true), Some(now as int))
            } else {
                rows[j]
            }) by {
        }
    }
}

} // verus!
