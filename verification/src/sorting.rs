//! Ordering of program lists by name: what it means for a list to be sorted,
//! insertion at the name-ordered position, and a verified insertion sort.

use vstd::prelude::*;

use crate::text::{chars_le, chars_lt, lemma_chars_lt_irreflexive, str_lt};
use crate::{program_views, Program, ProgramView};

verus! {

/// The programs appear in (non-strictly) ascending name order.
pub open spec fn sorted_by_name(s: Seq<ProgramView>) -> bool {
    forall|i: int, j: int| 0 <= i < j < s.len() ==> chars_le(#[trigger] s[i].name, #[trigger] s[j].name)
}

/// The programs appear in strictly ascending name order; in particular all
/// names are distinct.
pub open spec fn strictly_sorted_by_name(s: Seq<ProgramView>) -> bool {
    forall|i: int, j: int| 0 <= i < j < s.len() ==> chars_lt(#[trigger] s[i].name, #[trigger] s[j].name)
}

/// Some program in the list carries this name.
pub open spec fn contains_name(s: Seq<ProgramView>, name: Seq<char>) -> bool {
    exists|i: int| 0 <= i < s.len() && s[i].name == name
}

/// The names of the programs, in list order.
pub open spec fn program_names(s: Seq<ProgramView>) -> Seq<Seq<char>> {
    s.map_values(|p: ProgramView| p.name)
}

/// `s` with `p` inserted before the first program whose name orders after
/// `p`'s name.
pub open spec fn sorted_insert(s: Seq<ProgramView>, p: ProgramView) -> Seq<ProgramView>
    decreases s.len(),
{
    if s.len() == 0 {
        seq![p]
    } else if chars_lt(p.name, s[0].name) {
        seq![p] + s
    } else {
        seq![s[0]] + sorted_insert(s.skip(1), p)
    }
}

/// The list sorted by name, built by inserting each program in turn.
pub open spec fn insertion_sort(s: Seq<ProgramView>) -> Seq<ProgramView>
    decreases s.len(),
{
    if s.len() == 0 {
        Seq::empty()
    } else {
        sorted_insert(insertion_sort(s.drop_last()), s.last())
    }
}

/// Where the first `i` programs order no later than `p` and the `i`-th (if
/// any) orders after it, [`sorted_insert`] places `p` exactly at index `i`.
pub proof fn lemma_sorted_insert_at(s: Seq<ProgramView>, p: ProgramView, i: int)
    requires
        0 <= i <= s.len(),
        forall|j: int| 0 <= j < i ==> !chars_lt(p.name, #[trigger] s[j].name),
        i < s.len() ==> chars_lt(p.name, s[i].name),
    ensures
        sorted_insert(s, p) == s.subrange(0, i) + seq![p] + s.skip(i),
    decreases i,
{
    if i == 0 {
        if s.len() == 0 {
            assert(sorted_insert(s, p) =~= s.subrange(0, 0) + seq![p] + s.skip(0));
        } else {
            assert(seq![p] + s =~= s.subrange(0, 0) + seq![p] + s.skip(0));
        }
    } else {
        assert(forall|j: int|
            0 <= j < i - 1 ==> !chars_lt(p.name, #[trigger] s.skip(1)[j].name));
        lemma_sorted_insert_at(s.skip(1), p, i - 1);
        assert(seq![s[0]] + (s.skip(1).subrange(0, i - 1) + seq![p] + s.skip(1).skip(i - 1))
            =~= s.subrange(0, i) + seq![p] + s.skip(i));
    }
}

/// What [`sorted_insert`] guarantees: the length grows by one, sortedness is
/// kept, strict sortedness is kept when the name is new, and exactly the
/// inserted name joins the names present.
pub proof fn lemma_sorted_insert_ensures(s: Seq<ProgramView>, p: ProgramView)
    ensures
        sorted_insert(s, p).len() == s.len() + 1,
        forall|n: Seq<char>| #![trigger contains_name(sorted_insert(s, p), n)]
            contains_name(sorted_insert(s, p), n) <==> contains_name(s, n) || n == p.name,
        sorted_by_name(s) ==> sorted_by_name(sorted_insert(s, p)),
        strictly_sorted_by_name(s) && !contains_name(s, p.name) ==> strictly_sorted_by_name(
            sorted_insert(s, p),
        ),
    decreases s.len(),
{
    if s.len() == 0 {
        assert forall|n: Seq<char>|
            contains_name(sorted_insert(s, p), n) implies contains_name(s, n) || n == p.name by {
            assert(sorted_insert(s, p)[0] == p);
        }
        assert(forall|n: Seq<char>| n == p.name ==> contains_name(sorted_insert(s, p), n));
    } else if chars_lt(p.name, s[0].name) {
        let r = seq![p] + s;
        assert forall|n: Seq<char>|
            contains_name(r, n) implies contains_name(s, n) || n == p.name by {
            let i = choose|i: int| 0 <= i < r.len() && r[i].name == n;
            if i > 0 {
                assert(s[i - 1].name == n);
            }
        }
        assert forall|n: Seq<char>|
            contains_name(s, n) || n == p.name implies contains_name(r, n) by {
            if contains_name(s, n) {
                let i = choose|i: int| 0 <= i < s.len() && s[i].name == n;
                assert(r[i + 1].name == n);
            } else {
                assert(r[0].name == n);
            }
        }
        if sorted_by_name(s) {
            assert forall|i: int, j: int|
                0 <= i < j < r.len() implies chars_le(#[trigger] r[i].name, #[trigger] r[j].name) by {
                if i == 0 {
                    if j > 1 {
                        assert(chars_le(s[0].name, s[j - 1].name));
                        if chars_lt(s[0].name, s[j - 1].name) {
                            crate::text::lemma_chars_lt_transitive(p.name, s[0].name, s[j - 1].name);
                        }
                    }
                } else {
                    assert(chars_le(s[i - 1].name, s[j - 1].name));
                }
            }
        }
        if strictly_sorted_by_name(s) && !contains_name(s, p.name) {
            assert forall|i: int, j: int|
                0 <= i < j < r.len() implies chars_lt(#[trigger] r[i].name, #[trigger] r[j].name) by {
                if i == 0 {
                    if j > 1 {
                        crate::text::lemma_chars_lt_transitive(p.name, s[0].name, s[j - 1].name);
                    }
                } else {
                    assert(chars_lt(s[i - 1].name, s[j - 1].name));
                }
            }
        }
    } else {
        let tail = sorted_insert(s.skip(1), p);
        lemma_sorted_insert_ensures(s.skip(1), p);
        let r = seq![s[0]] + tail;
        assert forall|n: Seq<char>|
            contains_name(r, n) implies contains_name(s, n) || n == p.name by {
            let i = choose|i: int| 0 <= i < r.len() && r[i].name == n;
            if i == 0 {
                assert(s[0].name == n);
            } else {
                assert(contains_name(tail, n));
                if contains_name(s.skip(1), n) {
                    let k = choose|k: int| 0 <= k < s.skip(1).len() && s.skip(1)[k].name == n;
                    assert(s[k + 1].name == n);
                }
            }
        }
        assert forall|n: Seq<char>|
            contains_name(s, n) || n == p.name implies contains_name(r, n) by {
            if contains_name(s, n) {
                let i = choose|i: int| 0 <= i < s.len() && s[i].name == n;
                if i == 0 {
                    assert(r[0].name == n);
                } else {
                    assert(s.skip(1)[i - 1].name == n);
                    assert(contains_name(s.skip(1), n));
                    assert(contains_name(tail, n));
                    let k = choose|k: int| 0 <= k < tail.len() && tail[k].name == n;
                    assert(r[k + 1].name == n);
                }
            } else {
                assert(contains_name(tail, n));
                let k = choose|k: int| 0 <= k < tail.len() && tail[k].name == n;
                assert(r[k + 1].name == n);
            }
        }
        if sorted_by_name(s) {
            assert(forall|j: int|
                0 <= j < s.skip(1).len() ==> chars_le(s[0].name, #[trigger] s.skip(1)[j].name));
            assert(sorted_by_name(s.skip(1))) by {
                assert(forall|i: int, j: int|
                    0 <= i < j < s.skip(1).len() ==> chars_le(
                        #[trigger] s.skip(1)[i].name,
                        #[trigger] s.skip(1)[j].name,
                    ));
            }
            assert forall|i: int, j: int|
                0 <= i < j < r.len() implies chars_le(#[trigger] r[i].name, #[trigger] r[j].name) by {
                if i == 0 {
                    assert(contains_name(tail, r[j].name)) by {
                        assert(tail[j - 1].name == r[j].name);
                    }
                    if r[j].name == p.name {
                        assert(!chars_lt(p.name, s[0].name));
                        crate::text::lemma_chars_lt_total(s[0].name, p.name);
                    } else {
                        assert(contains_name(s.skip(1), r[j].name));
                        let k = choose|k: int|
                            0 <= k < s.skip(1).len() && s.skip(1)[k].name == r[j].name;
                        assert(chars_le(s[0].name, s.skip(1)[k].name));
                    }
                } else {
                    assert(chars_le(tail[i - 1].name, tail[j - 1].name));
                }
            }
        }
        if strictly_sorted_by_name(s) && !contains_name(s, p.name) {
            assert(strictly_sorted_by_name(s.skip(1))) by {
                assert(forall|i: int, j: int|
                    0 <= i < j < s.skip(1).len() ==> chars_lt(
                        #[trigger] s.skip(1)[i].name,
                        #[trigger] s.skip(1)[j].name,
                    ));
            }
            assert(!contains_name(s.skip(1), p.name)) by {
                if contains_name(s.skip(1), p.name) {
                    let k = choose|k: int|
                        0 <= k < s.skip(1).len() && s.skip(1)[k].name == p.name;
                    assert(s[k + 1].name == p.name);
                }
            }
            assert forall|i: int, j: int|
                0 <= i < j < r.len() implies chars_lt(#[trigger] r[i].name, #[trigger] r[j].name) by {
                if i == 0 {
                    assert(contains_name(tail, r[j].name)) by {
                        assert(tail[j - 1].name == r[j].name);
                    }
                    if r[j].name == p.name {
                        assert(s[0].name != p.name);
                        crate::text::lemma_chars_lt_total(s[0].name, p.name);
                    } else {
                        assert(contains_name(s.skip(1), r[j].name));
                        let k = choose|k: int|
                            0 <= k < s.skip(1).len() && s.skip(1)[k].name == r[j].name;
                        assert(chars_lt(s[0].name, s.skip(1)[k].name));
                    }
                } else {
                    assert(chars_lt(tail[i - 1].name, tail[j - 1].name));
                }
            }
        }
    }
}

/// In a strictly sorted list, two different positions carry different
/// names.
pub proof fn lemma_strictly_sorted_names_distinct(s: Seq<ProgramView>, i: int, j: int)
    requires
        strictly_sorted_by_name(s),
        0 <= i < s.len(),
        0 <= j < s.len(),
        i != j,
    ensures
        s[i].name != s[j].name,
{
    if s[i].name == s[j].name {
        if i < j {
            assert(chars_lt(s[i].name, s[j].name));
        } else {
            assert(chars_lt(s[j].name, s[i].name));
        }
        lemma_chars_lt_irreflexive(s[i].name);
    }
}

/// A list that is already strictly sorted is its own insertion sort.
pub proof fn lemma_insertion_sort_identity(s: Seq<ProgramView>)
    requires
        strictly_sorted_by_name(s),
    ensures
        insertion_sort(s) == s,
    decreases s.len(),
{
    if s.len() > 0 {
        assert(strictly_sorted_by_name(s.drop_last())) by {
            assert(forall|i: int, j: int|
                0 <= i < j < s.drop_last().len() ==> chars_lt(
                    #[trigger] s.drop_last()[i].name,
                    #[trigger] s.drop_last()[j].name,
                ));
        }
        lemma_insertion_sort_identity(s.drop_last());
        lemma_sorted_insert_append(s.drop_last(), s.last());
        assert(s.drop_last() + seq![s.last()] =~= s);
    }
}

/// Inserting a program whose name orders strictly after every present name
/// appends it at the end.
pub proof fn lemma_sorted_insert_append(s: Seq<ProgramView>, p: ProgramView)
    requires
        forall|j: int| 0 <= j < s.len() ==> chars_lt(#[trigger] s[j].name, p.name),
    ensures
        sorted_insert(s, p) == s + seq![p],
    decreases s.len(),
{
    if s.len() == 0 {
        assert(sorted_insert(s, p) =~= s + seq![p]);
    } else {
        crate::text::lemma_chars_lt_asymmetric(s[0].name, p.name);
        assert(forall|j: int|
            0 <= j < s.skip(1).len() ==> chars_lt(#[trigger] s.skip(1)[j].name, p.name));
        lemma_sorted_insert_append(s.skip(1), p);
        assert(seq![s[0]] + (s.skip(1) + seq![p]) =~= s + seq![p]);
    }
}

/// What [`insertion_sort`] guarantees: same length, sorted result.
pub proof fn lemma_insertion_sort_ensures(s: Seq<ProgramView>)
    ensures
        insertion_sort(s).len() == s.len(),
        sorted_by_name(insertion_sort(s)),
    decreases s.len(),
{
    if s.len() > 0 {
        lemma_insertion_sort_ensures(s.drop_last());
        lemma_sorted_insert_ensures(insertion_sort(s.drop_last()), s.last());
    }
}

/// Inserts `program` into `list` before the first program whose name orders
/// after it.
pub(crate) fn insert_at_name_position(list: &mut Vec<Program>, program: Program)
    ensures
        program_views(final(list)@) == sorted_insert(program_views(old(list)@), program@),
{
    let mut i: usize = 0;
    while i < list.len()
        invariant
            i <= list.len(),
            forall|j: int|
                0 <= j < i ==> !chars_lt(program@.name, #[trigger] list@[j]@.name),
        ensures
            i <= list.len(),
            forall|j: int|
                0 <= j < i ==> !chars_lt(program@.name, #[trigger] list@[j]@.name),
            i < list.len() ==> chars_lt(program@.name, list@[i as int]@.name),
        decreases list.len() - i,
    {
        if str_lt(program.name.as_str(), list[i].name.as_str()) {
            break;
        }
        i += 1;
    }
    proof {
        let s = program_views(list@);
        assert(forall|j: int| 0 <= j < i ==> s[j].name == list@[j]@.name);
        lemma_sorted_insert_at(s, program@, i as int);
    }
    let ghost before = program_views(list@);
    list.insert(i, program);
    proof {
        assert(program_views(list@) =~= before.subrange(0, i as int) + seq![program@]
            + before.skip(i as int));
    }
}

/// Returns the given programs reordered into ascending name order.
pub fn sort_programs_by_name(programs: Vec<Program>) -> (r: Vec<Program>)
    ensures
        program_views(r@) == insertion_sort(program_views(programs@)),
{
    let ghost input = program_views(programs@);
    let mut programs = programs;
    let mut out: Vec<Program> = Vec::new();
    let mut i: usize = 0;
    while i < programs.len()
        invariant
            i <= programs.len(),
            program_views(programs@) == input,
            program_views(out@) == insertion_sort(input.take(i as int)),
        decreases programs.len() - i,
    {
        let p = programs[i].clone();
        insert_at_name_position(&mut out, p);
        proof {
            assert(input.take(i as int + 1).drop_last() =~= input.take(i as int));
            assert(input.take(i as int + 1).last() == input[i as int]);
        }
        i += 1;
    }
    proof {
        assert(input.take(programs@.len() as int) =~= input);
    }
    out
}

} // verus!
