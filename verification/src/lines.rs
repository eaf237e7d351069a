//! Lists of lines: their order, sorting, removing repeated lines, and joining.

use crate::text::{lemma_precedes_irreflexive, lemma_precedes_total, lemma_precedes_transitive};
use crate::text::{precedes, text_lt};
use vstd::prelude::*;
use vstd::string::*;

verus! {

/// The texts of a list of lines.
pub open spec fn texts(lines: Seq<String>) -> Seq<Seq<char>> {
    lines.map_values(|line: String| line@)
}

/// No line of `lines` comes before an earlier one.
pub open spec fn ascending(lines: Seq<Seq<char>>) -> bool {
    forall|i: int, j: int| 0 <= i < j < lines.len() ==> !precedes(lines[j], lines[i])
}

/// Each line of `lines` comes before all later ones.
pub open spec fn strictly_ascending(lines: Seq<Seq<char>>) -> bool {
    forall|i: int, j: int| 0 <= i < j < lines.len() ==> precedes(lines[i], lines[j])
}

/// Sorts the lines into ascending order. Equal lines are all kept.
pub fn sort_lines(lines: &Vec<String>) -> (sorted: Vec<String>)
    ensures
        ascending(texts(sorted@)),
        texts(sorted@).to_multiset() == texts(lines@).to_multiset(),
{
    let mut sorted: Vec<String> = Vec::new();
    let mut i: usize = 0;
    assert(texts(lines@.take(0)) =~= texts(sorted@));
    while i < lines.len()
        invariant
            i <= lines.len(),
            ascending(texts(sorted@)),
            texts(sorted@).to_multiset() == texts(lines@.take(i as int)).to_multiset(),
        decreases lines.len() - i,
    {
        let line = lines[i].clone();
        let mut at: usize = 0;
        while at < sorted.len() && !text_lt(line.as_str(), sorted[at].as_str())
            invariant
                at <= sorted.len(),
                forall|k: int| 0 <= k < at ==> !precedes(line@, #[trigger] sorted@[k]@),
            decreases sorted.len() - at,
        {
            at += 1;
        }
        let ghost before = texts(sorted@);
        sorted.insert(at, line);
        proof {
            let after = texts(sorted@);
            assert(after =~= before.insert(at as int, line@));
            assert forall|a: int, b: int| 0 <= a < b < after.len() implies !precedes(
                after[b],
                after[a],
            ) by {
                if b == at {
                    assert(after[a] == sorted@[a]@);
                } else if a == at {
                    // line comes before the line that stood at `at`, which is
                    // not after any later one.
                    assert(precedes(line@, before[at as int]));
                    if precedes(after[b], line@) {
                        lemma_precedes_transitive(after[b], line@, before[at as int]);
                        if b - 1 == at {
                            lemma_precedes_irreflexive(after[b]);
                        }
                    }
                } else {
                    let a0 = if a < at { a } else { a - 1 };
                    let b0 = if b < at { b } else { b - 1 };
                    assert(after[a] == before[a0]);
                    assert(after[b] == before[b0]);
                }
            }
            assert(after.remove(at as int) =~= before);
            vstd::seq_lib::to_multiset_remove(after, at as int);
            after.to_multiset_ensures();
            assert(after.contains(line@)) by {
                assert(after[at as int] == line@);
            }
            assert(after.to_multiset() =~= before.to_multiset().insert(line@));
            let taken = texts(lines@.take(i as int));
            assert(texts(lines@.take(i + 1)) =~= taken.push(line@));
            vstd::seq_lib::to_multiset_build(taken, line@);
        }
        i += 1;
    }
    assert(lines@.take(lines.len() as int) =~= lines@);
    sorted
}

/// The lines of a list determine its sorted form: two ascending lists that
/// hold the same lines, each as often as the other, are the same list.
pub proof fn lemma_sorted_unique(a: Seq<Seq<char>>, b: Seq<Seq<char>>)
    requires
        ascending(a),
        ascending(b),
        a.to_multiset() == b.to_multiset(),
    ensures
        a == b,
    decreases a.len(),
{
    a.to_multiset_ensures();
    b.to_multiset_ensures();
    if a.len() == 0 {
        assert(a =~= b);
    } else {
        let x = a.last();
        let y = b.last();
        assert(a.contains(x)) by {
            assert(a[a.len() - 1] == x);
        }
        assert(b.contains(y)) by {
            assert(b[b.len() - 1] == y);
        }
        assert(b.to_multiset().count(x) > 0);
        assert(b.contains(x));
        assert(a.to_multiset().count(y) > 0);
        assert(a.contains(y));
        let k = choose|k: int| 0 <= k < b.len() && b[k] == x;
        let m = choose|m: int| 0 <= m < a.len() && a[m] == y;
        // Neither last line comes before the other.
        assert(!precedes(y, x)) by {
            if k < b.len() - 1 {
                assert(!precedes(b[b.len() - 1], b[k]));
            } else {
                lemma_precedes_irreflexive(x);
            }
        }
        assert(!precedes(x, y)) by {
            if m < a.len() - 1 {
                assert(!precedes(a[a.len() - 1], a[m]));
            } else {
                lemma_precedes_irreflexive(y);
            }
        }
        lemma_precedes_total(x, y);
        let a1 = a.drop_last();
        let b1 = b.drop_last();
        assert(a1 =~= a.remove(a.len() - 1));
        assert(b1 =~= b.remove(b.len() - 1));
        vstd::seq_lib::to_multiset_remove(a, a.len() - 1);
        vstd::seq_lib::to_multiset_remove(b, b.len() - 1);
        assert(ascending(a1)) by {
            assert forall|i: int, j: int| 0 <= i < j < a1.len() implies !precedes(a1[j], a1[i]) by {
                assert(!precedes(a[j], a[i]));
            }
        }
        assert(ascending(b1)) by {
            assert forall|i: int, j: int| 0 <= i < j < b1.len() implies !precedes(b1[j], b1[i]) by {
                assert(!precedes(b[j], b[i]));
            }
        }
        lemma_sorted_unique(a1, b1);
        assert(a =~= a1.push(x));
        assert(b =~= b1.push(y));
    }
}

/// `lines` without each line that equals the one before it.
pub open spec fn without_repeats(lines: Seq<Seq<char>>) -> Seq<Seq<char>>
    decreases lines.len(),
{
    if lines.len() <= 1 {
        lines
    } else if lines.last() == lines[lines.len() - 2] {
        without_repeats(lines.drop_last())
    } else {
        without_repeats(lines.drop_last()).push(lines.last())
    }
}

/// Drops each line that equals the one before it.
pub fn dedup_lines(lines: &Vec<String>) -> (kept: Vec<String>)
    ensures
        texts(kept@) == without_repeats(texts(lines@)),
{
    let mut kept: Vec<String> = Vec::new();
    let mut i: usize = 0;
    let ghost all = texts(lines@);
    assert(texts(kept@) =~= all.take(0));
    while i < lines.len()
        invariant
            i <= lines.len(),
            all == texts(lines@),
            texts(kept@) == without_repeats(all.take(i as int)),
        decreases lines.len() - i,
    {
        let ghost before = texts(kept@);
        proof {
            let next = all.take(i + 1);
            assert(next.drop_last() =~= all.take(i as int));
            assert(next.last() == lines@[i as int]@);
            if i > 0 {
                assert(next[next.len() - 2] == lines@[i - 1]@);
            } else {
                assert(before =~= Seq::<Seq<char>>::empty());
            }
        }
        if i == 0 || !(lines[i] == lines[i - 1]) {
            kept.push(lines[i].clone());
            assert(texts(kept@) =~= before.push(lines@[i as int]@));
        }
        i += 1;
    }
    assert(all.take(lines.len() as int) =~= all);
    kept
}

/// `set` holds each different line of `lines` once, in ascending order.
pub open spec fn is_sorted_set_of(set: Seq<Seq<char>>, lines: Seq<Seq<char>>) -> bool {
    &&& strictly_ascending(set)
    &&& forall|line: Seq<char>| set.contains(line) <==> lines.contains(line)
}

/// The different lines of `lines`, each once, in ascending order.
pub open spec fn sorted_set(lines: Seq<Seq<char>>) -> Seq<Seq<char>> {
    choose|set: Seq<Seq<char>>| is_sorted_set_of(set, lines)
}

/// If `line` stands in `longer` before its last place, it stands in
/// `longer.drop_last()`, and it differs from the last line when `longer` is
/// strictly ascending.
proof fn lemma_member_of_front(longer: Seq<Seq<char>>, other: Seq<Seq<char>>, line: Seq<char>)
    requires
        strictly_ascending(longer),
        strictly_ascending(other),
        longer.len() > 0,
        other.len() > 0,
        longer.last() == other.last(),
        longer.drop_last().contains(line),
        forall|l: Seq<char>| longer.contains(l) ==> other.contains(l),
    ensures
        other.drop_last().contains(line),
{
    let front = longer.drop_last();
    let i = choose|i: int| 0 <= i < front.len() && front[i] == line;
    assert(longer[i] == line);
    assert(precedes(longer[i], longer[longer.len() - 1]));
    if line == longer.last() {
        lemma_precedes_irreflexive(line);
    }
    assert(longer.contains(line));
    let j = choose|j: int| 0 <= j < other.len() && other[j] == line;
    assert(other.drop_last()[j] == line);
}

/// The lines of a list determine its sorted set: two strictly ascending lists
/// with the same lines are the same list.
pub proof fn lemma_sorted_set_unique(a: Seq<Seq<char>>, b: Seq<Seq<char>>, lines: Seq<Seq<char>>)
    requires
        is_sorted_set_of(a, lines),
        is_sorted_set_of(b, lines),
    ensures
        a == b,
    decreases a.len(),
{
    if a.len() == 0 {
        if b.len() > 0 {
            assert(b.contains(b[0]));
            assert(a.contains(b[0]));
        }
        assert(a =~= b);
    } else {
        let x = a.last();
        assert(a.contains(x)) by {
            assert(a[a.len() - 1] == x);
        }
        assert(b.contains(x));
        let y = b.last();
        assert(b.contains(y)) by {
            assert(b[b.len() - 1] == y);
        }
        assert(a.contains(y));
        if x != y {
            let k = choose|k: int| 0 <= k < b.len() && b[k] == x;
            let m = choose|m: int| 0 <= m < a.len() && a[m] == y;
            assert(precedes(b[k], b[b.len() - 1]));
            assert(precedes(a[m], a[a.len() - 1]));
            lemma_precedes_transitive(x, y, x);
            lemma_precedes_irreflexive(x);
        }
        let a1 = a.drop_last();
        let b1 = b.drop_last();
        assert forall|l: Seq<char>| a1.contains(l) <==> b1.contains(l) by {
            if a1.contains(l) {
                lemma_member_of_front(a, b, l);
            }
            if b1.contains(l) {
                lemma_member_of_front(b, a, l);
            }
        }
        assert(strictly_ascending(a1)) by {
            assert forall|i: int, j: int| 0 <= i < j < a1.len() implies precedes(a1[i], a1[j]) by {
                assert(precedes(a[i], a[j]));
            }
        }
        assert(strictly_ascending(b1)) by {
            assert forall|i: int, j: int| 0 <= i < j < b1.len() implies precedes(b1[i], b1[j]) by {
                assert(precedes(b[i], b[j]));
            }
        }
        lemma_sorted_set_unique(a1, b1, a1);
        assert(a =~= a1.push(x));
        assert(b =~= b1.push(y));
    }
}

/// `without_repeats` keeps the last line.
proof fn lemma_without_repeats_last(lines: Seq<Seq<char>>)
    requires
        lines.len() > 0,
    ensures
        without_repeats(lines).len() > 0,
        without_repeats(lines).last() == lines.last(),
    decreases lines.len(),
{
    if lines.len() > 1 {
        lemma_without_repeats_last(lines.drop_last());
    }
}

/// In an ascending list equal lines are neighbours, so that dropping the
/// repeats leaves each different line once, still in order.
pub proof fn lemma_without_repeats_of_ascending(lines: Seq<Seq<char>>)
    requires
        ascending(lines),
    ensures
        is_sorted_set_of(without_repeats(lines), lines),
    decreases lines.len(),
{
    let kept = without_repeats(lines);
    if lines.len() <= 1 {
    } else {
        let front = lines.drop_last();
        let last = lines.last();
        let prev = lines[lines.len() - 2];
        let kept_front = without_repeats(front);
        assert(ascending(front)) by {
            assert forall|i: int, j: int| 0 <= i < j < front.len() implies !precedes(
                front[j],
                front[i],
            ) by {
                assert(!precedes(lines[j], lines[i]));
            }
        }
        lemma_without_repeats_of_ascending(front);
        lemma_without_repeats_last(front);
        assert(front.last() == prev);
        assert(forall|l: Seq<char>| lines.contains(l) <==> front.contains(l) || l == last) by {
            assert forall|l: Seq<char>| lines.contains(l) implies front.contains(l) || l
                == last by {
                let i = choose|i: int| 0 <= i < lines.len() && lines[i] == l;
                if i < lines.len() - 1 {
                    assert(front[i] == l);
                }
            }
            assert forall|l: Seq<char>| front.contains(l) || l == last implies lines.contains(
                l,
            ) by {
                if front.contains(l) {
                    let i = choose|i: int| 0 <= i < front.len() && front[i] == l;
                    assert(lines[i] == l);
                } else {
                    assert(lines[lines.len() - 1] == l);
                }
            }
        }
        if last == prev {
            assert(front.contains(prev)) by {
                assert(front[front.len() - 1] == prev);
            }
        } else {
            assert(kept == kept_front.push(last));
            assert(!precedes(last, prev));
            lemma_precedes_total(prev, last);
            assert(precedes(prev, last));
            assert forall|i: int, j: int| 0 <= i < j < kept.len() implies precedes(
                kept[i],
                kept[j],
            ) by {
                if j == kept.len() - 1 {
                    let l = kept_front[i];
                    assert(kept_front.contains(l));
                    assert(front.contains(l));
                    let k = choose|k: int| 0 <= k < front.len() && front[k] == l;
                    assert(lines[k] == l);
                    if k < lines.len() - 2 {
                        assert(!precedes(lines[lines.len() - 2], lines[k]));
                        lemma_precedes_total(l, prev);
                        if l != prev {
                            lemma_precedes_transitive(l, prev, last);
                        }
                    }
                } else {
                    assert(precedes(kept_front[i], kept_front[j]));
                }
            }
            assert forall|l: Seq<char>| kept.contains(l) <==> kept_front.contains(l) || l
                == last by {
                if kept.contains(l) {
                    let i = choose|i: int| 0 <= i < kept.len() && kept[i] == l;
                    if i < kept.len() - 1 {
                        assert(kept_front[i] == l);
                    }
                }
                if kept_front.contains(l) {
                    let i = choose|i: int| 0 <= i < kept_front.len() && kept_front[i] == l;
                    assert(kept[i] == l);
                }
                if l == last {
                    assert(kept[kept.len() - 1] == l);
                }
            }
        }
    }
}

/// A strictly ascending list holds no line twice.
pub proof fn lemma_strictly_ascending_no_duplicates(lines: Seq<Seq<char>>)
    requires
        strictly_ascending(lines),
    ensures
        lines.no_duplicates(),
{
    assert forall|i: int, j: int|
        0 <= i < lines.len() && 0 <= j < lines.len() && i != j implies lines[i] != lines[j] by {
        if i < j {
            assert(precedes(lines[i], lines[j]));
        } else {
            assert(precedes(lines[j], lines[i]));
        }
        lemma_precedes_irreflexive(lines[i]);
    }
}

/// Every list of lines has a sorted set, so that `sorted_set` names it.
pub proof fn lemma_sorted_set_exists(lines: Seq<Seq<char>>)
    ensures
        is_sorted_set_of(sorted_set(lines), lines),
{
    let not_after = |a: Seq<char>, b: Seq<char>| !precedes(b, a);
    assert(vstd::relations::total_ordering(not_after)) by {
        assert forall|x: Seq<char>| #[trigger] not_after(x, x) by {
            lemma_precedes_irreflexive(x);
        }
        assert forall|x: Seq<char>, y: Seq<char>| #[trigger]
            not_after(x, y) && #[trigger] not_after(y, x) implies x == y by {
            lemma_precedes_total(x, y);
        }
        assert forall|x: Seq<char>, y: Seq<char>, z: Seq<char>| #[trigger]
            not_after(x, y) && #[trigger] not_after(y, z) implies not_after(x, z) by {
            if precedes(z, x) {
                lemma_precedes_total(x, y);
                if precedes(x, y) {
                    lemma_precedes_transitive(z, x, y);
                }
            }
        }
        assert forall|x: Seq<char>, y: Seq<char>| #[trigger]
            not_after(x, y) || #[trigger] not_after(y, x) by {
            if precedes(x, y) && precedes(y, x) {
                lemma_precedes_transitive(x, y, x);
                lemma_precedes_irreflexive(x);
            }
        }
    }
    let sorted = lines.sort_by(not_after);
    lines.lemma_sort_by_ensures(not_after);
    assert(ascending(sorted)) by {
        assert forall|i: int, j: int| 0 <= i < j < sorted.len() implies !precedes(
            sorted[j],
            sorted[i],
        ) by {
            assert(not_after(sorted[i], sorted[j]));
        }
    }
    lemma_without_repeats_of_ascending(sorted);
    lines.to_multiset_ensures();
    sorted.to_multiset_ensures();
    assert forall|line: Seq<char>| sorted.contains(line) <==> lines.contains(line) by {
        assert(sorted.to_multiset().count(line) == lines.to_multiset().count(line));
    }
    assert(is_sorted_set_of(without_repeats(sorted), lines));
}

/// Sorts the lines and keeps each different line once.
pub fn unique_sorted(lines: &Vec<String>) -> (set: Vec<String>)
    ensures
        is_sorted_set_of(texts(set@), texts(lines@)),
        texts(set@) == sorted_set(texts(lines@)),
{
    let sorted = sort_lines(lines);
    let set = dedup_lines(&sorted);
    proof {
        let given = texts(lines@);
        let ordered = texts(sorted@);
        lemma_without_repeats_of_ascending(ordered);
        given.to_multiset_ensures();
        ordered.to_multiset_ensures();
        assert forall|line: Seq<char>| ordered.contains(line) <==> given.contains(line) by {
            assert(ordered.to_multiset().count(line) == given.to_multiset().count(line));
        }
        lemma_sorted_set_unique(texts(set@), sorted_set(given), given);
    }
    set
}

/// A copy of the lines.
pub fn copy_lines(lines: &Vec<String>) -> (copy: Vec<String>)
    ensures
        texts(copy@) == texts(lines@),
{
    let mut copy: Vec<String> = Vec::new();
    let mut i: usize = 0;
    while i < lines.len()
        invariant
            i <= lines.len(),
            texts(copy@) == texts(lines@).take(i as int),
        decreases lines.len() - i,
    {
        let ghost before = texts(copy@);
        copy.push(lines[i].clone());
        assert(texts(copy@) =~= before.push(lines@[i as int]@));
        i += 1;
    }
    assert(texts(lines@).take(lines.len() as int) =~= texts(lines@));
    copy
}

/// Joins the lines, one after the other, with nothing between them.
pub fn join_lines(lines: &Vec<String>) -> (joined: String)
    ensures
        joined@ == texts(lines@).flatten(),
{
    let mut joined = String::new();
    let mut i: usize = 0;
    let ghost all = texts(lines@);
    assert(all.take(0) =~= Seq::<Seq<char>>::empty());
    while i < lines.len()
        invariant
            i <= lines.len(),
            all == texts(lines@),
            joined@ == all.take(i as int).flatten(),
        decreases lines.len() - i,
    {
        proof {
            assert(all.take(i + 1) =~= all.take(i as int).push(lines@[i as int]@));
            all.take(i as int).lemma_flatten_push(lines@[i as int]@);
        }
        joined.append(lines[i].as_str());
        i += 1;
    }
    assert(all.take(lines.len() as int) =~= all);
    joined
}

} // verus!
