//! When a file name matches a query, and how well.

use crate::fuzzy::{edit_distance, edit_distance_bounds, edit_distance_zero, score_of};
use crate::text::{first_at, first_occurrence_is, occurs, occurs_at, utf8_len, utf8_len_concat};
use vstd::prelude::*;
use vstd::utf8::{encode_scalar, encode_utf8};

verus! {

// ------------------------------------------------------------ occurrences

proof fn width_is_counted(c: char)
    ensures
        encode_scalar(c as u32).len() == crate::text::utf8_width(c),
{
}

proof fn bytes_are_counted(s: Seq<char>)
    ensures
        utf8_len(s) == encode_utf8(s).len(),
    decreases s.len(),
{
    if s.len() > 0 {
        let rest = s.drop_first();
        bytes_are_counted(rest);
        assert(s == seq![s[0]] + rest);
        utf8_len_concat(seq![s[0]], rest);
        assert(seq![s[0]].drop_last() == Seq::<char>::empty());
        assert(utf8_len(Seq::<char>::empty()) == 0);
        assert(utf8_len(seq![s[0]]) == crate::text::utf8_width(s[0]));
        width_is_counted(s[0]);
    }
}

/// A name that holds the query matches. It has 1000 points, less four for every byte before the
/// first place where the query stands, and less one for every byte that the name has besides it.
pub proof fn holding_names_match(query: Seq<char>, before: Seq<char>, behind: Seq<char>)
    requires
        query.len() > 0,
        forall|k: int|
            0 <= k < before.len() ==> #[trigger] (before + query + behind).subrange(
                k,
                k + query.len(),
            ) != query,
        encode_utf8(before + query + behind).len() <= 0x1000_0000_0000_0000,
    ensures
        score_of(query, before + query + behind) == Some(
            1000 - 4 * encode_utf8(before).len() - encode_utf8(before).len() - encode_utf8(
                behind,
            ).len(),
        ),
{
    let name = before + query + behind;
    let k = before.len() as int;
    assert(name.subrange(k, k + query.len()) == query);
    assert(occurs_at(name, query, k));
    assert forall|j: int| j < k implies !occurs_at(name, query, j) by {
        if 0 <= j {
            assert(name.subrange(j, j + query.len()) != query);
        }
    }
    assert(first_at(name, query, k));
    first_occurrence_is(name, query, k);
    assert(name.take(k) == before);
    bytes_are_counted(name);
    bytes_are_counted(before);
    bytes_are_counted(behind);
    utf8_len_concat(before + query, behind);
    utf8_len_concat(before, query);
}

// ------------------------------------------------------------ typing errors

/// A name that does not hold the query matches only by typing errors: the query has at least four
/// characters, both start and end alike, the name has no character that the query lacks, and few
/// edits turn the one into the other, one for up to nine characters, two for up to fourteen and
/// three for more. It has then 800 points, less sixty for every edit and less ten for every character
/// that is too much or missing, counted from the least number there is.
pub proof fn typing_errors_match(query: Seq<char>, name: Seq<char>)
    requires
        forall|k: int|
            0 <= k && k + query.len() <= name.len() ==> #[trigger] name.subrange(
                k,
                k + query.len(),
            ) != query,
    ensures
        score_of(query, name) is Some <==> {
            &&& query.len() >= 4
            &&& name.len() > 0
            &&& query[0] == name[0]
            &&& query[query.len() - 1] == name[name.len() - 1]
            &&& forall|i: int| 0 <= i < name.len() ==> query.contains(#[trigger] name[i])
            &&& edit_distance(query, name) <= if query.len() < 10 {
                1int
            } else if query.len() < 15 {
                2
            } else {
                3
            }
        },
        score_of(query, name) matches Some(score) ==> score == i64::MIN + 800 - 60 * edit_distance(
            query,
            name,
        ) - 10 * if query.len() <= name.len() {
            name.len() - query.len()
        } else {
            query.len() - name.len()
        },
{
    assert(!occurs(name, query)) by {
        if occurs(name, query) {
            let k = choose|k: int| occurs_at(name, query, k);
            assert(name.subrange(k, k + query.len()) == query);
        }
    }
}

/// Without a query, or without a name, nothing matches.
pub proof fn nothing_matches_nothing(s: Seq<char>)
    ensures
        score_of(Seq::empty(), s) is None,
        score_of(s, Seq::empty()) is None,
{
}

// ------------------------------------------------------------ edits

/// Whether one edit leads from `a` to `b`: a character put in, taken out or replaced.
pub open spec fn one_edit(a: Seq<char>, b: Seq<char>) -> bool {
    ||| exists|i: int, c: char| 0 <= i <= a.len() && b == #[trigger] a.insert(i, c)
    ||| exists|i: int| 0 <= i < a.len() && b == #[trigger] a.remove(i)
    ||| exists|i: int, c: char| 0 <= i < a.len() && b == #[trigger] a.update(i, c)
}

proof fn insertion_costs_one(a: Seq<char>, b: Seq<char>, i: int, c: char)
    requires
        0 <= i <= b.len(),
    ensures
        edit_distance(a, b.insert(i, c)) <= edit_distance(a, b) + 1,
        edit_distance(a, b) <= edit_distance(a, b.insert(i, c)) + 1,
    decreases a.len() + b.len(),
{
    let d = b.insert(i, c);
    if a.len() == 0 {
    } else {
        let x = a.drop_last();
        insertion_costs_one(x, b, i, c);
        if i == b.len() {
            assert(d.drop_last() == b);
            if b.len() > 0 {
                assert(edit_distance(a, b) <= edit_distance(x, b) + 1);
            } else {
                assert(edit_distance(a, b) == a.len());
                assert(edit_distance(x, b) == x.len());
            }
        } else {
            let y = b.drop_last();
            assert(d.drop_last() == y.insert(i, c));
            assert(d.last() == b.last());
            insertion_costs_one(a, y, i, c);
            insertion_costs_one(x, y, i, c);
        }
    }
}

proof fn replacement_costs_one(a: Seq<char>, b: Seq<char>, i: int, c: char)
    requires
        0 <= i < b.len(),
    ensures
        edit_distance(a, b.update(i, c)) <= edit_distance(a, b) + 1,
    decreases a.len() + b.len(),
{
    let d = b.update(i, c);
    if a.len() > 0 {
        let x = a.drop_last();
        let y = b.drop_last();
        replacement_costs_one(x, b, i, c);
        if i == b.len() - 1 {
            assert(d.drop_last() == y);
        } else {
            assert(d.drop_last() == y.update(i, c));
            assert(d.last() == b.last());
            replacement_costs_one(a, y, i, c);
            replacement_costs_one(x, y, i, c);
        }
    }
}

/// No edit changes the distance from another text by more than one. Since only equal texts have the
/// distance zero, the distance is at most the number of edits between two texts.
pub proof fn an_edit_counts_at_most_one(a: Seq<char>, b: Seq<char>, c: Seq<char>)
    requires
        one_edit(b, c),
    ensures
        edit_distance(a, c) <= edit_distance(a, b) + 1,
        edit_distance(a, b) <= edit_distance(a, c) + 1,
        edit_distance(a, b) == 0 <==> a == b,
{
    edit_distance_zero(a, b);
    if exists|i: int, x: char| 0 <= i <= b.len() && c == #[trigger] b.insert(i, x) {
        let (i, x) = choose|i: int, x: char| 0 <= i <= b.len() && c == #[trigger] b.insert(i, x);
        insertion_costs_one(a, b, i, x);
    } else if exists|i: int| 0 <= i < b.len() && c == #[trigger] b.remove(i) {
        let i = choose|i: int| 0 <= i < b.len() && c == #[trigger] b.remove(i);
        assert(c.insert(i, b[i]) == b);
        insertion_costs_one(a, c, i, b[i]);
    } else {
        let (i, x) = choose|i: int, x: char| 0 <= i < b.len() && c == #[trigger] b.update(i, x);
        replacement_costs_one(a, b, i, x);
        assert(c.update(i, b[i]) == b);
        replacement_costs_one(a, c, i, b[i]);
    }
}

/// Between different texts there is always an edit that brings the one nearer to the other. So the
/// distance is no more than the edits that are needed, and, with the law before, exactly these.
pub proof fn an_edit_comes_nearer(a: Seq<char>, b: Seq<char>)
    requires
        a != b,
    ensures
        exists|c: Seq<char>| #[trigger]
            one_edit(b, c) && edit_distance(a, c) == edit_distance(a, b) - 1,
{
    edit_distance_zero(a, b);
    edit_distance_bounds(a, b);
    nearer(a, b);
}

proof fn nearer(a: Seq<char>, b: Seq<char>)
    requires
        edit_distance(a, b) > 0,
    ensures
        exists|c: Seq<char>| #[trigger]
            one_edit(b, c) && edit_distance(a, c) == edit_distance(a, b) - 1,
    decreases a.len() + b.len(),
{
    let d = edit_distance(a, b);
    if a.len() == 0 {
        let c = b.remove(b.len() - 1);
        assert(one_edit(b, c));
        assert(edit_distance(a, c) == d - 1);
    } else {
        let x = a.drop_last();
        let z = a.last();
        // where the last character of `a` is put behind `b`, the rest is left
        let longer = b.insert(b.len() as int, z);
        assert(longer.drop_last() == b);
        assert(one_edit(b, longer));
        an_edit_counts_at_most_one(a, b, longer);
        if b.len() == 0 {
            assert(edit_distance(x, b) == d - 1);
            assert(edit_distance(a, longer) <= edit_distance(x, b));
            assert(one_edit(b, longer) && edit_distance(a, longer) == d - 1);
        } else {
            let y = b.drop_last();
            if d == edit_distance(x, b) + 1 {
                assert(edit_distance(a, longer) <= edit_distance(x, b));
                assert(one_edit(b, longer) && edit_distance(a, longer) == d - 1);
            } else if d == edit_distance(a, y) + 1 {
                let c = b.remove(b.len() - 1);
                assert(c == y);
                assert(one_edit(b, c) && edit_distance(a, c) == d - 1);
            } else if z != b.last() {
                let c = b.update(b.len() - 1, z);
                assert(c.drop_last() == y);
                assert(one_edit(b, c));
                an_edit_counts_at_most_one(a, b, c);
                assert(edit_distance(a, c) <= edit_distance(x, y));
                assert(one_edit(b, c) && edit_distance(a, c) == d - 1);
            } else {
                nearer(x, y);
                let e = choose|e: Seq<char>| #[trigger]
                    one_edit(y, e) && edit_distance(x, e) == edit_distance(x, y) - 1;
                let c = e.push(z);
                assert(c.drop_last() == e);
                edit_behind(y, e, z);
                assert(y.push(z) == b);
                an_edit_counts_at_most_one(a, b, c);
                assert(edit_distance(a, c) <= edit_distance(x, e)) by {
                    if e.len() == 0 {
                        assert(x.len() >= 0);
                    }
                }
                assert(one_edit(b, c) && edit_distance(a, c) == d - 1);
            }
        }
    }
}

proof fn edit_behind(a: Seq<char>, b: Seq<char>, z: char)
    requires
        one_edit(a, b),
    ensures
        one_edit(a.push(z), b.push(z)),
{
    if exists|i: int, x: char| 0 <= i <= a.len() && b == #[trigger] a.insert(i, x) {
        let (i, x) = choose|i: int, x: char| 0 <= i <= a.len() && b == #[trigger] a.insert(i, x);
        assert(a.push(z).insert(i, x) == b.push(z));
    } else if exists|i: int| 0 <= i < a.len() && b == #[trigger] a.remove(i) {
        let i = choose|i: int| 0 <= i < a.len() && b == #[trigger] a.remove(i);
        assert(a.push(z).remove(i) == b.push(z));
    } else {
        let (i, x) = choose|i: int, x: char| 0 <= i < a.len() && b == #[trigger] a.update(i, x);
        assert(a.push(z).update(i, x) == b.push(z));
    }
}

} // verus!
