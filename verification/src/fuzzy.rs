//! Matching a file name against a query: containment, and a bounded number of typing errors.

use crate::text::{
    find_chars, first_occurrence, first_occurrence_exists, first_occurrence_is, holds_char, occurs,
    to_chars, utf8_len, utf8_len_concat, utf8_len_of,
};
use vstd::prelude::*;
use vstd::slice::slice_subrange;

verus! {

/// The smaller number.
pub open spec fn min(a: int, b: int) -> int {
    if a <= b {
        a
    } else {
        b
    }
}

/// The least number of insertions, deletions and replacements of one character that turn `a`
/// into `b`.
pub open spec fn edit_distance(a: Seq<char>, b: Seq<char>) -> int
    decreases a.len() + b.len(),
{
    if a.len() == 0 {
        b.len() as int
    } else if b.len() == 0 {
        a.len() as int
    } else {
        let deleted = edit_distance(a.drop_last(), b) + 1;
        let inserted = edit_distance(a, b.drop_last()) + 1;
        let kept = edit_distance(a.drop_last(), b.drop_last());
        let replaced = if a.last() == b.last() {
            kept
        } else {
            kept + 1
        };
        min(min(deleted, inserted), replaced)
    }
}

/// The difference of two numbers, whichever is larger.
pub open spec fn abs_diff(a: int, b: int) -> int {
    if a <= b {
        b - a
    } else {
        a - b
    }
}

/// The distance is at least the difference in length, and at most the greater length.
pub proof fn edit_distance_bounds(a: Seq<char>, b: Seq<char>)
    ensures
        abs_diff(a.len() as int, b.len() as int) <= edit_distance(a, b),
        edit_distance(a, b) <= a.len() || edit_distance(a, b) <= b.len(),
    decreases a.len() + b.len(),
{
    if a.len() > 0 && b.len() > 0 {
        edit_distance_bounds(a.drop_last(), b);
        edit_distance_bounds(a, b.drop_last());
        edit_distance_bounds(a.drop_last(), b.drop_last());
    }
}

/// The distance is the same in both directions.
pub proof fn edit_distance_symmetric(a: Seq<char>, b: Seq<char>)
    ensures
        edit_distance(a, b) == edit_distance(b, a),
    decreases a.len() + b.len(),
{
    if a.len() > 0 && b.len() > 0 {
        edit_distance_symmetric(a.drop_last(), b);
        edit_distance_symmetric(a, b.drop_last());
        edit_distance_symmetric(a.drop_last(), b.drop_last());
    }
}

/// Only equal texts are at distance zero.
pub proof fn edit_distance_zero(a: Seq<char>, b: Seq<char>)
    ensures
        edit_distance(a, b) == 0 <==> a == b,
    decreases a.len() + b.len(),
{
    if a.len() > 0 && b.len() > 0 {
        edit_distance_zero(a.drop_last(), b.drop_last());
        edit_distance_bounds(a.drop_last(), b);
        edit_distance_bounds(a, b.drop_last());
        edit_distance_bounds(a.drop_last(), b.drop_last());
        if edit_distance(a, b) == 0 {
            assert(a.last() == b.last() && a.drop_last() == b.drop_last());
            assert(a == a.drop_last().push(a.last()));
            assert(b == b.drop_last().push(b.last()));
        }
    } else if edit_distance(a, b) == 0 {
        assert(a == b);
    }
}

/// The distance between the first `i` characters of `a` and the first `j` of `b`.
spec fn cell(a: Seq<char>, b: Seq<char>, i: int, j: int) -> int {
    edit_distance(a.take(i), b.take(j))
}

proof fn cell_step(a: Seq<char>, b: Seq<char>, i: int, j: int)
    requires
        1 <= i <= a.len(),
        1 <= j <= b.len(),
    ensures
        cell(a, b, i, j) == min(
            min(cell(a, b, i - 1, j) + 1, cell(a, b, i, j - 1) + 1),
            cell(a, b, i - 1, j - 1) + if a[i - 1] == b[j - 1] {
                0int
            } else {
                1int
            },
        ),
{
    assert(a.take(i).drop_last() == a.take(i - 1));
    assert(b.take(j).drop_last() == b.take(j - 1));
}

proof fn cell_bounds(a: Seq<char>, b: Seq<char>, i: int, j: int)
    requires
        0 <= i <= a.len(),
        0 <= j <= b.len(),
    ensures
        0 <= cell(a, b, i, j),
        cell(a, b, i, j) <= i || cell(a, b, i, j) <= j,
        i == 0 ==> cell(a, b, i, j) == j,
        j == 0 ==> cell(a, b, i, j) == i,
{
    edit_distance_bounds(a.take(i), b.take(j));
}

/// Where every cell of row `i` is above `max`, so is every cell of a later row.
proof fn rows_grow(a: Seq<char>, b: Seq<char>, i: int, x: int, y: int, max: int)
    requires
        0 <= i <= x <= a.len(),
        0 <= y <= b.len(),
        forall|j: int| 0 <= j <= y ==> cell(a, b, i, j) > max,
    ensures
        cell(a, b, x, y) > max,
    decreases x + y,
{
    if x == i {
    } else if y == 0 {
        cell_bounds(a, b, x, 0);
        cell_bounds(a, b, i, 0);
        assert(cell(a, b, i, 0) > max);
    } else {
        rows_grow(a, b, i, x - 1, y, max);
        rows_grow(a, b, i, x, y - 1, max);
        rows_grow(a, b, i, x - 1, y - 1, max);
        cell_step(a, b, x, y);
    }
}

/// The edit distance of `a` and `b`, unless it is above `max`.
pub fn levenshtein_within(a: &str, b: &str, max: usize) -> (r: Option<usize>)
    ensures
        r is Some <==> edit_distance(a@, b@) <= max,
        r matches Some(d) ==> d == edit_distance(a@, b@),
{
    let x = to_chars(a);
    let y = to_chars(b);
    let n: usize = x.len();
    let m: usize = y.len();
    proof {
        edit_distance_bounds(a@, b@);
        assert(x@.take(n as int) == x@);
        assert(y@.take(m as int) == y@);
    }
    let gap: usize = if n >= m {
        n - m
    } else {
        m - n
    };
    if gap > max {
        return None;
    }
    let mut prev: Vec<usize> = Vec::new();
    prev.push(0);
    proof {
        cell_bounds(x@, y@, 0, 0);
    }
    while prev.len() <= m
        invariant
            1 <= prev@.len() <= m + 1,
            m == y@.len(),
            forall|j: int| 0 <= j < prev@.len() ==> prev@[j] == cell(x@, y@, 0, j),
        decreases m + 1 - prev@.len(),
    {
        let j: usize = prev.len();
        proof {
            cell_bounds(x@, y@, 0, j as int);
        }
        prev.push(j);
    }
    let width: usize = prev.len();
    let mut i: usize = 0;
    while i < n
        invariant
            i <= n == x@.len(),
            m == y@.len(),
            width == m + 1,
            x@ == a@,
            y@ == b@,
            x@.take(n as int) == x@,
            y@.take(m as int) == y@,
            prev@.len() == width,
            forall|j: int| 0 <= j <= m ==> prev@[j] == cell(x@, y@, i as int, j),
        decreases n - i,
    {
        let mut cur: Vec<usize> = Vec::new();
        cur.push(i + 1);
        let mut row_min: usize = i + 1;
        proof {
            cell_bounds(x@, y@, i + 1, 0);
        }
        while cur.len() <= m
            invariant
                i < n == x@.len(),
                m == y@.len(),
                width == m + 1,
                1 <= cur@.len() <= width,
                prev@.len() == width,
                forall|j: int| 0 <= j <= m ==> prev@[j] == cell(x@, y@, i as int, j),
                forall|j: int| 0 <= j < cur@.len() ==> cur@[j] == cell(x@, y@, i + 1, j),
                forall|j: int| 0 <= j < cur@.len() ==> row_min <= cur@[j],
            decreases width - cur@.len(),
        {
            let j: usize = cur.len();
            proof {
                cell_step(x@, y@, i + 1, j as int);
                cell_bounds(x@, y@, i as int, j as int);
                cell_bounds(x@, y@, i + 1, j - 1);
                cell_bounds(x@, y@, i + 1, j as int);
                cell_bounds(x@, y@, i as int, j - 1);
            }
            let deleted: usize = prev[j] + 1;
            let inserted: usize = cur[j - 1].saturating_add(1);
            let replaced: usize = if x[i] == y[j - 1] {
                prev[j - 1]
            } else {
                prev[j - 1] + 1
            };
            let mut best: usize = if deleted <= inserted {
                deleted
            } else {
                inserted
            };
            if replaced < best {
                best = replaced;
            }
            cur.push(best);
            if best < row_min {
                row_min = best;
            }
        }
        if row_min > max {
            proof {
                let row = i + 1;
                assert forall|j: int| 0 <= j <= m implies cell(x@, y@, row, j) > max by {
                    assert(cur@[j] >= row_min);
                }
                rows_grow(x@, y@, row, n as int, m as int, max as int);
            }
            return None;
        }
        prev = cur;
        i += 1;
    }
    let d: usize = prev[m];
    assert(d == cell(x@, y@, n as int, m as int));
    if d <= max {
        Some(d)
    } else {
        None
    }
}

// ------------------------------------------------------------ scoring

/// How many typing errors a query of `len` characters may hold.
pub open spec fn allowed_errors(len: int) -> int {
    if len / 5 < 1 {
        1
    } else if len / 5 > 3 {
        3
    } else {
        len / 5
    }
}

/// Whether two texts have the same first and the same last character.
pub open spec fn same_ends(a: Seq<char>, b: Seq<char>) -> bool {
    if a.len() == 0 || b.len() == 0 {
        a.len() == b.len()
    } else {
        a[0] == b[0] && a.last() == b.last()
    }
}

/// Whether every character of `name` occurs in `query`.
pub open spec fn chars_within(query: Seq<char>, name: Seq<char>) -> bool {
    forall|i: int| 0 <= i < name.len() ==> query.contains(#[trigger] name[i])
}

/// Whether `name` is `query` but for a few typing errors, made with the characters of the query
/// and not at its ends.
pub open spec fn typo_of(query: Seq<char>, name: Seq<char>) -> bool {
    &&& query.len() >= 4
    &&& same_ends(query, name)
    &&& chars_within(query, name)
    &&& edit_distance(query, name) <= allowed_errors(query.len() as int)
}

/// The least score of a name that the query occurs in. All scores below it are left to typing
/// errors.
pub const LEAST_OCCURRENCE: i64 = -9223372036854775067;

/// `n`, or `least` where that is more.
pub open spec fn at_least(n: int, least: int) -> int {
    if n < least {
        least
    } else {
        n
    }
}

/// The score of an occurrence of `query` in `name`: the less, the further behind it stands and the
/// longer the name is, in bytes.
pub open spec fn occurrence_score(query: Seq<char>, name: Seq<char>) -> int {
    1000 - 4 * utf8_len(name.take(first_occurrence(name, query))) - (utf8_len(name) - utf8_len(
        query,
    ))
}

/// The score of `name` as `query` with typing errors: the less, the more there are. An occurrence
/// can stand at any depth, so this starts from the least number there is.
pub open spec fn typo_score(query: Seq<char>, name: Seq<char>) -> int {
    i64::MIN + (800 - 60 * edit_distance(query, name) - 10 * abs_diff(
        name.len() as int,
        query.len() as int,
    ))
}

/// The score of the file name `name` for `query`, higher for a better match; `None` where it
/// does not match.
pub open spec fn score_of(query: Seq<char>, name: Seq<char>) -> Option<int> {
    if query.len() == 0 || name.len() == 0 {
        None
    } else if occurs(name, query) {
        Some(at_least(occurrence_score(query, name), LEAST_OCCURRENCE as int))
    } else if typo_of(query, name) {
        Some(typo_score(query, name))
    } else {
        None
    }
}

/// Scores the file name `name` for `query`; `None` where it does not match.
///
/// A name matches where the query occurs in it, or where it differs from the query by a few
/// typing errors, starts and ends as the query does and holds no character that the query lacks.
/// Every occurrence scores more than any typing errors. Positions and lengths count in bytes for
/// an occurrence, in characters for typing errors.
pub fn fuzzy_score(query: &str, name: &str) -> (r: Option<i64>)
    ensures
        r is Some == score_of(query@, name@) is Some,
        r matches Some(score) ==> score_of(query@, name@) == Some(score as int),
{
    let q = to_chars(query);
    let n = to_chars(name);
    if q.len() == 0 || n.len() == 0 {
        return None;
    }
    match find_chars(n.as_slice(), q.as_slice()) {
        Some(pos) => {
            let before = slice_subrange(n.as_slice(), 0, pos);
            proof {
                first_occurrence_is(n@, q@, pos as int);
                assert(before@ == n@.take(pos as int));
                let after = n@.skip(pos + q@.len());
                assert(n@ == before@ + q@ + after);
                utf8_len_concat(before@ + q@, after);
                utf8_len_concat(before@, q@);
            }
            let total: usize = n.len();
            let at: u128 = utf8_len_of(before);
            let all: u128 = utf8_len_of(n.as_slice());
            let own: u128 = utf8_len_of(q.as_slice());
            assert(before@.len() <= n@.len());
            let score: i128 = 1000 - 4 * (at as i128) - ((all - own) as i128);
            if score < LEAST_OCCURRENCE as i128 {
                Some(LEAST_OCCURRENCE)
            } else {
                Some(score as i64)
            }
        },
        None => {
            let qlen: usize = q.len();
            let nlen: usize = n.len();
            let gap: usize = if nlen >= qlen {
                nlen - qlen
            } else {
                qlen - nlen
            };
            let fifth: usize = qlen / 5;
            let allowed: usize = if fifth < 1 {
                1
            } else if fifth > 3 {
                3
            } else {
                fifth
            };
            proof {
                edit_distance_bounds(q@, n@);
            }
            if qlen >= 4 && gap <= allowed && same_ends_of(q.as_slice(), n.as_slice())
                && chars_within_of(q.as_slice(), n.as_slice()) {
                match levenshtein_within(query, name, allowed) {
                    Some(d) => Some(i64::MIN + (800 - (d as i64) * 60 - (gap as i64) * 10)),
                    None => None,
                }
            } else {
                None
            }
        },
    }
}

fn same_ends_of(a: &[char], b: &[char]) -> (r: bool)
    ensures
        r == same_ends(a@, b@),
{
    if a.len() == 0 || b.len() == 0 {
        return a.len() == b.len();
    }
    a[0] == b[0] && a[a.len() - 1] == b[b.len() - 1]
}

fn chars_within_of(query: &[char], name: &[char]) -> (r: bool)
    ensures
        r == chars_within(query@, name@),
{
    let mut i: usize = 0;
    while i < name.len()
        invariant
            i <= name@.len(),
            forall|k: int| 0 <= k < i ==> query@.contains(#[trigger] name@[k]),
        decreases name@.len() - i,
    {
        if !holds_char(query, name[i]) {
            assert(!query@.contains(name@[i as int]));
            return false;
        }
        i += 1;
    }
    true
}

/// Every name that holds the query matches.
pub proof fn containing_matches(query: Seq<char>, name: Seq<char>)
    requires
        query.len() > 0,
        occurs(name, query),
    ensures
        score_of(query, name) is Some,
{
    let k = choose|k: int| crate::text::occurs_at(name, query, k);
    assert(name.len() > 0);
}

/// A name that matches without holding the query starts and ends as the query does, and holds no
/// character that the query lacks.
pub proof fn typo_match_shape(query: Seq<char>, name: Seq<char>)
    requires
        score_of(query, name) is Some,
        !occurs(name, query),
    ensures
        query.len() >= 4,
        same_ends(query, name),
        chars_within(query, name),
        edit_distance(query, name) <= 3,
{
}

/// An occurrence scores exactly by its place and the length of the name, unless the name is longer
/// than any file name can be.
pub proof fn occurrences_score_by_place(query: Seq<char>, name: Seq<char>)
    requires
        query.len() > 0,
        occurs(name, query),
        utf8_len(name) <= 0x1000_0000_0000_0000,
    ensures
        score_of(query, name) == Some(occurrence_score(query, name)),
{
    containing_matches(query, name);
    first_occurrence_exists(name, query, choose|j: int| crate::text::occurs_at(name, query, j));
    let k = first_occurrence(name, query);
    let rest = name.skip(k);
    assert(name == name.take(k) + rest);
    utf8_len_concat(name.take(k), rest);
}

/// A match by typing errors scores 590 to 740 points above the least number there is.
pub proof fn typo_score_range(query: Seq<char>, name: Seq<char>)
    requires
        score_of(query, name) is Some,
        !occurs(name, query),
    ensures
        i64::MIN + 590 <= score_of(query, name)->0 <= i64::MIN + 740,
{
    edit_distance_bounds(query, name);
    edit_distance_zero(query, name);
    if query == name {
        assert(name.subrange(0, query.len() as int) == query);
        assert(crate::text::occurs_at(name, query, 0));
    }
}

/// A name that holds the query ranks above every name that matches by typing errors.
pub proof fn containment_ranks_first(query: Seq<char>, name: Seq<char>, other: Seq<char>)
    requires
        query.len() > 0,
        occurs(name, query),
        score_of(query, other) is Some,
        !occurs(other, query),
    ensures
        score_of(query, name) is Some,
        score_of(query, name)->0 > score_of(query, other)->0,
{
    containing_matches(query, name);
    typo_score_range(query, other);
}

} // verus!
