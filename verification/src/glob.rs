//! Shell-style wildcard patterns.
//!
//! In a pattern `*` stands for any run of characters, the empty one too, `?` for any one
//! character, and `[...]` for one character out of a class. A class lists single
//! characters and ranges such as `a-z`; it is negated by a leading `!` or `^`, and a `]`
//! that comes first in it is a member. A `[` that no `]` closes stands for itself, as does
//! every other character.

use vstd::prelude::*;
use crate::text::chars_of;

verus! {

/// Where the members of the class that opens at `i` begin: behind the `[` and the sign
/// of negation, if there is one.
pub open spec fn class_start(p: Seq<char>, i: int) -> int {
    if i + 1 < p.len() && (p[i + 1] == '!' || p[i + 1] == '^') {
        i + 2
    } else {
        i + 1
    }
}

/// The first `]` at or after `k`.
pub open spec fn find_close(p: Seq<char>, k: int) -> Option<int>
    decreases p.len() - k,
{
    if k < 0 || k >= p.len() {
        None
    } else if p[k] == ']' {
        Some(k)
    } else {
        find_close(p, k + 1)
    }
}

/// The `]` that closes the class opening at `i`. The first member is never taken for it.
pub open spec fn class_close(p: Seq<char>, i: int) -> Option<int> {
    find_close(p, class_start(p, i) + 1)
}

/// Whether `c` is among the members written in `p` from `k` up to `e`.
pub open spec fn in_members(p: Seq<char>, k: int, e: int, c: char) -> bool
    decreases e - k,
{
    if k < 0 || k >= e || e > p.len() {
        false
    } else if k + 2 < e && p[k + 1] == '-' {
        (p[k] as u32 <= c as u32 && c as u32 <= p[k + 2] as u32) || in_members(p, k + 3, e, c)
    } else {
        p[k] == c || in_members(p, k + 1, e, c)
    }
}

/// Whether the class that opens at `i` and closes at `e` accepts `c`.
pub open spec fn class_accepts(p: Seq<char>, i: int, e: int, c: char) -> bool {
    let s = class_start(p, i);
    in_members(p, s, e, c) != (s == i + 2)
}

/// Whether the pattern from `i` on matches the name from `j` on.
pub open spec fn matches_at(p: Seq<char>, i: int, n: Seq<char>, j: int) -> bool
    decreases p.len() - i, n.len() - j,
{
    if i < 0 || j < 0 {
        false
    } else if i >= p.len() {
        j >= n.len()
    } else if p[i] == '*' {
        matches_at(p, i + 1, n, j) || (j < n.len() && matches_at(p, i, n, j + 1))
    } else if j >= n.len() {
        false
    } else if p[i] == '?' {
        matches_at(p, i + 1, n, j + 1)
    } else if p[i] == '[' && class_close(p, i) is Some && i < class_close(p, i)->0 < p.len() {
        let e = class_close(p, i)->0;
        class_accepts(p, i, e, n[j]) && matches_at(p, e + 1, n, j + 1)
    } else {
        p[i] == n[j] && matches_at(p, i + 1, n, j + 1)
    }
}

/// Whether the whole pattern matches the whole name.
pub open spec fn glob_matches_spec(pattern: Seq<char>, name: Seq<char>) -> bool {
    matches_at(pattern, 0, name, 0)
}

/// Whether the character has a meaning of its own in a pattern.
pub open spec fn is_special(c: char) -> bool {
    c == '*' || c == '?' || c == '['
}

/// Whether the pattern holds no character with a meaning of its own.
pub open spec fn is_literal(p: Seq<char>) -> bool {
    forall|i: int| 0 <= i < p.len() ==> !is_special(#[trigger] p[i])
}

/// A single `*` matches every name from every place on.
pub proof fn lemma_star_matches_all(name: Seq<char>, j: int)
    requires
        0 <= j <= name.len(),
    ensures
        matches_at(seq!['*'], 0, name, j),
    decreases name.len() - j,
{
    let p = seq!['*'];
    if j < name.len() {
        lemma_star_matches_all(name, j + 1);
    } else {
        assert(matches_at(p, 1, name, j));
    }
}

/// A pattern without special characters matches the name that it spells, and no other.
pub proof fn lemma_literal_matches_itself(p: Seq<char>, name: Seq<char>, i: int, j: int)
    requires
        is_literal(p),
        0 <= i <= p.len(),
        0 <= j <= name.len(),
    ensures
        matches_at(p, i, name, j) <==> p.skip(i) == name.skip(j),
    decreases p.len() - i,
{
    if i >= p.len() {
        if j >= name.len() {
            assert(p.skip(i) == name.skip(j));
        } else {
            assert(name.skip(j).len() != p.skip(i).len());
        }
    } else {
        assert(!is_special(p[i]));
        if j >= name.len() {
            assert(name.skip(j).len() != p.skip(i).len());
        } else {
            lemma_literal_matches_itself(p, name, i + 1, j + 1);
            assert(p.skip(i)[0] == p[i]);
            assert(name.skip(j)[0] == name[j]);
            assert(p.skip(i).skip(1) == p.skip(i + 1));
            assert(name.skip(j).skip(1) == name.skip(j + 1));
            if p.skip(i + 1) == name.skip(j + 1) && p[i] == name[j] {
                assert(p.skip(i) == seq![p[i]] + p.skip(i + 1));
                assert(name.skip(j) == seq![name[j]] + name.skip(j + 1));
            }
        }
    }
}

/// The closing bracket of a class, where there is one, lies behind its first member.
pub proof fn lemma_find_close_bounds(p: Seq<char>, k: int)
    ensures
        find_close(p, k) matches Some(e) ==> k <= e < p.len() && p[e] == ']',
    decreases p.len() - k,
{
    if 0 <= k < p.len() && p[k] != ']' {
        lemma_find_close_bounds(p, k + 1);
    }
}

fn find_close_exec(p: &Vec<char>, k: usize) -> (r: Option<usize>)
    ensures
        match r {
            Some(e) => find_close(p@, k as int) == Some(e as int),
            None => find_close(p@, k as int) is None,
        },
{
    let mut m: usize = k;
    while m < p.len()
        invariant
            k <= m,
            find_close(p@, k as int) == find_close(p@, m as int),
        decreases p.len() - m,
    {
        if p[m] == ']' {
            return Some(m);
        }
        m += 1;
    }
    None
}

fn class_start_exec(p: &Vec<char>, i: usize) -> (s: usize)
    requires
        i < p.len(),
    ensures
        s == class_start(p@, i as int),
        s <= p.len(),
{
    if i + 1 < p.len() && (p[i + 1] == '!' || p[i + 1] == '^') {
        i + 2
    } else {
        i + 1
    }
}

fn class_close_exec(p: &Vec<char>, i: usize) -> (r: Option<usize>)
    requires
        i < p.len(),
    ensures
        match r {
            Some(e) => class_close(p@, i as int) == Some(e as int) && i < e < p.len(),
            None => class_close(p@, i as int) is None,
        },
{
    let s = class_start_exec(p, i);
    if s >= p.len() {
        return None;
    }
    proof {
        lemma_find_close_bounds(p@, s + 1);
    }
    find_close_exec(p, s + 1)
}

fn in_members_exec(p: &Vec<char>, s: usize, e: usize, c: char) -> (r: bool)
    requires
        s <= e <= p.len(),
    ensures
        r == in_members(p@, s as int, e as int, c),
{
    let mut k: usize = s;
    while k < e
        invariant
            s <= k <= e <= p.len(),
            in_members(p@, s as int, e as int, c) == in_members(p@, k as int, e as int, c),
        decreases e - k,
    {
        if e - k > 2 && p[k + 1] == '-' {
            if p[k] as u32 <= c as u32 && c as u32 <= p[k + 2] as u32 {
                return true;
            }
            k += 3;
        } else {
            if p[k] == c {
                return true;
            }
            k += 1;
        }
    }
    false
}

fn class_accepts_exec(p: &Vec<char>, i: usize, e: usize, c: char) -> (r: bool)
    requires
        i < e < p.len(),
        class_close(p@, i as int) == Some(e as int),
    ensures
        r == class_accepts(p@, i as int, e as int, c),
{
    let s = class_start_exec(p, i);
    proof {
        lemma_find_close_bounds(p@, s + 1);
    }
    in_members_exec(p, s, e, c) != (s == i + 2)
}

/// The rows of the table hold the answers for every place of the pattern from `lo` on:
/// row `k` is for place `p.len() - 1 - k`, `ends` for the end of the name.
spec fn table_ok(rows: Seq<Vec<bool>>, ends: Seq<bool>, p: Seq<char>, n: Seq<char>, lo: int) -> bool {
    &&& 0 <= lo <= p.len()
    &&& rows.len() == p.len() - lo
    &&& ends.len() == p.len() - lo
    &&& forall|k: int|
        0 <= k < rows.len() ==> {
            &&& (#[trigger] rows[k])@.len() == n.len()
            &&& ends[k] == matches_at(p, p.len() - 1 - k, n, n.len() as int)
        }
    &&& forall|k: int, j: int|
        0 <= k < rows.len() && 0 <= j < n.len() ==> #[trigger] rows[k]@[j] == matches_at(
            p,
            p.len() - 1 - k,
            n,
            j,
        )
}

fn lookup(
    rows: &Vec<Vec<bool>>,
    ends: &Vec<bool>,
    p: &Vec<char>,
    n: &Vec<char>,
    Ghost(lo): Ghost<int>,
    i: usize,
    j: usize,
) -> (b: bool)
    requires
        table_ok(rows@, ends@, p@, n@, lo),
        lo <= i <= p.len(),
        j <= n.len(),
    ensures
        b == matches_at(p@, i as int, n@, j as int),
{
    if i == p.len() {
        j == n.len()
    } else {
        let k = p.len() - 1 - i;
        assert(rows@[k as int]@.len() == n@.len());
        if j == n.len() {
            ends[k]
        } else {
            assert(rows@[k as int]@[j as int] == matches_at(p@, i as int, n@, j as int));
            rows[k][j]
        }
    }
}

fn falses(len: usize) -> (v: Vec<bool>)
    ensures
        v@.len() == len,
{
    let mut v: Vec<bool> = Vec::new();
    while v.len() < len
        invariant
            v@.len() <= len,
        decreases len - v@.len(),
    {
        v.push(false);
    }
    v
}

/// Whether `pattern` matches `name`, each given by its characters.
pub fn matches_chars(p: &Vec<char>, n: &Vec<char>) -> (b: bool)
    ensures
        b == glob_matches_spec(p@, n@),
{
    let plen = p.len();
    let nlen = n.len();
    let mut rows: Vec<Vec<bool>> = Vec::new();
    let mut ends: Vec<bool> = Vec::new();
    while rows.len() < plen
        invariant
            plen == p@.len(),
            nlen == n@.len(),
            rows@.len() <= plen,
            table_ok(rows@, ends@, p@, n@, plen - rows@.len()),
        decreases plen - rows@.len(),
    {
        let i: usize = plen - 1 - rows.len();
        let ghost lo: int = i + 1;
        let star = p[i] == '*';
        let close = if p[i] == '[' {
            class_close_exec(p, i)
        } else {
            None
        };
        let end_val = star && lookup(&rows, &ends, p, n, Ghost(lo), i + 1, nlen);
        let mut row = falses(nlen);
        let mut j: usize = nlen;
        while j > 0
            invariant
                plen == p@.len(),
                nlen == n@.len(),
                i < plen,
                lo == i + 1,
                j <= nlen,
                row@.len() == nlen,
                table_ok(rows@, ends@, p@, n@, lo),
                star == (p@[i as int] == '*'),
                end_val == matches_at(p@, i as int, n@, nlen as int),
                match close {
                    Some(e) => p@[i as int] == '[' && class_close(p@, i as int) == Some(e as int)
                        && i < e < plen,
                    None => !(p@[i as int] == '[' && class_close(p@, i as int) is Some),
                },
                forall|jj: int| j <= jj < nlen ==> row@[jj] == matches_at(p@, i as int, n@, jj),
            decreases j,
        {
            j -= 1;
            let c = p[i];
            let v = if star {
                let later = if j + 1 == nlen {
                    end_val
                } else {
                    row[j + 1]
                };
                lookup(&rows, &ends, p, n, Ghost(lo), i + 1, j) || later
            } else if c == '?' {
                lookup(&rows, &ends, p, n, Ghost(lo), i + 1, j + 1)
            } else {
                match close {
                    Some(e) => class_accepts_exec(p, i, e, n[j]) && lookup(
                        &rows,
                        &ends,
                        p,
                        n,
                        Ghost(lo),
                        e + 1,
                        j + 1,
                    ),
                    None => c == n[j] && lookup(&rows, &ends, p, n, Ghost(lo), i + 1, j + 1),
                }
            };
            row.set(j, v);
        }
        proof {
            let new_rows = rows@.push(row);
            let new_ends = ends@.push(end_val);
            assert forall|k: int| 0 <= k < new_rows.len() implies {
                &&& (#[trigger] new_rows[k])@.len() == n@.len()
                &&& new_ends[k] == matches_at(p@, p@.len() - 1 - k, n@, n@.len() as int)
            } by {
                if k < rows@.len() {
                    assert(new_rows[k] == rows@[k]);
                }
            }
            assert forall|k: int, jj: int|
                0 <= k < new_rows.len() && 0 <= jj < n@.len() implies #[trigger] new_rows[k]@[jj]
                == matches_at(p@, p@.len() - 1 - k, n@, jj) by {
                if k < rows@.len() {
                    assert(new_rows[k] == rows@[k]);
                }
            }
        }
        rows.push(row);
        ends.push(end_val);
    }
    lookup(&rows, &ends, p, n, Ghost(0), 0, 0)
}

/// Whether the wildcard pattern matches the name.
pub fn glob_matches(pattern: &str, name: &str) -> (b: bool)
    ensures
        b == glob_matches_spec(pattern@, name@),
{
    let p = chars_of(pattern);
    let n = chars_of(name);
    matches_chars(&p, &n)
}

} // verus!
