//! Version numbers: dotted texts such as `1.4.2`, compared by their first three numbers.

use vstd::prelude::*;
use crate::text::chars_of;

verus! {

/// The place of the first `c` in `s`, or -1 where there is none.
pub open spec fn first_index_of(s: Seq<char>, c: char) -> int
    decreases s.len(),
{
    if s.len() == 0 {
        -1
    } else if s[0] == c {
        0
    } else {
        let rest = first_index_of(s.skip(1), c);
        if rest < 0 {
            -1
        } else {
            rest + 1
        }
    }
}

/// The parts of `s` between the separators, in order. A text without a separator is its
/// own single part, the empty text too.
pub open spec fn split_on(s: Seq<char>, sep: char) -> Seq<Seq<char>>
    decreases s.len(),
{
    let k = first_index_of(s, sep);
    if 0 <= k < s.len() {
        seq![s.take(k)] + split_on(s.skip(k + 1), sep)
    } else {
        seq![s]
    }
}

/// Whether `c` is one of the digits `0` to `9`.
pub open spec fn is_digit(c: char) -> bool {
    '0' as u32 <= c as u32 <= '9' as u32
}

/// Whether `s` holds digits only.
pub open spec fn all_digits(s: Seq<char>) -> bool {
    forall|i: int| 0 <= i < s.len() ==> is_digit(#[trigger] s[i])
}

/// The number that the digits of `s` write in base ten.
pub open spec fn decimal_value(s: Seq<char>) -> nat
    decreases s.len(),
{
    if s.len() == 0 {
        0
    } else {
        (decimal_value(s.drop_last()) * 10 + (s.last() as u32 - '0' as u32)) as nat
    }
}

/// The number that `s` writes, as `str::parse::<u32>` reads it: digits in base ten, with
/// or without a `+` before them, that fit thirty-two bits. Anything else is no number.
pub open spec fn parse_u32(s: Seq<char>) -> Option<u32> {
    let digits = if s.len() > 0 && s[0] == '+' {
        s.skip(1)
    } else {
        s
    };
    parse_digits(digits)
}

/// The number that the digits of `s` write, where there is a digit, nothing but digits,
/// and the number fits thirty-two bits.
pub open spec fn parse_digits(s: Seq<char>) -> Option<u32> {
    if s.len() > 0 && all_digits(s) && decimal_value(s) <= u32::MAX {
        Some(decimal_value(s) as u32)
    } else {
        None
    }
}

/// The numbers among the given parts, in order; a part that is no number is left out.
pub open spec fn numbers_of(parts: Seq<Seq<char>>) -> Seq<u32>
    decreases parts.len(),
{
    if parts.len() == 0 {
        Seq::<u32>::empty()
    } else {
        let earlier = numbers_of(parts.drop_last());
        match parse_u32(parts.last()) {
            Some(n) => earlier.push(n),
            None => earlier,
        }
    }
}

/// The numbers of a version: those of its parts between dots that are numbers.
pub open spec fn version_numbers(v: Seq<char>) -> Seq<u32> {
    numbers_of(split_on(v, '.'))
}

/// The number at place `i` of a version, zero where the version has none there.
pub open spec fn number_at(numbers: Seq<u32>, i: int) -> u32 {
    if 0 <= i < numbers.len() {
        numbers[i]
    } else {
        0
    }
}

/// Whether `latest` is a newer version than `current`, going by the first three numbers of
/// each.
pub open spec fn is_newer(latest: Seq<char>, current: Seq<char>) -> bool {
    let l = version_numbers(latest);
    let c = version_numbers(current);
    ||| number_at(l, 0) > number_at(c, 0)
    ||| number_at(l, 0) == number_at(c, 0) && number_at(l, 1) > number_at(c, 1)
    ||| number_at(l, 0) == number_at(c, 0) && number_at(l, 1) == number_at(c, 1) && number_at(l, 2)
        > number_at(c, 2)
}

/// `s` without the run of `c` that it begins with.
pub open spec fn strip_leading(s: Seq<char>, c: char) -> Seq<char>
    decreases s.len(),
{
    if s.len() > 0 && s[0] == c {
        strip_leading(s.skip(1), c)
    } else {
        s
    }
}

/// Where `c` stands at `k` and nowhere before it, `k` is the first place of `c`.
pub proof fn lemma_first_index_of(s: Seq<char>, c: char, k: int)
    requires
        0 <= k <= s.len(),
        forall|j: int| 0 <= j < k ==> s[j] != c,
        k < s.len() ==> s[k] == c,
    ensures
        first_index_of(s, c) == (if k < s.len() {
            k
        } else {
            -1
        }),
    decreases s.len(),
{
    if s.len() > 0 && k > 0 {
        let rest = s.skip(1);
        assert forall|j: int| 0 <= j < k - 1 implies rest[j] != c by {
            assert(rest[j] == s[j + 1]);
        }
        lemma_first_index_of(rest, c, k - 1);
    }
}

/// A number does not shrink when a digit is written behind it.
proof fn lemma_decimal_value_grows(s: Seq<char>, i: int)
    requires
        0 <= i <= s.len(),
        all_digits(s),
    ensures
        decimal_value(s.take(i)) <= decimal_value(s),
    decreases s.len() - i,
{
    if i < s.len() {
        lemma_decimal_value_grows(s, i + 1);
        assert(s.take(i + 1).drop_last() == s.take(i));
        assert(is_digit(s[i]));
        assert(s.take(i + 1).last() == s[i]);
    } else {
        assert(s.take(i) == s);
    }
}

fn parse_u32_chars(v: &Vec<char>, from: usize, to: usize) -> (r: Option<u32>)
    requires
        from <= to <= v.len(),
    ensures
        r == parse_u32(v@.subrange(from as int, to as int)),
{
    let ghost s = v@.subrange(from as int, to as int);
    let start: usize = if from < to && v[from] == '+' {
        from + 1
    } else {
        from
    };
    let ghost digits = v@.subrange(start as int, to as int);
    proof {
        if from < to && v@[from as int] == '+' {
            assert(s[0] == '+');
            assert(s.skip(1) == digits);
        } else {
            if s.len() > 0 {
                assert(s[0] == v@[from as int]);
            }
            assert(s == digits);
        }
        assert(parse_u32(s) == parse_digits(digits));
    }
    if start == to {
        return None;
    }
    let mut acc: u64 = 0;
    let mut i: usize = start;
    while i < to
        invariant
            start <= i <= to <= v.len(),
            start < to,
            digits == v@.subrange(start as int, to as int),
            parse_u32(v@.subrange(from as int, to as int)) == parse_digits(digits),
            all_digits(digits.take(i - start)),
            acc == decimal_value(digits.take(i - start)),
            acc <= u32::MAX,
        decreases to - i,
    {
        let c = v[i];
        let ghost prefix = digits.take(i - start);
        let ghost longer = digits.take(i + 1 - start);
        proof {
            assert(longer.drop_last() == prefix);
            assert(longer.last() == c);
            assert(digits[i - start] == c);
        }
        if !('0' as u32 <= c as u32 && c as u32 <= '9' as u32) {
            assert(!all_digits(digits));
            return None;
        }
        let d: u64 = (c as u32 - '0' as u32) as u64;
        let next: u64 = acc * 10 + d;
        assert(next == decimal_value(longer));
        assert forall|j: int| 0 <= j < longer.len() implies is_digit(#[trigger] longer[j]) by {
            if j < prefix.len() {
                assert(longer[j] == prefix[j]);
            }
        }
        if next > u32::MAX as u64 {
            proof {
                if all_digits(digits) {
                    lemma_decimal_value_grows(digits, i + 1 - start);
                }
            }
            return None;
        }
        acc = next;
        i += 1;
    }
    assert(digits.take(to - start) == digits);
    Some(acc as u32)
}

/// The numbers of a version given by its characters.
pub fn version_numbers_chars(v: &Vec<char>) -> (r: Vec<u32>)
    ensures
        r@ == version_numbers(v@),
{
    let mut r: Vec<u32> = Vec::new();
    let mut start: usize = 0;
    let mut i: usize = 0;
    let ghost mut done: Seq<Seq<char>> = Seq::empty();
    proof {
        assert(v@.skip(0) == v@);
        assert(done + split_on(v@.skip(0), '.') == split_on(v@, '.'));
    }
    while i < v.len()
        invariant
            start <= i <= v.len(),
            forall|j: int| start <= j < i ==> v@[j] != '.',
            done + split_on(v@.skip(start as int), '.') == split_on(v@, '.'),
            r@ == numbers_of(done),
        decreases v.len() - i,
    {
        if v[i] == '.' {
            let part = parse_u32_chars(v, start, i);
            proof {
                let rest = v@.skip(start as int);
                assert forall|j: int| 0 <= j < i - start implies rest[j] != '.' by {
                    assert(rest[j] == v@[start + j]);
                }
                lemma_first_index_of(rest, '.', i - start);
                assert(rest.take(i - start) == v@.subrange(start as int, i as int));
                assert(rest.skip(i - start + 1) == v@.skip(i + 1));
                let part_text = v@.subrange(start as int, i as int);
                assert(split_on(rest, '.') == seq![part_text] + split_on(v@.skip(i + 1), '.'));
                assert(done.push(part_text) + split_on(v@.skip(i + 1), '.') == done + split_on(
                    rest,
                    '.',
                ));
                assert(done.push(part_text).drop_last() == done);
                done = done.push(part_text);
            }
            match part {
                Some(n) => {
                    r.push(n);
                },
                None => {},
            }
            start = i + 1;
        }
        i += 1;
    }
    let part = parse_u32_chars(v, start, v.len());
    proof {
        let rest = v@.skip(start as int);
        assert forall|j: int| 0 <= j < rest.len() implies rest[j] != '.' by {
            assert(rest[j] == v@[start + j]);
        }
        lemma_first_index_of(rest, '.', rest.len() as int);
        assert(rest == v@.subrange(start as int, v@.len() as int));
        assert(split_on(rest, '.') == seq![rest]);
        assert(done + seq![rest] == done.push(rest));
        assert(done.push(rest).drop_last() == done);
    }
    match part {
        Some(n) => {
            r.push(n);
        },
        None => {},
    }
    r
}

fn number_at_exec(numbers: &Vec<u32>, i: usize) -> (n: u32)
    ensures
        n == number_at(numbers@, i as int),
{
    if i < numbers.len() {
        numbers[i]
    } else {
        0
    }
}

/// Whether `latest` is a newer version than `current`.
pub fn version_is_newer(latest: &str, current: &str) -> (newer: bool)
    ensures
        newer == is_newer(latest@, current@),
{
    let latest_parts = version_numbers_chars(&chars_of(latest));
    let current_parts = version_numbers_chars(&chars_of(current));
    let mut i: usize = 0;
    while i < 3
        invariant
            i <= 3,
            latest_parts@ == version_numbers(latest@),
            current_parts@ == version_numbers(current@),
            forall|k: int|
                0 <= k < i ==> number_at(latest_parts@, k) == number_at(current_parts@, k),
        decreases 3 - i,
    {
        let l = number_at_exec(&latest_parts, i);
        let c = number_at_exec(&current_parts, i);
        if l > c {
            return true;
        }
        if l < c {
            return false;
        }
        i += 1;
    }
    false
}

/// The characters of `v` without the run of `c` that they begin with.
pub fn strip_leading_chars(v: &Vec<char>, c: char) -> (r: Vec<char>)
    ensures
        r@ == strip_leading(v@, c),
{
    let mut i: usize = 0;
    proof {
        assert(v@.skip(0) == v@);
    }
    while i < v.len() && v[i] == c
        invariant
            i <= v.len(),
            strip_leading(v@, c) == strip_leading(v@.skip(i as int), c),
        decreases v.len() - i,
    {
        proof {
            assert(v@.skip(i as int)[0] == v@[i as int]);
            assert(v@.skip(i as int).skip(1) == v@.skip(i + 1));
        }
        i += 1;
    }
    proof {
        if i < v.len() {
            assert(v@.skip(i as int)[0] == v@[i as int]);
        }
    }
    crate::text::skip_chars(v, i)
}

} // verus!
