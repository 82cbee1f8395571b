//! What an action means for one file: where the file goes, under which name, and how the
//! outcome is logged. The effect itself is the caller's; nothing here touches a file.

use vstd::prelude::*;
use vstd::string::StringExecFns;
use vstd::set_lib::{lemma_int_range, set_int_range};
use crate::event_log::LogLevel;
use crate::paths::{join_chars, join_spec};
use crate::rules::{base_name, base_name_chars, Action};
use crate::text::{
    append_chars, chars_of, decimal_chars, decimal_text, digit_char, find_last, last_index_of,
    lemma_last_index_of, same_chars, skip_chars, string_of, take_chars,
};
use crate::version::decimal_value;

verus! {

/// The mark that tells the `n`-th file of a name from the others: ` (n)`.
pub open spec fn number_mark(n: nat) -> Seq<char> {
    seq![' ', '('] + decimal_text(n) + seq![')']
}

/// The name under which the `n`-th file called `name` is stored: `name` itself for the
/// first, and for the others `name` with the mark before its extension, as in
/// `file (1).txt`.
pub open spec fn numbered_name(name: Seq<char>, n: nat) -> Seq<char> {
    if n == 0 {
        name
    } else {
        let dot = last_index_of(name, '.');
        if dot > 0 {
            name.take(dot) + number_mark(n) + name.skip(dot)
        } else {
            name + number_mark(n)
        }
    }
}

/// Whether `n` gives the first of the numbered names of `name` that is not taken.
pub open spec fn first_free(name: Seq<char>, taken: Seq<Seq<char>>, n: nat) -> bool {
    &&& !taken.contains(numbered_name(name, n))
    &&& forall|j: nat| j < n ==> taken.contains(#[trigger] numbered_name(name, j))
}

/// The texts of the given strings.
pub open spec fn texts_of(names: Seq<String>) -> Seq<Seq<char>> {
    Seq::new(names.len(), |i: int| names[i]@)
}

/// A number is the value of its decimal text.
pub proof fn lemma_decimal_round_trip(n: nat)
    ensures
        decimal_value(decimal_text(n)) == n,
        decimal_text(n).len() > 0,
    decreases n,
{
    if n < 10 {
        let s = decimal_text(n);
        assert(s.drop_last() == Seq::<char>::empty());
        assert(decimal_value(s.drop_last()) == 0);
        assert(s.last() == digit_char(n as int));
    } else {
        lemma_decimal_round_trip(n / 10);
        let s = decimal_text(n);
        assert(s.drop_last() == decimal_text(n / 10));
        assert(s.last() == digit_char((n % 10) as int));
    }
}

/// Different numbers give different names.
pub proof fn lemma_numbered_names_differ(name: Seq<char>, a: nat, b: nat)
    requires
        a != b,
    ensures
        numbered_name(name, a) != numbered_name(name, b),
{
    lemma_decimal_round_trip(a);
    lemma_decimal_round_trip(b);
    lemma_last_index_of(name, '.');
    let dot = last_index_of(name, '.');
    let x = numbered_name(name, a);
    let y = numbered_name(name, b);
    if a == 0 || b == 0 {
        assert(x.len() != y.len());
    } else if x == y {
        let da = decimal_text(a);
        let db = decimal_text(b);
        let lead: int = if dot > 0 {
            dot + 2
        } else {
            name.len() as int + 2
        };
        assert(x.len() == name.len() + 3 + da.len());
        assert(y.len() == name.len() + 3 + db.len());
        assert(da.len() == db.len());
        assert(x.subrange(lead, lead + da.len()) == da);
        assert(y.subrange(lead, lead + db.len()) == db);
        assert(da == db);
    }
}

/// As many numbered names as are taken need at least as many taken names.
proof fn lemma_pigeonhole(name: Seq<char>, taken: Seq<Seq<char>>, ks: Set<int>)
    requires
        ks.finite(),
        forall|k: int| ks.contains(k) ==> k >= 0 && taken.contains(numbered_name(name, k as nat)),
    ensures
        ks.len() <= taken.len(),
    decreases taken.len(),
{
    if ks.len() == 0 {
    } else if taken.len() == 0 {
        let k = ks.choose();
        assert(ks.contains(k));
        assert(taken.contains(numbered_name(name, k as nat)));
    } else {
        let last = taken.last();
        let shorter = taken.drop_last();
        if exists|k: int| ks.contains(k) && numbered_name(name, k as nat) == last {
            let k0 = choose|k: int| ks.contains(k) && numbered_name(name, k as nat) == last;
            let rest = ks.remove(k0);
            assert forall|k: int| rest.contains(k) implies k >= 0 && shorter.contains(
                numbered_name(name, k as nat),
            ) by {
                lemma_numbered_names_differ(name, k as nat, k0 as nat);
                let i = choose|i: int|
                    0 <= i < taken.len() && taken[i] == numbered_name(name, k as nat);
                assert(shorter[i] == taken[i]);
            }
            lemma_pigeonhole(name, shorter, rest);
        } else {
            assert forall|k: int| ks.contains(k) implies k >= 0 && shorter.contains(
                numbered_name(name, k as nat),
            ) by {
                let i = choose|i: int|
                    0 <= i < taken.len() && taken[i] == numbered_name(name, k as nat);
                assert(shorter[i] == taken[i]);
            }
            lemma_pigeonhole(name, shorter, ks);
        }
    }
}

/// Where the numbered names up to the `k`-th are all taken, more than `k` names are taken.
pub proof fn lemma_taken_names_bound(name: Seq<char>, taken: Seq<Seq<char>>, k: nat)
    requires
        forall|j: nat| j <= k ==> taken.contains(#[trigger] numbered_name(name, j)),
    ensures
        k < taken.len(),
{
    let ks = set_int_range(0, k as int + 1);
    lemma_int_range(0, k as int + 1);
    assert forall|j: int| ks.contains(j) implies j >= 0 && taken.contains(
        numbered_name(name, j as nat),
    ) by {
        assert(taken.contains(numbered_name(name, j as nat)));
    }
    lemma_pigeonhole(name, taken, ks);
}

/// Among the numbered names of `name` from the `from`-th on there is a first one that is
/// not taken, where all before it are taken.
proof fn lemma_free_name_from(name: Seq<char>, taken: Seq<Seq<char>>, from: nat) -> (n: nat)
    requires
        forall|j: nat| j < from ==> taken.contains(#[trigger] numbered_name(name, j)),
        from <= taken.len(),
    ensures
        first_free(name, taken, n),
        n <= taken.len(),
    decreases taken.len() - from,
{
    if taken.contains(numbered_name(name, from)) {
        lemma_taken_names_bound(name, taken, from);
        lemma_free_name_from(name, taken, from + 1)
    } else {
        from
    }
}

/// Among the numbered names of `name` there is a first one that is not taken, and it
/// takes no more tries than there are taken names.
pub proof fn lemma_free_name_exists(name: Seq<char>, taken: Seq<Seq<char>>) -> (n: nat)
    ensures
        first_free(name, taken, n),
        n <= taken.len(),
{
    lemma_free_name_from(name, taken, 0)
}

/// Two files of one name that go to the same place one after the other get two different
/// names there, and neither takes the name of a file that was there before: nothing is
/// overwritten.
pub proof fn lemma_collisions_resolved_apart(
    name: Seq<char>,
    taken: Seq<Seq<char>>,
    first: nat,
    second: nat,
)
    requires
        first_free(name, taken, first),
        first_free(name, taken.push(numbered_name(name, first)), second),
    ensures
        numbered_name(name, first) != numbered_name(name, second),
        !taken.contains(numbered_name(name, first)),
        !taken.contains(numbered_name(name, second)),
        first < second,
{
    let one = numbered_name(name, first);
    let more = taken.push(one);
    assert(more[taken.len() as int] == one);
    assert(more.contains(one));
    if taken.contains(numbered_name(name, second)) {
        let i = choose|i: int| 0 <= i < taken.len() && taken[i] == numbered_name(name, second);
        assert(more[i] == taken[i]);
        assert(more.contains(numbered_name(name, second)));
    }
    if second < first {
        assert(taken.contains(numbered_name(name, second)));
    }
}

/// The `n`-th numbered name of a name given by its characters.
pub fn numbered_name_chars(name: &Vec<char>, n: u64) -> (r: Vec<char>)
    ensures
        r@ == numbered_name(name@, n as nat),
{
    if n == 0 {
        return take_chars(name, name.len());
    }
    proof {
        lemma_last_index_of(name@, '.');
    }
    let mut mark: Vec<char> = Vec::new();
    mark.push(' ');
    mark.push('(');
    append_chars(&mut mark, &decimal_chars(n));
    mark.push(')');
    assert(mark@ == number_mark(n as nat));
    let cut: usize = match find_last(name, '.') {
        Some(dot) => if dot > 0 {
            dot
        } else {
            name.len()
        },
        None => name.len(),
    };
    let mut r = take_chars(name, cut);
    append_chars(&mut r, &mark);
    append_chars(&mut r, &skip_chars(name, cut));
    proof {
        if cut == name.len() {
            assert(name@.take(cut as int) == name@);
            assert(name@.skip(cut as int) == Seq::<char>::empty());
            assert(r@ == name@ + number_mark(n as nat));
        }
    }
    r
}

fn is_taken(taken: &Vec<String>, candidate: &Vec<char>) -> (r: bool)
    ensures
        r == texts_of(taken@).contains(candidate@),
{
    let mut i: usize = 0;
    while i < taken.len()
        invariant
            i <= taken.len(),
            forall|k: int| 0 <= k < i ==> texts_of(taken@)[k] != candidate@,
        decreases taken.len() - i,
    {
        let other = chars_of(taken[i].as_str());
        if same_chars(&other, candidate) {
            assert(texts_of(taken@)[i as int] == candidate@);
            return true;
        }
        i += 1;
    }
    false
}

/// The name under which a file called `name` can be stored beside the files whose names
/// are `taken`: the first of its numbered names that is free.
pub fn resolve_collision(name: &str, taken: &Vec<String>) -> (r: String)
    ensures
        exists|n: nat|
            first_free(name@, texts_of(taken@), n) && n <= taken@.len() && r@ == numbered_name(
                name@,
                n,
            ),
{
    let chars = chars_of(name);
    let limit = taken.len();
    let mut n: usize = 0;
    loop
        invariant
            chars@ == name@,
            limit == taken@.len(),
            n <= limit,
            forall|j: nat| j < n ==> texts_of(taken@).contains(#[trigger] numbered_name(name@, j)),
        decreases taken@.len() - n,
    {
        let candidate = numbered_name_chars(&chars, n as u64);
        if !is_taken(taken, &candidate) {
            assert(first_free(name@, texts_of(taken@), n as nat));
            return string_of(&candidate);
        }
        proof {
            assert forall|j: nat| j <= n implies texts_of(taken@).contains(
                #[trigger] numbered_name(name@, j),
            ) by {}
            lemma_taken_names_bound(name@, texts_of(taken@), n as nat);
        }
        n += 1;
    }
}

/// Whether `text` begins with the token, which is not empty.
pub open spec fn is_token_at(text: Seq<char>, token: Seq<char>) -> bool {
    0 < token.len() <= text.len() && text.take(token.len() as int) == token
}

/// The place in the table, from `from` on, of the first token that `text` begins with,
/// or the length of the table where it begins with none.
pub open spec fn first_token(text: Seq<char>, table: Seq<(Seq<char>, Seq<char>)>, from: int) -> int
    decreases table.len() - from,
{
    if from < 0 || from >= table.len() {
        table.len() as int
    } else if is_token_at(text, table[from].0) {
        from
    } else {
        first_token(text, table, from + 1)
    }
}

/// `text` with every token of the table replaced by the value that the table gives for
/// it. The text is read once from left to right; where several tokens begin at one place
/// the first of the table counts, and what was put in is not read again.
pub open spec fn substitute(text: Seq<char>, table: Seq<(Seq<char>, Seq<char>)>) -> Seq<char>
    decreases text.len(),
{
    if text.len() == 0 {
        Seq::<char>::empty()
    } else {
        let k = first_token(text, table, 0);
        if 0 <= k < table.len() && is_token_at(text, table[k].0) {
            table[k].1 + substitute(text.skip(table[k].0.len() as int), table)
        } else {
            seq![text[0]] + substitute(text.skip(1), table)
        }
    }
}

/// The tokens and values of a table given by characters.
pub open spec fn table_view(table: Seq<(Vec<char>, Vec<char>)>) -> Seq<(Seq<char>, Seq<char>)> {
    Seq::new(table.len(), |i: int| (table[i].0@, table[i].1@))
}

fn token_at(text: &Vec<char>, at: usize, token: &Vec<char>) -> (r: bool)
    requires
        at <= text.len(),
    ensures
        r == is_token_at(text@.skip(at as int), token@),
{
    let len = token.len();
    let whole = text.len();
    if len == 0 || len > whole - at {
        return false;
    }
    let ghost rest = text@.skip(at as int);
    let mut i: usize = 0;
    while i < len
        invariant
            i <= len,
            len == token@.len(),
            whole == text@.len(),
            at + len <= whole,
            rest == text@.skip(at as int),
            forall|k: int| 0 <= k < i ==> rest[k] == token@[k],
        decreases len - i,
    {
        if text[at + i] != token[i] {
            assert(rest.take(len as int)[i as int] != token@[i as int]);
            return false;
        }
        i += 1;
    }
    assert(rest.take(len as int) == token@);
    true
}

/// Replaces the tokens of a table in a text given by its characters.
pub fn substitute_chars(text: &Vec<char>, table: &Vec<(Vec<char>, Vec<char>)>) -> (r: Vec<char>)
    ensures
        r@ == substitute(text@, table_view(table@)),
{
    let ghost spec_table = table_view(table@);
    let mut out: Vec<char> = Vec::new();
    let mut i: usize = 0;
    proof {
        assert(text@.skip(0) == text@);
    }
    while i < text.len()
        invariant
            i <= text.len(),
            spec_table == table_view(table@),
            out@ + substitute(text@.skip(i as int), spec_table) == substitute(text@, spec_table),
        decreases text.len() - i,
    {
        let ghost rest = text@.skip(i as int);
        let mut k: usize = 0;
        let mut found: bool = false;
        while k < table.len()
            invariant_except_break
                !found,
            invariant
                k <= table.len(),
                i < text.len(),
                rest == text@.skip(i as int),
                spec_table == table_view(table@),
                first_token(rest, spec_table, 0) == first_token(rest, spec_table, k as int),
            ensures
                found ==> k < table.len() && first_token(rest, spec_table, 0) == k && is_token_at(
                    rest,
                    spec_table[k as int].0,
                ),
                !found ==> first_token(rest, spec_table, 0) == table.len(),
            decreases table.len() - k,
        {
            assert(spec_table[k as int].0 == table@[k as int].0@);
            if token_at(text, i, &table[k].0) {
                found = true;
                break ;
            }
            k += 1;
        }
        if found {
            let ghost before = out@;
            append_chars(&mut out, &table[k].1);
            let step = table[k].0.len();
            proof {
                assert(spec_table[k as int] == (table@[k as int].0@, table@[k as int].1@));
                assert(rest.skip(step as int) == text@.skip(i + step));
                assert(substitute(rest, spec_table) == spec_table[k as int].1 + substitute(
                    rest.skip(step as int),
                    spec_table,
                ));
                assert(before + (spec_table[k as int].1 + substitute(
                    rest.skip(step as int),
                    spec_table,
                )) == (before + spec_table[k as int].1) + substitute(
                    rest.skip(step as int),
                    spec_table,
                ));
            }
            i += step;
        } else {
            let ghost before = out@;
            out.push(text[i]);
            proof {
                assert(rest[0] == text@[i as int]);
                assert(rest.skip(1) == text@.skip(i + 1));
                assert(before + (seq![rest[0]] + substitute(rest.skip(1), spec_table)) == (
                before.push(rest[0])) + substitute(rest.skip(1), spec_table));
            }
            i += 1;
        }
    }
    proof {
        assert(text@.skip(text@.len() as int).len() == 0);
        assert(out@ + Seq::<char>::empty() == out@);
    }
    out
}

/// The table of the tokens that a pattern for a new name or a destination may hold:
/// `{name}` for the file's name without its extension, `{ext}` for its extension, `{date}`
/// for the date and `{n}` for the counter.
pub open spec fn pattern_table(name: Seq<char>, date: Seq<char>, counter: nat) -> Seq<
    (Seq<char>, Seq<char>),
> {
    seq![
        (seq!['{', 'n', 'a', 'm', 'e', '}'], crate::rules::stem_of(name)),
        (seq!['{', 'e', 'x', 't', '}'], crate::rules::extension_of(name)),
        (seq!['{', 'd', 'a', 't', 'e', '}'], date),
        (seq!['{', 'n', '}'], decimal_text(counter)),
    ]
}

/// The pattern with its tokens replaced by what they stand for, for a file called `name`.
pub open spec fn expand_pattern_spec(
    pattern: Seq<char>,
    name: Seq<char>,
    date: Seq<char>,
    counter: nat,
) -> Seq<char> {
    substitute(pattern, pattern_table(name, date, counter))
}

fn chars4(a: char, b: char, c: char, d: char) -> (r: Vec<char>)
    ensures
        r@ == seq![a, b, c, d],
{
    let mut r: Vec<char> = Vec::new();
    r.push(a);
    r.push(b);
    r.push(c);
    r.push(d);
    r
}

/// Fills in a pattern for a file called `name`: `{name}` gives the name without its
/// extension, `{ext}` the extension, `{date}` the given date and `{n}` the counter.
pub fn expand_pattern(pattern: &str, name: &str, date: &str, counter: u64) -> (r: String)
    ensures
        r@ == expand_pattern_spec(pattern@, name@, date@, counter as nat),
{
    let n = chars_of(name);
    proof {
        lemma_last_index_of(n@, '.');
    }
    let (stem, ext) = match find_last(&n, '.') {
        Some(dot) => if dot > 0 {
            (take_chars(&n, dot), skip_chars(&n, dot + 1))
        } else {
            (take_chars(&n, n.len()), Vec::new())
        },
        None => (take_chars(&n, n.len()), Vec::new()),
    };
    assert(n@.take(n@.len() as int) == n@);
    assert(stem@ == crate::rules::stem_of(name@));
    assert(ext@ == crate::rules::extension_of(name@));
    let mut name_token = chars4('{', 'n', 'a', 'm');
    name_token.push('e');
    name_token.push('}');
    let mut ext_token = chars4('{', 'e', 'x', 't');
    ext_token.push('}');
    let mut date_token = chars4('{', 'd', 'a', 't');
    date_token.push('e');
    date_token.push('}');
    let mut counter_token: Vec<char> = Vec::new();
    counter_token.push('{');
    counter_token.push('n');
    counter_token.push('}');
    let mut table: Vec<(Vec<char>, Vec<char>)> = Vec::new();
    table.push((name_token, stem));
    table.push((ext_token, ext));
    table.push((date_token, chars_of(date)));
    table.push((counter_token, decimal_chars(counter)));
    proof {
        let have = table_view(table@);
        let want = pattern_table(name@, date@, counter as nat);
        assert(have.len() == want.len());
        assert(have[0] == want[0]);
        assert(have[1] == want[1]);
        assert(have[2] == want[2]);
        assert(have[3] == want[3]);
        assert(have =~= want);
    }
    string_of(&substitute_chars(&chars_of(pattern), &table))
}

/// The directory that holds the file at `path`: what stands before the last `/`.
pub open spec fn parent_of(path: Seq<char>) -> Seq<char> {
    let slash = last_index_of(path, '/');
    if slash > 0 {
        path.take(slash)
    } else if slash == 0 {
        seq!['/']
    } else {
        Seq::<char>::empty()
    }
}

/// Where a file that is moved or copied into `dir` comes to lie: under its own name, or
/// under the first of its numbered names that is free there. Nothing where that place is
/// the file's own.
pub open spec fn transfer_target_spec(
    source: Seq<char>,
    dir: Seq<char>,
    taken: Seq<Seq<char>>,
    r: Option<Seq<char>>,
) -> bool {
    let name = base_name(source);
    if join_spec(dir, name) == source {
        r is None
    } else {
        exists|n: nat|
            first_free(name, taken, n) && r == Some(join_spec(dir, numbered_name(name, n)))
    }
}

/// Decides where a file that is moved or copied into the directory `dir` comes to lie,
/// given the names that are taken there. No file is overwritten: the file keeps its name
/// if that is free, and gets a number before its extension if not. Nothing is returned
/// where the file lies in that place already.
pub fn transfer_target(source: &str, dir: &str, taken: &Vec<String>) -> (r: Option<String>)
    ensures
        transfer_target_spec(
            source@,
            dir@,
            texts_of(taken@),
            match r {
                Some(t) => Some(t@),
                None => None,
            },
        ),
{
    let src = chars_of(source);
    let d = chars_of(dir);
    let name = base_name_chars(&src);
    let plain = join_chars(&d, &name);
    if same_chars(&plain, &src) {
        return None;
    }
    let free = resolve_collision(string_of(&name).as_str(), taken);
    let target = join_chars(&d, &chars_of(free.as_str()));
    Some(string_of(&target))
}

/// Where a file that gets the new name `new_name` comes to lie: in its own directory,
/// under that name or the first of its numbered names that is free there. Nothing where
/// the file has that name already.
pub open spec fn rename_target_spec(
    source: Seq<char>,
    new_name: Seq<char>,
    taken: Seq<Seq<char>>,
    r: Option<Seq<char>>,
) -> bool {
    if new_name == base_name(source) {
        r is None
    } else {
        exists|n: nat|
            first_free(new_name, taken, n) && r == Some(
                join_spec(parent_of(source), numbered_name(new_name, n)),
            )
    }
}

/// Decides where a file that is renamed to `new_name` comes to lie, given the names that
/// are taken in its directory.
pub fn rename_target(source: &str, new_name: &str, taken: &Vec<String>) -> (r: Option<String>)
    ensures
        rename_target_spec(
            source@,
            new_name@,
            texts_of(taken@),
            match r {
                Some(t) => Some(t@),
                None => None,
            },
        ),
{
    let src = chars_of(source);
    let name = base_name_chars(&src);
    if same_chars(&chars_of(new_name), &name) {
        return None;
    }
    proof {
        lemma_last_index_of(src@, '/');
    }
    let parent: Vec<char> = match find_last(&src, '/') {
        Some(slash) => if slash > 0 {
            take_chars(&src, slash)
        } else {
            let mut root: Vec<char> = Vec::new();
            root.push('/');
            root
        },
        None => Vec::new(),
    };
    let free = resolve_collision(new_name, taken);
    Some(string_of(&join_chars(&parent, &chars_of(free.as_str()))))
}

/// Whether the text can be the name of a file: it holds no separator.
pub open spec fn is_file_name(name: Seq<char>) -> bool {
    forall|i: int| 0 <= i < name.len() ==> name[i] != '/'
}

/// The name of the file at a path holds no separator.
pub proof fn lemma_base_name_is_file_name(path: Seq<char>)
    ensures
        is_file_name(base_name(path)),
{
    lemma_last_index_of(path, '/');
}

proof fn lemma_decimal_text_has_no_separator(n: nat)
    ensures
        is_file_name(decimal_text(n)),
    decreases n,
{
    if n >= 10 {
        lemma_decimal_text_has_no_separator(n / 10);
    }
}

/// The numbered names of a file name are file names.
pub proof fn lemma_numbered_name_is_file_name(name: Seq<char>, n: nat)
    requires
        is_file_name(name),
    ensures
        is_file_name(numbered_name(name, n)),
{
    lemma_decimal_text_has_no_separator(n);
    lemma_last_index_of(name, '.');
}

/// Two different file names lie at two different places of a directory.
pub proof fn lemma_join_keeps_names_apart(dir: Seq<char>, a: Seq<char>, b: Seq<char>)
    requires
        is_file_name(a),
        is_file_name(b),
        a != b,
    ensures
        join_spec(dir, a) != join_spec(dir, b),
{
    let x = join_spec(dir, a);
    let y = join_spec(dir, b);
    if x == y {
        let lead = x.len() - a.len();
        assert(x.skip(lead) == a);
        assert(y.skip(y.len() - b.len()) == b);
        assert(a.len() == b.len());
    }
}

/// Two files of one name that are moved or copied into the same directory one after the
/// other come to lie at two different places there, and neither at the place of a file
/// that was there before: nothing is overwritten.
pub proof fn lemma_transfers_end_up_apart(
    first_source: Seq<char>,
    second_source: Seq<char>,
    dir: Seq<char>,
    taken: Seq<Seq<char>>,
    first: nat,
    second: nat,
)
    requires
        base_name(first_source) == base_name(second_source),
        forall|i: int| 0 <= i < taken.len() ==> is_file_name(#[trigger] taken[i]),
        first_free(base_name(first_source), taken, first),
        first_free(
            base_name(second_source),
            taken.push(numbered_name(base_name(first_source), first)),
            second,
        ),
    ensures
        join_spec(dir, numbered_name(base_name(first_source), first)) != join_spec(
            dir,
            numbered_name(base_name(second_source), second),
        ),
        forall|i: int|
            0 <= i < taken.len() ==> join_spec(dir, #[trigger] taken[i]) != join_spec(
                dir,
                numbered_name(base_name(first_source), first),
            ) && join_spec(dir, taken[i]) != join_spec(
                dir,
                numbered_name(base_name(second_source), second),
            ),
{
    let name = base_name(first_source);
    let one = numbered_name(name, first);
    let two = numbered_name(name, second);
    lemma_base_name_is_file_name(first_source);
    lemma_numbered_name_is_file_name(name, first);
    lemma_numbered_name_is_file_name(name, second);
    lemma_collisions_resolved_apart(name, taken, first, second);
    lemma_join_keeps_names_apart(dir, one, two);
    assert forall|i: int| 0 <= i < taken.len() implies join_spec(dir, #[trigger] taken[i])
        != join_spec(dir, one) && join_spec(dir, taken[i]) != join_spec(dir, two) by {
        assert(taken.contains(taken[i]));
        lemma_join_keeps_names_apart(dir, taken[i], one);
        lemma_join_keeps_names_apart(dir, taken[i], two);
    }
}

/// Why an action failed.
#[derive(Debug, Clone)]
pub enum Failure {
    /// The destination directory does not exist and is not to be created.
    DestinationMissing,
    /// The command did not end in time and was stopped.
    TimedOut,
    /// The command ended with a status other than success.
    ExitStatus(i32),
    /// The file system refused, with the message given.
    Io(String),
}

/// How the execution of an action ended.
#[derive(Debug, Clone)]
pub enum Outcome {
    /// The action was carried out; where it made a file, or took one elsewhere, the place
    /// of that file.
    Done(Option<String>),
    /// Nothing was done, for the reason given.
    Skipped(String),
    /// The action failed.
    Failed(Failure),
}

/// Whether the action, once carried out, leaves no file at the place of the source: a
/// move, a new name, the trash and a removal do, the others leave the file where it is.
pub open spec fn removes_source_spec(action: &Action) -> bool {
    action is Move || action is Rename || action is Trash || action is Delete
}

/// Whether the action, once carried out, leaves no file at the place of the source.
pub fn removes_source(action: &Action) -> (r: bool)
    ensures
        r == removes_source_spec(action),
{
    match action {
        Action::Move { .. } => true,
        Action::Rename { .. } => true,
        Action::Trash => true,
        Action::Delete => true,
        _ => false,
    }
}

/// With which level the outcome of an action is logged: a failure as an error, a skipped
/// action as a warning, an action that was carried out as a success, and the firing of a
/// rule that does nothing as information.
pub open spec fn level_of_spec(action: &Action, outcome: &Outcome) -> LogLevel {
    match outcome {
        Outcome::Failed(_) => LogLevel::Error,
        Outcome::Skipped(_) => LogLevel::Warning,
        Outcome::Done(_) => if action is Nothing {
            LogLevel::Info
        } else {
            LogLevel::Success
        },
    }
}

/// The level with which the outcome of an action is logged.
pub fn level_of(action: &Action, outcome: &Outcome) -> (level: LogLevel)
    ensures
        level == level_of_spec(action, outcome),
{
    match outcome {
        Outcome::Failed(_) => LogLevel::Error,
        Outcome::Skipped(_) => LogLevel::Warning,
        Outcome::Done(_) => match action {
            Action::Nothing => LogLevel::Info,
            _ => LogLevel::Success,
        },
    }
}

/// How a command that has ended is judged by its exit status: a status of zero is a
/// success, any other a failure, and so is the end by a signal, which leaves no status and
/// is reported as -1.
pub fn outcome_of_exit(status: Option<i32>) -> (r: Outcome)
    ensures
        r == (match status {
            Some(code) => if code == 0 {
                Outcome::Done(None)
            } else {
                Outcome::Failed(Failure::ExitStatus(code))
            },
            None => Outcome::Failed(Failure::ExitStatus(-1i32)),
        }),
{
    match status {
        Some(code) => {
            if code == 0 {
                Outcome::Done(None)
            } else {
                Outcome::Failed(Failure::ExitStatus(code))
            }
        },
        None => Outcome::Failed(Failure::ExitStatus(-1)),
    }
}

/// The name of the archive that a file called `name` is packed into.
pub fn archive_name(name: &str) -> (r: String)
    ensures
        r@ == name@ + ".tar.gz"@,
{
    let mut r = String::from_str(name);
    r.append(".tar.gz");
    r
}

/// A pattern filled in for the file at `source` at the moment `now`, in seconds since the
/// epoch: `{name}` and `{ext}` are taken from the file's name, `{date}` is the day in which
/// the moment lies in universal time, and `{n}` is zero.
pub fn fill_pattern(pattern: &str, source: &str, now: u64) -> (r: String)
    ensures
        exists|date: crate::date::Date|
            date.is_valid() && date.day_number() == now / 86400 && r@ == expand_pattern_spec(
                pattern@,
                base_name(source@),
                date.iso_text(),
                0,
            ),
{
    let name = crate::rules::file_name(source);
    let date = crate::date::date_of_timestamp(now);
    let text = crate::date::iso_date(&date);
    let r = expand_pattern(pattern, name.as_str(), text.as_str(), 0);
    assert(r@ == expand_pattern_spec(pattern@, base_name(source@), date.iso_text(), 0));
    r
}

/// Whether the destination directory can be used, and whether it has to be created
/// first.
pub fn check_destination(exists: bool, create_dirs: bool) -> (r: Result<bool, Failure>)
    ensures
        exists ==> r == Ok::<bool, Failure>(false),
        !exists && create_dirs ==> r == Ok::<bool, Failure>(true),
        !exists && !create_dirs ==> r == Err::<bool, Failure>(Failure::DestinationMissing),
{
    if exists {
        Ok(false)
    } else if create_dirs {
        Ok(true)
    } else {
        Err(Failure::DestinationMissing)
    }
}

/// The table of the tokens that the arguments of a command may hold: `{path}` for the
/// path of the file and `{name}` for its name.
pub open spec fn run_table(path: Seq<char>) -> Seq<(Seq<char>, Seq<char>)> {
    seq![
        (seq!['{', 'p', 'a', 't', 'h', '}'], path),
        (seq!['{', 'n', 'a', 'm', 'e', '}'], base_name(path)),
    ]
}

/// The arguments of a command for the file at `path`: each argument with `{path}` replaced
/// by the path and `{name}` by the file's name.
pub fn run_arguments(args: &Vec<String>, path: &str) -> (r: Vec<String>)
    ensures
        r@.len() == args@.len(),
        forall|i: int| 0 <= i < args@.len() ==> (#[trigger] r@[i])@ == substitute(
            args@[i]@,
            run_table(path@),
        ),
{
    let p = chars_of(path);
    let mut path_token = chars4('{', 'p', 'a', 't');
    path_token.push('h');
    path_token.push('}');
    let mut name_token = chars4('{', 'n', 'a', 'm');
    name_token.push('e');
    name_token.push('}');
    let mut table: Vec<(Vec<char>, Vec<char>)> = Vec::new();
    table.push((path_token, take_chars(&p, p.len())));
    table.push((name_token, base_name_chars(&p)));
    proof {
        assert(p@.take(p@.len() as int) == p@);
        let have = table_view(table@);
        let want = run_table(path@);
        assert(have[0] == want[0]);
        assert(have[1] == want[1]);
        assert(have =~= want);
    }
    let mut r: Vec<String> = Vec::new();
    let mut i: usize = 0;
    while i < args.len()
        invariant
            i <= args.len(),
            r@.len() == i,
            table_view(table@) == run_table(path@),
            forall|k: int| 0 <= k < i ==> (#[trigger] r@[k])@ == substitute(
                args@[k]@,
                run_table(path@),
            ),
        decreases args.len() - i,
    {
        let filled = substitute_chars(&chars_of(args[i].as_str()), &table);
        r.push(string_of(&filled));
        i += 1;
    }
    r
}

/// A status written in base ten, with `-` before it where it is negative.
pub open spec fn signed_text(n: i32) -> Seq<char> {
    if n < 0 {
        seq!['-'] + decimal_text((-(n as int)) as nat)
    } else {
        decimal_text(n as nat)
    }
}

/// The words that say why an action failed.
pub open spec fn failure_text(failure: &Failure) -> Seq<char> {
    match failure {
        Failure::DestinationMissing => "destination directory does not exist"@,
        Failure::TimedOut => "command timed out"@,
        Failure::ExitStatus(code) => "command exited with status "@ + signed_text(*code),
        Failure::Io(message) => message@,
    }
}

/// The line that the log gets for the outcome of the action of the rule `rule` on the
/// file at `source`.
pub open spec fn message_of(rule: Seq<char>, source: Seq<char>, outcome: &Outcome) -> Seq<char> {
    let head = rule + ": "@ + source;
    match outcome {
        Outcome::Done(Some(target)) => head + " -> "@ + target@,
        Outcome::Done(None) => head,
        Outcome::Skipped(reason) => head + " skipped: "@ + reason@,
        Outcome::Failed(failure) => head + " failed: "@ + failure_text(failure),
    }
}

fn describe_failure(failure: &Failure) -> (r: String)
    ensures
        r@ == failure_text(failure),
{
    match failure {
        Failure::DestinationMissing => String::from_str("destination directory does not exist"),
        Failure::TimedOut => String::from_str("command timed out"),
        Failure::ExitStatus(code) => {
            let mut r = String::from_str("command exited with status ");
            let mut digits: Vec<char> = Vec::new();
            if *code < 0 {
                digits.push('-');
                let distance: u64 = (-(*code as i64)) as u64;
                append_chars(&mut digits, &decimal_chars(distance));
            } else {
                append_chars(&mut digits, &decimal_chars(*code as u64));
                assert(Seq::<char>::empty() + decimal_text(*code as nat) == decimal_text(
                    *code as nat,
                ));
            }
            r.append(string_of(&digits).as_str());
            r
        },
        Failure::Io(message) => message.clone(),
    }
}

/// Writes the line that the log gets for the outcome of an action.
pub fn describe(rule: &str, source: &str, outcome: &Outcome) -> (r: String)
    ensures
        r@ == message_of(rule@, source@, outcome),
{
    let mut r = String::from_str(rule);
    r.append(": ");
    r.append(source);
    match outcome {
        Outcome::Done(Some(target)) => {
            r.append(" -> ");
            r.append(target.as_str());
        },
        Outcome::Done(None) => {},
        Outcome::Skipped(reason) => {
            r.append(" skipped: ");
            r.append(reason.as_str());
        },
        Outcome::Failed(failure) => {
            r.append(" failed: ");
            r.append(describe_failure(failure).as_str());
        },
    }
    r
}

} // verus!
