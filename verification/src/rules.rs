//! Rules: the conditions a file is held against, and the action of the first rule that
//! matches.

use vstd::prelude::*;
use crate::glob::{glob_matches_spec, matches_chars};
use crate::text::{chars_of, find_last, last_index_of, lemma_last_index_of, skip_chars, string_of};

verus! {

/// Seconds in a day.
pub const SECONDS_PER_DAY: u64 = 86400;

/// What is known of a file when the rules are evaluated.
#[derive(Debug, Clone)]
pub struct FileMeta {
    /// The absolute path of the file.
    pub path: String,
    /// Its size in bytes.
    pub size: u64,
    /// When it was last modified, in seconds since the epoch.
    pub modified: u64,
    pub is_directory: bool,
    pub is_hidden: bool,
}

/// The conditions of a rule. Each one that is set must hold; one that is not set always
/// holds.
#[derive(Debug, Clone)]
pub struct Condition {
    /// The file's extension, compared without regard to case.
    pub extension: Option<String>,
    /// A wildcard pattern for the file's name.
    pub name_glob: Option<String>,
    /// A regular expression to be found in the file's name.
    pub name_regex: Option<String>,
    /// The file is larger than this many bytes.
    pub size_greater: Option<u64>,
    /// The file is smaller than this many bytes.
    pub size_less: Option<u64>,
    /// The file was modified more than this many days ago.
    pub age_greater: Option<u64>,
    /// The file was modified fewer than this many days ago.
    pub age_less: Option<u64>,
    pub is_directory: Option<bool>,
    pub is_hidden: Option<bool>,
}

/// What is done to a file that a rule matches.
#[derive(Debug, Clone)]
pub enum Action {
    Move { destination: String, create_dirs: bool },
    Copy { destination: String, create_dirs: bool },
    Rename { pattern: String },
    Trash,
    Delete,
    Run { command: String, args: Vec<String> },
    Archive { destination: String },
    Nothing,
}

/// A named pair of conditions and an action, which can be switched off.
#[derive(Debug, Clone)]
pub struct Rule {
    pub name: String,
    pub enabled: bool,
    pub conditions: Condition,
    pub action: Action,
}

/// The name of the file at `path`: what follows the last `/`.
pub open spec fn base_name(path: Seq<char>) -> Seq<char> {
    path.skip(last_index_of(path, '/') + 1)
}

/// The extension of a file name: what follows its last `.`, unless the name begins with
/// that `.` or has none.
pub open spec fn extension_of(name: Seq<char>) -> Seq<char> {
    let dot = last_index_of(name, '.');
    if dot > 0 {
        name.skip(dot + 1)
    } else {
        Seq::<char>::empty()
    }
}

/// The name of the file without its extension and the `.` before it.
pub open spec fn stem_of(name: Seq<char>) -> Seq<char> {
    let dot = last_index_of(name, '.');
    if dot > 0 {
        name.take(dot)
    } else {
        name
    }
}

/// An extension as a condition names it, without the `.` that may lead it.
pub open spec fn without_leading_dot(ext: Seq<char>) -> Seq<char> {
    if ext.len() > 0 && ext[0] == '.' {
        ext.skip(1)
    } else {
        ext
    }
}

/// Whether two characters are the same letter of the ASCII alphabet in either case, or the
/// same character.
pub open spec fn same_letter(a: char, b: char) -> bool {
    ||| a == b
    ||| ('A' as u32 <= a as u32 <= 'Z' as u32 && a as u32 + 32 == b as u32)
    ||| ('A' as u32 <= b as u32 <= 'Z' as u32 && b as u32 + 32 == a as u32)
}

/// Whether two texts are equal without regard to the case of ASCII letters.
pub open spec fn equal_ignoring_case(a: Seq<char>, b: Seq<char>) -> bool {
    a.len() == b.len() && forall|i: int| 0 <= i < a.len() ==> same_letter(a[i], b[i])
}

/// Whether a file of the given name has the extension that a condition names.
pub open spec fn extension_matches(wanted: Seq<char>, name: Seq<char>) -> bool {
    equal_ignoring_case(without_leading_dot(wanted), extension_of(name))
}

/// The whole days between the modification of a file and `now`; none where the file
/// claims to come from the future.
pub open spec fn age_days(modified: u64, now: u64) -> int {
    if now >= modified {
        (now - modified) / 86400
    } else {
        0
    }
}

/// Whether the text is a regular expression that `regex::Regex::new` accepts.
pub uninterp spec fn regex_compiles(pattern: Seq<char>) -> bool;

/// Whether the regular expression, once compiled, finds a match anywhere in the text.
pub uninterp spec fn regex_is_match(pattern: Seq<char>, text: Seq<char>) -> bool;

/// What a search with the regular expression gives: nothing where the expression does not
/// compile.
pub open spec fn regex_verdict(pattern: Seq<char>, text: Seq<char>) -> Option<bool> {
    if regex_compiles(pattern) {
        Some(regex_is_match(pattern, text))
    } else {
        None
    }
}

/// Compiles `pattern` with `regex::Regex::new` and searches `text` with
/// `regex::Regex::is_match`. The result is `None` where the pattern is refused, and
/// otherwise says whether a match was found; both depend on the two texts alone.
#[verifier::external_body]
fn regex_search(pattern: &str, text: &str) -> (r: Option<bool>)
    ensures
        r == (if regex_compiles(pattern@) {
            Some(regex_is_match(pattern@, text@))
        } else {
            None
        }),
{
    match regex::Regex::new(pattern) {
        Ok(re) => Some(re.is_match(text)),
        Err(_) => None,
    }
}

/// The base name of a path given by its characters.
pub fn base_name_chars(path: &Vec<char>) -> (r: Vec<char>)
    ensures
        r@ == base_name(path@),
{
    proof {
        lemma_last_index_of(path@, '/');
    }
    match find_last(path, '/') {
        Some(i) => skip_chars(path, i + 1),
        None => skip_chars(path, 0),
    }
}

/// The name of the file at `path`.
pub fn file_name(path: &str) -> (r: String)
    ensures
        r@ == base_name(path@),
{
    let chars = chars_of(path);
    let name = base_name_chars(&chars);
    string_of(&name)
}

fn extension_chars(name: &Vec<char>) -> (r: Vec<char>)
    ensures
        r@ == extension_of(name@),
{
    proof {
        lemma_last_index_of(name@, '.');
    }
    match find_last(name, '.') {
        Some(i) => {
            if i > 0 {
                skip_chars(name, i + 1)
            } else {
                Vec::new()
            }
        },
        None => Vec::new(),
    }
}

fn same_letter_exec(a: char, b: char) -> (r: bool)
    ensures
        r == same_letter(a, b),
{
    let x = a as u32;
    let y = b as u32;
    a == b || ('A' as u32 <= x && x <= 'Z' as u32 && x + 32 == y) || ('A' as u32 <= y && y
        <= 'Z' as u32 && y + 32 == x)
}

fn equal_ignoring_case_exec(a: &Vec<char>, b: &Vec<char>) -> (r: bool)
    ensures
        r == equal_ignoring_case(a@, b@),
{
    if a.len() != b.len() {
        return false;
    }
    let mut i: usize = 0;
    while i < a.len()
        invariant
            i <= a.len(),
            a.len() == b.len(),
            forall|k: int| 0 <= k < i ==> same_letter(a@[k], b@[k]),
        decreases a.len() - i,
    {
        if !same_letter_exec(a[i], b[i]) {
            return false;
        }
        i += 1;
    }
    true
}

/// Whether a file of the given name has the wanted extension, without regard to case.
pub fn has_extension(wanted: &str, name: &str) -> (r: bool)
    ensures
        r == extension_matches(wanted@, name@),
{
    let w = chars_of(wanted);
    let n = chars_of(name);
    has_extension_chars(&w, &n)
}

fn has_extension_chars(w: &Vec<char>, n: &Vec<char>) -> (r: bool)
    ensures
        r == extension_matches(w@, n@),
{
    let ext = extension_chars(n);
    if w.len() > 0 && w[0] == '.' {
        let bare = skip_chars(w, 1);
        equal_ignoring_case_exec(&bare, &ext)
    } else {
        equal_ignoring_case_exec(w, &ext)
    }
}

/// Whether the name of the file at `path` begins with a dot, which hides a file on POSIX
/// systems.
pub open spec fn is_dot_file(path: Seq<char>) -> bool {
    base_name(path).len() > 0 && base_name(path)[0] == '.'
}

/// Whether the name of the file at `path` begins with a dot.
pub fn has_dot_name(path: &str) -> (r: bool)
    ensures
        r == is_dot_file(path@),
{
    let name = base_name_chars(&chars_of(path));
    name.len() > 0 && name[0] == '.'
}

/// The age of a file in whole days.
pub fn age_in_days(modified: u64, now: u64) -> (r: u64)
    ensures
        r == age_days(modified, now),
{
    if now >= modified {
        (now - modified) / SECONDS_PER_DAY
    } else {
        0
    }
}

impl Condition {
    /// The condition that asks nothing.
    pub open spec fn is_unconstrained(&self) -> bool {
        &&& self.extension is None
        &&& self.name_glob is None
        &&& self.name_regex is None
        &&& self.size_greater is None
        &&& self.size_less is None
        &&& self.age_greater is None
        &&& self.age_less is None
        &&& self.is_directory is None
        &&& self.is_hidden is None
    }

    /// Whether every condition that is set holds of the file, where `regex` is what the
    /// search with the regular expression gave.
    pub open spec fn accepts_given(&self, meta: &FileMeta, now: u64, regex: Option<bool>) -> bool {
        let name = base_name(meta.path@);
        &&& self.extension matches Some(e) ==> extension_matches(e@, name)
        &&& self.name_glob matches Some(g) ==> glob_matches_spec(g@, name)
        &&& self.name_regex is Some ==> regex == Some(true)
        &&& self.size_greater matches Some(s) ==> meta.size > s
        &&& self.size_less matches Some(s) ==> meta.size < s
        &&& self.age_greater matches Some(d) ==> age_days(meta.modified, now) > d
        &&& self.age_less matches Some(d) ==> age_days(meta.modified, now) < d
        &&& self.is_directory matches Some(b) ==> meta.is_directory == b
        &&& self.is_hidden matches Some(b) ==> meta.is_hidden == b
    }

    /// What the search with the condition's regular expression gives on the file's name.
    pub open spec fn regex_outcome(&self, meta: &FileMeta) -> Option<bool> {
        match self.name_regex {
            Some(re) => regex_verdict(re@, base_name(meta.path@)),
            None => None,
        }
    }

    /// Whether the regular expression of the condition, if it has one, compiles.
    pub open spec fn is_well_formed(&self) -> bool {
        self.name_regex matches Some(re) ==> regex_compiles(re@)
    }

    /// Whether the file meets the conditions. A regular expression that does not compile
    /// is met by no file.
    pub open spec fn accepts(&self, meta: &FileMeta, now: u64) -> bool {
        self.accepts_given(meta, now, self.regex_outcome(meta))
    }

    /// The condition that asks nothing.
    pub fn any() -> (r: Condition)
        ensures
            r.is_unconstrained(),
    {
        Condition {
            extension: None,
            name_glob: None,
            name_regex: None,
            size_greater: None,
            size_less: None,
            age_greater: None,
            age_less: None,
            is_directory: None,
            is_hidden: None,
        }
    }

    /// Holds the file against the conditions, given the outcome of the search with the
    /// regular expression.
    pub fn matches_given(&self, meta: &FileMeta, now: u64, regex: Option<bool>) -> (r: bool)
        ensures
            r == self.accepts_given(meta, now, regex),
    {
        let path = chars_of(meta.path.as_str());
        let name = base_name_chars(&path);
        if let Some(e) = &self.extension {
            let wanted = chars_of(e.as_str());
            if !has_extension_chars(&wanted, &name) {
                return false;
            }
        }
        if let Some(g) = &self.name_glob {
            let pattern = chars_of(g.as_str());
            if !matches_chars(&pattern, &name) {
                return false;
            }
        }
        if self.name_regex.is_some() {
            match regex {
                Some(true) => {},
                _ => {
                    return false;
                },
            }
        }
        if let Some(s) = self.size_greater {
            if !(meta.size > s) {
                return false;
            }
        }
        if let Some(s) = self.size_less {
            if !(meta.size < s) {
                return false;
            }
        }
        let age = age_in_days(meta.modified, now);
        if let Some(d) = self.age_greater {
            if !(age > d) {
                return false;
            }
        }
        if let Some(d) = self.age_less {
            if !(age < d) {
                return false;
            }
        }
        if let Some(b) = self.is_directory {
            if meta.is_directory != b {
                return false;
            }
        }
        if let Some(b) = self.is_hidden {
            if meta.is_hidden != b {
                return false;
            }
        }
        true
    }

    /// Searches the file's name with the condition's regular expression, if it has one.
    pub fn search_name(&self, meta: &FileMeta) -> (r: Option<bool>)
        ensures
            r == self.regex_outcome(meta),
    {
        match &self.name_regex {
            Some(re) => {
                let name = file_name(meta.path.as_str());
                regex_search(re.as_str(), name.as_str())
            },
            None => None,
        }
    }

    /// Whether the regular expression of the condition, if it has one, compiles.
    pub fn check(&self) -> (r: bool)
        ensures
            r == self.is_well_formed(),
    {
        match &self.name_regex {
            Some(re) => regex_search(re.as_str(), "").is_some(),
            None => true,
        }
    }

    /// Holds the file against the conditions.
    pub fn matches(&self, meta: &FileMeta, now: u64) -> (r: bool)
        ensures
            r == self.accepts(meta, now),
    {
        let regex = self.search_name(meta);
        self.matches_given(meta, now, regex)
    }
}

impl Rule {
    /// Whether the rule is enabled and the file meets its conditions.
    pub open spec fn fires(&self, meta: &FileMeta, now: u64) -> bool {
        self.enabled && self.conditions.accepts(meta, now)
    }

    /// The rule with its switch set to `enabled`.
    pub open spec fn with_enabled(self, enabled: bool) -> Rule {
        Rule { name: self.name, enabled, conditions: self.conditions, action: self.action }
    }
}

/// Whether `found` is what evaluation gives on these rules: the first rule that fires, or
/// nothing where none fires.
pub open spec fn is_first_match(rules: Seq<Rule>, meta: &FileMeta, now: u64, found: Option<int>) -> bool {
    match found {
        Some(i) => {
            &&& 0 <= i < rules.len()
            &&& rules[i].fires(meta, now)
            &&& forall|j: int| 0 <= j < i ==> !(#[trigger] rules[j]).fires(meta, now)
        },
        None => forall|j: int| 0 <= j < rules.len() ==> !(#[trigger] rules[j]).fires(meta, now),
    }
}

/// The place of a match, as a mathematical integer.
pub open spec fn match_index(found: Option<(usize, &Action)>) -> Option<int> {
    match found {
        Some((i, _)) => Some(i as int),
        None => None,
    }
}

/// Finds the first enabled rule whose conditions the file meets, in the order of the
/// list. Nothing is done to the file.
pub fn evaluate<'a>(meta: &FileMeta, rules: &'a Vec<Rule>, now: u64) -> (found: Option<
    (usize, &'a Action),
>)
    ensures
        is_first_match(rules@, meta, now, match_index(found)),
        found matches Some((i, action)) ==> *action == rules@[i as int].action,
{
    let mut i: usize = 0;
    while i < rules.len()
        invariant
            i <= rules.len(),
            forall|j: int| 0 <= j < i ==> !(#[trigger] rules@[j]).fires(meta, now),
        decreases rules.len() - i,
    {
        let rule = &rules[i];
        if rule.enabled && rule.conditions.matches(meta, now) {
            return Some((i, &rule.action));
        }
        i += 1;
    }
    None
}

/// A condition with nothing set is met by every file, at every time.
pub proof fn lemma_unconstrained_accepts_all(c: Condition, meta: &FileMeta, now: u64)
    requires
        c.is_unconstrained(),
    ensures
        c.accepts(meta, now),
{
}

/// Where an enabled rule has no condition set, evaluation finds a rule for every file:
/// that rule, or one before it.
pub proof fn lemma_unconstrained_rule_is_found(
    rules: Seq<Rule>,
    meta: &FileMeta,
    now: u64,
    i: int,
    found: Option<int>,
)
    requires
        0 <= i < rules.len(),
        rules[i].enabled,
        rules[i].conditions.is_unconstrained(),
        is_first_match(rules, meta, now, found),
    ensures
        found is Some,
        found->0 <= i,
{
    lemma_unconstrained_accepts_all(rules[i].conditions, meta, now);
    assert(rules[i].fires(meta, now));
}

/// Evaluation has one outcome.
pub proof fn lemma_first_match_unique(
    rules: Seq<Rule>,
    meta: &FileMeta,
    now: u64,
    a: Option<int>,
    b: Option<int>,
)
    requires
        is_first_match(rules, meta, now, a),
        is_first_match(rules, meta, now, b),
    ensures
        a == b,
{
    if a is Some && b is Some {
        let i = a->0;
        let k = b->0;
        if i < k {
            assert(!rules[i].fires(meta, now));
        } else if k < i {
            assert(!rules[k].fires(meta, now));
        }
    } else if a is Some {
        assert(!rules[a->0].fires(meta, now));
    } else if b is Some {
        assert(!rules[b->0].fires(meta, now));
    }
}

/// Evaluation looks at no rule behind the first match: two lists that agree up to and
/// including the match give the same match.
pub proof fn lemma_rules_after_match_ignored(
    rules: Seq<Rule>,
    other: Seq<Rule>,
    meta: &FileMeta,
    now: u64,
    i: int,
)
    requires
        is_first_match(rules, meta, now, Some(i)),
        other.len() > i,
        forall|j: int| 0 <= j <= i ==> other[j] == rules[j],
    ensures
        is_first_match(other, meta, now, Some(i)),
{
    assert forall|j: int| 0 <= j < i implies !(#[trigger] other[j]).fires(meta, now) by {
        assert(!rules[j].fires(meta, now));
    }
}

/// Disabling the rule that matched changes the outcome: evaluation then finds the next
/// rule behind it that fires, or nothing where no other rule fires.
pub proof fn lemma_disabling_match_moves_on(
    rules: Seq<Rule>,
    meta: &FileMeta,
    now: u64,
    i: int,
    found: Option<int>,
)
    requires
        is_first_match(rules, meta, now, Some(i)),
        is_first_match(rules.update(i, rules[i].with_enabled(false)), meta, now, found),
    ensures
        found != Some(i),
        found matches Some(k) ==> i < k < rules.len() && rules[k].fires(meta, now) && forall|
            j: int,
        |
            i < j < k ==> !(#[trigger] rules[j]).fires(meta, now),
        found is None ==> forall|j: int|
            0 <= j < rules.len() && j != i ==> !(#[trigger] rules[j]).fires(meta, now),
{
    let changed = rules.update(i, rules[i].with_enabled(false));
    assert(!changed[i].fires(meta, now));
    match found {
        Some(k) => {
            assert(k != i);
            if k < i {
                assert(changed[k] == rules[k]);
                assert(!rules[k].fires(meta, now));
            }
            assert(changed[k] == rules[k]);
            assert forall|j: int| i < j < k implies !(#[trigger] rules[j]).fires(meta, now) by {
                assert(changed[j] == rules[j]);
            }
        },
        None => {
            assert forall|j: int| 0 <= j < rules.len() && j != i implies !(
            #[trigger] rules[j]).fires(meta, now) by {
                assert(changed[j] == rules[j]);
            }
        },
    }
}

/// The ordered list of rules that files are held against.
#[derive(Debug, Clone)]
pub struct RuleEngine {
    rules: Vec<Rule>,
}

impl View for RuleEngine {
    type V = Seq<Rule>;

    closed spec fn view(&self) -> Seq<Rule> {
        self.rules@
    }
}

/// Whether `broken` lists, in rising order, exactly the rules whose regular expression
/// does not compile.
pub open spec fn lists_broken_rules(rules: Seq<Rule>, broken: Seq<usize>) -> bool {
    &&& forall|k: int|
        0 <= k < broken.len() ==> (#[trigger] broken[k]) < rules.len()
            && !rules[broken[k] as int].conditions.is_well_formed()
    &&& forall|k: int, m: int| 0 <= k < m < broken.len() ==> broken[k] < broken[m]
    &&& forall|i: int|
        0 <= i < rules.len() && !(#[trigger] rules[i]).conditions.is_well_formed() ==> exists|
            k: int,
        |
            0 <= k < broken.len() && broken[k] == i
}

impl RuleEngine {
    /// An engine over the given rules, in their order.
    pub fn new(rules: Vec<Rule>) -> (r: RuleEngine)
        ensures
            r@ == rules@,
    {
        RuleEngine { rules }
    }

    /// The rules, in the order in which they are evaluated.
    pub fn rules(&self) -> (r: &Vec<Rule>)
        ensures
            r@ == self@,
    {
        &self.rules
    }

    /// The number of rules.
    pub fn len(&self) -> (n: usize)
        ensures
            n == self@.len(),
    {
        self.rules.len()
    }

    /// Replaces the whole list of rules by another.
    pub fn reload(&mut self, rules: Vec<Rule>)
        ensures
            final(self)@ == rules@,
    {
        self.rules = rules;
    }

    /// Finds the first enabled rule whose conditions the file meets.
    pub fn evaluate<'a>(&'a self, meta: &FileMeta, now: u64) -> (found: Option<
        (usize, &'a Action),
    >)
        ensures
            is_first_match(self@, meta, now, match_index(found)),
            found matches Some((i, action)) ==> *action == self@[i as int].action,
    {
        evaluate(meta, &self.rules, now)
    }

    /// Switches the rule at `index` on if it is off, and off if it is on. Returns whether
    /// there is such a rule; the other rules and their order stay as they are.
    pub fn toggle_rule(&mut self, index: usize) -> (done: bool)
        ensures
            done == (index < old(self)@.len()),
            done ==> final(self)@ == old(self)@.update(
                index as int,
                old(self)@[index as int].with_enabled(!old(self)@[index as int].enabled),
            ),
            !done ==> final(self)@ == old(self)@,
    {
        if index < self.rules.len() {
            let mut rule = self.rules.remove(index);
            rule.enabled = !rule.enabled;
            self.rules.insert(index, rule);
            assert(self.rules@ == old(self).rules@.update(
                index as int,
                old(self).rules@[index as int].with_enabled(
                    !old(self).rules@[index as int].enabled,
                ),
            ));
            true
        } else {
            false
        }
    }

    /// The places of the rules whose regular expression does not compile. Such a rule
    /// matches no file.
    pub fn broken_rules(&self) -> (broken: Vec<usize>)
        ensures
            lists_broken_rules(self@, broken@),
    {
        let mut broken: Vec<usize> = Vec::new();
        let mut i: usize = 0;
        while i < self.rules.len()
            invariant
                i <= self.rules.len(),
                lists_broken_rules(self.rules@.take(i as int), broken@),
            decreases self.rules.len() - i,
        {
            let ghost before = broken@;
            let ok = self.rules[i].conditions.check();
            if !ok {
                broken.push(i);
            }
            proof {
                let prefix = self.rules@.take(i as int);
                let longer = self.rules@.take(i + 1);
                assert forall|k: int| 0 <= k < broken@.len() implies (#[trigger] broken@[k])
                    < longer.len() && !longer[broken@[k] as int].conditions.is_well_formed() by {
                    if k < before.len() {
                        assert(before[k] < prefix.len());
                        assert(longer[before[k] as int] == prefix[before[k] as int]);
                    }
                }
                assert forall|k: int, m: int| 0 <= k < m < broken@.len() implies broken@[k]
                    < broken@[m] by {
                    assert(before[k] < prefix.len());
                }
                assert forall|j: int|
                    0 <= j < longer.len() && !(#[trigger] longer[j]).conditions.is_well_formed()
                    implies exists|k: int| 0 <= k < broken@.len() && broken@[k] == j by {
                    if j < i {
                        assert(prefix[j] == longer[j]);
                        let k = choose|k: int| 0 <= k < before.len() && before[k] == j;
                        assert(broken@[k] == j);
                    } else {
                        assert(broken@[broken@.len() - 1] == j);
                    }
                }
            }
            i += 1;
        }
        assert(self.rules@.take(i as int) == self.rules@);
        broken
    }
}

} // verus!
