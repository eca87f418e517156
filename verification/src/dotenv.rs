//! Reading `.env` files: `KEY=value` lines, quotes, and `$VAR` expansion.
use vstd::prelude::*;
use vstd::string::*;
use crate::fs::path_exists;
use crate::path::{parent, parent_of, push_path, pushed_path, views};
use crate::text::{
    char_is_whitespace, chars_of, is_whitespace, str_eq, string_of, trim_end, line_bounds_with, line_count, line_text, newline_positions,
    newlines_of, count_lines, push_char, push_range,
    string_of_range, trim, trim_bounds, trim_start,
};

verus! {

/// The variables of an `.env` file: each name once, with its value.
pub struct EnvVars {
    entries: Vec<(String, String)>,
}

/// The map that a list of entries stands for: a later entry wins.
pub open spec fn entries_map(s: Seq<(String, String)>) -> Map<Seq<char>, Seq<char>>
    decreases s.len(),
{
    if s.len() == 0 {
        Map::empty()
    } else {
        entries_map(s.drop_last()).insert(s.last().0@, s.last().1@)
    }
}

/// No two entries share a name.
pub open spec fn distinct_keys(s: Seq<(String, String)>) -> bool {
    forall|i: int, j: int| 0 <= i < j < s.len() ==> (#[trigger] s[i]).0@ != (#[trigger] s[j]).0@
}

proof fn lemma_entries_map(s: Seq<(String, String)>)
    requires
        distinct_keys(s),
    ensures
        forall|k: Seq<char>|
            #[trigger] entries_map(s).contains_key(k) <==> exists|i: int|
                0 <= i < s.len() && s[i].0@ == k,
        forall|i: int| 0 <= i < s.len() ==> #[trigger] entries_map(s)[s[i].0@] == s[i].1@,
    decreases s.len(),
{
    if s.len() > 0 {
        let t = s.drop_last();
        assert(distinct_keys(t)) by {
            assert forall|i: int, j: int| 0 <= i < j < t.len() implies (#[trigger] t[i]).0@
                != (#[trigger] t[j]).0@ by {
                assert(t[i] == s[i] && t[j] == s[j]);
            }
        }
        lemma_entries_map(t);
        assert forall|k: Seq<char>| #[trigger] entries_map(s).contains_key(k) implies exists|i: int|
            0 <= i < s.len() && s[i].0@ == k by {
            if k != s.last().0@ {
                assert(entries_map(t).contains_key(k));
                let i = choose|i: int| 0 <= i < t.len() && t[i].0@ == k;
                assert(s[i] == t[i]);
            }
        }
        assert forall|k: Seq<char>|
            (exists|i: int| 0 <= i < s.len() && s[i].0@ == k) implies #[trigger] entries_map(
            s).contains_key(k) by {
            let i = choose|i: int| 0 <= i < s.len() && s[i].0@ == k;
            if i < s.len() - 1 {
                assert(s[i] == t[i]);
                assert(entries_map(t).contains_key(t[i].0@));
            }
        }
        assert forall|i: int| 0 <= i < s.len() implies #[trigger] entries_map(s)[s[i].0@]
            == s[i].1@ by {
            if i < s.len() - 1 {
                assert(s[i] == t[i]);
                assert(s[i].0@ != s[s.len() - 1].0@);
                assert(entries_map(t)[t[i].0@] == t[i].1@);
            }
        }
    }
}

impl View for EnvVars {
    type V = Map<Seq<char>, Seq<char>>;

    closed spec fn view(&self) -> Map<Seq<char>, Seq<char>> {
        entries_map(self.entries@)
    }
}

impl EnvVars {
    /// Each name occurs once among the entries.
    pub closed spec fn wf(&self) -> bool {
        distinct_keys(self.entries@)
    }

    /// No variables.
    pub fn new() -> (r: Self)
        ensures
            r.wf(),
            r@ == Map::<Seq<char>, Seq<char>>::empty(),
    {
        EnvVars { entries: Vec::new() }
    }

    /// The number of variables.
    pub fn len(&self) -> (n: usize)
        requires
            self.wf(),
        ensures
            n == self@.len(),
    {
        proof {
            self.lemma_len();
        }
        self.entries.len()
    }

    proof fn lemma_len(&self)
        requires
            self.wf(),
        ensures
            self@.len() == self.entries@.len(),
            self@.dom().finite(),
        decreases self.entries@.len(),
    {
        let s = self.entries@;
        lemma_entries_map(s);
        if s.len() > 0 {
            let smaller = s.drop_last();
            assert(distinct_keys(smaller)) by {
                assert forall|i: int, j: int| 0 <= i < j < smaller.len() implies (
                #[trigger] smaller[i]).0@ != (#[trigger] smaller[j]).0@ by {
                    assert(smaller[i] == s[i] && smaller[j] == s[j]);
                }
            }
            lemma_entries_map(smaller);
            lemma_map_len(smaller);
            assert(!entries_map(smaller).contains_key(s.last().0@)) by {
                if entries_map(smaller).contains_key(s.last().0@) {
                    let i = choose|i: int| 0 <= i < smaller.len() && smaller[i].0@ == s.last().0@;
                    assert(s[i] == smaller[i]);
                }
            }
        }
    }

    /// The index of the entry named `key`, if there is one.
    fn find(&self, key: &str) -> (r: Option<usize>)
        ensures
            match r {
                Some(i) => i < self.entries@.len() && self.entries@[i as int].0@ == key@,
                None => forall|i: int| 0 <= i < self.entries@.len() ==> self.entries@[i].0@ != key@,
            },
    {
        let mut i: usize = 0;
        while i < self.entries.len()
            invariant
                i <= self.entries@.len(),
                forall|j: int| 0 <= j < i ==> self.entries@[j].0@ != key@,
            decreases self.entries@.len() - i,
        {
            if str_eq(self.entries[i].0.as_str(), key) {
                return Some(i);
            }
            i += 1;
        }
        None
    }

    /// The value of `key`, if it is set.
    pub fn get(&self, key: &str) -> (r: Option<&String>)
        requires
            self.wf(),
        ensures
            match r {
                Some(v) => self@.contains_key(key@) && self@[key@] == v@,
                None => !self@.contains_key(key@),
            },
    {
        proof {
            lemma_entries_map(self.entries@);
        }
        match self.find(key) {
            Some(i) => Some(&self.entries[i].1),
            None => None,
        }
    }

    /// Sets `key` to `value`, replacing an earlier value.
    pub fn insert(&mut self, key: String, value: String)
        requires
            old(self).wf(),
        ensures
            final(self).wf(),
            final(self)@ == old(self)@.insert(key@, value@),
    {
        proof {
            lemma_entries_map(self.entries@);
        }
        let ghost k = key@;
        let ghost v = value@;
        match self.find(key.as_str()) {
            Some(i) => {
                let ghost before = self.entries@;
                self.entries.set(i, (key, value));
                let ghost after = self.entries@;
                assert(distinct_keys(after)) by {
                    assert forall|a: int, b: int| 0 <= a < b < after.len() implies (
                    #[trigger] after[a]).0@ != (#[trigger] after[b]).0@ by {
                        assert(before[a].0@ != before[b].0@);
                    }
                }
                proof {
                    lemma_entries_map(after);
                    assert forall|x: Seq<char>| #[trigger] entries_map(after).contains_key(x)
                        == entries_map(before).insert(k, v).contains_key(x) by {
                        if entries_map(before).contains_key(x) {
                            let j = choose|j: int| 0 <= j < before.len() && before[j].0@ == x;
                            if j != i {
                                assert(after[j] == before[j]);
                            }
                        }
                        if entries_map(after).contains_key(x) {
                            let j = choose|j: int| 0 <= j < after.len() && after[j].0@ == x;
                            if j != i {
                                assert(after[j] == before[j]);
                            }
                        }
                    }
                    assert forall|x: Seq<char>| #[trigger] entries_map(after).contains_key(x)
                        implies entries_map(after)[x] == entries_map(before).insert(k, v)[x] by {
                        let j = choose|j: int| 0 <= j < after.len() && after[j].0@ == x;
                        if j != i {
                            assert(after[j] == before[j]);
                        }
                    }
                    assert(entries_map(after) =~= entries_map(before).insert(k, v));
                }
            },
            None => {
                let ghost before = self.entries@;
                self.entries.push((key, value));
                assert(self.entries@.drop_last() == before);
                assert(distinct_keys(self.entries@)) by {
                    let after = self.entries@;
                    assert forall|a: int, b: int| 0 <= a < b < after.len() implies (
                    #[trigger] after[a]).0@ != (#[trigger] after[b]).0@ by {
                        if b < before.len() {
                            assert(after[a] == before[a] && after[b] == before[b]);
                        } else {
                            assert(after[a] == before[a]);
                        }
                    }
                }
            },
        }
    }

    /// The variables as `(name, value)` pairs, each name once.
    pub fn entries(&self) -> (r: &Vec<(String, String)>)
        ensures
            entries_map(r@) == self@,
    {
        &self.entries
    }
}

proof fn lemma_map_len(s: Seq<(String, String)>)
    requires
        distinct_keys(s),
    ensures
        entries_map(s).len() == s.len(),
        entries_map(s).dom().finite(),
    decreases s.len(),
{
    if s.len() > 0 {
        let t = s.drop_last();
        assert(distinct_keys(t)) by {
            assert forall|i: int, j: int| 0 <= i < j < t.len() implies (#[trigger] t[i]).0@
                != (#[trigger] t[j]).0@ by {
                assert(t[i] == s[i] && t[j] == s[j]);
            }
        }
        lemma_map_len(t);
        lemma_entries_map(t);
        assert(!entries_map(t).contains_key(s.last().0@)) by {
            if entries_map(t).contains_key(s.last().0@) {
                let i = choose|i: int| 0 <= i < t.len() && t[i].0@ == s.last().0@;
                assert(s[i] == t[i]);
            }
        }
    }
}

/// A character that may appear in a `$NAME` reference.
pub open spec fn is_name_char(c: char) -> bool {
    ('a' <= c <= 'z') || ('A' <= c <= 'Z') || ('0' <= c <= '9') || c == '_'
}

/// The first position at or after `i` where `s` holds `c`, or `s.len()`.
pub open spec fn find_from(s: Seq<char>, i: int, c: char) -> int
    decreases s.len() - i,
{
    if i >= s.len() {
        s.len() as int
    } else if s[i] == c {
        i
    } else {
        find_from(s, i + 1, c)
    }
}

/// The end of the run of name characters that starts at `i`.
pub open spec fn name_end(s: Seq<char>, i: int) -> int
    decreases s.len() - i,
{
    if i < s.len() && is_name_char(s[i]) {
        name_end(s, i + 1)
    } else {
        i
    }
}

/// The value of `name`, or nothing where it is not set.
pub open spec fn lookup(vars: Map<Seq<char>, Seq<char>>, name: Seq<char>) -> Seq<char> {
    if vars.contains_key(name) {
        vars[name]
    } else {
        Seq::empty()
    }
}

/// The expansion of `s` from position `i`: `\$` gives `$`, `${NAME}` and `$NAME`
/// give the value of NAME (nothing when unset), a lone `$` stays, and every
/// other character is copied as it is.
pub open spec fn expand_from(s: Seq<char>, i: int, vars: Map<Seq<char>, Seq<char>>) -> Seq<char>
    decreases s.len() - i,
{
    if i < 0 || i >= s.len() {
        Seq::empty()
    } else if s[i] == '\\' && i + 1 < s.len() && s[i + 1] == '$' {
        seq!['$'] + expand_from(s, i + 2, vars)
    } else if s[i] == '$' {
        if i + 1 < s.len() && s[i + 1] == '{' {
            let j = find_from(s, i + 2, '}');
            let next = if j < s.len() { j + 1 } else { j };
            if i < next <= s.len() {
                lookup(vars, s.subrange(i + 2, j)) + expand_from(s, next, vars)
            } else {
                Seq::empty()
            }
        } else if i + 1 < s.len() && is_name_char(s[i + 1]) {
            let j = name_end(s, i + 1);
            if i < j <= s.len() {
                lookup(vars, s.subrange(i + 1, j)) + expand_from(s, j, vars)
            } else {
                Seq::empty()
            }
        } else {
            seq!['$'] + expand_from(s, i + 1, vars)
        }
    } else {
        seq![s[i]] + expand_from(s, i + 1, vars)
    }
}

proof fn lemma_find_from(s: Seq<char>, i: int, c: char)
    requires
        0 <= i,
    ensures
        i <= find_from(s, i, c) <= s.len() || (i > s.len() && find_from(s, i, c) == s.len()),
        forall|k: int| i <= k < find_from(s, i, c) ==> s[k] != c,
        find_from(s, i, c) < s.len() ==> s[find_from(s, i, c)] == c,
    decreases s.len() - i,
{
    if i < s.len() && s[i] != c {
        lemma_find_from(s, i + 1, c);
    }
}

proof fn lemma_name_end(s: Seq<char>, i: int)
    requires
        0 <= i <= s.len(),
    ensures
        i <= name_end(s, i) <= s.len(),
    decreases s.len() - i,
{
    if i < s.len() && is_name_char(s[i]) {
        lemma_name_end(s, i + 1);
    }
}

/// Expands `$NAME`, `${NAME}` and `\$` in `s` with the variables set so far.
pub fn expand_vars(s: &str, vars: &EnvVars) -> (r: String)
    requires
        vars.wf(),
    ensures
        r@ == expand_from(s@, 0, vars@),
{
    let cs = chars_of(s);
    let len = cs.len();
    let mut result = String::new();
    let mut i: usize = 0;
    while i < len
        invariant
            len == cs@.len(),
            cs@ == s@,
            vars.wf(),
            i <= len,
            result@ + expand_from(cs@, i as int, vars@) == expand_from(cs@, 0, vars@),
        decreases len - i,
    {
        let ghost before = result@;
        if cs[i] == '\\' && i + 1 < len && cs[i + 1] == '$' {
            push_char(&mut result, '$');
            i += 2;
        } else if cs[i] == '$' {
            if i + 1 < len && cs[i + 1] == '{' {
                let mut j = i + 2;
                proof {
                    lemma_find_from(cs@, i + 2, '}');
                }
                while j < len && cs[j] != '}'
                    invariant
                        i + 2 <= j <= len,
                        len == cs@.len(),
                        find_from(cs@, j as int, '}') == find_from(cs@, i + 2, '}'),
                    decreases len - j,
                {
                    j += 1;
                }
                let name = string_of_range(&cs, i + 2, j);
                match vars.get(name.as_str()) {
                    Some(v) => result.append(v.as_str()),
                    None => {},
                }
                if j < len {
                    i = j + 1;
                } else {
                    i = j;
                }
            } else if i + 1 < len && is_name_byte(cs[i + 1]) {
                let mut j = i + 1;
                while j < len && is_name_byte(cs[j])
                    invariant
                        i + 1 <= j <= len,
                        len == cs@.len(),
                        name_end(cs@, j as int) == name_end(cs@, i + 1),
                    decreases len - j,
                {
                    j += 1;
                }
                let name = string_of_range(&cs, i + 1, j);
                match vars.get(name.as_str()) {
                    Some(v) => result.append(v.as_str()),
                    None => {},
                }
                i = j;
            } else {
                push_char(&mut result, '$');
                i += 1;
            }
        } else {
            push_char(&mut result, cs[i]);
            i += 1;
        }
    }
    result
}

fn is_name_byte(c: char) -> (r: bool)
    ensures
        r == is_name_char(c),
{
    ('a' <= c && c <= 'z') || ('A' <= c && c <= 'Z') || ('0' <= c && c <= '9') || c == '_'
}

/// A quote character that `unquote` strips in pairs.
pub open spec fn is_quote(c: char) -> bool {
    c == '"' || c == '\'' || c == '`'
}

/// `s` trimmed, without one pair of matching surrounding quotes.
pub open spec fn unquoted(s: Seq<char>) -> Seq<char> {
    let t = trim(s);
    if t.len() >= 2 && is_quote(t[0]) && t.last() == t[0] {
        t.subrange(1, t.len() - 1)
    } else {
        t
    }
}

/// Strips matching surrounding quotes (single, double or backtick) after trimming.
pub fn unquote(s: &str) -> (r: String)
    ensures
        r@ == unquoted(s@),
{
    let cs = chars_of(s);
    let (a, b) = trim_bounds(&cs, 0, cs.len());
    assert(cs@.subrange(0, cs@.len() as int) == cs@);
    if b - a >= 2 {
        let first = cs[a];
        let last = cs[b - 1];
        if (first == '"' || first == '\'' || first == '`') && last == first {
            let ghost t = cs@.subrange(a as int, b as int);
            assert(t.subrange(1, t.len() - 1) == cs@.subrange(a + 1, b - 1));
            return string_of_range(&cs, a + 1, b - 1);
        }
    }
    string_of_range(&cs, a, b)
}

/// `raw` unquoted, then expanded with the variables set so far.
pub fn unquote_and_expand(raw: &str, vars: &EnvVars) -> (r: String)
    requires
        vars.wf(),
    ensures
        r@ == expand_from(unquoted(raw@), 0, vars@),
{
    let u = unquote(raw);
    expand_vars(u.as_str(), vars)
}

/// Whether a `#` at `j` starts an inline comment: it follows whitespace.
pub open spec fn comment_at(s: Seq<char>, j: int) -> bool {
    1 <= j < s.len() && s[j] == '#' && is_whitespace(s[j - 1])
}

/// The first position from `j` where an inline comment starts, or `s.len()`.
pub open spec fn comment_start(s: Seq<char>, j: int) -> int
    decreases s.len() - j,
{
    if j >= s.len() {
        s.len() as int
    } else if comment_at(s, j) {
        j
    } else {
        comment_start(s, j + 1)
    }
}

/// `raw` without an inline comment after the value: for a quoted value, the
/// text after the closing quote where it is empty or a `#` comment; for an
/// unquoted value, everything from a `#` that follows whitespace.
pub open spec fn without_comment(raw: Seq<char>) -> Seq<char> {
    if raw.len() > 0 && is_quote(raw[0]) {
        let k = find_from(raw, 1, raw[0]);
        let rest = trim(raw.subrange(k + 1, raw.len() as int));
        if k < raw.len() && (rest.len() == 0 || rest[0] == '#') {
            raw.subrange(0, k + 1)
        } else {
            raw
        }
    } else {
        let k = comment_start(raw, 1);
        if k < raw.len() {
            trim_end(raw.subrange(0, k))
        } else {
            raw
        }
    }
}

proof fn lemma_comment_start(s: Seq<char>, j: int)
    requires
        1 <= j <= s.len(),
    ensures
        j <= comment_start(s, j) <= s.len(),
    decreases s.len() - j,
{
    if j < s.len() {
        lemma_comment_start(s, j + 1);
    }
}

/// Drops an inline comment after a value, as `without_comment` says.
pub fn strip_inline_comment(raw: &str) -> (r: String)
    ensures
        r@ == without_comment(raw@),
{
    let cs = chars_of(raw);
    let n = cs.len();
    if n > 0 && (cs[0] == '"' || cs[0] == '\'' || cs[0] == '`') {
        let q = cs[0];
        let mut k: usize = 1;
        proof {
            lemma_find_from(cs@, 1, q);
        }
        while k < n && cs[k] != q
            invariant
                1 <= k <= n,
                n == cs@.len(),
                find_from(cs@, k as int, q) == find_from(cs@, 1, q),
            decreases n - k,
        {
            k += 1;
        }
        if k < n {
            let (a, b) = trim_bounds(&cs, k + 1, n);
            if a == b || cs[a] == '#' {
                return string_of_range(&cs, 0, k + 1);
            }
        }
        string_of(&cs)
    } else {
        let mut k: usize = 1;
        proof {
            if n > 0 {
                lemma_comment_start(cs@, 1);
            }
        }
        while k < n && !(cs[k] == '#' && char_is_whitespace(cs[k - 1]))
            invariant
                1 <= k,
                n == cs@.len(),
                k <= n || n == 0,
                n > 0 ==> comment_start(cs@, k as int) == comment_start(cs@, 1),
            decreases n - k,
        {
            k += 1;
        }
        if k < n {
            let mut b = k;
            while b > 0 && char_is_whitespace(cs[b - 1])
                invariant
                    b <= k < n,
                    n == cs@.len(),
                    trim_end(cs@.subrange(0, k as int)) == trim_end(cs@.subrange(0, b as int)),
                decreases b,
            {
                assert(cs@.subrange(0, b as int).drop_last() == cs@.subrange(0, b - 1));
                b -= 1;
            }
            string_of_range(&cs, 0, b)
        } else {
            string_of(&cs)
        }
    }
}

/// What one line of an `.env` file does to the variables set so far: blank lines,
/// `#` comments and lines without `=` or without a name change nothing;
/// `NAME = value` sets NAME.
pub open spec fn env_line(line: Seq<char>, vars: Map<Seq<char>, Seq<char>>) -> Map<
    Seq<char>,
    Seq<char>,
> {
    let l = trim(line);
    let p = find_from(l, 0, '=');
    if l.len() == 0 || l[0] == '#' || p >= l.len() {
        vars
    } else {
        let key = trim(l.subrange(0, p));
        let raw = trim(l.subrange(p + 1, l.len() as int));
        if key.len() == 0 {
            vars
        } else {
            vars.insert(key, expand_from(unquoted(without_comment(raw)), 0, vars))
        }
    }
}

/// The variables after the first `k` lines of `s`.
pub open spec fn env_lines(s: Seq<char>, k: nat) -> Map<Seq<char>, Seq<char>>
    decreases k,
{
    if k == 0 {
        Map::empty()
    } else {
        env_line(line_text(s, k - 1), env_lines(s, (k - 1) as nat))
    }
}

/// The variables that an `.env` file sets.
pub open spec fn env_file(s: Seq<char>) -> Map<Seq<char>, Seq<char>> {
    env_lines(s, line_count(s))
}

/// Parses the text of a `.env` file into its variables, line by line; a later
/// line overrides an earlier one, and `$NAME` refers to variables set above.
pub fn parse_env_file(content: &str) -> (r: EnvVars)
    ensures
        r.wf(),
        r@ == env_file(content@),
{
    let cs = chars_of(content);
    let nl = newlines_of(&cs);
    let mut vars = EnvVars::new();
    let count = count_lines(&cs, &nl);
    let mut k: usize = 0;
    while k < count
        invariant
            cs@ == content@,
            nl@.len() == newline_positions(cs@).len(),
            forall|j: int| 0 <= j < nl@.len() ==> nl@[j] as int == #[trigger] newline_positions(cs@)[j],
            count == line_count(cs@),
            vars.wf(),
            k <= count,
            vars@ == env_lines(cs@, k as nat),
        decreases count - k,
    {
        match line_bounds_with(&cs, &nl, k + 1) {
            None => {
                assert(false);
            },
            Some((a, b)) => {
                let ghost line = cs@.subrange(a as int, b as int);
                assert(line == line_text(cs@, k as int));
                let ghost before = vars@;
                let (c, d) = trim_bounds(&cs, a, b);
                let ghost l = cs@.subrange(c as int, d as int);
                assert(l == trim(line));
                if c < d && cs[c] != '#' {
                    let mut p = c;
                    while p < d && cs[p] != '='
                        invariant
                            c <= p <= d <= cs@.len(),
                            l == cs@.subrange(c as int, d as int),
                            find_from(l, (p - c) as int, '=') == find_from(l, 0, '='),
                        decreases d - p,
                    {
                        p += 1;
                    }
                    if p < d {
                        let (ka, kb) = trim_bounds(&cs, c, p);
                        let (ra, rb) = trim_bounds(&cs, p + 1, d);
                        assert(l.subrange(0, (p - c) as int) == cs@.subrange(c as int, p as int));
                        assert(l.subrange((p - c) + 1, l.len() as int) == cs@.subrange(
                            p + 1,
                            d as int,
                        ));
                        if ka < kb {
                            let key = string_of_range(&cs, ka, kb);
                            let raw = string_of_range(&cs, ra, rb);
                            let raw = strip_inline_comment(raw.as_str());
                            let value = unquote_and_expand(raw.as_str(), &vars);
                            vars.insert(key, value);
                        }
                    }
                }
            },
        }
        k += 1;
    }
    vars
}


/// The `.env` files that a directory may hold, lowest precedence first:
/// `.env`, `.env.<env_name>`, `.env.local`.
pub open spec fn env_candidates(dir: Seq<char>, env_name: Seq<char>) -> Seq<Seq<char>> {
    seq![
        pushed_path(dir, ".env"@),
        pushed_path(dir, ".env."@ + env_name),
        pushed_path(dir, ".env.local"@),
    ]
}

/// The candidates whose flag is set, in order.
pub open spec fn chosen(c: Seq<Seq<char>>, present: (bool, bool, bool)) -> Seq<Seq<char>> {
    (if present.0 { seq![c[0]] } else { Seq::empty() }) + (if present.1 {
        seq![c[1]]
    } else {
        Seq::empty()
    }) + (if present.2 {
        seq![c[2]]
    } else {
        Seq::empty()
    })
}

/// `start` followed by `k` steps up through `Path::parent`.
pub open spec fn ancestor(start: Seq<char>, k: nat) -> Option<Seq<char>>
    decreases k,
{
    if k == 0 {
        Some(start)
    } else {
        match ancestor(start, (k - 1) as nat) {
            Some(d) => parent_of(d),
            None => None,
        }
    }
}

/// The environment name: the one given, or `development`.
pub open spec fn env_name_or_default(node_env: Option<&str>) -> Seq<char> {
    match node_env {
        Some(e) => e@,
        None => "development"@,
    }
}

/// The `.env` files of `dir` that exist, given which of the three candidates exist.
pub fn env_files_in(dir: &str, env_name: &str, present: (bool, bool, bool)) -> (r: Vec<String>)
    ensures
        views(r@) == chosen(env_candidates(dir@, env_name@), present),
{
    let mut out: Vec<String> = Vec::new();
    let mut node_file = String::from_str(".env.");
    node_file.append(env_name);
    let env_path = push_path(dir, ".env");
    let env_node_path = push_path(dir, node_file.as_str());
    let env_local_path = push_path(dir, ".env.local");
    if present.0 {
        out.push(env_path);
    }
    if present.1 {
        out.push(env_node_path);
    }
    if present.2 {
        out.push(env_local_path);
    }
    assert(views(out@) =~= chosen(env_candidates(dir@, env_name@), present));
    out
}

/// Whether any of the three candidates of a directory exists.
pub open spec fn any_present(t: (bool, bool, bool)) -> bool {
    t.0 || t.1 || t.2
}

/// The files found from directory `d` up, where `seen[i..]` tells which
/// candidates exist in `d` and each directory above it in turn: the chosen
/// candidates of the first directory where any exists; none where there is
/// no such directory.
pub open spec fn found_from(d: Option<Seq<char>>, env_name: Seq<char>, seen: Seq<(bool, bool, bool)>, i: int) -> Seq<Seq<char>>
    decreases seen.len() - i,
{
    if i < 0 || i >= seen.len() {
        Seq::empty()
    } else {
        match d {
            None => Seq::empty(),
            Some(dir) => if any_present(seen[i]) {
                chosen(env_candidates(dir, env_name), seen[i])
            } else {
                found_from(parent_of(dir), env_name, seen, i + 1)
            },
        }
    }
}

/// `seen` is what a walk up from `start` saw: one entry for each directory
/// from `start` up, none of them but the last holding a candidate, and the
/// walk stopped at the first that does or at the root.
pub open spec fn walk_of(start: Seq<char>, seen: Seq<(bool, bool, bool)>) -> bool {
    &&& seen.len() > 0
    &&& forall|j: int| 0 <= j < seen.len() ==> (#[trigger] ancestor(start, j as nat)) is Some
    &&& forall|j: int| 0 <= j < seen.len() - 1 ==> !any_present(#[trigger] seen[j])
    &&& any_present(seen.last()) || ancestor(start, seen.len()) is None
}

/// The files found walking up from `start_dir`, given which candidates
/// exist in each directory on the way (`seen[0]` for `start_dir`): those of
/// the first directory holding any, in precedence order.
pub fn env_files_from(start_dir: &str, env_name: &str, seen: &Vec<(bool, bool, bool)>) -> (r: Vec<String>)
    ensures
        views(r@) == found_from(Some(start_dir@), env_name@, seen@, 0),
{
    let mut dir = String::from_str(start_dir);
    let mut i: usize = 0;
    while i < seen.len()
        invariant
            i <= seen@.len(),
            found_from(Some(start_dir@), env_name@, seen@, 0) == found_from(Some(dir@), env_name@, seen@, i as int),
        decreases seen@.len() - i,
    {
        let present = seen[i];
        if present.0 || present.1 || present.2 {
            return env_files_in(dir.as_str(), env_name, present);
        }
        match parent(dir.as_str()) {
            Some(p) => {
                dir = p;
            },
            None => {
                let out: Vec<String> = Vec::new();
                assert(views(out@) =~= Seq::<Seq<char>>::empty());
                assert(found_from(None, env_name@, seen@, i + 1) == Seq::<Seq<char>>::empty());
                return out;
            },
        }
        i += 1;
    }
    let out: Vec<String> = Vec::new();
    assert(views(out@) =~= Seq::<Seq<char>>::empty());
    out
}

/// Finds the `.env` files to load: walking up from `start_dir`, the first
/// directory that holds any of `.env`, `.env.<NODE_ENV>` (default
/// `development`) and `.env.local` gives those that exist, in that order.
/// Which files exist is asked of the file system on the way.
pub fn find_env_files(start_dir: &str, node_env: Option<&str>) -> (r: Vec<String>)
    ensures
        exists|seen: Seq<(bool, bool, bool)>|
            #[trigger] walk_of(start_dir@, seen)
            && views(r@) == found_from(Some(start_dir@), env_name_or_default(node_env), seen, 0),
{
    let env_name: &str = match node_env {
        Some(e) => e,
        None => "development",
    };
    let mut dir = String::from_str(start_dir);
    let mut seen: Vec<(bool, bool, bool)> = Vec::new();
    loop
        invariant
            ancestor(start_dir@, seen@.len()) == Some(dir@),
            forall|j: int| 0 <= j < seen@.len() ==> (#[trigger] ancestor(start_dir@, j as nat)) is Some,
            forall|j: int| 0 <= j < seen@.len() ==> !any_present(#[trigger] seen@[j]),
            env_name@ == env_name_or_default(node_env),
        decreases dir@.len(),
    {
        let mut node_file = String::from_str(".env.");
        node_file.append(env_name);
        let has_env = path_exists(push_path(dir.as_str(), ".env").as_str());
        let has_node = path_exists(push_path(dir.as_str(), node_file.as_str()).as_str());
        let has_local = path_exists(push_path(dir.as_str(), ".env.local").as_str());
        let present = (has_env, has_node, has_local);
        let ghost before = seen@;
        seen.push(present);
        proof {
            assert forall|j: int| 0 <= j < seen@.len() implies (#[trigger] ancestor(start_dir@, j as nat)) is Some by {
                if j < before.len() {
                    assert(ancestor(start_dir@, j as nat) is Some);
                }
            }
            assert forall|j: int| 0 <= j < seen@.len() - 1 implies !any_present(#[trigger] seen@[j]) by {
                assert(seen@[j] == before[j]);
            }
        }
        if has_env || has_node || has_local {
            let r = env_files_from(start_dir, env_name, &seen);
            assert(walk_of(start_dir@, seen@));
            return r;
        }
        match parent(dir.as_str()) {
            Some(p) => {
                dir = p;
                assert forall|j: int| 0 <= j < seen@.len() implies !any_present(#[trigger] seen@[j]) by {
                    if j < before.len() {
                        assert(seen@[j] == before[j]);
                    }
                }
            },
            None => {
                let r = env_files_from(start_dir, env_name, &seen);
                assert(ancestor(start_dir@, seen@.len()) is None);
                assert(walk_of(start_dir@, seen@));
                return r;
            },
        }
    }
}

/// The variables of several `.env` files taken in order: a later file's value
/// for a name replaces an earlier one.
pub open spec fn merged(files: Seq<Map<Seq<char>, Seq<char>>>) -> Map<Seq<char>, Seq<char>>
    decreases files.len(),
{
    if files.len() == 0 {
        Map::empty()
    } else {
        merged(files.drop_last()).union_prefer_right(files.last())
    }
}

/// The variables of each file.
pub open spec fn file_views(files: Seq<EnvVars>) -> Seq<Map<Seq<char>, Seq<char>>> {
    files.map_values(|f: EnvVars| f@)
}

/// Gathers the variables of the `.env` files that were read, lowest
/// precedence first, into one set: later files override earlier ones.
pub fn merge_env(files: &[EnvVars]) -> (r: EnvVars)
    requires
        forall|i: int| 0 <= i < files@.len() ==> (#[trigger] files@[i]).wf(),
    ensures
        r.wf(),
        r@ == merged(file_views(files@)),
{
    let mut out = EnvVars::new();
    let mut i: usize = 0;
    while i < files.len()
        invariant
            i <= files@.len(),
            forall|j: int| 0 <= j < files@.len() ==> (#[trigger] files@[j]).wf(),
            out.wf(),
            out@ == merged(file_views(files@).take(i as int)),
        decreases files@.len() - i,
    {
        let ghost base = out@;
        let es = files[i].entries();
        let mut j: usize = 0;
        while j < es.len()
            invariant
                j <= es@.len(),
                out.wf(),
                out@ == base.union_prefer_right(entries_map(es@.take(j as int))),
            decreases es@.len() - j,
        {
            let ghost before = entries_map(es@.take(j as int));
            assert(es@.take(j + 1).drop_last() == es@.take(j as int));
            out.insert(es[j].0.clone(), es[j].1.clone());
            assert(out@ =~= base.union_prefer_right(entries_map(es@.take(j + 1))));
            j += 1;
        }
        assert(es@.take(es@.len() as int) == es@);
        assert(file_views(files@).take(i + 1).drop_last() == file_views(files@).take(i as int));
        i += 1;
    }
    assert(file_views(files@).take(files@.len() as int) == file_views(files@));
    out
}

/// Later `.env` files override earlier ones: a name takes its value from the
/// last file that sets it, and is set only where some file sets it.
pub proof fn law_later_file_overrides(files: Seq<Map<Seq<char>, Seq<char>>>, i: int, name: Seq<char>)
    requires
        0 <= i < files.len(),
        files[i].contains_key(name),
        forall|j: int| i < j < files.len() ==> !(#[trigger] files[j]).contains_key(name),
    ensures
        merged(files).contains_key(name),
        merged(files)[name] == files[i][name],
    decreases files.len(),
{
    if i < files.len() - 1 {
        let t = files.drop_last();
        assert forall|j: int| i < j < t.len() implies !(#[trigger] t[j]).contains_key(name) by {
            assert(t[j] == files[j]);
        }
        assert(t[i] == files[i]);
        law_later_file_overrides(t, i, name);
    }
}

/// A name that no file sets is not set by the merge.
pub proof fn law_unset_stays_unset(files: Seq<Map<Seq<char>, Seq<char>>>, name: Seq<char>)
    requires
        forall|j: int| 0 <= j < files.len() ==> !(#[trigger] files[j]).contains_key(name),
    ensures
        !merged(files).contains_key(name),
    decreases files.len(),
{
    if files.len() > 0 {
        let t = files.drop_last();
        assert forall|j: int| 0 <= j < t.len() implies !(#[trigger] t[j]).contains_key(name) by {
            assert(t[j] == files[j]);
        }
        law_unset_stays_unset(t, name);
    }
}

/// A value wrapped in a pair of matching quotes comes back unchanged,
/// whatever it holds, spaces at its ends included.
pub proof fn law_unquote_strips_quotes(v: Seq<char>, q: char)
    requires
        is_quote(q),
    ensures
        unquoted(seq![q] + v + seq![q]) == v,
{
    let s = seq![q] + v + seq![q];
    assert(!is_whitespace(q));
    assert(s[0] == q);
    assert(s.last() == q);
    assert(trim_start(s) == s);
    assert(trim_end(s) == s);
    assert(s.subrange(1, s.len() - 1) =~= v);
}

/// Text without `$` comes back unchanged from expansion, whatever the
/// variables: only references are expanded.
pub proof fn law_expand_plain_text(s: Seq<char>, vars: Map<Seq<char>, Seq<char>>)
    requires
        forall|k: int| 0 <= k < s.len() ==> s[k] != '$',
    ensures
        expand_from(s, 0, vars) == s,
{
    lemma_expand_plain_from(s, 0, vars);
    assert(s.subrange(0, s.len() as int) == s);
}

proof fn lemma_expand_plain_from(s: Seq<char>, i: int, vars: Map<Seq<char>, Seq<char>>)
    requires
        0 <= i <= s.len(),
        forall|k: int| 0 <= k < s.len() ==> s[k] != '$',
    ensures
        expand_from(s, i, vars) == s.subrange(i, s.len() as int),
    decreases s.len() - i,
{
    if i < s.len() {
        lemma_expand_plain_from(s, i + 1, vars);
        assert(s.subrange(i, s.len() as int) =~= seq![s[i]] + s.subrange(i + 1, s.len() as int));
    } else {
        assert(s.subrange(i, s.len() as int) =~= Seq::<char>::empty());
    }
}

/// An ASCII letter of either case, a digit or `_`.
pub open spec fn ascii_word_char(c: char) -> bool {
    ('a' <= c && c <= 'z') || ('A' <= c && c <= 'Z') || ('0' <= c && c <= '9') || c == '_'
}

/// A reference `$NAME`, where NAME is a run of ASCII letters (of either
/// case), digits and `_` that runs up to the end of the text or to a
/// character of no such kind, expands to the value that NAME has (nothing
/// when it is unset), and expansion goes on just after the name.
pub proof fn law_dollar_name_expands(s: Seq<char>, i: int, j: int, vars: Map<Seq<char>, Seq<char>>)
    requires
        0 <= i,
        i + 1 < j <= s.len(),
        s[i] == '$',
        forall|k: int| i < k < j ==> ascii_word_char(#[trigger] s[k]),
        j == s.len() || !ascii_word_char(s[j]),
    ensures
        expand_from(s, i, vars) == (if vars.contains_key(s.subrange(i + 1, j)) {
            vars[s.subrange(i + 1, j)]
        } else {
            Seq::<char>::empty()
        }) + expand_from(s, j, vars),
{
    lemma_name_run(s, i + 1, j);
}

proof fn lemma_name_run(s: Seq<char>, k: int, j: int)
    requires
        0 <= k <= j <= s.len(),
        forall|m: int| k <= m < j ==> ascii_word_char(#[trigger] s[m]),
        j == s.len() || !ascii_word_char(s[j]),
    ensures
        name_end(s, k) == j,
    decreases j - k,
{
    if k < j {
        assert(ascii_word_char(s[k]));
        lemma_name_run(s, k + 1, j);
    }
}

/// `${NAME}` expands to the value of NAME (nothing when it is unset), NAME
/// being everything up to the first `}`, and expansion goes on after the
/// `}`; `\$` gives a `$`; a `$` followed by neither `{` nor a name character
/// (or by nothing) stays as it is.
pub proof fn law_braces_escape_and_lone_dollar(s: Seq<char>, i: int, j: int, vars: Map<Seq<char>, Seq<char>>)
    requires
        0 <= i,
        i + 1 < s.len(),
    ensures
        s[i] == '$' && s[i + 1] == '{' && i + 2 <= j < s.len() && s[j] == '}'
            && (forall|k: int| i + 2 <= k < j ==> #[trigger] s[k] != '}')
            ==> expand_from(s, i, vars) == (if vars.contains_key(s.subrange(i + 2, j)) {
                vars[s.subrange(i + 2, j)]
            } else {
                Seq::<char>::empty()
            }) + expand_from(s, j + 1, vars),
        s[i] == '\\' && s[i + 1] == '$' ==> expand_from(s, i, vars) == seq!['$'] + expand_from(s, i + 2, vars),
        s[i] == '$' && s[i + 1] != '{' && !ascii_word_char(s[i + 1])
            ==> expand_from(s, i, vars) == seq!['$'] + expand_from(s, i + 1, vars),
{
    lemma_find_from(s, i + 2, '}');
}

/// A character of a plain value: an ASCII letter or digit, `_`, `.`, `/`,
/// `-` or `:`.
pub open spec fn plain_value_char(c: char) -> bool {
    ascii_word_char(c) || c == '.' || c == '/' || c == '-' || c == ':'
}

/// A line `KEY=value`, with a key of ASCII letters, digits and `_` and a
/// plain value, sets KEY to exactly that value and leaves every other
/// variable as it was.
pub proof fn law_plain_line(key: Seq<char>, v: Seq<char>, vars: Map<Seq<char>, Seq<char>>)
    requires
        key.len() > 0,
        forall|k: int| 0 <= k < key.len() ==> ascii_word_char(#[trigger] key[k]),
        forall|k: int| 0 <= k < v.len() ==> plain_value_char(#[trigger] v[k]),
    ensures
        env_line(key + seq!['='] + v, vars) == vars.insert(key, v),
{
    let line = key + seq!['='] + v;
    assert forall|k: int| 0 <= k < line.len() implies !is_whitespace(#[trigger] line[k]) && line[k] != '#'
        && !is_quote(line[k]) && line[k] != '$' by {
        if k < key.len() {
            assert(line[k] == key[k]);
        } else if k > key.len() {
            assert(line[k] == v[k - key.len() - 1]);
        }
    }
    lemma_trim_plain(line);
    assert(forall|k: int| 0 <= k < key.len() ==> line[k] == key[k] && key[k] != '=');
    lemma_find_first(line, 0, key.len() as int, '=');
    assert(line.subrange(0, key.len() as int) =~= key);
    assert(line.subrange((key.len() + 1) as int, line.len() as int) =~= v);
    assert forall|k: int| 0 <= k < key.len() implies !is_whitespace(#[trigger] key[k]) by {
        assert(line[k] == key[k]);
    }
    lemma_trim_plain(key);
    assert forall|k: int| 0 <= k < v.len() implies !is_whitespace(#[trigger] v[k]) && v[k] != '#'
        && !is_quote(v[k]) && v[k] != '$' by {
        assert(line[k + key.len() + 1] == v[k]);
    }
    lemma_trim_plain(v);
    lemma_no_comment(v, 1);
    law_expand_plain_text(v, vars);
}

proof fn lemma_trim_plain(s: Seq<char>)
    requires
        forall|k: int| 0 <= k < s.len() ==> !is_whitespace(#[trigger] s[k]),
    ensures
        trim(s) == s,
        trim_start(s) == s,
        trim_end(s) == s,
{
    if s.len() > 0 {
        assert(!is_whitespace(s[0]));
        assert(!is_whitespace(s.last()));
    }
}

proof fn lemma_find_first(s: Seq<char>, i: int, j: int, c: char)
    requires
        0 <= i <= j < s.len(),
        s[j] == c,
        forall|k: int| i <= k < j ==> s[k] != c,
    ensures
        find_from(s, i, c) == j,
    decreases j - i,
{
    if i < j {
        lemma_find_first(s, i + 1, j, c);
    }
}

proof fn lemma_no_comment(s: Seq<char>, j: int)
    requires
        1 <= j,
        forall|k: int| 0 <= k < s.len() ==> #[trigger] s[k] != '#',
    ensures
        comment_start(s, j) == s.len(),
    decreases s.len() - j,
{
    if j < s.len() {
        assert(s[j] != '#');
        lemma_no_comment(s, j + 1);
    }
}

/// A blank line, a comment line (one that starts with `#` once trimmed) and
/// a line without `=` set nothing.
pub proof fn law_lines_that_set_nothing(line: Seq<char>, vars: Map<Seq<char>, Seq<char>>)
    requires
        trim(line).len() == 0 || trim(line)[0] == '#' || (forall|k: int| 0 <= k < trim(line).len() ==> #[trigger] trim(line)[k] != '='),
    ensures
        env_line(line, vars) == vars,
{
    let l = trim(line);
    if l.len() > 0 && l[0] != '#' {
        lemma_find_from(l, 0, '=');
    }
}

/// A comment after a plain value, `KEY=value # note`, is dropped: the line
/// sets KEY to the value alone.
pub proof fn law_inline_comment_dropped(key: Seq<char>, v: Seq<char>, c: Seq<char>, vars: Map<Seq<char>, Seq<char>>)
    requires
        key.len() > 0,
        v.len() > 0,
        forall|k: int| 0 <= k < key.len() ==> ascii_word_char(#[trigger] key[k]),
        forall|k: int| 0 <= k < v.len() ==> plain_value_char(#[trigger] v[k]),
        forall|k: int| 0 <= k < c.len() ==> plain_value_char(#[trigger] c[k]),
    ensures
        env_line(key + seq!['='] + v + seq![' ', '#'] + c, vars) == vars.insert(key, v),
{
    let line = key + seq!['='] + v + seq![' ', '#'] + c;
    let n = key.len() as int;
    let m = v.len() as int;
    assert(line.len() == n + 1 + m + 2 + c.len());
    assert(line[0] == key[0]);
    assert(!is_whitespace(line[0]));
    if c.len() > 0 {
        assert(line.last() == c.last());
    } else {
        assert(line.last() == '#');
    }
    assert(!is_whitespace(line.last()));
    lemma_trim_ends(line);
    assert forall|k: int| 0 <= k < n implies #[trigger] line[k] == key[k] && key[k] != '=' by {}
    assert(line[n] == '=');
    lemma_find_first(line, 0, n, '=');
    assert(line.subrange(0, n) =~= key);
    assert forall|k: int| 0 <= k < key.len() implies !is_whitespace(#[trigger] key[k]) by {}
    lemma_trim_plain(key);
    let raw = line.subrange(n + 1, line.len() as int);
    assert(raw =~= v + seq![' ', '#'] + c);
    assert(raw[0] == v[0]);
    assert(!is_whitespace(raw[0]));
    assert(!is_whitespace(raw.last()));
    lemma_trim_ends(raw);
    assert(!is_quote(raw[0]));
    assert forall|k: int| 1 <= k < m + 1 implies !comment_at(raw, k) by {
        if k < m {
            assert(raw[k] == v[k]);
        } else {
            assert(raw[k] == ' ');
        }
    }
    assert(comment_at(raw, m + 1));
    lemma_comment_found(raw, 1, m + 1);
    assert(raw.subrange(0, m + 1) =~= v.push(' '));
    assert(v.push(' ').drop_last() =~= v);
    assert forall|k: int| 0 <= k < v.len() implies !is_whitespace(#[trigger] v[k]) && v[k] != '#'
        && !is_quote(v[k]) && v[k] != '$' by {}
    lemma_trim_plain(v);
    assert(trim_end(v.push(' ')) == trim_end(v));
    law_expand_plain_text(v, vars);
}

proof fn lemma_trim_ends(s: Seq<char>)
    requires
        s.len() > 0,
        !is_whitespace(s[0]),
        !is_whitespace(s.last()),
    ensures
        trim(s) == s,
{
}

proof fn lemma_comment_found(s: Seq<char>, j: int, t: int)
    requires
        1 <= j <= t < s.len(),
        comment_at(s, t),
        forall|k: int| j <= k < t ==> !comment_at(s, k),
    ensures
        comment_start(s, j) == t,
    decreases t - j,
{
    if j < t {
        lemma_comment_found(s, j + 1, t);
    }
}

} // verus!
