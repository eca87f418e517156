//! The pure parts of the `build` command: the target triple, the library's
//! file name, reading package manifests, and the TypeScript declarations
//! gathered from a native library.
use vstd::prelude::*;
use vstd::string::*;
use crate::cli::{copy_range, find_char, find_sub, find_sub_from, occurs, starts_with};
use crate::dotenv::find_from;
use crate::text::{
    char_is_whitespace, is_whitespace, chars_of, count_lines, line_bounds_with, line_count, line_text, newline_positions, newlines_of,
    push_char, str_eq, string_of, trim, trim_bounds,
};

verus! {

/// The target triple for an architecture and OS (as `std::env::consts` names
/// them) and a C environment name (`gnu`, `musl` or empty).
pub open spec fn target_triple(arch: Seq<char>, os: Seq<char>, env: Seq<char>) -> Seq<char> {
    let e = if env.len() == 0 { "gnu"@ } else { env };
    if arch == "x86_64"@ && os == "linux"@ {
        "x86_64-unknown-linux-"@ + e
    } else if arch == "aarch64"@ && os == "linux"@ {
        "aarch64-unknown-linux-"@ + e
    } else if arch == "x86_64"@ && os == "macos"@ {
        "x86_64-apple-darwin"@
    } else if arch == "aarch64"@ && os == "macos"@ {
        "aarch64-apple-darwin"@
    } else if arch == "x86_64"@ && os == "windows"@ {
        "x86_64-pc-windows-msvc"@
    } else {
        arch + "-unknown-"@ + os
    }
}

/// The target triple, as `target_triple` says.
pub fn detect_target_triple(arch: &str, os: &str, env: &str) -> (r: String)
    ensures
        r@ == target_triple(arch@, os@, env@),
{
    let e: &str = if env.unicode_len() == 0 { "gnu" } else { env };
    if str_eq(arch, "x86_64") && str_eq(os, "linux") {
        let mut s = String::from_str("x86_64-unknown-linux-");
        s.append(e);
        s
    } else if str_eq(arch, "aarch64") && str_eq(os, "linux") {
        let mut s = String::from_str("aarch64-unknown-linux-");
        s.append(e);
        s
    } else if str_eq(arch, "x86_64") && str_eq(os, "macos") {
        String::from_str("x86_64-apple-darwin")
    } else if str_eq(arch, "aarch64") && str_eq(os, "macos") {
        String::from_str("aarch64-apple-darwin")
    } else if str_eq(arch, "x86_64") && str_eq(os, "windows") {
        String::from_str("x86_64-pc-windows-msvc")
    } else {
        let mut s = String::from_str(arch);
        s.append("-unknown-");
        s.append(os);
        s
    }
}

/// `s` with each `-` replaced by `_`.
pub open spec fn underscored(s: Seq<char>) -> Seq<char> {
    s.map_values(|c: char| if c == '-' { '_' } else { c })
}

/// The file name of the dynamic library that the crate `crate_name` builds on `os`.
pub open spec fn lib_file_name(crate_name: Seq<char>, os: Seq<char>) -> Seq<char> {
    let n = underscored(crate_name);
    if os == "windows"@ {
        n + ".dll"@
    } else if os == "macos"@ {
        "lib"@ + n + ".dylib"@
    } else {
        "lib"@ + n + ".so"@
    }
}

/// The file name of the dynamic library, as `lib_file_name` says.
pub fn get_lib_filename(crate_name: &str, os: &str) -> (r: String)
    ensures
        r@ == lib_file_name(crate_name@, os@),
{
    let cs = chars_of(crate_name);
    let mut name = String::new();
    let mut i: usize = 0;
    while i < cs.len()
        invariant
            i <= cs@.len(),
            name@ == underscored(cs@.take(i as int)),
        decreases cs@.len() - i,
    {
        let c = cs[i];
        push_char(&mut name, if c == '-' { '_' } else { c });
        assert(underscored(cs@.take(i + 1)) =~= underscored(cs@.take(i as int)).push(
            if c == '-' { '_' } else { c },
        ));
        i += 1;
    }
    assert(cs@.take(cs@.len() as int) == cs@);
    if str_eq(os, "windows") {
        name.append(".dll");
        name
    } else if str_eq(os, "macos") {
        let mut s = String::from_str("lib");
        s.append(name.as_str());
        s.append(".dylib");
        s
    } else {
        let mut s = String::from_str("lib");
        s.append(name.as_str());
        s.append(".so");
        s
    }
}

/// `s` without the copies of `c` at its start.
pub open spec fn strip_start(s: Seq<char>, c: char) -> Seq<char>
    decreases s.len(),
{
    if s.len() > 0 && s[0] == c {
        strip_start(s.drop_first(), c)
    } else {
        s
    }
}

/// `s` without the copies of `c` at its end.
pub open spec fn strip_end(s: Seq<char>, c: char) -> Seq<char>
    decreases s.len(),
{
    if s.len() > 0 && s.last() == c {
        strip_end(s.drop_last(), c)
    } else {
        s
    }
}

/// `s` without the copies of `c` at either end, as `str::trim_matches` gives it.
pub open spec fn trim_matches(s: Seq<char>, c: char) -> Seq<char> {
    strip_end(strip_start(s, c), c)
}

/// The bounds of `cs[from..to]` once the copies of `c` at both ends are removed.
fn trim_matches_bounds(cs: &Vec<char>, from: usize, to: usize, c: char) -> (r: (usize, usize))
    requires
        from <= to <= cs@.len(),
    ensures
        from <= r.0 <= r.1 <= to,
        cs@.subrange(r.0 as int, r.1 as int) == trim_matches(cs@.subrange(from as int, to as int), c),
{
    let mut a = from;
    while a < to && cs[a] == c
        invariant
            from <= a <= to <= cs@.len(),
            strip_start(cs@.subrange(from as int, to as int), c) == strip_start(cs@.subrange(a as int, to as int), c),
        decreases to - a,
    {
        assert(cs@.subrange(a as int, to as int).drop_first() == cs@.subrange(a + 1, to as int));
        a += 1;
    }
    let mut b = to;
    while b > a && cs[b - 1] == c
        invariant
            from <= a <= b <= to <= cs@.len(),
            strip_end(cs@.subrange(a as int, to as int), c) == strip_end(cs@.subrange(a as int, b as int), c),
        decreases b,
    {
        assert(cs@.subrange(a as int, b as int).drop_last() == cs@.subrange(a as int, b - 1));
        b -= 1;
    }
    (a, b)
}

/// One line's effect on the scan for workspace members: the members found
/// so far and whether the scan is inside the `[workspace]` section.
pub open spec fn members_step(state: (Seq<Seq<char>>, bool), line: Seq<char>) -> (Seq<Seq<char>>, bool) {
    let t = trim(line);
    if starts_with(t, "[workspace]"@) {
        (state.0, true)
    } else {
        let inside = state.1 && !starts_with(t, "["@);
        if inside && starts_with(t, "\""@) {
            (state.0.push(trim_matches(trim_matches(t, '"'), ',')), inside)
        } else {
            (state.0, inside)
        }
    }
}

/// The scan for workspace members after the first `k` lines of `s`.
pub open spec fn members_after(s: Seq<char>, k: nat) -> (Seq<Seq<char>>, bool)
    decreases k,
{
    if k == 0 {
        (Seq::empty(), false)
    } else {
        members_step(members_after(s, (k - 1) as nat), line_text(s, k - 1))
    }
}

/// The members that a workspace manifest lists: in the `[workspace]`
/// section, each line that starts with `"`, without its quotes and commas.
pub open spec fn workspace_members_of(s: Seq<char>) -> Seq<Seq<char>> {
    members_after(s, line_count(s)).0
}

/// The views of a list of strings.
pub open spec fn string_views(v: Seq<String>) -> Seq<Seq<char>> {
    v.map_values(|s: String| s@)
}

/// The workspace members that `cargo_toml` lists, as `workspace_members_of` says.
pub fn workspace_members(cargo_toml: &str) -> (r: Vec<String>)
    ensures
        string_views(r@) == workspace_members_of(cargo_toml@),
{
    let cs = chars_of(cargo_toml);
    let nl = newlines_of(&cs);
    let count = count_lines(&cs, &nl);
    let ws = chars_of("[workspace]");
    let open = chars_of("[");
    let quote = chars_of("\"");
    let mut members: Vec<String> = Vec::new();
    let mut inside = false;
    let mut k: usize = 0;
    while k < count
        invariant
            cs@ == cargo_toml@,
            ws@ == "[workspace]"@,
            open@ == "["@,
            quote@ == "\""@,
            nl@.len() == newline_positions(cs@).len(),
            forall|j: int| 0 <= j < nl@.len() ==> nl@[j] as int == #[trigger] newline_positions(cs@)[j],
            count == line_count(cs@),
            k <= count,
            (string_views(members@), inside) == members_after(cs@, k as nat),
        decreases count - k,
    {
        match line_bounds_with(&cs, &nl, k + 1) {
            None => {
                assert(false);
            },
            Some((a, b)) => {
                let ghost line = cs@.subrange(a as int, b as int);
                assert(line == line_text(cs@, k as int));
                let (c, d) = trim_bounds(&cs, a, b);
                let t = copy_range(&cs, c, d);
                let ghost before = string_views(members@);
                if occurs(&t, &ws, 0) {
                    inside = true;
                } else {
                    if inside && occurs(&t, &open, 0) {
                        inside = false;
                    }
                    if inside && occurs(&t, &quote, 0) {
                        let (p, q) = trim_matches_bounds(&cs, c, d, '"');
                        let (u, v) = trim_matches_bounds(&cs, p, q, ',');
                        let m = crate::text::string_of_range(&cs, u, v);
                        members.push(m);
                        assert(string_views(members@) =~= before.push(cs@.subrange(u as int, v as int)));
                    }
                }
            },
        }
        k += 1;
    }
    members
}

/// The value of a `name = …` line (already trimmed): the text between the
/// first `=` and the next, trimmed, without quotes at its ends.
pub open spec fn name_value(t: Seq<char>) -> Option<Seq<char>> {
    let p = find_from(t, 0, '=');
    if starts_with(t, "name"@) && p < t.len() {
        let q = find_from(t, p + 1, '=');
        Some(trim_matches(trim(t.subrange(p + 1, q)), '"'))
    } else {
        None
    }
}

/// The package name given on the first `name = …` line of `s` from line `k` on.
pub open spec fn package_name_from(s: Seq<char>, k: int) -> Option<Seq<char>>
    decreases line_count(s) - k,
{
    if k < 0 || k >= line_count(s) {
        None
    } else {
        match name_value(trim(line_text(s, k))) {
            Some(n) => Some(n),
            None => package_name_from(s, k + 1),
        }
    }
}

/// The package name of a library crate's manifest: where the manifest
/// mentions `cdylib`, the value of its first `name = …` line.
pub open spec fn cdylib_name_of(s: Seq<char>) -> Option<Seq<char>> {
    if find_sub_from(s, "cdylib"@, 0) >= 0 {
        package_name_from(s, 0)
    } else {
        None
    }
}

/// The package name of a `cdylib` crate's manifest, as `cdylib_name_of` says.
pub fn cdylib_package_name(member_toml: &str) -> (r: Option<String>)
    ensures
        match r {
            Some(n) => cdylib_name_of(member_toml@) == Some(n@),
            None => cdylib_name_of(member_toml@) is None,
        },
{
    let cs = chars_of(member_toml);
    let pat = chars_of("cdylib");
    if find_sub(&cs, &pat).is_none() {
        return None;
    }
    let nl = newlines_of(&cs);
    let count = count_lines(&cs, &nl);
    let name = chars_of("name");
    let mut k: usize = 0;
    while k < count
        invariant
            cs@ == member_toml@,
            name@ == "name"@,
            find_sub_from(cs@, "cdylib"@, 0) >= 0,
            nl@.len() == newline_positions(cs@).len(),
            forall|j: int| 0 <= j < nl@.len() ==> nl@[j] as int == #[trigger] newline_positions(cs@)[j],
            count == line_count(cs@),
            k <= count,
            package_name_from(cs@, 0) == package_name_from(cs@, k as int),
        decreases count - k,
    {
        match line_bounds_with(&cs, &nl, k + 1) {
            None => {
                assert(false);
            },
            Some((a, b)) => {
                assert(cs@.subrange(a as int, b as int) == line_text(cs@, k as int));
                let (c, d) = trim_bounds(&cs, a, b);
                let t = copy_range(&cs, c, d);
                let p = find_char(&t, 0, '=');
                if occurs(&t, &name, 0) && p < t.len() {
                    let q = find_char(&t, p + 1, '=');
                    let (u, v) = trim_bounds(&t, p + 1, q);
                    let (x, y) = trim_matches_bounds(&t, u, v, '"');
                    return Some(crate::text::string_of_range(&t, x, y));
                }
            },
        }
        k += 1;
    }
    None
}

/// The first position from `i` that holds no whitespace, or the end of `s`.
pub open spec fn skip_space(s: Seq<char>, i: int) -> int
    decreases s.len() - i,
{
    if i >= s.len() || (0 <= i && !is_whitespace(s[i])) || i < 0 {
        i
    } else {
        skip_space(s, i + 1)
    }
}

/// The first position from `i` that holds whitespace, or the end of `s`.
pub open spec fn word_end(s: Seq<char>, i: int) -> int
    decreases s.len() - i,
{
    if i >= s.len() || i < 0 || is_whitespace(s[i]) {
        i
    } else {
        word_end(s, i + 1)
    }
}

/// The word `n` (from 0) of `s` after position `i`, words being the runs of
/// non-whitespace that `str::split_whitespace` gives.
pub open spec fn nth_word(s: Seq<char>, i: int, n: nat) -> Option<Seq<char>>
    decreases n,
{
    let a = skip_space(s, i);
    if a >= s.len() {
        None
    } else {
        let b = word_end(s, a);
        if n == 0 {
            Some(s.subrange(a, b))
        } else {
            nth_word(s, b, (n - 1) as nat)
        }
    }
}

proof fn lemma_skip_space(s: Seq<char>, i: int)
    requires
        0 <= i <= s.len(),
    ensures
        i <= skip_space(s, i) <= s.len(),
    decreases s.len() - i,
{
    if i < s.len() && is_whitespace(s[i]) {
        lemma_skip_space(s, i + 1);
    }
}

proof fn lemma_word_end(s: Seq<char>, i: int)
    requires
        0 <= i <= s.len(),
    ensures
        i <= word_end(s, i) <= s.len(),
    decreases s.len() - i,
{
    if i < s.len() && !is_whitespace(s[i]) {
        lemma_word_end(s, i + 1);
    }
}

/// The bounds of the third word of `t`, as `nth_word(t, 0, 2)` gives it.
fn third_word(t: &Vec<char>) -> (r: Option<(usize, usize)>)
    ensures
        match nth_word(t@, 0, 2) {
            Some(w) => r matches Some((a, b)) && a <= b <= t@.len() && t@.subrange(a as int, b as int) == w,
            None => r is None,
        },
{
    let n = t.len();
    let mut pos: usize = 0;
    let mut k: usize = 0;
    loop
        invariant
            k <= 2,
            pos <= n,
            n == t@.len(),
            nth_word(t@, 0, 2) == nth_word(t@, pos as int, (2 - k) as nat),
        decreases 2 - k,
    {
        let mut a = pos;
        proof {
            lemma_skip_space(t@, pos as int);
        }
        while a < n && char_is_whitespace(t[a])
            invariant
                pos <= a <= n,
                n == t@.len(),
                skip_space(t@, a as int) == skip_space(t@, pos as int),
            decreases n - a,
        {
            a += 1;
        }
        if a >= n {
            return None;
        }
        let mut b = a;
        proof {
            lemma_word_end(t@, a as int);
        }
        while b < n && !char_is_whitespace(t[b])
            invariant
                a <= b <= n,
                n == t@.len(),
                word_end(t@, b as int) == word_end(t@, a as int),
            decreases n - b,
        {
            b += 1;
        }
        if k == 2 {
            return Some((a, b));
        }
        pos = b;
        k += 1;
    }
}

/// The declaration symbol that a line of `nm` output names: its third word,
/// where that starts with `__TAILS_DTS_`.
pub open spec fn dts_symbol_of(line: Seq<char>) -> Option<Seq<char>> {
    match nth_word(line, 0, 2) {
        Some(w) => if starts_with(w, "__TAILS_DTS_"@) {
            Some(w)
        } else {
            None
        },
        None => None,
    }
}

/// The declaration symbols of the first `k` lines of `s`, in order.
pub open spec fn dts_symbols_upto(s: Seq<char>, k: nat) -> Seq<Seq<char>>
    decreases k,
{
    if k == 0 {
        Seq::empty()
    } else {
        let prev = dts_symbols_upto(s, (k - 1) as nat);
        match dts_symbol_of(line_text(s, k - 1)) {
            Some(w) => prev.push(w),
            None => prev,
        }
    }
}

/// Whether `a` comes before `b` in the order of their characters' code
/// points, a prefix first.
pub open spec fn lex_lt(a: Seq<char>, b: Seq<char>) -> bool
    decreases a.len(),
{
    if a.len() == 0 {
        b.len() > 0
    } else if b.len() == 0 {
        false
    } else if a[0] != b[0] {
        (a[0] as u32) < (b[0] as u32)
    } else {
        lex_lt(a.drop_first(), b.drop_first())
    }
}

/// No text of `s` comes before an earlier one.
pub open spec fn sorted_views(s: Seq<Seq<char>>) -> bool {
    forall|i: int, j: int| 0 <= i < j < s.len() ==> !lex_lt(#[trigger] s[j], #[trigger] s[i])
}

/// Sorts `v`.
///
/// Trusted: calls `slice::sort`, which the documentation says sorts the
/// slice by `Ord` and only reorders it; `Ord` on `String` compares bytes
/// lexicographically, which for UTF-8 text is the order of the characters'
/// code points. The contract states both: the same texts, in that order.
#[verifier::external_body]
fn sort_strings(v: &mut Vec<String>)
    ensures
        string_views(final(v)@).to_multiset() == string_views(old(v)@).to_multiset(),
        sorted_views(string_views(final(v)@)),
{
    v.sort();
}

/// The declaration symbols that `nm -D` printed, sorted: the third word of
/// each line, where it starts with `__TAILS_DTS_`.
pub fn dts_symbols(nm_output: &str) -> (r: Vec<String>)
    ensures
        string_views(r@).to_multiset() == dts_symbols_upto(nm_output@, line_count(nm_output@)).to_multiset(),
        sorted_views(string_views(r@)),
{
    let cs = chars_of(nm_output);
    let nl = newlines_of(&cs);
    let count = count_lines(&cs, &nl);
    let prefix = chars_of("__TAILS_DTS_");
    let mut symbols: Vec<String> = Vec::new();
    let mut k: usize = 0;
    while k < count
        invariant
            cs@ == nm_output@,
            prefix@ == "__TAILS_DTS_"@,
            nl@.len() == newline_positions(cs@).len(),
            forall|j: int| 0 <= j < nl@.len() ==> nl@[j] as int == #[trigger] newline_positions(cs@)[j],
            count == line_count(cs@),
            k <= count,
            string_views(symbols@) == dts_symbols_upto(cs@, k as nat),
        decreases count - k,
    {
        match line_bounds_with(&cs, &nl, k + 1) {
            None => {
                assert(false);
            },
            Some((a, b)) => {
                let t = copy_range(&cs, a, b);
                assert(t@ == line_text(cs@, k as int));
                let ghost before = string_views(symbols@);
                match third_word(&t) {
                    Some((u, v)) => {
                        let w = copy_range(&t, u, v);
                        if occurs(&w, &prefix, 0) {
                            symbols.push(string_of(&w));
                            assert(string_views(symbols@) =~= before.push(w@));
                        }
                    },
                    None => {},
                }
            },
        }
        k += 1;
    }
    sort_strings(&mut symbols);
    symbols
}

/// `s` without its empty texts.
pub open spec fn non_empty(s: Seq<Seq<char>>) -> Seq<Seq<char>>
    decreases s.len(),
{
    if s.len() == 0 {
        Seq::empty()
    } else if s.last().len() > 0 {
        non_empty(s.drop_last()).push(s.last())
    } else {
        non_empty(s.drop_last())
    }
}

/// `s` without the texts equal to the one before them.
pub open spec fn dedup_views(s: Seq<Seq<char>>) -> Seq<Seq<char>>
    decreases s.len(),
{
    if s.len() <= 1 {
        s
    } else if s.last() == s[s.len() - 2] {
        dedup_views(s.drop_last())
    } else {
        dedup_views(s.drop_last()).push(s.last())
    }
}

/// The texts of `s`, each followed by a newline.
pub open spec fn lines_text(s: Seq<Seq<char>>) -> Seq<char>
    decreases s.len(),
{
    if s.len() == 0 {
        Seq::empty()
    } else {
        lines_text(s.drop_last()) + s.last() + "\n"@
    }
}

/// The first line of a generated declaration file, and a blank line.
pub open spec fn dts_header(package_name: Seq<char>) -> Seq<char> {
    "// Auto-generated TypeScript definitions for "@ + package_name + "\n\n"@
}

/// The declaration file for `package_name` from the declaration texts that
/// its library exports: the header, then the non-empty texts sorted, each
/// once, one per line.
pub fn dts_text(package_name: &str, entries: Vec<String>) -> (r: String)
    ensures
        exists|sorted: Seq<Seq<char>>|
            #![trigger sorted_views(sorted)]
            sorted.to_multiset() == non_empty(string_views(entries@)).to_multiset() && sorted_views(sorted)
                && r@ == dts_header(package_name@) + lines_text(dedup_views(sorted)),
{
    let mut kept: Vec<String> = Vec::new();
    let mut i: usize = 0;
    while i < entries.len()
        invariant
            i <= entries@.len(),
            string_views(kept@) == non_empty(string_views(entries@).take(i as int)),
        decreases entries@.len() - i,
    {
        let ghost before = string_views(kept@);
        assert(string_views(entries@).take(i + 1).drop_last() == string_views(entries@).take(i as int));
        if entries[i].unicode_len() > 0 {
            kept.push(entries[i].clone());
            assert(string_views(kept@) =~= before.push(entries@[i as int]@));
        }
        i += 1;
    }
    assert(string_views(entries@).take(entries@.len() as int) == string_views(entries@));
    sort_strings(&mut kept);
    let ghost sorted = string_views(kept@);
    let mut out = String::from_str("// Auto-generated TypeScript definitions for ");
    out.append(package_name);
    out.append("\n\n");
    let ghost head = out@;
    let mut j: usize = 0;
    while j < kept.len()
        invariant
            j <= kept@.len(),
            sorted == string_views(kept@),
            head == dts_header(package_name@),
            out@ == head + lines_text(dedup_views(sorted.take(j as int))),
        decreases kept@.len() - j,
    {
        let ghost prev = sorted.take(j as int);
        let ghost next = sorted.take(j + 1);
        assert(next.drop_last() == prev);
        assert(next.last() == kept@[j as int]@);
        let fresh = j == 0 || !str_eq(kept[j].as_str(), kept[j - 1].as_str());
        if fresh {
            out.append(kept[j].as_str());
            out.append("\n");
            proof {
                if j > 0 {
                    assert(next[next.len() - 2] == kept@[j - 1]@);
                }
                let ghost d = dedup_views(prev);
                assert(dedup_views(next) == d.push(kept@[j as int]@));
                assert(d.push(kept@[j as int]@).drop_last() == d);
                assert(lines_text(dedup_views(next)) =~= lines_text(d) + kept@[j as int]@ + "\n"@);
            }
        } else {
            assert(next[next.len() - 2] == kept@[j - 1]@);
        }
        j += 1;
    }
    assert(sorted.take(kept@.len() as int) == sorted);
    out
}

/// The declaration file for a library that exports no declaration texts.
pub fn dts_placeholder(package_name: &str) -> (r: String)
    ensures
        r@ == "// Auto-generated TypeScript definitions for "@ + package_name@
            + "\n// No metadata symbols found in the library.\n// Add #[used] static __TAILS_DTS_* strings to your Rust module.\n"@,
{
    let mut out = String::from_str("// Auto-generated TypeScript definitions for ");
    out.append(package_name);
    out.append("\n// No metadata symbols found in the library.\n// Add #[used] static __TAILS_DTS_* strings to your Rust module.\n");
    out
}

/// The options of the `build` command.
pub struct BuildOptions {
    pub package: Option<String>,
    pub release: bool,
    pub target_dir: Option<String>,
}

/// An optional text as a plain value.
pub open spec fn opt_view(o: Option<String>) -> Option<Seq<char>> {
    match o {
        Some(s) => Some(s@),
        None => None,
    }
}

/// The options as plain values: package, release, target directory.
pub open spec fn build_view(o: BuildOptions) -> (Option<Seq<char>>, bool, Option<Seq<char>>) {
    (opt_view(o.package), o.release, opt_view(o.target_dir))
}

/// The argument at `j`, if there is one.
pub open spec fn arg_at(args: Seq<Seq<char>>, j: int) -> Option<Seq<char>> {
    if 0 <= j < args.len() {
        Some(args[j])
    } else {
        None
    }
}

/// The build options that `args[i..]` give on top of `st`: `--package`/`-p`
/// and `--target-dir` take the next argument (none where it is missing),
/// `--release` sets release mode, anything else is passed over.
pub open spec fn build_scan(args: Seq<Seq<char>>, i: int, st: (Option<Seq<char>>, bool, Option<Seq<char>>)) -> (
    Option<Seq<char>>,
    bool,
    Option<Seq<char>>,
)
    decreases args.len() + 1 - i,
{
    if i < 0 || i >= args.len() {
        st
    } else if args[i] == "--package"@ || args[i] == "-p"@ {
        build_scan(args, i + 2, (arg_at(args, i + 1), st.1, st.2))
    } else if args[i] == "--release"@ {
        build_scan(args, i + 1, (st.0, true, st.2))
    } else if args[i] == "--target-dir"@ {
        build_scan(args, i + 2, (st.0, st.1, arg_at(args, i + 1)))
    } else {
        build_scan(args, i + 1, st)
    }
}

/// The argument at `j` copied, if there is one.
fn copy_arg(args: &[String], j: usize) -> (r: Option<String>)
    ensures
        opt_view(r) == arg_at(crate::path::views(args@), j as int),
{
    if j < args.len() {
        Some(args[j].clone())
    } else {
        None
    }
}

/// The options of the `build` command from the arguments that follow it.
pub fn parse_build_args(args: &[String]) -> (r: BuildOptions)
    ensures
        build_view(r) == build_scan(crate::path::views(args@), 0, (None, false, None)),
{
    let ghost v = crate::path::views(args@);
    let mut package: Option<String> = None;
    let mut release = false;
    let mut target_dir: Option<String> = None;
    let mut i: usize = 0;
    while i < args.len()
        invariant
            v == crate::path::views(args@),
            i <= args@.len(),
            build_scan(v, i as int, (opt_view(package), release, opt_view(target_dir))) == build_scan(
                v,
                0,
                (None, false, None),
            ),
        decreases args@.len() - i,
    {
        let a = args[i].as_str();
        assert(v[i as int] == a@);
        if str_eq(a, "--package") || str_eq(a, "-p") {
            let ghost st = (opt_view(package), release, opt_view(target_dir));
            let ghost j = i as int;
            package = copy_arg(args, i + 1);
            let ghost st2 = (opt_view(package), release, opt_view(target_dir));
            assert(build_scan(v, j, st) == build_scan(v, j + 2, st2));
            i += 1;
            if i < args.len() {
                i += 1;
            } else {
                assert(build_scan(v, j + 2, st2) == st2);
            }
        } else if str_eq(a, "--release") {
            release = true;
            i += 1;
        } else if str_eq(a, "--target-dir") {
            let ghost st = (opt_view(package), release, opt_view(target_dir));
            let ghost j = i as int;
            target_dir = copy_arg(args, i + 1);
            let ghost st2 = (opt_view(package), release, opt_view(target_dir));
            assert(build_scan(v, j, st) == build_scan(v, j + 2, st2));
            i += 1;
            if i < args.len() {
                i += 1;
            } else {
                assert(build_scan(v, j + 2, st2) == st2);
            }
        } else {
            i += 1;
        }
    }
    BuildOptions { package, release, target_dir }
}

} // verus!
