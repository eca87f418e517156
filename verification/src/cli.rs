//! Logic of the command-line tool: reading its arguments, the clock shown in
//! watch mode, when watch mode runs the script again, and finding the
//! relative imports of a script.
use vstd::prelude::*;
use vstd::string::*;
use crate::dotenv::find_from;
use crate::process::since_epoch;
use crate::text::{
    chars_of, count_lines, decimal, digits_value, law_zero_padded_reads_back, line_bounds_with, line_count, line_text, newline_positions, newlines_of, push_char,
    push_decimal, str_eq, string_of_range, trim, trim_bounds, zero_padded,
};
use crate::cli::native_build::{build_scan, build_view, parse_build_args, opt_view, BuildOptions};
use crate::path::{ends_with, views};

pub mod native_build;

verus! {

/// Appends `n < 100` with at least two digits.
fn push_two_digits(s: &mut String, n: u64)
    requires
        n < 100,
    ensures
        final(s)@ == old(s)@ + zero_padded(n as nat, 2),
{
    if n < 10 {
        push_char(s, '0');
        assert(decimal(n as nat) == seq![crate::text::digit_char(n as nat)]);
        push_decimal(s, n);
        assert(Seq::new(1, |i: int| '0') =~= seq!['0']);
    } else {
        push_decimal(s, n);
        assert(decimal(n as nat).len() == 2) by {
            assert(decimal((n / 10) as nat).len() == 1);
        }
    }
}

/// `HH:MM:SS` of the time of day (UTC) that `secs` seconds after the epoch fall on.
pub open spec fn clock_text(secs: nat) -> Seq<char> {
    zero_padded((secs / 3600) % 24, 2) + ":"@ + zero_padded((secs / 60) % 60, 2) + ":"@
        + zero_padded(secs % 60, 2)
}

/// The time of day as `HH:MM:SS` for `secs` seconds after the epoch.
pub fn clock_time(secs: u64) -> (r: String)
    ensures
        r@ == clock_text(secs as nat),
{
    let mut out = String::new();
    push_two_digits(&mut out, (secs / 3600) % 24);
    out.append(":");
    push_two_digits(&mut out, (secs / 60) % 60);
    out.append(":");
    push_two_digits(&mut out, secs % 60);
    assert(out@ =~= clock_text(secs as nat));
    out
}

/// The current time of day as `HH:MM:SS`.
pub fn now_timestamp() -> (r: String)
    ensures
        exists|secs: u64| r@ == #[trigger] clock_text(secs as nat),
{
    let (secs, _) = since_epoch();
    clock_time(secs)
}

/// Whether `p` occurs in `s` at position `i`.
pub open spec fn occurs_at(s: Seq<char>, p: Seq<char>, i: int) -> bool {
    0 <= i && i + p.len() <= s.len() && s.subrange(i, i + p.len()) == p
}

/// The first position at or after `i` where `p` occurs in `s`, or -1.
pub open spec fn find_sub_from(s: Seq<char>, p: Seq<char>, i: int) -> int
    decreases s.len() + 1 - i,
{
    if i < 0 || i + p.len() > s.len() {
        -1
    } else if occurs_at(s, p, i) {
        i
    } else {
        find_sub_from(s, p, i + 1)
    }
}

/// Whether `s` starts with `p`.
pub open spec fn starts_with(s: Seq<char>, p: Seq<char>) -> bool {
    occurs_at(s, p, 0)
}

/// The texts after which an import specifier starts, in the order they are tried.
pub open spec fn import_patterns() -> Seq<Seq<char>> {
    seq!["from \""@, "from '"@, "import \""@, "import '"@, "require(\""@, "require('"@]
}

/// The relative specifier that follows the first `pattern` in `t`, if any: it
/// ends at the first `"` after the pattern (or, where there is none, the first
/// `'`) and must start with `./` or `../`.
pub open spec fn import_after(t: Seq<char>, pattern: Seq<char>) -> Option<Seq<char>> {
    let idx = find_sub_from(t, pattern, 0);
    if idx < 0 {
        None
    } else {
        let rest = t.subrange(idx + pattern.len(), t.len() as int);
        let dq = find_from(rest, 0, '"');
        let end = if dq < rest.len() { dq } else { find_from(rest, 0, '\'') };
        if end < rest.len() {
            let p = rest.subrange(0, end);
            if starts_with(p, "./"@) || starts_with(p, "../"@) {
                Some(p)
            } else {
                None
            }
        } else {
            None
        }
    }
}

/// The present values of `s`, in order.
pub open spec fn somes(s: Seq<Option<Seq<char>>>) -> Seq<Seq<char>>
    decreases s.len(),
{
    if s.len() == 0 {
        Seq::empty()
    } else {
        match s.last() {
            Some(p) => somes(s.drop_last()).push(p),
            None => somes(s.drop_last()),
        }
    }
}

/// The relative imports that one line of a script names, pattern by pattern;
/// none for a `//` comment line.
pub open spec fn line_imports_of(line: Seq<char>) -> Seq<Seq<char>> {
    let t = trim(line);
    if starts_with(t, "//"@) {
        Seq::empty()
    } else {
        somes(import_patterns().map_values(|pat: Seq<char>| import_after(t, pat)))
    }
}

/// Whether `p` occurs in `t` at `i`.
pub(crate) fn occurs(t: &Vec<char>, p: &Vec<char>, i: usize) -> (r: bool)
    ensures
        r == occurs_at(t@, p@, i as int),
{
    if i > t.len() || p.len() > t.len() - i {
        return false;
    }
    let mut k: usize = 0;
    while k < p.len()
        invariant
            i + p.len() <= t.len(),
            k <= p@.len(),
            forall|j: int| 0 <= j < k ==> t@[i + j] == p@[j],
        decreases p@.len() - k,
    {
        if t[i + k] != p[k] {
            assert(t@.subrange(i as int, i + p@.len())[k as int] != p@[k as int]);
            return false;
        }
        k += 1;
    }
    assert(t@.subrange(i as int, i + p@.len()) =~= p@);
    true
}

/// The first position of `p` in `t`.
pub(crate) fn find_sub(t: &Vec<char>, p: &Vec<char>) -> (r: Option<usize>)
    ensures
        match r {
            Some(i) => find_sub_from(t@, p@, 0) == i && occurs_at(t@, p@, i as int),
            None => find_sub_from(t@, p@, 0) < 0,
        },
{
    let mut i: usize = 0;
    while i <= t.len() && p.len() <= t.len() - i
        invariant
            find_sub_from(t@, p@, i as int) == find_sub_from(t@, p@, 0),
        decreases t@.len() + 1 - i,
    {
        if occurs(t, p, i) {
            return Some(i);
        }
        if i == t.len() {
            assert(t@.subrange(i as int, i as int) =~= p@);
            assert(false);
        }
        i += 1;
    }
    None
}

/// The first position at or after `from` where `v` holds `c`, or `v.len()`.
pub(crate) fn find_char(v: &Vec<char>, from: usize, c: char) -> (r: usize)
    requires
        from <= v@.len(),
    ensures
        r == find_from(v@, from as int, c),
        from <= r <= v@.len(),
{
    let mut j = from;
    while j < v.len() && v[j] != c
        invariant
            from <= j <= v@.len(),
            find_from(v@, j as int, c) == find_from(v@, from as int, c),
        decreases v@.len() - j,
    {
        j += 1;
    }
    j
}

/// A vector holding `cs[from..to]`.
pub(crate) fn copy_range(cs: &Vec<char>, from: usize, to: usize) -> (r: Vec<char>)
    requires
        from <= to <= cs@.len(),
    ensures
        r@ == cs@.subrange(from as int, to as int),
{
    let mut r: Vec<char> = Vec::new();
    let mut i = from;
    while i < to
        invariant
            from <= i <= to <= cs@.len(),
            r@ == cs@.subrange(from as int, i as int),
        decreases to - i,
    {
        r.push(cs[i]);
        assert(cs@.subrange(from as int, i + 1) == cs@.subrange(from as int, i as int).push(cs@[i as int]));
        i += 1;
    }
    r
}

/// The relative specifier after the first `pattern` in `t`.
fn import_after_exec(t: &Vec<char>, pattern: &str) -> (r: Option<String>)
    ensures
        match r {
            Some(s) => import_after(t@, pattern@) == Some(s@),
            None => import_after(t@, pattern@) is None,
        },
{
    let pc = chars_of(pattern);
    match find_sub(t, &pc) {
        None => None,
        Some(idx) => {
            assert(idx + pc@.len() <= t@.len());
            assert(t@.len() == t.len());
            let start = idx + pc.len();
            let rest = copy_range(t, start, t.len());
            let dq = find_char(&rest, 0, '"');
            let end = if dq < rest.len() { dq } else { find_char(&rest, 0, '\'') };
            if end < rest.len() {
                let p = copy_range(&rest, 0, end);
                let dot = chars_of("./");
                let dotdot = chars_of("../");
                if occurs(&p, &dot, 0) || occurs(&p, &dotdot, 0) {
                    Some(crate::text::string_of(&p))
                } else {
                    None
                }
            } else {
                None
            }
        },
    }
}

/// The relative imports (`./…` or `../…`) that one line of a script names
/// after `from`, `import` or `require(`, in the order of those patterns.
pub fn line_imports(line: &str) -> (r: Vec<String>)
    ensures
        r@.map_values(|s: String| s@) == line_imports_of(line@),
{
    let cs = chars_of(line);
    let (a, b) = trim_bounds(&cs, 0, cs.len());
    assert(cs@.subrange(0, cs@.len() as int) == cs@);
    let t = copy_range(&cs, a, b);
    let mut out: Vec<String> = Vec::new();
    let slashes = chars_of("//");
    if occurs(&t, &slashes, 0) {
        assert(out@.map_values(|s: String| s@) =~= Seq::<Seq<char>>::empty());
        return out;
    }
    let ghost opts = import_patterns().map_values(|pat: Seq<char>| import_after(t@, pat));
    let r1 = import_after_exec(&t, "from \"");
    let r2 = import_after_exec(&t, "from '");
    let r3 = import_after_exec(&t, "import \"");
    let r4 = import_after_exec(&t, "import '");
    let r5 = import_after_exec(&t, "require(\"");
    let r6 = import_after_exec(&t, "require('");
    if let Some(s) = r1 { out.push(s); }
    if let Some(s) = r2 { out.push(s); }
    if let Some(s) = r3 { out.push(s); }
    if let Some(s) = r4 { out.push(s); }
    if let Some(s) = r5 { out.push(s); }
    if let Some(s) = r6 { out.push(s); }
    proof {
        reveal_with_fuel(somes, 7);
        assert(opts.drop_last().drop_last().drop_last().drop_last().drop_last().drop_last() =~= Seq::<Option<Seq<char>>>::empty());
        assert(out@.map_values(|s: String| s@) =~= somes(opts));
    }
    out
}

/// The options of the `run` command.
pub struct RunOptions {
    pub watch: bool,
    pub no_color: bool,
    pub timestamps: bool,
    pub no_env_file: bool,
    pub env_file: Option<String>,
    pub script: Option<String>,
}

/// What the command line asks for.
pub enum Command {
    Help,
    Build(BuildOptions),
    Clean,
    Run(RunOptions),
    Unknown(String),
}

/// The run options as plain values: watch, no color, timestamps, no env
/// file, the env file given, the script.
pub open spec fn run_view(o: RunOptions) -> (bool, bool, bool, bool, Option<Seq<char>>, Option<Seq<char>>) {
    (o.watch, o.no_color, o.timestamps, o.no_env_file, opt_view(o.env_file), opt_view(o.script))
}

/// What the command line asks for, as plain values.
pub enum CommandView {
    Help,
    Build((Option<Seq<char>>, bool, Option<Seq<char>>)),
    Clean,
    Run((bool, bool, bool, bool, Option<Seq<char>>, Option<Seq<char>>)),
    Unknown(Seq<char>),
}

/// A command as plain values.
pub open spec fn command_view(c: Command) -> CommandView {
    match c {
        Command::Help => CommandView::Help,
        Command::Build(o) => CommandView::Build(build_view(o)),
        Command::Clean => CommandView::Clean,
        Command::Run(o) => CommandView::Run(run_view(o)),
        Command::Unknown(a) => CommandView::Unknown(a@),
    }
}

/// Whether `a` is one of `args`.
pub open spec fn has_arg(args: Seq<Seq<char>>, a: Seq<char>) -> bool {
    exists|i: int| 0 <= i < args.len() && args[i] == a
}

/// The argument after the first `--env-file` from `i` on that has one.
pub open spec fn env_file_from(args: Seq<Seq<char>>, i: int) -> Option<Seq<char>>
    decreases args.len() - i,
{
    if i < 0 || i + 1 >= args.len() {
        None
    } else if args[i] == "--env-file"@ {
        Some(args[i + 1])
    } else {
        env_file_from(args, i + 1)
    }
}

/// Whether `args[i]` may name the script: no flag, and not the value of `--env-file`.
pub open spec fn is_script_at(args: Seq<Seq<char>>, i: int) -> bool {
    &&& args[i] != "--env-file"@
    &&& !(i > 0 && args[i - 1] == "--env-file"@)
    &&& !starts_with(args[i], "-"@)
}

/// The first argument from `i` on that may name the script.
pub open spec fn script_from(args: Seq<Seq<char>>, i: int) -> Option<Seq<char>>
    decreases args.len() - i,
{
    if i < 0 || i >= args.len() {
        None
    } else if is_script_at(args, i) {
        Some(args[i])
    } else {
        script_from(args, i + 1)
    }
}

/// The run options that `args` give.
pub open spec fn run_of(args: Seq<Seq<char>>) -> (bool, bool, bool, bool, Option<Seq<char>>, Option<Seq<char>>) {
    (
        has_arg(args, "--watch"@) || has_arg(args, "-w"@),
        has_arg(args, "--no-color"@),
        has_arg(args, "--timestamps"@),
        has_arg(args, "--no-env-file"@),
        env_file_from(args, 0),
        script_from(args, 0),
    )
}

/// What a command line (without the program name) asks for: help when it is
/// empty or holds `--help` or `-h`; else `build`, `clean` or `run` by the first
/// argument, or a script to run where that ends with `.ts`.
pub open spec fn command_of(args: Seq<Seq<char>>) -> CommandView {
    if args.len() == 0 || has_arg(args, "--help"@) || has_arg(args, "-h"@) {
        CommandView::Help
    } else if args[0] == "build"@ {
        CommandView::Build(build_scan(args.drop_first(), 0, (None, false, None)))
    } else if args[0] == "clean"@ {
        CommandView::Clean
    } else if args[0] == "run"@ {
        CommandView::Run(run_of(args.drop_first()))
    } else if ends_with(args[0], ".ts"@) {
        CommandView::Run(run_of(args))
    } else {
        CommandView::Unknown(args[0])
    }
}

/// Whether one of `args` is `a`.
fn find_arg(args: &[String], a: &str) -> (r: bool)
    ensures
        r == has_arg(views(args@), a@),
{
    let ghost v = views(args@);
    let mut i: usize = 0;
    while i < args.len()
        invariant
            v == views(args@),
            i <= args@.len(),
            forall|j: int| 0 <= j < i ==> v[j] != a@,
        decreases args@.len() - i,
    {
        if str_eq(args[i].as_str(), a) {
            assert(v[i as int] == a@);
            return true;
        }
        i += 1;
    }
    false
}

/// Whether `a` starts with `-`.
fn is_flag(a: &str) -> (r: bool)
    ensures
        r == starts_with(a@, "-"@),
{
    let cs = chars_of(a);
    let dash = chars_of("-");
    occurs(&cs, &dash, 0)
}

/// The arguments after the first.
fn tail_args(args: &[String]) -> (r: Vec<String>)
    requires
        args@.len() > 0,
    ensures
        views(r@) == views(args@).drop_first(),
{
    let mut out: Vec<String> = Vec::new();
    let mut i: usize = 1;
    while i < args.len()
        invariant
            1 <= i <= args@.len(),
            views(out@) == views(args@).subrange(1, i as int),
        decreases args@.len() - i,
    {
        let c = args[i].clone();
        assert(c@ == views(args@)[i as int]);
        let ghost before = out@;
        out.push(c);
        assert(out@ == before.push(c));
        assert(views(out@) =~= views(before).push(c@));
        assert(views(args@).subrange(1, i + 1) =~= views(args@).subrange(1, i as int).push(views(args@)[i as int]));
        i += 1;
    }
    assert(views(args@).subrange(1, args@.len() as int) == views(args@).drop_first());
    out
}

/// The argument after the first `--env-file` that has one.
fn env_file_arg(args: &[String]) -> (r: Option<String>)
    ensures
        opt_view(r) == env_file_from(views(args@), 0),
{
    let ghost v = views(args@);
    let mut i: usize = 0;
    while i < args.len() && i + 1 < args.len()
        invariant
            v == views(args@),
            i <= args@.len(),
            env_file_from(v, i as int) == env_file_from(v, 0),
        decreases args@.len() - i,
    {
        if str_eq(args[i].as_str(), "--env-file") {
            let value = args[i + 1].clone();
            assert(value@ == v[i + 1]);
            return Some(value);
        }
        i += 1;
    }
    None
}

/// The first argument that may name the script.
fn script_arg(args: &[String]) -> (r: Option<String>)
    ensures
        opt_view(r) == script_from(views(args@), 0),
{
    let ghost v = views(args@);
    let mut k: usize = 0;
    while k < args.len()
        invariant
            v == views(args@),
            k <= args@.len(),
            script_from(v, k as int) == script_from(v, 0),
        decreases args@.len() - k,
    {
        let a = args[k].as_str();
        let after_env = k > 0 && str_eq(args[k - 1].as_str(), "--env-file");
        if !str_eq(a, "--env-file") && !after_env && !is_flag(a) {
            let value = args[k].clone();
            assert(value@ == v[k as int]);
            return Some(value);
        }
        k += 1;
    }
    None
}

/// The options of the `run` command from its arguments.
pub fn parse_run_args(args: &[String]) -> (r: RunOptions)
    ensures
        run_view(r) == run_of(views(args@)),
{
    let ghost v = views(args@);
    let watch = find_arg(args, "--watch") || find_arg(args, "-w");
    let no_color = find_arg(args, "--no-color");
    let timestamps = find_arg(args, "--timestamps");
    let no_env_file = find_arg(args, "--no-env-file");
    let env_file = env_file_arg(args);
    let script = script_arg(args);
    RunOptions { watch, no_color, timestamps, no_env_file, env_file, script }
}

/// Reads the command line (without the program name).
pub fn parse_command(args: &[String]) -> (r: Command)
    ensures
        command_view(r) == command_of(views(args@)),
{
    let ghost v = views(args@);
    if args.len() == 0 || find_arg(args, "--help") || find_arg(args, "-h") {
        return Command::Help;
    }
    let first = args[0].as_str();
    assert(v[0] == first@);
    if str_eq(first, "build") {
        let rest = tail_args(args);
        Command::Build(parse_build_args(rest.as_slice()))
    } else if str_eq(first, "clean") {
        Command::Clean
    } else if str_eq(first, "run") {
        let rest = tail_args(args);
        Command::Run(parse_run_args(rest.as_slice()))
    } else if ends_with_ts(first) {
        Command::Run(parse_run_args(args))
    } else {
        Command::Unknown(args[0].clone())
    }
}

/// Whether `a` ends with `.ts`.
fn ends_with_ts(a: &str) -> (r: bool)
    ensures
        r == ends_with(a@, ".ts"@),
{
    let cs = chars_of(a);
    let suffix = chars_of(".ts");
    proof {
        reveal_strlit(".ts");
    }
    if cs.len() < 3 {
        return false;
    }
    occurs(&cs, &suffix, cs.len() - 3)
}

/// How long after a run a change may start the next run, in milliseconds.
pub const DEBOUNCE_MS: u64 = 300;

/// Whether watch mode runs the script again for a file event: the event
/// creates, changes or removes a file, the file is one that is watched, and
/// at least `DEBOUNCE_MS` passed since the last run began.
pub fn should_rerun(relevant_kind: bool, watched: bool, since_last_ms: u128) -> (r: bool)
    ensures
        r == (relevant_kind && watched && since_last_ms >= DEBOUNCE_MS),
{
    relevant_kind && watched && since_last_ms >= 300
}

/// Adds `item` to the end of `list` unless a path with the same text is
/// already there; says whether it was added.
pub fn push_unique(list: &mut Vec<String>, item: String) -> (added: bool)
    ensures
        added == !views(old(list)@).contains(item@),
        views(final(list)@) == (if added { views(old(list)@).push(item@) } else { views(old(list)@) }),
{
    let ghost before = views(list@);
    let mut i: usize = 0;
    while i < list.len()
        invariant
            i <= list@.len(),
            before == views(list@),
            before.len() == list@.len(),
            forall|j: int| 0 <= j < i ==> before[j] != item@,
        decreases list@.len() - i,
    {
        assert(before[i as int] == list@[i as int]@);
        if str_eq(list[i].as_str(), item.as_str()) {
            return false;
        }
        i += 1;
    }
    let ghost it = item@;
    list.push(item);
    assert(views(list@) =~= before.push(it));
    true
}

/// The relative imports that the first `k` lines of `s` name, line by line.
pub open spec fn imports_upto(s: Seq<char>, k: nat) -> Seq<Seq<char>>
    decreases k,
{
    if k == 0 {
        Seq::empty()
    } else {
        imports_upto(s, (k - 1) as nat) + line_imports_of(line_text(s, k - 1))
    }
}

/// The relative imports (`./…` or `../…`) that a script's source names, in
/// the order of its lines; repeats are kept.
pub fn source_imports(source: &str) -> (r: Vec<String>)
    ensures
        views(r@) == imports_upto(source@, line_count(source@)),
{
    let cs = chars_of(source);
    let nl = newlines_of(&cs);
    let count = count_lines(&cs, &nl);
    let mut out: Vec<String> = Vec::new();
    let mut k: usize = 0;
    while k < count
        invariant
            cs@ == source@,
            nl@.len() == newline_positions(cs@).len(),
            forall|j: int| 0 <= j < nl@.len() ==> nl@[j] as int == #[trigger] newline_positions(cs@)[j],
            count == line_count(cs@),
            k <= count,
            views(out@) == imports_upto(cs@, k as nat),
        decreases count - k,
    {
        match line_bounds_with(&cs, &nl, k + 1) {
            None => {
                assert(false);
            },
            Some((a, b)) => {
                let line = string_of_range(&cs, a, b);
                assert(line@ == line_text(cs@, k as int));
                let found = line_imports(line.as_str());
                let mut j: usize = 0;
                let ghost base = views(out@);
                while j < found.len()
                    invariant
                        j <= found@.len(),
                        found@.map_values(|s: String| s@) == line_imports_of(line@),
                        views(out@) == base + line_imports_of(line@).take(j as int),
                    decreases found@.len() - j,
                {
                    let ghost before = out@;
                    let c = found[j].clone();
                    assert(c@ == line_imports_of(line@)[j as int]);
                    out.push(c);
                    assert(views(out@) =~= views(before).push(c@));
                    assert(line_imports_of(line@).take(j + 1) =~= line_imports_of(line@).take(j as int).push(c@));
                    j += 1;
                }
                assert(line_imports_of(line@).take(found@.len() as int) =~= line_imports_of(line@)) by {
                    assert(found@.map_values(|s: String| s@).len() == found@.len());
                }
            },
        }
        k += 1;
    }
    out
}

/// The clock text is `HH:MM:SS`: two digits each, separated by colons, that
/// read back as the hour of the day, the minute of the hour and the second
/// of the minute at `secs` seconds after the epoch.
pub proof fn law_clock_fields(secs: nat)
    ensures
        clock_text(secs).len() == 8,
        clock_text(secs)[2] == ':',
        clock_text(secs)[5] == ':',
        digits_value(clock_text(secs).subrange(0, 2)) == (secs / 3600) % 24,
        digits_value(clock_text(secs).subrange(3, 5)) == (secs / 60) % 60,
        digits_value(clock_text(secs).subrange(6, 8)) == secs % 60,
{
    reveal_strlit(":");
    let h = (secs / 3600) % 24;
    let m = (secs / 60) % 60;
    let x = secs % 60;
    lemma_two_digits(h);
    lemma_two_digits(m);
    lemma_two_digits(x);
    law_zero_padded_reads_back(h, 2);
    law_zero_padded_reads_back(m, 2);
    law_zero_padded_reads_back(x, 2);
    let t = clock_text(secs);
    assert(t.subrange(0, 2) =~= zero_padded(h, 2));
    assert(t.subrange(3, 5) =~= zero_padded(m, 2));
    assert(t.subrange(6, 8) =~= zero_padded(x, 2));
}

proof fn lemma_two_digits(n: nat)
    requires
        n < 100,
    ensures
        decimal(n).len() <= 2,
{
    if n >= 10 {
        assert(decimal(n / 10).len() == 1);
    }
}

} // verus!
