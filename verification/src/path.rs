//! Path manipulation in the manner of Node's `path` module, over `std::path`.
use vstd::prelude::*;
use vstd::string::*;
use std::path::{Component, Path, PathBuf};
use crate::text::{chars_of, push_char, str_eq, string_of_range};

verus! {

/// One component of a path, as `Path::components` yields it.
pub enum PathComponent {
    Prefix(String),
    RootDir,
    CurDir,
    ParentDir,
    Normal(String),
}

/// A path component as plain values.
pub enum Comp {
    Prefix(Seq<char>),
    RootDir,
    CurDir,
    ParentDir,
    Normal(Seq<char>),
}

impl View for PathComponent {
    type V = Comp;

    open spec fn view(&self) -> Comp {
        match self {
            PathComponent::Prefix(p) => Comp::Prefix(p@),
            PathComponent::RootDir => Comp::RootDir,
            PathComponent::CurDir => Comp::CurDir,
            PathComponent::ParentDir => Comp::ParentDir,
            PathComponent::Normal(s) => Comp::Normal(s@),
        }
    }
}

/// The components of `path`, as `Path::components` yields them.
pub uninterp spec fn path_components_of(path: Seq<char>) -> Seq<Comp>;

/// The final component of `path`, as `Path::file_name` gives it.
pub uninterp spec fn file_name_of(path: Seq<char>) -> Option<Seq<char>>;

/// `path` without its final component, as `Path::parent` gives it.
pub uninterp spec fn parent_of(path: Seq<char>) -> Option<Seq<char>>;

/// The extension of `path`, as `Path::extension` gives it.
pub uninterp spec fn extension_of(path: Seq<char>) -> Option<Seq<char>>;

/// The file name of `path` without its extension, as `Path::file_stem` gives it.
pub uninterp spec fn file_stem_of(path: Seq<char>) -> Option<Seq<char>>;

/// Whether `path` is absolute, as `Path::is_absolute` says.
pub uninterp spec fn is_absolute_path(path: Seq<char>) -> bool;

/// `base` with `part` pushed onto it, as `PathBuf::push` does it.
pub uninterp spec fn pushed_path(base: Seq<char>, part: Seq<char>) -> Seq<char>;

/// The components of `path`.
///
/// Trusted: calls `Path::components` and converts each `Component` to the
/// library's `PathComponent`, variant for variant, the text of a prefix or a
/// normal component taken with `to_string_lossy`. The result is named
/// `path_components_of(path)`.
#[verifier::external_body]
pub(crate) fn path_components(path: &str) -> (r: Vec<PathComponent>)
    ensures
        r@.map_values(|c: PathComponent| c@) == path_components_of(path@),
{
    let mut out = Vec::new();
    for c in Path::new(path).components() {
        out.push(match c {
            Component::Prefix(p) => PathComponent::Prefix(p.as_os_str().to_string_lossy().to_string()),
            Component::RootDir => PathComponent::RootDir,
            Component::CurDir => PathComponent::CurDir,
            Component::ParentDir => PathComponent::ParentDir,
            Component::Normal(s) => PathComponent::Normal(s.to_string_lossy().to_string()),
        });
    }
    out
}

/// The final component of `path`.
///
/// Trusted: calls `Path::file_name`, the name converted with
/// `to_string_lossy`; the result is named `file_name_of(path)`.
#[verifier::external_body]
fn file_name(path: &str) -> (r: Option<String>)
    ensures
        match r {
            Some(s) => file_name_of(path@) == Some(s@),
            None => file_name_of(path@) is None,
        },
{
    Path::new(path).file_name().map(|s| s.to_string_lossy().to_string())
}

/// `path` without its final component.
///
/// Trusted: calls `Path::parent`, converted with `to_string_lossy`; the result
/// is named `parent_of(path)`. The documentation says the parent is the path
/// without its final component, so it is shorter than `path`, which the
/// contract states too.
#[verifier::external_body]
pub(crate) fn parent(path: &str) -> (r: Option<String>)
    ensures
        match r {
            Some(s) => parent_of(path@) == Some(s@) && s@.len() < path@.len(),
            None => parent_of(path@) is None,
        },
{
    Path::new(path).parent().map(|p| p.to_string_lossy().to_string())
}

/// The extension of `path`.
///
/// Trusted: calls `Path::extension`, converted with `to_string_lossy`; the
/// result is named `extension_of(path)`.
#[verifier::external_body]
fn extension(path: &str) -> (r: Option<String>)
    ensures
        match r {
            Some(s) => extension_of(path@) == Some(s@),
            None => extension_of(path@) is None,
        },
{
    Path::new(path).extension().map(|s| s.to_string_lossy().to_string())
}

/// The file name of `path` without its extension.
///
/// Trusted: calls `Path::file_stem`, converted with `to_string_lossy`; the
/// result is named `file_stem_of(path)`.
#[verifier::external_body]
pub(crate) fn file_stem(path: &str) -> (r: Option<String>)
    ensures
        match r {
            Some(s) => file_stem_of(path@) == Some(s@),
            None => file_stem_of(path@) is None,
        },
{
    Path::new(path).file_stem().map(|s| s.to_string_lossy().to_string())
}

/// Whether `path` is absolute.
///
/// Trusted: calls `Path::is_absolute`; the result is named `is_absolute_path(path)`.
#[verifier::external_body]
pub fn is_absolute(path: &str) -> (r: bool)
    ensures
        r == is_absolute_path(path@),
{
    Path::new(path).is_absolute()
}

/// `base` with `part` pushed onto it.
///
/// Trusted: calls `PathBuf::push` on `PathBuf::from(base)`, the result
/// converted with `to_string_lossy`; the result is named `pushed_path(base, part)`.
/// The documentation says that an absolute `part` replaces the whole path,
/// which the contract states too.
#[verifier::external_body]
pub(crate) fn push_path(base: &str, part: &str) -> (r: String)
    ensures
        r@ == pushed_path(base@, part@),
        is_absolute_path(part@) ==> r@ == part@,
{
    let mut p = PathBuf::from(base);
    p.push(part);
    p.to_string_lossy().to_string()
}

/// `parts` pushed one after the other onto an empty path.
pub open spec fn joined_path(parts: Seq<Seq<char>>) -> Seq<char>
    decreases parts.len(),
{
    if parts.len() == 0 {
        Seq::empty()
    } else {
        pushed_path(joined_path(parts.drop_last()), parts.last())
    }
}

/// The views of a list of strings.
pub open spec fn views(parts: Seq<String>) -> Seq<Seq<char>> {
    parts.map_values(|s: String| s@)
}

/// Joins the path segments `parts`, as `PathBuf::push` joins them.
pub fn join(parts: &[String]) -> (r: String)
    ensures
        r@ == joined_path(views(parts@)),
{
    let mut result = String::new();
    let mut i: usize = 0;
    while i < parts.len()
        invariant
            i <= parts@.len(),
            result@ == joined_path(views(parts@).take(i as int)),
        decreases parts@.len() - i,
    {
        assert(views(parts@).take(i + 1).drop_last() == views(parts@).take(i as int));
        result = push_path(result.as_str(), parts[i].as_str());
        i += 1;
    }
    assert(views(parts@).take(parts@.len() as int) == views(parts@));
    result
}

/// Whether `s` ends with `suffix`.
pub open spec fn ends_with(s: Seq<char>, suffix: Seq<char>) -> bool {
    suffix.len() <= s.len() && s.subrange(s.len() - suffix.len(), s.len() as int) == suffix
}

/// The last portion of `path`, without `ext` where it ends with that non-empty `ext`.
pub open spec fn basename_of(path: Seq<char>, ext: Option<Seq<char>>) -> Seq<char> {
    let base = match file_name_of(path) {
        Some(b) => b,
        None => Seq::empty(),
    };
    match ext {
        Some(e) => if e.len() > 0 && ends_with(base, e) {
            base.subrange(0, base.len() - e.len())
        } else {
            base
        },
        None => base,
    }
}

/// The last portion of `path`, like Node's `path.basename`.
pub fn basename(path: &str, ext: Option<&str>) -> (r: String)
    ensures
        r@ == basename_of(
            path@,
            match ext {
                Some(e) => Some(e@),
                None => None,
            },
        ),
{
    let base = match file_name(path) {
        Some(b) => b,
        None => String::new(),
    };
    match ext {
        Some(e) => {
            let bc = chars_of(base.as_str());
            let ec = chars_of(e);
            if ec.len() > 0 && ec.len() <= bc.len() {
                let off = bc.len() - ec.len();
                let mut k: usize = 0;
                let mut same = true;
                while k < ec.len()
                    invariant
                        off + ec.len() == bc.len(),
                        k <= ec@.len(),
                        same == (forall|j: int| 0 <= j < k ==> bc@[off + j] == ec@[j]),
                    decreases ec@.len() - k,
                {
                    if bc[off + k] != ec[k] {
                        same = false;
                    }
                    k += 1;
                }
                assert(same == (bc@.subrange(off as int, bc@.len() as int) =~= ec@));
                if same {
                    return string_of_range(&bc, 0, off);
                }
            }
            base
        },
        None => base,
    }
}

/// The directory part of `path`, `.` where there is none, like `path.dirname`.
pub open spec fn dirname_of(path: Seq<char>) -> Seq<char> {
    match parent_of(path) {
        Some(p) => if p.len() == 0 { "."@ } else { p },
        None => "."@,
    }
}

/// The directory part of `path`, like Node's `path.dirname`.
pub fn dirname(path: &str) -> (r: String)
    ensures
        r@ == dirname_of(path@),
{
    match parent(path) {
        Some(p) => {
            if p.unicode_len() == 0 {
                String::from_str(".")
            } else {
                p
            }
        },
        None => String::from_str("."),
    }
}

/// The extension of `path` with its dot, or nothing, like `path.extname`.
pub open spec fn extname_of(path: Seq<char>) -> Seq<char> {
    match extension_of(path) {
        Some(e) => "."@ + e,
        None => Seq::empty(),
    }
}

/// The extension of `path` with its leading dot, like Node's `path.extname`.
pub fn extname(path: &str) -> (r: String)
    ensures
        r@ == extname_of(path@),
{
    match extension(path) {
        Some(e) => {
            let mut s = String::from_str(".");
            s.append(e.as_str());
            s
        },
        None => String::new(),
    }
}

/// `s` without its last element; unchanged where it is empty.
pub open spec fn pop_last(s: Seq<Seq<char>>) -> Seq<Seq<char>> {
    if s.len() > 0 { s.drop_last() } else { s }
}

/// What one component does to the normalized segments and the root part.
pub open spec fn normalize_step(st: (Seq<Seq<char>>, Seq<char>), c: Comp) -> (Seq<Seq<char>>, Seq<char>) {
    match c {
        Comp::Normal(s) => if s == ".."@ {
            (pop_last(st.0), st.1)
        } else if s != "."@ {
            (st.0.push(s), st.1)
        } else {
            st
        },
        Comp::ParentDir => (pop_last(st.0), st.1),
        Comp::CurDir => st,
        Comp::RootDir => (st.0, st.1.push('/')),
        Comp::Prefix(p) => (st.0, st.1 + p),
    }
}

/// The state after the first `k` components.
pub open spec fn normalize_fold(cs: Seq<Comp>, k: nat) -> (Seq<Seq<char>>, Seq<char>)
    decreases k,
{
    if k == 0 || k > cs.len() {
        (Seq::empty(), Seq::empty())
    } else {
        normalize_step(normalize_fold(cs, (k - 1) as nat), cs[k - 1])
    }
}

/// `parts` joined with `sep` between them.
pub open spec fn join_with(parts: Seq<Seq<char>>, sep: Seq<char>) -> Seq<char>
    decreases parts.len(),
{
    if parts.len() == 0 {
        Seq::empty()
    } else if parts.len() == 1 {
        parts[0]
    } else {
        join_with(parts.drop_last(), sep) + sep + parts.last()
    }
}

/// `path` with `.` segments dropped and `..` segments applied.
pub open spec fn normalized(path: Seq<char>) -> Seq<char> {
    let cs = path_components_of(path);
    let st = normalize_fold(cs, cs.len());
    let joined = join_with(st.0, "/"@);
    if st.1.len() == 0 && !(path.len() > 0 && path[0] == '/') {
        if joined.len() == 0 { "."@ } else { joined }
    } else {
        st.1 + joined
    }
}

/// The strings `parts[..n]` joined with `sep`.
pub(crate) fn join_strings(parts: &Vec<String>, sep: &str) -> (r: String)
    ensures
        r@ == join_with(views(parts@), sep@),
{
    let mut out = String::new();
    let mut i: usize = 0;
    while i < parts.len()
        invariant
            i <= parts@.len(),
            out@ == join_with(views(parts@).take(i as int), sep@),
        decreases parts@.len() - i,
    {
        assert(views(parts@).take(i + 1).drop_last() == views(parts@).take(i as int));
        if i > 0 {
            out.append(sep);
        } else {
            assert(views(parts@).take(1) =~= seq![parts@[0]@]);
        }
        out.append(parts[i].as_str());
        i += 1;
    }
    assert(views(parts@).take(parts@.len() as int) == views(parts@));
    out
}

/// Normalizes `path`: `.` segments are dropped and `..` segments remove the
/// segment before them.
pub fn normalize(path: &str) -> (r: String)
    ensures
        r@ == normalized(path@),
{
    let comps = path_components(path);
    let ghost cv = comps@.map_values(|c: PathComponent| c@);
    let mut segs: Vec<String> = Vec::new();
    let mut result = String::new();
    let mut i: usize = 0;
    while i < comps.len()
        invariant
            i <= comps@.len(),
            cv == comps@.map_values(|c: PathComponent| c@),
            cv == path_components_of(path@),
            (views(segs@), result@) == normalize_fold(cv, i as nat),
        decreases comps@.len() - i,
    {
        assert(cv[i as int] == comps@[i as int]@);
        match &comps[i] {
            PathComponent::Normal(c) => {
                if str_eq(c.as_str(), "..") {
                    segs.pop();
                } else if !str_eq(c.as_str(), ".") {
                    segs.push(c.clone());
                }
            },
            PathComponent::ParentDir => {
                segs.pop();
            },
            PathComponent::CurDir => {},
            PathComponent::RootDir => {
                push_char(&mut result, '/');
            },
            PathComponent::Prefix(p) => {
                result.append(p.as_str());
            },
        }
        assert(views(segs@) =~= normalize_fold(cv, (i + 1) as nat).0);
        i += 1;
    }
    let joined = join_strings(&segs, "/");
    let pc = chars_of(path);
    let starts_with_slash = pc.len() > 0 && pc[0] == '/';
    if result.unicode_len() == 0 && !starts_with_slash {
        if joined.unicode_len() == 0 {
            String::from_str(".")
        } else {
            joined
        }
    } else {
        result.append(joined.as_str());
        result
    }
}

/// `path` made canonical, or `path` itself where that fails.
///
/// Trusted: calls `Path::canonicalize`, which reads the file system. Its
/// documentation says that on success it returns the canonical, absolute
/// form of the path; where it fails the wrapper hands back `path`. So the
/// result is `path` or an absolute path; which one, and which absolute path,
/// depends on the file system and is not stated.
#[verifier::external_body]
fn canonical_or_same(path: &str) -> (r: String)
    ensures
        r@ == path@ || is_absolute_path(r@),
{
    match Path::new(path).canonicalize() {
        Ok(p) => p.to_string_lossy().to_string(),
        Err(_) => path.to_string(),
    }
}

/// The platform's main path separator as a string.
///
/// Trusted: returns `std::path::MAIN_SEPARATOR_STR`, which depends on the
/// target the program was built for, so nothing is stated of it.
#[verifier::external_body]
fn main_separator() -> (r: String)
{
    std::path::MAIN_SEPARATOR_STR.to_string()
}

/// The text of a path component, with `root` standing for the root directory.
pub open spec fn component_text(c: Comp, root: Seq<char>) -> Seq<char> {
    match c {
        Comp::Prefix(p) => p,
        Comp::RootDir => root,
        Comp::CurDir => "."@,
        Comp::ParentDir => ".."@,
        Comp::Normal(s) => s,
    }
}

/// The length of the longest common prefix of `a` and `b`.
pub open spec fn common_prefix_len(a: Seq<Comp>, b: Seq<Comp>) -> nat
    decreases a.len(),
{
    if a.len() == 0 || b.len() == 0 || a[0] != b[0] {
        0
    } else {
        1 + common_prefix_len(a.drop_first(), b.drop_first())
    }
}

/// The segments of the relative path from `from` to `to`: one `..` for each
/// component of `from` past the common prefix, then the rest of `to`.
pub open spec fn relative_segments(from: Seq<Comp>, to: Seq<Comp>, sep: Seq<char>) -> Seq<Seq<char>> {
    let n = common_prefix_len(from, to);
    Seq::new((from.len() - n) as nat, |i: int| ".."@) + to.subrange(n as int, to.len() as int).map_values(
        |c: Comp| component_text(c, sep),
    )
}

/// The relative path from `from` to `to`, segments joined with `sep`; `.` where
/// there are none.
pub open spec fn relative_text(from: Seq<Comp>, to: Seq<Comp>, sep: Seq<char>) -> Seq<char> {
    let parts = relative_segments(from, to, sep);
    if parts.len() == 0 {
        "."@
    } else {
        join_with(parts, sep)
    }
}

proof fn lemma_common_prefix(a: Seq<Comp>, b: Seq<Comp>, k: int)
    requires
        0 <= k <= a.len(),
        k <= b.len(),
        forall|j: int| 0 <= j < k ==> a[j] == b[j],
    ensures
        k < a.len() && k < b.len() && a[k] != b[k] ==> common_prefix_len(a, b) == k,
        k == a.len() || k == b.len() ==> common_prefix_len(a, b) == k,
    decreases k,
{
    if k > 0 {
        lemma_common_prefix(a.drop_first(), b.drop_first(), k - 1);
        assert(a[0] == b[0]);
    }
}

/// The relative path from a path to itself is `.`: over the same components
/// there is nothing to go up from and nothing left to go down to.
pub proof fn law_relative_to_itself(c: Seq<Comp>, sep: Seq<char>)
    ensures
        relative_text(c, c, sep) == "."@,
{
    lemma_common_prefix(c, c, c.len() as int);
    assert(relative_segments(c, c, sep) =~= Seq::<Seq<char>>::empty());
}

fn same_component(a: &PathComponent, b: &PathComponent) -> (r: bool)
    ensures
        r == (a@ == b@),
{
    match (a, b) {
        (PathComponent::Prefix(x), PathComponent::Prefix(y)) => str_eq(x.as_str(), y.as_str()),
        (PathComponent::RootDir, PathComponent::RootDir) => true,
        (PathComponent::CurDir, PathComponent::CurDir) => true,
        (PathComponent::ParentDir, PathComponent::ParentDir) => true,
        (PathComponent::Normal(x), PathComponent::Normal(y)) => str_eq(x.as_str(), y.as_str()),
        _ => false,
    }
}

/// The relative path between two component lists, segments joined with `sep`
/// (which also stands for the root directory).
pub fn relative_components(from: &Vec<PathComponent>, to: &Vec<PathComponent>, sep: &str) -> (r: String)
    ensures
        r@ == relative_text(
            from@.map_values(|c: PathComponent| c@),
            to@.map_values(|c: PathComponent| c@),
            sep@,
        ),
{
    let ghost fv = from@.map_values(|c: PathComponent| c@);
    let ghost tv = to@.map_values(|c: PathComponent| c@);
    let mut common: usize = 0;
    while common < from.len() && common < to.len() && same_component(&from[common], &to[common])
        invariant
            common <= from@.len(),
            common <= to@.len(),
            fv == from@.map_values(|c: PathComponent| c@),
            tv == to@.map_values(|c: PathComponent| c@),
            forall|j: int| 0 <= j < common ==> fv[j] == tv[j],
        decreases from@.len() - common,
    {
        assert(fv[common as int] == from@[common as int]@);
        assert(tv[common as int] == to@[common as int]@);
        common += 1;
    }
    proof {
        if common < from.len() && common < to.len() {
            assert(fv[common as int] == from@[common as int]@);
            assert(tv[common as int] == to@[common as int]@);
        }
        lemma_common_prefix(fv, tv, common as int);
    }
    let mut parts: Vec<String> = Vec::new();
    let mut i = common;
    while i < from.len()
        invariant
            common <= i <= from@.len(),
            parts@.len() == i - common,
            forall|j: int| 0 <= j < parts@.len() ==> (#[trigger] parts@[j])@ == ".."@,
        decreases from@.len() - i,
    {
        parts.push(String::from_str(".."));
        i += 1;
    }
    let ups = parts.len();
    let mut k = common;
    while k < to.len()
        invariant
            common <= k <= to@.len(),
            common <= from@.len(),
            tv == to@.map_values(|c: PathComponent| c@),
            ups == from@.len() - common,
            parts@.len() == ups + (k - common),
            forall|j: int| 0 <= j < ups ==> (#[trigger] parts@[j])@ == ".."@,
            forall|j: int|
                ups <= j < parts@.len() ==> (#[trigger] parts@[j])@ == component_text(
                    tv[common + (j - ups)],
                    sep@,
                ),
        decreases to@.len() - k,
    {
        let text = match &to[k] {
            PathComponent::Prefix(p) => p.clone(),
            PathComponent::RootDir => String::from_str(sep),
            PathComponent::CurDir => String::from_str("."),
            PathComponent::ParentDir => String::from_str(".."),
            PathComponent::Normal(s) => s.clone(),
        };
        assert(tv[k as int] == to@[k as int]@);
        parts.push(text);
        k += 1;
    }
    assert(views(parts@) =~= relative_segments(fv, tv, sep@));
    if parts.len() == 0 {
        String::from_str(".")
    } else {
        join_strings(&parts, sep)
    }
}

/// The relative path from `from` to `to`, like Node's `path.relative`; both are
/// made canonical first where the file system allows it.
pub fn relative(from: &str, to: &str) -> (r: String)
    ensures
        exists|f: Seq<char>, t: Seq<char>, sep: Seq<char>|
            #![trigger relative_text(path_components_of(f), path_components_of(t), sep)]
            (f == from@ || is_absolute_path(f)) && (t == to@ || is_absolute_path(t))
            && r@ == relative_text(path_components_of(f), path_components_of(t), sep),
{
    let f = canonical_or_same(from);
    let t = canonical_or_same(to);
    let fc = path_components(f.as_str());
    let tc = path_components(t.as_str());
    let sep = main_separator();
    let r = relative_components(&fc, &tc, sep.as_str());
    assert(r@ == relative_text(path_components_of(f@), path_components_of(t@), sep@));
    r
}

/// The path reached from `start` by pushing each of `parts` in turn, an
/// absolute part replacing what came before.
pub open spec fn resolved_from(start: Seq<char>, parts: Seq<Seq<char>>) -> Seq<char>
    decreases parts.len(),
{
    if parts.len() == 0 {
        start
    } else {
        let before = resolved_from(start, parts.drop_last());
        if is_absolute_path(parts.last()) {
            parts.last()
        } else {
            pushed_path(before, parts.last())
        }
    }
}

/// Resolves `parts` against the directory `cwd`, like Node's `path.resolve`
/// with `cwd` as the working directory, and normalizes the result.
pub fn resolve_from(cwd: &str, parts: &[String]) -> (r: String)
    ensures
        r@ == normalized(resolved_from(cwd@, views(parts@))),
{
    let mut result = String::from_str(cwd);
    let mut i: usize = 0;
    while i < parts.len()
        invariant
            i <= parts@.len(),
            result@ == resolved_from(cwd@, views(parts@).take(i as int)),
        decreases parts@.len() - i,
    {
        assert(views(parts@).take(i + 1).drop_last() == views(parts@).take(i as int));
        if is_absolute(parts[i].as_str()) {
            result = parts[i].clone();
        } else {
            result = push_path(result.as_str(), parts[i].as_str());
        }
        i += 1;
    }
    assert(views(parts@).take(parts@.len() as int) == views(parts@));
    normalize(result.as_str())
}

} // verus!
