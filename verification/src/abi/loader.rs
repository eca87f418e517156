//! Finding native module libraries by name.
use vstd::prelude::*;
use vstd::string::*;
use crate::fs::path_exists;
use crate::path::{file_stem, file_stem_of, push_path, pushed_path};
use crate::text::{chars_of, str_eq, string_of_range};

verus! {

/// Whether `s` ends with `suffix`.
pub open spec fn has_suffix(s: Seq<char>, suffix: Seq<char>) -> bool {
    suffix.len() <= s.len() && s.subrange(s.len() - suffix.len(), s.len() as int) == suffix
}

/// The last position of `c` in `s`, or -1.
pub open spec fn last_index_of(s: Seq<char>, c: char) -> int
    decreases s.len(),
{
    if s.len() == 0 {
        -1
    } else if s.last() == c {
        s.len() - 1
    } else {
        last_index_of(s.drop_last(), c)
    }
}

/// The module name of a native import: the file stem of `source` (or `source`
/// itself), without a `.native` suffix, and only what follows its last `/`.
pub open spec fn module_name_of(source: Seq<char>) -> Seq<char> {
    let stem = match file_stem_of(source) {
        Some(s) => s,
        None => source,
    };
    let name = if has_suffix(stem, ".native"@) {
        stem.subrange(0, stem.len() - 7)
    } else {
        stem
    };
    let pos = last_index_of(name, '/');
    if pos >= 0 {
        name.subrange(pos + 1, name.len() as int)
    } else {
        name
    }
}

/// The module name of a native import such as `./dist/foo.native`.
pub fn extract_module_name(source: &str) -> (r: String)
    ensures
        r@ == module_name_of(source@),
{
    let stem = match file_stem(source) {
        Some(s) => s,
        None => String::from_str(source),
    };
    let cs = chars_of(stem.as_str());
    let suffix = chars_of(".native");
    proof {
        reveal_strlit(".native");
    }
    let mut end = cs.len();
    if cs.len() >= 7 {
        let mut same = true;
        let mut k: usize = 0;
        while k < 7
            invariant
                cs@.len() >= 7,
                suffix@ == ".native"@,
                suffix@.len() == 7,
                k <= 7,
                same == (forall|j: int| 0 <= j < k ==> cs@[cs@.len() - 7 + j] == suffix@[j]),
            decreases 7 - k,
        {
            if cs[cs.len() - 7 + k] != suffix[k] {
                same = false;
            }
            k += 1;
        }
        assert(same == (cs@.subrange(cs@.len() - 7, cs@.len() as int) =~= suffix@));
        if same {
            end = cs.len() - 7;
        }
    }
    let ghost name = cs@.subrange(0, end as int);
    let mut i = end;
    assert(cs@.subrange(0, i as int) == name);
    while i > 0 && cs[i - 1] != '/'
        invariant
            i <= end <= cs@.len(),
            name == cs@.subrange(0, end as int),
            last_index_of(name, '/') == last_index_of(cs@.subrange(0, i as int), '/'),
            forall|j: int| i <= j < end ==> cs@[j] != '/',
        decreases i,
    {
        assert(cs@.subrange(0, i as int).drop_last() == cs@.subrange(0, i - 1));
        i -= 1;
    }
    proof {
        let stem_v = cs@;
        assert(name == (if has_suffix(stem_v, ".native"@) {
            stem_v.subrange(0, stem_v.len() - 7)
        } else {
            stem_v
        }));
        if i > 0 {
            assert(cs@.subrange(0, i as int).last() == '/');
            assert(last_index_of(cs@.subrange(0, i as int), '/') == i - 1);
            assert(name.subrange(i as int, name.len() as int) =~= cs@.subrange(i as int, end as int));
        } else {
            assert(cs@.subrange(0, 0) =~= Seq::<char>::empty());
            assert(last_index_of(name, '/') == -1);
        }
    }
    string_of_range(&cs, i, end)
}

/// The library file extension for a target OS name: `dll`, `dylib` or `so`.
pub open spec fn library_extension(target_os: Seq<char>) -> Seq<char> {
    if target_os == "windows"@ {
        "dll"@
    } else if target_os == "macos"@ {
        "dylib"@
    } else {
        "so"@
    }
}

/// The paths tried for the native library `name` in `dir`, in order:
/// `<name>.<ext>`, then, except on Windows, `lib<name>.<ext>`.
pub open spec fn library_candidates(dir: Seq<char>, name: Seq<char>, target_os: Seq<char>) -> Seq<Seq<char>> {
    let ext = library_extension(target_os);
    let plain = pushed_path(dir, name + "."@ + ext);
    if ext == "dll"@ {
        seq![plain]
    } else {
        seq![plain, pushed_path(dir, "lib"@ + name + "."@ + ext)]
    }
}

/// The library file extension for the target OS named `target_os`.
fn extension_for(target_os: &str) -> (r: &'static str)
    ensures
        r@ == library_extension(target_os@),
{
    if str_eq(target_os, "windows") {
        "dll"
    } else if str_eq(target_os, "macos") {
        "dylib"
    } else {
        "so"
    }
}

/// The candidate paths for the native library `name` in `dir`.
pub fn library_paths(dir: &str, name: &str, target_os: &str) -> (r: Vec<String>)
    ensures
        r@.map_values(|s: String| s@) == library_candidates(dir@, name@, target_os@),
{
    let ext = extension_for(target_os);
    let mut plain = String::from_str(name);
    plain.append(".");
    plain.append(ext);
    let mut out: Vec<String> = Vec::new();
    out.push(push_path(dir, plain.as_str()));
    if !str_eq(ext, "dll") {
        let mut prefixed = String::from_str("lib");
        prefixed.append(name);
        prefixed.append(".");
        prefixed.append(ext);
        out.push(push_path(dir, prefixed.as_str()));
    }
    assert(out@.map_values(|s: String| s@) =~= library_candidates(dir@, name@, target_os@));
    out
}

/// The first of `candidates[i..]` whose flag in `present` is set.
pub open spec fn first_present(candidates: Seq<Seq<char>>, present: Seq<bool>, i: int) -> Option<Seq<char>>
    decreases candidates.len() - i,
{
    if i < 0 || i >= candidates.len() || i >= present.len() {
        None
    } else if present[i] {
        Some(candidates[i])
    } else {
        first_present(candidates, present, i + 1)
    }
}

/// The first candidate whose flag in `present` is set (the flags say which
/// candidates exist).
pub fn first_existing(candidates: &Vec<String>, present: &Vec<bool>) -> (r: Option<String>)
    ensures
        match r {
            Some(p) => first_present(candidates@.map_values(|s: String| s@), present@, 0) == Some(p@),
            None => first_present(candidates@.map_values(|s: String| s@), present@, 0) is None,
        },
{
    let ghost c = candidates@.map_values(|s: String| s@);
    let mut i: usize = 0;
    while i < candidates.len() && i < present.len()
        invariant
            i <= candidates@.len(),
            c == candidates@.map_values(|s: String| s@),
            first_present(c, present@, i as int) == first_present(c, present@, 0),
        decreases candidates@.len() - i,
    {
        if present[i] {
            let p = candidates[i].clone();
            assert(p@ == c[i as int]);
            return Some(p);
        }
        i += 1;
    }
    None
}

/// Finds the native library `name` in `dir`: the first candidate path that
/// exists, for the target OS named `target_os`. Which candidates exist is
/// the file system's answer; the choice among them is `first_present`.
pub fn find_library_in_dir(dir: &str, name: &str, target_os: &str) -> (r: Option<String>)
    ensures
        exists|present: Seq<bool>|
            #![trigger first_present(library_candidates(dir@, name@, target_os@), present, 0)]
            present.len() == library_candidates(dir@, name@, target_os@).len() && match r {
                Some(p) => first_present(library_candidates(dir@, name@, target_os@), present, 0) == Some(p@),
                None => first_present(library_candidates(dir@, name@, target_os@), present, 0) is None,
            },
{
    let candidates = library_paths(dir, name, target_os);
    let mut present: Vec<bool> = Vec::new();
    let mut i: usize = 0;
    while i < candidates.len()
        invariant
            i <= candidates@.len(),
            present@.len() == i,
        decreases candidates@.len() - i,
    {
        present.push(path_exists(candidates[i].as_str()));
        i += 1;
    }
    let r = first_existing(&candidates, &present);
    assert(first_present(library_candidates(dir@, name@, target_os@), present@, 0) == first_present(
        candidates@.map_values(|s: String| s@),
        present@,
        0,
    ));
    r
}

} // verus!
