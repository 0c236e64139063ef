//! Dataset folder names in the kohya `N_name` convention, sample file names,
//! caption files and kernel paths.

use vstd::prelude::*;

use crate::paths::{file_name, file_stem, joined, path_file_name, path_file_stem, path_join, path_with_extension, with_extension};
use crate::text::{decimal, parse_unsigned, parse_unsigned_text, push_decimal};

verus! {

/// A separator between the repeat count and the rest of a folder name.
pub open spec fn is_group_sep(c: char) -> bool {
    c == '_' || c == '-' || c == ' '
}

/// Position of the first group separator (the length when there is none).
pub open spec fn first_group_sep(s: Seq<char>) -> int
    decreases s.len(),
{
    if s.len() == 0 {
        0
    } else if is_group_sep(s[0]) {
        0
    } else {
        1 + first_group_sep(s.drop_first())
    }
}

/// Position of the first `_` (the length when there is none).
pub open spec fn first_underscore(s: Seq<char>) -> int
    decreases s.len(),
{
    if s.len() == 0 {
        0
    } else if s[0] == '_' {
        0
    } else {
        1 + first_underscore(s.drop_first())
    }
}

/// The value of `s` as a `u64`, if it is one.
pub open spec fn parse_u64(s: Seq<char>) -> Option<nat> {
    parse_unsigned(s, u64::MAX as nat)
}

/// Training repeats of a dataset folder: the number before the first `_`, `-`
/// or space of its name, at least 1; 1 when there is no such number, and 1
/// for a name that is only a number (kohya would read it as a repeat count).
pub open spec fn repeats_of(dir: Seq<char>) -> nat {
    let name = match file_name(dir) {
        Some(n) => n,
        None => Seq::empty(),
    };
    let first = name.take(first_group_sep(name));
    let n = match parse_u64(first) {
        Some(v) => v,
        None => 1,
    };
    if name == first {
        1
    } else if n >= 1 {
        n
    } else {
        1
    }
}

/// Every group separator replaced by `_`.
pub open spec fn underscored(s: Seq<char>) -> Seq<char> {
    s.map_values(|c: char| if is_group_sep(c) { '_' } else { c })
}

/// A folder name in the `N_name` form kohya reads: a standard `N_` prefix is
/// kept; a name that is only a number gets `1_` in front; otherwise the
/// leading number (default 1) goes first and the rest is joined with `_`.
pub open spec fn group_name(name: Seq<char>) -> Seq<char> {
    let first_under = name.take(first_underscore(name));
    if parse_u64(first_under) is Some {
        if first_underscore(name) < name.len() {
            name
        } else {
            "1_"@ + name
        }
    } else {
        let k = first_group_sep(name);
        let n: nat = match parse_u64(name.take(k)) {
            Some(v) => if v >= 1 {
                v
            } else {
                1
            },
            None => 1,
        };
        let rest = if k < name.len() {
            underscored(name.skip(k + 1))
        } else {
            Seq::empty()
        };
        if rest.len() == 0 {
            decimal(n) + "_"@ + name
        } else {
            decimal(n) + "_"@ + rest
        }
    }
}

proof fn lemma_first_group_sep(s: Seq<char>)
    ensures
        0 <= first_group_sep(s) <= s.len(),
        first_group_sep(s) < s.len() ==> is_group_sep(s[first_group_sep(s)]),
        forall|k: int| 0 <= k < first_group_sep(s) ==> !is_group_sep(#[trigger] s[k]),
    decreases s.len(),
{
    if s.len() > 0 && !is_group_sep(s[0]) {
        lemma_first_group_sep(s.drop_first());
        assert forall|k: int| 0 <= k < first_group_sep(s) implies !is_group_sep(#[trigger] s[k]) by {
            if k > 0 {
                assert(s.drop_first()[k - 1] == s[k]);
            }
        }
    }
}

proof fn lemma_first_underscore(s: Seq<char>)
    ensures
        0 <= first_underscore(s) <= s.len(),
        first_underscore(s) < s.len() ==> s[first_underscore(s)] == '_',
        forall|k: int| 0 <= k < first_underscore(s) ==> #[trigger] s[k] != '_',
    decreases s.len(),
{
    if s.len() > 0 && s[0] != '_' {
        lemma_first_underscore(s.drop_first());
        assert forall|k: int| 0 <= k < first_underscore(s) implies #[trigger] s[k] != '_' by {
            if k > 0 {
                assert(s.drop_first()[k - 1] == s[k]);
            }
        }
    }
}

fn group_sep_pos(s: &str) -> (r: usize)
    ensures
        r == first_group_sep(s@),
{
    proof {
        lemma_first_group_sep(s@);
    }
    let n = s.unicode_len();
    let mut i: usize = 0;
    while i < n
        invariant
            n == s@.len(),
            i <= first_group_sep(s@),
        decreases n - i,
    {
        proof {
            lemma_first_group_sep(s@);
        }
        let c = s.get_char(i);
        if c == '_' || c == '-' || c == ' ' {
            return i;
        }
        i = i + 1;
    }
    proof {
        lemma_first_group_sep(s@);
    }
    i
}

fn underscore_pos(s: &str) -> (r: usize)
    ensures
        r == first_underscore(s@),
{
    proof {
        lemma_first_underscore(s@);
    }
    let n = s.unicode_len();
    let mut i: usize = 0;
    while i < n
        invariant
            n == s@.len(),
            i <= first_underscore(s@),
        decreases n - i,
    {
        proof {
            lemma_first_underscore(s@);
        }
        if s.get_char(i) == '_' {
            return i;
        }
        i = i + 1;
    }
    proof {
        lemma_first_underscore(s@);
    }
    i
}

/// Training repeats of a dataset folder, from its name.
pub fn repeats_from_dir(dataset_dir: &str) -> (r: u64)
    ensures
        r == repeats_of(dataset_dir@),
{
    let name = match path_file_name(dataset_dir) {
        Some(n) => n,
        None => "",
    };
    proof {
        reveal_strlit("");
    }
    let k = group_sep_pos(name);
    proof {
        lemma_first_group_sep(name@);
    }
    let first = name.substring_char(0, k);
    let n: u64 = match parse_unsigned_text(first, u64::MAX) {
        Some(v) => v,
        None => 1,
    };
    proof {
        assert(first@ =~= name@.take(k as int));
    }
    if k == name.unicode_len() {
        proof {
            assert(name@ =~= first@);
        }
        1
    } else {
        proof {
            assert(name@.len() != first@.len());
        }
        if n >= 1 {
            n
        } else {
            1
        }
    }
}

/// `s` with every group separator replaced by `_`.
fn underscore_all(s: &str) -> (r: String)
    ensures
        r@ == underscored(s@),
{
    let n = s.unicode_len();
    let mut out = String::new();
    let mut i: usize = 0;
    while i < n
        invariant
            n == s@.len(),
            i <= n,
            out@ == underscored(s@.take(i as int)),
        decreases n - i,
    {
        let c = s.get_char(i);
        if c == '_' || c == '-' || c == ' ' {
            out.append("_");
            proof {
                reveal_strlit("_");
            }
        } else {
            let one = s.substring_char(i, i + 1);
            proof {
                assert(one@ =~= seq![c]);
            }
            out.append(one);
        }
        i = i + 1;
        proof {
            assert(out@ =~= underscored(s@.take(i as int)));
        }
    }
    proof {
        assert(s@.take(n as int) =~= s@);
    }
    out
}

/// A folder name in the `N_name` form kohya reads.
pub fn normalize_group_name(name: &str) -> (r: String)
    ensures
        r@ == group_name(name@),
{
    let len = name.unicode_len();
    let u = underscore_pos(name);
    proof {
        lemma_first_underscore(name@);
    }
    let first_under = name.substring_char(0, u);
    proof {
        assert(first_under@ =~= name@.take(u as int));
    }
    if parse_unsigned_text(first_under, u64::MAX).is_some() {
        if u < len {
            return String::from_str(name);
        }
        let mut r = String::from_str("1_");
        r.append(name);
        return r;
    }
    let k = group_sep_pos(name);
    proof {
        lemma_first_group_sep(name@);
    }
    let first = name.substring_char(0, k);
    proof {
        assert(first@ =~= name@.take(k as int));
    }
    let n: u64 = match parse_unsigned_text(first, u64::MAX) {
        Some(v) => if v >= 1 {
            v
        } else {
            1
        },
        None => 1,
    };
    let rest = if k < len {
        let tail = name.substring_char(k + 1, len);
        proof {
            assert(tail@ =~= name@.skip(k + 1));
        }
        underscore_all(tail)
    } else {
        String::new()
    };
    let mut r = String::new();
    push_decimal(&mut r, n);
    r.append("_");
    if rest.unicode_len() == 0 {
        r.append(name);
    } else {
        r.append(rest.as_str());
    }
    proof {
        assert(r@ =~= group_name(name@));
    }
    r
}

/// Step number of a sample image, read from its file name
/// (`mock-step-0010.png` gives 10): the text after the last `-` of the stem,
/// 0 when that is not a number.
pub open spec fn step_hint(path: Seq<char>) -> nat {
    match file_stem(path) {
        Some(stem) => {
            let tail = stem.skip(last_dash_end(stem));
            match parse_unsigned(tail, u32::MAX as nat) {
                Some(v) => v,
                None => 0,
            }
        },
        None => 0,
    }
}

/// Position just after the last `-` of `s` (0 when there is none).
pub open spec fn last_dash_end(s: Seq<char>) -> int
    decreases s.len(),
{
    if s.len() == 0 {
        0
    } else if s.last() == '-' {
        s.len() as int
    } else {
        last_dash_end(s.drop_last())
    }
}

proof fn lemma_last_dash_end(s: Seq<char>)
    ensures
        0 <= last_dash_end(s) <= s.len(),
    decreases s.len(),
{
    if s.len() > 0 && s.last() != '-' {
        lemma_last_dash_end(s.drop_last());
    }
}

fn dash_end(s: &str, n: usize) -> (r: usize)
    requires
        n <= s@.len(),
    ensures
        r == last_dash_end(s@.take(n as int)),
    decreases n,
{
    if n == 0 {
        return 0;
    }
    let c = s.get_char(n - 1);
    proof {
        assert(s@.take(n as int).last() == c);
        assert(s@.take(n as int).drop_last() =~= s@.take(n - 1));
    }
    if c == '-' {
        n
    } else {
        dash_end(s, n - 1)
    }
}

/// Step number of a sample image, read from its file name.
pub fn sample_step_hint(path: &str) -> (r: u32)
    ensures
        r == step_hint(path@),
{
    match path_file_stem(path) {
        Some(stem) => {
            let n = stem.unicode_len();
            let a = dash_end(stem, n);
            proof {
                assert(stem@.take(n as int) =~= stem@);
                lemma_last_dash_end(stem@);
            }
            let tail = stem.substring_char(a, n);
            proof {
                assert(tail@ =~= stem@.skip(a as int));
            }
            match parse_unsigned_text(tail, 4294967295u64) {
                Some(v) => v as u32,
                None => 0,
            }
        },
        None => 0,
    }
}


/// Caption file of an image (kohya convention): the image path below `root`
/// with its extension replaced by `.txt`.
pub open spec fn caption_path(root: Seq<char>, image_rel: Seq<char>, windows: bool) -> Seq<char> {
    with_extension(joined(root, image_rel, windows), "txt"@)
}

/// Caption file of an image below `root`.
pub fn caption_path_for(root: &str, image_rel: &str, windows: bool) -> (r: String)
    ensures
        r@ == caption_path(root@, image_rel@, windows),
{
    let full = path_join(root, image_rel, windows);
    path_with_extension(full.as_str(), "txt")
}

/// Python of a virtual environment: `Scripts/python.exe` on Windows,
/// `bin/python` elsewhere.
pub open spec fn venv_python(venv: Seq<char>, windows: bool) -> Seq<char> {
    joined(venv, if windows { "Scripts/python.exe"@ } else { "bin/python"@ }, windows)
}

/// Python of a virtual environment.
pub fn venv_python_path(venv: &str, windows: bool) -> (r: String)
    ensures
        r@ == venv_python(venv@, windows),
{
    if windows {
        path_join(venv, "Scripts/python.exe", windows)
    } else {
        path_join(venv, "bin/python", windows)
    }
}

/// Where the kernel runner script ships, relative to the server package
/// directory.
pub open spec fn wrapper_path(manifest_dir: Seq<char>, windows: bool) -> Seq<char> {
    joined(manifest_dir, "../tiandi-engine-compat/assets/kernel_runner.py"@, windows)
}

/// Default kernel runner script of a build whose package directory is
/// `manifest_dir`.
pub fn default_wrapper_path(manifest_dir: &str, windows: bool) -> (r: String)
    ensures
        r@ == wrapper_path(manifest_dir@, windows),
{
    path_join(manifest_dir, "../tiandi-engine-compat/assets/kernel_runner.py", windows)
}

} // verus!
