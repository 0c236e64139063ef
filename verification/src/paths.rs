//! Path text as the workbench reads it: `/` and `\` both separate components
//! (the Windows reading), `.` components are skipped, and a path is joined
//! with the separator of the platform it runs on.

use vstd::prelude::*;

verus! {

/// A component separator.
pub open spec fn is_sep(c: char) -> bool {
    c == '/' || c == '\\'
}

/// `s` without its trailing separators.
pub open spec fn trim_end_seps(s: Seq<char>) -> Seq<char>
    decreases s.len(),
{
    if s.len() > 0 && is_sep(s.last()) {
        trim_end_seps(s.drop_last())
    } else {
        s
    }
}

/// Position just after the last separator of `s` (0 when there is none).
pub open spec fn last_sep_end(s: Seq<char>) -> int
    decreases s.len(),
{
    if s.len() == 0 {
        0
    } else if is_sep(s.last()) {
        s.len() as int
    } else {
        last_sep_end(s.drop_last())
    }
}

/// The text after the last separator.
pub open spec fn last_segment(s: Seq<char>) -> Seq<char> {
    s.skip(last_sep_end(s))
}

/// The last component of a path, if it names a file or directory: trailing
/// separators and `.` components are skipped; an empty path, `.` and `..` name
/// none.
pub open spec fn file_name(s: Seq<char>) -> Option<Seq<char>>
    decreases s.len(),
{
    let t = trim_end_seps(s);
    let n = last_segment(t);
    if n == seq!['.'] && t.len() > 1 {
        proof {
            lemma_trim_end_seps_prefix(s);
        }
        file_name(t.drop_last())
    } else if n.len() == 0 || n == seq!['.'] || n == seq!['.', '.'] {
        None
    } else {
        Some(n)
    }
}

/// End of the component [`file_name`] reads (trailing separators and `.`
/// components are past it).
pub open spec fn name_end(s: Seq<char>) -> int
    decreases s.len(),
{
    let t = trim_end_seps(s);
    let n = last_segment(t);
    if n == seq!['.'] && t.len() > 1 {
        proof {
            lemma_trim_end_seps_prefix(s);
        }
        name_end(t.drop_last())
    } else {
        t.len() as int
    }
}

/// The path with the extension of its file name replaced by `ext` (removed
/// when `ext` is empty); unchanged when it names no file. What follows the
/// file name (trailing separators, `.` components) is dropped.
pub open spec fn with_extension(p: Seq<char>, ext: Seq<char>) -> Seq<char> {
    match file_name(p) {
        Some(n) => p.take(name_end(p) - n.len() + stem_of(n).len()) + (if ext.len() > 0 {
            "."@ + ext
        } else {
            Seq::empty()
        }),
        None => p,
    }
}

/// Position of the last `.` in `s`, or -1.
pub open spec fn last_dot(s: Seq<char>) -> int
    decreases s.len(),
{
    if s.len() == 0 {
        -1
    } else if s.last() == '.' {
        s.len() - 1
    } else {
        last_dot(s.drop_last())
    }
}

/// A file name without its extension: the part before the last `.`, unless
/// that `.` starts the name.
pub open spec fn stem_of(name: Seq<char>) -> Seq<char> {
    if last_dot(name) > 0 {
        name.take(last_dot(name))
    } else {
        name
    }
}

/// The file stem of a path.
pub open spec fn file_stem(s: Seq<char>) -> Option<Seq<char>> {
    match file_name(s) {
        Some(n) => Some(stem_of(n)),
        None => None,
    }
}

/// Trimming trailing separators keeps a prefix and removes only separators.
pub proof fn lemma_trim_end_seps_prefix(s: Seq<char>)
    ensures
        trim_end_seps(s).len() <= s.len(),
        trim_end_seps(s) == s.take(trim_end_seps(s).len() as int),
        trim_end_seps(s).len() == 0 || !is_sep(trim_end_seps(s).last()),
        forall|k: int| trim_end_seps(s).len() <= k < s.len() ==> is_sep(#[trigger] s[k]),
    decreases s.len(),
{
    if s.len() > 0 && is_sep(s.last()) {
        lemma_trim_end_seps_prefix(s.drop_last());
        assert(trim_end_seps(s) == trim_end_seps(s.drop_last()));
        assert(s.drop_last().take(trim_end_seps(s).len() as int) =~= s.take(trim_end_seps(s).len() as int));
        assert forall|k: int| trim_end_seps(s).len() <= k < s.len() implies is_sep(#[trigger] s[k]) by {
            if k < s.len() - 1 {
                assert(s.drop_last()[k] == s[k]);
            }
        }
    } else {
        assert(s.take(s.len() as int) =~= s);
    }
}

proof fn lemma_last_sep_end(s: Seq<char>)
    ensures
        0 <= last_sep_end(s) <= s.len(),
        last_sep_end(s) == 0 || is_sep(s[last_sep_end(s) - 1]),
        forall|k: int| last_sep_end(s) <= k < s.len() ==> !is_sep(#[trigger] s[k]),
    decreases s.len(),
{
    if s.len() > 0 && !is_sep(s.last()) {
        lemma_last_sep_end(s.drop_last());
        assert forall|k: int| last_sep_end(s) <= k < s.len() implies !is_sep(#[trigger] s[k]) by {
            if k < s.len() - 1 {
                assert(s.drop_last()[k] == s[k]);
            }
        }
    }
}

proof fn lemma_last_dot(s: Seq<char>)
    ensures
        -1 <= last_dot(s) < s.len(),
        last_dot(s) >= 0 ==> s[last_dot(s)] == '.',
        forall|k: int| last_dot(s) < k < s.len() ==> #[trigger] s[k] != '.',
    decreases s.len(),
{
    if s.len() > 0 && s.last() != '.' {
        lemma_last_dot(s.drop_last());
        assert forall|k: int| last_dot(s) < k < s.len() implies #[trigger] s[k] != '.' by {
            if k < s.len() - 1 {
                assert(s.drop_last()[k] == s[k]);
            }
        }
    }
}

proof fn lemma_stem_len(name: Seq<char>)
    ensures
        stem_of(name).len() <= name.len(),
{
    lemma_last_dot(name);
}

/// Length of `s` without its trailing separators.
fn trimmed_len(s: &str, n: usize) -> (r: usize)
    requires
        n <= s@.len(),
    ensures
        r <= n,
        s@.take(n as int).take(r as int) == trim_end_seps(s@.take(n as int)),
    decreases n,
{
    proof {
        lemma_trim_end_seps_prefix(s@.take(n as int));
    }
    if n > 0 {
        let c = s.get_char(n - 1);
        if c == '/' || c == '\\' {
            proof {
                assert(s@.take(n as int).last() == c);
                assert(s@.take(n as int).drop_last() =~= s@.take(n - 1));
            }
            let r = trimmed_len(s, n - 1);
            proof {
                assert(s@.take(n - 1).take(r as int) =~= s@.take(n as int).take(r as int));
            }
            return r;
        }
        proof {
            assert(s@.take(n as int).last() == c);
        }
    }
    proof {
        assert(s@.take(n as int).take(n as int) =~= s@.take(n as int));
    }
    n
}

/// Start of the last segment of the first `n` characters of `s`.
fn segment_start(s: &str, n: usize) -> (r: usize)
    requires
        n <= s@.len(),
    ensures
        r <= n,
        r == last_sep_end(s@.take(n as int)),
    decreases n,
{
    if n == 0 {
        return 0;
    }
    let c = s.get_char(n - 1);
    proof {
        assert(s@.take(n as int).last() == c);
        assert(s@.take(n as int).drop_last() =~= s@.take(n - 1));
    }
    if c == '/' || c == '\\' {
        n
    } else {
        segment_start(s, n - 1)
    }
}

/// Bounds of the component [`file_name`] reads: `Some((start, end))` with
/// the name at `start..end`, or `None`.
fn name_bounds(s: &str) -> (r: Option<(usize, usize)>)
    ensures
        match r {
            Some((a, e)) => a <= e <= s@.len() && e == name_end(s@) && file_name(s@) == Some(
                s@.subrange(a as int, e as int),
            ),
            None => file_name(s@) is None,
        },
{
    let total = s.unicode_len();
    let mut n: usize = total;
    proof {
        assert(s@.take(n as int) =~= s@);
    }
    loop
        invariant
            n <= s@.len(),
            file_name(s@.take(n as int)) == file_name(s@),
            name_end(s@.take(n as int)) == name_end(s@),
        decreases n,
    {
        let t = trimmed_len(s, n);
        let a = segment_start(s, t);
        let ghost ts = s@.take(n as int).take(t as int);
        proof {
            assert(ts =~= s@.take(t as int));
            lemma_last_sep_end(ts);
        }
        let len = t - a;
        let is_dot = len == 1 && s.get_char(a) == '.';
        let is_dotdot = len == 2 && s.get_char(a) == '.' && s.get_char(a + 1) == '.';
        let ghost seg = last_segment(ts);
        proof {
            assert(seg =~= s@.subrange(a as int, t as int));
            if len == 1 {
                assert(seg[0] == s@[a as int]);
                if s@[a as int] == '.' {
                    assert(seg =~= seq!['.']);
                }
            }
            if len == 2 {
                assert(seg[0] == s@[a as int]);
                assert(seg[1] == s@[a + 1]);
                if s@[a as int] == '.' && s@[a + 1] == '.' {
                    assert(seg =~= seq!['.', '.']);
                }
            }
            if seg == seq!['.'] {
                assert(seg.len() == 1 && seg[0] == '.');
            }
            if seg == seq!['.', '.'] {
                assert(seg.len() == 2 && seg[0] == '.' && seg[1] == '.');
            }
            assert(is_dot == (seg == seq!['.']));
            assert(is_dotdot == (seg == seq!['.', '.']));
        }
        if is_dot && t > 1 {
            proof {
                assert(ts.drop_last() =~= s@.take(t - 1));
            }
            n = t - 1;
        } else if len == 0 || is_dot || is_dotdot {
            return None;
        } else {
            return Some((a, t));
        }
    }
}

/// The last component of a path, as [`file_name`] reads it.
pub fn path_file_name(s: &str) -> (r: Option<&str>)
    ensures
        match (r, file_name(s@)) {
            (Some(a), Some(b)) => a@ == b,
            (None, None) => true,
            _ => false,
        },
{
    match name_bounds(s) {
        Some((a, e)) => Some(s.substring_char(a, e)),
        None => None,
    }
}

/// Position of the last `.` among the first `n` characters of `s`, or `n`
/// when there is none.
fn dot_pos(s: &str, n: usize) -> (r: usize)
    requires
        n <= s@.len(),
    ensures
        r <= n,
        r == n <==> last_dot(s@.take(n as int)) == -1,
        r < n ==> r == last_dot(s@.take(n as int)),
    decreases n,
{
    if n == 0 {
        return 0;
    }
    let c = s.get_char(n - 1);
    proof {
        assert(s@.take(n as int).last() == c);
        assert(s@.take(n as int).drop_last() =~= s@.take(n - 1));
    }
    if c == '.' {
        n - 1
    } else {
        let r = dot_pos(s, n - 1);
        if r == n - 1 {
            n
        } else {
            r
        }
    }
}

/// The stem of a file name.
pub fn name_stem(name: &str) -> (r: &str)
    ensures
        r@ == stem_of(name@),
{
    let n = name.unicode_len();
    let d = dot_pos(name, n);
    proof {
        assert(name@.take(n as int) =~= name@);
    }
    if d < n && d > 0 {
        name.substring_char(0, d)
    } else {
        proof {
            assert(name@.subrange(0, n as int) =~= name@);
        }
        name.substring_char(0, n)
    }
}

/// The file stem of a path, as [`file_stem`] reads it.
pub fn path_file_stem(s: &str) -> (r: Option<&str>)
    ensures
        match (r, file_stem(s@)) {
            (Some(a), Some(b)) => a@ == b,
            (None, None) => true,
            _ => false,
        },
{
    match path_file_name(s) {
        Some(n) => Some(name_stem(n)),
        None => None,
    }
}


/// A separator on the platform (`\` counts on Windows only).
pub open spec fn is_platform_sep(c: char, windows: bool) -> bool {
    c == '/' || (windows && c == '\\')
}

/// The path starts with a drive, like `D:`.
pub open spec fn has_drive(s: Seq<char>) -> bool {
    s.len() >= 2 && s[1] == ':' && (('a' <= s[0] && s[0] <= 'z') || ('A' <= s[0] && s[0] <= 'Z'))
}

/// `rel` joined to `base` as `PathBuf::push` does on the platform: a rooted
/// `rel` replaces `base` (on Windows keeping the drive of `base`), a `rel` with
/// a drive replaces it; otherwise one separator goes between them unless
/// `base` is empty, ends with a separator or is a bare drive.
pub open spec fn joined(base: Seq<char>, rel: Seq<char>, windows: bool) -> Seq<char> {
    if windows && has_drive(rel) {
        rel
    } else if rel.len() > 0 && is_platform_sep(rel[0], windows) {
        if windows && has_drive(base) {
            base.take(2) + rel
        } else {
            rel
        }
    } else if base.len() == 0 || is_platform_sep(base.last(), windows) || (windows && has_drive(base)
        && base.len() == 2) {
        base + rel
    } else if windows {
        base + "\\"@ + rel
    } else {
        base + "/"@ + rel
    }
}

fn drive_at_start(s: &str) -> (r: bool)
    ensures
        r == has_drive(s@),
{
    if s.unicode_len() < 2 {
        return false;
    }
    let c = s.get_char(0);
    s.get_char(1) == ':' && (('a' <= c && c <= 'z') || ('A' <= c && c <= 'Z'))
}

fn platform_sep(c: char, windows: bool) -> (r: bool)
    ensures
        r == is_platform_sep(c, windows),
{
    c == '/' || (windows && c == '\\')
}

/// `rel` joined to `base` on the platform.
pub fn path_join(base: &str, rel: &str, windows: bool) -> (r: String)
    ensures
        r@ == joined(base@, rel@, windows),
{
    let bl = base.unicode_len();
    let rl = rel.unicode_len();
    if windows && drive_at_start(rel) {
        return String::from_str(rel);
    }
    if rl > 0 && platform_sep(rel.get_char(0), windows) {
        if windows && drive_at_start(base) {
            let mut r = String::from_str(base.substring_char(0, 2));
            r.append(rel);
            proof {
                assert(r@ =~= joined(base@, rel@, windows));
            }
            return r;
        }
        return String::from_str(rel);
    }
    let mut r = String::from_str(base);
    if bl == 0 || platform_sep(base.get_char(bl - 1), windows) || (windows && drive_at_start(base) && bl
        == 2) {
    } else if windows {
        r.append("\\");
    } else {
        r.append("/");
    }
    r.append(rel);
    proof {
        assert(r@ =~= joined(base@, rel@, windows));
    }
    r
}

/// The path with the extension of its file name replaced by `ext`.
pub fn path_with_extension(p: &str, ext: &str) -> (r: String)
    ensures
        r@ == with_extension(p@, ext@),
{
    match name_bounds(p) {
        Some((a, e)) => {
            let name = p.substring_char(a, e);
            let stem = name_stem(name);
            proof {
                lemma_stem_len(name@);
            }
            let keep = a + stem.unicode_len();
            let mut r = String::from_str(p.substring_char(0, keep));
            if ext.unicode_len() > 0 {
                r.append(".");
                r.append(ext);
            }
            proof {
                assert(r@ =~= with_extension(p@, ext@));
            }
            r
        },
        None => String::from_str(p),
    }
}

/// Position of the first separator of `s` (its length when there is none).
pub open spec fn first_sep(s: Seq<char>, windows: bool) -> int
    decreases s.len(),
{
    if s.len() == 0 {
        0
    } else if is_platform_sep(s[0], windows) {
        0
    } else {
        1 + first_sep(s.drop_first(), windows)
    }
}

proof fn lemma_first_sep(s: Seq<char>, windows: bool)
    ensures
        0 <= first_sep(s, windows) <= s.len(),
        first_sep(s, windows) < s.len() ==> is_platform_sep(s[first_sep(s, windows)], windows),
        forall|k: int| 0 <= k < first_sep(s, windows) ==> !is_platform_sep(#[trigger] s[k], windows),
    decreases s.len(),
{
    if s.len() > 0 && !is_platform_sep(s[0], windows) {
        lemma_first_sep(s.drop_first(), windows);
        assert forall|k: int| 0 <= k < first_sep(s, windows) implies !is_platform_sep(#[trigger] s[k], windows) by {
            if k > 0 {
                assert(s.drop_first()[k - 1] == s[k]);
            }
        }
    }
}

/// One of the components of `s` is `..`.
pub open spec fn has_parent_component(s: Seq<char>, windows: bool) -> bool
    decreases s.len(),
{
    let k = first_sep(s, windows);
    if 0 <= k <= s.len() && s.take(k) == seq!['.', '.'] {
        true
    } else if 0 <= k < s.len() {
        has_parent_component(s.skip(k + 1), windows)
    } else {
        false
    }
}

/// A relative artefact path that would leave the folder it is read in: it
/// starts at a root (a separator), or on Windows at a drive (`C:`), or one
/// of its components is `..`.
pub open spec fn escapes_folder(s: Seq<char>, windows: bool) -> bool {
    ||| s.len() > 0 && is_platform_sep(s[0], windows)
    ||| windows && has_drive(s)
    ||| has_parent_component(s, windows)
}

fn sep_from(s: &str, from: usize, windows: bool) -> (r: usize)
    requires
        from <= s@.len(),
    ensures
        r - from == first_sep(s@.skip(from as int), windows),
{
    proof {
        lemma_first_sep(s@.skip(from as int), windows);
    }
    let n = s.unicode_len();
    let mut i: usize = from;
    while i < n
        invariant
            n == s@.len(),
            from <= i <= n,
            i - from <= first_sep(s@.skip(from as int), windows),
            0 <= first_sep(s@.skip(from as int), windows) <= s@.len() - from,
            first_sep(s@.skip(from as int), windows) < s@.len() - from ==> is_platform_sep(
                s@.skip(from as int)[first_sep(s@.skip(from as int), windows)],
                windows,
            ),
        decreases n - i,
    {
        let c = s.get_char(i);
        if c == '/' || (windows && c == '\\') {
            proof {
                assert(s@.skip(from as int)[i - from] == c);
                lemma_first_sep(s@.skip(from as int), windows);
            }
            return i;
        }
        proof {
            assert(s@.skip(from as int)[i - from] == c);
        }
        i = i + 1;
    }
    i
}

/// Whether a relative artefact path would leave the folder it is read in.
pub fn escapes_root(path: &str, windows: bool) -> (r: bool)
    ensures
        r == escapes_folder(path@, windows),
{
    let n = path.unicode_len();
    if n > 0 {
        let c = path.get_char(0);
        if c == '/' || (windows && c == '\\') {
            return true;
        }
    }
    if windows && drive_at_start(path) {
        return true;
    }
    let mut start: usize = 0;
    proof {
        assert(path@.skip(0) =~= path@);
    }
    loop
        invariant
            n == path@.len(),
            start <= n,
            has_parent_component(path@, windows) == has_parent_component(path@.skip(start as int), windows),
            !(n > 0 && is_platform_sep(path@[0], windows)),
            !(windows && has_drive(path@)),
        decreases n - start,
    {
        let k = sep_from(path, start, windows);
        let ghost rest = path@.skip(start as int);
        proof {
            lemma_first_sep(rest, windows);
        }
        if k - start == 2 && path.get_char(start) == '.' && path.get_char(start + 1) == '.' {
            proof {
                assert(rest.take(2) =~= seq!['.', '.']);
            }
            return true;
        }
        proof {
            if rest.take(k - start) == seq!['.', '.'] {
                assert(rest.take(k - start).len() == 2);
                assert(k - start == 2);
                assert(rest.take(2)[0] == rest[0]);
                assert(rest.take(2)[1] == rest[1]);
                assert(rest[0] == path@[start as int]);
                assert(rest[1] == path@[start + 1]);
            }
        }
        if k >= n {
            return false;
        }
        proof {
            assert(rest.skip(k - start + 1) =~= path@.skip(k + 1));
        }
        start = k + 1;
    }
}

} // verus!
