//! Text pieces of the kernel configuration files: TOML basic strings, forward
//! slashed paths, trimmed argument lines and `key = value` lines.

use vstd::prelude::*;

use crate::number::Real;
use crate::text::{bool_text, decimal, push_bool, push_decimal};

verus! {

/// Uppercase hexadecimal digit of `d` (0..=15).
pub open spec fn hex_digit(d: int) -> Seq<char> {
    if d == 0 {
        "0"@
    } else if d == 1 {
        "1"@
    } else if d == 2 {
        "2"@
    } else if d == 3 {
        "3"@
    } else if d == 4 {
        "4"@
    } else if d == 5 {
        "5"@
    } else if d == 6 {
        "6"@
    } else if d == 7 {
        "7"@
    } else if d == 8 {
        "8"@
    } else if d == 9 {
        "9"@
    } else if d == 10 {
        "A"@
    } else if d == 11 {
        "B"@
    } else if d == 12 {
        "C"@
    } else if d == 13 {
        "D"@
    } else if d == 14 {
        "E"@
    } else {
        "F"@
    }
}

/// A control character that TOML basic strings cannot hold as it is.
pub open spec fn is_control(c: char) -> bool {
    (c as u32) < 0x20 || c == '\u{7f}'
}

/// The escape of one character inside a TOML basic string.
pub open spec fn escape_char(c: char) -> Seq<char> {
    if c == '\\' {
        "\\\\"@
    } else if c == '"' {
        "\\\""@
    } else if c == '\n' {
        "\\n"@
    } else if c == '\r' {
        "\\r"@
    } else if c == '\t' {
        "\\t"@
    } else if is_control(c) {
        "\\u00"@ + hex_digit((c as int) / 16) + hex_digit((c as int) % 16)
    } else {
        seq![c]
    }
}

/// The escapes of all characters of `s`, in order.
pub open spec fn escaped(s: Seq<char>) -> Seq<char>
    decreases s.len(),
{
    if s.len() == 0 {
        Seq::empty()
    } else {
        escaped(s.drop_last()) + escape_char(s.last())
    }
}

/// `s` as a TOML basic string: in double quotes, with `\`, `"` and control
/// characters escaped.
pub open spec fn quoted(s: Seq<char>) -> Seq<char> {
    "\""@ + escaped(s) + "\""@
}

/// `s` with every backslash turned into a forward slash.
pub open spec fn slashed(s: Seq<char>) -> Seq<char> {
    s.map_values(|c: char| if c == '\\' { '/' } else { c })
}

/// Unicode `White_Space` characters (what `char::is_whitespace` accepts).
pub open spec fn is_white(c: char) -> bool {
    let u = c as u32;
    (0x09 <= u && u <= 0x0D) || u == 0x20 || u == 0x85 || u == 0xA0 || u == 0x1680 || (0x2000 <= u
        && u <= 0x200A) || u == 0x2028 || u == 0x2029 || u == 0x202F || u == 0x205F || u == 0x3000
}

/// Number of leading white-space characters of `s`.
pub open spec fn lead_white(s: Seq<char>) -> nat
    decreases s.len(),
{
    if s.len() > 0 && is_white(s[0]) {
        1 + lead_white(s.drop_first())
    } else {
        0
    }
}

/// Number of trailing white-space characters of `s`.
pub open spec fn trail_white(s: Seq<char>) -> nat
    decreases s.len(),
{
    if s.len() > 0 && is_white(s.last()) {
        1 + trail_white(s.drop_last())
    } else {
        0
    }
}

/// `s` without leading and trailing white space.
pub open spec fn trimmed(s: Seq<char>) -> Seq<char> {
    let t = s.skip(lead_white(s) as int);
    t.take(t.len() - trail_white(t))
}

/// A `key = value` line.
#[verifier::opaque]
pub open spec fn kv(key: Seq<char>, value: Seq<char>) -> Seq<char> {
    key + " = "@ + value + "\n"@
}

/// A line with a decimal value.
#[verifier::opaque]
pub open spec fn kv_num(key: Seq<char>, n: nat) -> Seq<char> {
    kv(key, decimal(n))
}

/// A line with a boolean value.
#[verifier::opaque]
pub open spec fn kv_bool(key: Seq<char>, b: bool) -> Seq<char> {
    kv(key, bool_text(b))
}

/// A line with a TOML string value.
#[verifier::opaque]
pub open spec fn kv_str(key: Seq<char>, s: Seq<char>) -> Seq<char> {
    kv(key, quoted(s))
}

/// A line with a path value (forward slashes, TOML string).
#[verifier::opaque]
pub open spec fn kv_path(key: Seq<char>, s: Seq<char>) -> Seq<char> {
    kv(key, quoted(slashed(s)))
}

/// A line for an optional number; nothing for `None`.
#[verifier::opaque]
pub open spec fn opt_num(key: Seq<char>, o: Option<u32>) -> Seq<char> {
    match o {
        Some(n) => kv_num(key, n as nat),
        None => Seq::empty(),
    }
}

/// A line for an optional boolean; nothing for `None`.
#[verifier::opaque]
pub open spec fn opt_bool(key: Seq<char>, o: Option<bool>) -> Seq<char> {
    match o {
        Some(b) => kv_bool(key, b),
        None => Seq::empty(),
    }
}

/// A line for an optional binary64 value; nothing for `None`.
#[verifier::opaque]
pub open spec fn opt_real(key: Seq<char>, o: Option<Real>) -> Seq<char> {
    match o {
        Some(r) => kv(key, r.text@),
        None => Seq::empty(),
    }
}

/// A line for an optional string; nothing for `None`.
#[verifier::opaque]
pub open spec fn opt_str(key: Seq<char>, o: Option<String>) -> Seq<char> {
    match o {
        Some(s) => kv_str(key, s@),
        None => Seq::empty(),
    }
}

/// A line for an optional path; nothing for `None`.
#[verifier::opaque]
pub open spec fn opt_path(key: Seq<char>, o: Option<String>) -> Seq<char> {
    match o {
        Some(s) => kv_path(key, s@),
        None => Seq::empty(),
    }
}

/// The non-blank lines of `lines`, trimmed, in order.
pub open spec fn arg_items(lines: Seq<Seq<char>>) -> Seq<Seq<char>>
    decreases lines.len(),
{
    if lines.len() == 0 {
        Seq::empty()
    } else {
        let t = trimmed(lines.last());
        if t.len() == 0 {
            arg_items(lines.drop_last())
        } else {
            arg_items(lines.drop_last()).push(t)
        }
    }
}

/// The quoted items joined by `, `.
pub open spec fn joined_quoted(items: Seq<Seq<char>>) -> Seq<char>
    decreases items.len(),
{
    if items.len() == 0 {
        Seq::empty()
    } else if items.len() == 1 {
        quoted(items[0])
    } else {
        joined_quoted(items.drop_last()) + ", "@ + quoted(items.last())
    }
}

/// The argument lines as a TOML array of strings; `None` when every line is
/// blank.
pub open spec fn args_array(lines: Seq<Seq<char>>) -> Option<Seq<char>> {
    let items = arg_items(lines);
    if items.len() == 0 {
        None
    } else {
        Some("["@ + joined_quoted(items) + "]"@)
    }
}

/// The views of a list of strings.
pub open spec fn views(v: Seq<String>) -> Seq<Seq<char>> {
    v.map_values(|s: String| s@)
}

fn hex_str(d: u32) -> (s: &'static str)
    requires
        d < 16,
    ensures
        s@ == hex_digit(d as int),
{
    if d == 0 {
        "0"
    } else if d == 1 {
        "1"
    } else if d == 2 {
        "2"
    } else if d == 3 {
        "3"
    } else if d == 4 {
        "4"
    } else if d == 5 {
        "5"
    } else if d == 6 {
        "6"
    } else if d == 7 {
        "7"
    } else if d == 8 {
        "8"
    } else if d == 9 {
        "9"
    } else if d == 10 {
        "A"
    } else if d == 11 {
        "B"
    } else if d == 12 {
        "C"
    } else if d == 13 {
        "D"
    } else if d == 14 {
        "E"
    } else {
        "F"
    }
}

/// Appends the escapes of `s`.
fn push_escaped(out: &mut String, s: &str)
    ensures
        final(out)@ == old(out)@ + escaped(s@),
{
    let n = s.unicode_len();
    let ghost start = out@;
    let mut i: usize = 0;
    while i < n
        invariant
            n == s@.len(),
            i <= n,
            out@ == start + escaped(s@.take(i as int)),
        decreases n - i,
    {
        let c = s.get_char(i);
        proof {
            assert(s@.take(i as int + 1).drop_last() =~= s@.take(i as int));
            assert(s@.take(i as int + 1).last() == c);
        }
        if c == '\\' {
            out.append("\\\\");
        } else if c == '"' {
            out.append("\\\"");
        } else if c == '\n' {
            out.append("\\n");
        } else if c == '\r' {
            out.append("\\r");
        } else if c == '\t' {
            out.append("\\t");
        } else if (c as u32) < 0x20 || c == '\u{7f}' {
            let u = c as u32;
            out.append("\\u00");
            out.append(hex_str(u / 16));
            out.append(hex_str(u % 16));
        } else {
            let one = s.substring_char(i, i + 1);
            proof {
                assert(one@ =~= seq![c]);
            }
            out.append(one);
        }
        i = i + 1;
        proof {
            assert(out@ =~= start + escaped(s@.take(i as int)));
        }
    }
    proof {
        assert(s@.take(n as int) =~= s@);
    }
}

/// `s` as a TOML basic string.
pub fn toml_quote(s: &str) -> (r: String)
    ensures
        r@ == quoted(s@),
{
    let mut out = String::new();
    out.append("\"");
    push_escaped(&mut out, s);
    out.append("\"");
    proof {
        assert(out@ =~= quoted(s@));
    }
    out
}

/// `s` with backslashes turned into forward slashes.
pub fn forward_slashes(s: &str) -> (r: String)
    ensures
        r@ == slashed(s@),
{
    let n = s.unicode_len();
    let mut out = String::new();
    let mut i: usize = 0;
    while i < n
        invariant
            n == s@.len(),
            i <= n,
            out@ == slashed(s@.take(i as int)),
        decreases n - i,
    {
        let c = s.get_char(i);
        if c == '\\' {
            out.append("/");
            proof {
                reveal_strlit("/");
            }
        } else {
            let one = s.substring_char(i, i + 1);
            proof {
                assert(one@ =~= seq![c]);
            }
            out.append(one);
        }
        i = i + 1;
        proof {
            assert(out@ =~= slashed(s@.take(i as int)));
        }
    }
    proof {
        assert(s@.take(n as int) =~= s@);
    }
    out
}


/// `c` is a Unicode white-space character.
pub fn is_white_char(c: char) -> (r: bool)
    ensures
        r == is_white(c),
{
    let u = c as u32;
    (0x09 <= u && u <= 0x0D) || u == 0x20 || u == 0x85 || u == 0xA0 || u == 0x1680 || (0x2000 <= u
        && u <= 0x200A) || u == 0x2028 || u == 0x2029 || u == 0x202F || u == 0x205F || u == 0x3000
}

proof fn lemma_lead_white_skip(s: Seq<char>, i: int)
    requires
        0 <= i <= s.len(),
        forall|k: int| 0 <= k < i ==> is_white(#[trigger] s[k]),
    ensures
        lead_white(s) == i + lead_white(s.skip(i)),
    decreases i,
{
    if i > 0 {
        assert(is_white(s[0]));
        lemma_lead_white_skip(s.drop_first(), i - 1);
        assert(s.drop_first().skip(i - 1) =~= s.skip(i));
    } else {
        assert(s.skip(0) =~= s);
    }
}

proof fn lemma_trail_white_take(s: Seq<char>, j: int)
    requires
        0 <= j <= s.len(),
        forall|k: int| s.len() - j <= k < s.len() ==> is_white(#[trigger] s[k]),
    ensures
        trail_white(s) == j + trail_white(s.take(s.len() - j)),
    decreases j,
{
    if j > 0 {
        assert(is_white(s.last()));
        lemma_trail_white_take(s.drop_last(), j - 1);
        assert(s.drop_last().take(s.drop_last().len() - (j - 1)) =~= s.take(s.len() - j));
    } else {
        assert(s.take(s.len() as int) =~= s);
    }
}

/// `s` without leading and trailing white space.
pub fn trim_text(s: &str) -> (r: &str)
    ensures
        r@ == trimmed(s@),
{
    let n = s.unicode_len();
    let mut a: usize = 0;
    while a < n && is_white_char(s.get_char(a))
        invariant
            n == s@.len(),
            a <= n,
            forall|k: int| 0 <= k < a ==> is_white(#[trigger] s@[k]),
        decreases n - a,
    {
        a = a + 1;
    }
    proof {
        lemma_lead_white_skip(s@, a as int);
        if a < n {
            assert(s@.skip(a as int)[0] == s@[a as int]);
        }
        assert(lead_white(s@) == a);
    }
    let ghost t = s@.skip(a as int);
    let mut j: usize = 0;
    while j < n - a && is_white_char(s.get_char(n - 1 - j))
        invariant
            n == s@.len(),
            a <= n,
            j <= n - a,
            t == s@.skip(a as int),
            forall|k: int| t.len() - j <= k < t.len() ==> is_white(#[trigger] t[k]),
        decreases n - a - j,
    {
        proof {
            assert(t[t.len() - j - 1] == s@[n - 1 - j]);
        }
        j = j + 1;
    }
    proof {
        lemma_trail_white_take(t, j as int);
        if j < n - a {
            assert(t.take(t.len() - j).last() == s@[n - 1 - j]);
        }
        assert(trail_white(t) == j);
    }
    let r = s.substring_char(a, n - j);
    proof {
        assert(r@ =~= trimmed(s@));
    }
    r
}

proof fn lemma_arg_items_len(lines: Seq<Seq<char>>)
    ensures
        arg_items(lines).len() <= lines.len(),
    decreases lines.len(),
{
    if lines.len() > 0 {
        lemma_arg_items_len(lines.drop_last());
    }
}

/// The non-blank argument lines, trimmed, as a TOML array of strings; `None`
/// when every line is blank.
pub fn custom_args_toml(lines: &[String]) -> (r: Option<String>)
    ensures
        match (r, args_array(views(lines@))) {
            (Some(a), Some(b)) => a@ == b,
            (None, None) => true,
            _ => false,
        },
{
    let mut body = String::new();
    let mut count: usize = 0;
    let mut i: usize = 0;
    while i < lines.len()
        invariant
            i <= lines@.len(),
            count == arg_items(views(lines@.take(i as int))).len(),
            count <= i,
            body@ == joined_quoted(arg_items(views(lines@.take(i as int)))),
        decreases lines@.len() - i,
    {
        let ghost before = views(lines@.take(i as int));
        let t = trim_text(lines[i].as_str());
        proof {
            assert(views(lines@.take(i as int + 1)) =~= before.push(lines@[i as int]@));
            assert(views(lines@.take(i as int + 1)).drop_last() =~= before);
        }
        if t.unicode_len() > 0 {
            if count > 0 {
                body.append(", ");
            }
            let q = toml_quote(t);
            body.append(q.as_str());
            proof {
                lemma_arg_items_len(before);
            }
            count = count + 1;
            proof {
                let items = arg_items(views(lines@.take(i as int + 1)));
                assert(items =~= arg_items(before).push(t@));
                assert(items.drop_last() =~= arg_items(before));
                assert(body@ =~= joined_quoted(items));
            }
        }
        i = i + 1;
    }
    proof {
        assert(lines@.take(lines@.len() as int) =~= lines@);
    }
    if count == 0 {
        None
    } else {
        let mut out = String::new();
        out.append("[");
        out.append(body.as_str());
        out.append("]");
        proof {
            assert(out@ =~= "["@ + joined_quoted(arg_items(views(lines@))) + "]"@);
        }
        Some(out)
    }
}


/// Appends `key = value`.
pub fn push_kv(out: &mut String, key: &str, value: &str)
    ensures
        final(out)@ == old(out)@ + kv(key@, value@),
{
    out.append(key);
    out.append(" = ");
    out.append(value);
    out.append("\n");
    proof {
        reveal(kv);
        assert(out@ =~= old(out)@ + kv(key@, value@));
    }
}

/// Appends `key = n`.
pub fn push_kv_num(out: &mut String, key: &str, n: u64)
    ensures
        final(out)@ == old(out)@ + kv_num(key@, n as nat),
{
    out.append(key);
    out.append(" = ");
    push_decimal(out, n);
    out.append("\n");
    proof {
        reveal(kv);
        reveal(kv_num);
        assert(out@ =~= old(out)@ + kv_num(key@, n as nat));
    }
}

/// Appends `key = true` or `key = false`.
pub fn push_kv_bool(out: &mut String, key: &str, b: bool)
    ensures
        final(out)@ == old(out)@ + kv_bool(key@, b),
{
    out.append(key);
    out.append(" = ");
    push_bool(out, b);
    out.append("\n");
    proof {
        reveal(kv);
        reveal(kv_bool);
        assert(out@ =~= old(out)@ + kv_bool(key@, b));
    }
}

/// Appends `key = <decimal rendering of x>`.
pub fn push_kv_real(out: &mut String, key: &str, x: &Real)
    ensures
        final(out)@ == old(out)@ + kv(key@, x.text@),
{
    push_kv(out, key, x.text.as_str());
}

/// Appends `key = "<s escaped>"`.
pub fn push_kv_str(out: &mut String, key: &str, s: &str)
    ensures
        final(out)@ == old(out)@ + kv_str(key@, s@),
{
    let q = toml_quote(s);
    push_kv(out, key, q.as_str());
    proof {
        reveal(kv_str);
    }
}

/// Appends `key = "<s with forward slashes, escaped>"`.
pub fn push_kv_path(out: &mut String, key: &str, s: &str)
    ensures
        final(out)@ == old(out)@ + kv_path(key@, s@),
{
    let f = forward_slashes(s);
    push_kv_str(out, key, f.as_str());
    proof {
        reveal(kv_str);
        reveal(kv_path);
    }
}

/// Appends `key = n` when the value is present.
pub fn push_opt(out: &mut String, key: &str, value: Option<u32>)
    ensures
        final(out)@ == old(out)@ + opt_num(key@, value),
{
    proof {
        reveal(opt_num);
    }
    match value {
        Some(n) => push_kv_num(out, key, n as u64),
        None => {
            proof {
                assert(out@ =~= old(out)@ + opt_num(key@, value));
            }
        },
    }
}

/// Appends `key = true|false` when the value is present.
pub fn push_opt_bool(out: &mut String, key: &str, value: Option<bool>)
    ensures
        final(out)@ == old(out)@ + opt_bool(key@, value),
{
    proof {
        reveal(opt_bool);
    }
    match value {
        Some(b) => push_kv_bool(out, key, b),
        None => {
            proof {
                assert(out@ =~= old(out)@ + opt_bool(key@, value));
            }
        },
    }
}

/// Appends `key = x` when the value is present.
pub fn push_opt_real(out: &mut String, key: &str, value: &Option<Real>)
    ensures
        final(out)@ == old(out)@ + opt_real(key@, *value),
{
    proof {
        reveal(opt_real);
    }
    match value {
        Some(x) => push_kv_real(out, key, x),
        None => {
            proof {
                assert(out@ =~= old(out)@ + opt_real(key@, *value));
            }
        },
    }
}

/// Appends `key = "<s escaped>"` when the value is present.
pub fn push_opt_str(out: &mut String, key: &str, value: &Option<String>)
    ensures
        final(out)@ == old(out)@ + opt_str(key@, *value),
{
    proof {
        reveal(opt_str);
    }
    match value {
        Some(s) => push_kv_str(out, key, s.as_str()),
        None => {
            proof {
                assert(out@ =~= old(out)@ + opt_str(key@, *value));
            }
        },
    }
}

/// Appends `key = "<path>"` when the value is present.
pub fn push_opt_path(out: &mut String, key: &str, value: &Option<String>)
    ensures
        final(out)@ == old(out)@ + opt_path(key@, *value),
{
    proof {
        reveal(opt_path);
    }
    match value {
        Some(s) => push_kv_path(out, key, s.as_str()),
        None => {
            proof {
                assert(out@ =~= old(out)@ + opt_path(key@, *value));
            }
        },
    }
}


/// Trimming nothing gives nothing.
pub proof fn lemma_trimmed_len(s: Seq<char>)
    requires
        s.len() == 0,
    ensures
        trimmed(s).len() == 0,
{
    assert(lead_white(s) == 0);
    assert(s.skip(0).len() == 0);
}

/// `piece` occurs in `text`, as a contiguous part of it.
pub open spec fn has_piece(text: Seq<char>, piece: Seq<char>) -> bool {
    exists|a: Seq<char>, b: Seq<char>| text == a + piece + b
}

/// Every text holds itself.
pub broadcast proof fn lemma_piece_self(x: Seq<char>)
    ensures
        #[trigger] has_piece(x, x),
{
    assert(x =~= Seq::<char>::empty() + x + Seq::<char>::empty());
}

/// A part of the left half is a part of the whole.
pub broadcast proof fn lemma_piece_in_left(x: Seq<char>, y: Seq<char>, l: Seq<char>)
    requires
        has_piece(x, l),
    ensures
        #[trigger] has_piece(x + y, l),
{
    let (a, b) = choose|a: Seq<char>, b: Seq<char>| x == a + l + b;
    assert(x + y =~= a + l + (b + y));
}

/// A part of the right half is a part of the whole.
pub broadcast proof fn lemma_piece_in_right(x: Seq<char>, y: Seq<char>, l: Seq<char>)
    requires
        has_piece(y, l),
    ensures
        #[trigger] has_piece(x + y, l),
{
    let (a, b) = choose|a: Seq<char>, b: Seq<char>| y == a + l + b;
    assert(x + y =~= (x + a) + l + b);
}

pub broadcast group group_text_pieces {
    lemma_piece_self,
    lemma_piece_in_left,
    lemma_piece_in_right,
}

} // verus!
