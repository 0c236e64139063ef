//! Caption text: comma-separated tags and their statistics, batch find and
//! replace, and the tail of a training log.

use vstd::prelude::*;

use crate::compat::escape::{trim_text, trimmed};
use crate::api::ApiError;
use crate::dataset::{bucket_distribution, entry_view, is_distribution};
use crate::text::{decimal, push_decimal};

verus! {

/// Position of the first `c` in `s` (the length when there is none).
pub open spec fn first_of(s: Seq<char>, c: char) -> int
    decreases s.len(),
{
    if s.len() == 0 {
        0
    } else if s[0] == c {
        0
    } else {
        1 + first_of(s.drop_first(), c)
    }
}

/// The first occurrence of a character, and none before it.
pub proof fn lemma_first_of(s: Seq<char>, c: char)
    ensures
        0 <= first_of(s, c) <= s.len(),
        first_of(s, c) < s.len() ==> s[first_of(s, c)] == c,
        forall|k: int| 0 <= k < first_of(s, c) ==> #[trigger] s[k] != c,
    decreases s.len(),
{
    if s.len() > 0 && s[0] != c {
        lemma_first_of(s.drop_first(), c);
        assert forall|k: int| 0 <= k < first_of(s, c) implies #[trigger] s[k] != c by {
            if k > 0 {
                assert(s.drop_first()[k - 1] == s[k]);
            }
        }
    }
}

pub(crate) fn find_char(s: &str, from: usize, c: char) -> (r: usize)
    requires
        from <= s@.len(),
    ensures
        from <= r <= s@.len(),
        r - from == first_of(s@.skip(from as int), c),
{
    proof {
        lemma_first_of(s@.skip(from as int), c);
    }
    let n = s.unicode_len();
    let mut i: usize = from;
    while i < n
        invariant
            n == s@.len(),
            from <= i <= n,
            i - from <= first_of(s@.skip(from as int), c),
            0 <= first_of(s@.skip(from as int), c) <= s@.len() - from,
            first_of(s@.skip(from as int), c) < s@.len() - from ==> s@.skip(from as int)[first_of(
                s@.skip(from as int),
                c,
            )] == c,
        decreases n - i,
    {
        if s.get_char(i) == c {
            proof {
                assert(s@.skip(from as int)[i - from] == c);
                lemma_first_of(s@.skip(from as int), c);
            }
            return i;
        }
        proof {
            assert(s@.skip(from as int)[i - from] != c);
        }
        i = i + 1;
    }
    i
}

/// The tags of a caption: the comma-separated pieces, trimmed, blank ones
/// left out, in order.
pub open spec fn tag_list(s: Seq<char>) -> Seq<Seq<char>>
    decreases s.len(),
{
    let k = first_of(s, ',');
    let piece = trimmed(s.take(k));
    let head = if piece.len() > 0 {
        seq![piece]
    } else {
        Seq::empty()
    };
    if k >= s.len() {
        head
    } else {
        proof {
            lemma_first_of(s, ',');
        }
        head + tag_list(s.skip(k + 1))
    }
}

/// The tags of a caption.
pub fn caption_tags(text: &str) -> (tags: Vec<String>)
    ensures
        tags@.map_values(|t: String| t@) == tag_list(text@),
{
    let n = text.unicode_len();
    let mut tags: Vec<String> = Vec::new();
    let mut start: usize = 0;
    proof {
        assert(text@.skip(0) =~= text@);
        assert(tags@.map_values(|t: String| t@) + tag_list(text@) =~= tag_list(text@));
    }
    loop
        invariant
            n == text@.len(),
            start <= n,
            tags@.map_values(|t: String| t@) + tag_list(text@.skip(start as int)) == tag_list(text@),
        decreases n - start,
    {
        let k = find_char(text, start, ',');
        let piece = text.substring_char(start, k);
        let t = trim_text(piece);
        let ghost rest = text@.skip(start as int);
        proof {
            assert(piece@ =~= rest.take(k - start));
        }
        let ghost before = tags@.map_values(|t: String| t@);
        if t.unicode_len() > 0 {
            tags.push(String::from_str(t));
            proof {
                assert(tags@.map_values(|t: String| t@) =~= before.push(t@));
            }
        }
        if k >= n {
            proof {
                assert(tag_list(rest) == (if t@.len() > 0 { seq![t@] } else { Seq::<Seq<char>>::empty() }));
                assert(tag_list(text@.skip(n as int)) =~= Seq::<Seq<char>>::empty()) by {
                    assert(text@.skip(n as int).len() == 0);
                    assert(trimmed(text@.skip(n as int).take(0)).len() == 0) by {
                        assert(text@.skip(n as int).take(0) =~= Seq::<char>::empty());
                        crate::compat::escape::lemma_trimmed_len(Seq::<char>::empty());
                    }
                }
                if t@.len() > 0 {
                    assert(tags@.map_values(|t: String| t@) =~= before + seq![t@]);
                } else {
                    assert(tags@.map_values(|t: String| t@) =~= before);
                }
                assert(tags@.map_values(|t: String| t@) + Seq::<Seq<char>>::empty() =~= tags@.map_values(
                    |t: String| t@,
                ));
            }
            return tags;
        }
        proof {
            assert(rest.skip(k - start + 1) =~= text@.skip(k + 1));
            assert(tag_list(rest) == (if t@.len() > 0 { seq![t@] } else { Seq::<Seq<char>>::empty() })
                + tag_list(text@.skip(k + 1)));
            if t@.len() > 0 {
                assert(tags@.map_values(|t: String| t@) + tag_list(text@.skip(k + 1)) =~= before + tag_list(
                    rest,
                ));
            } else {
                assert(tags@.map_values(|t: String| t@) + tag_list(text@.skip(k + 1)) =~= before + tag_list(
                    rest,
                ));
            }
        }
        start = k + 1;
    }
}

/// All tags of a list of captions, caption by caption.
pub open spec fn all_tags(captions: Seq<Seq<char>>) -> Seq<Seq<char>>
    decreases captions.len(),
{
    if captions.len() == 0 {
        Seq::empty()
    } else {
        all_tags(captions.drop_last()) + tag_list(captions.last())
    }
}

/// Tag statistics of a dataset's captions: each tag with the number of
/// times it occurs, most frequent first, equal counts by tag.
pub fn tag_stats(captions: &[String]) -> (stats: Vec<(String, u64)>)
    ensures
        is_distribution(
            all_tags(captions@.map_values(|s: String| s@)),
            stats@.map_values(|p: (String, u64)| entry_view(p)),
        ),
{
    let ghost cv = captions@.map_values(|s: String| s@);
    let mut tags: Vec<String> = Vec::new();
    let mut i: usize = 0;
    while i < captions.len()
        invariant
            i <= captions@.len(),
            cv == captions@.map_values(|s: String| s@),
            tags@.map_values(|t: String| t@) == all_tags(cv.take(i as int)),
        decreases captions@.len() - i,
    {
        let more = caption_tags(captions[i].as_str());
        let ghost before = tags@;
        let mut j: usize = 0;
        while j < more.len()
            invariant
                j <= more@.len(),
                tags@ == before + more@.take(j as int),
            decreases more@.len() - j,
        {
            tags.push(more[j].clone());
            proof {
                assert(more@.take(j as int + 1) =~= more@.take(j as int).push(more@[j as int]));
            }
            j = j + 1;
        }
        proof {
            assert(more@.take(more@.len() as int) =~= more@);
            assert(cv.take(i as int + 1).drop_last() =~= cv.take(i as int));
            assert(cv.take(i as int + 1).last() == captions@[i as int]@);
            assert(tags@.map_values(|t: String| t@) =~= before.map_values(|t: String| t@) + more@.map_values(
                |t: String| t@,
            ));
        }
        i = i + 1;
    }
    proof {
        assert(cv.take(cv.len() as int) =~= cv);
    }
    bucket_distribution(tags.as_slice())
}

/// Position of the first `\n` in `s` (the length when there is none).
pub open spec fn first_newline(s: Seq<char>) -> int {
    first_of(s, '\n')
}

/// A line without its `\r` ending.
pub open spec fn strip_cr(l: Seq<char>) -> Seq<char> {
    if l.len() > 0 && l.last() == '\r' {
        l.drop_last()
    } else {
        l
    }
}

/// The lines of a text as `str::lines` reads them: split at `\n`, a `\r`
/// before the `\n` dropped, no empty line after a final `\n`.
pub open spec fn text_lines(s: Seq<char>) -> Seq<Seq<char>>
    decreases s.len(),
{
    if s.len() == 0 {
        Seq::empty()
    } else {
        let k = first_newline(s);
        if k >= s.len() {
            seq![s]
        } else {
            proof {
                lemma_first_of(s, '\n');
            }
            seq![strip_cr(s.take(k))] + text_lines(s.skip(k + 1))
        }
    }
}

/// Most lines of a training log shown.
pub const LOG_TAIL_LINES: usize = 300;

/// The last 300 lines of a log text.
pub open spec fn log_tail_view(s: Seq<char>) -> Seq<Seq<char>> {
    let l = text_lines(s);
    if l.len() > 300 {
        l.skip(l.len() - 300)
    } else {
        l
    }
}

/// The last 300 lines of a log text.
pub fn log_tail(text: &str) -> (lines: Vec<String>)
    ensures
        lines@.map_values(|t: String| t@) == log_tail_view(text@),
{
    let n = text.unicode_len();
    let mut all: Vec<String> = Vec::new();
    let mut start: usize = 0;
    proof {
        assert(text@.skip(0) =~= text@);
        assert(all@.map_values(|t: String| t@) + text_lines(text@) =~= text_lines(text@));
    }
    while start < n
        invariant
            n == text@.len(),
            start <= n,
            all@.map_values(|t: String| t@) + text_lines(text@.skip(start as int)) == text_lines(text@),
        decreases n - start,
    {
        let k = find_char(text, start, '\n');
        let ghost rest = text@.skip(start as int);
        let ghost before = all@.map_values(|t: String| t@);
        if k >= n {
            let line = text.substring_char(start, n);
            all.push(String::from_str(line));
            proof {
                assert(line@ =~= rest);
                assert(all@.map_values(|t: String| t@) =~= before.push(rest));
                assert(text_lines(text@.skip(n as int)) =~= Seq::<Seq<char>>::empty()) by {
                    assert(text@.skip(n as int).len() == 0);
                }
                assert(all@.map_values(|t: String| t@) + text_lines(text@.skip(n as int)) =~= before + text_lines(
                    rest,
                ));
            }
            start = n;
        } else {
            let mut end = k;
            if end > start && text.get_char(end - 1) == '\r' {
                end = end - 1;
            }
            let line = text.substring_char(start, end);
            all.push(String::from_str(line));
            proof {
                assert(line@ =~= strip_cr(rest.take(k - start)));
                assert(rest.skip(k - start + 1) =~= text@.skip(k + 1));
                assert(all@.map_values(|t: String| t@) =~= before.push(line@));
                assert(all@.map_values(|t: String| t@) + text_lines(text@.skip(k + 1)) =~= before + text_lines(
                    rest,
                ));
            }
            start = k + 1;
        }
    }
    proof {
        assert(text_lines(text@.skip(n as int)) =~= Seq::<Seq<char>>::empty()) by {
            assert(text@.skip(n as int).len() == 0);
        }
        assert(all@.map_values(|t: String| t@) =~= text_lines(text@));
    }
    let total = all.len();
    let from = if total > LOG_TAIL_LINES {
        total - LOG_TAIL_LINES
    } else {
        0
    };
    let mut out: Vec<String> = Vec::new();
    let mut i: usize = from;
    while i < total
        invariant
            from <= i <= total,
            total == all@.len(),
            out@ == all@.subrange(from as int, i as int),
        decreases total - i,
    {
        out.push(all[i].clone());
        proof {
            assert(out@ =~= all@.subrange(from as int, i + 1));
        }
        i = i + 1;
    }
    proof {
        assert(out@.map_values(|t: String| t@) =~= log_tail_view(text@));
    }
    out
}


/// What a compiled regular expression of `pattern` would do: whether the
/// pattern compiles (`regex::Regex::new` succeeds).
pub uninterp spec fn regex_compiles(pattern: Seq<char>) -> bool;

/// What `regex::Regex::replace_all` gives for `pattern` on `text` with the
/// replacement `rep` (with its `$name` expansions).
pub uninterp spec fn regex_replaced(pattern: Seq<char>, text: Seq<char>, rep: Seq<char>) -> Seq<char>;

/// `regex::Regex::new(pattern)`, then `replace_all(text, rep)` on the result.
/// The contract says the result is `None` exactly when the pattern does not
/// compile, and otherwise names the replaced text; which text that is is the
/// regex crate's matching, not stated here.
#[verifier::external_body]
fn regex_replace(pattern: &str, text: &str, rep: &str) -> (r: Option<String>)
    ensures
        r is Some <==> regex_compiles(pattern@),
        r matches Some(t) ==> t@ == regex_replaced(pattern@, text@, rep@),
{
    match regex::Regex::new(pattern) {
        Ok(re) => Some(re.replace_all(text, rep).into_owned()),
        Err(_) => None,
    }
}

/// A find-and-replace rule for captions.
#[derive(Debug, Clone)]
pub struct ReplaceRule {
    pub find: String,
    pub replace: String,
    /// The rule is a regular expression (off when absent).
    pub regex: Option<bool>,
}

/// `s` with every non-overlapping occurrence of `f`, from the left, replaced
/// by `r` (`str::replace`); an empty `f` puts `r` before every character and
/// at the end.
pub open spec fn replaced(s: Seq<char>, f: Seq<char>, r: Seq<char>) -> Seq<char>
    decreases s.len(),
{
    if f.len() == 0 {
        if s.len() == 0 {
            r
        } else {
            r + seq![s[0]] + replaced(s.drop_first(), f, r)
        }
    } else if s.len() < f.len() {
        s
    } else if s.take(f.len() as int) == f {
        r + replaced(s.skip(f.len() as int), f, r)
    } else {
        seq![s[0]] + replaced(s.drop_first(), f, r)
    }
}

pub(crate) fn matches_at(s: &str, i: usize, f: &str) -> (r: bool)
    requires
        i <= s@.len(),
    ensures
        r == (s@.len() - i >= f@.len() && s@.skip(i as int).take(f@.len() as int) == f@),
{
    let n = s.unicode_len();
    let m = f.unicode_len();
    if n - i < m {
        return false;
    }
    let mut k: usize = 0;
    while k < m
        invariant
            n == s@.len(),
            m == f@.len(),
            i + m <= n,
            k <= m,
            forall|q: int| 0 <= q < k ==> s@[i + q] == f@[q],
        decreases m - k,
    {
        if s.get_char(i + k) != f.get_char(k) {
            proof {
                assert(s@.skip(i as int).take(m as int)[k as int] != f@[k as int]);
            }
            return false;
        }
        k = k + 1;
    }
    proof {
        assert(s@.skip(i as int).take(m as int) =~= f@);
    }
    true
}

/// `text` with every occurrence of `find` replaced by `rep`.
pub fn replace_text(text: &str, find: &str, rep: &str) -> (r: String)
    ensures
        r@ == replaced(text@, find@, rep@),
{
    let n = text.unicode_len();
    let m = find.unicode_len();
    let mut out = String::new();
    let mut i: usize = 0;
    proof {
        assert(text@.skip(0) =~= text@);
    }
    while i < n
        invariant
            n == text@.len(),
            m == find@.len(),
            i <= n,
            out@ + replaced(text@.skip(i as int), find@, rep@) == replaced(text@, find@, rep@),
        decreases n - i,
    {
        let ghost rest = text@.skip(i as int);
        let ghost o = out@;
        if m == 0 {
            out.append(rep);
            let one = text.substring_char(i, i + 1);
            out.append(one);
            proof {
                assert(one@ =~= seq![rest[0]]);
                assert(rest.drop_first() =~= text@.skip(i + 1));
                assert(out@ + replaced(text@.skip(i + 1), find@, rep@) =~= o + replaced(rest, find@, rep@));
            }
            i = i + 1;
        } else if matches_at(text, i, find) {
            out.append(rep);
            proof {
                assert(rest.skip(m as int) =~= text@.skip(i + m));
                assert(out@ + replaced(text@.skip(i + m), find@, rep@) =~= o + replaced(rest, find@, rep@));
            }
            i = i + m;
        } else {
            let one = text.substring_char(i, i + 1);
            out.append(one);
            proof {
                assert(one@ =~= seq![rest[0]]);
                assert(rest.drop_first() =~= text@.skip(i + 1));
                assert(out@ + replaced(text@.skip(i + 1), find@, rep@) =~= o + replaced(rest, find@, rep@));
            }
            i = i + 1;
        }
    }
    proof {
        assert(text@.skip(n as int).len() == 0);
    }
    if m == 0 {
        out.append(rep);
    }
    proof {
        assert(out@ =~= replaced(text@, find@, rep@));
    }
    out
}


/// The rule is a regular expression.
pub open spec fn is_regex_rule(r: ReplaceRule) -> bool {
    r.regex == Some(true)
}

/// Every regular-expression rule compiles.
pub open spec fn rules_compile(rules: Seq<ReplaceRule>) -> bool {
    forall|i: int| 0 <= i < rules.len() && is_regex_rule(#[trigger] rules[i]) ==> regex_compiles(rules[i].find@)
}

/// Position of the first rule whose pattern does not compile (the length
/// when all do).
pub open spec fn first_bad_rule(rules: Seq<ReplaceRule>) -> int
    decreases rules.len(),
{
    if rules.len() == 0 {
        0
    } else if is_regex_rule(rules[0]) && !regex_compiles(rules[0].find@) {
        0
    } else {
        1 + first_bad_rule(rules.drop_first())
    }
}

/// One rule applied to a text.
pub open spec fn rule_result(text: Seq<char>, r: ReplaceRule) -> Seq<char> {
    if is_regex_rule(r) {
        regex_replaced(r.find@, text, r.replace@)
    } else {
        replaced(text, r.find@, r.replace@)
    }
}

/// The rules applied one after the other.
pub open spec fn rules_result(text: Seq<char>, rules: Seq<ReplaceRule>) -> Seq<char>
    decreases rules.len(),
{
    if rules.len() == 0 {
        text
    } else {
        rule_result(rules_result(text, rules.drop_last()), rules.last())
    }
}

/// Some rule changed the text it was given.
pub open spec fn rules_changed(text: Seq<char>, rules: Seq<ReplaceRule>) -> bool
    decreases rules.len(),
{
    if rules.len() == 0 {
        false
    } else {
        rules_changed(text, rules.drop_last()) || rule_result(rules_result(text, rules.drop_last()), rules.last())
            != rules_result(text, rules.drop_last())
    }
}

proof fn lemma_first_bad_rule(rules: Seq<ReplaceRule>)
    ensures
        0 <= first_bad_rule(rules) <= rules.len(),
        first_bad_rule(rules) < rules.len() ==> is_regex_rule(rules[first_bad_rule(rules)]) && !regex_compiles(
            rules[first_bad_rule(rules)].find@,
        ),
        forall|i: int| 0 <= i < first_bad_rule(rules) && is_regex_rule(#[trigger] rules[i]) ==> regex_compiles(
            rules[i].find@,
        ),
    decreases rules.len(),
{
    if rules.len() > 0 && !(is_regex_rule(rules[0]) && !regex_compiles(rules[0].find@)) {
        lemma_first_bad_rule(rules.drop_first());
        assert forall|i: int| 0 <= i < first_bad_rule(rules) && is_regex_rule(#[trigger] rules[i]) implies regex_compiles(
            rules[i].find@,
        ) by {
            if i > 0 {
                assert(rules.drop_first()[i - 1] == rules[i]);
            }
        }
    }
}

/// The rules of a batch replace are checked before any caption is touched:
/// a rule whose regular expression does not compile refuses the whole batch.
pub fn check_rules(rules: &Vec<ReplaceRule>) -> (r: Result<(), ApiError>)
    ensures
        r is Ok <==> rules_compile(rules@),
        r matches Err(e) ==> (e matches ApiError::BadRequest(m) && m@ == "正则无效："@ + rules@[first_bad_rule(
            rules@,
        )].find@),
{
    proof {
        lemma_first_bad_rule(rules@);
    }
    let mut i: usize = 0;
    while i < rules.len()
        invariant
            i <= rules@.len(),
            i <= first_bad_rule(rules@),
            0 <= first_bad_rule(rules@) <= rules@.len(),
            first_bad_rule(rules@) < rules@.len() ==> is_regex_rule(rules@[first_bad_rule(rules@)]) && !regex_compiles(
                rules@[first_bad_rule(rules@)].find@,
            ),
            forall|q: int| 0 <= q < first_bad_rule(rules@) && is_regex_rule(#[trigger] rules@[q]) ==> regex_compiles(
                rules@[q].find@,
            ),
        decreases rules@.len() - i,
    {
        let is_re = match rules[i].regex {
            Some(b) => b,
            None => false,
        };
        if is_re {
            let probe = regex_replace(rules[i].find.as_str(), "", "");
            if probe.is_none() {
                let mut m = String::from_str("正则无效：");
                m.append(rules[i].find.as_str());
                return Err(ApiError::BadRequest(m));
            }
        }
        i = i + 1;
    }
    Ok(())
}

/// The rules applied to a caption, and whether any of them changed it.
pub fn apply_rules(text: &str, rules: &Vec<ReplaceRule>) -> (r: (String, bool))
    requires
        rules_compile(rules@),
    ensures
        r.0@ == rules_result(text@, rules@),
        r.1 == rules_changed(text@, rules@),
{
    let mut out = String::from_str(text);
    let mut changed = false;
    let mut i: usize = 0;
    while i < rules.len()
        invariant
            i <= rules@.len(),
            rules_compile(rules@),
            out@ == rules_result(text@, rules@.take(i as int)),
            changed == rules_changed(text@, rules@.take(i as int)),
        decreases rules@.len() - i,
    {
        let is_re = match rules[i].regex {
            Some(b) => b,
            None => false,
        };
        let next = if is_re {
            match regex_replace(rules[i].find.as_str(), out.as_str(), rules[i].replace.as_str()) {
                Some(t) => t,
                None => {
                    proof {
                        assert(is_regex_rule(rules@[i as int]));
                    }
                    out.clone()
                },
            }
        } else {
            replace_text(out.as_str(), rules[i].find.as_str(), rules[i].replace.as_str())
        };
        proof {
            assert(rules@.take(i as int + 1).drop_last() =~= rules@.take(i as int));
            assert(rules@.take(i as int + 1).last() == rules@[i as int]);
        }
        if next != out {
            changed = true;
        }
        out = next;
        i = i + 1;
    }
    proof {
        assert(rules@.take(rules@.len() as int) =~= rules@);
    }
    (out, changed)
}


/// A batch replace over the captions of a dataset: the rules are checked
/// first, and when one of them does not compile no caption is touched; else
/// each caption comes back rewritten, with whether any rule changed it.
pub fn replace_in_captions(texts: &Vec<String>, rules: &Vec<ReplaceRule>) -> (r: Result<Vec<(String, bool)>, ApiError>)
    ensures
        r is Ok <==> rules_compile(rules@),
        r matches Err(e) ==> (e matches ApiError::BadRequest(m) && m@ == "正则无效："@ + rules@[first_bad_rule(
            rules@,
        )].find@),
        r matches Ok(out) ==> out@.len() == texts@.len() && forall|i: int|
            0 <= i < texts@.len() ==> (#[trigger] out@[i]).0@ == rules_result(texts@[i]@, rules@) && out@[i].1
                == rules_changed(texts@[i]@, rules@),
{
    match check_rules(rules) {
        Err(e) => Err(e),
        Ok(()) => {
            let mut out: Vec<(String, bool)> = Vec::new();
            let mut i: usize = 0;
            while i < texts.len()
                invariant
                    i <= texts@.len(),
                    rules_compile(rules@),
                    out@.len() == i,
                    forall|q: int|
                        0 <= q < i ==> (#[trigger] out@[q]).0@ == rules_result(texts@[q]@, rules@) && out@[q].1
                            == rules_changed(texts@[q]@, rules@),
                decreases texts@.len() - i,
            {
                let one = apply_rules(texts[i].as_str(), rules);
                out.push(one);
                i = i + 1;
            }
            Ok(out)
        },
    }
}

/// What a tagging run does after one event line of the tagger.
#[derive(Debug, Clone)]
pub enum TagStep {
    /// Read on, with this many images tagged so far.
    Continue(u64),
    /// The tagger finished.
    Stop,
    /// The tagger failed: stop it and answer with this text.
    Fail(String),
}

/// The step of a tagging run after an event line whose `type` is `kind`
/// (`None` for a line that is no JSON object with a text `type`): progress
/// takes its step as the count when it has one, `fail` ends with its tail or
/// `打标失败`, `done` stops, any other line is skipped.
pub fn tag_step(tagged: u64, kind: Option<&str>, step: Option<u64>, tail: Option<&str>) -> (r: TagStep)
    ensures
        match kind {
            Some(k) => if k@ == "progress"@ {
                r matches TagStep::Continue(n) && n == match step {
                    Some(s) => s,
                    None => tagged,
                }
            } else if k@ == "fail"@ {
                r matches TagStep::Fail(t) && t@ == match tail {
                    Some(x) => x@,
                    None => "打标失败"@,
                }
            } else if k@ == "done"@ {
                r is Stop
            } else {
                r matches TagStep::Continue(n) && n == tagged
            },
            None => r matches TagStep::Continue(n) && n == tagged,
        },
{
    match kind {
        None => TagStep::Continue(tagged),
        Some(k) => {
            let k = String::from_str(k);
            if k == String::from_str("progress") {
                match step {
                    Some(s) => TagStep::Continue(s),
                    None => TagStep::Continue(tagged),
                }
            } else if k == String::from_str("fail") {
                match tail {
                    Some(x) => TagStep::Fail(String::from_str(x)),
                    None => TagStep::Fail(String::from_str("打标失败")),
                }
            } else if k == String::from_str("done") {
                TagStep::Stop
            } else {
                TagStep::Continue(tagged)
            }
        },
    }
}

/// Decimal text of a signed number.
pub open spec fn signed_decimal(c: int) -> Seq<char> {
    if c < 0 {
        "-"@ + decimal((-c) as nat)
    } else {
        decimal(c as nat)
    }
}

/// The answer when the tagger has exited: success, or an error naming its
/// exit code (-1 when it has none).
pub fn tag_exit(success: bool, code: Option<i32>) -> (r: Result<(), ApiError>)
    ensures
        success <==> r is Ok,
        r matches Err(e) ==> (e matches ApiError::Internal(m) && m@ == "打标进程退出码 "@ + signed_decimal(
            match code {
                Some(c) => c as int,
                None => -1,
            },
        )),
{
    if success {
        return Ok(());
    }
    let c: i64 = match code {
        Some(c) => c as i64,
        None => -1,
    };
    let mut m = String::from_str("打标进程退出码 ");
    if c < 0 {
        m.append("-");
        push_decimal(&mut m, (-c) as u64);
    } else {
        push_decimal(&mut m, c as u64);
    }
    proof {
        reveal_strlit("-");
        assert(m@ =~= "打标进程退出码 "@ + signed_decimal(c as int));
    }
    Err(ApiError::Internal(m))
}

} // verus!
