//! Dataset scan rules: which files are images, which images are too large to
//! decode, scan parameters, thumbnail sizes, hash text and bucket labels.

use vstd::prelude::*;

use crate::text::{decimal, lemma_lex_irreflexive, lemma_lex_total, lemma_lex_transitive, lex_lt, push_decimal, str_lt};

verus! {

/// A resolution bucket.
#[derive(Debug, Clone, Copy, PartialEq, Eq, Structural)]
pub struct BucketInfo {
    pub width: u32,
    pub height: u32,
}

/// Label of a bucket, `<width>x<height>`.
pub open spec fn bucket_label(b: BucketInfo) -> Seq<char> {
    decimal(b.width as nat) + "x"@ + decimal(b.height as nat)
}

impl BucketInfo {
    pub fn label(&self) -> (r: String)
        ensures
            r@ == bucket_label(*self),
    {
        let mut r = String::new();
        push_decimal(&mut r, self.width as u64);
        r.append("x");
        push_decimal(&mut r, self.height as u64);
        proof {
            assert(r@ =~= bucket_label(*self));
        }
        r
    }
}

/// An error of the dataset scan.
#[derive(Debug, Clone)]
pub struct ScanError(pub String);

impl ScanError {
    pub fn new(msg: &str) -> (e: Self)
        ensures
            e.0@ == msg@,
    {
        ScanError(String::from_str(msg))
    }

    /// The error's message.
    pub fn message(&self) -> (r: String)
        ensures
            r@ == "数据集扫描错误: "@ + self.0@,
    {
        let mut r = String::from_str("数据集扫描错误: ");
        r.append(self.0.as_str());
        r
    }
}

/// Largest width or height decoded.
pub const MAX_DIM: u32 = 16384;

/// Largest pixel count decoded.
pub const MAX_PIXELS: u64 = 64000000;

/// An image the scan may decode (guarding against decompression bombs).
pub open spec fn within_limits(w: u32, h: u32) -> bool {
    w <= MAX_DIM && h <= MAX_DIM && w * h <= MAX_PIXELS
}

/// An image the scan may decode.
pub fn within_decode_limits(w: u32, h: u32) -> (r: bool)
    ensures
        r == within_limits(w, h),
{
    if w > MAX_DIM || h > MAX_DIM {
        return false;
    }
    assert(w * h <= 16384 * 16384) by (nonlinear_arith)
        requires
            w <= 16384,
            h <= 16384,
    ;
    (w as u64) * (h as u64) <= MAX_PIXELS
}

/// Text of the bounds error for a hash threshold.
pub open spec fn threshold_error(t: u32) -> Seq<char> {
    "hash_threshold 超出范围（0..=64）："@ + decimal(t as nat)
}

/// Text of the bounds error for a target resolution.
pub open spec fn resolution_error(r: u32) -> Seq<char> {
    "target_resolution 必须 ≥ 64（当前 "@ + decimal(r as nat) + "）"@
}

/// Scan parameters: the hash threshold is at most 64 bits, the target
/// resolution at least 64; the threshold is checked first.
pub fn check_scan_options(hash_threshold: u32, target_resolution: u32) -> (r: Result<(), ScanError>)
    ensures
        r is Ok <==> hash_threshold <= 64 && target_resolution >= 64,
        r matches Err(e) ==> e.0@ == if hash_threshold > 64 {
            threshold_error(hash_threshold)
        } else {
            resolution_error(target_resolution)
        },
{
    if hash_threshold > 64 {
        let mut m = String::from_str("hash_threshold 超出范围（0..=64）：");
        push_decimal(&mut m, hash_threshold as u64);
        return Err(ScanError(m));
    }
    if target_resolution < 64 {
        let mut m = String::from_str("target_resolution 必须 ≥ 64（当前 ");
        push_decimal(&mut m, target_resolution as u64);
        m.append("）");
        return Err(ScanError(m));
    }
    Ok(())
}

/// ASCII lower case of a character.
pub open spec fn ascii_lower(c: char) -> char {
    if 'A' <= c && c <= 'Z' {
        ((c as u32) + 32) as char
    } else {
        c
    }
}

/// The extensions the scan reads as images (compared in ASCII lower case).
pub open spec fn is_image_extension(ext: Seq<char>) -> bool {
    let l = ext.map_values(|c: char| ascii_lower(c));
    l == "jpg"@ || l == "jpeg"@ || l == "png"@ || l == "webp"@ || l == "bmp"@ || l == "gif"@ || l
        == "tiff"@
}

fn lower_char(c: char) -> (r: char)
    ensures
        r == ascii_lower(c),
{
    if 'A' <= c && c <= 'Z' {
        ((c as u8) + 32) as char
    } else {
        c
    }
}

/// `ext` equals `name` up to ASCII case (`name` is lower case).
fn same_lowered(ext: &str, name: &str) -> (r: bool)
    ensures
        r == (ext@.map_values(|c: char| ascii_lower(c)) == name@),
{
    let n = ext.unicode_len();
    if n != name.unicode_len() {
        proof {
            assert(ext@.map_values(|c: char| ascii_lower(c)).len() != name@.len());
        }
        return false;
    }
    let mut i: usize = 0;
    while i < n
        invariant
            n == ext@.len(),
            n == name@.len(),
            i <= n,
            forall|q: int| 0 <= q < i ==> ascii_lower(#[trigger] ext@[q]) == name@[q],
        decreases n - i,
    {
        if lower_char(ext.get_char(i)) != name.get_char(i) {
            proof {
                assert(ext@.map_values(|c: char| ascii_lower(c))[i as int] != name@[i as int]);
            }
            return false;
        }
        i = i + 1;
    }
    proof {
        assert(ext@.map_values(|c: char| ascii_lower(c)) =~= name@);
    }
    true
}

/// The file extension is one the scan reads as an image.
pub fn is_image_ext(ext: &str) -> (r: bool)
    ensures
        r == is_image_extension(ext@),
{
    same_lowered(ext, "jpg") || same_lowered(ext, "jpeg") || same_lowered(ext, "png") || same_lowered(
        ext,
        "webp",
    ) || same_lowered(ext, "bmp") || same_lowered(ext, "gif") || same_lowered(ext, "tiff")
}

/// Size of a thumbnail whose longest side is `max_size`, keeping the aspect
/// ratio (the shorter side rounded down, at least 1).
pub open spec fn thumb_dims(w: u32, h: u32, max_size: u32) -> (int, int) {
    if w >= h {
        (max_size as int, at_least_one_int((h * max_size) / (w as int)))
    } else {
        (at_least_one_int((w * max_size) / (h as int)), max_size as int)
    }
}

/// `max(x, 1)`.
pub open spec fn at_least_one_int(x: int) -> int {
    if x >= 1 {
        x
    } else {
        1
    }
}

/// Size of the thumbnail of a `w`×`h` image.
pub fn thumbnail_dims(w: u32, h: u32, max_size: u32) -> (r: (u32, u32))
    requires
        w > 0 || h > 0,
    ensures
        (r.0 as int, r.1 as int) == thumb_dims(w, h, max_size),
{
    if w >= h {
        assert((h as u64) * (max_size as u64) <= 0xFFFF_FFFFu64 * 0xFFFF_FFFFu64) by (nonlinear_arith);
        let t = (h as u64) * (max_size as u64) / (w as u64);
        assert((h * max_size) / (w as int) <= max_size) by (nonlinear_arith)
            requires
                w >= h,
                w > 0,
        ;
        let th = if t >= 1 {
            t as u32
        } else {
            1
        };
        (max_size, th)
    } else {
        assert((w as u64) * (max_size as u64) <= 0xFFFF_FFFFu64 * 0xFFFF_FFFFu64) by (nonlinear_arith);
        let t = (w as u64) * (max_size as u64) / (h as u64);
        assert((w * max_size) / (h as int) <= max_size) by (nonlinear_arith)
            requires
                h > w,
        ;
        let tw = if t >= 1 {
            t as u32
        } else {
            1
        };
        (tw, max_size)
    }
}

/// Lowercase hexadecimal digit of `d` (0..=15).
pub open spec fn lower_hex(d: int) -> Seq<char> {
    if d == 0 {
        "0"@
    } else if d == 1 {
        "1"@
    } else if d == 2 {
        "2"@
    } else if d == 3 {
        "3"@
    } else if d == 4 {
        "4"@
    } else if d == 5 {
        "5"@
    } else if d == 6 {
        "6"@
    } else if d == 7 {
        "7"@
    } else if d == 8 {
        "8"@
    } else if d == 9 {
        "9"@
    } else if d == 10 {
        "a"@
    } else if d == 11 {
        "b"@
    } else if d == 12 {
        "c"@
    } else if d == 13 {
        "d"@
    } else if d == 14 {
        "e"@
    } else {
        "f"@
    }
}

/// The last `k` hexadecimal digits of `h`, most significant first.
pub open spec fn hex_digits(h: nat, k: nat) -> Seq<char>
    decreases k,
{
    if k == 0 {
        Seq::empty()
    } else {
        hex_digits(h / 16, (k - 1) as nat) + lower_hex((h % 16) as int)
    }
}

/// A 64-bit hash as 16 lowercase hexadecimal digits (`{:016x}`).
pub open spec fn hex16(h: u64) -> Seq<char> {
    hex_digits(h as nat, 16)
}

fn lower_hex_str(d: u64) -> (s: &'static str)
    requires
        d < 16,
    ensures
        s@ == lower_hex(d as int),
{
    if d == 0 {
        "0"
    } else if d == 1 {
        "1"
    } else if d == 2 {
        "2"
    } else if d == 3 {
        "3"
    } else if d == 4 {
        "4"
    } else if d == 5 {
        "5"
    } else if d == 6 {
        "6"
    } else if d == 7 {
        "7"
    } else if d == 8 {
        "8"
    } else if d == 9 {
        "9"
    } else if d == 10 {
        "a"
    } else if d == 11 {
        "b"
    } else if d == 12 {
        "c"
    } else if d == 13 {
        "d"
    } else if d == 14 {
        "e"
    } else {
        "f"
    }
}

fn push_hex_digits(s: &mut String, h: u64, k: u64)
    ensures
        final(s)@ == old(s)@ + hex_digits(h as nat, k as nat),
    decreases k,
{
    if k == 0 {
        proof {
            assert(s@ =~= old(s)@ + hex_digits(h as nat, k as nat));
        }
        return;
    }
    push_hex_digits(s, h / 16, k - 1);
    s.append(lower_hex_str(h % 16));
    proof {
        assert(s@ =~= old(s)@ + hex_digits(h as nat, k as nat));
    }
}

/// A 64-bit hash as 16 lowercase hexadecimal digits.
pub fn dhash_hex(h: u64) -> (r: String)
    ensures
        r@ == hex16(h),
{
    let mut r = String::new();
    push_hex_digits(&mut r, h, 16);
    proof {
        assert(r@ =~= hex16(h));
    }
    r
}

/// File name of the thumbnail of an image with hash `h`.
pub fn thumb_name(h: u64) -> (r: String)
    ensures
        r@ == hex16(h) + ".jpg"@,
{
    let mut r = dhash_hex(h);
    r.append(".jpg");
    r
}


/// How often `l` occurs in `ls`.
pub open spec fn label_count(ls: Seq<Seq<char>>, l: Seq<char>) -> nat
    decreases ls.len(),
{
    if ls.len() == 0 {
        0
    } else {
        label_count(ls.drop_last(), l) + if ls.last() == l {
            1nat
        } else {
            0nat
        }
    }
}

/// `a` comes before `b` in the bucket distribution: more images first, then
/// by label.
pub open spec fn ranks_before(a: (Seq<char>, nat), b: (Seq<char>, nat)) -> bool {
    a.1 > b.1 || (a.1 == b.1 && lex_lt(a.0, b.0))
}

/// `l` is one of the labels of `out`.
pub open spec fn label_listed(out: Seq<(Seq<char>, nat)>, l: Seq<char>) -> bool {
    exists|i: int| 0 <= i < out.len() && (#[trigger] out[i]).0 == l
}

/// `l` is one of `names`.
pub open spec fn name_listed(names: Seq<String>, l: Seq<char>) -> bool {
    exists|q: int| 0 <= q < names.len() && (#[trigger] names[q])@ == l
}

/// `out` is the distribution of `ls`: each label once with its count, every
/// label of `ls` present, larger counts first and equal counts by label.
pub open spec fn is_distribution(ls: Seq<Seq<char>>, out: Seq<(Seq<char>, nat)>) -> bool {
    &&& forall|i: int| 0 <= i < out.len() ==> (#[trigger] out[i]).1 == label_count(ls, out[i].0) && out[i].1 > 0
    &&& forall|k: int| 0 <= k < ls.len() ==> label_listed(out, #[trigger] ls[k])
    &&& forall|i: int, j: int| 0 <= i < j < out.len() ==> ranks_before(#[trigger] out[i], #[trigger] out[j])
}

/// A label and its count as plain values.
pub open spec fn entry_view(p: (String, u64)) -> (Seq<char>, nat) {
    (p.0@, p.1 as nat)
}

/// Order of the distinct labels while they are sorted: by [`ranks_before`],
/// position breaking ties.
pub open spec fn idx_lt(names: Seq<String>, counts: Seq<u64>, a: usize, b: usize) -> bool {
    counts[a as int] > counts[b as int] || (counts[a as int] == counts[b as int] && (lex_lt(
        names[a as int]@,
        names[b as int]@,
    ) || (names[a as int]@ == names[b as int]@ && a < b)))
}

proof fn lemma_idx_order(names: Seq<String>, counts: Seq<u64>)
    ensures
        forall|a: usize| !#[trigger] idx_lt(names, counts, a, a),
        forall|a: usize, b: usize| a != b ==> #[trigger] idx_lt(names, counts, a, b) || #[trigger] idx_lt(names, counts, b, a),
        forall|a: usize, b: usize| #[trigger] idx_lt(names, counts, a, b) ==> !#[trigger] idx_lt(names, counts, b, a),
        forall|a: usize, b: usize, c: usize|
            #[trigger] idx_lt(names, counts, a, b) && #[trigger] idx_lt(names, counts, b, c) ==> idx_lt(
                names,
                counts,
                a,
                c,
            ),
{
    assert forall|a: usize| !#[trigger] idx_lt(names, counts, a, a) by {
        lemma_lex_irreflexive(names[a as int]@);
    }
    assert forall|a: usize, b: usize| a != b implies #[trigger] idx_lt(names, counts, a, b) || #[trigger] idx_lt(
        names,
        counts,
        b,
        a,
    ) by {
        lemma_lex_total(names[a as int]@, names[b as int]@);
    }
    assert forall|a: usize, b: usize| #[trigger] idx_lt(names, counts, a, b) implies !#[trigger] idx_lt(
        names,
        counts,
        b,
        a,
    ) by {
        let (pa, pb) = (names[a as int]@, names[b as int]@);
        if lex_lt(pa, pb) && lex_lt(pb, pa) {
            lemma_lex_transitive(pa, pb, pa);
            lemma_lex_irreflexive(pa);
        }
        if lex_lt(pa, pb) || lex_lt(pb, pa) {
            lemma_lex_irreflexive(pa);
        }
    }
    assert forall|a: usize, b: usize, c: usize|
        #[trigger] idx_lt(names, counts, a, b) && #[trigger] idx_lt(names, counts, b, c) implies idx_lt(
        names,
        counts,
        a,
        c,
    ) by {
        let (pa, pb, pc) = (names[a as int]@, names[b as int]@, names[c as int]@);
        if lex_lt(pa, pb) && lex_lt(pb, pc) {
            lemma_lex_transitive(pa, pb, pc);
        }
    }
}

fn idx_less(names: &Vec<String>, counts: &Vec<u64>, a: usize, b: usize) -> (r: bool)
    requires
        a < names@.len(),
        b < names@.len(),
        names@.len() == counts@.len(),
    ensures
        r == idx_lt(names@, counts@, a, b),
{
    if counts[a] != counts[b] {
        return counts[a] > counts[b];
    }
    if str_lt(names[a].as_str(), names[b].as_str()) {
        true
    } else {
        names[a] == names[b] && a < b
    }
}

proof fn lemma_count_push(ls: Seq<Seq<char>>, x: Seq<char>, l: Seq<char>)
    ensures
        label_count(ls.push(x), l) == label_count(ls, l) + if x == l {
            1nat
        } else {
            0nat
        },
{
    assert(ls.push(x).drop_last() =~= ls);
}

proof fn lemma_count_absent(ls: Seq<Seq<char>>, l: Seq<char>)
    requires
        forall|k: int| 0 <= k < ls.len() ==> ls[k] != l,
    ensures
        label_count(ls, l) == 0,
    decreases ls.len(),
{
    if ls.len() > 0 {
        assert forall|k: int| 0 <= k < ls.drop_last().len() implies ls.drop_last()[k] != l by {
            assert(ls.drop_last()[k] == ls[k]);
        }
        lemma_count_absent(ls.drop_last(), l);
        assert(ls.last() == ls[ls.len() - 1]);
    }
}

proof fn lemma_distribution(
    ls: Seq<Seq<char>>,
    names: Seq<String>,
    counts: Seq<u64>,
    order: Seq<usize>,
    ov: Seq<(Seq<char>, nat)>,
)
    requires
        names.len() == counts.len(),
        order.len() == names.len(),
        ov.len() == order.len(),
        names.len() <= usize::MAX,
        forall|q: int| 0 <= q < order.len() ==> #[trigger] order[q] < names.len(),
        forall|x: usize| x < names.len() ==> #[trigger] order.contains(x),
        forall|q: int| 0 <= q < ov.len() ==> #[trigger] ov[q] == (names[order[q] as int]@, counts[order[q] as int] as nat),
        forall|q: int| 0 <= q < names.len() ==> #[trigger] counts[q] == label_count(ls, names[q]@) && counts[q] > 0,
        forall|k: int| 0 <= k < ls.len() ==> name_listed(names, #[trigger] ls[k]),
        forall|a: int, b: int| 0 <= a < b < names.len() ==> (#[trigger] names[a])@ != (#[trigger] names[b])@,
        forall|a: int, b: int| 0 <= a < b < order.len() ==> idx_lt(names, counts, #[trigger] order[a], #[trigger] order[b]),
    ensures
        is_distribution(ls, ov),
{
    assert forall|i: int| 0 <= i < ov.len() implies (#[trigger] ov[i]).1 == label_count(ls, ov[i].0) && ov[i].1 > 0 by {
        let o = order[i] as int;
        assert(counts[o] == label_count(ls, names[o]@));
    }
    assert forall|k: int| 0 <= k < ls.len() implies label_listed(ov, #[trigger] ls[k]) by {
        assert(name_listed(names, ls[k]));
        let q = choose|q: int| 0 <= q < names.len() && (#[trigger] names[q])@ == ls[k];
        assert(order.contains(q as usize));
        let i = choose|i: int| 0 <= i < order.len() && order[i] == q as usize;
        assert(ov[i] == (names[order[i] as int]@, counts[order[i] as int] as nat));
        assert(ov[i].0 == ls[k]);
    }
    assert forall|i: int, j: int| 0 <= i < j < ov.len() implies ranks_before(#[trigger] ov[i], #[trigger] ov[j]) by {
        let (a, b) = (order[i], order[j]);
        assert(idx_lt(names, counts, a, b));
        if counts[a as int] == counts[b as int] && !lex_lt(names[a as int]@, names[b as int]@) {
            assert(names[a as int]@ == names[b as int]@);
            if a < b {
                assert(names[a as int]@ != names[b as int]@);
            } else if a > b {
                assert(names[b as int]@ != names[a as int]@);
            } else {
                assert(idx_lt(names, counts, a, a));
            }
        }
    }
}

/// The bucket distribution of the images' labels: each label with the
/// number of images in it, larger buckets first, equal ones by label.
pub fn bucket_distribution(labels: &[String]) -> (out: Vec<(String, u64)>)
    ensures
        is_distribution(labels@.map_values(|s: String| s@), out@.map_values(|p: (String, u64)| entry_view(p))),
{
    let ghost ls = labels@.map_values(|s: String| s@);
    let mut names: Vec<String> = Vec::new();
    let mut counts: Vec<u64> = Vec::new();
    let mut i: usize = 0;
    while i < labels.len()
        invariant
            i <= labels@.len(),
            ls == labels@.map_values(|s: String| s@),
            names@.len() == counts@.len(),
            names@.len() <= i,
            forall|q: int| 0 <= q < names@.len() ==> #[trigger] counts@[q] == label_count(ls.take(i as int), names@[q]@)
                && counts@[q] > 0 && counts@[q] <= i,
            forall|k: int| 0 <= k < i ==> name_listed(names@, #[trigger] ls[k]),
            forall|a: int, b: int| 0 <= a < b < names@.len() ==> (#[trigger] names@[a])@ != (#[trigger] names@[b])@,
        decreases labels@.len() - i,
    {
        proof {
            assert(ls.take(i as int + 1) =~= ls.take(i as int).push(ls[i as int]));
            assert forall|l: Seq<char>| #[trigger] label_count(ls.take(i as int + 1), l) == label_count(ls.take(i as int), l)
                + if ls[i as int] == l { 1nat } else { 0nat } by {
                lemma_count_push(ls.take(i as int), ls[i as int], l);
            }
        }
        let mut j: usize = 0;
        while j < names.len() && names[j] != labels[i]
            invariant
                j <= names@.len(),
                i < labels@.len(),
                forall|q: int| 0 <= q < j ==> (#[trigger] names@[q])@ != labels@[i as int]@,
            decreases names@.len() - j,
        {
            j = j + 1;
        }
        let ghost old_names = names@;
        let ghost old_counts = counts@;
        proof {
            assert(ls[i as int] == labels@[i as int]@);
        }
        if j < names.len() {
            let c = counts[j];
            counts.set(j, c + 1);
            proof {
                assert(names@[j as int]@ == ls[i as int]);
                assert forall|q: int| 0 <= q < names@.len() implies #[trigger] counts@[q] == label_count(
                    ls.take(i as int + 1),
                    names@[q]@,
                ) && counts@[q] > 0 && counts@[q] <= i + 1 by {
                    assert(label_count(ls.take(i as int + 1), names@[q]@) == label_count(ls.take(i as int), names@[q]@)
                        + if ls[i as int] == names@[q]@ { 1nat } else { 0nat });
                    if q != j {
                        assert(old_counts[q] == counts@[q]);
                        assert(names@[q]@ != names@[j as int]@) by {
                            if q < j {
                                assert(old_names[q]@ != old_names[j as int]@);
                            } else {
                                assert(old_names[j as int]@ != old_names[q]@);
                            }
                        }
                    }
                }
            }
        } else {
            let s2 = labels[i].clone();
            names.push(s2);
            counts.push(1);
            proof {
                let q = names@.len() - 1;
                assert(names@[q]@ == ls[i as int]);
                assert forall|k: int| 0 <= k < i implies ls.take(i as int)[k] != ls[i as int] by {
                    assert(name_listed(old_names, ls[k]));
                    let qq = choose|qq: int| 0 <= qq < old_names.len() && (#[trigger] old_names[qq])@ == ls[k];
                    assert(old_names[qq]@ != labels@[i as int]@);
                }
                lemma_count_absent(ls.take(i as int), ls[i as int]);
                assert forall|q: int| 0 <= q < names@.len() implies #[trigger] counts@[q] == label_count(
                    ls.take(i as int + 1),
                    names@[q]@,
                ) && counts@[q] > 0 && counts@[q] <= i + 1 by {
                    assert(label_count(ls.take(i as int + 1), names@[q]@) == label_count(ls.take(i as int), names@[q]@)
                        + if ls[i as int] == names@[q]@ { 1nat } else { 0nat });
                    if q < old_names.len() {
                        assert(names@[q] == old_names[q]);
                        assert(old_names[q]@ != labels@[i as int]@);
                    }
                }
                assert forall|a: int, b: int| 0 <= a < b < names@.len() implies (#[trigger] names@[a])@ != (#[trigger] names@[b])@ by {
                    if b == names@.len() - 1 {
                        assert(names@[a] == old_names[a]);
                        assert(old_names[a]@ != labels@[i as int]@);
                    } else {
                        assert(names@[a] == old_names[a] && names@[b] == old_names[b]);
                    }
                }
            }
        }
        proof {
            assert forall|k: int| 0 <= k < i + 1 implies name_listed(names@, #[trigger] ls[k]) by {
                if k == i {
                    assert(names@[j as int]@ == ls[i as int]);
                } else {
                    assert(name_listed(old_names, ls[k]));
                    let q = choose|q: int| 0 <= q < old_names.len() && (#[trigger] old_names[q])@ == ls[k];
                    assert(names@[q] == old_names[q]);
                }
            }
        }
        i = i + 1;
    }
    proof {
        assert(ls.take(labels@.len() as int) =~= ls);
        assert(i == labels@.len());
        assert(ls.len() == labels@.len());
        assert forall|k: int| 0 <= k < ls.len() implies name_listed(names@, #[trigger] ls[k]) by {
            assert(k < i);
        }
    }
    // Sort the distinct labels.
    proof {
        lemma_idx_order(names@, counts@);
    }
    let mut order: Vec<usize> = Vec::new();
    let mut k: usize = 0;
    while k < names.len()
        invariant
            k <= names@.len(),
            names@.len() == counts@.len(),
            order@.len() == k,
            forall|q: int| 0 <= q < order@.len() ==> #[trigger] order@[q] < k,
            forall|x: usize| x < k ==> #[trigger] order@.contains(x),
            forall|a: int, b: int| 0 <= a < b < order@.len() ==> idx_lt(names@, counts@, #[trigger] order@[a], #[trigger] order@[b]),
            forall|a: usize| !#[trigger] idx_lt(names@, counts@, a, a),
            forall|a: usize, b: usize| a != b ==> #[trigger] idx_lt(names@, counts@, a, b) || #[trigger] idx_lt(names@, counts@, b, a),
            forall|a: usize, b: usize| #[trigger] idx_lt(names@, counts@, a, b) ==> !#[trigger] idx_lt(names@, counts@, b, a),
            forall|a: usize, b: usize, c: usize|
                #[trigger] idx_lt(names@, counts@, a, b) && #[trigger] idx_lt(names@, counts@, b, c) ==> idx_lt(names@, counts@, a, c),
        decreases names@.len() - k,
    {
        let mut p: usize = 0;
        while p < order.len() && idx_less(&names, &counts, order[p], k)
            invariant
                p <= order@.len(),
                k < names@.len(),
                names@.len() == counts@.len(),
                forall|q: int| 0 <= q < order@.len() ==> #[trigger] order@[q] < k,
                forall|q: int| 0 <= q < p ==> idx_lt(names@, counts@, #[trigger] order@[q], k),
            decreases order@.len() - p,
        {
            p = p + 1;
        }
        let ghost old_order = order@;
        proof {
            if p < old_order.len() {
                assert(old_order[p as int] != k);
                assert(idx_lt(names@, counts@, k, old_order[p as int]));
            }
        }
        order.insert(p, k);
        proof {
            assert forall|a: int, b: int| 0 <= a < b < order@.len() implies idx_lt(names@, counts@, #[trigger] order@[a], #[trigger] order@[b]) by {
                if b < p {
                    assert(order@[a] == old_order[a] && order@[b] == old_order[b]);
                } else if b == p {
                    assert(order@[a] == old_order[a]);
                } else if a == p {
                    assert(order@[b] == old_order[b - 1]);
                    if b - 1 > p {
                        assert(idx_lt(names@, counts@, old_order[p as int], old_order[b - 1]));
                    }
                } else if a < p {
                    assert(order@[a] == old_order[a] && order@[b] == old_order[b - 1]);
                } else {
                    assert(order@[a] == old_order[a - 1] && order@[b] == old_order[b - 1]);
                }
            }
            assert forall|q: int| 0 <= q < order@.len() implies #[trigger] order@[q] < k + 1 by {
                if q < p {
                    assert(order@[q] == old_order[q]);
                } else if q > p {
                    assert(order@[q] == old_order[q - 1]);
                }
            }
            assert forall|x: usize| x < k + 1 implies #[trigger] order@.contains(x) by {
                if x == k {
                    assert(order@[p as int] == k);
                } else {
                    assert(old_order.contains(x));
                    let q = choose|q: int| 0 <= q < old_order.len() && old_order[q] == x;
                    if q < p {
                        assert(order@[q] == x);
                    } else {
                        assert(order@[q + 1] == x);
                    }
                }
            }
        }
        k = k + 1;
    }
    let mut out: Vec<(String, u64)> = Vec::new();
    let mut t: usize = 0;
    while t < order.len()
        invariant
            t <= order@.len(),
            order@.len() == names@.len(),
            names@.len() == counts@.len(),
            forall|q: int| 0 <= q < order@.len() ==> #[trigger] order@[q] < names@.len(),
            out@.len() == t,
            forall|q: int| 0 <= q < t ==> #[trigger] entry_view(out@[q]) == (names@[order@[q] as int]@, counts@[order@[q] as int] as nat),
        decreases order@.len() - t,
    {
        let o = order[t];
        out.push((names[o].clone(), counts[o]));
        t = t + 1;
    }
    proof {
        let ov = out@.map_values(|p: (String, u64)| entry_view(p));
        assert forall|q: int| 0 <= q < ov.len() implies ov[q] == (names@[order@[q] as int]@, counts@[order@[q] as int] as nat) by {
            assert(ov[q] == entry_view(out@[q]));
        }
        lemma_distribution(ls, names@, counts@, order@, ov);
    }
    out
}

} // verus!
