//! Assembling a dataset scan: the order in which decoded images are listed,
//! the scan summary (near-duplicate groups, bucket distribution, totals) and
//! the links from duplicate image records to the first image of their group.
//! Walking the directory, decoding and writing thumbnails is left to the caller.

use vstd::prelude::*;

use crate::dataset::{bucket_distribution, entry_view, is_distribution};
use crate::domain::{is_utc_stamp, is_uuid_v4_text, new_id, now};
use crate::hash::{duplicate_groups, is_dup_grouping, key_lt, sort_by_key};
use crate::text::lex_lt;

verus! {

/// Position `a` comes before position `b` when listing scanned paths: by
/// path, equal paths in their original order.
pub open spec fn path_before(paths: Seq<Seq<char>>, a: usize, b: usize) -> bool {
    lex_lt(paths[a as int], paths[b as int]) || (paths[a as int] == paths[b as int] && a < b)
}

/// The order of scanned images: every position once, sorted by path (a stable
/// sort, as the dataset listing is).
pub fn scan_order(paths: &[String]) -> (order: Vec<usize>)
    ensures
        order@.len() == paths@.len(),
        forall|y: usize| order@.contains(y) <==> y < paths@.len(),
        forall|a: int, b: int|
            0 <= a < b < order@.len() ==> path_before(
                paths@.map_values(|s: String| s@),
                #[trigger] order@[a],
                #[trigger] order@[b],
            ),
{
    let ghost pv = paths@.map_values(|s: String| s@);
    let mut e: Vec<(String, u64)> = Vec::new();
    let mut items: Vec<usize> = Vec::new();
    let mut i: usize = 0;
    while i < paths.len()
        invariant
            i <= paths@.len(),
            e@.len() == i,
            items@.len() == i,
            forall|k: int| 0 <= k < i ==> (#[trigger] e@[k]).0@ == paths@[k]@,
            forall|k: int| 0 <= k < i ==> #[trigger] items@[k] == k,
        decreases paths@.len() - i,
    {
        e.push((paths[i].clone(), 0));
        items.push(i);
        i = i + 1;
    }
    proof {
        assert forall|y: usize| items@.contains(y) <==> y < paths@.len() by {
            if y < paths@.len() {
                assert(items@[y as int] == y);
            }
        }
    }
    let order = sort_by_key(e.as_slice(), &items);
    proof {
        assert forall|a: int, b: int| 0 <= a < b < order@.len() implies path_before(
            pv,
            #[trigger] order@[a],
            #[trigger] order@[b],
        ) by {
            assert(key_lt(e@, order@[a], order@[b]));
            assert(order@.contains(order@[a]));
            assert(order@.contains(order@[b]));
            assert(e@[order@[a] as int].0@ == pv[order@[a] as int]);
            assert(e@[order@[b] as int].0@ == pv[order@[b] as int]);
        }
    }
    order
}

/// What a scan found, as whole numbers (averages and timing are the caller's).
#[derive(Debug, Clone)]
pub struct ScanSummary {
    /// Images decoded.
    pub total: u64,
    /// Files that could not be decoded or were too large.
    pub invalid: u64,
    /// Directory entries that could not be read.
    pub scan_errors: u64,
    /// Near-duplicate groups as paths.
    pub duplicate_groups: Vec<Vec<String>>,
    /// Bucket distribution.
    pub buckets: Vec<(String, u64)>,
    /// Sum of the image widths.
    pub sum_width: u64,
    /// Sum of the image heights.
    pub sum_height: u64,
}

/// The groups `g` of entry positions as paths.
pub open spec fn group_paths(e: Seq<(String, u64)>, g: Seq<Seq<usize>>) -> Seq<Seq<Seq<char>>> {
    g.map_values(|grp: Seq<usize>| grp.map_values(|x: usize| e[x as int].0@))
}

/// The labels of the images that have a bucket, in order.
pub open spec fn present_labels(ls: Seq<Option<String>>) -> Seq<Seq<char>>
    decreases ls.len(),
{
    if ls.len() == 0 {
        Seq::empty()
    } else {
        let rest = present_labels(ls.drop_last());
        match ls.last() {
            Some(l) => rest.push(l@),
            None => rest,
        }
    }
}

/// Sum of the first components.
pub open spec fn sum_first(d: Seq<(u32, u32)>) -> nat
    decreases d.len(),
{
    if d.len() == 0 {
        0
    } else {
        sum_first(d.drop_last()) + d.last().0 as nat
    }
}

/// Sum of the second components.
pub open spec fn sum_second(d: Seq<(u32, u32)>) -> nat
    decreases d.len(),
{
    if d.len() == 0 {
        0
    } else {
        sum_second(d.drop_last()) + d.last().1 as nat
    }
}

proof fn lemma_sums_bounded(d: Seq<(u32, u32)>)
    ensures
        sum_first(d) <= d.len() * 0xffff_ffff,
        sum_second(d) <= d.len() * 0xffff_ffff,
    decreases d.len(),
{
    if d.len() > 0 {
        lemma_sums_bounded(d.drop_last());
    }
}

/// Near-duplicate groups of the `(path, hash)` list as paths.
fn duplicate_paths(hashes: &[(String, u64)], threshold: u32) -> (out: Vec<Vec<String>>)
    ensures
        exists|g: Seq<Seq<usize>>|
            #[trigger] is_dup_grouping(hashes@, threshold, g) && out.deep_view() == group_paths(hashes@, g),
{
    let idx = duplicate_groups(hashes, threshold);
    let ghost g = idx.deep_view();
    let mut out: Vec<Vec<String>> = Vec::new();
    let mut k: usize = 0;
    while k < idx.len()
        invariant
            k <= idx@.len(),
            g == idx.deep_view(),
            is_dup_grouping(hashes@, threshold, g),
            out@.len() == k,
            forall|q: int| 0 <= q < k ==> (#[trigger] out@[q]).deep_view() == g[q].map_values(
                |x: usize| hashes@[x as int].0@,
            ),
        decreases idx@.len() - k,
    {
        let grp = &idx[k];
        proof {
            assert(g[k as int] =~= grp@);
        }
        let mut row: Vec<String> = Vec::new();
        let mut a: usize = 0;
        while a < grp.len()
            invariant
                a <= grp@.len(),
                g[k as int] == grp@,
                is_dup_grouping(hashes@, threshold, g),
                k < g.len(),
                row@.len() == a,
                forall|b: int| 0 <= b < a ==> (#[trigger] row@[b])@ == hashes@[grp@[b] as int].0@,
            decreases grp@.len() - a,
        {
            let x = grp[a];
            assert(g[k as int][a as int] < hashes@.len());
            row.push(hashes[x].0.clone());
            a = a + 1;
        }
        proof {
            assert(row.deep_view() =~= g[k as int].map_values(|x: usize| hashes@[x as int].0@));
        }
        let ghost old_out = out@;
        out.push(row);
        proof {
            assert forall|q: int| 0 <= q < k + 1 implies (#[trigger] out@[q]).deep_view() == g[q].map_values(
                |x: usize| hashes@[x as int].0@,
            ) by {
                if q < k {
                    assert(out@[q] == old_out[q]);
                }
            }
        }
        k = k + 1;
    }
    proof {
        assert forall|q: int| 0 <= q < out@.len() implies #[trigger] out.deep_view()[q] == group_paths(hashes@, g)[q] by {
            assert(out.deep_view()[q] =~= group_paths(hashes@, g)[q]);
        }
        assert(out.deep_view() =~= group_paths(hashes@, g));
    }
    out
}

/// The summary of a scan of `files` image files of which the images in
/// `hashes` (path and hash), `dims` (width and height) and `labels` (bucket)
/// were decoded, listed in path order.
pub fn scan_summary(
    files: u64,
    scan_errors: u64,
    hashes: &[(String, u64)],
    dims: &[(u32, u32)],
    labels: &[Option<String>],
    threshold: u32,
) -> (s: ScanSummary)
    requires
        dims@.len() == hashes@.len(),
        labels@.len() == hashes@.len(),
        hashes@.len() <= files,
        hashes@.len() <= 0xffff_ffff,
    ensures
        s.total == hashes@.len(),
        s.invalid == files - hashes@.len(),
        s.scan_errors == scan_errors,
        exists|g: Seq<Seq<usize>>|
            #[trigger] is_dup_grouping(hashes@, threshold, g) && s.duplicate_groups.deep_view() == group_paths(
                hashes@,
                g,
            ),
        is_distribution(present_labels(labels@), s.buckets@.map_values(|p: (String, u64)| entry_view(p))),
        s.sum_width == sum_first(dims@),
        s.sum_height == sum_second(dims@),
{
    let duplicate_groups = duplicate_paths(hashes, threshold);
    let mut present: Vec<String> = Vec::new();
    let mut sum_width: u64 = 0;
    let mut sum_height: u64 = 0;
    let mut i: usize = 0;
    proof {
        lemma_sums_bounded(dims@);
    }
    while i < dims.len()
        invariant
            i <= dims@.len(),
            labels@.len() == dims@.len(),
            dims@.len() <= 0xffff_ffff,
            present@.map_values(|s: String| s@) == present_labels(labels@.take(i as int)),
            sum_width == sum_first(dims@.take(i as int)),
            sum_height == sum_second(dims@.take(i as int)),
        decreases dims@.len() - i,
    {
        proof {
            assert(labels@.take(i as int + 1).drop_last() =~= labels@.take(i as int));
            assert(dims@.take(i as int + 1).drop_last() =~= dims@.take(i as int));
            lemma_sums_bounded(dims@.take(i as int));
        }
        let (w, h) = dims[i];
        sum_width = sum_width + w as u64;
        sum_height = sum_height + h as u64;
        match &labels[i] {
            Some(l) => {
                let ghost before = present@;
                present.push(l.clone());
                proof {
                    assert(present@.map_values(|s: String| s@) =~= before.map_values(|s: String| s@).push(
                        l@,
                    ));
                }
            },
            None => {},
        }
        i = i + 1;
    }
    proof {
        assert(labels@.take(labels@.len() as int) =~= labels@);
        assert(dims@.take(dims@.len() as int) =~= dims@);
    }
    let buckets = bucket_distribution(present.as_slice());
    ScanSummary {
        total: hashes.len() as u64,
        invalid: files - hashes.len() as u64,
        scan_errors,
        duplicate_groups,
        buckets,
        sum_width,
        sum_height,
    }
}

/// One decoded image of a scan (path relative to the dataset root, with `/`).
#[derive(Debug, Clone)]
pub struct ImageEntry {
    pub path: String,
    pub width: u32,
    pub height: u32,
    /// The 64-bit difference hash as 16 lowercase hex digits.
    pub dhash: String,
    /// The bucket label (`1024x1024`).
    pub bucket: Option<String>,
    /// The thumbnail path relative to the dataset root.
    pub thumb: Option<String>,
    /// The EXIF summary as JSON text.
    pub exif: Option<String>,
}

/// An image of a dataset as the store keeps it.
#[derive(Debug, Clone)]
pub struct ImageRecord {
    pub id: String,
    pub dataset_id: String,
    pub path: String,
    pub width: Option<u32>,
    pub height: Option<u32>,
    pub dhash: Option<String>,
    pub bucket: Option<String>,
    pub thumb: Option<String>,
    pub exif: Option<String>,
    /// Id of the first image of the near-duplicate group this image belongs to.
    pub duplicate_of: Option<String>,
    pub created_at: String,
}

/// Position of the last `p` in `paths` (-1 when there is none).
pub open spec fn last_with(paths: Seq<Seq<char>>, p: Seq<char>) -> int
    decreases paths.len(),
{
    if paths.len() == 0 {
        -1
    } else if paths.last() == p {
        paths.len() - 1
    } else {
        last_with(paths.drop_last(), p)
    }
}

/// Position of the first `id` in `ids` (the length when there is none).
pub open spec fn first_with(ids: Seq<Seq<char>>, id: Seq<char>) -> int
    decreases ids.len(),
{
    if ids.len() == 0 {
        0
    } else if ids[0] == id {
        0
    } else {
        1 + first_with(ids.drop_first(), id)
    }
}

/// The links after marking the members `dups` of a group as duplicates of
/// `primary`: each member is found by path (the last image with it wins), and
/// the first record with that image's id is marked.
pub open spec fn link_members(
    paths: Seq<Seq<char>>,
    ids: Seq<Seq<char>>,
    links: Seq<Option<Seq<char>>>,
    primary: Seq<char>,
    dups: Seq<Seq<char>>,
) -> Seq<Option<Seq<char>>>
    decreases dups.len(),
{
    if dups.len() == 0 {
        links
    } else {
        let rest = link_members(paths, ids, links, primary, dups.drop_last());
        let d = last_with(paths, dups.last());
        if 0 <= d < ids.len() && first_with(ids, ids[d]) < rest.len() {
            rest.update(first_with(ids, ids[d]), Some(primary))
        } else {
            rest
        }
    }
}

/// The duplicate links of the records after the groups, in order: the first
/// member of a group is its primary, the others link to its id.
pub open spec fn link_groups(paths: Seq<Seq<char>>, ids: Seq<Seq<char>>, groups: Seq<Seq<Seq<char>>>) -> Seq<
    Option<Seq<char>>,
>
    decreases groups.len(),
{
    if groups.len() == 0 {
        Seq::new(paths.len(), |i: int| None)
    } else {
        let prev = link_groups(paths, ids, groups.drop_last());
        let g = groups.last();
        if g.len() > 0 && last_with(paths, g[0]) >= 0 {
            link_members(paths, ids, prev, ids[last_with(paths, g[0])], g.skip(1))
        } else {
            prev
        }
    }
}

proof fn lemma_last_with(paths: Seq<Seq<char>>, p: Seq<char>)
    ensures
        -1 <= last_with(paths, p) < paths.len(),
        last_with(paths, p) >= 0 ==> paths[last_with(paths, p)] == p,
        forall|k: int| last_with(paths, p) < k < paths.len() ==> #[trigger] paths[k] != p,
    decreases paths.len(),
{
    if paths.len() > 0 && paths.last() != p {
        lemma_last_with(paths.drop_last(), p);
        assert forall|k: int| last_with(paths, p) < k < paths.len() implies #[trigger] paths[k] != p by {
            if k < paths.len() - 1 {
                assert(paths.drop_last()[k] == paths[k]);
            }
        }
    }
}

proof fn lemma_first_with(ids: Seq<Seq<char>>, id: Seq<char>)
    ensures
        0 <= first_with(ids, id) <= ids.len(),
        first_with(ids, id) < ids.len() ==> ids[first_with(ids, id)] == id,
        forall|k: int| 0 <= k < first_with(ids, id) ==> #[trigger] ids[k] != id,
    decreases ids.len(),
{
    if ids.len() > 0 && ids[0] != id {
        lemma_first_with(ids.drop_first(), id);
        assert forall|k: int| 0 <= k < first_with(ids, id) implies #[trigger] ids[k] != id by {
            if k > 0 {
                assert(ids.drop_first()[k - 1] == ids[k]);
            }
        }
    }
}

proof fn lemma_link_members_len(
    paths: Seq<Seq<char>>,
    ids: Seq<Seq<char>>,
    links: Seq<Option<Seq<char>>>,
    primary: Seq<char>,
    dups: Seq<Seq<char>>,
)
    ensures
        link_members(paths, ids, links, primary, dups).len() == links.len(),
    decreases dups.len(),
{
    if dups.len() > 0 {
        lemma_link_members_len(paths, ids, links, primary, dups.drop_last());
        let d = last_with(paths, dups.last());
        if 0 <= d < ids.len() {
            lemma_first_with(ids, ids[d]);
        }
    }
}

proof fn lemma_link_groups_len(paths: Seq<Seq<char>>, ids: Seq<Seq<char>>, groups: Seq<Seq<Seq<char>>>)
    ensures
        link_groups(paths, ids, groups).len() == paths.len(),
    decreases groups.len(),
{
    if groups.len() > 0 {
        lemma_link_groups_len(paths, ids, groups.drop_last());
        let prev = link_groups(paths, ids, groups.drop_last());
        let g = groups.last();
        if g.len() > 0 && last_with(paths, g[0]) >= 0 {
            lemma_link_members_len(paths, ids, prev, ids[last_with(paths, g[0])], g.skip(1));
        }
    }
}

/// The view of an optional text.
pub open spec fn opt_text(o: Option<String>) -> Option<Seq<char>> {
    match o {
        Some(s) => Some(s@),
        None => None,
    }
}

fn find_last(paths: &[String], p: &String) -> (r: Option<usize>)
    ensures
        match r {
            Some(k) => k as int == last_with(paths@.map_values(|s: String| s@), p@),
            None => last_with(paths@.map_values(|s: String| s@), p@) == -1,
        },
{
    let ghost pv = paths@.map_values(|s: String| s@);
    let mut k: usize = paths.len();
    proof {
        assert(pv.take(k as int) =~= pv);
    }
    while k > 0
        invariant
            k <= paths@.len(),
            pv == paths@.map_values(|s: String| s@),
            last_with(pv, p@) == last_with(pv.take(k as int), p@),
        decreases k,
    {
        proof {
            assert(pv.take(k as int).last() == paths@[k - 1]@);
            assert(pv.take(k as int).drop_last() =~= pv.take(k - 1));
        }
        if paths[k - 1] == *p {
            return Some(k - 1);
        }
        k = k - 1;
    }
    None
}

fn find_first(ids: &Vec<ImageRecord>, id: &String) -> (r: usize)
    ensures
        r as int == first_with(ids@.map_values(|x: ImageRecord| x.id@), id@),
{
    let ghost iv = ids@.map_values(|x: ImageRecord| x.id@);
    let mut k: usize = 0;
    proof {
        assert(iv.skip(0) =~= iv);
    }
    while k < ids.len()
        invariant
            k <= ids@.len(),
            iv == ids@.map_values(|x: ImageRecord| x.id@),
            first_with(iv, id@) == k + first_with(iv.skip(k as int), id@),
        decreases ids@.len() - k,
    {
        proof {
            assert(iv.skip(k as int)[0] == ids@[k as int].id@);
            assert(iv.skip(k as int).drop_first() =~= iv.skip(k + 1));
        }
        if ids[k].id == *id {
            return k;
        }
        k = k + 1;
    }
    k
}

/// The store records of a scan's images, in the order of the entries: each
/// gets a new random id and the current time, and the members of each
/// near-duplicate group after the first link to the id of the first.
pub fn image_records(dataset_id: &str, entries: Vec<ImageEntry>, groups: &[Vec<String>]) -> (recs: Vec<ImageRecord>)
    ensures
        recs@.len() == entries@.len(),
        forall|i: int|
            0 <= i < recs@.len() ==> {
                let r = #[trigger] recs@[i];
                let e = entries@[i];
                &&& is_uuid_v4_text(r.id@)
                &&& r.dataset_id@ == dataset_id@
                &&& r.path == e.path
                &&& r.width == Some(e.width)
                &&& r.height == Some(e.height)
                &&& r.dhash == Some(e.dhash)
                &&& r.bucket == e.bucket
                &&& r.thumb == e.thumb
                &&& r.exif == e.exif
                &&& is_utc_stamp(r.created_at@)
            },
        recs@.map_values(|r: ImageRecord| opt_text(r.duplicate_of)) == link_groups(
            entries@.map_values(|e: ImageEntry| e.path@),
            recs@.map_values(|r: ImageRecord| r.id@),
            groups.deep_view(),
        ),
{
    let ghost ev = entries@;
    let mut recs: Vec<ImageRecord> = Vec::new();
    let mut paths: Vec<String> = Vec::new();
    let mut i: usize = 0;
    let n = entries.len();
    let mut rest = entries;
    // Records are made in entry order; `rest` is consumed from the back, so
    // collect in reverse and then restore the order.
    let mut rev: Vec<ImageEntry> = Vec::new();
    while rest.len() > 0
        invariant
            rev@.len() + rest@.len() == ev.len(),
            rest@ == ev.take(rest@.len() as int),
            forall|k: int| 0 <= k < rev@.len() ==> #[trigger] rev@[k] == ev[ev.len() - 1 - k],
        decreases rest@.len(),
    {
        let e = rest.pop().unwrap();
        rev.push(e);
    }
    while i < n
        invariant
            n == ev.len(),
            i <= n,
            rev@.len() == n - i,
            forall|k: int| 0 <= k < rev@.len() ==> #[trigger] rev@[k] == ev[n - 1 - k],
            recs@.len() == i,
            paths@.len() == i,
            forall|k: int|
                0 <= k < i ==> {
                    let r = #[trigger] recs@[k];
                    let e = ev[k];
                    &&& is_uuid_v4_text(r.id@)
                    &&& r.dataset_id@ == dataset_id@
                    &&& r.path == e.path
                    &&& r.width == Some(e.width)
                    &&& r.height == Some(e.height)
                    &&& r.dhash == Some(e.dhash)
                    &&& r.bucket == e.bucket
                    &&& r.thumb == e.thumb
                    &&& r.exif == e.exif
                    &&& is_utc_stamp(r.created_at@)
                    &&& r.duplicate_of is None
                },
            forall|k: int| 0 <= k < i ==> (#[trigger] paths@[k])@ == ev[k].path@,
        decreases n - i,
    {
        let e = rev.pop().unwrap();
        assert(e == ev[i as int]);
        paths.push(e.path.clone());
        let rec = ImageRecord {
            id: new_id(),
            dataset_id: String::from_str(dataset_id),
            path: e.path,
            width: Some(e.width),
            height: Some(e.height),
            dhash: Some(e.dhash),
            bucket: e.bucket,
            thumb: e.thumb,
            exif: e.exif,
            duplicate_of: None,
            created_at: now(),
        };
        recs.push(rec);
        i = i + 1;
    }
    let ghost pv = ev.map_values(|e: ImageEntry| e.path@);
    let ghost gv = groups.deep_view();
    proof {
        assert(paths@.map_values(|s: String| s@) =~= pv);
        assert(recs@.map_values(|r: ImageRecord| opt_text(r.duplicate_of)) =~= link_groups(
            pv,
            recs@.map_values(|r: ImageRecord| r.id@),
            gv.take(0),
        ));
    }
    let mut q: usize = 0;
    while q < groups.len()
        invariant
            q <= groups@.len(),
            gv == groups.deep_view(),
            recs@.len() == n,
            pv.len() == n,
            pv == paths@.map_values(|s: String| s@),
            recs@.map_values(|r: ImageRecord| opt_text(r.duplicate_of)) == link_groups(
                pv,
                recs@.map_values(|r: ImageRecord| r.id@),
                gv.take(q as int),
            ),
            forall|k: int|
                0 <= k < n ==> {
                    let r = #[trigger] recs@[k];
                    let e = ev[k];
                    &&& is_uuid_v4_text(r.id@)
                    &&& r.dataset_id@ == dataset_id@
                    &&& r.path == e.path
                    &&& r.width == Some(e.width)
                    &&& r.height == Some(e.height)
                    &&& r.dhash == Some(e.dhash)
                    &&& r.bucket == e.bucket
                    &&& r.thumb == e.thumb
                    &&& r.exif == e.exif
                    &&& is_utc_stamp(r.created_at@)
                },
        decreases groups@.len() - q,
    {
        let ghost iv = recs@.map_values(|r: ImageRecord| r.id@);
        let ghost before = recs@.map_values(|r: ImageRecord| opt_text(r.duplicate_of));
        let g = &groups[q];
        proof {
            assert(gv.take(q as int + 1).drop_last() =~= gv.take(q as int));
            assert(gv.take(q as int + 1).last() =~= g.deep_view());
            lemma_link_groups_len(pv, iv, gv.take(q as int));
        }
        if g.len() > 0 {
            match find_last(paths.as_slice(), &g[0]) {
                Some(f) => {
                    proof {
                        lemma_last_with(pv, g@[0]@);
                    }
                    let primary = recs[f].id.clone();
                    let ghost gs = g.deep_view().skip(1);
                    let mut j: usize = 1;
                    proof {
                        assert(gs.take(0) =~= Seq::<Seq<char>>::empty());
                    }
                    while j < g.len()
                        invariant
                            1 <= j <= g@.len(),
                            gs == g.deep_view().skip(1),
                            recs@.len() == n,
                            pv.len() == n,
                            pv == paths@.map_values(|s: String| s@),
                            iv == recs@.map_values(|r: ImageRecord| r.id@),
                            primary@ == iv[f as int],
                            before.len() == n,
                            recs@.map_values(|r: ImageRecord| opt_text(r.duplicate_of)) == link_members(
                                pv,
                                iv,
                                before,
                                primary@,
                                gs.take(j - 1),
                            ),
                            forall|k: int|
                                0 <= k < n ==> {
                                    let r = #[trigger] recs@[k];
                                    let e = ev[k];
                                    &&& is_uuid_v4_text(r.id@)
                                    &&& r.dataset_id@ == dataset_id@
                                    &&& r.path == e.path
                                    &&& r.width == Some(e.width)
                                    &&& r.height == Some(e.height)
                                    &&& r.dhash == Some(e.dhash)
                                    &&& r.bucket == e.bucket
                                    &&& r.thumb == e.thumb
                                    &&& r.exif == e.exif
                                    &&& is_utc_stamp(r.created_at@)
                                },
                        decreases g@.len() - j,
                    {
                        let ghost cur = recs@.map_values(|r: ImageRecord| opt_text(r.duplicate_of));
                        proof {
                            assert(gs.take(j as int).drop_last() =~= gs.take(j - 1));
                            assert(gs.take(j as int).last() == g@[j as int]@);
                            lemma_link_members_len(pv, iv, before, primary@, gs.take(j - 1));
                        }
                        match find_last(paths.as_slice(), &g[j]) {
                            Some(d) => {
                                proof {
                                    lemma_last_with(pv, g@[j as int]@);
                                }
                                let target = find_first(&recs, &recs[d].id);
                                proof {
                                    lemma_first_with(iv, iv[d as int]);
                                }
                                recs[target].duplicate_of = Some(primary.clone());
                                proof {
                                    assert(recs@.map_values(|r: ImageRecord| r.id@) =~= iv);
                                    assert(recs@.map_values(|r: ImageRecord| opt_text(r.duplicate_of)) =~= cur.update(
                                        target as int,
                                        Some(primary@),
                                    ));
                                }
                            },
                            None => {},
                        }
                        j = j + 1;
                    }
                    proof {
                        assert(gs.take(g@.len() - 1) =~= gs);
                    }
                },
                None => {},
            }
        }
        q = q + 1;
    }
    proof {
        assert(gv.take(groups@.len() as int) =~= gv);
    }
    recs
}

/// No text occurs twice.
pub open spec fn all_distinct(s: Seq<Seq<char>>) -> bool {
    forall|a: int, b: int| 0 <= a < b < s.len() ==> s[a] != s[b]
}

/// No path is a member of two groups, or twice of one.
pub open spec fn members_unique(groups: Seq<Seq<Seq<char>>>) -> bool {
    forall|g1: int, j1: int, g2: int, j2: int|
        0 <= g1 < groups.len() && 0 <= g2 < groups.len() && 0 <= j1 < groups[g1].len() && 0 <= j2
            < groups[g2].len() && #[trigger] groups[g1][j1] == #[trigger] groups[g2][j2] ==> g1 == g2 && j1 == j2
}

proof fn lemma_last_with_distinct(paths: Seq<Seq<char>>, k: int)
    requires
        all_distinct(paths),
        0 <= k < paths.len(),
    ensures
        last_with(paths, paths[k]) == k,
{
    lemma_last_with(paths, paths[k]);
    let l = last_with(paths, paths[k]);
    if l != k {
        assert(l > k ==> paths[k] != paths[l]);
    }
}

proof fn lemma_first_with_distinct(ids: Seq<Seq<char>>, d: int)
    requires
        all_distinct(ids),
        0 <= d < ids.len(),
    ensures
        first_with(ids, ids[d]) == d,
{
    lemma_first_with(ids, ids[d]);
    let f = first_with(ids, ids[d]);
    if f != d {
        assert(f < d ==> ids[f] != ids[d]);
    }
}

/// A member linked by `link_members` lands on its own record.
proof fn lemma_members_at(
    paths: Seq<Seq<char>>,
    ids: Seq<Seq<char>>,
    links: Seq<Option<Seq<char>>>,
    primary: Seq<char>,
    dups: Seq<Seq<char>>,
    k: int,
)
    requires
        all_distinct(paths),
        all_distinct(ids),
        ids.len() == paths.len(),
        links.len() == paths.len(),
        0 <= k < paths.len(),
    ensures
        link_members(paths, ids, links, primary, dups)[k] == if dups.contains(paths[k]) {
            Some(primary)
        } else {
            links[k]
        },
    decreases dups.len(),
{
    if dups.len() > 0 {
        let rest = link_members(paths, ids, links, primary, dups.drop_last());
        lemma_members_at(paths, ids, links, primary, dups.drop_last(), k);
        lemma_link_members_len(paths, ids, links, primary, dups.drop_last());
        lemma_last_with(paths, dups.last());
        let d = last_with(paths, dups.last());
        if d >= 0 {
            lemma_first_with_distinct(ids, d);
            lemma_last_with_distinct(paths, d);
        }
        if dups.last() == paths[k] {
            lemma_last_with_distinct(paths, k);
            lemma_first_with_distinct(ids, k);
            assert(dups.contains(paths[k])) by {
                assert(dups[dups.len() - 1] == paths[k]);
            }
        } else {
            assert(dups.contains(paths[k]) == dups.drop_last().contains(paths[k])) by {
                if dups.contains(paths[k]) {
                    let q = choose|q: int| 0 <= q < dups.len() && dups[q] == paths[k];
                    assert(q < dups.len() - 1);
                    assert(dups.drop_last()[q] == paths[k]);
                }
                if dups.drop_last().contains(paths[k]) {
                    let q = choose|q: int| 0 <= q < dups.len() - 1 && dups.drop_last()[q] == paths[k];
                    assert(dups[q] == paths[k]);
                }
            }
        }
    }
}

/// Where paths and ids are distinct and no path is a member of two groups
/// (as in a scan), a record links exactly when its image is a member of a
/// group after the first whose first member is among the images, and it
/// links to the id of that first member's record.
pub proof fn lemma_duplicates_link_to_primary(
    paths: Seq<Seq<char>>,
    ids: Seq<Seq<char>>,
    groups: Seq<Seq<Seq<char>>>,
    k: int,
)
    requires
        all_distinct(paths),
        all_distinct(ids),
        ids.len() == paths.len(),
        members_unique(groups),
        0 <= k < paths.len(),
    ensures
        link_groups(paths, ids, groups)[k] == if exists|g: int, j: int|
            #![trigger groups[g][j]]
            0 <= g < groups.len() && 1 <= j < groups[g].len() && groups[g][j] == paths[k] && paths.contains(
                groups[g][0],
            ) {
            let (g, j) = choose|g: int, j: int|
                #![trigger groups[g][j]]
                0 <= g < groups.len() && 1 <= j < groups[g].len() && groups[g][j] == paths[k] && paths.contains(
                    groups[g][0],
                );
            Some(ids[last_with(paths, groups[g][0])])
        } else {
            None
        },
    decreases groups.len(),
{
    lemma_link_groups_len(paths, ids, groups);
    if groups.len() == 0 {
    } else {
        let init = groups.drop_last();
        assert(members_unique(init)) by {
            assert forall|g1: int, j1: int, g2: int, j2: int|
                0 <= g1 < init.len() && 0 <= g2 < init.len() && 0 <= j1 < init[g1].len() && 0 <= j2 < init[g2].len()
                    && #[trigger] init[g1][j1] == #[trigger] init[g2][j2] implies g1 == g2 && j1 == j2 by {
                assert(groups[g1][j1] == groups[g2][j2]);
            }
        }
        lemma_duplicates_link_to_primary(paths, ids, init, k);
        lemma_link_groups_len(paths, ids, init);
        let prev = link_groups(paths, ids, init);
        let last = groups.len() - 1;
        let g = groups[last];
        let in_init = exists|g: int, j: int|
            #![trigger init[g][j]]
            0 <= g < init.len() && 1 <= j < init[g].len() && init[g][j] == paths[k] && paths.contains(init[g][0]);
        let in_all = exists|g: int, j: int|
            #![trigger groups[g][j]]
            0 <= g < groups.len() && 1 <= j < groups[g].len() && groups[g][j] == paths[k] && paths.contains(
                groups[g][0],
            );
        let in_last = g.len() > 0 && paths.contains(g[0]) && g.skip(1).contains(paths[k]);
        assert(in_all <==> in_init || in_last) by {
            if in_all {
                let (g1, j1) = choose|g1: int, j1: int|
                    #![trigger groups[g1][j1]]
                    0 <= g1 < groups.len() && 1 <= j1 < groups[g1].len() && groups[g1][j1] == paths[k]
                        && paths.contains(groups[g1][0]);
                if g1 < last {
                    assert(init[g1][j1] == groups[g1][j1]);
                } else {
                    assert(g.skip(1)[j1 - 1] == paths[k]);
                }
            }
            if in_init {
                let (g1, j1) = choose|g1: int, j1: int|
                    #![trigger init[g1][j1]]
                    0 <= g1 < init.len() && 1 <= j1 < init[g1].len() && init[g1][j1] == paths[k] && paths.contains(
                        init[g1][0],
                    );
                assert(groups[g1][j1] == paths[k]);
            }
            if in_last {
                let q = choose|q: int| 0 <= q < g.skip(1).len() && g.skip(1)[q] == paths[k];
                assert(groups[last][q + 1] == paths[k]);
            }
        }
        assert(in_init ==> !in_last) by {
            if in_init && in_last {
                let (g1, j1) = choose|g1: int, j1: int|
                    #![trigger init[g1][j1]]
                    0 <= g1 < init.len() && 1 <= j1 < init[g1].len() && init[g1][j1] == paths[k] && paths.contains(
                        init[g1][0],
                    );
                let q = choose|q: int| 0 <= q < g.skip(1).len() && g.skip(1)[q] == paths[k];
                assert(groups[g1][j1] == groups[last][q + 1]);
            }
        }
        if g.len() > 0 && last_with(paths, g[0]) >= 0 {
            lemma_last_with(paths, g[0]);
            assert(paths.contains(g[0]));
            lemma_members_at(paths, ids, prev, ids[last_with(paths, g[0])], g.skip(1), k);
            if in_last {
                assert(in_all);
                let (g1, j1) = choose|g1: int, j1: int|
                    #![trigger groups[g1][j1]]
                    0 <= g1 < groups.len() && 1 <= j1 < groups[g1].len() && groups[g1][j1] == paths[k]
                        && paths.contains(groups[g1][0]);
                let q = choose|q: int| 0 <= q < g.skip(1).len() && g.skip(1)[q] == paths[k];
                assert(groups[g1][j1] == groups[last][q + 1]);
            }
        } else {
            assert(!in_last) by {
                if in_last {
                    let q = choose|q: int| 0 <= q < paths.len() && paths[q] == g[0];
                    lemma_last_with(paths, g[0]);
                }
            }
        }
        if in_init {
            let (g1, j1) = choose|g1: int, j1: int|
                #![trigger init[g1][j1]]
                0 <= g1 < init.len() && 1 <= j1 < init[g1].len() && init[g1][j1] == paths[k] && paths.contains(
                    init[g1][0],
                );
            let (g2, j2) = choose|g2: int, j2: int|
                #![trigger groups[g2][j2]]
                0 <= g2 < groups.len() && 1 <= j2 < groups[g2].len() && groups[g2][j2] == paths[k]
                    && paths.contains(groups[g2][0]);
            assert(groups[g1][j1] == groups[g2][j2]);
            assert(init[g1] == groups[g1]);
        }
    }
}

} // verus!
