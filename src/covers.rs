//! Which documents still lack a cover image, and which stored objects the
//! cover stage has to fetch.

use vstd::prelude::*;
use vstd::string::*;
use crate::text::{ends_with, has_suffix, list_has, names_contain, same_text};

verus! {

/// An object key of a raw document: `<id>.pdf` or `<id>.zip`.
pub open spec fn is_raw_key(k: Seq<char>) -> bool {
    ends_with(k, ".pdf"@) || ends_with(k, ".zip"@)
}

/// The id part of a raw document's key.
pub open spec fn raw_stem(k: Seq<char>) -> Seq<char> {
    k.subrange(0, k.len() - 4)
}

/// Among the first `n` keys, a raw document with id `id` that the backend does
/// not hold as pending, and whose JPEG or WebP cover is missing from `keys`.
pub open spec fn needs_cover_upto(keys: Seq<String>, pending: Seq<String>, id: Seq<char>, n: int) -> bool {
    exists|i: int|
        0 <= i < n && is_raw_key((#[trigger] keys[i])@) && !names_contain(pending, keys[i]@) && raw_stem(keys[i]@) == id
            && (!names_contain(keys, id + ".jpg"@) || !names_contain(keys, id + ".webp"@))
}

/// `id` needs a cover: `(raw − have_jpg) ∪ (raw − have_webp)`, where raw
/// holds the ids of stored pdf and zip objects that are not pending.
pub open spec fn needs_cover_id(keys: Seq<String>, pending: Seq<String>, id: Seq<char>) -> bool {
    needs_cover_upto(keys, pending, id, keys.len() as int)
}

/// The ids that `ids` reads.
pub open spec fn id_set(ids: Seq<String>) -> Set<Seq<char>> {
    Set::new(|id: Seq<char>| names_contain(ids, id))
}

/// No id is listed twice.
pub open spec fn distinct_ids(ids: Seq<String>) -> bool {
    forall|a: int, b: int| 0 <= a < b < ids.len() ==> ids[a]@ != ids[b]@
}

/// `ids` lists, once each, exactly the ids that need a cover.
pub open spec fn is_cover_queue(keys: Seq<String>, pending: Seq<String>, ids: Seq<String>) -> bool {
    distinct_ids(ids) && forall|id: Seq<char>| #[trigger] names_contain(ids, id) <==> needs_cover_id(keys, pending, id)
}

/// The ids that need a cover, from the object keys of the store and the file
/// names that the backend holds as pending; in order of first appearance.
pub fn needs_cover(keys: &Vec<String>, pending: &Vec<String>) -> (r: Vec<String>)
    ensures
        is_cover_queue(keys@, pending@, r@),
{
    let mut out: Vec<String> = Vec::new();
    let mut i: usize = 0;
    while i < keys.len()
        invariant
            0 <= i <= keys@.len(),
            distinct_ids(out@),
            forall|id: Seq<char>| #[trigger] names_contain(out@, id) <==> needs_cover_upto(keys@, pending@, id, i as int),
        decreases keys.len() - i,
    {
        let k = keys[i].as_str();
        let n = k.unicode_len();
        proof {
            reveal_strlit(".pdf");
            reveal_strlit(".zip");
        }
        if (has_suffix(k, ".pdf") || has_suffix(k, ".zip")) && !list_has(pending, k) {
            let id = String::from_str(k.substring_char(0, n - 4));
            let jpg = id.clone().concat(".jpg");
            let webp = id.clone().concat(".webp");
            let missing = !list_has(keys, jpg.as_str()) || !list_has(keys, webp.as_str());
            if missing && !list_has(&out, id.as_str()) {
                let ghost old_out = out@;
                out.push(id);
                proof {
                    assert forall|x: Seq<char>| #[trigger] names_contain(out@, x) <==> (names_contain(old_out, x) || x == id@) by {
                        if names_contain(old_out, x) {
                            let j = choose|j: int| 0 <= j < old_out.len() && (#[trigger] old_out[j])@ == x;
                            assert(out@[j] == old_out[j]);
                        }
                        if x == id@ {
                            assert(out@[old_out.len() as int]@ == x);
                        }
                    }
                }
            }
        }
        proof {
            assert forall|x: Seq<char>| #[trigger] names_contain(out@, x) <==> needs_cover_upto(keys@, pending@, x, i + 1) by {
                if needs_cover_upto(keys@, pending@, x, i + 1) && !needs_cover_upto(keys@, pending@, x, i as int) {
                    let j = choose|j: int|
                        0 <= j < i + 1 && is_raw_key((#[trigger] keys@[j])@) && !names_contain(pending@, keys@[j]@) && raw_stem(keys@[j]@) == x
                            && (!names_contain(keys@, x + ".jpg"@) || !names_contain(keys@, x + ".webp"@));
                    assert(j == i);
                }
            }
        }
        i += 1;
    }
    out
}

/// Computing the cover queue twice on unchanged inputs gives the same set of
/// ids: the differ keeps no state between runs.
pub proof fn lemma_needs_cover_idempotent(keys: Seq<String>, pending: Seq<String>, first: Seq<String>, second: Seq<String>)
    requires
        is_cover_queue(keys, pending, first),
        is_cover_queue(keys, pending, second),
    ensures
        id_set(first) == id_set(second),
        first.len() == second.len(),
{
    assert(id_set(first) =~= id_set(second));
    lemma_distinct_len(first, second);
}

proof fn lemma_views_distinct(a: Seq<String>)
    requires
        distinct_ids(a),
    ensures
        a.map_values(|s: String| s@).no_duplicates(),
{
    let va = a.map_values(|s: String| s@);
    assert forall|i: int, j: int| 0 <= i < va.len() && 0 <= j < va.len() && i != j implies va[i] != va[j] by {
        if i < j {
            assert(a[i]@ != a[j]@);
        } else {
            assert(a[j]@ != a[i]@);
        }
    }
}

proof fn lemma_view_set(a: Seq<String>, x: Seq<char>)
    ensures
        a.map_values(|s: String| s@).contains(x) <==> names_contain(a, x),
{
    let va = a.map_values(|s: String| s@);
    if va.contains(x) {
        let j = choose|j: int| 0 <= j < va.len() && va[j] == x;
        assert(a[j]@ == x);
    }
    if names_contain(a, x) {
        let j = choose|j: int| 0 <= j < a.len() && (#[trigger] a[j])@ == x;
        assert(va[j] == x);
    }
}

proof fn lemma_distinct_len(a: Seq<String>, b: Seq<String>)
    requires
        distinct_ids(a),
        distinct_ids(b),
        forall|id: Seq<char>| #[trigger] names_contain(a, id) <==> names_contain(b, id),
    ensures
        a.len() == b.len(),
{
    let va = a.map_values(|s: String| s@);
    let vb = b.map_values(|s: String| s@);
    lemma_views_distinct(a);
    lemma_views_distinct(b);
    assert forall|x: Seq<char>| va.to_set().contains(x) <==> vb.to_set().contains(x) by {
        lemma_view_set(a, x);
        lemma_view_set(b, x);
    }
    assert(va.to_set() =~= vb.to_set());
    va.unique_seq_to_set();
    vb.unique_seq_to_set();
}

/// The id of a raw document's key; `None` for any other key.
pub fn raw_id(key: &str) -> (r: Option<String>)
    ensures
        r is Some <==> is_raw_key(key@),
        r matches Some(id) ==> id@ == raw_stem(key@),
{
    proof {
        reveal_strlit(".pdf");
        reveal_strlit(".zip");
    }
    if has_suffix(key, ".pdf") || has_suffix(key, ".zip") {
        let n = key.unicode_len();
        Some(String::from_str(key.substring_char(0, n - 4)))
    } else {
        None
    }
}

/// The stored objects to fetch for the cover stage: raw documents whose id is queued.
pub open spec fn fetch_wanted(queue: Seq<String>, k: String) -> bool {
    is_raw_key(k@) && names_contain(queue, raw_stem(k@))
}

/// The keys of `keys` that the cover stage must download, in store order.
pub fn keys_to_fetch(keys: &Vec<String>, queue: &Vec<String>) -> (r: Vec<String>)
    ensures
        r@ == keys@.filter(|k: String| fetch_wanted(queue@, k)),
{
    let mut out: Vec<String> = Vec::new();
    let mut i: usize = 0;
    while i < keys.len()
        invariant
            0 <= i <= keys@.len(),
            out@ == keys@.subrange(0, i as int).filter(|k: String| fetch_wanted(queue@, k)),
        decreases keys.len() - i,
    {
        let k = keys[i].as_str();
        let n = k.unicode_len();
        proof {
            reveal_strlit(".pdf");
            reveal_strlit(".zip");
            let next = keys@.subrange(0, i + 1);
            assert(next.drop_last() =~= keys@.subrange(0, i as int));
            assert(next == keys@.subrange(0, i as int).push(keys@[i as int]));
            keys@.subrange(0, i as int).lemma_filter_push(keys@[i as int], |k: String| fetch_wanted(queue@, k));
        }
        if (has_suffix(k, ".pdf") || has_suffix(k, ".zip")) && list_has(queue, k.substring_char(0, n - 4)) {
            out.push(keys[i].clone());
        }
        i += 1;
    }
    assert(keys@.subrange(0, keys@.len() as int) =~= keys@);
    out
}

/// What to do with one downloaded PDF before rendering its cover.
#[derive(Clone, Copy, Debug, PartialEq, Eq, Structural)]
pub enum CoverPlan {
    /// The content matches the id: render the first page.
    Render,
    /// The content hash differs from the id: count an integrity error and skip.
    Mismatch,
    /// Not a PDF download: nothing to render here.
    NotPdf,
}

pub open spec fn cover_plan_spec(file_name: Seq<char>, digest: Seq<char>) -> CoverPlan {
    if !ends_with(file_name, ".pdf"@) {
        CoverPlan::NotPdf
    } else if digest == raw_stem(file_name) {
        CoverPlan::Render
    } else {
        CoverPlan::Mismatch
    }
}

/// Decides, from a downloaded file's name and its computed content hash,
/// whether its cover may be rendered: never from content that does not match.
pub fn cover_plan(file_name: &str, digest: &str) -> (r: CoverPlan)
    ensures
        r == cover_plan_spec(file_name@, digest@),
{
    proof {
        reveal_strlit(".pdf");
    }
    if !has_suffix(file_name, ".pdf") {
        return CoverPlan::NotPdf;
    }
    let n = file_name.unicode_len();
    if same_text(digest, file_name.substring_char(0, n - 4)) {
        CoverPlan::Render
    } else {
        CoverPlan::Mismatch
    }
}

/// The WebP size budget, in bytes.
pub const WEBP_BUDGET: usize = 51200;

/// The quality of the one re-encoding: `48 KiB / size * 100`, clamped to `[5, 100]`.
pub open spec fn retry_quality(size: int) -> int {
    let q: int = 4915200int / size;
    if q < 5 {
        5
    } else if q > 100 {
        100
    } else {
        q
    }
}

/// The next action of the WebP size reduction of one image.
#[derive(Clone, Copy, Debug, PartialEq, Eq, Structural)]
pub enum WebpStep {
    /// Encode the image at this quality.
    Encode(u8),
    /// Keep the encoding with this index (0 for the first, 1 for the second).
    Keep(usize),
}

/// The action after the encodings whose sizes are `sizes`: encode at 100;
/// if that is over budget, encode once more at the estimated quality; then keep
/// the last encoding, whatever its size.
pub open spec fn webp_step_spec(sizes: Seq<usize>) -> WebpStep {
    if sizes.len() == 0 {
        WebpStep::Encode(100)
    } else if sizes.len() == 1 {
        if sizes[0] > WEBP_BUDGET {
            WebpStep::Encode(retry_quality(sizes[0] as int) as u8)
        } else {
            WebpStep::Keep(0)
        }
    } else {
        WebpStep::Keep(1)
    }
}

/// Chooses the next step of the WebP size reduction.
pub fn webp_step(sizes: &Vec<usize>) -> (r: WebpStep)
    requires
        sizes@.len() <= 2,
    ensures
        r == webp_step_spec(sizes@),
{
    if sizes.len() == 0 {
        WebpStep::Encode(100)
    } else if sizes.len() == 1 {
        let size = sizes[0];
        if size > WEBP_BUDGET {
            let q: usize = 4915200 / size;
            let q: usize = if q < 5 {
                5
            } else if q > 100 {
                100
            } else {
                q
            };
            WebpStep::Encode(q as u8)
        } else {
            WebpStep::Keep(0)
        }
    } else {
        WebpStep::Keep(1)
    }
}

/// An image whose first encoding (at quality 100) is over budget is encoded
/// exactly once more, at a quality in `[5, 100]`, and that second encoding is
/// kept whatever its size. One within budget is kept at once.
pub proof fn lemma_webp_single_retry(first: usize, second: usize)
    ensures
        webp_step_spec(Seq::<usize>::empty()) == WebpStep::Encode(100),
        first > WEBP_BUDGET ==> (webp_step_spec(seq![first]) matches WebpStep::Encode(q) && 5 <= q <= 100),
        first > WEBP_BUDGET ==> webp_step_spec(seq![first, second]) == WebpStep::Keep(1),
        first <= WEBP_BUDGET ==> webp_step_spec(seq![first]) == WebpStep::Keep(0),
{
    if first > WEBP_BUDGET {
        let q: int = 4915200int / (first as int);
        assert(q <= 96) by (nonlinear_arith)
            requires
                first > 51200,
                q == 4915200int / (first as int),
        ;
    }
}

/// Per-item results of a stage that runs every item and fails at the end
/// if any item failed.
#[derive(Clone, Copy, Debug, PartialEq, Eq, Structural)]
pub struct StageTally {
    pub attempted: u64,
    pub failed: u64,
}

impl StageTally {
    /// No item attempted yet.
    pub fn new() -> (r: StageTally)
        ensures
            r == (StageTally { attempted: 0, failed: 0 }),
    {
        StageTally { attempted: 0, failed: 0 }
    }

    /// Records the result of one item.
    pub fn record(&mut self, ok: bool)
        requires
            old(self).attempted < u64::MAX,
            old(self).failed <= old(self).attempted,
        ensures
            final(self).attempted == old(self).attempted + 1,
            final(self).failed == old(self).failed + (if ok { 0int } else { 1int }),
            final(self).failed <= final(self).attempted,
    {
        self.attempted = self.attempted + 1;
        if !ok {
            self.failed = self.failed + 1;
        }
    }

    /// The stage succeeds only if no item failed.
    pub fn succeeded(&self) -> (r: bool)
        ensures
            r == (self.failed == 0),
    {
        self.failed == 0
    }
}

} // verus!
