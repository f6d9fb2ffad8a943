//! The backend's pending files and the publish gate: which pending files a
//! run publishes, and which stored contents must be re-hashed.

use vstd::prelude::*;
use vstd::string::*;
use crate::text::{ends_with, has_suffix, same_text};

verus! {

/// The backend's state of an uploaded file.
#[derive(Clone, Copy, Debug, PartialEq, Eq, Structural)]
pub enum Status {
    Published,
    Pending,
    Timeout,
    Expired,
    Error,
    Uploaded,
}

/// A file that the backend has not published yet.
#[derive(Clone, Debug, PartialEq, Eq)]
pub struct PendingFile {
    /// The backend's numeric id.
    pub id: u64,
    /// The stored file name, `<id>.pdf` or `<id>.zip`.
    pub file_name: String,
    pub status: Status,
}

/// The first 32 characters of a name: the content-hash id that it starts with.
pub open spec fn id_prefix(s: Seq<char>) -> Option<Seq<char>> {
    if s.len() >= 32 {
        Some(s.subrange(0, 32))
    } else {
        None
    }
}

/// Some local metadata file (`*.yml`) starts with the same id as `name`.
pub open spec fn has_local_match(local: Seq<String>, name: Seq<char>) -> bool {
    exists|i: int|
        0 <= i < local.len() && ends_with((#[trigger] local[i])@, ".yml"@) && id_prefix(local[i]@).is_some() && id_prefix(local[i]@) == id_prefix(name)
}

/// The pending files that a run publishes: those with a local metadata file.
pub open spec fn publishable(local: Seq<String>, f: PendingFile) -> bool {
    has_local_match(local, f.file_name@)
}

fn prefix_of(s: &str) -> (r: Option<&str>)
    ensures
        r matches Some(p) ==> id_prefix(s@) == Some(p@),
        r is None ==> id_prefix(s@) is None,
{
    if s.unicode_len() >= 32 {
        Some(s.substring_char(0, 32))
    } else {
        None
    }
}

fn local_match(local: &Vec<String>, name: &str) -> (r: bool)
    ensures
        r == has_local_match(local@, name@),
{
    let target = match prefix_of(name) {
        Some(p) => p,
        None => {
            return false;
        },
    };
    let mut i: usize = 0;
    while i < local.len()
        invariant
            0 <= i <= local@.len(),
            id_prefix(name@) == Some(target@),
            forall|j: int|
                0 <= j < i ==> !(ends_with((#[trigger] local@[j])@, ".yml"@) && id_prefix(local@[j]@).is_some() && id_prefix(local@[j]@) == id_prefix(name@)),
        decreases local.len() - i,
    {
        let l = local[i].as_str();
        if has_suffix(l, ".yml") {
            if let Some(p) = prefix_of(l) {
                if same_text(p, target) {
                    return true;
                }
            }
        }
        i += 1;
    }
    false
}

/// Selects the pending files that have a local metadata file (matched by
/// their 32-character id prefix), removes them from `pending` so that they
/// are not counted again in this run, and returns their backend ids, each once.
pub fn take_publishable(local: &Vec<String>, pending: &mut Vec<PendingFile>) -> (r: Vec<u64>)
    ensures
        final(pending)@ == old(pending)@.filter(|f: PendingFile| !publishable(local@, f)),
        r@.no_duplicates(),
        forall|x: u64| r@.contains(x) <==> exists|i: int| 0 <= i < old(pending)@.len() && publishable(local@, #[trigger] old(pending)@[i]) && old(pending)@[i].id == x,
{
    let ghost orig = pending@;
    let mut ids: Vec<u64> = Vec::new();
    let mut kept: Vec<PendingFile> = Vec::new();
    let mut i: usize = 0;
    while i < pending.len()
        invariant
            pending@ == orig,
            0 <= i <= orig.len(),
            kept@ == orig.subrange(0, i as int).filter(|f: PendingFile| !publishable(local@, f)),
            ids@.no_duplicates(),
            forall|x: u64| ids@.contains(x) <==> exists|j: int| 0 <= j < i && publishable(local@, #[trigger] orig[j]) && orig[j].id == x,
        decreases orig.len() - i,
    {
        let f = &pending[i];
        proof {
            let next = orig.subrange(0, i + 1);
            assert(next == orig.subrange(0, i as int).push(orig[i as int]));
            orig.subrange(0, i as int).lemma_filter_push(orig[i as int], |f: PendingFile| !publishable(local@, f));
        }
        let ghost before = ids@;
        assert(*f == orig[i as int]);
        let m = local_match(local, f.file_name.as_str());
        assert(m == publishable(local@, orig[i as int]));
        if m {
            let mut seen = false;
            let mut k: usize = 0;
            while k < ids.len()
                invariant
                    0 <= k <= ids@.len(),
                    ids@ == before,
                    seen == exists|j: int| 0 <= j < k && ids@[j] == f.id,
                decreases ids.len() - k,
            {
                if ids[k] == f.id {
                    seen = true;
                }
                k += 1;
            }
            if seen {
                proof {
                    let j = choose|j: int| 0 <= j < ids@.len() && ids@[j] == f.id;
                    assert(ids@.contains(f.id));
                }
            } else {
                ids.push(f.id);
                assert forall|x: u64| ids@.contains(x) <==> (before.contains(x) || x == f.id) by {
                    if before.contains(x) {
                        let j = choose|j: int| 0 <= j < before.len() && before[j] == x;
                        assert(ids@[j] == x);
                    }
                    if x == f.id {
                        assert(ids@[before.len() as int] == x);
                    }
                }
                assert(ids@[before.len() as int] == f.id);
                assert(ids@.contains(f.id));
            }
            assert(ids@.contains(f.id));
        } else {
            kept.push(PendingFile { id: f.id, file_name: f.file_name.clone(), status: f.status });
        }
        assert(*f == orig[i as int]);
        assert forall|x: u64| ids@.contains(x) <==> (before.contains(x) || (publishable(local@, orig[i as int]) && x == orig[i as int].id)) by {
            if !publishable(local@, orig[i as int]) {
                assert(ids@ == before);
            }
        }
        assert forall|x: u64| ids@.contains(x) <==> exists|j: int| 0 <= j < i + 1 && publishable(local@, #[trigger] orig[j]) && orig[j].id == x by {
            if ids@.contains(x) {
                if before.contains(x) {
                    let j = choose|j: int| 0 <= j < i && publishable(local@, #[trigger] orig[j]) && orig[j].id == x;
                } else {
                    assert(publishable(local@, orig[i as int]) && orig[i as int].id == x);
                }
            }
            if exists|j: int| 0 <= j < i + 1 && publishable(local@, #[trigger] orig[j]) && orig[j].id == x {
                let j = choose|j: int| 0 <= j < i + 1 && publishable(local@, #[trigger] orig[j]) && orig[j].id == x;
                if j < i {
                    assert(before.contains(x));
                }
            }
        }
        i += 1;
        assert(kept@ == orig.subrange(0, i as int).filter(|f: PendingFile| !publishable(local@, f)));
    }
    assert(orig.subrange(0, orig.len() as int) =~= orig);
    *pending = kept;
    ids
}

/// Whether the publish request succeeded: only a `success` flag that is
/// present and true counts.
pub fn publish_accepted(success: Option<bool>) -> (r: bool)
    ensures
        r == (success == Some(true)),
{
    match success {
        Some(b) => b,
        None => false,
    }
}

/// The pending file that stores document `id`: the first named `<id>.pdf` or `<id>.zip`.
pub open spec fn stores(id: Seq<char>, f: PendingFile) -> bool {
    f.file_name@ == id + ".pdf"@ || f.file_name@ == id + ".zip"@
}

/// Whether the content of document `id` must be downloaded and re-hashed:
/// the first pending file that stores it exists and is not yet published.
pub open spec fn hash_check_due(id: Seq<char>, pending: Seq<PendingFile>) -> bool {
    exists|i: int|
        0 <= i < pending.len() && stores(id, #[trigger] pending[i]) && pending[i].status != Status::Published && forall|j: int| 0 <= j < i ==> !stores(id, #[trigger] pending[j])
}

/// Decides whether the stored content of document `id` needs a hash check.
pub fn needs_hash_check(id: &str, pending: &Vec<PendingFile>) -> (r: bool)
    ensures
        r == hash_check_due(id@, pending@),
{
    let id_s = String::from_str(id);
    let pdf = id_s.clone().concat(".pdf");
    let zip = id_s.concat(".zip");
    let mut i: usize = 0;
    while i < pending.len()
        invariant
            0 <= i <= pending@.len(),
            pdf@ == id@ + ".pdf"@,
            zip@ == id@ + ".zip"@,
            forall|j: int| 0 <= j < i ==> !stores(id@, #[trigger] pending@[j]),
        decreases pending.len() - i,
    {
        let name = pending[i].file_name.as_str();
        if same_text(name, pdf.as_str()) || same_text(name, zip.as_str()) {
            let due = pending[i].status != Status::Published;
            proof {
                if !due {
                    assert forall|k: int| 0 <= k < pending@.len() && stores(id@, #[trigger] pending@[k]) && pending@[k].status != Status::Published implies exists|j: int| 0 <= j < k && stores(id@, #[trigger] pending@[j]) by {
                        if k > i {
                            assert(stores(id@, pending@[i as int]));
                        }
                    }
                }
            }
            return due;
        }
        i += 1;
    }
    false
}

} // verus!
