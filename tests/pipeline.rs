use byrdocs_check::archive::{build_tree, decode_entry_name, split_path, ArchiveEntry};
use byrdocs_check::catalog::{file_size, ObjectRecord};
use byrdocs_check::covers::{raw_id, cover_plan, keys_to_fetch, needs_cover, webp_step, CoverPlan, StageTally, WebpStep};
use byrdocs_check::digest::{content_digest, content_matches_id, digest_matches_id};
use byrdocs_check::publish::{needs_hash_check, publish_accepted, take_publishable, PendingFile, Status};
use byrdocs_check::text::parse_u32;
use byrdocs_check::transfer::{Listing, ListingFailed, ListingMode, RetryPolicy, UploadStep};

const ID: &str = "0123456789abcdef0123456789abcdef";
const OTHER: &str = "fedcba9876543210fedcba9876543210";

fn strings(v: &[String]) -> Vec<String> {
    v.to_vec()
}

#[test]
fn pdf_without_covers_is_queued_then_cleared() {
    let mut keys = vec![format!("{}.pdf", ID)];
    assert_eq!(needs_cover(&keys, &vec![]), vec![ID.to_string()]);
    keys.push(format!("{}.jpg", ID));
    assert_eq!(needs_cover(&keys, &vec![]), vec![ID.to_string()]);
    keys.push(format!("{}.webp", ID));
    assert_eq!(needs_cover(&keys, &vec![]), Vec::<String>::new());
}

#[test]
fn cover_queue_is_stable_across_runs() {
    let keys = strings(&[
        format!("{}.zip", ID),
        format!("{}.pdf", OTHER),
        format!("{}.webp", OTHER),
        format!("{}.zip", ID),
        "readme.txt".to_string(),
    ]);
    let pending = vec![];
    let first = needs_cover(&keys, &pending);
    let second = needs_cover(&keys, &pending);
    assert_eq!(first, second);
    assert_eq!(first, vec![ID.to_string(), OTHER.to_string()]);
}

#[test]
fn pending_uploads_get_no_cover_yet() {
    let keys = vec![format!("{}.pdf", ID), format!("{}.pdf", OTHER)];
    let pending = vec![format!("{}.pdf", OTHER)];
    assert_eq!(needs_cover(&keys, &pending), vec![ID.to_string()]);
}

#[test]
fn fetch_only_queued_raw_documents() {
    let keys = vec![format!("{}.pdf", ID), format!("{}.jpg", ID), format!("{}.zip", OTHER)];
    let queue = vec![ID.to_string()];
    assert_eq!(keys_to_fetch(&keys, &queue), vec![format!("{}.pdf", ID)]);
}

#[test]
fn content_hash_of_known_input() {
    let data = b"abc".to_vec();
    assert_eq!(content_digest(&data), "900150983cd24fb0d6963f7d28e17f72");
    assert!(content_matches_id(&data, "900150983cd24fb0d6963f7d28e17f72"));
    assert!(!content_matches_id(&data, "900150983CD24FB0D6963F7D28E17F72"));
    assert!(!digest_matches_id("900150983cd24fb0d6963f7d28e17f72", ID));
}

#[test]
fn cover_plan_guards_integrity() {
    let name = format!("{}.pdf", ID);
    assert_eq!(cover_plan(&name, ID), CoverPlan::Render);
    assert_eq!(cover_plan(&name, OTHER), CoverPlan::Mismatch);
    assert_eq!(cover_plan(&format!("{}.zip", ID), ID), CoverPlan::NotPdf);
}

#[test]
fn webp_reencodes_once_when_over_budget() {
    assert_eq!(webp_step(&vec![]), WebpStep::Encode(100));
    assert_eq!(webp_step(&vec![51200]), WebpStep::Keep(0));
    assert_eq!(webp_step(&vec![98304]), WebpStep::Encode(50));
    assert_eq!(webp_step(&vec![98304, 70000]), WebpStep::Keep(1));
    assert_eq!(webp_step(&vec![10_000_000]), WebpStep::Encode(5));
    assert_eq!(webp_step(&vec![51201]), WebpStep::Encode(95));
}

#[test]
fn stage_fails_at_end() {
    let mut s = StageTally::new();
    s.record(true);
    s.record(false);
    s.record(true);
    assert_eq!(s.attempted, 3);
    assert_eq!(s.failed, 1);
    assert!(!s.succeeded());
    assert!(StageTally::new().succeeded());
}

#[test]
fn upload_retries_three_times() {
    let p = RetryPolicy::standard();
    assert_eq!(p.after_attempt(1, false), UploadStep::Retry);
    assert_eq!(p.after_attempt(2, false), UploadStep::Retry);
    assert_eq!(p.after_attempt(3, false), UploadStep::GiveUp);
    assert_eq!(p.after_attempt(2, true), UploadStep::Stored);
}

fn obj(key: &str, size: u64) -> ObjectRecord {
    ObjectRecord { key: key.to_string(), size: Some(size) }
}

#[test]
fn listing_pages_until_no_token() {
    let mut l = Listing::new();
    assert_eq!(l.next_request(), Some(None));
    l.on_page(vec![obj("a.pdf", 1)], Some("t1".to_string()));
    assert_eq!(l.next_request(), Some(Some("t1".to_string())));
    l.on_page(vec![obj("b.pdf", 2), obj("c.pdf", 3)], None);
    assert_eq!(l.next_request(), None);
    assert_eq!(l.objects.len(), 3);
    assert_eq!(l.pages, 2);
}

#[test]
fn listing_error_modes() {
    let mut l = Listing::new();
    l.on_page(vec![obj("a.pdf", 1)], Some("t1".to_string()));
    assert_eq!(l.on_error(ListingMode::BestEffort), Ok(()));
    assert!(l.truncated);
    assert_eq!(l.objects.len(), 1);
    assert_eq!(l.next_request(), None);
    let mut s = Listing::new();
    assert_eq!(s.on_error(ListingMode::Strict), Err(ListingFailed { pages: 0 }));
}

#[test]
fn file_size_lookup() {
    let objects = vec![obj(&format!("{}.jpg", ID), 5), obj(&format!("{}.zip", ID), 77)];
    assert_eq!(file_size(ID, &objects), Some(77));
    assert_eq!(file_size(OTHER, &objects), None);
}

fn pending(id: u64, name: String, status: Status) -> PendingFile {
    PendingFile { id, file_name: name, status }
}

#[test]
fn publish_gate_takes_matching_files() {
    let local = vec![format!("{}.yml", ID), "notes.txt".to_string(), format!("{}.yaml", OTHER)];
    let mut files = vec![
        pending(7, format!("{}.pdf", ID), Status::Pending),
        pending(8, format!("{}.pdf", OTHER), Status::Uploaded),
        pending(7, format!("{}.zip", ID), Status::Pending),
    ];
    let ids = take_publishable(&local, &mut files);
    assert_eq!(ids, vec![7]);
    assert_eq!(files.len(), 1);
    assert_eq!(files[0].id, 8);
    assert!(publish_accepted(Some(true)));
    assert!(!publish_accepted(Some(false)));
    assert!(!publish_accepted(None));
}

#[test]
fn hash_check_only_for_unpublished() {
    let files = vec![
        pending(1, format!("{}.pdf", ID), Status::Published),
        pending(2, format!("{}.zip", OTHER), Status::Pending),
    ];
    assert!(!needs_hash_check(ID, &files));
    assert!(needs_hash_check(OTHER, &files));
    assert!(!needs_hash_check("0000", &files));
}

#[test]
fn path_parts_and_names() {
    assert_eq!(split_path("/a//b/c.txt/"), vec!["a", "b", "c.txt"]);
    assert_eq!(split_path(""), Vec::<String>::new());
    assert_eq!(decode_entry_name(&"目录/a.txt".as_bytes().to_vec(), false), "目录/a.txt");
    // "中文" in GB18030
    assert_eq!(decode_entry_name(&vec![0xD6, 0xD0, 0xCE, 0xC4], false), "中文");
    assert_eq!(decode_entry_name(&vec![0x61, 0xFF], true), "a\u{FFFD}");
}

fn entry(name: &str, is_dir: bool) -> ArchiveEntry {
    ArchiveEntry { raw_name: name.as_bytes().to_vec(), utf8_flag: true, is_dir }
}

#[test]
fn archive_tree() {
    let entries = vec![
        entry("docs/", true),
        entry("docs/a.pdf", false),
        entry("docs/sub/b.pdf", false),
        entry("__MACOSX/docs/._a.pdf", false),
        entry("docs/.DS_Store", false),
        entry("~$lock.docx", false),
        entry("top.txt", false),
    ];
    let tree = build_tree(&entries).unwrap();
    let names: Vec<&str> = tree.nodes.iter().map(|n| n.name.as_str()).collect();
    assert_eq!(names, vec!["docs", "a.pdf", "sub", "b.pdf", "top.txt"]);
    assert_eq!(tree.children_of(None), vec![0, 4]);
    assert_eq!(tree.children_of(Some(0)), vec![1, 2]);
    assert_eq!(tree.children_of(Some(2)), vec![3]);
    assert!(tree.nodes[0].folder && !tree.nodes[1].folder);
}

#[test]
fn archive_conflict() {
    let entries = vec![entry("a", false), entry("a/b.txt", false)];
    assert_eq!(build_tree(&entries).err(), Some(1));
}

#[test]
fn unsigned_parsing() {
    assert_eq!(parse_u32("2021"), Some(2021));
    assert_eq!(parse_u32("+7"), Some(7));
    assert_eq!(parse_u32("4294967295"), Some(4294967295));
    assert_eq!(parse_u32("4294967296"), None);
    assert_eq!(parse_u32("-1"), None);
    assert_eq!(parse_u32("+"), None);
    assert_eq!(parse_u32(" 1"), None);
}

#[test]
fn raw_document_ids() {
    assert_eq!(raw_id(&format!("{}.pdf", ID)), Some(ID.to_string()));
    assert_eq!(raw_id(&format!("{}.zip", ID)), Some(ID.to_string()));
    assert_eq!(raw_id(&format!("{}.jpg", ID)), None);
}
