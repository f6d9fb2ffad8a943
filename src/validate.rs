//! Per-record validation. Every rule is evaluated and every violation is
//! reported, in a fixed order, so that a submitter sees the whole list at once.

use vstd::prelude::*;
use vstd::string::*;
use crate::isbn13::{IsbnRegistry, registry_owner, isbn13_text_valid, isbn_digits, parse_isbn13};
use crate::metadata::{Book, Data, MetaData, Type, Course, Doc, Test, Time, is_course_level, is_stage, is_semester, is_test_tag, is_doc_tag, is_pdf_or_zip, course_level_ok, stage_ok, semester_ok, test_tag_ok, doc_tag_ok, pdf_or_zip};
use crate::text::{list_has, names_contain, all_hex_digits, contains_text, ends_with, has_prefix, has_substring, has_suffix, only_hex_digits, starts_with, all_ascii_digits, parse_u32, parse_u32_spec, only_digits, same_text};

verus! {

/// One broken rule.
#[derive(Clone, Debug, PartialEq, Eq)]
pub enum Violation {
    /// A course level other than `本科` or `研究生`.
    CourseLevel,
    /// A stage other than `期中` or `期末`.
    Stage,
    /// A semester other than `First` or `Second`.
    Semester,
    /// An exam content tag other than `原题` or `答案`.
    TestTag,
    /// An empty string in the college list.
    EmptyCollege,
    /// Start and end years that are neither equal nor consecutive.
    TimeOrder,
    /// A start or end year that is not a decimal number.
    TimeFormat,
    /// A file type other than `pdf` or `zip`.
    FileType,
    /// An empty content list.
    EmptyContent,
    /// An empty course list.
    EmptyCourse,
    /// A document content tag outside its vocabulary.
    DocTag,
    /// A book without authors.
    NoAuthor,
    /// A publish year that is not four digits.
    PublishYear,
    /// The ISBN at this position is not a valid ISBN-13.
    IsbnFormat(usize),
    /// The ISBN at this position is already owned by the given id.
    DuplicateIsbn(usize, String),
    /// A book whose file type is not `pdf`.
    BookFileType,
    /// The file that the url names is not in the object store.
    NotUploaded,
    /// The url does not have the form `https://byrdocs.org/files/<32 hex>.(pdf|zip)`.
    Url,
    /// The url does not contain the id.
    UrlId,
    /// The metadata file is not named `<id>.yml`.
    FileName,
    /// The stored file's content hash differs from the id.
    ContentHash,
}

/// The text that [`Violation::message`] gives each violation.
pub open spec fn message_text(v: Violation) -> Seq<char> {
    match v {
        Violation::CourseLevel => "invalid course type: must be 本科 or 研究生"@,
        Violation::Stage => "invalid stage: must be 期中 or 期末"@,
        Violation::Semester => "invalid semester: must be First or Second"@,
        Violation::TestTag => "invalid content: must be 原题 or 答案"@,
        Violation::EmptyCollege => "college entries must not be empty"@,
        Violation::TimeOrder => "invalid time: end must equal start or start + 1"@,
        Violation::TimeFormat => "invalid time: start and end must be numbers"@,
        Violation::FileType => "invalid filetype: must be pdf or zip"@,
        Violation::EmptyContent => "content must not be empty"@,
        Violation::EmptyCourse => "course must not be empty"@,
        Violation::DocTag => "invalid content: must be 思维导图, 题库, 答案, 知识点 or 课件"@,
        Violation::NoAuthor => "a book needs at least one author"@,
        Violation::PublishYear => "invalid publish year: must be four digits"@,
        Violation::IsbnFormat(_) => "invalid ISBN-13"@,
        Violation::DuplicateIsbn(_, owner) => "duplicate ISBN, already used by "@ + owner@,
        Violation::BookFileType => "invalid filetype: a book must be pdf"@,
        Violation::NotUploaded => "the file has not been uploaded"@,
        Violation::Url => "invalid url"@,
        Violation::UrlId => "the url does not match the id"@,
        Violation::FileName => "the file name does not match the id"@,
        Violation::ContentHash => "the file content does not match the id"@,
    }
}

impl Violation {
    /// A one-line description for the submitter.
    pub fn message(&self) -> (r: String)
        ensures
            r@ == message_text(*self),
    {
        match self {
            Violation::CourseLevel => String::from_str("invalid course type: must be 本科 or 研究生"),
            Violation::Stage => String::from_str("invalid stage: must be 期中 or 期末"),
            Violation::Semester => String::from_str("invalid semester: must be First or Second"),
            Violation::TestTag => String::from_str("invalid content: must be 原题 or 答案"),
            Violation::EmptyCollege => String::from_str("college entries must not be empty"),
            Violation::TimeOrder => String::from_str("invalid time: end must equal start or start + 1"),
            Violation::TimeFormat => String::from_str("invalid time: start and end must be numbers"),
            Violation::FileType => String::from_str("invalid filetype: must be pdf or zip"),
            Violation::EmptyContent => String::from_str("content must not be empty"),
            Violation::EmptyCourse => String::from_str("course must not be empty"),
            Violation::DocTag => String::from_str(
                "invalid content: must be 思维导图, 题库, 答案, 知识点 or 课件",
            ),
            Violation::NoAuthor => String::from_str("a book needs at least one author"),
            Violation::PublishYear => String::from_str("invalid publish year: must be four digits"),
            Violation::IsbnFormat(_) => String::from_str("invalid ISBN-13"),
            Violation::DuplicateIsbn(_, owner) => String::from_str(
                "duplicate ISBN, already used by ",
            ).concat(owner.as_str()),
            Violation::BookFileType => String::from_str("invalid filetype: a book must be pdf"),
            Violation::NotUploaded => String::from_str("the file has not been uploaded"),
            Violation::Url => String::from_str("invalid url"),
            Violation::UrlId => String::from_str("the url does not match the id"),
            Violation::FileName => String::from_str("the file name does not match the id"),
            Violation::ContentHash => String::from_str("the file content does not match the id"),
        }
    }
}

/// `[v]` where `b` holds, else nothing.
pub open spec fn flag(b: bool, v: Violation) -> Seq<Violation> {
    if b {
        seq![v]
    } else {
        Seq::empty()
    }
}

/// `r` reports exactly the violations `vs`: success when there are none.
pub open spec fn verdict(r: Result<(), Vec<Violation>>, vs: Seq<Violation>) -> bool {
    match r {
        Ok(_) => vs.len() == 0,
        Err(e) => e@ == vs && vs.len() > 0,
    }
}

pub open spec fn level_bad(o: Option<String>) -> bool {
    match o {
        Some(s) => !is_course_level(s@),
        None => false,
    }
}

pub open spec fn stage_bad(o: Option<String>) -> bool {
    match o {
        Some(s) => !is_stage(s@),
        None => false,
    }
}

pub open spec fn semester_bad(o: Option<String>) -> bool {
    match o {
        Some(s) => !is_semester(s@),
        None => false,
    }
}

pub open spec fn college_bad(o: Option<Vec<String>>) -> bool {
    match o {
        Some(v) => exists|i: int| 0 <= i < v@.len() && (#[trigger] v@[i])@.len() == 0,
        None => false,
    }
}

pub open spec fn year_bad(o: Option<String>) -> bool {
    match o {
        Some(s) => !(s@.len() == 4 && all_ascii_digits(s@)),
        None => false,
    }
}

/// One `TestTag` for each of the first `n` tags outside the exam vocabulary.
pub open spec fn bad_test_tags(tags: Seq<String>, n: int) -> Seq<Violation>
    decreases n,
{
    if n <= 0 {
        Seq::empty()
    } else {
        bad_test_tags(tags, n - 1) + flag(!is_test_tag(tags[n - 1]@), Violation::TestTag)
    }
}

/// One `DocTag` for each of the first `n` tags outside the document vocabulary.
pub open spec fn bad_doc_tags(tags: Seq<String>, n: int) -> Seq<Violation>
    decreases n,
{
    if n <= 0 {
        Seq::empty()
    } else {
        bad_doc_tags(tags, n - 1) + flag(!is_doc_tag(tags[n - 1]@), Violation::DocTag)
    }
}

/// One `CourseLevel` for each of the first `n` courses with a bad level.
pub open spec fn bad_course_levels(courses: Seq<Course>, n: int) -> Seq<Violation>
    decreases n,
{
    if n <= 0 {
        Seq::empty()
    } else {
        bad_course_levels(courses, n - 1) + flag(level_bad(courses[n - 1].type_), Violation::CourseLevel)
    }
}

/// The year range rule: both years parse, and the end is the start or the next year.
pub open spec fn time_violations(t: Time) -> Seq<Violation> {
    match (parse_u32_spec(t.start@), parse_u32_spec(t.end@)) {
        (Some(s), Some(e)) => flag(!(s == e || s + 1 == e), Violation::TimeOrder),
        _ => seq![Violation::TimeFormat],
    }
}

/// Every rule broken by an exam paper, in reporting order.
pub open spec fn test_violations(t: Test) -> Seq<Violation> {
    flag(level_bad(t.course.type_), Violation::CourseLevel)
        + flag(stage_bad(t.time.stage), Violation::Stage)
        + flag(semester_bad(t.time.semester), Violation::Semester)
        + bad_test_tags(t.content@, t.content@.len() as int)
        + flag(college_bad(t.college), Violation::EmptyCollege)
        + time_violations(t.time)
        + flag(!is_pdf_or_zip(t.filetype@), Violation::FileType)
        + flag(t.content@.len() == 0, Violation::EmptyContent)
}

/// Every rule broken by a document, in reporting order.
pub open spec fn doc_violations(d: Doc) -> Seq<Violation> {
    flag(d.course@.len() == 0, Violation::EmptyCourse)
        + bad_course_levels(d.course@, d.course@.len() as int)
        + flag(d.content@.len() == 0, Violation::EmptyContent)
        + bad_doc_tags(d.content@, d.content@.len() as int)
        + flag(!is_pdf_or_zip(d.filetype@), Violation::FileType)
}

fn finish(errors: Vec<Violation>) -> (r: Result<(), Vec<Violation>>)
    ensures
        verdict(r, errors@),
{
    if errors.len() == 0 {
        Ok(())
    } else {
        Err(errors)
    }
}

fn opt_fails(o: &Option<String>, kind: u8) -> (r: bool)
    requires
        kind < 3,
    ensures
        kind == 0 ==> r == level_bad(*o),
        kind == 1 ==> r == stage_bad(*o),
        kind == 2 ==> r == semester_bad(*o),
{
    match o {
        Some(s) => if kind == 0 {
            !course_level_ok(s.as_str())
        } else if kind == 1 {
            !stage_ok(s.as_str())
        } else {
            !semester_ok(s.as_str())
        },
        None => false,
    }
}

fn has_empty(v: &Vec<String>) -> (r: bool)
    ensures
        r == exists|i: int| 0 <= i < v@.len() && (#[trigger] v@[i])@.len() == 0,
{
    let mut i: usize = 0;
    while i < v.len()
        invariant
            0 <= i <= v@.len(),
            forall|k: int| 0 <= k < i ==> (#[trigger] v@[k])@.len() != 0,
        decreases v.len() - i,
    {
        if v[i].as_str().unicode_len() == 0 {
            assert((v@[i as int])@.len() == 0);
            return true;
        }
        i += 1;
    }
    false
}

fn college_fails(o: &Option<Vec<String>>) -> (r: bool)
    ensures
        r == college_bad(*o),
{
    match o {
        Some(v) => has_empty(v),
        None => false,
    }
}

fn time_check(t: &Time) -> (r: Vec<Violation>)
    ensures
        r@ == time_violations(*t),
{
    let mut r = Vec::new();
    match (parse_u32(t.start.as_str()), parse_u32(t.end.as_str())) {
        (Some(s), Some(e)) => {
            if !(s == e || s as u64 + 1 == e as u64) {
                r.push(Violation::TimeOrder);
            }
        },
        _ => {
            r.push(Violation::TimeFormat);
        },
    }
    assert(r@ =~= time_violations(*t));
    r
}

/// Checks an exam paper against every rule and reports all that it breaks.
pub fn check_test(test: &Test) -> (r: Result<(), Vec<Violation>>)
    ensures
        verdict(r, test_violations(*test)),
{
    let mut errors: Vec<Violation> = Vec::new();
    if opt_fails(&test.course.type_, 0) {
        errors.push(Violation::CourseLevel);
    }
    if opt_fails(&test.time.stage, 1) {
        errors.push(Violation::Stage);
    }
    if opt_fails(&test.time.semester, 2) {
        errors.push(Violation::Semester);
    }
    let ghost head = errors@;
    assert(head =~= flag(level_bad(test.course.type_), Violation::CourseLevel) + flag(
        stage_bad(test.time.stage),
        Violation::Stage,
    ) + flag(semester_bad(test.time.semester), Violation::Semester));
    let tags = &test.content;
    let mut i: usize = 0;
    assert(head + bad_test_tags(tags@, 0) =~= head);
    while i < tags.len()
        invariant
            0 <= i <= tags@.len(),
            errors@ == head + bad_test_tags(tags@, i as int),
        decreases tags.len() - i,
    {
        if !test_tag_ok(tags[i].as_str()) {
            errors.push(Violation::TestTag);
        }
        i += 1;
        assert(errors@ =~= head + bad_test_tags(tags@, i as int));
    }
    if college_fails(&test.college) {
        errors.push(Violation::EmptyCollege);
    }
    let mut time = time_check(&test.time);
    errors.append(&mut time);
    if !pdf_or_zip(test.filetype.as_str()) {
        errors.push(Violation::FileType);
    }
    if test.content.len() == 0 {
        errors.push(Violation::EmptyContent);
    }
    assert(errors@ =~= test_violations(*test));
    finish(errors)
}

/// Checks a document against every rule and reports all that it breaks.
pub fn check_doc(doc: &Doc) -> (r: Result<(), Vec<Violation>>)
    ensures
        verdict(r, doc_violations(*doc)),
{
    let mut errors: Vec<Violation> = Vec::new();
    if doc.course.len() == 0 {
        errors.push(Violation::EmptyCourse);
    }
    let ghost head = errors@;
    let courses = &doc.course;
    let mut i: usize = 0;
    assert(head + bad_course_levels(courses@, 0) =~= head);
    while i < courses.len()
        invariant
            0 <= i <= courses@.len(),
            errors@ == head + bad_course_levels(courses@, i as int),
        decreases courses.len() - i,
    {
        if opt_fails(&courses[i].type_, 0) {
            errors.push(Violation::CourseLevel);
        }
        i += 1;
        assert(errors@ =~= head + bad_course_levels(courses@, i as int));
    }
    if doc.content.len() == 0 {
        errors.push(Violation::EmptyContent);
    }
    let ghost mid = errors@;
    let tags = &doc.content;
    let mut j: usize = 0;
    assert(mid + bad_doc_tags(tags@, 0) =~= mid);
    while j < tags.len()
        invariant
            0 <= j <= tags@.len(),
            errors@ == mid + bad_doc_tags(tags@, j as int),
        decreases tags.len() - j,
    {
        if !doc_tag_ok(tags[j].as_str()) {
            errors.push(Violation::DocTag);
        }
        j += 1;
        assert(errors@ =~= mid + bad_doc_tags(tags@, j as int));
    }
    if !pdf_or_zip(doc.filetype.as_str()) {
        errors.push(Violation::FileType);
    }
    assert(errors@ =~= doc_violations(*doc));
    finish(errors)
}

/// Whether a valid ISBN before position `i` has the same digits as the one at `i`.
pub open spec fn repeated_earlier(isbns: Seq<String>, i: int) -> bool {
    exists|j: int| 0 <= j < i && isbn13_text_valid(isbns[j]@) && #[trigger] isbn_digits(isbns[j]@) == isbn_digits(isbns[i]@)
}

/// Who already owns the ISBN at position `i`: its registry owner, else the
/// book itself where an earlier position of the book lists it.
pub open spec fn duplicate_owner(isbns: Seq<String>, reg: Seq<(Seq<char>, String)>, id: String, i: int) -> Option<String> {
    if !isbn13_text_valid(isbns[i]@) {
        None
    } else {
        match registry_owner(reg, isbn_digits(isbns[i]@)) {
            Some(o) => Some(o),
            None => if repeated_earlier(isbns, i) {
                Some(id)
            } else {
                None
            },
        }
    }
}

/// One `IsbnFormat` for each of the first `n` ISBNs that is no ISBN-13.
pub open spec fn isbn_format_violations(isbns: Seq<String>, n: int) -> Seq<Violation>
    decreases n,
{
    if n <= 0 {
        Seq::empty()
    } else {
        isbn_format_violations(isbns, n - 1) + flag(!isbn13_text_valid(isbns[n - 1]@), Violation::IsbnFormat((n - 1) as usize))
    }
}

/// One `DuplicateIsbn` for each of the first `n` ISBNs that is already owned.
pub open spec fn isbn_duplicate_violations(isbns: Seq<String>, reg: Seq<(Seq<char>, String)>, id: String, n: int) -> Seq<Violation>
    decreases n,
{
    if n <= 0 {
        Seq::empty()
    } else {
        isbn_duplicate_violations(isbns, reg, id, n - 1) + match duplicate_owner(isbns, reg, id, n - 1) {
            Some(o) => seq![Violation::DuplicateIsbn((n - 1) as usize, o)],
            None => Seq::empty(),
        }
    }
}

/// Every rule broken by book `b` with id `id`, given the ISBNs registered so far.
pub open spec fn book_violations(b: Book, reg: Seq<(Seq<char>, String)>, id: String) -> Seq<Violation> {
    flag(b.authors@.len() == 0, Violation::NoAuthor)
        + flag(year_bad(b.publish_year), Violation::PublishYear)
        + isbn_format_violations(b.isbn@, b.isbn@.len() as int)
        + isbn_duplicate_violations(b.isbn@, reg, id, b.isbn@.len() as int)
        + flag(b.filetype@ != "pdf"@, Violation::BookFileType)
}

/// The registry entries that a valid book adds: each of its ISBNs, owned by its id.
pub open spec fn book_claims(b: Book, id: String) -> Seq<(Seq<char>, String)> {
    Seq::new(b.isbn@.len(), |i: int| (isbn_digits(b.isbn@[i]@), id))
}

/// The registry after checking book `b`: its ISBNs are added only if it passes.
pub open spec fn registry_after_book(b: Book, reg: Seq<(Seq<char>, String)>, id: String) -> Seq<(Seq<char>, String)> {
    if book_violations(b, reg, id).len() == 0 {
        reg + book_claims(b, id)
    } else {
        reg
    }
}

pub open spec fn canon_of(c: Option<String>, s: String) -> bool {
    match c {
        Some(d) => isbn13_text_valid(s@) && d@ == isbn_digits(s@),
        None => !isbn13_text_valid(s@),
    }
}

proof fn lemma_no_format_violations(isbns: Seq<String>, n: int)
    requires
        0 <= n <= isbns.len(),
        isbn_format_violations(isbns, n).len() == 0,
    ensures
        forall|k: int| 0 <= k < n ==> isbn13_text_valid(#[trigger] isbns[k]@),
    decreases n,
{
    if n > 0 {
        lemma_no_format_violations(isbns, n - 1);
    }
}

proof fn lemma_no_duplicate_violations(isbns: Seq<String>, reg: Seq<(Seq<char>, String)>, id: String, n: int)
    requires
        0 <= n <= isbns.len(),
        isbn_duplicate_violations(isbns, reg, id, n).len() == 0,
    ensures
        forall|k: int| 0 <= k < n ==> (#[trigger] duplicate_owner(isbns, reg, id, k)).is_none(),
    decreases n,
{
    if n > 0 {
        lemma_no_duplicate_violations(isbns, reg, id, n - 1);
    }
}

fn year_fails(o: &Option<String>) -> (r: bool)
    ensures
        r == year_bad(*o),
{
    match o {
        Some(s) => !(s.as_str().unicode_len() == 4 && only_digits(s.as_str())),
        None => false,
    }
}

/// Checks a book against every rule, ISBN uniqueness across the corpus
/// included, and reports all that it breaks. A book that passes registers
/// its ISBNs under `id`; one that fails leaves the registry as it was.
pub fn check_book(book: &Book, id: &String, registry: &mut IsbnRegistry) -> (r: Result<(), Vec<Violation>>)
    ensures
        verdict(r, book_violations(*book, old(registry)@, *id)),
        final(registry)@ == registry_after_book(*book, old(registry)@, *id),
{
    let ghost reg0 = registry@;
    let mut errors: Vec<Violation> = Vec::new();
    if book.authors.len() == 0 {
        errors.push(Violation::NoAuthor);
    }
    if year_fails(&book.publish_year) {
        errors.push(Violation::PublishYear);
    }
    let ghost head = errors@;
    let isbns = &book.isbn;
    let n = isbns.len();
    let mut canon: Vec<Option<String>> = Vec::new();
    let mut i: usize = 0;
    assert(head + isbn_format_violations(isbns@, 0) =~= head);
    while i < n
        invariant
            n == isbns@.len(),
            0 <= i <= n,
            canon@.len() == i,
            forall|k: int| 0 <= k < i ==> canon_of(#[trigger] canon@[k], isbns@[k]),
            errors@ == head + isbn_format_violations(isbns@, i as int),
        decreases n - i,
    {
        match parse_isbn13(isbns[i].as_str()) {
            Ok(d) => {
                canon.push(Some(d));
            },
            Err(_) => {
                canon.push(None);
                errors.push(Violation::IsbnFormat(i));
            },
        }
        i += 1;
        assert(errors@ =~= head + isbn_format_violations(isbns@, i as int));
    }
    let ghost mid = errors@;
    let mut i: usize = 0;
    assert(mid + isbn_duplicate_violations(isbns@, reg0, *id, 0) =~= mid);
    while i < n
        invariant
            n == isbns@.len(),
            0 <= i <= n,
            canon@.len() == n,
            forall|k: int| 0 <= k < n ==> canon_of(#[trigger] canon@[k], isbns@[k]),
            registry@ == reg0,
            errors@ == mid + isbn_duplicate_violations(isbns@, reg0, *id, i as int),
        decreases n - i,
    {
        assert(canon_of(canon@[i as int], isbns@[i as int]));
        if let Some(d) = &canon[i] {
            match registry.owner_of(d.as_str()) {
                Some(o) => {
                    errors.push(Violation::DuplicateIsbn(i, o));
                },
                None => {
                    let mut found = false;
                    let mut j: usize = 0;
                    while j < i
                        invariant
                            n == isbns@.len(),
                            0 <= j <= i < n,
                            canon@.len() == n,
                            forall|k: int| 0 <= k < n ==> canon_of(#[trigger] canon@[k], isbns@[k]),
                            canon@[i as int] == Some(*d),
                            found == exists|k: int| 0 <= k < j && isbn13_text_valid(isbns@[k]@) && #[trigger] isbn_digits(isbns@[k]@) == isbn_digits(isbns@[i as int]@),
                        decreases i - j,
                    {
                        assert(canon_of(canon@[j as int], isbns@[j as int]));
                        if let Some(e) = &canon[j] {
                            if same_text(e.as_str(), d.as_str()) {
                                found = true;
                            }
                        }
                        j += 1;
                    }
                    assert(found == repeated_earlier(isbns@, i as int));
                    if found {
                        errors.push(Violation::DuplicateIsbn(i, id.clone()));
                    }
                },
            }
        }
        i += 1;
        assert(errors@ =~= mid + isbn_duplicate_violations(isbns@, reg0, *id, i as int));
    }
    if !same_text(book.filetype.as_str(), "pdf") {
        errors.push(Violation::BookFileType);
    }
    assert(errors@ =~= book_violations(*book, reg0, *id));
    if errors.len() == 0 {
        proof {
            lemma_no_format_violations(isbns@, n as int);
            lemma_no_duplicate_violations(isbns@, reg0, *id, n as int);
        }
        let ghost claims = book_claims(*book, *id);
        let mut i: usize = 0;
        assert(claims.len() == n);
        assert(reg0 + claims.subrange(0, 0) =~= reg0);
        while i < n
            invariant
                n == isbns@.len(),
                0 <= i <= n,
                canon@.len() == n,
                claims == book_claims(*book, *id),
                claims.len() == n,
                isbns@ == book.isbn@,
                forall|k: int| 0 <= k < n ==> canon_of(#[trigger] canon@[k], isbns@[k]),
                forall|k: int| 0 <= k < n ==> isbn13_text_valid(#[trigger] isbns@[k]@),
                forall|k: int| 0 <= k < n ==> (#[trigger] duplicate_owner(isbns@, reg0, *id, k)).is_none(),
                registry@ == reg0 + claims.subrange(0, i as int),
                forall|key: Seq<char>| (forall|k: int| 0 <= k < i ==> #[trigger] isbn_digits(isbns@[k]@) != key) ==> registry_owner(registry@, key) == registry_owner(reg0, key),
            decreases n - i,
        {
            assert(canon_of(canon@[i as int], isbns@[i as int]));
            assert(isbn13_text_valid(isbns@[i as int]@));
            if let Some(d) = &canon[i] {
                assert(duplicate_owner(isbns@, reg0, *id, i as int).is_none());
                assert(!repeated_earlier(isbns@, i as int));
                assert forall|k: int| 0 <= k < i implies #[trigger] isbn_digits(isbns@[k]@) != d@ by {
                    assert(isbn13_text_valid(isbns@[k]@));
                }
                let ghost before = registry@;
                assert(claims[i as int] == (d@, *id));
                let _ = registry.register(d.as_str(), id.clone());
                assert(registry@ == before.push((d@, *id)));
                assert forall|key: Seq<char>| (forall|k: int| 0 <= k < i + 1 ==> #[trigger] isbn_digits(isbns@[k]@) != key) implies registry_owner(registry@, key) == registry_owner(reg0, key) by {
                    assert(registry@.drop_last() =~= before);
                    assert(isbn_digits(isbns@[i as int]@) != key);
                }
            }
            i += 1;
            assert(claims.subrange(0, i as int) =~= claims.subrange(0, i - 1).push(claims[i - 1]));
            assert(registry@ =~= reg0 + claims.subrange(0, i as int));
        }
        assert(claims.subrange(0, n as int) =~= claims);
    }
    finish(errors)
}

/// Every rule broken by a payload.
pub open spec fn data_violations(d: Data, reg: Seq<(Seq<char>, String)>, id: String) -> Seq<Violation> {
    match d {
        Data::Test(t) => test_violations(t),
        Data::Book(b) => book_violations(b, reg, id),
        Data::Doc(x) => doc_violations(x),
    }
}

/// The registry after checking a payload: only a passing book changes it.
pub open spec fn registry_after(d: Data, reg: Seq<(Seq<char>, String)>, id: String) -> Seq<(Seq<char>, String)> {
    match d {
        Data::Book(b) => registry_after_book(b, reg, id),
        _ => reg,
    }
}

/// Checks a payload against the rules of its kind.
pub fn check(data: &Data, id: &String, registry: &mut IsbnRegistry) -> (r: Result<(), Vec<Violation>>)
    ensures
        verdict(r, data_violations(*data, old(registry)@, *id)),
        final(registry)@ == registry_after(*data, old(registry)@, *id),
{
    match data {
        Data::Test(t) => check_test(t),
        Data::Book(b) => check_book(b, id, registry),
        Data::Doc(d) => check_doc(d),
    }
}

pub open spec fn url_prefix() -> Seq<char> {
    "https://byrdocs.org/files/"@
}

/// `https://byrdocs.org/files/`, 32 hexadecimal digits, then `.pdf` or `.zip`.
pub open spec fn url_well_formed(u: Seq<char>) -> bool {
    let p = url_prefix().len() as int;
    u.len() == p + 36 && starts_with(u, url_prefix()) && all_hex_digits(u.subrange(p as int, p + 32int)) && (ends_with(u, ".pdf"@) || ends_with(u, ".zip"@))
}

/// The object key that a url names: its last 36 characters (id and extension).
pub open spec fn url_object_key(u: Seq<char>) -> Option<Seq<char>> {
    if u.len() >= 36 {
        Some(u.subrange(u.len() - 36, u.len() as int))
    } else {
        None
    }
}

pub open spec fn uploaded(keys: Seq<String>, url: Seq<char>) -> bool {
    match url_object_key(url) {
        Some(k) => names_contain(keys, k),
        None => false,
    }
}

/// Every rule broken by a metadata file named `file_name`: the payload's own
/// rules, then the consistency of url, id, file name, object store and the
/// stored content (`content_ok` is whether its hash matched, or was not due).
pub open spec fn record_violations(m: MetaData, file_name: Seq<char>, keys: Seq<String>, content_ok: bool, reg: Seq<(Seq<char>, String)>) -> Seq<Violation> {
    data_violations(m.data, reg, m.id)
        + flag(!uploaded(keys, m.url@), Violation::NotUploaded)
        + flag(!url_well_formed(m.url@), Violation::Url)
        + flag(!contains_text(m.url@, m.id@), Violation::UrlId)
        + flag(file_name != m.id@ + ".yml"@, Violation::FileName)
        + flag(!content_ok, Violation::ContentHash)
}

/// Whether `url` has the form that [`url_well_formed`] describes.
pub fn url_ok(url: &str) -> (r: bool)
    ensures
        r == url_well_formed(url@),
{
    let prefix = "https://byrdocs.org/files/";
    let p = prefix.unicode_len();
    let n = url.unicode_len();
    if n < 36 || n - 36 != p || !has_prefix(url, prefix) {
        return false;
    }
    only_hex_digits(url.substring_char(p, p + 32)) && (has_suffix(url, ".pdf") || has_suffix(url, ".zip"))
}

/// Whether the object that `url` names is among `keys`.
pub fn is_uploaded(keys: &Vec<String>, url: &str) -> (r: bool)
    ensures
        r == uploaded(keys@, url@),
{
    let n = url.unicode_len();
    if n < 36 {
        return false;
    }
    list_has(keys, url.substring_char(n - 36, n))
}

/// Checks a whole metadata file: its payload, then that its url, id, file
/// name, stored object and content agree. Reports every broken rule.
pub fn check_record(meta: &MetaData, file_name: &str, keys: &Vec<String>, content_ok: bool, registry: &mut IsbnRegistry) -> (r: Result<(), Vec<Violation>>)
    ensures
        verdict(r, record_violations(*meta, file_name@, keys@, content_ok, old(registry)@)),
        final(registry)@ == registry_after(meta.data, old(registry)@, meta.id),
{
    let mut errors = match check(&meta.data, &meta.id, registry) {
        Ok(()) => Vec::new(),
        Err(e) => e,
    };
    if !is_uploaded(keys, meta.url.as_str()) {
        errors.push(Violation::NotUploaded);
    }
    if !url_ok(meta.url.as_str()) {
        errors.push(Violation::Url);
    }
    if !has_substring(meta.url.as_str(), meta.id.as_str()) {
        errors.push(Violation::UrlId);
    }
    let expected = meta.id.clone().concat(".yml");
    if !same_text(file_name, expected.as_str()) {
        errors.push(Violation::FileName);
    }
    if !content_ok {
        errors.push(Violation::ContentHash);
    }
    assert(errors@ =~= record_violations(*meta, file_name@, keys@, content_ok, old(registry)@));
    finish(errors)
}

/// The rules that need neither the object store nor the backend: the
/// payload's own, the url's form, the id in the url, and the file name.
pub open spec fn local_violations(m: MetaData, file_name: Seq<char>, reg: Seq<(Seq<char>, String)>) -> Seq<Violation> {
    data_violations(m.data, reg, m.id)
        + flag(!url_well_formed(m.url@), Violation::Url)
        + flag(!contains_text(m.url@, m.id@), Violation::UrlId)
        + flag(file_name != m.id@ + ".yml"@, Violation::FileName)
}

/// Checks a metadata file named `file_name` without the object store:
/// its payload, its url and its name. Reports every broken rule.
pub fn check_local(meta: &MetaData, file_name: &str, registry: &mut IsbnRegistry) -> (r: Result<(), Vec<Violation>>)
    ensures
        verdict(r, local_violations(*meta, file_name@, old(registry)@)),
        final(registry)@ == registry_after(meta.data, old(registry)@, meta.id),
{
    let mut errors = match check(&meta.data, &meta.id, registry) {
        Ok(()) => Vec::new(),
        Err(e) => e,
    };
    if !url_ok(meta.url.as_str()) {
        errors.push(Violation::Url);
    }
    if !has_substring(meta.url.as_str(), meta.id.as_str()) {
        errors.push(Violation::UrlId);
    }
    let expected = meta.id.clone().concat(".yml");
    if !same_text(file_name, expected.as_str()) {
        errors.push(Violation::FileName);
    }
    assert(errors@ =~= local_violations(*meta, file_name@, old(registry)@));
    finish(errors)
}

/// Success counts of a validation pass.
#[derive(Clone, Copy, Debug, PartialEq, Eq, Structural)]
pub struct Tally {
    pub total: u64,
    pub books: u64,
    pub tests: u64,
    pub docs: u64,
}

impl Tally {
    /// No file seen yet.
    pub fn new() -> (r: Tally)
        ensures
            r == (Tally { total: 0, books: 0, tests: 0, docs: 0 }),
    {
        Tally { total: 0, books: 0, tests: 0, docs: 0 }
    }

    /// Counts one more file: `Some(kind)` where it passed, `None` where it failed.
    pub fn record(&mut self, passed: Option<Type>)
        requires
            old(self).total < u64::MAX,
            old(self).books <= old(self).total,
            old(self).tests <= old(self).total,
            old(self).docs <= old(self).total,
        ensures
            final(self).total == old(self).total + 1,
            final(self).books == old(self).books + (if passed == Some(Type::Book) { 1int } else { 0int }),
            final(self).tests == old(self).tests + (if passed == Some(Type::Test) { 1int } else { 0int }),
            final(self).docs == old(self).docs + (if passed == Some(Type::Doc) { 1int } else { 0int }),
    {
        self.total = self.total + 1;
        match passed {
            Some(Type::Book) => self.books = self.books + 1,
            Some(Type::Test) => self.tests = self.tests + 1,
            Some(Type::Doc) => self.docs = self.docs + 1,
            None => {},
        }
    }

    /// Number of files that passed.
    pub fn passed(&self) -> (r: u64)
        requires
            self.books + self.tests + self.docs <= u64::MAX,
        ensures
            r == self.books + self.tests + self.docs,
    {
        self.books + self.tests + self.docs
    }

    /// Number of files that failed.
    pub fn failed(&self) -> (r: u64)
        requires
            self.books + self.tests + self.docs <= self.total,
        ensures
            r == self.total - (self.books + self.tests + self.docs),
    {
        self.total - (self.books + self.tests + self.docs)
    }

    /// The pass succeeds only where every file passed.
    pub fn all_passed(&self) -> (r: bool)
        ensures
            r == (self.total == self.books + self.tests + self.docs),
    {
        self.total as u128 == self.books as u128 + self.tests as u128 + self.docs as u128
    }
}

proof fn lemma_duplicate_reported(isbns: Seq<String>, reg: Seq<(Seq<char>, String)>, id: String, n: int, i: int, owner: String)
    requires
        0 <= i < n,
        duplicate_owner(isbns, reg, id, i) == Some(owner),
    ensures
        isbn_duplicate_violations(isbns, reg, id, n).contains(Violation::DuplicateIsbn(i as usize, owner)),
    decreases n,
{
    let prev = isbn_duplicate_violations(isbns, reg, id, n - 1);
    let all = isbn_duplicate_violations(isbns, reg, id, n);
    if i < n - 1 {
        lemma_duplicate_reported(isbns, reg, id, n - 1, i, owner);
        let k = choose|k: int| 0 <= k < prev.len() && prev[k] == Violation::DuplicateIsbn(i as usize, owner);
        assert(all[k] == prev[k]);
    } else {
        assert(all[prev.len() as int] == Violation::DuplicateIsbn(i as usize, owner));
    }
}

/// Registering an ISBN that the registry already holds fails: a book that
/// lists it is rejected with a duplicate-ISBN violation naming the owner, and
/// the registry is left as it was, so the ISBN is not registered twice.
pub proof fn lemma_registered_isbn_rejected(b: Book, reg: Seq<(Seq<char>, String)>, id: String, i: int, owner: String)
    requires
        0 <= i < b.isbn@.len(),
        isbn13_text_valid(b.isbn@[i]@),
        registry_owner(reg, isbn_digits(b.isbn@[i]@)) == Some(owner),
    ensures
        book_violations(b, reg, id).contains(Violation::DuplicateIsbn(i as usize, owner)),
        registry_after_book(b, reg, id) == reg,
{
    let n = b.isbn@.len() as int;
    lemma_duplicate_reported(b.isbn@, reg, id, n, i, owner);
    let a = flag(b.authors@.len() == 0, Violation::NoAuthor) + flag(year_bad(b.publish_year), Violation::PublishYear) + isbn_format_violations(b.isbn@, n);
    let d = isbn_duplicate_violations(b.isbn@, reg, id, n);
    let e = flag(b.filetype@ != "pdf"@, Violation::BookFileType);
    let k = choose|k: int| 0 <= k < d.len() && d[k] == Violation::DuplicateIsbn(i as usize, owner);
    assert(book_violations(b, reg, id) == a + d + e);
    assert((a + d + e)[a.len() + k] == d[k]);
}

/// How a file in the metadata directory is named.
#[derive(Clone, Copy, Debug, PartialEq, Eq, Structural)]
pub enum FileNameKind {
    /// `*.yml`: a metadata file to check.
    Metadata,
    /// `*.yaml`: must be renamed to `.yml`.
    YamlSuffix,
    /// Any other name.
    OtherSuffix,
}

pub open spec fn file_name_kind_spec(name: Seq<char>) -> FileNameKind {
    if ends_with(name, ".yml"@) {
        FileNameKind::Metadata
    } else if ends_with(name, ".yaml"@) {
        FileNameKind::YamlSuffix
    } else {
        FileNameKind::OtherSuffix
    }
}

/// Classifies a file of the metadata directory by its name.
pub fn file_name_kind(name: &str) -> (r: FileNameKind)
    ensures
        r == file_name_kind_spec(name@),
{
    if has_suffix(name, ".yml") {
        FileNameKind::Metadata
    } else if has_suffix(name, ".yaml") {
        FileNameKind::YamlSuffix
    } else {
        FileNameKind::OtherSuffix
    }
}

} // verus!
