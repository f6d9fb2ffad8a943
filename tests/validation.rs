use byrdocs_check::isbn13::IsbnRegistry;
use byrdocs_check::metadata::{Book, Course, Data, Doc, MetaData, Test, Time, Type};
use byrdocs_check::validate::{
    check, check_book, check_doc, check_record, check_test, is_uploaded, url_ok, Tally, Violation,
};

const ID_A: &str = "0123456789abcdef0123456789abcdef";
const ID_B: &str = "fedcba9876543210fedcba9876543210";
const ID_C: &str = "00000000000000000000000000000000";

fn exam(start: &str, end: &str, stage: Option<&str>) -> Test {
    Test {
        title: "final exam".to_string(),
        college: Some(vec!["cs".to_string()]),
        course: Course { type_: Some("本科".to_string()), name: Some("math".to_string()) },
        time: Time {
            start: start.to_string(),
            end: end.to_string(),
            semester: Some("First".to_string()),
            stage: stage.map(|s| s.to_string()),
        },
        filetype: "pdf".to_string(),
        content: vec!["原题".to_string(), "答案".to_string()],
        filesize: None,
    }
}

fn book(isbns: &[&str]) -> Book {
    Book {
        title: "a book".to_string(),
        authors: vec!["author".to_string()],
        translators: vec![],
        edition: None,
        publisher: "press".to_string(),
        publish_year: Some("2013".to_string()),
        isbn: isbns.iter().map(|s| s.to_string()).collect(),
        filetype: "pdf".to_string(),
        filesize: None,
    }
}

fn doc() -> Doc {
    Doc {
        title: "notes".to_string(),
        filetype: "zip".to_string(),
        course: vec![Course { type_: Some("研究生".to_string()), name: None }],
        content: vec!["课件".to_string(), "知识点".to_string()],
        filesize: None,
    }
}

#[test]
fn time_range_same_year_passes() {
    assert_eq!(check_test(&exam("2021", "2021", Some("期末"))), Ok(()));
    assert_eq!(check_test(&exam("2021", "2022", Some("期中"))), Ok(()));
}

#[test]
fn time_range_two_years_fails() {
    assert_eq!(check_test(&exam("2021", "2023", None)), Err(vec![Violation::TimeOrder]));
}

#[test]
fn time_range_malformed_fails() {
    assert_eq!(check_test(&exam("2021", "abc", None)), Err(vec![Violation::TimeFormat]));
    assert_eq!(check_test(&exam("", "2021", None)), Err(vec![Violation::TimeFormat]));
}

#[test]
fn exam_reports_every_violation_in_order() {
    let mut t = exam("2021", "2021", Some("期终"));
    t.course.type_ = Some("博士".to_string());
    t.time.semester = Some("third".to_string());
    t.content = vec!["原题".to_string(), "笔记".to_string(), "课件".to_string()];
    t.college = Some(vec!["".to_string()]);
    t.filetype = "doc".to_string();
    assert_eq!(
        check_test(&t),
        Err(vec![
            Violation::CourseLevel,
            Violation::Stage,
            Violation::Semester,
            Violation::TestTag,
            Violation::TestTag,
            Violation::EmptyCollege,
            Violation::FileType,
        ])
    );
    t.content = vec![];
    t.filetype = "zip".to_string();
    t.college = None;
    t.course.type_ = None;
    t.time.stage = None;
    t.time.semester = None;
    assert_eq!(check_test(&t), Err(vec![Violation::EmptyContent]));
}

#[test]
fn doc_rules() {
    assert_eq!(check_doc(&doc()), Ok(()));
    let mut d = doc();
    d.course = vec![];
    d.content = vec![];
    d.filetype = "rar".to_string();
    assert_eq!(
        check_doc(&d),
        Err(vec![Violation::EmptyCourse, Violation::EmptyContent, Violation::FileType])
    );
    let mut d = doc();
    d.course.push(Course { type_: Some("高中".to_string()), name: None });
    d.content.push("原题".to_string());
    assert_eq!(check_doc(&d), Err(vec![Violation::CourseLevel, Violation::DocTag]));
}

#[test]
fn book_rules() {
    let mut reg = IsbnRegistry::new();
    let mut b = book(&["9787111407721", "x"]);
    b.authors.clear();
    b.publish_year = Some("13".to_string());
    b.filetype = "zip".to_string();
    assert_eq!(
        check_book(&b, &ID_A.to_string(), &mut reg),
        Err(vec![
            Violation::NoAuthor,
            Violation::PublishYear,
            Violation::IsbnFormat(0),
            Violation::IsbnFormat(1),
            Violation::BookFileType,
        ])
    );
    assert_eq!(reg.len(), 0);
}

#[test]
fn duplicate_isbn_is_rejected_and_not_registered_twice() {
    let mut reg = IsbnRegistry::new();
    assert_eq!(check_book(&book(&["978-7-111-40772-0"]), &ID_A.to_string(), &mut reg), Ok(()));
    assert_eq!(reg.len(), 1);
    let again = check_book(&book(&["9787111407720"]), &ID_B.to_string(), &mut reg);
    assert_eq!(again, Err(vec![Violation::DuplicateIsbn(0, ID_A.to_string())]));
    assert_eq!(reg.len(), 1);
    assert_eq!(reg.owner_of("9787111407720"), Some(ID_A.to_string()));
}

#[test]
fn isbn_listed_twice_in_one_book() {
    let mut reg = IsbnRegistry::new();
    let r = check_book(&book(&["9787111407720", "978-7-111-40772-0"]), &ID_A.to_string(), &mut reg);
    assert_eq!(r, Err(vec![Violation::DuplicateIsbn(1, ID_A.to_string())]));
    assert_eq!(reg.len(), 0);
}

#[test]
fn corpus_with_duplicate_and_bad_stage() {
    let mut reg = IsbnRegistry::new();
    let mut tally = Tally::new();
    let corpus = vec![
        (ID_A, Data::Book(book(&["9787111407720"]))),
        (ID_B, Data::Book(book(&["978-7-111-40772-0"]))),
        (ID_C, Data::Test(exam("2021", "2021", Some("期终")))),
    ];
    let mut messages = Vec::new();
    for (id, data) in &corpus {
        match check(data, &id.to_string(), &mut reg) {
            Ok(()) => tally.record(Some(data.kind())),
            Err(vs) => {
                tally.record(None);
                messages.push(vs.iter().map(|v| v.message()).collect::<Vec<_>>().join("; "));
            }
        }
    }
    assert_eq!(tally.passed(), 1);
    assert_eq!(tally.failed(), 2);
    assert_eq!(tally.books, 1);
    assert!(!tally.all_passed());
    assert!(messages[0].contains("duplicate ISBN"));
    assert!(messages[0].contains(ID_A));
    assert!(messages[1].contains("invalid stage"));
}

#[test]
fn url_form() {
    assert!(url_ok(&format!("https://byrdocs.org/files/{}.pdf", ID_A)));
    assert!(url_ok(&format!("https://byrdocs.org/files/{}.zip", ID_A.to_uppercase())));
    assert!(!url_ok(&format!("https://byrdocs.org/files/{}.rar", ID_A)));
    assert!(!url_ok(&format!("http://byrdocs.org/files/{}.pdf", ID_A)));
    assert!(!url_ok(&format!("https://byrdocs.org/files/{}g.pdf", &ID_A[..31])));
    assert!(!url_ok(&format!("https://byrdocs.org/files/{}0.pdf", ID_A)));
}

#[test]
fn record_consistency() {
    let meta = MetaData {
        id: ID_C.to_string(),
        url: format!("https://byrdocs.org/files/{}.pdf", ID_C),
        type_: Type::Test,
        data: Data::Test(exam("2021", "2021", Some("期中"))),
    };
    let keys = vec![format!("{}.pdf", ID_C), format!("{}.jpg", ID_C)];
    assert!(is_uploaded(&keys, &meta.url));
    let mut reg = IsbnRegistry::new();
    let name = format!("{}.yml", ID_C);
    assert_eq!(check_record(&meta, &name, &keys, true, &mut reg), Ok(()));
    let mut other = meta.clone();
    other.url = format!("https://byrdocs.org/files/{}.pdf", ID_A);
    assert_eq!(
        check_record(&other, "wrong.yml", &vec![], false, &mut reg),
        Err(vec![Violation::NotUploaded, Violation::UrlId, Violation::FileName, Violation::ContentHash])
    );
    other.url = "short".to_string();
    assert_eq!(
        check_record(&other, &name, &keys, true, &mut reg),
        Err(vec![Violation::NotUploaded, Violation::Url, Violation::UrlId])
    );
}

#[test]
fn kind_tags() {
    assert_eq!(Type::from_tag("test"), Some(Type::Test));
    assert_eq!(Type::from_tag("book"), Some(Type::Book));
    assert_eq!(Type::from_tag("doc"), Some(Type::Doc));
    assert_eq!(Type::from_tag("Book"), None);
    let m = MetaData::from_parts(ID_A.to_string(), "u".to_string(), "doc", Data::Doc(doc()));
    assert_eq!(m.map(|m| m.type_), Some(Type::Doc));
    assert!(MetaData::from_parts(ID_A.to_string(), "u".to_string(), "test", Data::Doc(doc())).is_none());
}

#[test]
fn violation_messages() {
    assert_eq!(Violation::Stage.message(), "invalid stage: must be 期中 or 期末");
    assert_eq!(
        Violation::DuplicateIsbn(0, ID_A.to_string()).message(),
        format!("duplicate ISBN, already used by {}", ID_A)
    );
}
