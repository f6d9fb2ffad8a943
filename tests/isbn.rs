use byrdocs_check::catalog::{catalog_entry, hyphenate_all, ObjectRecord};
use byrdocs_check::isbn13::{dehyphenate, hyphenate_isbn13, parse_isbn13, IsbnProblem, IsbnRegistry};
use byrdocs_check::metadata::{Book, Data, MetaData, Type};

#[test]
fn test_isbn() {
    let isbn = "978-7-111-40772-1";
    assert_eq!(parse_isbn13(isbn), Err(IsbnProblem::InvalidDigit));
    let isbn = "978-7-111-40772-0";
    assert_eq!(parse_isbn13(isbn), Ok("9787111407720".to_string()));
    let isbn = "9787111407720";
    assert_eq!(parse_isbn13(isbn), Ok("9787111407720".to_string()));
    assert_eq!(
        "978-7-111-40772-0",
        hyphenate_isbn13(isbn).unwrap().as_str()
    );
}

#[test]
fn main_test_isbn() {
    let isbn = "978-7-111-40772-1";
    assert_eq!(parse_isbn13(isbn), Err(IsbnProblem::InvalidDigit));
    let isbn = "978-7-111-40772-0";
    assert_eq!(parse_isbn13(isbn), Ok("9787111407720".to_string()));
}

#[test]
fn checksum_failure_and_round_trip() {
    assert_eq!(parse_isbn13("9787111407721"), Err(IsbnProblem::InvalidDigit));
    let digits = parse_isbn13("9787111407720").unwrap();
    let hyphenated = hyphenate_isbn13("9787111407720").unwrap();
    assert_eq!(hyphenated, "978-7-111-40772-0");
    assert_eq!(dehyphenate(&hyphenated), digits);
    assert_eq!(dehyphenate(&hyphenated), "9787111407720");
}

#[test]
fn isbn_length_and_characters() {
    assert_eq!(parse_isbn13("978711140772"), Err(IsbnProblem::InvalidLength));
    assert_eq!(parse_isbn13("97871114077200"), Err(IsbnProblem::InvalidLength));
    assert_eq!(parse_isbn13(""), Err(IsbnProblem::InvalidLength));
    assert!(parse_isbn13("978-7-111-4077a-0").is_err());
    assert_eq!(parse_isbn13("978 7 111 40772 0"), Ok("9787111407720".to_string()));
    assert_eq!(hyphenate_isbn13("978-7-111-40772-1"), None);
}

#[test]
fn hyphenation_of_another_group() {
    assert_eq!(hyphenate_isbn13("9781492067665").unwrap(), "978-1-4920-6766-5");
}

#[test]
fn registry_refuses_second_owner() {
    let mut reg = IsbnRegistry::new();
    assert_eq!(reg.register("9787111407720", "a".repeat(32)), Ok(()));
    assert_eq!(reg.len(), 1);
    assert_eq!(reg.register("9787111407720", "b".repeat(32)), Err("a".repeat(32)));
    assert_eq!(reg.len(), 1);
    assert_eq!(reg.owner_of("9787111407720"), Some("a".repeat(32)));
    assert_eq!(reg.owner_of("9781492067665"), None);
}

fn book(isbns: &[&str]) -> Book {
    Book {
        title: "t".to_string(),
        authors: vec!["someone".to_string()],
        translators: vec![],
        edition: None,
        publisher: "p".to_string(),
        publish_year: Some("2013".to_string()),
        isbn: isbns.iter().map(|s| s.to_string()).collect(),
        filetype: "pdf".to_string(),
        filesize: None,
    }
}

#[test]
fn hyphenate_all_reports_first_failure() {
    let ok = hyphenate_all(&vec!["9787111407720".to_string(), "978-1-4920-6766-5".to_string()]);
    assert_eq!(ok, Ok(vec!["978-7-111-40772-0".to_string(), "978-1-4920-6766-5".to_string()]));
    let bad = hyphenate_all(&vec!["9787111407720".to_string(), "123".to_string()]);
    assert_eq!(bad, Err(1));
}

#[test]
fn catalog_entry_fills_size_and_hyphenates() {
    let id = "0123456789abcdef0123456789abcdef".to_string();
    let mut meta = MetaData {
        id: id.clone(),
        url: format!("https://byrdocs.org/files/{}.pdf", id),
        type_: Type::Book,
        data: Data::Book(book(&["9787111407720"])),
    };
    let objects = vec![
        ObjectRecord { key: format!("{}.jpg", id), size: Some(10) },
        ObjectRecord { key: format!("{}.pdf", id), size: Some(12345) },
    ];
    assert_eq!(catalog_entry(&mut meta, &objects), Ok(()));
    match &meta.data {
        Data::Book(b) => {
            assert_eq!(b.filesize, Some(12345));
            assert_eq!(b.isbn, vec!["978-7-111-40772-0".to_string()]);
        }
        _ => panic!("kind changed"),
    }
}

#[test]
fn catalog_entry_keeps_book_with_bad_isbn() {
    let mut meta = MetaData {
        id: "x".repeat(32),
        url: String::new(),
        type_: Type::Book,
        data: Data::Book(book(&["9787111407720", "9787111407721"])),
    };
    let before = meta.clone();
    assert_eq!(catalog_entry(&mut meta, &vec![]), Err(1));
    assert_eq!(meta, before);
}

#[test]
fn valid_isbn_outside_range_table() {
    assert!(parse_isbn13("9786700000007").is_ok());
    assert_eq!(hyphenate_isbn13("9786700000007"), None);
    let r = hyphenate_all(&vec!["9787111407720".to_string(), "9786700000007".to_string()]);
    assert_eq!(r, Err(1));
}

#[test]
fn catalog_isbn_round_trip() {
    let mut meta = MetaData {
        id: "y".repeat(32),
        url: String::new(),
        type_: Type::Book,
        data: Data::Book(book(&["9787111407720", "9781492067665"])),
    };
    assert_eq!(catalog_entry(&mut meta, &vec![]), Ok(()));
    match &meta.data {
        Data::Book(b) => {
            assert_eq!(dehyphenate(&b.isbn[0]), "9787111407720");
            assert_eq!(dehyphenate(&b.isbn[1]), "9781492067665");
        }
        _ => panic!("kind changed"),
    }
}
