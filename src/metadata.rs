//! The document record: a tagged union over the three document kinds, and
//! the fixed vocabularies that its fields are checked against.

use vstd::prelude::*;
use crate::text::same_text;

verus! {

/// The discriminator of a record, written `test`, `book` or `doc`.
#[derive(Clone, Copy, Debug, PartialEq, Eq, Structural)]
pub enum Type {
    Test,
    Book,
    Doc,
}

/// A course: its level (`本科` undergraduate, `研究生` graduate) and name.
#[derive(Clone, Debug, PartialEq, Eq)]
pub struct Course {
    pub type_: Option<String>,
    pub name: Option<String>,
}

/// The time range of an exam paper. `start` and `end` are years written as
/// decimal text; `semester` is `First` or `Second`; `stage` is `期中`
/// (midterm) or `期末` (final).
#[derive(Clone, Debug, PartialEq, Eq)]
pub struct Time {
    pub start: String,
    pub end: String,
    pub semester: Option<String>,
    pub stage: Option<String>,
}

/// Payload of an exam paper.
#[derive(Clone, Debug, PartialEq, Eq)]
pub struct Test {
    pub title: String,
    pub college: Option<Vec<String>>,
    pub course: Course,
    pub time: Time,
    pub filetype: String,
    pub content: Vec<String>,
    pub filesize: Option<u64>,
}

/// Payload of a book.
#[derive(Clone, Debug, PartialEq, Eq)]
pub struct Book {
    pub title: String,
    pub authors: Vec<String>,
    pub translators: Vec<String>,
    pub edition: Option<String>,
    pub publisher: String,
    pub publish_year: Option<String>,
    pub isbn: Vec<String>,
    pub filetype: String,
    pub filesize: Option<u64>,
}

/// Payload of any other document.
#[derive(Clone, Debug, PartialEq, Eq)]
pub struct Doc {
    pub title: String,
    pub filetype: String,
    pub course: Vec<Course>,
    pub content: Vec<String>,
    pub filesize: Option<u64>,
}

/// The variant payload of a record.
#[derive(Clone, Debug, PartialEq, Eq)]
pub enum Data {
    Test(Test),
    Book(Book),
    Doc(Doc),
}

/// One metadata file: the content-hash id, the download url, the declared
/// kind and the payload.
#[derive(Clone, Debug, PartialEq, Eq)]
pub struct MetaData {
    pub id: String,
    pub url: String,
    pub type_: Type,
    pub data: Data,
}

pub open spec fn type_of_tag(tag: Seq<char>) -> Option<Type> {
    if tag == "test"@ {
        Some(Type::Test)
    } else if tag == "book"@ {
        Some(Type::Book)
    } else if tag == "doc"@ {
        Some(Type::Doc)
    } else {
        None
    }
}

pub open spec fn kind_of(d: Data) -> Type {
    match d {
        Data::Test(_) => Type::Test,
        Data::Book(_) => Type::Book,
        Data::Doc(_) => Type::Doc,
    }
}

impl Type {
    /// Reads the discriminator of a metadata file; any other tag is unknown.
    pub fn from_tag(tag: &str) -> (r: Option<Type>)
        ensures
            r == type_of_tag(tag@),
    {
        if same_text(tag, "test") {
            Some(Type::Test)
        } else if same_text(tag, "book") {
            Some(Type::Book)
        } else if same_text(tag, "doc") {
            Some(Type::Doc)
        } else {
            None
        }
    }
}

impl Data {
    /// The kind of document that the payload describes.
    pub fn kind(&self) -> (r: Type)
        ensures
            r == kind_of(*self),
    {
        match self {
            Data::Test(_) => Type::Test,
            Data::Book(_) => Type::Book,
            Data::Doc(_) => Type::Doc,
        }
    }
}

impl MetaData {
    /// Builds a record from a discriminator tag and a payload that was decoded
    /// for it; `None` where the tag is unknown or names another kind.
    pub fn from_parts(id: String, url: String, tag: &str, data: Data) -> (r: Option<MetaData>)
        ensures
            r.is_some() <==> type_of_tag(tag@) == Some(kind_of(data)),
            r matches Some(m) ==> m.id == id && m.url == url && m.data == data && m.type_ == kind_of(data),
    {
        match Type::from_tag(tag) {
            Some(t) => {
                if t == data.kind() {
                    Some(MetaData { id, url, type_: t, data })
                } else {
                    None
                }
            },
            None => None,
        }
    }
}

pub open spec fn is_course_level(s: Seq<char>) -> bool {
    s == "本科"@ || s == "研究生"@
}

pub open spec fn is_stage(s: Seq<char>) -> bool {
    s == "期中"@ || s == "期末"@
}

pub open spec fn is_semester(s: Seq<char>) -> bool {
    s == "First"@ || s == "Second"@
}

/// Content tags of an exam paper: `原题` (original questions), `答案` (answers).
pub open spec fn is_test_tag(s: Seq<char>) -> bool {
    s == "原题"@ || s == "答案"@
}

/// Content tags of a document: `思维导图` (mind map), `题库` (question bank),
/// `答案` (answers), `知识点` (key points), `课件` (slides).
pub open spec fn is_doc_tag(s: Seq<char>) -> bool {
    s == "思维导图"@ || s == "题库"@ || s == "答案"@ || s == "知识点"@ || s == "课件"@
}

pub open spec fn is_pdf_or_zip(s: Seq<char>) -> bool {
    s == "pdf"@ || s == "zip"@
}

pub fn course_level_ok(s: &str) -> (r: bool)
    ensures
        r == is_course_level(s@),
{
    same_text(s, "本科") || same_text(s, "研究生")
}

pub fn stage_ok(s: &str) -> (r: bool)
    ensures
        r == is_stage(s@),
{
    same_text(s, "期中") || same_text(s, "期末")
}

pub fn semester_ok(s: &str) -> (r: bool)
    ensures
        r == is_semester(s@),
{
    same_text(s, "First") || same_text(s, "Second")
}

pub fn test_tag_ok(s: &str) -> (r: bool)
    ensures
        r == is_test_tag(s@),
{
    same_text(s, "原题") || same_text(s, "答案")
}

pub fn doc_tag_ok(s: &str) -> (r: bool)
    ensures
        r == is_doc_tag(s@),
{
    same_text(s, "思维导图") || same_text(s, "题库") || same_text(s, "答案") || same_text(s, "知识点")
        || same_text(s, "课件")
}

pub fn pdf_or_zip(s: &str) -> (r: bool)
    ensures
        r == is_pdf_or_zip(s@),
{
    same_text(s, "pdf") || same_text(s, "zip")
}

} // verus!
