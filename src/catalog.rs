//! The catalog entry of a validated record: the stored object's size, and
//! for a book every ISBN in its canonical hyphenated form.

use vstd::prelude::*;
use vstd::string::*;
use crate::isbn13::{hyphenate_isbn13, isbn13_hyphenation, isbn13_in_range_table, isbn13_text_valid, isbn_digits, strip_hyphens};
use crate::metadata::{Book, Data, MetaData};
use crate::text::same_text;

verus! {

/// One object of the store: its key and, where the listing gave it, its size.
#[derive(Clone, Debug, PartialEq, Eq)]
pub struct ObjectRecord {
    pub key: String,
    pub size: Option<u64>,
}

/// The object holds document `id`'s file: its key is `<id>.pdf` or `<id>.zip`.
pub open spec fn holds_document(id: Seq<char>, o: ObjectRecord) -> bool {
    o.key@ == id + ".pdf"@ || o.key@ == id + ".zip"@
}

/// The size of the first object from position `i` on that holds document `id`.
pub open spec fn size_from(id: Seq<char>, objects: Seq<ObjectRecord>, i: int) -> Option<u64>
    decreases objects.len() - i,
{
    if i < 0 || i >= objects.len() {
        None
    } else if holds_document(id, objects[i]) {
        objects[i].size
    } else {
        size_from(id, objects, i + 1)
    }
}

/// The stored size of document `id`'s file.
pub open spec fn document_size(id: Seq<char>, objects: Seq<ObjectRecord>) -> Option<u64> {
    size_from(id, objects, 0)
}

/// Looks up the stored size of document `id`'s file.
pub fn file_size(id: &str, objects: &Vec<ObjectRecord>) -> (r: Option<u64>)
    ensures
        r == document_size(id@, objects@),
{
    let base = String::from_str(id);
    let pdf = base.clone().concat(".pdf");
    let zip = base.concat(".zip");
    let mut i: usize = 0;
    while i < objects.len()
        invariant
            0 <= i <= objects@.len(),
            pdf@ == id@ + ".pdf"@,
            zip@ == id@ + ".zip"@,
            size_from(id@, objects@, 0) == size_from(id@, objects@, i as int),
        decreases objects.len() - i,
    {
        let key = objects[i].key.as_str();
        if same_text(key, pdf.as_str()) || same_text(key, zip.as_str()) {
            return objects[i].size;
        }
        i += 1;
    }
    None
}

/// The hyphenated form that the catalog gives ISBN text `s`.
pub open spec fn catalog_isbn(s: Seq<char>) -> Seq<char> {
    isbn13_hyphenation(isbn_digits(s))
}

/// An ISBN text that the catalog can hyphenate: a valid ISBN-13 whose
/// digits the range table covers.
pub open spec fn hyphenable(s: Seq<char>) -> bool {
    isbn13_text_valid(s) && isbn13_in_range_table(isbn_digits(s))
}

/// Hyphenates every ISBN of a list; `Err(i)` names the first that could not be.
pub fn hyphenate_all(isbns: &Vec<String>) -> (r: Result<Vec<String>, usize>)
    ensures
        r matches Ok(v) ==> v@.len() == isbns@.len() && forall|i: int| 0 <= i < v@.len() ==> (#[trigger] v@[i])@ == catalog_isbn(isbns@[i]@) && strip_hyphens(v@[i]@) == isbn_digits(isbns@[i]@),
        r matches Err(i) ==> i < isbns@.len() && !hyphenable(isbns@[i as int]@) && forall|k: int| 0 <= k < i ==> hyphenable(#[trigger] isbns@[k]@),
        (forall|i: int| 0 <= i < isbns@.len() ==> hyphenable(#[trigger] isbns@[i]@)) ==> r is Ok,
        (exists|i: int| 0 <= i < isbns@.len() && !isbn13_text_valid(#[trigger] isbns@[i]@)) ==> r is Err,
{
    let mut out: Vec<String> = Vec::new();
    let mut i: usize = 0;
    while i < isbns.len()
        invariant
            0 <= i <= isbns@.len(),
            out@.len() == i,
            forall|k: int| 0 <= k < i ==> hyphenable(#[trigger] isbns@[k]@),
            forall|k: int| 0 <= k < i ==> (#[trigger] out@[k])@ == catalog_isbn(isbns@[k]@) && strip_hyphens(out@[k]@) == isbn_digits(isbns@[k]@),
        decreases isbns.len() - i,
    {
        match hyphenate_isbn13(isbns[i].as_str()) {
            Some(h) => {
                out.push(h);
            },
            None => {
                return Err(i);
            },
        }
        i += 1;
    }
    Ok(out)
}

pub open spec fn is_book(d: Data) -> bool {
    d is Book
}

/// The ISBN list of a book payload; empty for the other kinds.
pub open spec fn book_isbns(d: Data) -> Seq<String> {
    match d {
        Data::Book(b) => b.isbn@,
        _ => Seq::empty(),
    }
}

/// `new` is `old` with file size `size`; a book may also have a new ISBN list.
pub open spec fn entry_of(old: Data, size: Option<u64>, new: Data) -> bool {
    match old {
        Data::Test(t) => new == Data::Test(crate::metadata::Test { filesize: size, ..t }),
        Data::Doc(d) => new == Data::Doc(crate::metadata::Doc { filesize: size, ..d }),
        Data::Book(b) => match new {
            Data::Book(nb) => nb == (Book { filesize: size, isbn: nb.isbn, ..b }),
            _ => false,
        },
    }
}

/// Turns a validated record into its catalog entry: fills in the stored size
/// of its file and, for a book, replaces each ISBN with its hyphenated form.
/// A book with an ISBN that cannot be hyphenated is left unchanged, and the
/// position of that ISBN is returned.
pub fn catalog_entry(meta: &mut MetaData, objects: &Vec<ObjectRecord>) -> (r: Result<(), usize>)
    ensures
        final(meta).id == old(meta).id,
        final(meta).url == old(meta).url,
        final(meta).type_ == old(meta).type_,
        r is Ok ==> entry_of(old(meta).data, document_size(old(meta).id@, objects@), final(meta).data),
        r is Ok && is_book(old(meta).data) ==> is_book(final(meta).data) && book_isbns(final(meta).data).len() == book_isbns(old(meta).data).len(),
        r is Ok ==> forall|i: int| 0 <= i < book_isbns(old(meta).data).len() ==> (#[trigger] book_isbns(final(meta).data)[i])@ == catalog_isbn(book_isbns(old(meta).data)[i]@),
        r is Ok ==> forall|i: int| 0 <= i < book_isbns(old(meta).data).len() ==> strip_hyphens((#[trigger] book_isbns(final(meta).data)[i])@) == isbn_digits(book_isbns(old(meta).data)[i]@),
        (forall|i: int| 0 <= i < book_isbns(old(meta).data).len() ==> hyphenable(#[trigger] book_isbns(old(meta).data)[i]@)) ==> r is Ok,
        r matches Err(i) ==> *final(meta) == *old(meta) && is_book(old(meta).data) && i < book_isbns(old(meta).data).len() && !hyphenable(book_isbns(old(meta).data)[i as int]@),
        (exists|i: int| 0 <= i < book_isbns(old(meta).data).len() && !isbn13_text_valid(#[trigger] book_isbns(old(meta).data)[i]@)) ==> r is Err,
{
    let size = file_size(meta.id.as_str(), objects);
    match &mut meta.data {
        Data::Test(t) => {
            t.filesize = size;
            assert(entry_of(old(meta).data, size, meta.data));
            Ok(())
        },
        Data::Doc(d) => {
            d.filesize = size;
            assert(entry_of(old(meta).data, size, meta.data));
            Ok(())
        },
        Data::Book(b) => {
            match hyphenate_all(&b.isbn) {
                Ok(v) => {
                    b.filesize = size;
                    b.isbn = v;
                    assert(entry_of(old(meta).data, size, meta.data));
                    Ok(())
                },
                Err(i) => {
                    assert(!hyphenable(book_isbns(old(meta).data)[i as int]@));
                    Err(i)
                },
            }
        },
    }
}

/// What the hyphenation promises of an ISBN-13 text `s` with hyphenated form
/// `h`: removing the hyphens from `h` gives back the 13 digits of `s`.
pub open spec fn hyphenated_form(s: Seq<char>, h: Seq<char>) -> bool {
    isbn13_text_valid(s) && h == isbn13_hyphenation(isbn_digits(s)) && strip_hyphens(h) == isbn_digits(s)
}

/// Round trip: de-hyphenating the catalog form of an ISBN-13 reproduces its
/// 13-digit canonical string, so hyphenation loses no digit.
pub proof fn lemma_isbn_round_trip(s: Seq<char>, h: Seq<char>)
    requires
        hyphenated_form(s, h),
    ensures
        strip_hyphens(h) == isbn_digits(s),
        strip_hyphens(h).len() == 13,
        strip_hyphens(catalog_isbn(s)) == isbn_digits(s),
{
}

} // verus!
