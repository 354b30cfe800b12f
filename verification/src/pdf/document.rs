//! The steps of the conversion that read and write the PDF document itself:
//! loading it, walking its page tree for the entries a page inherits
//! (`/Rotate`, `/MediaBox`), reading page contents, and saving. The geometry
//! of the spread pages (computed on the page size, a floating-point
//! rectangle) is built by the caller between `open_document` and
//! `finish_document`.

use vstd::prelude::*;

use lopdf::{Dictionary, Document, Object};

use crate::pdf::SaddleStitchError;

verus! {

#[verifier::external_type_specification]
#[verifier::external_body]
pub struct ExDocument(lopdf::Document);

#[verifier::external_type_specification]
#[verifier::external_body]
pub struct ExLopdfError(lopdf::Error);

#[verifier::external_type_specification]
#[verifier::external_body]
pub struct ExIoError(std::io::Error);

/// The identifier of a PDF object: object number and generation.
pub type ObjectId = (u32, u16);

/// Upper bound on the decompressed content of one page, a defence against
/// decompression bombs: 100 MiB.
pub const MAX_PAGE_CONTENT_BYTES: usize = 104857600;

/// Whether `lopdf` reads these bytes as a PDF document (one that opens
/// without a password, or with the empty one).
pub uninterp spec fn pdf_parses(input: Seq<u8>) -> bool;

/// `lopdf::Document::load_mem`: parses a PDF document from bytes (decrypting
/// it when the empty password opens it). Whether it succeeds is named by the
/// bytes. The document itself is not: lopdf may parse on several threads
/// and keep whichever copy of a repeated object finishes first, and the
/// document holds a hash map with a per-map seed, so two loads of the same
/// bytes need not give equal documents.
#[verifier::external_body]
fn load_mem(input: &[u8]) -> (r: Result<Document, lopdf::Error>)
    ensures
        r is Ok <==> pdf_parses(input@),
{
    Document::load_mem(input)
}

/// The identifiers of the pages of `document` in page order, as
/// `lopdf::Document::get_pages` numbers them.
pub uninterp spec fn document_page_ids(document: Document) -> Seq<ObjectId>;

/// `lopdf::Document::get_pages`: the identifiers of the document's pages in
/// page order (the values of the page-number map), named by the document.
#[verifier::external_body]
fn page_ids(document: &Document) -> (ids: Vec<ObjectId>)
    ensures
        ids@ == document_page_ids(*document),
{
    document.get_pages().into_values().collect()
}

/// The decompressed content of page `page_id` of `document` as
/// `lopdf::Document::get_page_content_with_limit` returns it with the bound
/// `limit`: its content streams decoded and joined, or `None` when that
/// method refuses the page for exceeding the bound.
pub uninterp spec fn limited_page_content(document: Document, page_id: ObjectId, limit: usize) -> Option<
    Seq<u8>,
>;

/// `lopdf::Document::get_page_content_with_limit`: the decompressed content
/// of a page; it fails when the content would exceed `limit` bytes. The
/// outcome is named by the document, the page and the bound.
#[verifier::external_body]
fn page_content_with_limit(document: &Document, page_id: ObjectId, limit: usize) -> (r: Result<
    Vec<u8>,
    lopdf::Error,
>)
    ensures
        match r {
            Ok(content) => limited_page_content(*document, page_id, limit) == Some(content@),
            Err(_) => limited_page_content(*document, page_id, limit) is None,
        },
{
    document.get_page_content_with_limit(page_id, limit)
}

/// The document that `lopdf::Document::compress` makes of `document`: every
/// stream that allows it compressed.
pub uninterp spec fn compressed_document(document: Document) -> Document;

/// `lopdf::Document::compress`: compresses the document's streams in place.
/// The new document is named by the old one.
#[verifier::external_body]
fn compress(document: &mut Document)
    ensures
        *final(document) == compressed_document(*old(document)),
{
    document.compress();
}

/// The bytes that `lopdf::Document::save_to` writes for `document`, or
/// `None` when it stops with an error.
pub uninterp spec fn saved_pdf(document: Document) -> Option<Seq<u8>>;

/// The header every saved document begins with: `%PDF-`.
pub open spec fn pdf_header() -> Seq<u8> {
    seq![0x25u8, 0x50u8, 0x44u8, 0x46u8, 0x2du8]
}

/// `lopdf::Document::save_to`, writing into a fresh byte vector (its error
/// type is `std::io::Error`: the writer's `Result` is `std::io::Result`): the
/// serialized document, or the error that stopped the writer. The bytes are
/// named by the document as it was before the call; they begin with the
/// `%PDF-` header, which the writer puts first. What the writer leaves in
/// the document itself is not stated.
#[verifier::external_body]
fn save_to_vec(document: &mut Document) -> (r: Result<Vec<u8>, std::io::Error>)
    ensures
        match r {
            Ok(bytes) => {
                &&& saved_pdf(*old(document)) == Some(bytes@)
                &&& bytes@.len() >= 5
                &&& bytes@.subrange(0, 5) == pdf_header()
            },
            Err(_) => saved_pdf(*old(document)) is None,
        },
{
    let mut buffer = Vec::new();
    document.save_to(&mut buffer).map(|()| buffer)
}

/// A parsed input document with the identifiers of its pages.
pub struct LoadedDocument {
    pub document: Document,
    pub page_ids: Vec<ObjectId>,
}

/// Parses the input bytes and lists the pages: a document that `lopdf`
/// reads from the bytes, with its page identifiers in page order. The only
/// failure is `Load`, exactly when the bytes are not a readable PDF.
pub fn open_document(input: &[u8]) -> (r: Result<LoadedDocument, SaddleStitchError>)
    ensures
        r is Ok <==> pdf_parses(input@),
        r matches Ok(loaded) ==> loaded.page_ids@ == document_page_ids(loaded.document),
        r matches Err(e) ==> e == SaddleStitchError::Load,
{
    match load_mem(input) {
        Ok(document) => {
            let page_ids = page_ids(&document);
            Ok(LoadedDocument { document, page_ids })
        },
        Err(_) => Err(SaddleStitchError::Load),
    }
}

/// The decompressed content of a page, bounded by `MAX_PAGE_CONTENT_BYTES`;
/// the only failure is `ContentTooLarge`, when the page exceeds the bound.
pub fn page_content(document: &Document, page_id: ObjectId) -> (r: Result<
    Vec<u8>,
    SaddleStitchError,
>)
    ensures
        match r {
            Ok(content) => limited_page_content(*document, page_id, MAX_PAGE_CONTENT_BYTES) == Some(
                content@,
            ),
            Err(e) => e == SaddleStitchError::ContentTooLarge && limited_page_content(
                *document,
                page_id,
                MAX_PAGE_CONTENT_BYTES,
            ) is None,
        },
{
    match page_content_with_limit(document, page_id, MAX_PAGE_CONTENT_BYTES) {
        Ok(content) => Ok(content),
        Err(_) => Err(SaddleStitchError::ContentTooLarge),
    }
}

/// Compresses the finished document and serializes it: the bytes that the
/// writer makes of the compressed document, which begin with `%PDF-`. The
/// only failure is `Save`, when the writer stops with an error.
pub fn finish_document(document: &mut Document) -> (r: Result<Vec<u8>, SaddleStitchError>)
    ensures
        match r {
            Ok(bytes) => {
                &&& saved_pdf(compressed_document(*old(document))) == Some(bytes@)
                &&& bytes@.len() >= 5
                &&& bytes@.subrange(0, 5) == pdf_header()
            },
            Err(e) => e == SaddleStitchError::Save && saved_pdf(compressed_document(*old(document)))
                is None,
        },
{
    compress(document);
    match save_to_vec(document) {
        Ok(bytes) => Ok(bytes),
        Err(_) => Err(SaddleStitchError::Save),
    }
}

/// The display rotation (`/Rotate`) that applies to a page, own or
/// inherited from the page tree.
#[derive(Debug, Clone, Copy, PartialEq, Eq, Structural)]
pub enum PageRotation {
    /// No `/Rotate` entry applies.
    Absent,
    /// An integer rotation in degrees.
    Degrees(i64),
    /// A `/Rotate` entry that is not an integer.
    Unreadable,
}

/// Whether a page is shown as stored: no rotation, or a whole number of turns.
pub open spec fn is_upright(rotation: PageRotation) -> bool {
    match rotation {
        PageRotation::Absent => true,
        PageRotation::Degrees(d) => d % 360 == 0,
        PageRotation::Unreadable => false,
    }
}

#[verifier::external_type_specification]
#[verifier::external_body]
pub struct ExDictionary(lopdf::Dictionary);

#[verifier::external_type_specification]
#[verifier::external_body]
pub struct ExObject(lopdf::Object);

/// The number of objects that `document` holds.
pub uninterp spec fn document_object_count(document: Document) -> nat;

/// The number of entries in the object table of `document` (its public
/// `objects` map), named by the document.
#[verifier::external_body]
fn object_count(document: &Document) -> (n: usize)
    ensures
        n == document_object_count(*document),
{
    document.objects.len()
}

/// The dictionary that object `id` of `document` is, following references,
/// or `None` where there is no such object or it is not a dictionary.
pub uninterp spec fn document_dictionary(document: Document, id: ObjectId) -> Option<Dictionary>;

/// `lopdf::Document::get_dictionary`: the dictionary object `id`, if it is
/// one; named by the document and the identifier.
#[verifier::external_body]
fn get_dictionary<'a>(document: &'a Document, id: ObjectId) -> (r: Option<&'a Dictionary>)
    ensures
        match r {
            Some(node) => document_dictionary(*document, id) == Some(*node),
            None => document_dictionary(*document, id) is None,
        },
{
    document.get_dictionary(id).ok()
}

/// The value stored under `key` in `dictionary`, if there is one.
pub uninterp spec fn dictionary_entry(dictionary: Dictionary, key: Seq<u8>) -> Option<Object>;

/// `lopdf::Dictionary::get`: the value under a key, if present; named by the
/// dictionary and the key.
#[verifier::external_body]
fn dictionary_get<'a>(dictionary: &'a Dictionary, key: &[u8]) -> (r: Option<&'a Object>)
    ensures
        match r {
            Some(value) => dictionary_entry(*dictionary, key@) == Some(*value),
            None => dictionary_entry(*dictionary, key@) is None,
        },
{
    dictionary.get(key).ok()
}

/// The integer that `object` is, if it is an integer.
pub uninterp spec fn object_integer(object: Object) -> Option<i64>;

/// `lopdf::Object::as_i64`: the value of an integer object; named by the
/// object.
#[verifier::external_body]
fn object_as_i64(object: &Object) -> (r: Option<i64>)
    ensures
        r == object_integer(*object),
{
    object.as_i64().ok()
}

/// The object identifier that `object` refers to, if it is a reference.
pub uninterp spec fn object_reference(object: Object) -> Option<ObjectId>;

/// `lopdf::Object::as_reference`: the target of a reference object; named by
/// the object.
#[verifier::external_body]
fn object_as_reference(object: &Object) -> (r: Option<ObjectId>)
    ensures
        r == object_reference(*object),
{
    object.as_reference().ok()
}

/// The key `Rotate`.
pub open spec fn rotate_key() -> Seq<u8> {
    seq![0x52u8, 0x6fu8, 0x74u8, 0x61u8, 0x74u8, 0x65u8]
}

/// The key `Parent`.
pub open spec fn parent_key() -> Seq<u8> {
    seq![0x50u8, 0x61u8, 0x72u8, 0x65u8, 0x6eu8, 0x74u8]
}

/// The rotation that applies to node `id` of the page tree, looking at no
/// more than `hops` nodes on the way up: the node's own `/Rotate` entry,
/// else that of its `/Parent`, and so on. A walk that ends (no dictionary,
/// no parent, or no hops left) finds no rotation.
pub open spec fn inherited_rotation(document: Document, id: ObjectId, hops: nat) -> PageRotation
    decreases hops,
{
    if hops == 0 {
        PageRotation::Absent
    } else {
        match document_dictionary(document, id) {
            None => PageRotation::Absent,
            Some(node) => match dictionary_entry(node, rotate_key()) {
                Some(rotate) => match object_integer(rotate) {
                    Some(degrees) => PageRotation::Degrees(degrees),
                    None => PageRotation::Unreadable,
                },
                None => match node_parent(node) {
                    Some(next) => inherited_rotation(document, next, (hops - 1) as nat),
                    None => PageRotation::Absent,
                },
            },
        }
    }
}

/// How many nodes a walk up the page tree visits at most: one more than the
/// document has objects, enough for any tree, so that only a cycle of
/// `/Parent` references is cut short.
pub open spec fn tree_walk_limit(objects: nat) -> nat {
    if objects < usize::MAX {
        objects + 1
    } else {
        objects
    }
}

/// The walk limit for `document`, computed as `tree_walk_limit` states.
fn walk_limit(document: &Document) -> (limit: usize)
    ensures
        limit == tree_walk_limit(document_object_count(*document)),
{
    let objects = object_count(document);
    if objects < usize::MAX {
        objects + 1
    } else {
        objects
    }
}

/// The parent of a page-tree node: the target of its `/Parent` reference.
pub open spec fn node_parent(node: Dictionary) -> Option<ObjectId> {
    match dictionary_entry(node, parent_key()) {
        Some(link) => object_reference(link),
        None => None,
    }
}

/// The parent of a node, read as `node_parent` states.
fn parent_of(node: &Dictionary, parent: &Vec<u8>) -> (r: Option<ObjectId>)
    requires
        parent@ == parent_key(),
    ensures
        r == node_parent(*node),
{
    match dictionary_get(node, parent.as_slice()) {
        Some(link) => object_as_reference(link),
        None => None,
    }
}

/// The display rotation of a page, its own or inherited from the page tree,
/// found by walking up `/Parent` references a bounded number of times.
pub fn page_rotation(document: &Document, page_id: ObjectId) -> (r: PageRotation)
    ensures
        r == inherited_rotation(
            *document,
            page_id,
            tree_walk_limit(document_object_count(*document)),
        ),
{
    let limit = walk_limit(document);
    let rotate: Vec<u8> = vec![0x52u8, 0x6fu8, 0x74u8, 0x61u8, 0x74u8, 0x65u8];
    let parent: Vec<u8> = vec![0x50u8, 0x61u8, 0x72u8, 0x65u8, 0x6eu8, 0x74u8];
    proof {
        assert(rotate@ =~= rotate_key());
        assert(parent@ =~= parent_key());
    }
    let mut current = page_id;
    let mut hops_left = limit;
    while hops_left > 0
        invariant
            rotate@ == rotate_key(),
            parent@ == parent_key(),
            limit == tree_walk_limit(document_object_count(*document)),
            inherited_rotation(*document, current, hops_left as nat) == inherited_rotation(
                *document,
                page_id,
                limit as nat,
            ),
        decreases hops_left,
    {
        match get_dictionary(document, current) {
            None => {
                return PageRotation::Absent;
            },
            Some(node) => {
                match dictionary_get(node, rotate.as_slice()) {
                    Some(value) => {
                        return match object_as_i64(value) {
                            Some(degrees) => PageRotation::Degrees(degrees),
                            None => PageRotation::Unreadable,
                        };
                    },
                    None => {
                        match parent_of(node, &parent) {
                            Some(next) => {
                                current = next;
                                hops_left = hops_left - 1;
                            },
                            None => {
                                return PageRotation::Absent;
                            },
                        }
                    },
                }
            },
        }
    }
    PageRotation::Absent
}

/// The items of `object`, if it is an array.
pub uninterp spec fn object_array(object: Object) -> Option<Seq<Object>>;

/// `lopdf::Object::as_array`: the items of an array object; named by the
/// object.
#[verifier::external_body]
fn object_as_array<'a>(object: &'a Object) -> (r: Option<&'a Vec<Object>>)
    ensures
        match r {
            Some(items) => object_array(*object) == Some(items@),
            None => object_array(*object) is None,
        },
{
    object.as_array().ok()
}

/// Whether `object` is a number (an integer or a real).
pub uninterp spec fn object_is_number(object: Object) -> bool;

/// Whether `lopdf::Object::as_float` reads `object` as a number; named by the
/// object. The number itself stays with the caller.
#[verifier::external_body]
fn is_number(object: &Object) -> (r: bool)
    ensures
        r == object_is_number(*object),
{
    object.as_float().is_ok()
}

/// The key `MediaBox`.
pub open spec fn media_box_key() -> Seq<u8> {
    seq![0x4du8, 0x65u8, 0x64u8, 0x69u8, 0x61u8, 0x42u8, 0x6fu8, 0x78u8]
}

/// How many of `items` are numbers.
pub open spec fn number_count(items: Seq<Object>) -> nat
    decreases items.len(),
{
    if items.len() == 0 {
        0
    } else {
        number_count(items.drop_last()) + if object_is_number(items.last()) {
            1nat
        } else {
            0nat
        }
    }
}

/// Whether a page-tree node gives the page size: its `/MediaBox` is an array
/// that holds four numbers (entries that are not numbers are passed over).
pub open spec fn gives_media_box(node: Dictionary) -> bool {
    match dictionary_entry(node, media_box_key()) {
        Some(value) => match object_array(value) {
            Some(items) => number_count(items) == 4,
            None => false,
        },
        None => false,
    }
}

/// The node whose `/MediaBox` gives the size of page-tree node `id`, looking
/// at no more than `hops` nodes on the way up: the node itself if it gives
/// one, else the node that gives its parent's size, and so on.
pub open spec fn media_box_node(document: Document, id: ObjectId, hops: nat) -> Option<ObjectId>
    decreases hops,
{
    if hops == 0 {
        None
    } else {
        match document_dictionary(document, id) {
            None => None,
            Some(node) => if gives_media_box(node) {
                Some(id)
            } else {
                match node_parent(node) {
                    Some(next) => media_box_node(document, next, (hops - 1) as nat),
                    None => None,
                }
            },
        }
    }
}

/// Counts the numbers among `items`.
fn count_numbers(items: &Vec<Object>) -> (n: usize)
    ensures
        n == number_count(items@),
{
    let mut n: usize = 0;
    let mut i: usize = 0;
    while i < items.len()
        invariant
            i <= items.len(),
            n == number_count(items@.take(i as int)),
            n <= i,
        decreases items.len() - i,
    {
        proof {
            assert(items@.take(i + 1).drop_last() =~= items@.take(i as int));
        }
        if is_number(&items[i]) {
            n = n + 1;
        }
        i = i + 1;
    }
    proof {
        assert(items@.take(items.len() as int) =~= items@);
    }
    n
}

/// Whether a node gives the page size, decided as `gives_media_box` states.
fn node_gives_media_box(node: &Dictionary, media_box: &Vec<u8>) -> (r: bool)
    requires
        media_box@ == media_box_key(),
    ensures
        r == gives_media_box(*node),
{
    match dictionary_get(node, media_box.as_slice()) {
        Some(value) => match object_as_array(value) {
            Some(items) => count_numbers(items) == 4,
            None => false,
        },
        None => false,
    }
}

/// The page-tree node whose `/MediaBox` gives the size of a page: the page
/// itself or the nearest ancestor that gives one, found by walking up
/// `/Parent` references a bounded number of times. The only failure is
/// `MissingMediaBox`, when the walk finds none.
pub fn media_box_owner(document: &Document, page_id: ObjectId) -> (r: Result<
    ObjectId,
    SaddleStitchError,
>)
    ensures
        match r {
            Ok(owner) => media_box_node(
                *document,
                page_id,
                tree_walk_limit(document_object_count(*document)),
            ) == Some(owner),
            Err(e) => e == SaddleStitchError::MissingMediaBox && media_box_node(
                *document,
                page_id,
                tree_walk_limit(document_object_count(*document)),
            ) is None,
        },
{
    let limit = walk_limit(document);
    let media_box: Vec<u8> = vec![0x4du8, 0x65u8, 0x64u8, 0x69u8, 0x61u8, 0x42u8, 0x6fu8, 0x78u8];
    let parent: Vec<u8> = vec![0x50u8, 0x61u8, 0x72u8, 0x65u8, 0x6eu8, 0x74u8];
    proof {
        assert(media_box@ =~= media_box_key());
        assert(parent@ =~= parent_key());
    }
    let mut current = page_id;
    let mut hops_left = limit;
    while hops_left > 0
        invariant
            media_box@ == media_box_key(),
            parent@ == parent_key(),
            limit == tree_walk_limit(document_object_count(*document)),
            media_box_node(*document, current, hops_left as nat) == media_box_node(
                *document,
                page_id,
                limit as nat,
            ),
        decreases hops_left,
    {
        match get_dictionary(document, current) {
            None => {
                return Err(SaddleStitchError::MissingMediaBox);
            },
            Some(node) => {
                if node_gives_media_box(node, &media_box) {
                    return Ok(current);
                }
                match parent_of(node, &parent) {
                    Some(next) => {
                        current = next;
                        hops_left = hops_left - 1;
                    },
                    None => {
                        return Err(SaddleStitchError::MissingMediaBox);
                    },
                }
            },
        }
    }
    Err(SaddleStitchError::MissingMediaBox)
}

/// Rejects a page whose display rotation the spread layout cannot reproduce:
/// any `/Rotate` that turns the page, or one that is not an integer. A
/// `/Rotate` of a whole number of turns (0, 360, -720, ...) shows the page as
/// stored, and the placement reproduces it exactly, so such a page is
/// deliberately accepted.
pub fn check_rotation(rotation: PageRotation) -> (r: Result<(), SaddleStitchError>)
    ensures
        r is Ok <==> is_upright(rotation),
        r matches Err(e) ==> e == SaddleStitchError::Rotated,
{
    match rotation {
        PageRotation::Absent => Ok(()),
        PageRotation::Degrees(d) => {
            if d % 360 == 0 {
                Ok(())
            } else {
                Err(SaddleStitchError::Rotated)
            }
        },
        PageRotation::Unreadable => Err(SaddleStitchError::Rotated),
    }
}

} // verus!
