//! Assembling the output document: each page of the input becomes a Form
//! XObject holding its content, each spread a new page twice as wide that
//! draws the Form XObjects of its two halves, and a new page tree and
//! catalog take the place of the old ones. The numbers of the page geometry
//! (the page box, the spread's page box and the offset of the right half)
//! are floating-point values; the caller computes them and hands them in as
//! PDF number objects, so that everything else is decided and proved here.

use vstd::prelude::*;

use lopdf::content::{Content, Operation};
use lopdf::{Dictionary, Document, Object, Stream};

use crate::pdf::document::{
    check_rotation, dictionary_entry, document_object_count, document_page_ids, finish_document,
    inherited_rotation, is_upright, limited_page_content, media_box_key, media_box_node,
    media_box_owner, object_array, object_integer, object_reference, open_document, page_content,
    page_rotation, parent_key, pdf_header, pdf_parses, saved_pdf, compressed_document,
    tree_walk_limit, ObjectId, MAX_PAGE_CONTENT_BYTES,
};
use crate::pdf::saddle_stitch::{padded_len, slot_content, spread_layout, Direction, Spread};
use crate::pdf::SaddleStitchError;

verus! {

#[verifier::external_type_specification]
#[verifier::external_body]
pub struct ExOperation(lopdf::content::Operation);

/// The objects of `document` by identifier (its `objects` map).
pub uninterp spec fn document_objects(document: Document) -> Map<ObjectId, Object>;

/// The largest object number that `document` has handed out (`max_id`).
pub uninterp spec fn document_max_id(document: Document) -> u32;

/// The trailer dictionary of `document`.
pub uninterp spec fn document_trailer(document: Document) -> Dictionary;

/// The `max_id` field of `document`.
#[verifier::external_body]
fn max_object_id(document: &Document) -> (n: u32)
    ensures
        n == document_max_id(*document),
{
    document.max_id
}

/// `lopdf::Document::add_object`: stores `object` under the next object
/// number (`max_id + 1`, generation 0) and returns that identifier. It
/// panics when `max_id` is already `u32::MAX`, which `requires` leaves out.
#[verifier::external_body]
fn add_object(document: &mut Document, object: Object) -> (id: ObjectId)
    requires
        document_max_id(*old(document)) < u32::MAX,
    ensures
        id.0 == document_max_id(*old(document)) + 1,
        id.1 == 0,
        document_max_id(*final(document)) == id.0,
        document_objects(*final(document)) == document_objects(*old(document)).insert(id, object),
        document_trailer(*final(document)) == document_trailer(*old(document)),
{
    document.add_object(object)
}

/// `lopdf::Document::new_object_id`: reserves the next object number
/// (`max_id + 1`, generation 0) without storing an object. It panics when
/// `max_id` is already `u32::MAX`, which `requires` leaves out.
#[verifier::external_body]
fn new_object_id(document: &mut Document) -> (id: ObjectId)
    requires
        document_max_id(*old(document)) < u32::MAX,
    ensures
        id.0 == document_max_id(*old(document)) + 1,
        id.1 == 0,
        document_max_id(*final(document)) == id.0,
        document_objects(*final(document)) == document_objects(*old(document)),
        document_trailer(*final(document)) == document_trailer(*old(document)),
{
    document.new_object_id()
}

/// `BTreeMap::insert` on the document's `objects` map: stores `object` under
/// `id`, replacing what was there.
#[verifier::external_body]
fn insert_object(document: &mut Document, id: ObjectId, object: Object)
    ensures
        document_max_id(*final(document)) == document_max_id(*old(document)),
        document_objects(*final(document)) == document_objects(*old(document)).insert(id, object),
        document_trailer(*final(document)) == document_trailer(*old(document)),
{
    document.objects.insert(id, object);
}

/// `lopdf::Dictionary::set` on the document's trailer.
#[verifier::external_body]
fn set_trailer_entry(document: &mut Document, key: Vec<u8>, value: Object)
    ensures
        document_max_id(*final(document)) == document_max_id(*old(document)),
        document_objects(*final(document)) == document_objects(*old(document)),
        dictionary_entry(document_trailer(*final(document)), key@) == Some(value),
        forall|k: Seq<u8>|
            k != key@ ==> dictionary_entry(document_trailer(*final(document)), k)
                == dictionary_entry(document_trailer(*old(document)), k),
{
    document.trailer.set(key, value);
}

/// `lopdf::Dictionary::new`: a dictionary without entries.
#[verifier::external_body]
fn new_dictionary() -> (dictionary: Dictionary)
    ensures
        forall|k: Seq<u8>| dictionary_entry(dictionary, k) is None,
{
    Dictionary::new()
}

/// `lopdf::Dictionary::set`: stores `value` under `key`, replacing what was
/// there; the other entries stay.
#[verifier::external_body]
fn dictionary_set(dictionary: &mut Dictionary, key: Vec<u8>, value: Object)
    ensures
        dictionary_entry(*final(dictionary), key@) == Some(value),
        forall|k: Seq<u8>|
            k != key@ ==> dictionary_entry(*final(dictionary), k) == dictionary_entry(
                *old(dictionary),
                k,
            ),
{
    dictionary.set(key, value);
}

/// The integer object holding `value`.
pub uninterp spec fn pdf_integer(value: i64) -> Object;

/// The name object holding `name`.
pub uninterp spec fn pdf_name(name: Seq<u8>) -> Object;

/// The name that `object` is, if it is a name.
pub uninterp spec fn object_name(object: Object) -> Option<Seq<u8>>;

/// The dictionary that `object` is, if it is a dictionary.
pub uninterp spec fn object_dictionary(object: Object) -> Option<Dictionary>;

/// The dictionary and the content bytes of `object`, if it is a stream.
pub uninterp spec fn object_stream(object: Object) -> Option<(Dictionary, Seq<u8>)>;

/// `Object::Integer`, as `Object::from` makes it of an `i64`.
#[verifier::external_body]
fn integer_object(value: i64) -> (object: Object)
    ensures
        object == pdf_integer(value),
        object_integer(object) == Some(value),
{
    Object::from(value)
}

/// `Object::Name`, holding the given bytes.
#[verifier::external_body]
fn name_object(name: Vec<u8>) -> (object: Object)
    ensures
        object == pdf_name(name@),
        object_name(object) == Some(name@),
{
    Object::Name(name)
}

/// `Object::Reference`, as `Object::from` makes it of an identifier.
#[verifier::external_body]
fn reference_object(id: ObjectId) -> (object: Object)
    ensures
        object_reference(object) == Some(id),
{
    Object::from(id)
}

/// `Object::Array`, holding the given items.
#[verifier::external_body]
fn array_object(items: Vec<Object>) -> (object: Object)
    ensures
        object_array(object) == Some(items@),
{
    Object::Array(items)
}

/// `Object::Dictionary`, holding the given dictionary.
#[verifier::external_body]
fn dictionary_object(dictionary: Dictionary) -> (object: Object)
    ensures
        object_dictionary(object) == Some(dictionary),
{
    Object::Dictionary(dictionary)
}

/// `Object::Stream` of `lopdf::Stream::new(dictionary, content)`: the stream
/// keeps the content and the dictionary, to which `Stream::new` adds the
/// `Length` entry.
#[verifier::external_body]
fn stream_object(dictionary: Dictionary, content: Vec<u8>) -> (object: Object)
    ensures
        object_stream(object) matches Some(stream) && stream.1 == content@ && forall|k: Seq<u8>|
            k != length_key() ==> dictionary_entry(stream.0, k) == dictionary_entry(dictionary, k),
{
    Object::Stream(Stream::new(dictionary, content))
}

/// `<Object as Clone>::clone`, which lopdf derives: an equal object.
#[verifier::external_body]
fn clone_object(object: &Object) -> (copy: Object)
    ensures
        copy == *object,
{
    object.clone()
}

/// The content operation with this operator and these operands.
pub uninterp spec fn pdf_operation(operator: Seq<char>, operands: Seq<Object>) -> Operation;

/// `lopdf::content::Operation::new`.
#[verifier::external_body]
fn new_operation(operator: &str, operands: Vec<Object>) -> (operation: Operation)
    ensures
        operation == pdf_operation(operator@, operands@),
{
    Operation::new(operator, operands)
}

/// The bytes that `lopdf::content::Content::encode` makes of `operations`,
/// or `None` when it fails.
pub uninterp spec fn encoded_operations(operations: Seq<Operation>) -> Option<Seq<u8>>;

/// `lopdf::content::Content::encode` of the given operations.
#[verifier::external_body]
fn encode_operations(operations: Vec<Operation>) -> (r: Option<Vec<u8>>)
    ensures
        match r {
            Some(bytes) => encoded_operations(operations@) == Some(bytes@),
            None => encoded_operations(operations@) is None,
        },
{
    Content { operations }.encode().ok()
}

/// The resources dictionary that page `page_id` of `document` holds itself
/// (a direct `/Resources` dictionary), as `Document::get_page_resources`
/// gives it; `None` when it holds none or that method fails.
pub uninterp spec fn page_own_resources(document: Document, page_id: ObjectId) -> Option<
    Dictionary,
>;

/// `lopdf::Document::get_page_resources`: a copy of the page's own resources
/// dictionary, if it has one and the method succeeds.
#[verifier::external_body]
fn page_resources(document: &Document, page_id: ObjectId) -> (r: Option<Dictionary>)
    ensures
        r == page_own_resources(*document, page_id),
{
    match document.get_page_resources(page_id) {
        Ok((Some(resources), _)) => Some(resources.clone()),
        _ => None,
    }
}

/// The key `Type`.
pub open spec fn type_key() -> Seq<u8> {
    seq![0x54u8, 0x79u8, 0x70u8, 0x65u8]
}

/// The bytes of `type_key`.
fn type_key_bytes() -> (bytes: Vec<u8>)
    ensures
        bytes@ == type_key(),
{
    let bytes: Vec<u8> = vec![0x54u8, 0x79u8, 0x70u8, 0x65u8];
    proof {
        assert(bytes@ =~= type_key());
    }
    bytes
}

/// The key `Subtype`.
pub open spec fn subtype_key() -> Seq<u8> {
    seq![0x53u8, 0x75u8, 0x62u8, 0x74u8, 0x79u8, 0x70u8, 0x65u8]
}

/// The bytes of `subtype_key`.
fn subtype_key_bytes() -> (bytes: Vec<u8>)
    ensures
        bytes@ == subtype_key(),
{
    let bytes: Vec<u8> = vec![0x53u8, 0x75u8, 0x62u8, 0x74u8, 0x79u8, 0x70u8, 0x65u8];
    proof {
        assert(bytes@ =~= subtype_key());
    }
    bytes
}

/// The key `FormType`.
pub open spec fn form_type_key() -> Seq<u8> {
    seq![0x46u8, 0x6fu8, 0x72u8, 0x6du8, 0x54u8, 0x79u8, 0x70u8, 0x65u8]
}

/// The bytes of `form_type_key`.
fn form_type_key_bytes() -> (bytes: Vec<u8>)
    ensures
        bytes@ == form_type_key(),
{
    let bytes: Vec<u8> = vec![0x46u8, 0x6fu8, 0x72u8, 0x6du8, 0x54u8, 0x79u8, 0x70u8, 0x65u8];
    proof {
        assert(bytes@ =~= form_type_key());
    }
    bytes
}

/// The key `BBox`.
pub open spec fn bbox_key() -> Seq<u8> {
    seq![0x42u8, 0x42u8, 0x6fu8, 0x78u8]
}

/// The bytes of `bbox_key`.
fn bbox_key_bytes() -> (bytes: Vec<u8>)
    ensures
        bytes@ == bbox_key(),
{
    let bytes: Vec<u8> = vec![0x42u8, 0x42u8, 0x6fu8, 0x78u8];
    proof {
        assert(bytes@ =~= bbox_key());
    }
    bytes
}

/// The key `Resources`.
pub open spec fn resources_key() -> Seq<u8> {
    seq![0x52u8, 0x65u8, 0x73u8, 0x6fu8, 0x75u8, 0x72u8, 0x63u8, 0x65u8, 0x73u8]
}

/// The bytes of `resources_key`.
fn resources_key_bytes() -> (bytes: Vec<u8>)
    ensures
        bytes@ == resources_key(),
{
    let bytes: Vec<u8> = vec![0x52u8, 0x65u8, 0x73u8, 0x6fu8, 0x75u8, 0x72u8, 0x63u8, 0x65u8, 0x73u8];
    proof {
        assert(bytes@ =~= resources_key());
    }
    bytes
}

/// The name `XObject`.
pub open spec fn xobject_word() -> Seq<u8> {
    seq![0x58u8, 0x4fu8, 0x62u8, 0x6au8, 0x65u8, 0x63u8, 0x74u8]
}

/// The bytes of `xobject_word`.
fn xobject_word_bytes() -> (bytes: Vec<u8>)
    ensures
        bytes@ == xobject_word(),
{
    let bytes: Vec<u8> = vec![0x58u8, 0x4fu8, 0x62u8, 0x6au8, 0x65u8, 0x63u8, 0x74u8];
    proof {
        assert(bytes@ =~= xobject_word());
    }
    bytes
}

/// The name `Form`.
pub open spec fn form_word() -> Seq<u8> {
    seq![0x46u8, 0x6fu8, 0x72u8, 0x6du8]
}

/// The bytes of `form_word`.
fn form_word_bytes() -> (bytes: Vec<u8>)
    ensures
        bytes@ == form_word(),
{
    let bytes: Vec<u8> = vec![0x46u8, 0x6fu8, 0x72u8, 0x6du8];
    proof {
        assert(bytes@ =~= form_word());
    }
    bytes
}

/// The name `Page`.
pub open spec fn page_word() -> Seq<u8> {
    seq![0x50u8, 0x61u8, 0x67u8, 0x65u8]
}

/// The bytes of `page_word`.
fn page_word_bytes() -> (bytes: Vec<u8>)
    ensures
        bytes@ == page_word(),
{
    let bytes: Vec<u8> = vec![0x50u8, 0x61u8, 0x67u8, 0x65u8];
    proof {
        assert(bytes@ =~= page_word());
    }
    bytes
}

/// The name `Pages`.
pub open spec fn pages_word() -> Seq<u8> {
    seq![0x50u8, 0x61u8, 0x67u8, 0x65u8, 0x73u8]
}

/// The bytes of `pages_word`.
fn pages_word_bytes() -> (bytes: Vec<u8>)
    ensures
        bytes@ == pages_word(),
{
    let bytes: Vec<u8> = vec![0x50u8, 0x61u8, 0x67u8, 0x65u8, 0x73u8];
    proof {
        assert(bytes@ =~= pages_word());
    }
    bytes
}

/// The key `Contents`.
pub open spec fn contents_key() -> Seq<u8> {
    seq![0x43u8, 0x6fu8, 0x6eu8, 0x74u8, 0x65u8, 0x6eu8, 0x74u8, 0x73u8]
}

/// The bytes of `contents_key`.
fn contents_key_bytes() -> (bytes: Vec<u8>)
    ensures
        bytes@ == contents_key(),
{
    let bytes: Vec<u8> = vec![0x43u8, 0x6fu8, 0x6eu8, 0x74u8, 0x65u8, 0x6eu8, 0x74u8, 0x73u8];
    proof {
        assert(bytes@ =~= contents_key());
    }
    bytes
}

/// The key `Kids`.
pub open spec fn kids_key() -> Seq<u8> {
    seq![0x4bu8, 0x69u8, 0x64u8, 0x73u8]
}

/// The bytes of `kids_key`.
fn kids_key_bytes() -> (bytes: Vec<u8>)
    ensures
        bytes@ == kids_key(),
{
    let bytes: Vec<u8> = vec![0x4bu8, 0x69u8, 0x64u8, 0x73u8];
    proof {
        assert(bytes@ =~= kids_key());
    }
    bytes
}

/// The key `Count`.
pub open spec fn count_key() -> Seq<u8> {
    seq![0x43u8, 0x6fu8, 0x75u8, 0x6eu8, 0x74u8]
}

/// The bytes of `count_key`.
fn count_key_bytes() -> (bytes: Vec<u8>)
    ensures
        bytes@ == count_key(),
{
    let bytes: Vec<u8> = vec![0x43u8, 0x6fu8, 0x75u8, 0x6eu8, 0x74u8];
    proof {
        assert(bytes@ =~= count_key());
    }
    bytes
}

/// The name `Catalog`.
pub open spec fn catalog_word() -> Seq<u8> {
    seq![0x43u8, 0x61u8, 0x74u8, 0x61u8, 0x6cu8, 0x6fu8, 0x67u8]
}

/// The bytes of `catalog_word`.
fn catalog_word_bytes() -> (bytes: Vec<u8>)
    ensures
        bytes@ == catalog_word(),
{
    let bytes: Vec<u8> = vec![0x43u8, 0x61u8, 0x74u8, 0x61u8, 0x6cu8, 0x6fu8, 0x67u8];
    proof {
        assert(bytes@ =~= catalog_word());
    }
    bytes
}

/// The key `Root`.
pub open spec fn root_key() -> Seq<u8> {
    seq![0x52u8, 0x6fu8, 0x6fu8, 0x74u8]
}

/// The bytes of `root_key`.
fn root_key_bytes() -> (bytes: Vec<u8>)
    ensures
        bytes@ == root_key(),
{
    let bytes: Vec<u8> = vec![0x52u8, 0x6fu8, 0x6fu8, 0x74u8];
    proof {
        assert(bytes@ =~= root_key());
    }
    bytes
}

/// The key `Length`.
pub open spec fn length_key() -> Seq<u8> {
    seq![0x4cu8, 0x65u8, 0x6eu8, 0x67u8, 0x74u8, 0x68u8]
}

/// `parent_key` as bytes.
fn parent_key_bytes() -> (bytes: Vec<u8>)
    ensures
        bytes@ == parent_key(),
{
    let bytes: Vec<u8> = vec![0x50u8, 0x61u8, 0x72u8, 0x65u8, 0x6eu8, 0x74u8];
    proof {
        assert(bytes@ =~= parent_key());
    }
    bytes
}

/// `media_box_key` as bytes.
fn media_box_key_bytes() -> (bytes: Vec<u8>)
    ensures
        bytes@ == media_box_key(),
{
    let bytes: Vec<u8> = vec![0x4du8, 0x65u8, 0x64u8, 0x69u8, 0x61u8, 0x42u8, 0x6fu8, 0x78u8];
    proof {
        assert(bytes@ =~= media_box_key());
    }
    bytes
}

/// The decimal digits of `n`, as ASCII bytes.
pub open spec fn decimal_digits(n: nat) -> Seq<u8>
    decreases n,
{
    if n < 10 {
        seq![(48 + n) as u8]
    } else {
        decimal_digits(n / 10).push((48 + n % 10) as u8)
    }
}

/// The resource name under which a spread page draws Form XObject `id`:
/// `X` followed by its object number.
pub open spec fn xobject_name(id: ObjectId) -> Seq<u8> {
    seq![0x58u8] + decimal_digits(id.0 as nat)
}

proof fn lemma_decimal_length(n: nat)
    ensures
        decimal_digits(n).len() >= 1,
        n >= 10 ==> decimal_digits(n).len() >= 2,
    decreases n,
{
    if n >= 10 {
        lemma_decimal_length(n / 10);
    }
}

/// Different numbers have different decimal digits.
proof fn lemma_decimal_injective(n: nat, m: nat)
    requires
        decimal_digits(n) == decimal_digits(m),
    ensures
        n == m,
    decreases n,
{
    lemma_decimal_length(n);
    lemma_decimal_length(m);
    if n < 10 && m < 10 {
        assert(decimal_digits(n)[0] == decimal_digits(m)[0]);
        assert(((48 + n) as u8) as int == 48 + n);
        assert(((48 + m) as u8) as int == 48 + m);
        assert(decimal_digits(n)[0] == (48 + n) as u8);
        assert(decimal_digits(m)[0] == (48 + m) as u8);
        assert(n == m);
    } else if n >= 10 && m >= 10 {
        let a = decimal_digits(n);
        let b = decimal_digits(m);
        assert(a.last() == b.last());
        assert(((48 + n % 10) as u8) as int == 48 + n % 10);
        assert(((48 + m % 10) as u8) as int == 48 + m % 10);
        assert(n % 10 == m % 10);
        assert(a.drop_last() =~= decimal_digits(n / 10));
        assert(b.drop_last() =~= decimal_digits(m / 10));
        lemma_decimal_injective(n / 10, m / 10);
        assert(n == 10 * (n / 10) + n % 10);
        assert(m == 10 * (m / 10) + m % 10);
        assert(n == m);
    } else {
        assert(decimal_digits(n).len() == decimal_digits(m).len());
        if n < 10 {
            assert(decimal_digits(n).len() == 1);
        } else {
            assert(decimal_digits(m).len() == 1);
        }
    }
}

/// Two Form XObjects of one generation get different resource names.
proof fn lemma_xobject_names_differ(a: ObjectId, b: ObjectId)
    requires
        a.1 == b.1,
        a != b,
    ensures
        xobject_name(a) != xobject_name(b),
{
    if xobject_name(a) == xobject_name(b) {
        assert(decimal_digits(a.0 as nat) =~= xobject_name(a).subrange(1, xobject_name(a).len() as int));
        assert(decimal_digits(b.0 as nat) =~= xobject_name(b).subrange(1, xobject_name(b).len() as int));
        lemma_decimal_injective(a.0 as nat, b.0 as nat);
    }
}

/// Appends the decimal digits of `n`.
fn push_decimal(out: &mut Vec<u8>, n: u32)
    ensures
        final(out)@ == old(out)@ + decimal_digits(n as nat),
    decreases n,
{
    if n >= 10 {
        push_decimal(out, n / 10);
    }
    let digit: u8 = (48 + n % 10) as u8;
    out.push(digit);
    proof {
        if n >= 10 {
            assert(old(out)@ + decimal_digits(n as nat) =~= (old(out)@ + decimal_digits((n / 10) as nat)).push(digit));
        } else {
            assert(old(out)@ + decimal_digits(n as nat) =~= old(out)@.push(digit));
        }
    }
}

/// The bytes of `xobject_name(id)`.
fn xobject_name_bytes(id: ObjectId) -> (bytes: Vec<u8>)
    ensures
        bytes@ == xobject_name(id),
{
    let mut bytes: Vec<u8> = vec![0x58u8];
    push_decimal(&mut bytes, id.0);
    proof {
        assert(bytes@ =~= xobject_name(id));
    }
    bytes
}

/// What a page of the input contributes to the output: its decompressed
/// content and its own resources dictionary, if it holds one.
pub struct PageSource {
    pub content: Vec<u8>,
    pub resources: Option<Dictionary>,
}

/// A page source as values: its content bytes and its resources.
pub open spec fn source_view(source: PageSource) -> (Seq<u8>, Option<Dictionary>) {
    (source.content@, source.resources)
}

/// The numbers of the page geometry, as PDF number objects: the box of a
/// page (`BBox` of each Form XObject), the box of a spread page (twice as
/// wide), the origin (zero) and the offset of the right half (one page
/// width).
pub struct SpreadGeometry {
    pub bbox: Vec<Object>,
    pub spread_media_box: Vec<Object>,
    pub origin: Object,
    pub right_offset: Object,
}

/// The identifiers of the objects that make up the output: one Form
/// XObject per input page, one content stream and one page per spread, the
/// new page-tree node and the new catalog.
pub struct Booklet {
    pub form_ids: Vec<ObjectId>,
    pub content_ids: Vec<ObjectId>,
    pub spread_ids: Vec<ObjectId>,
    pub pages_id: ObjectId,
    pub catalog_id: ObjectId,
}

/// `dictionary` holds the name `name` under `key`.
pub open spec fn names_entry(dictionary: Dictionary, key: Seq<u8>, name: Seq<u8>) -> bool {
    match dictionary_entry(dictionary, key) {
        Some(value) => object_name(value) == Some(name),
        None => false,
    }
}

/// `dictionary` holds a reference to `id` under `key`.
pub open spec fn refers_entry(dictionary: Dictionary, key: Seq<u8>, id: ObjectId) -> bool {
    match dictionary_entry(dictionary, key) {
        Some(value) => object_reference(value) == Some(id),
        None => false,
    }
}

/// `dictionary` holds the integer `number` under `key`.
pub open spec fn integer_entry(dictionary: Dictionary, key: Seq<u8>, number: i64) -> bool {
    match dictionary_entry(dictionary, key) {
        Some(value) => object_integer(value) == Some(number),
        None => false,
    }
}

/// `dictionary` holds an array of exactly `items` under `key`.
pub open spec fn array_entry(dictionary: Dictionary, key: Seq<u8>, items: Seq<Object>) -> bool {
    match dictionary_entry(dictionary, key) {
        Some(value) => object_array(value) == Some(items),
        None => false,
    }
}

/// The dictionary held (directly) under `key`, if any.
pub open spec fn dictionary_under(dictionary: Dictionary, key: Seq<u8>) -> Option<Dictionary> {
    match dictionary_entry(dictionary, key) {
        Some(value) => object_dictionary(value),
        None => None,
    }
}

/// The dictionary object stored under `id`, if there is one.
pub open spec fn dictionary_at(objects: Map<ObjectId, Object>, id: ObjectId) -> Option<Dictionary> {
    if objects.dom().contains(id) {
        object_dictionary(objects[id])
    } else {
        None
    }
}

/// The stream object stored under `id`, if there is one.
pub open spec fn stream_at(objects: Map<ObjectId, Object>, id: ObjectId) -> Option<
    (Dictionary, Seq<u8>),
> {
    if objects.dom().contains(id) {
        object_stream(objects[id])
    } else {
        None
    }
}

/// The resources a Form XObject carries: the page's own dictionary, or an
/// empty one when the page holds none.
pub open spec fn resources_match(given: Dictionary, source: Option<Dictionary>) -> bool {
    match source {
        Some(resources) => given == resources,
        None => forall|k: Seq<u8>| dictionary_entry(given, k) is None,
    }
}

/// A Form XObject of a page: a stream with the page's content, of type
/// `XObject` and subtype `Form`, form type 1, the page box as `BBox`, and
/// the page's resources.
pub open spec fn form_is(
    stream: Option<(Dictionary, Seq<u8>)>,
    source: (Seq<u8>, Option<Dictionary>),
    bbox: Seq<Object>,
) -> bool {
    match stream {
        Some(form) => {
            &&& form.1 == source.0
            &&& names_entry(form.0, type_key(), xobject_word())
            &&& names_entry(form.0, subtype_key(), form_word())
            &&& integer_entry(form.0, form_type_key(), 1)
            &&& array_entry(form.0, bbox_key(), bbox)
            &&& match dictionary_under(form.0, resources_key()) {
                Some(resources) => resources_match(resources, source.1),
                None => false,
            }
        },
        None => false,
    }
}

/// The operations that draw Form XObject `name` with its origin at `(x, y)`:
/// save the state, translate, draw, restore.
pub open spec fn placement(name: Seq<u8>, x: Object, y: Object) -> Seq<Operation> {
    seq![
        pdf_operation("q"@, seq![]),
        pdf_operation(
            "cm"@,
            seq![pdf_integer(1), pdf_integer(0), pdf_integer(0), pdf_integer(1), x, y],
        ),
        pdf_operation("Do"@, seq![pdf_name(name)]),
        pdf_operation("Q"@, seq![]),
    ]
}

/// The operations of a spread page: the left form at the origin, then the
/// right form one page width to the right; a blank half draws nothing.
pub open spec fn spread_operations(
    left: Option<ObjectId>,
    right: Option<ObjectId>,
    geometry: SpreadGeometry,
) -> Seq<Operation> {
    let on_left = match left {
        Some(form) => placement(xobject_name(form), geometry.origin, geometry.origin),
        None => Seq::<Operation>::empty(),
    };
    let on_right = match right {
        Some(form) => placement(xobject_name(form), geometry.right_offset, geometry.origin),
        None => Seq::<Operation>::empty(),
    };
    on_left + on_right
}

/// Where a spread page draws its forms: each placement translates by the
/// identity matrix with an offset, the left half's by `(origin, origin)` and
/// the right half's by `(right_offset, origin)`, one page width to the right
/// and not vertically; a blank half draws nothing.
pub proof fn law_spread_placements(
    left: Option<ObjectId>,
    right: Option<ObjectId>,
    geometry: SpreadGeometry,
)
    ensures
        ({
            let ops = spread_operations(left, right, geometry);
            let one = pdf_integer(1);
            let zero = pdf_integer(0);
            let left_count: int = if left is Some { 4 } else { 0 };
            &&& ops.len() == left_count + if right is Some { 4int } else { 0int }
            &&& left matches Some(form) ==> {
                &&& ops[0] == pdf_operation("q"@, seq![])
                &&& ops[1] == pdf_operation(
                    "cm"@,
                    seq![one, zero, zero, one, geometry.origin, geometry.origin],
                )
                &&& ops[2] == pdf_operation("Do"@, seq![pdf_name(xobject_name(form))])
                &&& ops[3] == pdf_operation("Q"@, seq![])
            }
            &&& right matches Some(form) ==> {
                &&& ops[left_count] == pdf_operation("q"@, seq![])
                &&& ops[left_count + 1] == pdf_operation(
                    "cm"@,
                    seq![one, zero, zero, one, geometry.right_offset, geometry.origin],
                )
                &&& ops[left_count + 2] == pdf_operation("Do"@, seq![pdf_name(xobject_name(form))])
                &&& ops[left_count + 3] == pdf_operation("Q"@, seq![])
            }
        }),
{
}

/// The content bytes of a spread page: its operations encoded, or nothing
/// when the encoder fails.
pub open spec fn spread_content(
    left: Option<ObjectId>,
    right: Option<ObjectId>,
    geometry: SpreadGeometry,
) -> Seq<u8> {
    match encoded_operations(spread_operations(left, right, geometry)) {
        Some(bytes) => bytes,
        None => Seq::<u8>::empty(),
    }
}

/// The `XObject` resources of a spread page name its forms.
pub open spec fn xobjects_match(
    xobjects: Dictionary,
    left: Option<ObjectId>,
    right: Option<ObjectId>,
) -> bool {
    &&& (left matches Some(form) ==> refers_entry(xobjects, xobject_name(form), form))
    &&& (right matches Some(form) ==> refers_entry(xobjects, xobject_name(form), form))
}

/// A spread page: of type `Page`, child of `parent`, with the spread box as
/// `MediaBox`, resources naming the two forms, and contents `content_id`,
/// a stream that draws them.
pub open spec fn spread_page_is(
    page: Option<Dictionary>,
    content: Option<(Dictionary, Seq<u8>)>,
    parent: ObjectId,
    content_id: ObjectId,
    left: Option<ObjectId>,
    right: Option<ObjectId>,
    geometry: SpreadGeometry,
) -> bool {
    &&& match page {
        Some(node) => {
            &&& names_entry(node, type_key(), page_word())
            &&& refers_entry(node, parent_key(), parent)
            &&& array_entry(node, media_box_key(), geometry.spread_media_box@)
            &&& refers_entry(node, contents_key(), content_id)
            &&& match dictionary_under(node, resources_key()) {
                Some(resources) => match dictionary_under(resources, xobject_word()) {
                    Some(xobjects) => xobjects_match(xobjects, left, right),
                    None => false,
                },
                None => false,
            }
        },
        None => false,
    }
    &&& match content {
        Some(stream) => stream.1 == spread_content(left, right, geometry),
        None => false,
    }
}

/// The page-tree node: of type `Pages`, counting `kids` and listing them in
/// order.
pub open spec fn pages_node_is(node: Option<Dictionary>, kids: Seq<ObjectId>) -> bool {
    match node {
        Some(pages) => {
            &&& names_entry(pages, type_key(), pages_word())
            &&& integer_entry(pages, count_key(), kids.len() as i64)
            &&& match dictionary_entry(pages, kids_key()) {
                Some(value) => match object_array(value) {
                    Some(items) => {
                        &&& items.len() == kids.len()
                        &&& forall|s: int|
                            0 <= s < kids.len() ==> object_reference(#[trigger] items[s]) == Some(
                                kids[s],
                            )
                    },
                    None => false,
                },
                None => false,
            }
        },
        None => false,
    }
}

/// The catalog: of type `Catalog`, with `pages_id` as its page tree.
pub open spec fn catalog_is(node: Option<Dictionary>, pages_id: ObjectId) -> bool {
    match node {
        Some(catalog) => {
            &&& names_entry(catalog, type_key(), catalog_word())
            &&& refers_entry(catalog, pages_word(), pages_id)
        },
        None => false,
    }
}

/// The form drawn on a half: the form of the page it shows, if any.
pub open spec fn half_form(half: Option<usize>, form_ids: Seq<ObjectId>) -> Option<ObjectId> {
    match half {
        Some(k) => Some(form_ids[k as int]),
        None => None,
    }
}

/// A half shows a page of a document of `pages` pages, or nothing.
pub open spec fn half_fits(half: Option<usize>, pages: int) -> bool {
    match half {
        Some(k) => k < pages,
        None => true,
    }
}

/// Every spread of `layout` shows pages of a document of `pages` pages.
pub open spec fn layout_fits(layout: Seq<Spread>, pages: int) -> bool {
    forall|s: int|
        0 <= s < layout.len() ==> half_fits((#[trigger] layout[s]).left, pages) && half_fits(
            layout[s].right,
            pages,
        )
}

/// The output document holds the booklet: a form per page source, a spread
/// page per spread of `layout` drawing the forms of its two halves, the new
/// page tree listing the spread pages in order, and a catalog that the
/// trailer's `Root` names.
pub open spec fn booklet_built(
    objects: Map<ObjectId, Object>,
    trailer: Dictionary,
    booklet: Booklet,
    sources: Seq<(Seq<u8>, Option<Dictionary>)>,
    layout: Seq<Spread>,
    geometry: SpreadGeometry,
) -> bool {
    &&& booklet.form_ids.len() == sources.len()
    &&& forall|k: int|
        0 <= k < sources.len() ==> form_is(
            stream_at(objects, #[trigger] booklet.form_ids[k]),
            sources[k],
            geometry.bbox@,
        )
    &&& booklet.spread_ids.len() == layout.len()
    &&& booklet.content_ids.len() == layout.len()
    &&& forall|s: int|
        0 <= s < layout.len() ==> spread_page_is(
            dictionary_at(objects, #[trigger] booklet.spread_ids[s]),
            stream_at(objects, booklet.content_ids[s]),
            booklet.pages_id,
            booklet.content_ids[s],
            half_form(layout[s].left, booklet.form_ids@),
            half_form(layout[s].right, booklet.form_ids@),
            geometry,
        )
    &&& pages_node_is(dictionary_at(objects, booklet.pages_id), booklet.spread_ids@)
    &&& catalog_is(dictionary_at(objects, booklet.catalog_id), booklet.pages_id)
    &&& refers_entry(trailer, root_key(), booklet.catalog_id)
}

/// A copy of `objects`.
fn clone_objects(objects: &Vec<Object>) -> (copy: Vec<Object>)
    ensures
        copy@ == objects@,
{
    let mut copy: Vec<Object> = Vec::new();
    let mut i: usize = 0;
    while i < objects.len()
        invariant
            i <= objects.len(),
            copy@ == objects@.take(i as int),
        decreases objects.len() - i,
    {
        copy.push(clone_object(&objects[i]));
        proof {
            assert(objects@.take(i + 1) =~= objects@.take(i as int).push(objects@[i as int]));
        }
        i += 1;
    }
    proof {
        assert(objects@.take(objects.len() as int) =~= objects@);
    }
    copy
}

/// Appends the operations that draw Form XObject `name` at `(x, y)`.
fn push_placement(operations: &mut Vec<Operation>, name: Vec<u8>, x: Object, y: Object)
    ensures
        final(operations)@ == old(operations)@ + placement(name@, x, y),
{
    let ghost drawn = name@;
    let ghost before = operations@;
    let save_operands: Vec<Object> = Vec::new();
    let save = new_operation("q", save_operands);
    let operands: Vec<Object> = vec![
        integer_object(1),
        integer_object(0),
        integer_object(0),
        integer_object(1),
        x,
        y,
    ];
    proof {
        assert(operands@ =~= seq![pdf_integer(1), pdf_integer(0), pdf_integer(0), pdf_integer(1), x, y]);
    }
    let translate = new_operation("cm", operands);
    let name_operand: Vec<Object> = vec![name_object(name)];
    proof {
        assert(name_operand@ =~= seq![pdf_name(drawn)]);
    }
    let draw = new_operation("Do", name_operand);
    let restore_operands: Vec<Object> = Vec::new();
    let restore = new_operation("Q", restore_operands);
    operations.push(save);
    operations.push(translate);
    operations.push(draw);
    operations.push(restore);
    proof {
        assert(operations@ =~= before + placement(drawn, x, y));
    }
}

/// The Form XObject of a page: a stream of the page's content whose
/// dictionary makes it a form with the page box and the page's resources.
fn form_xobject(source: PageSource, bbox: &Vec<Object>) -> (form: Object)
    ensures
        form_is(object_stream(form), source_view(source), bbox@),
{
    let ghost view = source_view(source);
    let mut dictionary = new_dictionary();
    dictionary_set(&mut dictionary, type_key_bytes(), name_object(xobject_word_bytes()));
    dictionary_set(&mut dictionary, subtype_key_bytes(), name_object(form_word_bytes()));
    dictionary_set(&mut dictionary, form_type_key_bytes(), integer_object(1));
    dictionary_set(&mut dictionary, bbox_key_bytes(), array_object(clone_objects(bbox)));
    let resources = match source.resources {
        Some(resources) => resources,
        None => new_dictionary(),
    };
    dictionary_set(&mut dictionary, resources_key_bytes(), dictionary_object(resources));
    let form = stream_object(dictionary, source.content);
    proof {
        assert(type_key() != length_key());
        assert(subtype_key() != length_key());
        assert(form_type_key() != length_key());
        assert(bbox_key() != length_key());
        assert(resources_key() != length_key());
    }
    form
}

/// Adds one spread page: its content stream, which draws the left form at
/// the origin and the right form one page width further, then the page,
/// whose resources name the two forms. Returns the identifiers of the
/// content stream and of the page; no other object changes.
fn add_spread_page(
    document: &mut Document,
    parent: ObjectId,
    left: Option<ObjectId>,
    right: Option<ObjectId>,
    geometry: &SpreadGeometry,
) -> (ids: (ObjectId, ObjectId))
    requires
        document_max_id(*old(document)) + 2 <= u32::MAX,
        left matches Some(form) ==> form.1 == 0,
        right matches Some(form) ==> form.1 == 0,
    ensures
        ids.0.0 == document_max_id(*old(document)) + 1,
        ids.0.1 == 0,
        ids.1.0 == document_max_id(*old(document)) + 2,
        ids.1.1 == 0,
        document_max_id(*final(document)) == document_max_id(*old(document)) + 2,
        document_trailer(*final(document)) == document_trailer(*old(document)),
        forall|id: ObjectId|
            #![trigger stream_at(document_objects(*final(document)), id)]
            #![trigger dictionary_at(document_objects(*final(document)), id)]
            id != ids.0 && id != ids.1 ==> stream_at(document_objects(*final(document)), id)
                == stream_at(document_objects(*old(document)), id) && dictionary_at(
                document_objects(*final(document)),
                id,
            ) == dictionary_at(document_objects(*old(document)), id),
        spread_page_is(
            dictionary_at(document_objects(*final(document)), ids.1),
            stream_at(document_objects(*final(document)), ids.0),
            parent,
            ids.0,
            left,
            right,
            *geometry,
        ),
{
    let mut operations: Vec<Operation> = Vec::new();
    let mut xobjects = new_dictionary();
    if let Some(form) = left {
        dictionary_set(&mut xobjects, xobject_name_bytes(form), reference_object(form));
        push_placement(
            &mut operations,
            xobject_name_bytes(form),
            clone_object(&geometry.origin),
            clone_object(&geometry.origin),
        );
    }
    if let Some(form) = right {
        proof {
            if let Some(other) = left {
                if other != form {
                    lemma_xobject_names_differ(other, form);
                }
            }
        }
        dictionary_set(&mut xobjects, xobject_name_bytes(form), reference_object(form));
        push_placement(
            &mut operations,
            xobject_name_bytes(form),
            clone_object(&geometry.right_offset),
            clone_object(&geometry.origin),
        );
    }
    proof {
        assert(operations@ =~= spread_operations(left, right, *geometry));
    }
    let mut resources = new_dictionary();
    dictionary_set(&mut resources, xobject_word_bytes(), dictionary_object(xobjects));
    let content: Vec<u8> = match encode_operations(operations) {
        Some(bytes) => bytes,
        None => Vec::new(),
    };
    let content_id = add_object(document, stream_object(new_dictionary(), content));
    let mut page = new_dictionary();
    dictionary_set(&mut page, type_key_bytes(), name_object(page_word_bytes()));
    dictionary_set(&mut page, parent_key_bytes(), reference_object(parent));
    dictionary_set(
        &mut page,
        media_box_key_bytes(),
        array_object(clone_objects(&geometry.spread_media_box)),
    );
    dictionary_set(&mut page, resources_key_bytes(), dictionary_object(resources));
    dictionary_set(&mut page, contents_key_bytes(), reference_object(content_id));
    let page_id = add_object(document, dictionary_object(page));
    (content_id, page_id)
}

/// Builds the booklet in `document`: a Form XObject for each page source,
/// in order; then, for each spread of `layout` in order, a spread page that
/// draws the forms of the pages on its two halves; then the new page tree
/// listing those pages, and a new catalog that the trailer's `Root` names.
/// Object numbers are handed out one after another from the document's
/// `max_id`, which must leave room for all of them.
pub fn assemble_booklet(
    document: &mut Document,
    sources: Vec<PageSource>,
    layout: &Vec<Spread>,
    geometry: &SpreadGeometry,
) -> (booklet: Booklet)
    requires
        layout_fits(layout@, sources.len() as int),
        document_max_id(*old(document)) + sources.len() + 2 * layout.len() + 2 <= u32::MAX,
    ensures
        booklet_built(
            document_objects(*final(document)),
            document_trailer(*final(document)),
            booklet,
            sources@.map_values(|source: PageSource| source_view(source)),
            layout@,
            *geometry,
        ),
{
    let ghost all = sources@;
    let ghost views = sources@.map_values(|source: PageSource| source_view(source));
    let ghost m0: int = document_max_id(*document) as int;
    let count = sources.len();
    let mut rest = sources;
    let mut form_ids: Vec<ObjectId> = Vec::new();
    let mut k: usize = 0;
    while k < count
        invariant
            k <= count,
            count == all.len(),
            views == all.map_values(|source: PageSource| source_view(source)),
            rest@ == all.skip(k as int),
            m0 + count + 2 * layout.len() + 2 <= u32::MAX,
            document_max_id(*document) == m0 + k,
            form_ids.len() == k,
            forall|j: int| 0 <= j < k ==> (#[trigger] form_ids[j]).0 == m0 + 1 + j && form_ids[j].1 == 0,
            forall|j: int|
                0 <= j < k ==> form_is(
                    stream_at(document_objects(*document), #[trigger] form_ids[j]),
                    views[j],
                    geometry.bbox@,
                ),
        decreases count - k,
    {
        proof {
            assert(rest@.len() == count - k);
        }
        let source = rest.remove(0);
        proof {
            assert(source == all[k as int]);
            assert(rest@ =~= all.skip(k + 1));
        }
        let form = form_xobject(source, &geometry.bbox);
        let ghost before = document_objects(*document);
        let id = add_object(document, form);
        proof {
            assert forall|j: int| 0 <= j < k implies stream_at(document_objects(*document), form_ids[j])
                == stream_at(before, form_ids[j]) by {
                assert(form_ids[j] != id);
            }
        }
        form_ids.push(id);
        k += 1;
    }
    let pages_id = new_object_id(document);
    let spreads = layout.len();
    let mut content_ids: Vec<ObjectId> = Vec::new();
    let mut spread_ids: Vec<ObjectId> = Vec::new();
    let mut s: usize = 0;
    while s < spreads
        invariant
            s <= spreads,
            spreads == layout.len(),
            count == all.len(),
            layout_fits(layout@, count as int),
            m0 + count + 2 * layout.len() + 2 <= u32::MAX,
            pages_id.0 == m0 + count + 1,
            pages_id.1 == 0,
            document_max_id(*document) == m0 + count + 1 + 2 * s,
            form_ids.len() == count,
            forall|j: int|
                0 <= j < count ==> (#[trigger] form_ids[j]).0 == m0 + 1 + j && form_ids[j].1 == 0,
            forall|j: int|
                0 <= j < count ==> form_is(
                    stream_at(document_objects(*document), #[trigger] form_ids[j]),
                    views[j],
                    geometry.bbox@,
                ),
            content_ids.len() == s,
            spread_ids.len() == s,
            forall|t: int|
                0 <= t < s ==> (#[trigger] content_ids[t]).0 == m0 + count + 2 + 2 * t
                    && content_ids[t].1 == 0,
            forall|t: int|
                0 <= t < s ==> (#[trigger] spread_ids[t]).0 == m0 + count + 3 + 2 * t
                    && spread_ids[t].1 == 0,
            forall|t: int|
                0 <= t < s ==> spread_page_is(
                    dictionary_at(document_objects(*document), #[trigger] spread_ids[t]),
                    stream_at(document_objects(*document), content_ids[t]),
                    pages_id,
                    content_ids[t],
                    half_form(layout[t].left, form_ids@),
                    half_form(layout[t].right, form_ids@),
                    *geometry,
                ),
        decreases spreads - s,
    {
        let spread = layout[s];
        proof {
            assert(half_fits(layout@[s as int].left, count as int));
            assert(half_fits(layout@[s as int].right, count as int));
        }
        let left = match spread.left {
            Some(i) => Some(form_ids[i]),
            None => None,
        };
        let right = match spread.right {
            Some(i) => Some(form_ids[i]),
            None => None,
        };
        let ghost before = document_objects(*document);
        let (content_id, page_id) = add_spread_page(document, pages_id, left, right, geometry);
        proof {
            assert forall|j: int| 0 <= j < count implies stream_at(
                document_objects(*document),
                form_ids[j],
            ) == stream_at(before, form_ids[j]) by {
                assert(form_ids[j] != content_id && form_ids[j] != page_id);
            }
            assert forall|t: int| 0 <= t < s implies dictionary_at(
                document_objects(*document),
                spread_ids[t],
            ) == dictionary_at(before, spread_ids[t]) && stream_at(
                document_objects(*document),
                content_ids[t],
            ) == stream_at(before, content_ids[t]) by {
                assert(spread_ids[t] != content_id && spread_ids[t] != page_id);
                assert(content_ids[t] != content_id && content_ids[t] != page_id);
            }
        }
        content_ids.push(content_id);
        spread_ids.push(page_id);
        s += 1;
    }
    let mut kids: Vec<Object> = Vec::new();
    let mut t: usize = 0;
    while t < spreads
        invariant
            t <= spreads,
            spread_ids.len() == spreads,
            kids.len() == t,
            forall|u: int| 0 <= u < t ==> object_reference(#[trigger] kids[u]) == Some(spread_ids[u]),
        decreases spreads - t,
    {
        kids.push(reference_object(spread_ids[t]));
        t += 1;
    }
    let mut node = new_dictionary();
    dictionary_set(&mut node, type_key_bytes(), name_object(pages_word_bytes()));
    dictionary_set(&mut node, count_key_bytes(), integer_object(spreads as i64));
    dictionary_set(&mut node, kids_key_bytes(), array_object(kids));
    let ghost before_pages = document_objects(*document);
    insert_object(document, pages_id, dictionary_object(node));
    let mut catalog = new_dictionary();
    dictionary_set(&mut catalog, type_key_bytes(), name_object(catalog_word_bytes()));
    dictionary_set(&mut catalog, pages_word_bytes(), reference_object(pages_id));
    let catalog_id = add_object(document, dictionary_object(catalog));
    proof {
        assert forall|j: int| 0 <= j < count implies stream_at(
            document_objects(*document),
            form_ids[j],
        ) == stream_at(before_pages, form_ids[j]) by {
            assert(form_ids[j] != pages_id && form_ids[j] != catalog_id);
        }
        assert forall|u: int| 0 <= u < spreads implies dictionary_at(
            document_objects(*document),
            spread_ids[u],
        ) == dictionary_at(before_pages, spread_ids[u]) && stream_at(
            document_objects(*document),
            content_ids[u],
        ) == stream_at(before_pages, content_ids[u]) by {
            assert(spread_ids[u] != pages_id && spread_ids[u] != catalog_id);
            assert(content_ids[u] != pages_id && content_ids[u] != catalog_id);
        }
        assert(pages_id != catalog_id);
    }
    set_trailer_entry(document, root_key_bytes(), reference_object(catalog_id));
    Booklet { form_ids, content_ids, spread_ids, pages_id, catalog_id }
}

/// Whether page `id` of `document` is shown as stored (see `is_upright`),
/// by the rotation it has or inherits.
pub open spec fn page_upright(document: Document, id: ObjectId) -> bool {
    is_upright(inherited_rotation(document, id, tree_walk_limit(document_object_count(document))))
}

/// Whether page `id` can go into the booklet: it is upright and its content
/// stays within `MAX_PAGE_CONTENT_BYTES`.
pub open spec fn page_readable(document: Document, id: ObjectId) -> bool {
    page_upright(document, id) && limited_page_content(document, id, MAX_PAGE_CONTENT_BYTES) is Some
}

/// Why page `id` cannot go into the booklet: its rotation, else its size.
pub open spec fn page_failure(document: Document, id: ObjectId) -> SaddleStitchError {
    if !page_upright(document, id) {
        SaddleStitchError::Rotated
    } else {
        SaddleStitchError::ContentTooLarge
    }
}

/// What page `id` contributes: its bounded content and its own resources.
pub open spec fn page_source(document: Document, id: ObjectId) -> (Seq<u8>, Option<Dictionary>) {
    (
        match limited_page_content(document, id, MAX_PAGE_CONTENT_BYTES) {
            Some(content) => content,
            None => Seq::<u8>::empty(),
        },
        page_own_resources(document, id),
    )
}

/// The first page of `page_ids` that cannot go into the booklet is the
/// `k`-th, and `error` says why.
pub open spec fn first_failure(
    document: Document,
    page_ids: Seq<ObjectId>,
    k: int,
    error: SaddleStitchError,
) -> bool {
    &&& 0 <= k < page_ids.len()
    &&& forall|j: int| 0 <= j < k ==> page_readable(document, #[trigger] page_ids[j])
    &&& !page_readable(document, page_ids[k])
    &&& error == page_failure(document, page_ids[k])
}

/// Reads every page in order, checking its rotation and then its content:
/// the sources of all pages, or the error of the first page that fails.
pub fn read_pages(document: &Document, page_ids: &Vec<ObjectId>) -> (r: Result<
    Vec<PageSource>,
    SaddleStitchError,
>)
    ensures
        match r {
            Ok(sources) => {
                &&& forall|k: int|
                    0 <= k < page_ids.len() ==> page_readable(*document, #[trigger] page_ids[k])
                &&& sources@.map_values(|source: PageSource| source_view(source))
                    == page_ids@.map_values(|id: ObjectId| page_source(*document, id))
            },
            Err(e) => exists|k: int| first_failure(*document, page_ids@, k, e),
        },
{
    let mut sources: Vec<PageSource> = Vec::new();
    let mut k: usize = 0;
    while k < page_ids.len()
        invariant
            k <= page_ids.len(),
            sources.len() == k,
            forall|j: int| 0 <= j < k ==> page_readable(*document, #[trigger] page_ids[j]),
            forall|j: int|
                0 <= j < k ==> source_view(#[trigger] sources[j]) == page_source(
                    *document,
                    page_ids[j],
                ),
        decreases page_ids.len() - k,
    {
        let id = page_ids[k];
        if check_rotation(page_rotation(document, id)).is_err() {
            proof {
                assert(first_failure(*document, page_ids@, k as int, SaddleStitchError::Rotated));
            }
            return Err(SaddleStitchError::Rotated);
        }
        let content = match page_content(document, id) {
            Ok(content) => content,
            Err(e) => {
                proof {
                    assert(first_failure(*document, page_ids@, k as int, e));
                }
                return Err(e);
            },
        };
        let resources = page_resources(document, id);
        sources.push(PageSource { content, resources });
        k += 1;
    }
    proof {
        assert(sources@.map_values(|source: PageSource| source_view(source)) =~= page_ids@.map_values(
            |id: ObjectId| page_source(*document, id),
        ));
    }
    Ok(sources)
}

/// A document read for conversion: its pages, the spreads they go on, and
/// the page-tree node whose `MediaBox` gives the page size.
pub struct Prepared {
    pub document: Document,
    pub page_ids: Vec<ObjectId>,
    pub layout: Vec<Spread>,
    pub media_box_owner: ObjectId,
}

/// The first steps of the conversion, in order: load the input (`Load`),
/// lay out the spreads (`Empty` for a document without pages), and find
/// the node that gives the first page's size (`MissingMediaBox`).
pub fn prepare_conversion(input: &[u8], direction: Direction) -> (r: Result<
    Prepared,
    SaddleStitchError,
>)
    ensures
        (r matches Err(e) && e == SaddleStitchError::Load) <==> !pdf_parses(input@),
        match r {
            Ok(prepared) => {
                &&& prepared.page_ids@ == document_page_ids(prepared.document)
                &&& prepared.page_ids.len() >= 1
                &&& prepared.layout.len() * 2 == padded_len(prepared.page_ids.len() as nat)
                &&& forall|s: int|
                    0 <= s < prepared.layout.len() ==> {
                        &&& #[trigger] prepared.layout[s].left == slot_content(
                            prepared.page_ids.len() as nat,
                            direction,
                            2 * s,
                        )
                        &&& prepared.layout[s].right == slot_content(
                            prepared.page_ids.len() as nat,
                            direction,
                            2 * s + 1,
                        )
                    }
                &&& layout_fits(prepared.layout@, prepared.page_ids.len() as int)
                &&& media_box_node(
                    prepared.document,
                    prepared.page_ids[0],
                    tree_walk_limit(document_object_count(prepared.document)),
                ) == Some(prepared.media_box_owner)
            },
            Err(e) => e == SaddleStitchError::Load || e == SaddleStitchError::Empty || e
                == SaddleStitchError::MissingMediaBox,
        },
{
    let loaded = open_document(input)?;
    let document = loaded.document;
    let page_ids = loaded.page_ids;
    let layout = spread_layout(page_ids.len(), direction)?;
    let media_box_owner = media_box_owner(&document, page_ids[0])?;
    proof {
        assert forall|s: int| 0 <= s < layout.len() implies half_fits(
            (#[trigger] layout@[s]).left,
            page_ids.len() as int,
        ) && half_fits(layout@[s].right, page_ids.len() as int) by {
            assert(layout[s].left == slot_content(page_ids.len() as nat, direction, 2 * s));
            assert(layout[s].right == slot_content(page_ids.len() as nat, direction, 2 * s + 1));
        }
    }
    Ok(Prepared { document, page_ids, layout, media_box_owner })
}

/// How many object numbers the booklet of `pages` pages on `spreads`
/// spreads takes: a form per page, a content stream and a page per spread,
/// the page tree and the catalog.
pub open spec fn booklet_object_count(pages: int, spreads: int) -> int {
    pages + 2 * spreads + 2
}

/// The rest of the conversion, in order: read every page (`Rotated`,
/// `ContentTooLarge`, for the first page that fails), assemble the booklet
/// with the given geometry, then compress and save it (`Save`). Returns
/// `None`, with nothing built, when the document's object numbers would run
/// out before the booklet is complete.
pub fn convert_prepared(prepared: Prepared, geometry: &SpreadGeometry) -> (r: Option<
    Result<Vec<u8>, SaddleStitchError>,
>)
    requires
        layout_fits(prepared.layout@, prepared.page_ids.len() as int),
    ensures
        ({
            let document = prepared.document;
            let page_ids = prepared.page_ids@;
            let all_readable = forall|k: int|
                0 <= k < page_ids.len() ==> page_readable(document, #[trigger] page_ids[k]);
            let room = document_max_id(document) + booklet_object_count(
                page_ids.len() as int,
                prepared.layout.len() as int,
            ) <= u32::MAX;
            let sources = page_ids.map_values(|id: ObjectId| page_source(document, id));
            match r {
                None => all_readable && !room,
                Some(Err(e)) => (exists|k: int| first_failure(document, page_ids, k, e)) || (
                all_readable && room && e == SaddleStitchError::Save && exists|
                    output: Document,
                    booklet: Booklet,
                |
                    #![trigger booklet_built(document_objects(output), document_trailer(output), booklet, sources, prepared.layout@, *geometry)]
                    booklet_built(
                        document_objects(output),
                        document_trailer(output),
                        booklet,
                        sources,
                        prepared.layout@,
                        *geometry,
                    ) && saved_pdf(compressed_document(output)) is None),
                Some(Ok(bytes)) => {
                    &&& all_readable
                    &&& room
                    &&& exists|output: Document, booklet: Booklet|
                        #![trigger booklet_built(document_objects(output), document_trailer(output), booklet, sources, prepared.layout@, *geometry)]
                        booklet_built(
                            document_objects(output),
                            document_trailer(output),
                            booklet,
                            sources,
                            prepared.layout@,
                            *geometry,
                        ) && saved_pdf(compressed_document(output)) == Some(bytes@)
                    &&& bytes@.len() >= 5
                    &&& bytes@.subrange(0, 5) == pdf_header()
                },
            }
        }),
{
    let Prepared { mut document, page_ids, layout, media_box_owner: _ } = prepared;
    let sources = match read_pages(&document, &page_ids) {
        Ok(sources) => sources,
        Err(e) => {
            return Some(Err(e));
        },
    };
    let max_id = max_object_id(&document);
    let needed: u128 = (page_ids.len() as u128) + 2 * (layout.len() as u128) + 2;
    if (max_id as u128) + needed > (u32::MAX as u128) {
        return None;
    }
    proof {
        assert(sources.len() == page_ids.len()) by {
            assert(sources@.map_values(|source: PageSource| source_view(source)).len()
                == page_ids@.map_values(|id: ObjectId| page_source(document, id)).len());
        }
    }
    let _booklet = assemble_booklet(&mut document, sources, &layout, geometry);
    match finish_document(&mut document) {
        Ok(bytes) => Some(Ok(bytes)),
        Err(e) => Some(Err(e)),
    }
}

} // verus!
