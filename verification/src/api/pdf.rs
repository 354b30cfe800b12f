//! The saddle-stitch conversion endpoint: reading the upload form and
//! answering with the converted PDF.

use vstd::prelude::*;

use crate::error::AppError;
use crate::pdf::saddle_stitch::Direction;
use crate::pdf::SaddleStitchError;
use crate::text::{chars_of, concat2, concat3, push_char, str_eq};

verus! {

broadcast use vstd::string::group_string_axioms;

/// The message for a form without its `file` field.
pub open spec fn missing_file_message() -> Seq<char> {
    "fileフィールドが必要です"@
}

/// The message for a form without its `direction` field.
pub open spec fn missing_direction_message() -> Seq<char> {
    "directionフィールドが必要です"@
}

/// The message for a `direction` field other than `left` or `right`.
pub open spec fn invalid_direction_message(text: Seq<char>) -> Seq<char> {
    "directionは left か right を指定してください (受け取った値: \""@ + text + "\")"@
}

/// Reads the `direction` form field: `left` or `right`, anything else is a
/// bad request that quotes the value received.
pub fn parse_direction(text: &str) -> (r: Result<Direction, AppError>)
    ensures
        text@ == "left"@ ==> r == Ok::<Direction, AppError>(Direction::Left),
        text@ == "right"@ ==> r == Ok::<Direction, AppError>(Direction::Right),
        text@ != "left"@ && text@ != "right"@ ==> (r matches Err(AppError::BadRequest { message })
            && message@ == invalid_direction_message(text@)),
{
    proof {
        reveal_strlit("left");
        reveal_strlit("right");
        assert("left"@.len() != "right"@.len());
    }
    if str_eq(text, "left") {
        Ok(Direction::Left)
    } else if str_eq(text, "right") {
        Ok(Direction::Right)
    } else {
        Err(
            AppError::BadRequest {
                message: concat3(
                    "directionは left か right を指定してください (受け取った値: \"",
                    text,
                    "\")",
                ),
            },
        )
    }
}

/// A field of the upload form, as read from the multipart body.
pub enum FormField {
    /// The `file` field: the file name the browser sent, if any, and the bytes.
    File { file_name: Option<String>, bytes: Vec<u8> },
    /// The `direction` field, read as text.
    Direction { text: String },
    /// Any other field; its content is not read.
    Other,
}

/// The upload form as read so far. A later field of the same name replaces
/// an earlier one.
pub struct UploadForm {
    pub file: Option<Vec<u8>>,
    pub file_name: Option<String>,
    pub direction: Option<Direction>,
}

/// A complete upload: the PDF, its file name and the opening direction.
pub struct Upload {
    pub file: Vec<u8>,
    pub file_name: Option<String>,
    pub direction: Direction,
}

impl UploadForm {
    /// A form of which no field has been read.
    pub fn new() -> (form: UploadForm)
        ensures
            form.file is None,
            form.file_name is None,
            form.direction is None,
    {
        UploadForm { file: None, file_name: None, direction: None }
    }

    /// Takes in the next field: a `file` field replaces the file and its
    /// name, a `direction` field is parsed (a bad value ends the form with
    /// its error), any other field is ignored.
    pub fn accept(self, field: FormField) -> (r: Result<UploadForm, AppError>)
        ensures
            match field {
                FormField::File { file_name, bytes } => r matches Ok(form) && form.file == Some(bytes)
                    && form.file_name == file_name && form.direction == self.direction,
                FormField::Direction { text } => {
                    &&& text@ == "left"@ ==> (r matches Ok(form) && form.direction == Some(
                        Direction::Left,
                    ) && form.file == self.file && form.file_name == self.file_name)
                    &&& text@ == "right"@ ==> (r matches Ok(form) && form.direction == Some(
                        Direction::Right,
                    ) && form.file == self.file && form.file_name == self.file_name)
                    &&& text@ != "left"@ && text@ != "right"@ ==> (r matches Err(
                        AppError::BadRequest { message },
                    ) && message@ == invalid_direction_message(text@))
                },
                FormField::Other => r matches Ok(form) && form.file == self.file && form.file_name
                    == self.file_name && form.direction == self.direction,
            },
    {
        match field {
            FormField::File { file_name, bytes } => Ok(
                UploadForm { file: Some(bytes), file_name, direction: self.direction },
            ),
            FormField::Direction { text } => {
                let direction = parse_direction(text.as_str())?;
                Ok(UploadForm { file: self.file, file_name: self.file_name, direction: Some(direction) })
            },
            FormField::Other => Ok(self),
        }
    }

    /// Ends the form: both the file and the direction must have been sent;
    /// a missing file is reported before a missing direction.
    pub fn finish(self) -> (r: Result<Upload, AppError>)
        ensures
            self.file is None ==> (r matches Err(AppError::BadRequest { message }) && message@
                == missing_file_message()),
            self.file is Some && self.direction is None ==> (r matches Err(
                AppError::BadRequest { message },
            ) && message@ == missing_direction_message()),
            self.file is Some && self.direction is Some ==> (r matches Ok(upload) && Some(upload.file)
                == self.file && upload.file_name == self.file_name && Some(upload.direction)
                == self.direction),
    {
        let file = match self.file {
            Some(file) => file,
            None => {
                return Err(AppError::BadRequest { message: String::from_str("fileフィールドが必要です") });
            },
        };
        let direction = match self.direction {
            Some(direction) => direction,
            None => {
                return Err(
                    AppError::BadRequest { message: String::from_str("directionフィールドが必要です") },
                );
            },
        };
        Ok(Upload { file, file_name: self.file_name, direction })
    }
}

/// Whether a character of the file name is kept in the plain `filename=`
/// fallback: printable ASCII other than `"` and `\`.
pub open spec fn kept_in_fallback(c: char) -> bool {
    &&& (c as u32) < 0x80
    &&& 0x20 <= (c as u32)
    &&& (c as u32) != 0x7f
    &&& c != '"'
    &&& c != '\\'
}

/// The characters of `name` that are kept in the fallback, in order.
pub open spec fn fallback_chars(name: Seq<char>) -> Seq<char>
    decreases name.len(),
{
    if name.len() == 0 {
        seq![]
    } else {
        let rest = fallback_chars(name.drop_last());
        if kept_in_fallback(name.last()) {
            rest.push(name.last())
        } else {
            rest
        }
    }
}

/// The plain `filename=` value: the kept characters of the name, or
/// `output.pdf` when none is kept.
pub open spec fn ascii_fallback(file_name: Seq<char>) -> Seq<char> {
    let kept = fallback_chars(file_name);
    if kept.len() == 0 {
        "output.pdf"@
    } else {
        kept
    }
}

/// Whether a byte of the UTF-8 file name is written percent-encoded in
/// `filename*=`: every non-ASCII byte, the controls, and the characters that
/// RFC 5987 does not allow in an attribute value.
pub open spec fn needs_percent_encoding(b: u8) -> bool {
    ||| b >= 0x80
    ||| b < 0x20
    ||| b == 0x7f
    ||| b == 0x20
    ||| b == 0x22
    ||| b == 0x25
    ||| b == 0x27
    ||| b == 0x28
    ||| b == 0x29
    ||| b == 0x2a
    ||| b == 0x2c
    ||| b == 0x2f
    ||| b == 0x3a
    ||| b == 0x3b
    ||| b == 0x3c
    ||| b == 0x3d
    ||| b == 0x3e
    ||| b == 0x3f
    ||| b == 0x5b
    ||| b == 0x5c
    ||| b == 0x5d
    ||| b == 0x7b
    ||| b == 0x7d
}

/// The upper-case hexadecimal digit of `d` (`0 <= d < 16`).
pub open spec fn hex_digit(d: int) -> char {
    if d < 10 {
        (48 + d) as char
    } else {
        (55 + d) as char
    }
}

/// `%XX`, the percent-encoding of one byte.
pub open spec fn percent_byte(b: u8) -> Seq<char> {
    seq!['%', hex_digit(b as int / 16), hex_digit(b as int % 16)]
}

/// The `filename*=` value of a UTF-8 byte sequence.
pub open spec fn percent_encoded(bytes: Seq<u8>) -> Seq<char>
    decreases bytes.len(),
{
    if bytes.len() == 0 {
        seq![]
    } else {
        percent_encoded(bytes.drop_last()) + if needs_percent_encoding(bytes.last()) {
            percent_byte(bytes.last())
        } else {
            seq![bytes.last() as char]
        }
    }
}

/// The `Content-Disposition` header value for downloading a file named
/// `file_name`.
pub open spec fn content_disposition_value(file_name: Seq<char>) -> Seq<char> {
    "attachment; filename=\""@ + ascii_fallback(file_name) + "\"; filename*=UTF-8''"@
        + percent_encoded(vstd::utf8::encode_utf8(file_name))
}

/// `percent_encoding::percent_encode_byte`: the three characters `%XX` with
/// the byte in upper-case hexadecimal, as its lookup table spells out.
pub assume_specification[ percent_encoding::percent_encode_byte ](byte: u8) -> (s: &'static str)
    ensures
        s@ == percent_byte(byte),
;

/// The plain fallback file name: the printable ASCII characters of the name
/// other than `"` and `\` (which would break the quoted string), or
/// `output.pdf` when none is left.
fn ascii_fallback_name(file_name: &str) -> (s: String)
    ensures
        s@ == ascii_fallback(file_name@),
{
    let chars = chars_of(file_name);
    let mut kept = String::new();
    for i in 0..chars.len()
        invariant
            chars@ == file_name@,
            kept@ == fallback_chars(chars@.take(i as int)),
    {
        let c = chars[i];
        proof {
            let t = chars@.take(i + 1);
            assert(t.drop_last() =~= chars@.take(i as int));
            assert(t.last() == c);
        }
        if (c as u32) < 0x80 && 0x20 <= (c as u32) && (c as u32) != 0x7f && c != '"' && c != '\\' {
            push_char(&mut kept, c);
        }
    }
    proof {
        assert(chars@.take(chars@.len() as int) =~= chars@);
    }
    if kept.as_str().is_empty() {
        String::from_str("output.pdf")
    } else {
        kept
    }
}

/// Whether a byte is percent-encoded in `filename*=`.
fn byte_needs_encoding(b: u8) -> (r: bool)
    ensures
        r == needs_percent_encoding(b),
{
    // space " % ' ( ) * , / : ; < = > ? [ \ ] { }
    b >= 0x80 || b < 0x20 || b == 0x7f || b == 0x20 || b == 0x22 || b == 0x25 || b == 0x27
        || b == 0x28 || b == 0x29 || b == 0x2a || b == 0x2c || b == 0x2f || b == 0x3a || b == 0x3b
        || b == 0x3c || b == 0x3d || b == 0x3e || b == 0x3f || b == 0x5b || b == 0x5c || b == 0x5d
        || b == 0x7b || b == 0x7d
}

/// Appends the RFC 5987 percent-encoding of the UTF-8 bytes of `file_name`.
fn append_percent_encoded(out: &mut String, file_name: &str)
    ensures
        final(out)@ == old(out)@ + percent_encoded(vstd::utf8::encode_utf8(file_name@)),
{
    let bytes = file_name.as_bytes();
    let ghost start = out@;
    for i in 0..bytes.len()
        invariant
            bytes@ == vstd::utf8::encode_utf8(file_name@),
            out@ == start + percent_encoded(bytes@.take(i as int)),
    {
        proof {
            assert(bytes@.take(i + 1).drop_last() =~= bytes@.take(i as int));
        }
        let b = bytes[i];
        if byte_needs_encoding(b) {
            out.append(percent_encoding::percent_encode_byte(b));
        } else {
            push_char(out, b as char);
        }
        proof {
            assert(out@ =~= start + percent_encoded(bytes@.take(i + 1)));
        }
    }
    proof {
        assert(bytes@.take(bytes@.len() as int) =~= bytes@);
    }
}

/// The `Content-Disposition` header for downloading `file_name`: a plain
/// `filename=` fallback for old clients and the RFC 5987
/// `filename*=UTF-8''<percent-encoded>` form.
pub fn content_disposition(file_name: &str) -> (header: String)
    ensures
        header@ == content_disposition_value(file_name@),
{
    let fallback = ascii_fallback_name(file_name);
    let mut header = concat3("attachment; filename=\"", fallback.as_str(), "\"; filename*=UTF-8''");
    append_percent_encoded(&mut header, file_name);
    header
}

/// The name offered for the converted file: `(製本版)` before the uploaded
/// name, or before `output.pdf` when the browser sent none.
pub open spec fn download_name_of(file_name: Option<String>) -> Seq<char> {
    match file_name {
        Some(name) => "(製本版)"@ + name@,
        None => "(製本版)"@ + "output.pdf"@,
    }
}

/// The name offered for the converted file.
pub fn download_name(file_name: Option<String>) -> (name: String)
    ensures
        name@ == download_name_of(file_name),
{
    match file_name {
        Some(name) => concat2("(製本版)", name.as_str()),
        None => concat2("(製本版)", "output.pdf"),
    }
}

/// A successful conversion as it is sent: a PDF offered for download.
pub struct PdfDownload {
    pub content_type: String,
    pub content_disposition: String,
    pub body: Vec<u8>,
}

/// Answers a conversion: the converted bytes as a PDF attachment named after
/// the upload, or the conversion error as an unprocessable upload.
pub fn conversion_response(
    converted: Result<Vec<u8>, SaddleStitchError>,
    file_name: Option<String>,
) -> (r: Result<PdfDownload, AppError>)
    ensures
        match converted {
            Ok(bytes) => r matches Ok(download) && download.body == bytes
                && download.content_type@ == "application/pdf"@ && download.content_disposition@
                == content_disposition_value(download_name_of(file_name)),
            Err(e) => r matches Err(AppError::PdfProcessing { message }) && message@
                == e.spec_message(),
        },
{
    match converted {
        Ok(bytes) => {
            let name = download_name(file_name);
            Ok(
                PdfDownload {
                    content_type: String::from_str("application/pdf"),
                    content_disposition: content_disposition(name.as_str()),
                    body: bytes,
                },
            )
        },
        Err(e) => Err(AppError::PdfProcessing { message: String::from_str(e.message()) }),
    }
}

/// The value of a hexadecimal digit (`0-9`, `A-F`).
pub open spec fn hex_value(c: char) -> int {
    if '0' <= c && c <= '9' {
        c as int - 48
    } else if 'A' <= c && c <= 'F' {
        c as int - 55
    } else {
        0
    }
}

/// How a recipient reads a `filename*=` value back into bytes: `%XX` is the
/// byte with hexadecimal value `XX`, any other character is its own code.
pub open spec fn percent_decoded(s: Seq<char>) -> Seq<u8>
    decreases s.len(),
{
    if s.len() == 0 {
        seq![]
    } else if s[0] == '%' && s.len() >= 3 {
        seq![(hex_value(s[1]) * 16 + hex_value(s[2])) as u8] + percent_decoded(
            s.subrange(3, s.len() as int),
        )
    } else {
        seq![s[0] as u8] + percent_decoded(s.subrange(1, s.len() as int))
    }
}

/// The piece that encodes one byte.
pub open spec fn encoded_piece(b: u8) -> Seq<char> {
    if needs_percent_encoding(b) {
        percent_byte(b)
    } else {
        seq![b as char]
    }
}

proof fn lemma_percent_encoded_concat(a: Seq<u8>, b: Seq<u8>)
    ensures
        percent_encoded(a + b) == percent_encoded(a) + percent_encoded(b),
    decreases b.len(),
{
    if b.len() == 0 {
        assert(a + b =~= a);
        assert(percent_encoded(b) =~= Seq::<char>::empty());
        assert(percent_encoded(a) + percent_encoded(b) =~= percent_encoded(a));
    } else {
        lemma_percent_encoded_concat(a, b.drop_last());
        assert((a + b).drop_last() =~= a + b.drop_last());
        assert((a + b).last() == b.last());
        assert(percent_encoded(a + b) =~= percent_encoded(a) + percent_encoded(b));
    }
}

proof fn lemma_percent_encoded_first(b: Seq<u8>)
    requires
        b.len() > 0,
    ensures
        percent_encoded(b) == encoded_piece(b[0]) + percent_encoded(b.drop_first()),
{
    let head = seq![b[0]];
    assert(b =~= head + b.drop_first());
    lemma_percent_encoded_concat(head, b.drop_first());
    assert(head.drop_last() =~= Seq::<u8>::empty());
    assert(head.last() == b[0]);
    assert(percent_encoded(head.drop_last()) =~= Seq::<char>::empty());
    assert(percent_encoded(head) == percent_encoded(head.drop_last()) + encoded_piece(b[0]));
    assert(percent_encoded(head) =~= encoded_piece(b[0]));
}

proof fn lemma_hex_digit_value(d: int)
    requires
        0 <= d < 16,
    ensures
        hex_value(hex_digit(d)) == d,
        hex_digit(d) != '%',
{
}

/// Reading the encoded bytes back gives the bytes.
proof fn lemma_percent_round_trip(b: Seq<u8>)
    ensures
        percent_decoded(percent_encoded(b)) == b,
    decreases b.len(),
{
    if b.len() > 0 {
        let rest = b.drop_first();
        lemma_percent_encoded_first(b);
        lemma_percent_round_trip(rest);
        let piece = encoded_piece(b[0]);
        let s = piece + percent_encoded(rest);
        if needs_percent_encoding(b[0]) {
            lemma_hex_digit_value(b[0] as int / 16);
            lemma_hex_digit_value(b[0] as int % 16);
            assert(s[0] == '%');
            assert(s.subrange(3, s.len() as int) =~= percent_encoded(rest));
            assert(percent_decoded(s) =~= b);
        } else {
            assert(s[0] == b[0] as char);
            assert(s.subrange(1, s.len() as int) =~= percent_encoded(rest));
            assert(percent_decoded(s) =~= b);
        }
    } else {
        assert(percent_decoded(percent_encoded(b)) =~= b);
    }
}

/// RFC 5987: a recipient that percent-decodes the `filename*=` value and
/// reads the bytes as UTF-8 gets the file name back exactly.
pub proof fn law_encoded_file_name_reads_back(file_name: Seq<char>)
    ensures
        vstd::utf8::decode_utf8(percent_decoded(percent_encoded(vstd::utf8::encode_utf8(file_name))))
            == file_name,
{
    lemma_percent_round_trip(vstd::utf8::encode_utf8(file_name));
    vstd::utf8::encode_utf8_decode_utf8(file_name);
}

proof fn lemma_fallback_chars_kept(name: Seq<char>)
    ensures
        forall|i: int|
            0 <= i < fallback_chars(name).len() ==> kept_in_fallback(#[trigger] fallback_chars(name)[i]),
    decreases name.len(),
{
    if name.len() > 0 {
        lemma_fallback_chars_kept(name.drop_last());
        let rest = fallback_chars(name.drop_last());
        if kept_in_fallback(name.last()) {
            assert(fallback_chars(name) == rest.push(name.last()));
            assert forall|i: int| 0 <= i < fallback_chars(name).len() implies kept_in_fallback(
                #[trigger] fallback_chars(name)[i],
            ) by {
                if i < rest.len() {
                    assert(fallback_chars(name)[i] == rest[i]);
                }
            }
        } else {
            assert(fallback_chars(name) == rest);
        }
    }
}

/// Every byte of the UTF-8 file name from `0x80` up is written as its
/// percent-encoded triplet `%XX`, upper-case hexadecimal.
pub proof fn law_non_ascii_bytes_are_percent_encoded(b: u8)
    requires
        b >= 0x80,
    ensures
        percent_encoded(seq![b]) == seq![
            '%',
            "0123456789ABCDEF"@[b as int / 16],
            "0123456789ABCDEF"@[b as int % 16],
        ],
{
    reveal_strlit("0123456789ABCDEF");
    let single = seq![b];
    assert(single.drop_last() =~= Seq::<u8>::empty());
    assert(single.last() == b);
    assert(percent_encoded(single.drop_last()) =~= Seq::<char>::empty());
    let hi = b as int / 16;
    let lo = b as int % 16;
    assert(8 <= hi < 16);
    assert(0 <= lo < 16);
    assert(hex_digit(hi) == "0123456789ABCDEF"@[hi]);
    assert(hex_digit(lo) == "0123456789ABCDEF"@[lo]);
    assert(percent_encoded(single) =~= seq![
        '%',
        "0123456789ABCDEF"@[b as int / 16],
        "0123456789ABCDEF"@[b as int % 16],
    ]);
}

/// Which bytes of the UTF-8 file name stay as they are in `filename*=`: the
/// ASCII letters and digits and `! # $ & + - . @ ^ _ ` | ~`; every other
/// byte is written as `%XX`, upper-case hexadecimal.
pub proof fn law_which_bytes_stay_raw(b: u8)
    ensures
        percent_encoded(seq![b]) == if (0x30 <= b <= 0x39) || (0x41 <= b <= 0x5a) || (0x61 <= b
            <= 0x7a) || b == 0x21 || b == 0x23 || b == 0x24 || b == 0x26 || b == 0x2b || b == 0x2d
            || b == 0x2e || b == 0x40 || b == 0x5e || b == 0x5f || b == 0x60 || b == 0x7c || b
            == 0x7e {
            seq![b as char]
        } else {
            seq!['%', "0123456789ABCDEF"@[b as int / 16], "0123456789ABCDEF"@[b as int % 16]]
        },
{
    reveal_strlit("0123456789ABCDEF");
    let single = seq![b];
    assert(single.drop_last() =~= Seq::<u8>::empty());
    assert(single.last() == b);
    assert(percent_encoded(single.drop_last()) =~= Seq::<char>::empty());
    let hi = b as int / 16;
    let lo = b as int % 16;
    assert(0 <= hi < 16);
    assert(0 <= lo < 16);
    assert(hex_digit(hi) == "0123456789ABCDEF"@[hi]);
    assert(hex_digit(lo) == "0123456789ABCDEF"@[lo]);
    assert(percent_encoded(single) =~= percent_encoded(single.drop_last()) + encoded_piece(b));
}

/// The encoding works byte by byte: the encoding of two byte strings one
/// after the other is the two encodings one after the other.
pub proof fn law_percent_encoding_is_per_byte(a: Seq<u8>, b: Seq<u8>)
    ensures
        percent_encoded(a + b) == percent_encoded(a) + percent_encoded(b),
{
    lemma_percent_encoded_concat(a, b);
}

proof fn lemma_percent_encoded_printable(bytes: Seq<u8>)
    ensures
        forall|i: int|
            0 <= i < percent_encoded(bytes).len() ==> 0x21 <= (#[trigger] percent_encoded(
                bytes,
            )[i]) as u32 <= 0x7e,
    decreases bytes.len(),
{
    if bytes.len() > 0 {
        lemma_percent_encoded_printable(bytes.drop_last());
        let rest = percent_encoded(bytes.drop_last());
        let b = bytes.last();
        let piece = if needs_percent_encoding(b) {
            percent_byte(b)
        } else {
            seq![b as char]
        };
        assert(percent_encoded(bytes) == rest + piece);
        assert forall|i: int| 0 <= i < piece.len() implies 0x21 <= (#[trigger] piece[i]) as u32
            <= 0x7e by {
            if needs_percent_encoding(b) {
                let hi = b as int / 16;
                let lo = b as int % 16;
                assert(0 <= hi < 16 && 0 <= lo < 16);
            }
        }
        assert forall|i: int| 0 <= i < percent_encoded(bytes).len() implies 0x21 <= (
        #[trigger] percent_encoded(bytes)[i]) as u32 <= 0x7e by {
            if i < rest.len() {
                assert(percent_encoded(bytes)[i] == rest[i]);
            } else {
                assert(percent_encoded(bytes)[i] == piece[i - rest.len()]);
            }
        }
    }
}

/// The `filename*=` value is plain printable ASCII: no byte of the name
/// from `0x80` up, no control and no space is ever written raw.
pub proof fn law_encoded_file_name_is_printable_ascii(file_name: Seq<char>)
    ensures
        forall|i: int|
            0 <= i < percent_encoded(vstd::utf8::encode_utf8(file_name)).len() ==> 0x21 <= (
            #[trigger] percent_encoded(vstd::utf8::encode_utf8(file_name))[i]) as u32 <= 0x7e,
{
    lemma_percent_encoded_printable(vstd::utf8::encode_utf8(file_name));
}

/// The plain `filename=` value is a valid quoted string: only printable
/// ASCII, never `"` or `\`.
pub proof fn law_fallback_name_is_quotable(file_name: Seq<char>)
    ensures
        forall|i: int|
            0 <= i < ascii_fallback(file_name).len() ==> kept_in_fallback(
                #[trigger] ascii_fallback(file_name)[i],
            ),
{
    lemma_fallback_chars_kept(file_name);
    if fallback_chars(file_name).len() == 0 {
        reveal_strlit("output.pdf");
    }
}

} // verus!
