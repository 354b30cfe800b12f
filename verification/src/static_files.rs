//! Serving the embedded single-page frontend: which asset a request asks
//! for and the headers it is sent with.

use vstd::prelude::*;

use mime_guess::MimeGuess;

use crate::text::{chars_of, string_from_chars};

verus! {

/// The entry point of the single-page application, served for every path
/// that names no asset.
pub const INDEX_HTML: &'static str = "index.html";

/// Files under this prefix carry a content hash in their names.
pub const IMMUTABLE_PREFIX: &'static str = "_app/immutable/";

/// The cache policy of content-hashed files: keep forever.
pub const CACHE_FOREVER: &'static str = "public, max-age=31536000, immutable";

/// The cache policy of every other file (`index.html` above all): check for
/// updates each time.
pub const CACHE_REVALIDATE: &'static str = "no-cache";

/// `s` without its leading `/` characters.
pub open spec fn strip_leading_slashes(s: Seq<char>) -> Seq<char>
    decreases s.len(),
{
    if s.len() > 0 && s[0] == '/' {
        strip_leading_slashes(s.drop_first())
    } else {
        s
    }
}

/// The asset a request path asks for: the path without its leading `/`
/// characters, or `index.html` when nothing is left.
pub open spec fn asset_path_of(uri_path: Seq<char>) -> Seq<char> {
    let path = strip_leading_slashes(uri_path);
    if path.len() == 0 {
        INDEX_HTML@
    } else {
        path
    }
}

/// The asset a request path asks for.
pub fn asset_path(uri_path: &str) -> (path: String)
    ensures
        path@ == asset_path_of(uri_path@),
{
    let chars = chars_of(uri_path);
    let mut i: usize = 0;
    proof {
        assert(chars@.subrange(0, chars.len() as int) =~= chars@);
    }
    while i < chars.len() && chars[i] == '/'
        invariant
            chars@ == uri_path@,
            i <= chars.len(),
            strip_leading_slashes(chars@) == strip_leading_slashes(chars@.subrange(i as int, chars.len() as int)),
        decreases chars.len() - i,
    {
        proof {
            assert(chars@.subrange(i as int, chars.len() as int).drop_first() =~= chars@.subrange(
                i + 1,
                chars.len() as int,
            ));
        }
        i += 1;
    }
    proof {
        assert(chars@.subrange(0, chars.len() as int) =~= chars@);
    }
    if i == chars.len() {
        String::from_str(INDEX_HTML)
    } else {
        string_from_chars(&chars, i, chars.len())
    }
}

/// Whether `s` begins with `prefix`.
pub open spec fn has_prefix(s: Seq<char>, prefix: Seq<char>) -> bool {
    s.len() >= prefix.len() && s.subrange(0, prefix.len() as int) == prefix
}

/// The `Cache-Control` value for an asset.
pub fn cache_control_for(path: &str) -> (policy: &'static str)
    ensures
        has_prefix(path@, IMMUTABLE_PREFIX@) ==> policy@ == CACHE_FOREVER@,
        !has_prefix(path@, IMMUTABLE_PREFIX@) ==> policy@ == CACHE_REVALIDATE@,
{
    let chars = chars_of(path);
    let prefix = chars_of(IMMUTABLE_PREFIX);
    if chars.len() < prefix.len() {
        return CACHE_REVALIDATE;
    }
    let mut i: usize = 0;
    while i < prefix.len()
        invariant
            chars@ == path@,
            prefix@ == IMMUTABLE_PREFIX@,
            prefix.len() <= chars.len(),
            i <= prefix.len(),
            forall|t: int| 0 <= t < i ==> chars@[t] == prefix@[t],
        decreases prefix.len() - i,
    {
        if chars[i] != prefix[i] {
            proof {
                assert(chars@.subrange(0, prefix@.len() as int)[i as int] != prefix@[i as int]);
            }
            return CACHE_REVALIDATE;
        }
        i += 1;
    }
    proof {
        assert(chars@.subrange(0, prefix@.len() as int) =~= prefix@);
    }
    CACHE_FOREVER
}

#[verifier::external_type_specification]
#[verifier::external_body]
pub struct ExMimeGuess(mime_guess::MimeGuess);

/// The MIME types a `MimeGuess` holds, in the order the crate lists them.
pub uninterp spec fn mime_candidates(guess: MimeGuess) -> Seq<Seq<char>>;

/// The MIME types that `mime_guess::from_path` finds for a path (by its
/// extension, compared without regard to case).
pub uninterp spec fn path_mime_candidates(path: Seq<char>) -> Seq<Seq<char>>;

/// The text of the `Mime` that `mime_guess` parses from one of its MIME type
/// strings.
pub uninterp spec fn parsed_mime_text(candidate: Seq<char>) -> Seq<char>;

/// `mime_guess::from_path`: the guesses for a path, found from its extension
/// in the crate's static table. Its candidates are named by the path.
#[verifier::external_body]
fn guess_from_path(path: &str) -> (guess: MimeGuess)
    ensures
        mime_candidates(guess) == path_mime_candidates(path@),
{
    mime_guess::from_path(path)
}

/// `mime_guess::MimeGuess::first_or_octet_stream`, as text: the first
/// candidate (as the `mime` crate parses it), or `application/octet-stream`
/// when there is none.
#[verifier::external_body]
fn first_or_octet_stream(guess: &MimeGuess) -> (mime: String)
    ensures
        mime_candidates(*guess).len() == 0 ==> mime@ == "application/octet-stream"@,
        mime_candidates(*guess).len() > 0 ==> mime@ == parsed_mime_text(mime_candidates(*guess)[0]),
{
    guess.first_or_octet_stream().as_ref().to_string()
}

/// The `Content-Type` of an asset: the first MIME type its extension is
/// known for, `application/octet-stream` when none is known.
pub open spec fn content_type_of(path: Seq<char>) -> Seq<char> {
    let candidates = path_mime_candidates(path);
    if candidates.len() == 0 {
        "application/octet-stream"@
    } else {
        parsed_mime_text(candidates[0])
    }
}

/// The headers an asset is served with.
pub struct AssetHeaders {
    pub content_type: String,
    pub cache_control: String,
}

/// The headers an asset is served with: its guessed content type and its
/// cache policy.
pub fn asset_headers(path: &str) -> (headers: AssetHeaders)
    ensures
        headers.content_type@ == content_type_of(path@),
        has_prefix(path@, IMMUTABLE_PREFIX@) ==> headers.cache_control@ == CACHE_FOREVER@,
        !has_prefix(path@, IMMUTABLE_PREFIX@) ==> headers.cache_control@ == CACHE_REVALIDATE@,
{
    let guess = guess_from_path(path);
    let content_type = first_or_octet_stream(&guess);
    let cache_control = String::from_str(cache_control_for(path));
    AssetHeaders { content_type, cache_control }
}

} // verus!
