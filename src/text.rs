//! Text helpers: comparing strings, lower-casing, the allow-list of image
//! media types, and truncating messages to the platform's length limit.
use vstd::prelude::*;
use vstd::utf8::{encode_utf8_valid_utf8, is_char_boundary, valid_utf8};
use vstd::string::StringSliceAdditionalSpecFns;

verus! {

/// The longest message content the platform accepts, in bytes.
pub const DISCORD_MESSAGE_CONTENT_LIMIT: usize = 2000;

/// What `str::to_lowercase` makes of a string.
pub uninterp spec fn lower_of(s: Seq<char>) -> Seq<char>;

/// Relies on `str::to_lowercase`: its result depends on the characters
/// alone, and an empty string stays empty.
#[verifier::external_body]
pub(crate) fn lowercase(s: &str) -> (r: String)
    ensures
        r@ == lower_of(s@),
        s@.len() == 0 ==> r@.len() == 0,
{
    s.to_lowercase()
}

/// Whether `a` and `b` hold the same characters.
pub fn same_text(a: &str, b: &str) -> (r: bool)
    ensures
        r == (a@ == b@),
{
    let n = a.unicode_len();
    if n != b.unicode_len() {
        return false;
    }
    let mut i: usize = 0;
    while i < n
        invariant
            n == a@.len(),
            n == b@.len(),
            i <= n,
            forall|j: int| 0 <= j < i ==> a@[j] == b@[j],
        decreases n - i,
    {
        if a.get_char(i) != b.get_char(i) {
            return false;
        }
        i = i + 1;
    }
    assert(a@ =~= b@);
    true
}

/// The media types accepted as images, animated ones included.
pub open spec fn is_image_type(t: Seq<char>) -> bool {
    t == "image/png"@ || t == "image/jpg"@ || t == "image/jpeg"@ || t == "image/gif"@
}

/// Whether an already lower-cased media type is an accepted image type.
pub fn is_allowed_image_type(lowered: &str) -> (r: bool)
    ensures
        r == is_image_type(lowered@),
{
    same_text(lowered, "image/png") || same_text(lowered, "image/jpg") || same_text(lowered, "image/jpeg")
        || same_text(lowered, "image/gif")
}

/// Whether a media type, in any case, is an accepted image type.
pub fn media_type_is_image(media_type: &str) -> (r: bool)
    ensures
        r == is_image_type(lower_of(media_type@)),
{
    let lowered = lowercase(media_type);
    is_allowed_image_type(lowered.as_str())
}

/// Truncates content to fit into the platform's message limit, at the last
/// character boundary that fits. The result is a prefix of `content`.
pub fn truncate_to_discord_limit(content: &str) -> (r: &str)
    requires
        content.spec_bytes().len() <= usize::MAX,
    ensures
        content.spec_bytes().len() <= DISCORD_MESSAGE_CONTENT_LIMIT ==> r@ == content@,
        r.spec_bytes().len() <= DISCORD_MESSAGE_CONTENT_LIMIT,
        r.spec_bytes() == content.spec_bytes().subrange(0, r.spec_bytes().len() as int),
        content.spec_bytes().len() > DISCORD_MESSAGE_CONTENT_LIMIT ==> forall|j: int|
            r.spec_bytes().len() < j <= DISCORD_MESSAGE_CONTENT_LIMIT ==> !is_char_boundary(
                content.spec_bytes(),
                j,
            ),
{
    proof {
        encode_utf8_valid_utf8(content@);
    }
    if content.len() > DISCORD_MESSAGE_CONTENT_LIMIT {
        let mut truncate_at: usize = DISCORD_MESSAGE_CONTENT_LIMIT;
        while !content.is_char_boundary(truncate_at)
            invariant
                truncate_at <= DISCORD_MESSAGE_CONTENT_LIMIT,
                valid_utf8(content.spec_bytes()),
                content.spec_bytes().len() > DISCORD_MESSAGE_CONTENT_LIMIT,
                forall|j: int|
                    truncate_at < j <= DISCORD_MESSAGE_CONTENT_LIMIT ==> !is_char_boundary(
                        content.spec_bytes(),
                        j,
                    ),
            decreases truncate_at,
        {
            assert(truncate_at != 0);
            truncate_at = truncate_at - 1;
        }
        let (head, _) = content.split_at(truncate_at);
        head
    } else {
        proof {
            assert(content.spec_bytes().subrange(0, content.spec_bytes().len() as int) =~= content.spec_bytes());
        }
        content
    }
}

} // verus!
