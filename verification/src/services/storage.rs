//! Photos in object storage: how objects are named and linked.

use vstd::prelude::*;
use vstd::string::*;

verus! {

/// The scheme that starts every link to a stored object.
pub open spec fn link_scheme() -> Seq<char> {
    "s3://"@
}

/// The name of the object that holds the photo of a completion.
pub open spec fn object_name_of(
    user_id: Seq<char>,
    challenge_name: Seq<char>,
    file_id: Seq<char>,
) -> Seq<char> {
    "completions/"@ + user_id + "/"@ + challenge_name + "/"@ + file_id + ".jpg"@
}

/// The link to an object in a bucket.
pub open spec fn link_of(bucket: Seq<char>, object_name: Seq<char>) -> Seq<char> {
    link_scheme() + bucket + "/"@ + object_name
}

/// The name of the object that holds the photo of a completion.
pub fn object_name(user_id: &str, challenge_name: &str, file_id: &str) -> (name: String)
    ensures
        name@ == object_name_of(user_id@, challenge_name@, file_id@),
{
    let mut name = String::from_str("completions/");
    name.append(user_id);
    name.append("/");
    name.append(challenge_name);
    name.append("/");
    name.append(file_id);
    name.append(".jpg");
    name
}

/// The link to an object in a bucket.
pub fn object_link(bucket: &str, object_name: &str) -> (link: String)
    ensures
        link@ == link_of(bucket@, object_name@),
{
    let mut link = String::from_str("s3://");
    link.append(bucket);
    link.append("/");
    link.append(object_name);
    link
}

/// What a link says.
#[derive(Debug, PartialEq, Eq)]
pub enum S3Link {
    /// The text is no link to a stored object.
    Other,
    /// The text starts like a link and names no object.
    Invalid,
    /// The text links the object `key` in `bucket`.
    Object { bucket: String, key: String },
}

/// The place of the first slash at or after `from`, or the length of the
/// text where there is none.
pub open spec fn first_slash(text: Seq<char>, from: int) -> int
    decreases text.len() - from,
{
    if from >= text.len() {
        text.len() as int
    } else if text[from] == '/' {
        from
    } else {
        first_slash(text, from + 1)
    }
}

/// The rule of reading a link: it starts with the scheme; what follows up to
/// the first slash is the bucket, and what follows the slash is the key.
pub open spec fn link_rule(text: Seq<char>) -> (bool, bool, Seq<char>, Seq<char>) {
    let scheme = link_scheme();
    if text.len() < scheme.len() || text.subrange(0, scheme.len() as int) != scheme {
        (false, false, Seq::empty(), Seq::empty())
    } else {
        let slash = first_slash(text, scheme.len() as int);
        if slash >= text.len() {
            (true, false, Seq::empty(), Seq::empty())
        } else {
            (
                true,
                true,
                text.subrange(scheme.len() as int, slash),
                text.subrange(slash + 1, text.len() as int),
            )
        }
    }
}

/// Reads a link to a stored object.
pub fn read_link(text: &str) -> (link: S3Link)
    ensures
        match link {
            S3Link::Other => !link_rule(text@).0,
            S3Link::Invalid => link_rule(text@).0 && !link_rule(text@).1,
            S3Link::Object { bucket, key } => link_rule(text@) == (true, true, bucket@, key@),
        },
{
    proof {
        reveal_strlit("s3://");
    }
    let n: usize = text.unicode_len();
    if n < 5 {
        return S3Link::Other;
    }
    let scheme = "s3://";
    let mut i: usize = 0;
    while i < 5
        invariant
            i <= 5,
            5 <= n,
            n == text@.len(),
            scheme@ == link_scheme(),
            scheme@.len() == 5,
            forall|j: int| 0 <= j < i ==> text@[j] == scheme@[j],
        decreases 5 - i,
    {
        if text.get_char(i) != scheme.get_char(i) {
            assert(text@.subrange(0, 5)[i as int] != scheme@[i as int]);
            return S3Link::Other;
        }
        i = i + 1;
    }
    assert(text@.subrange(0, 5) =~= scheme@);
    let mut slash: usize = 5;
    while slash < n && text.get_char(slash) != '/'
        invariant
            5 <= slash <= n,
            n == text@.len(),
            first_slash(text@, 5) == first_slash(text@, slash as int),
        decreases n - slash,
    {
        slash = slash + 1;
    }
    if slash >= n {
        return S3Link::Invalid;
    }
    let bucket = String::from_str(text.substring_char(5, slash));
    let key = String::from_str(text.substring_char(slash + 1, n));
    S3Link::Object { bucket, key }
}

/// How long a link for viewing a photo lasts where nothing else is asked:
/// a day, in seconds.
pub fn default_expiry() -> (seconds: u32)
    ensures
        seconds == 24 * 3600,
{
    24 * 3600
}

/// How long a link for viewing a photo in the journal lasts: two hours, in
/// seconds.
pub fn journal_expiry() -> (seconds: u32)
    ensures
        seconds == 2 * 3600,
{
    2 * 3600
}

/// How long a link for viewing a photo lasts.
pub fn expiry(expires_in_seconds: Option<u32>) -> (seconds: u32)
    ensures
        seconds == (match expires_in_seconds {
            Some(s) => s,
            None => (24 * 3600) as u32,
        }),
{
    match expires_in_seconds {
        Some(s) => s,
        None => default_expiry(),
    }
}

/// The bytes that the standard base64 engine decodes a text to, where the
/// text is base64.
pub uninterp spec fn base64_decoded(text: Seq<char>) -> Option<Seq<u8>>;

/// Decoded bytes as they read.
pub open spec fn bytes_seen(bytes: Option<Vec<u8>>) -> Option<Seq<u8>> {
    match bytes {
        Some(b) => Some(b@),
        None => None,
    }
}

/// `base64::Engine::decode` of the engine `general_purpose::STANDARD`: the
/// bytes that the text stands for, or nothing where the text is not base64
/// of the standard alphabet with padding.
#[verifier::external_body]
fn decode_base64(text: &str) -> (bytes: Option<Vec<u8>>)
    ensures
        bytes_seen(bytes) == base64_decoded(text@),
{
    base64::Engine::decode(&base64::engine::general_purpose::STANDARD, text).ok()
}

/// The bytes of an uploaded image, from what decoding its text gave: the
/// bytes, or why the image is refused.
pub fn image_from(decoded: Option<Vec<u8>>) -> (image: Result<Vec<u8>, String>)
    ensures
        match decoded {
            None => image matches Err(message) && message@ == "Invalid base64 image data"@,
            Some(bytes) => if bytes@.len() == 0 {
                image matches Err(message) && message@ == "Image data cannot be empty"@
            } else {
                image == Ok::<Vec<u8>, String>(bytes)
            },
        },
{
    match decoded {
        None => Err(String::from_str("Invalid base64 image data")),
        Some(bytes) => if bytes.len() == 0 {
            Err(String::from_str("Image data cannot be empty"))
        } else {
            Ok(bytes)
        },
    }
}

/// The bytes of an uploaded image that came as base64 text, or why the
/// image is refused.
pub fn decode_image(image_data: &str) -> (image: Result<Vec<u8>, String>)
    ensures
        match base64_decoded(image_data@) {
            None => image matches Err(message) && message@ == "Invalid base64 image data"@,
            Some(bytes) => if bytes.len() == 0 {
                image matches Err(message) && message@ == "Image data cannot be empty"@
            } else {
                image matches Ok(b) && b@ == bytes
            },
        },
{
    image_from(decode_base64(image_data))
}

/// Where the photo of a completion goes: the name of its object, and the
/// link under which the store keeps it.
pub fn upload_target(bucket: &str, user_id: &str, challenge_name: &str, file_id: &str) -> (target: (
    String,
    String,
))
    ensures
        target.0@ == object_name_of(user_id@, challenge_name@, file_id@),
        target.1@ == link_of(bucket@, object_name_of(user_id@, challenge_name@, file_id@)),
{
    let name = object_name(user_id, challenge_name, file_id);
    let link = object_link(bucket, name.as_str());
    (name, link)
}

} // verus!
