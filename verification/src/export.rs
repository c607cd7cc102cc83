//! Exporting the challenges for printing codes: what is exported of each
//! challenge, and the text that carries the export.

use vstd::prelude::*;
use vstd::string::*;
use crate::entities::Challenge;

verus! {

/// What is exported of a challenge.
#[derive(Debug, PartialEq, Eq)]
pub struct QrChallenge {
    pub name: String,
    pub category: String,
    pub tagline: String,
    pub secret: String,
}

/// What is exported of a challenge.
pub open spec fn exported(challenge: Challenge) -> QrChallenge {
    QrChallenge {
        name: challenge.name,
        category: challenge.category,
        tagline: challenge.tagline,
        secret: challenge.secret,
    }
}

/// What is exported of each challenge, in the order given.
pub fn qr_challenges(challenges: &Vec<Challenge>) -> (list: Vec<QrChallenge>)
    ensures
        list@.len() == challenges@.len(),
        forall|i: int| 0 <= i < list@.len() ==> #[trigger] list@[i] == exported(challenges@[i]),
{
    let mut list: Vec<QrChallenge> = Vec::new();
    let mut i: usize = 0;
    while i < challenges.len()
        invariant
            i <= challenges@.len(),
            list@.len() == i,
            forall|j: int| 0 <= j < i ==> #[trigger] list@[j] == exported(challenges@[j]),
        decreases challenges@.len() - i,
    {
        let challenge = &challenges[i];
        list.push(
            QrChallenge {
                name: challenge.name.clone(),
                category: challenge.category.clone(),
                tagline: challenge.tagline.clone(),
                secret: challenge.secret.clone(),
            },
        );
        i = i + 1;
    }
    list
}

/// The text that the standard base64 engine encodes bytes to.
pub uninterp spec fn base64_encoded(bytes: Seq<u8>) -> Seq<char>;

/// The greatest number of bytes that are encoded at once: the engine
/// fails where the length of the encoded text does not fit the machine.
pub open spec fn encodable(length: nat) -> bool {
    length <= usize::MAX / 2
}

/// `base64::Engine::encode` of the engine `general_purpose::STANDARD`: the
/// base64 text of the bytes of `text`, in the standard alphabet with
/// padding.
#[verifier::external_body]
fn encode_base64(text: &str) -> (encoded: String)
    requires
        encodable(text.spec_bytes().len()),
    ensures
        encoded@ == base64_encoded(text.spec_bytes()),
{
    base64::Engine::encode(&base64::engine::general_purpose::STANDARD, text)
}

/// The text that carries an export: the base64 text of its bytes, or
/// nothing where the export is too long to encode.
pub fn export_text(json: &str) -> (text: Option<String>)
    ensures
        match text {
            Some(t) => encodable(json.spec_bytes().len()) && t@ == base64_encoded(
                json.spec_bytes(),
            ),
            None => !encodable(json.spec_bytes().len()),
        },
{
    if json.as_bytes().len() <= usize::MAX / 2 {
        Some(encode_base64(json))
    } else {
        None
    }
}

} // verus!
