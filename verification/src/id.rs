//! Object ids: the SHA-1 of an object's framed bytes, written as forty
//! lowercase hexadecimal digits.

use vstd::prelude::*;

verus! {

/// The sixteen digits, by value.
pub open spec fn hex_digits() -> Seq<char> {
    "0123456789abcdef"@
}

/// The bytes written out in hexadecimal, two digits each, high one first.
pub open spec fn hex(bytes: Seq<u8>) -> Seq<char> {
    Seq::new(
        2 * bytes.len(),
        |i: int|
            hex_digits()[if i % 2 == 0 {
                bytes[i / 2] as int / 16
            } else {
                bytes[i / 2] as int % 16
            }],
    )
}

pub open spec fn is_hex_char(c: char) -> bool {
    ('0' <= c && c <= '9') || ('a' <= c && c <= 'f')
}

/// Whether the text has the form of an object id.
pub open spec fn is_object_id(text: Seq<char>) -> bool {
    text.len() == 40 && forall|i: int| 0 <= i < text.len() ==> is_hex_char(#[trigger] text[i])
}

/// The id of the object whose framed bytes are given.
pub open spec fn id_of(framed: Seq<u8>) -> Seq<char> {
    hex(sha1(framed)@)
}

/// What `sha1_smol::Sha1` gives as the digest of the bytes.
pub uninterp spec fn sha1(bytes: Seq<u8>) -> [u8; 20];

/// Feeds the bytes to a fresh `sha1_smol::Sha1` and takes the bytes of its
/// digest. The result is taken to depend on the input alone.
#[verifier::external_body]
fn sha1_digest(bytes: &[u8]) -> (digest: [u8; 20])
    ensures
        digest == sha1(bytes@),
{
    sha1_smol::Sha1::from(bytes).digest().bytes()
}

/// Every digit is a lowercase hexadecimal character.
pub proof fn lemma_hex_digits()
    ensures
        hex_digits().len() == 16,
        forall|n: int| 0 <= n < 16 ==> is_hex_char(#[trigger] hex_digits()[n]),
{
    reveal_strlit("0123456789abcdef");
}

/// Twenty bytes in hexadecimal have the form of an object id.
pub proof fn lemma_hex_is_object_id(bytes: Seq<u8>)
    requires
        bytes.len() == 20,
    ensures
        is_object_id(hex(bytes)),
{
    lemma_hex_digits();
    let text = hex(bytes);
    assert forall|i: int| 0 <= i < text.len() implies is_hex_char(#[trigger] text[i]) by {
        let n = if i % 2 == 0 {
            bytes[i / 2] as int / 16
        } else {
            bytes[i / 2] as int % 16
        };
        assert(0 <= n < 16);
        assert(text[i] == hex_digits()[n]);
    }
}

/// Every id of an object has the form of an object id.
pub proof fn lemma_id_is_object_id(framed: Seq<u8>)
    ensures
        is_object_id(id_of(framed)),
{
    lemma_hex_is_object_id(sha1(framed)@);
}

/// Writes bytes out in hexadecimal.
pub fn to_hex(bytes: &[u8]) -> (text: String)
    ensures
        text@ == hex(bytes@),
{
    let digits = "0123456789abcdef";
    proof {
        reveal_strlit("0123456789abcdef");
    }
    let mut text = String::new();
    let mut i: usize = 0;
    while i < bytes.len()
        invariant
            i <= bytes.len(),
            digits@ == hex_digits(),
            digits@.len() == 16,
            digits.is_ascii(),
            text@ == hex(bytes@.take(i as int)),
        decreases bytes.len() - i,
    {
        let high: usize = (bytes[i] / 16) as usize;
        let low: usize = (bytes[i] % 16) as usize;
        text.append(digits.substring_ascii(high, high + 1));
        text.append(digits.substring_ascii(low, low + 1));
        proof {
            let before = hex(bytes@.take(i as int));
            let after = hex(bytes@.take(i + 1));
            assert(after.len() == before.len() + 2);
            assert forall|k: int| 0 <= k < after.len() implies text@[k] == after[k] by {
                if k < before.len() {
                    assert(bytes@.take(i as int)[k / 2] == bytes@.take(i + 1)[k / 2]);
                }
            }
            assert(text@ =~= after);
        }
        i += 1;
    }
    assert(bytes@.take(i as int) =~= bytes@);
    text
}

/// The id under which an object with these framed bytes is stored.
pub fn object_id(framed: &[u8]) -> (id: String)
    ensures
        id@ == id_of(framed@),
        is_object_id(id@),
{
    let digest = sha1_digest(framed);
    proof {
        lemma_id_is_object_id(framed@);
    }
    to_hex(digest.as_slice())
}

/// Whether the text has the form of an object id.
pub fn valid_object_id(text: &str) -> (valid: bool)
    ensures
        valid == is_object_id(text@),
{
    if text.unicode_len() != 40 {
        return false;
    }
    let mut i: usize = 0;
    while i < 40
        invariant
            i <= 40,
            text@.len() == 40,
            forall|k: int| 0 <= k < i ==> is_hex_char(#[trigger] text@[k]),
        decreases 40 - i,
    {
        let c = text.get_char(i);
        if !(('0' <= c && c <= '9') || ('a' <= c && c <= 'f')) {
            return false;
        }
        i += 1;
    }
    true
}

} // verus!
