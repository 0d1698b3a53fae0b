//! Permissive decoding: bytes that are not valid UTF-8 are cut back to their
//! longest valid prefix instead of being refused.
use vstd::prelude::*;
use vstd::slice::slice_subrange;
use vstd::string::StringSliceAdditionalSpecFns;
use vstd::utf8::{decode_utf8, encode_utf8_decode_utf8, valid_utf8};

verus! {

/// `len` is the length of the longest prefix of `bytes` that is valid UTF-8.
pub open spec fn is_valid_up_to(bytes: Seq<u8>, len: int) -> bool {
    &&& 0 <= len <= bytes.len()
    &&& valid_utf8(bytes.take(len))
    &&& forall|longer: int|
        len < longer <= bytes.len() ==> !valid_utf8(#[trigger] bytes.take(longer))
}

/// The length of the longest prefix of `bytes` that is valid UTF-8.
pub open spec fn valid_prefix_len(bytes: Seq<u8>) -> int {
    choose|len: int| is_valid_up_to(bytes, len)
}

/// The longest prefix of `bytes` that is valid UTF-8.
pub open spec fn valid_prefix(bytes: Seq<u8>) -> Seq<u8> {
    bytes.take(valid_prefix_len(bytes))
}

/// The text that permissive decoding finds in `bytes`.
pub open spec fn lossy_text(bytes: Seq<u8>) -> Seq<char> {
    decode_utf8(valid_prefix(bytes))
}

/// There is one longest valid prefix at most.
pub proof fn lemma_valid_up_to_unique(bytes: Seq<u8>, len: int)
    requires
        is_valid_up_to(bytes, len),
    ensures
        valid_prefix_len(bytes) == len,
        valid_prefix(bytes) == bytes.take(len),
{
    let chosen = valid_prefix_len(bytes);
    assert(is_valid_up_to(bytes, chosen));
    if chosen < len {
        assert(!valid_utf8(bytes.take(len)));
    }
    if len < chosen {
        assert(!valid_utf8(bytes.take(chosen)));
    }
}

/// Valid UTF-8 is its own longest valid prefix.
pub proof fn lemma_valid_is_kept_whole(bytes: Seq<u8>)
    requires
        valid_utf8(bytes),
    ensures
        is_valid_up_to(bytes, bytes.len() as int),
        valid_prefix(bytes) == bytes,
{
    assert(bytes.take(bytes.len() as int) =~= bytes);
    lemma_valid_up_to_unique(bytes, bytes.len() as int);
}

/// `std::str::from_utf8`, with the position that its error reports by
/// `Utf8Error::valid_up_to`. It returns `Ok` exactly for valid UTF-8, and the
/// string slice then has the bytes given. Otherwise the position is the
/// greatest one up to which the bytes are valid UTF-8.
#[verifier::external_body]
fn checked_utf8(bytes: &[u8]) -> (checked: Result<&str, usize>)
    ensures
        match checked {
            Ok(text) => valid_utf8(bytes@) && text.spec_bytes() == bytes@,
            Err(len) => !valid_utf8(bytes@) && is_valid_up_to(bytes@, len as int),
        },
{
    match std::str::from_utf8(bytes) {
        Ok(text) => Ok(text),
        Err(error) => Err(error.valid_up_to()),
    }
}

/// Decodes `input` permissively: the result is the text of the longest prefix
/// of `input` that is valid UTF-8, so it is all of `input` where that is valid.
pub fn from_utf8_lossy(input: &[u8]) -> (text: &str)
    ensures
        text@ == lossy_text(input@),
        text.spec_bytes() == valid_prefix(input@),
        is_valid_up_to(input@, text.spec_bytes().len() as int),
        valid_utf8(input@) ==> text.spec_bytes() == input@,
{
    match checked_utf8(input) {
        Ok(text) => {
            proof {
                lemma_valid_is_kept_whole(input@);
                encode_utf8_decode_utf8(text@);
            }
            text
        },
        Err(len) => {
            let prefix = slice_subrange(input, 0, len);
            assert(prefix@ =~= input@.take(len as int));
            match checked_utf8(prefix) {
                Ok(text) => {
                    proof {
                        lemma_valid_up_to_unique(input@, len as int);
                        encode_utf8_decode_utf8(text@);
                    }
                    text
                },
                Err(_) => {
                    assert(false);
                    ""
                },
            }
        },
    }
}

} // verus!
