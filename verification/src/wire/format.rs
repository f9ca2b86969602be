//! The wire format of the messages: compact JSON with the fields in the
//! order of their declaration, byte strings as arrays of numbers.
//!
//! The digests that the attestations bind are taken over these bytes, so both
//! sides have to produce them bit for bit. The format is therefore given as a
//! function from a message to its bytes.

use vstd::prelude::*;
use vstd::string::StringSliceAdditionalSpecFns;
use crate::message::{
    ChallengeView, EncryptedDataView, HandlerInfoView, ResponseView, SecretDataView,
};
use crate::wire::numeral::{is_digit, lemma_decimal_is_numeral};

verus! {

/// The byte `[`, which opens an array.
pub const OPEN: u8 = 91;

/// The byte `]`, which closes an array.
pub const CLOSE: u8 = 93;

/// The byte `,`, which stands between the elements of an array.
pub const COMMA: u8 = 44;

/// The digit `0`. The other digits follow it in their order.
pub const ZERO: u8 = 48;

/// The digit `9`.
pub const NINE: u8 = 57;

/// The bytes of a piece of text.
pub open spec fn text(s: &str) -> Seq<u8> {
    s.spec_bytes()
}

/// A natural number in decimal, without leading zeros.
pub open spec fn decimal(n: nat) -> Seq<u8>
    decreases n,
{
    if n < 10 {
        seq![(ZERO + n) as u8]
    } else {
        decimal(n / 10).push((ZERO + n % 10) as u8)
    }
}

/// What follows the first element of a byte array: each further element
/// after a comma, then the closing bracket.
pub open spec fn array_tail(bytes: Seq<u8>) -> Seq<u8>
    decreases bytes.len(),
{
    if bytes.len() == 0 {
        seq![CLOSE]
    } else {
        seq![COMMA] + (decimal(bytes[0] as nat) + array_tail(bytes.drop_first()))
    }
}

/// A byte string as an array of decimal numbers: `[1,2,3]`.
pub open spec fn byte_array(bytes: Seq<u8>) -> Seq<u8> {
    if bytes.len() == 0 {
        seq![OPEN, CLOSE]
    } else {
        seq![OPEN] + (decimal(bytes[0] as nat) + array_tail(bytes.drop_first()))
    }
}

/// `true` or `false`.
pub open spec fn boolean(b: bool) -> Seq<u8> {
    if b {
        text("true")
    } else {
        text("false")
    }
}

/// A byte string that may be missing: its array, or `null`.
pub open spec fn optional_bytes(bytes: Option<Seq<u8>>) -> Seq<u8> {
    match bytes {
        Some(b) => byte_array(b),
        None => text("null"),
    }
}

/// A field of an object: its key with what stands before it, its value, and
/// what follows.
pub open spec fn field(key: &str, value: Seq<u8>, rest: Seq<u8>) -> Seq<u8> {
    text(key) + (value + rest)
}

/// The encoding of a challenge.
pub open spec fn challenge_wire(c: ChallengeView) -> Seq<u8> {
    field(
        "{\"sgx_target_info\":",
        byte_array(c.sgx_target_info),
        field(
            ",\"block_number\":",
            decimal(c.block_number as nat),
            field(
                ",\"dev_mode\":",
                boolean(c.dev_mode),
                field(",\"nonce\":", byte_array(c.nonce), text("}")),
            ),
        ),
    )
}

/// The encoding of what the client answers, over which its attestation is
/// taken.
pub open spec fn handler_info_wire(h: HandlerInfoView) -> Seq<u8> {
    field(
        "{\"challenge\":",
        challenge_wire(h.challenge),
        field(
            ",\"sgx_local_report\":",
            byte_array(h.sgx_local_report),
            field(",\"ecdh_pubkey\":", byte_array(h.ecdh_pubkey), text("}")),
        ),
    )
}

/// The encoding of a response.
pub open spec fn response_wire(r: ResponseView) -> Seq<u8> {
    field(
        "{\"challenge_handler\":",
        handler_info_wire(r.challenge_handler),
        field(",\"attestation\":", optional_bytes(r.attestation), text("}")),
    )
}

/// The encoding of the encrypted secret, over which the server's attestation
/// is taken.
pub open spec fn encrypted_data_wire(e: EncryptedDataView) -> Seq<u8> {
    field(
        "{\"ecdh_pubkey\":",
        byte_array(e.ecdh_pubkey),
        field(
            ",\"encrypted_data\":",
            byte_array(e.encrypted_data),
            field(
                ",\"iv\":",
                byte_array(e.iv),
                field(",\"dev_mode\":", boolean(e.dev_mode), text("}")),
            ),
        ),
    )
}

/// The encoding of what the server returns.
pub open spec fn secret_data_wire(s: SecretDataView) -> Seq<u8> {
    field(
        "{\"encrypted_data_info\":",
        encrypted_data_wire(s.encrypted_data_info),
        field(",\"attestation\":", optional_bytes(s.attestation), text("}")),
    )
}

/// Concatenation may be regrouped.
pub proof fn lemma_regroup(a: Seq<u8>, b: Seq<u8>, c: Seq<u8>)
    ensures
        (a + b) + c == a + (b + c),
{
}

/// Appending one byte to a string moves the closing bracket of its array
/// behind a comma and the new number.
pub proof fn lemma_array_tail_push(bytes: Seq<u8>, last: u8)
    ensures
        array_tail(bytes.push(last)) == array_tail(bytes).drop_last() + (seq![COMMA] + (decimal(
            last as nat,
        ) + seq![CLOSE])),
    decreases bytes.len(),
{
    let longer = bytes.push(last);
    if bytes.len() == 0 {
        assert(array_tail(longer.drop_first()) == seq![CLOSE]);
    } else {
        lemma_array_tail_push(bytes.drop_first(), last);
        assert(longer.drop_first() =~= bytes.drop_first().push(last));
    }
}

/// The array of a string with one more byte, from the array of the string.
pub proof fn lemma_byte_array_push(bytes: Seq<u8>, last: u8)
    ensures
        byte_array(bytes.push(last)) == if bytes.len() == 0 {
            seq![OPEN] + (decimal(last as nat) + seq![CLOSE])
        } else {
            byte_array(bytes).drop_last() + (seq![COMMA] + (decimal(last as nat) + seq![CLOSE]))
        },
{
    let longer = bytes.push(last);
    if bytes.len() == 0 {
    } else {
        lemma_array_tail_push(bytes.drop_first(), last);
        assert(longer.drop_first() =~= bytes.drop_first().push(last));
    }
}

/// An array ends with its closing bracket.
pub proof fn lemma_array_tail_closes(bytes: Seq<u8>)
    ensures
        array_tail(bytes).len() > 0,
        array_tail(bytes).last() == CLOSE,
    decreases bytes.len(),
{
    if bytes.len() > 0 {
        lemma_array_tail_closes(bytes.drop_first());
    }
}

/// An array is what stands before its closing bracket, and the bracket.
pub proof fn lemma_array_closes(elements: Seq<u8>)
    ensures
        byte_array(elements) == byte_array(elements).drop_last().push(CLOSE),
{
    if elements.len() > 0 {
        lemma_array_tail_closes(elements.drop_first());
    }
}

/// An array opens with a bracket, and is empty or goes on with a digit.
pub proof fn lemma_byte_array_opens(elements: Seq<u8>)
    ensures
        byte_array(elements).len() >= 2,
        byte_array(elements)[0] == OPEN,
        elements.len() == 0 ==> byte_array(elements)[1] == CLOSE,
        elements.len() > 0 ==> is_digit(byte_array(elements)[1]),
{
    if elements.len() > 0 {
        lemma_decimal_is_numeral(elements[0] as nat);
    }
}

/// The first byte of each keyword, by which a reader tells them apart.
pub proof fn lemma_keyword_starts()
    ensures
        text("true").len() == 4 && text("true")[0] == 116,
        text("false").len() == 5 && text("false")[0] == 102,
        text("null").len() == 4 && text("null")[0] == 110,
{
    reveal_strlit("true");
    reveal_strlit("false");
    reveal_strlit("null");
    assert("true".is_ascii());
    assert("false".is_ascii());
    assert("null".is_ascii());
}

} // verus!
