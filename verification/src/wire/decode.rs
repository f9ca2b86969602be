//! Reading messages back from their wire format.
//!
//! A decoder accepts exactly the encodings: the bytes it accepts are the
//! encoding of the message it returns, and the encoding of any message is
//! accepted and gives that message back.

use vstd::prelude::*;
use crate::error::HandoverError;
use crate::message::{
    ChallengeHandlerInfo, ChallengeView, EncryptedDataInfo, EncryptedDataView, HandlerInfoView,
    HandoverChallenge, HandoverChallengeResponse, HandoverSecretData, ResponseView,
    SecretDataView,
};
use crate::wire::format::{
    boolean, byte_array, challenge_wire, decimal, encrypted_data_wire, handler_info_wire,
    optional_bytes, response_wire, secret_data_wire, text,
};
use crate::wire::numeral::{digit_follows, lemma_decimal_unique, parse_decimal};
use crate::wire::scan::{
    expect_text, lemma_stands_at_join, lemma_stands_at_split, lemma_whole, stands_at,
};
use crate::wire::values::{
    lemma_boolean_unique, lemma_byte_array_unique, lemma_optional_bytes_unique, parse_boolean,
    parse_byte_array, parse_optional_bytes, to_array,
};

verus! {

/// Where the parts of an encoded challenge stand when the challenge stands
/// at `at`.
pub open spec fn challenge_layout(bytes: Seq<u8>, at: int, c: ChallengeView) -> bool {
    let p1 = at + text("{\"sgx_target_info\":").len();
    let p2 = p1 + byte_array(c.sgx_target_info).len();
    let p3 = p2 + text(",\"block_number\":").len();
    let p4 = p3 + decimal(c.block_number as nat).len();
    let p5 = p4 + text(",\"dev_mode\":").len();
    let p6 = p5 + boolean(c.dev_mode).len();
    let p7 = p6 + text(",\"nonce\":").len();
    let p8 = p7 + byte_array(c.nonce).len();
    &&& stands_at(bytes, at, text("{\"sgx_target_info\":"))
    &&& stands_at(bytes, p1, byte_array(c.sgx_target_info))
    &&& stands_at(bytes, p2, text(",\"block_number\":"))
    &&& stands_at(bytes, p3, decimal(c.block_number as nat))
    &&& stands_at(bytes, p4, text(",\"dev_mode\":"))
    &&& stands_at(bytes, p5, boolean(c.dev_mode))
    &&& stands_at(bytes, p6, text(",\"nonce\":"))
    &&& stands_at(bytes, p7, byte_array(c.nonce))
    &&& stands_at(bytes, p8, text("}"))
    &&& challenge_wire(c).len() == p8 + text("}").len() - at
}

/// Where the block number of an encoded challenge ends when the challenge
/// stands at `at`.
pub open spec fn block_number_end(at: int, c: ChallengeView) -> int {
    at + text("{\"sgx_target_info\":").len() + byte_array(c.sgx_target_info).len() + text(
        ",\"block_number\":",
    ).len() + decimal(c.block_number as nat).len()
}

/// An encoded challenge stands at `at` exactly if its parts stand one behind
/// the other; and no digit stands behind its block number.
pub proof fn lemma_challenge_layout(bytes: Seq<u8>, at: int, c: ChallengeView)
    ensures
        stands_at(bytes, at, challenge_wire(c)) <==> challenge_layout(bytes, at, c),
        challenge_layout(bytes, at, c) ==> !digit_follows(bytes, block_number_end(at, c)),
{
    let t1 = text("{\"sgx_target_info\":");
    let t2 = byte_array(c.sgx_target_info);
    let t3 = text(",\"block_number\":");
    let t4 = decimal(c.block_number as nat);
    let t5 = text(",\"dev_mode\":");
    let t6 = boolean(c.dev_mode);
    let t7 = text(",\"nonce\":");
    let t8 = byte_array(c.nonce);
    let t9 = text("}");
    let r8 = t9;
    let r7 = t8 + r8;
    let r6 = t7 + r7;
    let r5 = t6 + r6;
    let r4 = t5 + r5;
    let r3 = t4 + r4;
    let r2 = t3 + r3;
    let r1 = t2 + r2;
    let p1 = at + t1.len();
    let p2 = p1 + t2.len();
    let p3 = p2 + t3.len();
    let p4 = p3 + t4.len();
    let p5 = p4 + t5.len();
    let p6 = p5 + t6.len();
    let p7 = p6 + t7.len();
    if stands_at(bytes, at, challenge_wire(c)) {
        lemma_stands_at_split(bytes, at, t1, r1);
        lemma_stands_at_split(bytes, p1, t2, r2);
        lemma_stands_at_split(bytes, p2, t3, r3);
        lemma_stands_at_split(bytes, p3, t4, r4);
        lemma_stands_at_split(bytes, p4, t5, r5);
        lemma_stands_at_split(bytes, p5, t6, r6);
        lemma_stands_at_split(bytes, p6, t7, r7);
        lemma_stands_at_split(bytes, p7, t8, r8);
    }
    if challenge_layout(bytes, at, c) {
        lemma_stands_at_join(bytes, p7, t8, r8);
        lemma_stands_at_join(bytes, p6, t7, r7);
        lemma_stands_at_join(bytes, p5, t6, r6);
        lemma_stands_at_join(bytes, p4, t5, r5);
        lemma_stands_at_join(bytes, p3, t4, r4);
        lemma_stands_at_join(bytes, p2, t3, r3);
        lemma_stands_at_join(bytes, p1, t2, r2);
        lemma_stands_at_join(bytes, at, t1, r1);
        reveal_strlit(",\"dev_mode\":");
        lemma_comma_is_no_digit(bytes, p4, ",\"dev_mode\":");
    }
}

/// Where a key that begins with a comma stands, no digit stands.
pub proof fn lemma_comma_is_no_digit(bytes: Seq<u8>, at: int, key: &str)
    requires
        stands_at(bytes, at, text(key)),
        key@.len() > 0,
        key@[0] == ',',
        key.is_ascii(),
    ensures
        !digit_follows(bytes, at),
{
    assert(bytes.subrange(at, at + text(key).len())[0] == text(key)[0]);
}

/// At one position at most one challenge stands.
pub proof fn lemma_challenge_unique(bytes: Seq<u8>, at: int, a: ChallengeView, b: ChallengeView)
    requires
        stands_at(bytes, at, challenge_wire(a)),
        stands_at(bytes, at, challenge_wire(b)),
    ensures
        a == b,
{
    lemma_challenge_layout(bytes, at, a);
    lemma_challenge_layout(bytes, at, b);
    let p1 = at + text("{\"sgx_target_info\":").len();
    lemma_byte_array_unique(bytes, p1, a.sgx_target_info, b.sgx_target_info);
    let p3 = p1 + byte_array(a.sgx_target_info).len() + text(",\"block_number\":").len();
    lemma_decimal_unique(bytes, p3, a.block_number as nat, b.block_number as nat);
    let p5 = p3 + decimal(a.block_number as nat).len() + text(",\"dev_mode\":").len();
    lemma_boolean_unique(bytes, p5, a.dev_mode, b.dev_mode);
    let p7 = p5 + boolean(a.dev_mode).len() + text(",\"nonce\":").len();
    lemma_byte_array_unique(bytes, p7, a.nonce, b.nonce);
}

/// Reads a challenge at the position `at`.
pub fn parse_challenge(bytes: &[u8], at: usize) -> (r: Option<(HandoverChallenge, usize)>)
    requires
        at <= bytes@.len(),
    ensures
        r matches Some((found, end)) ==> {
            &&& stands_at(bytes@, at as int, challenge_wire(found@))
            &&& end == at + challenge_wire(found@).len()
        },
        forall|c: ChallengeView|
            c.wf() && #[trigger] stands_at(bytes@, at as int, challenge_wire(c)) ==> {
                &&& r matches Some((found, end))
                &&& found@ == c
                &&& end == at + challenge_wire(c).len()
            },
{
    proof {
        assert forall|c: ChallengeView| #[trigger]
            stands_at(bytes@, at as int, challenge_wire(c)) implies {
            &&& challenge_layout(bytes@, at as int, c)
            &&& !digit_follows(bytes@, block_number_end(at as int, c))
        } by {
            lemma_challenge_layout(bytes@, at as int, c);
        }
    }
    let p1 = match expect_text(bytes, at, "{\"sgx_target_info\":") {
        Some(end) => end,
        None => {
            return None;
        },
    };
    let (sgx_target_info, p2) = match parse_byte_array(bytes, p1) {
        Some(found) => found,
        None => {
            return None;
        },
    };
    let p3 = match expect_text(bytes, p2, ",\"block_number\":") {
        Some(end) => end,
        None => {
            return None;
        },
    };
    let (block_number, p4) = match parse_decimal(bytes, p3) {
        Some(found) => found,
        None => {
            return None;
        },
    };
    let p5 = match expect_text(bytes, p4, ",\"dev_mode\":") {
        Some(end) => end,
        None => {
            return None;
        },
    };
    let (dev_mode, p6) = match parse_boolean(bytes, p5) {
        Some(found) => found,
        None => {
            return None;
        },
    };
    let p7 = match expect_text(bytes, p6, ",\"nonce\":") {
        Some(end) => end,
        None => {
            return None;
        },
    };
    let (nonce_bytes, p8) = match parse_byte_array(bytes, p7) {
        Some(found) => found,
        None => {
            return None;
        },
    };
    let p9 = match expect_text(bytes, p8, "}") {
        Some(end) => end,
        None => {
            return None;
        },
    };
    let nonce = match to_array::<32>(&nonce_bytes) {
        Some(array) => array,
        None => {
            return None;
        },
    };
    let found = HandoverChallenge { sgx_target_info, block_number, dev_mode, nonce };
    proof {
        lemma_challenge_layout(bytes@, at as int, found@);
    }
    Some((found, p9))
}

/// Where the parts of an encoded answer stand when the answer stands at `at`.
pub open spec fn handler_info_layout(bytes: Seq<u8>, at: int, h: HandlerInfoView) -> bool {
    let p1 = at + text("{\"challenge\":").len();
    let p2 = p1 + challenge_wire(h.challenge).len();
    let p3 = p2 + text(",\"sgx_local_report\":").len();
    let p4 = p3 + byte_array(h.sgx_local_report).len();
    let p5 = p4 + text(",\"ecdh_pubkey\":").len();
    let p6 = p5 + byte_array(h.ecdh_pubkey).len();
    &&& stands_at(bytes, at, text("{\"challenge\":"))
    &&& stands_at(bytes, p1, challenge_wire(h.challenge))
    &&& stands_at(bytes, p2, text(",\"sgx_local_report\":"))
    &&& stands_at(bytes, p3, byte_array(h.sgx_local_report))
    &&& stands_at(bytes, p4, text(",\"ecdh_pubkey\":"))
    &&& stands_at(bytes, p5, byte_array(h.ecdh_pubkey))
    &&& stands_at(bytes, p6, text("}"))
    &&& handler_info_wire(h).len() == p6 + text("}").len() - at
}

/// An encoded answer stands at `at` exactly if its parts stand one behind
/// the other.
pub proof fn lemma_handler_info_layout(bytes: Seq<u8>, at: int, h: HandlerInfoView)
    ensures
        stands_at(bytes, at, handler_info_wire(h)) <==> handler_info_layout(bytes, at, h),
{
    let t1 = text("{\"challenge\":");
    let t2 = challenge_wire(h.challenge);
    let t3 = text(",\"sgx_local_report\":");
    let t4 = byte_array(h.sgx_local_report);
    let t5 = text(",\"ecdh_pubkey\":");
    let t6 = byte_array(h.ecdh_pubkey);
    let t7 = text("}");
    let r6 = t7;
    let r5 = t6 + r6;
    let r4 = t5 + r5;
    let r3 = t4 + r4;
    let r2 = t3 + r3;
    let r1 = t2 + r2;
    let p1 = at + t1.len();
    let p2 = p1 + t2.len();
    let p3 = p2 + t3.len();
    let p4 = p3 + t4.len();
    let p5 = p4 + t5.len();
    if stands_at(bytes, at, handler_info_wire(h)) {
        lemma_stands_at_split(bytes, at, t1, r1);
        lemma_stands_at_split(bytes, p1, t2, r2);
        lemma_stands_at_split(bytes, p2, t3, r3);
        lemma_stands_at_split(bytes, p3, t4, r4);
        lemma_stands_at_split(bytes, p4, t5, r5);
        lemma_stands_at_split(bytes, p5, t6, r6);
    }
    if handler_info_layout(bytes, at, h) {
        lemma_stands_at_join(bytes, p5, t6, r6);
        lemma_stands_at_join(bytes, p4, t5, r5);
        lemma_stands_at_join(bytes, p3, t4, r4);
        lemma_stands_at_join(bytes, p2, t3, r3);
        lemma_stands_at_join(bytes, p1, t2, r2);
        lemma_stands_at_join(bytes, at, t1, r1);
    }
}

/// At one position at most one answer stands.
pub proof fn lemma_handler_info_unique(
    bytes: Seq<u8>,
    at: int,
    a: HandlerInfoView,
    b: HandlerInfoView,
)
    requires
        stands_at(bytes, at, handler_info_wire(a)),
        stands_at(bytes, at, handler_info_wire(b)),
    ensures
        a == b,
{
    lemma_handler_info_layout(bytes, at, a);
    lemma_handler_info_layout(bytes, at, b);
    let p1 = at + text("{\"challenge\":").len();
    lemma_challenge_unique(bytes, p1, a.challenge, b.challenge);
    let p3 = p1 + challenge_wire(a.challenge).len() + text(",\"sgx_local_report\":").len();
    lemma_byte_array_unique(bytes, p3, a.sgx_local_report, b.sgx_local_report);
    let p5 = p3 + byte_array(a.sgx_local_report).len() + text(",\"ecdh_pubkey\":").len();
    lemma_byte_array_unique(bytes, p5, a.ecdh_pubkey, b.ecdh_pubkey);
}

/// Reads a client's answer at the position `at`.
pub fn parse_handler_info(bytes: &[u8], at: usize) -> (r: Option<(ChallengeHandlerInfo, usize)>)
    requires
        at <= bytes@.len(),
    ensures
        r matches Some((found, end)) ==> {
            &&& stands_at(bytes@, at as int, handler_info_wire(found@))
            &&& end == at + handler_info_wire(found@).len()
        },
        forall|h: HandlerInfoView|
            h.wf() && #[trigger] stands_at(bytes@, at as int, handler_info_wire(h)) ==> {
                &&& r matches Some((found, end))
                &&& found@ == h
                &&& end == at + handler_info_wire(h).len()
            },
{
    proof {
        assert forall|h: HandlerInfoView| #[trigger]
            stands_at(bytes@, at as int, handler_info_wire(h)) implies handler_info_layout(
            bytes@,
            at as int,
            h,
        ) by {
            lemma_handler_info_layout(bytes@, at as int, h);
        }
    }
    let p1 = match expect_text(bytes, at, "{\"challenge\":") {
        Some(end) => end,
        None => {
            return None;
        },
    };
    let (challenge, p2) = match parse_challenge(bytes, p1) {
        Some(found) => found,
        None => {
            return None;
        },
    };
    let p3 = match expect_text(bytes, p2, ",\"sgx_local_report\":") {
        Some(end) => end,
        None => {
            return None;
        },
    };
    let (sgx_local_report, p4) = match parse_byte_array(bytes, p3) {
        Some(found) => found,
        None => {
            return None;
        },
    };
    let p5 = match expect_text(bytes, p4, ",\"ecdh_pubkey\":") {
        Some(end) => end,
        None => {
            return None;
        },
    };
    let (pubkey_bytes, p6) = match parse_byte_array(bytes, p5) {
        Some(found) => found,
        None => {
            return None;
        },
    };
    let p7 = match expect_text(bytes, p6, "}") {
        Some(end) => end,
        None => {
            return None;
        },
    };
    let ecdh_pubkey = match to_array::<32>(&pubkey_bytes) {
        Some(array) => array,
        None => {
            return None;
        },
    };
    let found = ChallengeHandlerInfo { challenge, sgx_local_report, ecdh_pubkey };
    proof {
        lemma_handler_info_layout(bytes@, at as int, found@);
    }
    Some((found, p7))
}

/// Where the parts of an encoded response stand when the response stands at
/// `at`.
pub open spec fn response_layout(bytes: Seq<u8>, at: int, m: ResponseView) -> bool {
    let p1 = at + text("{\"challenge_handler\":").len();
    let p2 = p1 + handler_info_wire(m.challenge_handler).len();
    let p3 = p2 + text(",\"attestation\":").len();
    let p4 = p3 + optional_bytes(m.attestation).len();
    &&& stands_at(bytes, at, text("{\"challenge_handler\":"))
    &&& stands_at(bytes, p1, handler_info_wire(m.challenge_handler))
    &&& stands_at(bytes, p2, text(",\"attestation\":"))
    &&& stands_at(bytes, p3, optional_bytes(m.attestation))
    &&& stands_at(bytes, p4, text("}"))
    &&& response_wire(m).len() == p4 + text("}").len() - at
}

/// An encoded response stands at `at` exactly if its parts stand one behind
/// the other.
pub proof fn lemma_response_layout(bytes: Seq<u8>, at: int, m: ResponseView)
    ensures
        stands_at(bytes, at, response_wire(m)) <==> response_layout(bytes, at, m),
{
    let t1 = text("{\"challenge_handler\":");
    let t2 = handler_info_wire(m.challenge_handler);
    let t3 = text(",\"attestation\":");
    let t4 = optional_bytes(m.attestation);
    let t5 = text("}");
    let r4 = t5;
    let r3 = t4 + r4;
    let r2 = t3 + r3;
    let r1 = t2 + r2;
    let p1 = at + t1.len();
    let p2 = p1 + t2.len();
    let p3 = p2 + t3.len();
    if stands_at(bytes, at, response_wire(m)) {
        lemma_stands_at_split(bytes, at, t1, r1);
        lemma_stands_at_split(bytes, p1, t2, r2);
        lemma_stands_at_split(bytes, p2, t3, r3);
        lemma_stands_at_split(bytes, p3, t4, r4);
    }
    if response_layout(bytes, at, m) {
        lemma_stands_at_join(bytes, p3, t4, r4);
        lemma_stands_at_join(bytes, p2, t3, r3);
        lemma_stands_at_join(bytes, p1, t2, r2);
        lemma_stands_at_join(bytes, at, t1, r1);
    }
}

/// At one position at most one response stands.
pub proof fn lemma_response_unique(bytes: Seq<u8>, at: int, a: ResponseView, b: ResponseView)
    requires
        stands_at(bytes, at, response_wire(a)),
        stands_at(bytes, at, response_wire(b)),
    ensures
        a == b,
{
    lemma_response_layout(bytes, at, a);
    lemma_response_layout(bytes, at, b);
    let p1 = at + text("{\"challenge_handler\":").len();
    lemma_handler_info_unique(bytes, p1, a.challenge_handler, b.challenge_handler);
    let p3 = p1 + handler_info_wire(a.challenge_handler).len() + text(",\"attestation\":").len();
    lemma_optional_bytes_unique(bytes, p3, a.attestation, b.attestation);
}

/// Reads a response at the position `at`.
pub fn parse_response(bytes: &[u8], at: usize) -> (r: Option<(HandoverChallengeResponse, usize)>)
    requires
        at <= bytes@.len(),
    ensures
        r matches Some((found, end)) ==> {
            &&& stands_at(bytes@, at as int, response_wire(found@))
            &&& end == at + response_wire(found@).len()
        },
        forall|m: ResponseView|
            m.wf() && #[trigger] stands_at(bytes@, at as int, response_wire(m)) ==> {
                &&& r matches Some((found, end))
                &&& found@ == m
                &&& end == at + response_wire(m).len()
            },
{
    proof {
        assert forall|m: ResponseView| #[trigger]
            stands_at(bytes@, at as int, response_wire(m)) implies response_layout(
            bytes@,
            at as int,
            m,
        ) by {
            lemma_response_layout(bytes@, at as int, m);
        }
    }
    let p1 = match expect_text(bytes, at, "{\"challenge_handler\":") {
        Some(end) => end,
        None => {
            return None;
        },
    };
    let (challenge_handler, p2) = match parse_handler_info(bytes, p1) {
        Some(found) => found,
        None => {
            return None;
        },
    };
    let p3 = match expect_text(bytes, p2, ",\"attestation\":") {
        Some(end) => end,
        None => {
            return None;
        },
    };
    let (attestation, p4) = match parse_optional_bytes(bytes, p3) {
        Some(found) => found,
        None => {
            return None;
        },
    };
    let p5 = match expect_text(bytes, p4, "}") {
        Some(end) => end,
        None => {
            return None;
        },
    };
    let found = HandoverChallengeResponse { challenge_handler, attestation };
    proof {
        lemma_response_layout(bytes@, at as int, found@);
    }
    Some((found, p5))
}

/// Where the parts of an encoded encrypted secret stand when it stands at
/// `at`.
pub open spec fn encrypted_data_layout(bytes: Seq<u8>, at: int, e: EncryptedDataView) -> bool {
    let p1 = at + text("{\"ecdh_pubkey\":").len();
    let p2 = p1 + byte_array(e.ecdh_pubkey).len();
    let p3 = p2 + text(",\"encrypted_data\":").len();
    let p4 = p3 + byte_array(e.encrypted_data).len();
    let p5 = p4 + text(",\"iv\":").len();
    let p6 = p5 + byte_array(e.iv).len();
    let p7 = p6 + text(",\"dev_mode\":").len();
    let p8 = p7 + boolean(e.dev_mode).len();
    &&& stands_at(bytes, at, text("{\"ecdh_pubkey\":"))
    &&& stands_at(bytes, p1, byte_array(e.ecdh_pubkey))
    &&& stands_at(bytes, p2, text(",\"encrypted_data\":"))
    &&& stands_at(bytes, p3, byte_array(e.encrypted_data))
    &&& stands_at(bytes, p4, text(",\"iv\":"))
    &&& stands_at(bytes, p5, byte_array(e.iv))
    &&& stands_at(bytes, p6, text(",\"dev_mode\":"))
    &&& stands_at(bytes, p7, boolean(e.dev_mode))
    &&& stands_at(bytes, p8, text("}"))
    &&& encrypted_data_wire(e).len() == p8 + text("}").len() - at
}

/// An encoded encrypted secret stands at `at` exactly if its parts stand one
/// behind the other.
pub proof fn lemma_encrypted_data_layout(bytes: Seq<u8>, at: int, e: EncryptedDataView)
    ensures
        stands_at(bytes, at, encrypted_data_wire(e)) <==> encrypted_data_layout(bytes, at, e),
{
    let t1 = text("{\"ecdh_pubkey\":");
    let t2 = byte_array(e.ecdh_pubkey);
    let t3 = text(",\"encrypted_data\":");
    let t4 = byte_array(e.encrypted_data);
    let t5 = text(",\"iv\":");
    let t6 = byte_array(e.iv);
    let t7 = text(",\"dev_mode\":");
    let t8 = boolean(e.dev_mode);
    let t9 = text("}");
    let r8 = t9;
    let r7 = t8 + r8;
    let r6 = t7 + r7;
    let r5 = t6 + r6;
    let r4 = t5 + r5;
    let r3 = t4 + r4;
    let r2 = t3 + r3;
    let r1 = t2 + r2;
    let p1 = at + t1.len();
    let p2 = p1 + t2.len();
    let p3 = p2 + t3.len();
    let p4 = p3 + t4.len();
    let p5 = p4 + t5.len();
    let p6 = p5 + t6.len();
    let p7 = p6 + t7.len();
    if stands_at(bytes, at, encrypted_data_wire(e)) {
        lemma_stands_at_split(bytes, at, t1, r1);
        lemma_stands_at_split(bytes, p1, t2, r2);
        lemma_stands_at_split(bytes, p2, t3, r3);
        lemma_stands_at_split(bytes, p3, t4, r4);
        lemma_stands_at_split(bytes, p4, t5, r5);
        lemma_stands_at_split(bytes, p5, t6, r6);
        lemma_stands_at_split(bytes, p6, t7, r7);
        lemma_stands_at_split(bytes, p7, t8, r8);
    }
    if encrypted_data_layout(bytes, at, e) {
        lemma_stands_at_join(bytes, p7, t8, r8);
        lemma_stands_at_join(bytes, p6, t7, r7);
        lemma_stands_at_join(bytes, p5, t6, r6);
        lemma_stands_at_join(bytes, p4, t5, r5);
        lemma_stands_at_join(bytes, p3, t4, r4);
        lemma_stands_at_join(bytes, p2, t3, r3);
        lemma_stands_at_join(bytes, p1, t2, r2);
        lemma_stands_at_join(bytes, at, t1, r1);
    }
}

/// At one position at most one encrypted secret stands.
pub proof fn lemma_encrypted_data_unique(
    bytes: Seq<u8>,
    at: int,
    a: EncryptedDataView,
    b: EncryptedDataView,
)
    requires
        stands_at(bytes, at, encrypted_data_wire(a)),
        stands_at(bytes, at, encrypted_data_wire(b)),
    ensures
        a == b,
{
    lemma_encrypted_data_layout(bytes, at, a);
    lemma_encrypted_data_layout(bytes, at, b);
    let p1 = at + text("{\"ecdh_pubkey\":").len();
    lemma_byte_array_unique(bytes, p1, a.ecdh_pubkey, b.ecdh_pubkey);
    let p3 = p1 + byte_array(a.ecdh_pubkey).len() + text(",\"encrypted_data\":").len();
    lemma_byte_array_unique(bytes, p3, a.encrypted_data, b.encrypted_data);
    let p5 = p3 + byte_array(a.encrypted_data).len() + text(",\"iv\":").len();
    lemma_byte_array_unique(bytes, p5, a.iv, b.iv);
    let p7 = p5 + byte_array(a.iv).len() + text(",\"dev_mode\":").len();
    lemma_boolean_unique(bytes, p7, a.dev_mode, b.dev_mode);
}

/// Reads an encrypted secret at the position `at`.
pub fn parse_encrypted_data(bytes: &[u8], at: usize) -> (r: Option<(EncryptedDataInfo, usize)>)
    requires
        at <= bytes@.len(),
    ensures
        r matches Some((found, end)) ==> {
            &&& stands_at(bytes@, at as int, encrypted_data_wire(found@))
            &&& end == at + encrypted_data_wire(found@).len()
        },
        forall|e: EncryptedDataView|
            e.wf() && #[trigger] stands_at(bytes@, at as int, encrypted_data_wire(e)) ==> {
                &&& r matches Some((found, end))
                &&& found@ == e
                &&& end == at + encrypted_data_wire(e).len()
            },
{
    proof {
        assert forall|e: EncryptedDataView| #[trigger]
            stands_at(bytes@, at as int, encrypted_data_wire(e)) implies encrypted_data_layout(
            bytes@,
            at as int,
            e,
        ) by {
            lemma_encrypted_data_layout(bytes@, at as int, e);
        }
    }
    let p1 = match expect_text(bytes, at, "{\"ecdh_pubkey\":") {
        Some(end) => end,
        None => {
            return None;
        },
    };
    let (pubkey_bytes, p2) = match parse_byte_array(bytes, p1) {
        Some(found) => found,
        None => {
            return None;
        },
    };
    let p3 = match expect_text(bytes, p2, ",\"encrypted_data\":") {
        Some(end) => end,
        None => {
            return None;
        },
    };
    let (encrypted_data, p4) = match parse_byte_array(bytes, p3) {
        Some(found) => found,
        None => {
            return None;
        },
    };
    let p5 = match expect_text(bytes, p4, ",\"iv\":") {
        Some(end) => end,
        None => {
            return None;
        },
    };
    let (iv_bytes, p6) = match parse_byte_array(bytes, p5) {
        Some(found) => found,
        None => {
            return None;
        },
    };
    let p7 = match expect_text(bytes, p6, ",\"dev_mode\":") {
        Some(end) => end,
        None => {
            return None;
        },
    };
    let (dev_mode, p8) = match parse_boolean(bytes, p7) {
        Some(found) => found,
        None => {
            return None;
        },
    };
    let p9 = match expect_text(bytes, p8, "}") {
        Some(end) => end,
        None => {
            return None;
        },
    };
    let ecdh_pubkey = match to_array::<32>(&pubkey_bytes) {
        Some(array) => array,
        None => {
            return None;
        },
    };
    let iv = match to_array::<12>(&iv_bytes) {
        Some(array) => array,
        None => {
            return None;
        },
    };
    let found = EncryptedDataInfo { ecdh_pubkey, encrypted_data, iv, dev_mode };
    proof {
        lemma_encrypted_data_layout(bytes@, at as int, found@);
    }
    Some((found, p9))
}

/// Where the parts of an encoded result stand when the result stands at `at`.
pub open spec fn secret_data_layout(bytes: Seq<u8>, at: int, m: SecretDataView) -> bool {
    let p1 = at + text("{\"encrypted_data_info\":").len();
    let p2 = p1 + encrypted_data_wire(m.encrypted_data_info).len();
    let p3 = p2 + text(",\"attestation\":").len();
    let p4 = p3 + optional_bytes(m.attestation).len();
    &&& stands_at(bytes, at, text("{\"encrypted_data_info\":"))
    &&& stands_at(bytes, p1, encrypted_data_wire(m.encrypted_data_info))
    &&& stands_at(bytes, p2, text(",\"attestation\":"))
    &&& stands_at(bytes, p3, optional_bytes(m.attestation))
    &&& stands_at(bytes, p4, text("}"))
    &&& secret_data_wire(m).len() == p4 + text("}").len() - at
}

/// An encoded result stands at `at` exactly if its parts stand one behind
/// the other.
pub proof fn lemma_secret_data_layout(bytes: Seq<u8>, at: int, m: SecretDataView)
    ensures
        stands_at(bytes, at, secret_data_wire(m)) <==> secret_data_layout(bytes, at, m),
{
    let t1 = text("{\"encrypted_data_info\":");
    let t2 = encrypted_data_wire(m.encrypted_data_info);
    let t3 = text(",\"attestation\":");
    let t4 = optional_bytes(m.attestation);
    let t5 = text("}");
    let r4 = t5;
    let r3 = t4 + r4;
    let r2 = t3 + r3;
    let r1 = t2 + r2;
    let p1 = at + t1.len();
    let p2 = p1 + t2.len();
    let p3 = p2 + t3.len();
    if stands_at(bytes, at, secret_data_wire(m)) {
        lemma_stands_at_split(bytes, at, t1, r1);
        lemma_stands_at_split(bytes, p1, t2, r2);
        lemma_stands_at_split(bytes, p2, t3, r3);
        lemma_stands_at_split(bytes, p3, t4, r4);
    }
    if secret_data_layout(bytes, at, m) {
        lemma_stands_at_join(bytes, p3, t4, r4);
        lemma_stands_at_join(bytes, p2, t3, r3);
        lemma_stands_at_join(bytes, p1, t2, r2);
        lemma_stands_at_join(bytes, at, t1, r1);
    }
}

/// At one position at most one result stands.
pub proof fn lemma_secret_data_unique(
    bytes: Seq<u8>,
    at: int,
    a: SecretDataView,
    b: SecretDataView,
)
    requires
        stands_at(bytes, at, secret_data_wire(a)),
        stands_at(bytes, at, secret_data_wire(b)),
    ensures
        a == b,
{
    lemma_secret_data_layout(bytes, at, a);
    lemma_secret_data_layout(bytes, at, b);
    let p1 = at + text("{\"encrypted_data_info\":").len();
    lemma_encrypted_data_unique(bytes, p1, a.encrypted_data_info, b.encrypted_data_info);
    let p3 = p1 + encrypted_data_wire(a.encrypted_data_info).len() + text(
        ",\"attestation\":",
    ).len();
    lemma_optional_bytes_unique(bytes, p3, a.attestation, b.attestation);
}

/// Reads a server's result at the position `at`.
pub fn parse_secret_data(bytes: &[u8], at: usize) -> (r: Option<(HandoverSecretData, usize)>)
    requires
        at <= bytes@.len(),
    ensures
        r matches Some((found, end)) ==> {
            &&& stands_at(bytes@, at as int, secret_data_wire(found@))
            &&& end == at + secret_data_wire(found@).len()
        },
        forall|m: SecretDataView|
            m.wf() && #[trigger] stands_at(bytes@, at as int, secret_data_wire(m)) ==> {
                &&& r matches Some((found, end))
                &&& found@ == m
                &&& end == at + secret_data_wire(m).len()
            },
{
    proof {
        assert forall|m: SecretDataView| #[trigger]
            stands_at(bytes@, at as int, secret_data_wire(m)) implies secret_data_layout(
            bytes@,
            at as int,
            m,
        ) by {
            lemma_secret_data_layout(bytes@, at as int, m);
        }
    }
    let p1 = match expect_text(bytes, at, "{\"encrypted_data_info\":") {
        Some(end) => end,
        None => {
            return None;
        },
    };
    let (encrypted_data_info, p2) = match parse_encrypted_data(bytes, p1) {
        Some(found) => found,
        None => {
            return None;
        },
    };
    let p3 = match expect_text(bytes, p2, ",\"attestation\":") {
        Some(end) => end,
        None => {
            return None;
        },
    };
    let (attestation, p4) = match parse_optional_bytes(bytes, p3) {
        Some(found) => found,
        None => {
            return None;
        },
    };
    let p5 = match expect_text(bytes, p4, "}") {
        Some(end) => end,
        None => {
            return None;
        },
    };
    let found = HandoverSecretData { encrypted_data_info, attestation };
    proof {
        lemma_secret_data_layout(bytes@, at as int, found@);
    }
    Some((found, p5))
}

/// Decodes a challenge. The bytes have to be the encoding of a challenge,
/// with nothing before or behind it.
pub fn decode_challenge(bytes: &[u8]) -> (r: Result<HandoverChallenge, HandoverError>)
    ensures
        r matches Ok(challenge) ==> challenge_wire(challenge@) == bytes@,
        r matches Err(e) ==> e == HandoverError::SerializationError,
        forall|c: ChallengeView|
            c.wf() && #[trigger] challenge_wire(c) == bytes@ ==> (r matches Ok(challenge)
                && challenge@ == c),
{
    proof {
        assert forall|c: ChallengeView| #[trigger] challenge_wire(c) == bytes@ implies stands_at(
            bytes@,
            0,
            challenge_wire(c),
        ) by {
            lemma_whole(bytes@, challenge_wire(c));
        }
    }
    match parse_challenge(bytes, 0) {
        Some((challenge, end)) => if end == bytes.len() {
            proof {
                lemma_whole(bytes@, challenge_wire(challenge@));
            }
            Ok(challenge)
        } else {
            Err(HandoverError::SerializationError)
        },
        None => Err(HandoverError::SerializationError),
    }
}

/// Decodes a response. The bytes have to be the encoding of a response, with
/// nothing before or behind it.
pub fn decode_response(bytes: &[u8]) -> (r: Result<HandoverChallengeResponse, HandoverError>)
    ensures
        r matches Ok(response) ==> response_wire(response@) == bytes@,
        r matches Err(e) ==> e == HandoverError::SerializationError,
        forall|m: ResponseView|
            m.wf() && #[trigger] response_wire(m) == bytes@ ==> (r matches Ok(response)
                && response@ == m),
{
    proof {
        assert forall|m: ResponseView| #[trigger] response_wire(m) == bytes@ implies stands_at(
            bytes@,
            0,
            response_wire(m),
        ) by {
            lemma_whole(bytes@, response_wire(m));
        }
    }
    match parse_response(bytes, 0) {
        Some((response, end)) => if end == bytes.len() {
            proof {
                lemma_whole(bytes@, response_wire(response@));
            }
            Ok(response)
        } else {
            Err(HandoverError::SerializationError)
        },
        None => Err(HandoverError::SerializationError),
    }
}

/// Decodes a server's result. The bytes have to be the encoding of a result,
/// with nothing before or behind it.
pub fn decode_secret_data(bytes: &[u8]) -> (r: Result<HandoverSecretData, HandoverError>)
    ensures
        r matches Ok(data) ==> secret_data_wire(data@) == bytes@,
        r matches Err(e) ==> e == HandoverError::SerializationError,
        forall|m: SecretDataView|
            m.wf() && #[trigger] secret_data_wire(m) == bytes@ ==> (r matches Ok(data) && data@
                == m),
{
    proof {
        assert forall|m: SecretDataView| #[trigger] secret_data_wire(m) == bytes@ implies stands_at(
            bytes@,
            0,
            secret_data_wire(m),
        ) by {
            lemma_whole(bytes@, secret_data_wire(m));
        }
    }
    match parse_secret_data(bytes, 0) {
        Some((data, end)) => if end == bytes.len() {
            proof {
                lemma_whole(bytes@, secret_data_wire(data@));
            }
            Ok(data)
        } else {
            Err(HandoverError::SerializationError)
        },
        None => Err(HandoverError::SerializationError),
    }
}

} // verus!
