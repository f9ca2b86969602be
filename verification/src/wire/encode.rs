//! Writing messages in their wire format. Each encoder emits exactly the
//! bytes that the format gives for its message.

use vstd::prelude::*;
use crate::message::{
    ChallengeHandlerInfo, EncryptedDataInfo, HandoverChallenge, HandoverChallengeResponse,
    HandoverSecretData, optional_view,
};
use crate::wire::format::{
    boolean, byte_array, challenge_wire, decimal, encrypted_data_wire, handler_info_wire,
    lemma_array_tail_closes, lemma_byte_array_push, lemma_regroup, optional_bytes,
    response_wire, secret_data_wire, text, CLOSE, COMMA, OPEN, ZERO,
};

verus! {

/// Appends the bytes of `lit`.
pub fn put_text(out: &mut Vec<u8>, lit: &str)
    ensures
        final(out)@ == old(out)@ + text(lit),
{
    let bytes = lit.as_bytes();
    let mut i: usize = 0;
    while i < bytes.len()
        invariant
            i <= bytes@.len(),
            bytes@ == text(lit),
            out@ == old(out)@ + bytes@.subrange(0, i as int),
        decreases bytes@.len() - i,
    {
        out.push(bytes[i]);
        i = i + 1;
    }
}

/// Appends `n` in decimal.
pub fn put_decimal(out: &mut Vec<u8>, n: u64)
    ensures
        final(out)@ == old(out)@ + decimal(n as nat),
    decreases n,
{
    if n >= 10 {
        put_decimal(out, n / 10);
    }
    out.push(ZERO + (n % 10) as u8);
}

/// Appends `bytes` as an array of numbers.
pub fn put_byte_array(out: &mut Vec<u8>, bytes: &[u8])
    ensures
        final(out)@ == old(out)@ + byte_array(bytes@),
{
    out.push(OPEN);
    let mut i: usize = 0;
    while i < bytes.len()
        invariant
            i <= bytes@.len(),
            i == 0 ==> out@ == old(out)@ + seq![OPEN],
            i > 0 ==> out@ == old(out)@ + byte_array(bytes@.subrange(0, i as int)).drop_last(),
        decreases bytes@.len() - i,
    {
        proof {
            lemma_byte_array_push(bytes@.subrange(0, i as int), bytes@[i as int]);
            assert(bytes@.subrange(0, i + 1) == bytes@.subrange(0, i as int).push(
                bytes@[i as int],
            ));
        }
        if i > 0 {
            out.push(COMMA);
        }
        put_decimal(out, bytes[i] as u64);
        i = i + 1;
    }
    out.push(CLOSE);
    proof {
        assert(bytes@ == bytes@.subrange(0, i as int));
        if i > 0 {
            lemma_array_tail_closes(bytes@.drop_first());
        }
    }
}

/// Appends `true` or `false`.
pub fn put_boolean(out: &mut Vec<u8>, b: bool)
    ensures
        final(out)@ == old(out)@ + boolean(b),
{
    if b {
        put_text(out, "true");
    } else {
        put_text(out, "false");
    }
}

/// Appends the array of `bytes`, or `null` where there is none.
pub fn put_optional_bytes(out: &mut Vec<u8>, bytes: &Option<Vec<u8>>)
    ensures
        final(out)@ == old(out)@ + optional_bytes(optional_view(*bytes)),
{
    match bytes {
        Some(b) => put_byte_array(out, b.as_slice()),
        None => put_text(out, "null"),
    }
}

/// Appends the encoding of a challenge.
pub fn put_challenge(out: &mut Vec<u8>, c: &HandoverChallenge)
    ensures
        final(out)@ == old(out)@ + challenge_wire(c@),
{
    let ghost o0 = out@;
    put_text(out, "{\"sgx_target_info\":");
    let ghost o1 = out@;
    put_byte_array(out, c.sgx_target_info.as_slice());
    let ghost o2 = out@;
    put_text(out, ",\"block_number\":");
    let ghost o3 = out@;
    put_decimal(out, c.block_number);
    let ghost o4 = out@;
    put_text(out, ",\"dev_mode\":");
    let ghost o5 = out@;
    put_boolean(out, c.dev_mode);
    let ghost o6 = out@;
    put_text(out, ",\"nonce\":");
    let ghost o7 = out@;
    put_byte_array(out, &c.nonce);
    put_text(out, "}");
    proof {
        let r8 = text("}");
        let r7 = byte_array(c@.nonce) + r8;
        let r6 = text(",\"nonce\":") + r7;
        let r5 = boolean(c@.dev_mode) + r6;
        let r4 = text(",\"dev_mode\":") + r5;
        let r3 = decimal(c@.block_number as nat) + r4;
        let r2 = text(",\"block_number\":") + r3;
        let r1 = byte_array(c@.sgx_target_info) + r2;
        lemma_regroup(o7, byte_array(c@.nonce), r8);
        lemma_regroup(o6, text(",\"nonce\":"), r7);
        lemma_regroup(o5, boolean(c@.dev_mode), r6);
        lemma_regroup(o4, text(",\"dev_mode\":"), r5);
        lemma_regroup(o3, decimal(c@.block_number as nat), r4);
        lemma_regroup(o2, text(",\"block_number\":"), r3);
        lemma_regroup(o1, byte_array(c@.sgx_target_info), r2);
        lemma_regroup(o0, text("{\"sgx_target_info\":"), r1);
    }
}

/// Appends the encoding of a client's answer.
pub fn put_handler_info(out: &mut Vec<u8>, h: &ChallengeHandlerInfo)
    ensures
        final(out)@ == old(out)@ + handler_info_wire(h@),
{
    let ghost o0 = out@;
    put_text(out, "{\"challenge\":");
    let ghost o1 = out@;
    put_challenge(out, &h.challenge);
    let ghost o2 = out@;
    put_text(out, ",\"sgx_local_report\":");
    let ghost o3 = out@;
    put_byte_array(out, h.sgx_local_report.as_slice());
    let ghost o4 = out@;
    put_text(out, ",\"ecdh_pubkey\":");
    let ghost o5 = out@;
    put_byte_array(out, &h.ecdh_pubkey);
    put_text(out, "}");
    proof {
        let r6 = text("}");
        let r5 = byte_array(h@.ecdh_pubkey) + r6;
        let r4 = text(",\"ecdh_pubkey\":") + r5;
        let r3 = byte_array(h@.sgx_local_report) + r4;
        let r2 = text(",\"sgx_local_report\":") + r3;
        let r1 = challenge_wire(h@.challenge) + r2;
        lemma_regroup(o5, byte_array(h@.ecdh_pubkey), r6);
        lemma_regroup(o4, text(",\"ecdh_pubkey\":"), r5);
        lemma_regroup(o3, byte_array(h@.sgx_local_report), r4);
        lemma_regroup(o2, text(",\"sgx_local_report\":"), r3);
        lemma_regroup(o1, challenge_wire(h@.challenge), r2);
        lemma_regroup(o0, text("{\"challenge\":"), r1);
    }
}

/// Appends the encoding of a response.
pub fn put_response(out: &mut Vec<u8>, r: &HandoverChallengeResponse)
    ensures
        final(out)@ == old(out)@ + response_wire(r@),
{
    let ghost o0 = out@;
    put_text(out, "{\"challenge_handler\":");
    let ghost o1 = out@;
    put_handler_info(out, &r.challenge_handler);
    let ghost o2 = out@;
    put_text(out, ",\"attestation\":");
    let ghost o3 = out@;
    put_optional_bytes(out, &r.attestation);
    put_text(out, "}");
    proof {
        let r4 = text("}");
        let r3 = optional_bytes(r@.attestation) + r4;
        let r2 = text(",\"attestation\":") + r3;
        let r1 = handler_info_wire(r@.challenge_handler) + r2;
        lemma_regroup(o3, optional_bytes(r@.attestation), r4);
        lemma_regroup(o2, text(",\"attestation\":"), r3);
        lemma_regroup(o1, handler_info_wire(r@.challenge_handler), r2);
        lemma_regroup(o0, text("{\"challenge_handler\":"), r1);
    }
}

/// Appends the encoding of an encrypted secret.
pub fn put_encrypted_data(out: &mut Vec<u8>, e: &EncryptedDataInfo)
    ensures
        final(out)@ == old(out)@ + encrypted_data_wire(e@),
{
    let ghost o0 = out@;
    put_text(out, "{\"ecdh_pubkey\":");
    let ghost o1 = out@;
    put_byte_array(out, &e.ecdh_pubkey);
    let ghost o2 = out@;
    put_text(out, ",\"encrypted_data\":");
    let ghost o3 = out@;
    put_byte_array(out, e.encrypted_data.as_slice());
    let ghost o4 = out@;
    put_text(out, ",\"iv\":");
    let ghost o5 = out@;
    put_byte_array(out, &e.iv);
    let ghost o6 = out@;
    put_text(out, ",\"dev_mode\":");
    let ghost o7 = out@;
    put_boolean(out, e.dev_mode);
    put_text(out, "}");
    proof {
        let r8 = text("}");
        let r7 = boolean(e@.dev_mode) + r8;
        let r6 = text(",\"dev_mode\":") + r7;
        let r5 = byte_array(e@.iv) + r6;
        let r4 = text(",\"iv\":") + r5;
        let r3 = byte_array(e@.encrypted_data) + r4;
        let r2 = text(",\"encrypted_data\":") + r3;
        let r1 = byte_array(e@.ecdh_pubkey) + r2;
        lemma_regroup(o7, boolean(e@.dev_mode), r8);
        lemma_regroup(o6, text(",\"dev_mode\":"), r7);
        lemma_regroup(o5, byte_array(e@.iv), r6);
        lemma_regroup(o4, text(",\"iv\":"), r5);
        lemma_regroup(o3, byte_array(e@.encrypted_data), r4);
        lemma_regroup(o2, text(",\"encrypted_data\":"), r3);
        lemma_regroup(o1, byte_array(e@.ecdh_pubkey), r2);
        lemma_regroup(o0, text("{\"ecdh_pubkey\":"), r1);
    }
}

/// Appends the encoding of a server's result.
pub fn put_secret_data(out: &mut Vec<u8>, s: &HandoverSecretData)
    ensures
        final(out)@ == old(out)@ + secret_data_wire(s@),
{
    let ghost o0 = out@;
    put_text(out, "{\"encrypted_data_info\":");
    let ghost o1 = out@;
    put_encrypted_data(out, &s.encrypted_data_info);
    let ghost o2 = out@;
    put_text(out, ",\"attestation\":");
    let ghost o3 = out@;
    put_optional_bytes(out, &s.attestation);
    put_text(out, "}");
    proof {
        let r4 = text("}");
        let r3 = optional_bytes(s@.attestation) + r4;
        let r2 = text(",\"attestation\":") + r3;
        let r1 = encrypted_data_wire(s@.encrypted_data_info) + r2;
        lemma_regroup(o3, optional_bytes(s@.attestation), r4);
        lemma_regroup(o2, text(",\"attestation\":"), r3);
        lemma_regroup(o1, encrypted_data_wire(s@.encrypted_data_info), r2);
        lemma_regroup(o0, text("{\"encrypted_data_info\":"), r1);
    }
}

/// The bytes of a challenge on the wire.
pub fn encode_challenge(c: &HandoverChallenge) -> (bytes: Vec<u8>)
    ensures
        bytes@ == challenge_wire(c@),
{
    let mut out: Vec<u8> = Vec::new();
    put_challenge(&mut out, c);
    out
}

/// The bytes of a client's answer, as the attestation over it sees them.
pub fn encode_handler_info(h: &ChallengeHandlerInfo) -> (bytes: Vec<u8>)
    ensures
        bytes@ == handler_info_wire(h@),
{
    let mut out: Vec<u8> = Vec::new();
    put_handler_info(&mut out, h);
    out
}

/// The bytes of a response on the wire.
pub fn encode_response(r: &HandoverChallengeResponse) -> (bytes: Vec<u8>)
    ensures
        bytes@ == response_wire(r@),
{
    let mut out: Vec<u8> = Vec::new();
    put_response(&mut out, r);
    out
}

/// The bytes of an encrypted secret, as the attestation over it sees them.
pub fn encode_encrypted_data(e: &EncryptedDataInfo) -> (bytes: Vec<u8>)
    ensures
        bytes@ == encrypted_data_wire(e@),
{
    let mut out: Vec<u8> = Vec::new();
    put_encrypted_data(&mut out, e);
    out
}

/// The bytes of the server's result on the wire.
pub fn encode_secret_data(s: &HandoverSecretData) -> (bytes: Vec<u8>)
    ensures
        bytes@ == secret_data_wire(s@),
{
    let mut out: Vec<u8> = Vec::new();
    put_secret_data(&mut out, s);
    out
}

} // verus!
