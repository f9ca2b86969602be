use handover::wire::numeral::parse_decimal;
use handover::wire::values::{parse_boolean, parse_byte_array};
use handover::wire::{decode_challenge, decode_response, decode_secret_data};
use handover::wire::{
    encode_challenge, encode_encrypted_data, encode_handler_info, encode_response,
    encode_secret_data,
};
use handover::sealing::digest_handler_info;
use serde::ser::{Serialize, SerializeStruct, Serializer};
use handover::{
    ChallengeHandlerInfo, EncryptedDataInfo, HandoverChallenge, HandoverChallengeResponse,
    HandoverError, HandoverSecretData,
};

fn ones() -> String {
    vec!["1"; 32].join(",")
}

fn challenge() -> HandoverChallenge {
    HandoverChallenge {
        sgx_target_info: vec![1, 2, 3],
        block_number: 1000,
        dev_mode: false,
        nonce: [1u8; 32],
    }
}

fn response() -> HandoverChallengeResponse {
    HandoverChallengeResponse {
        challenge_handler: ChallengeHandlerInfo {
            challenge: challenge(),
            sgx_local_report: vec![0, 9, 10, 99, 100, 255],
            ecdh_pubkey: [1u8; 32],
        },
        attestation: Some(vec![7, 8]),
    }
}

fn secret_data() -> HandoverSecretData {
    let mut iv = [0u8; 12];
    for i in 0..12 {
        iv[i] = i as u8;
    }
    HandoverSecretData {
        encrypted_data_info: EncryptedDataInfo {
            ecdh_pubkey: [1u8; 32],
            encrypted_data: vec![200, 201],
            iv,
            dev_mode: true,
        },
        attestation: None,
    }
}

#[test]
fn a_challenge_on_the_wire() {
    let expected = format!(
        "{{\"sgx_target_info\":[1,2,3],\"block_number\":1000,\"dev_mode\":false,\"nonce\":[{}]}}",
        ones()
    );
    assert_eq!(String::from_utf8(encode_challenge(&challenge())).unwrap(), expected);
}

#[test]
fn an_answer_on_the_wire() {
    let expected = format!(
        "{{\"challenge\":{{\"sgx_target_info\":[1,2,3],\"block_number\":1000,\"dev_mode\":false,\"nonce\":[{}]}},\"sgx_local_report\":[0,9,10,99,100,255],\"ecdh_pubkey\":[{}]}}",
        ones(),
        ones()
    );
    let info = response().challenge_handler;
    assert_eq!(String::from_utf8(encode_handler_info(&info)).unwrap(), expected);
}

#[test]
fn a_response_on_the_wire() {
    let bytes = encode_response(&response());
    let text = String::from_utf8(bytes).unwrap();
    assert!(text.starts_with("{\"challenge_handler\":{\"challenge\":{\"sgx_target_info\":[1,2,3],"));
    assert!(text.ends_with(",\"attestation\":[7,8]}"));
}

#[test]
fn a_result_on_the_wire() {
    let expected = format!(
        "{{\"encrypted_data_info\":{{\"ecdh_pubkey\":[{}],\"encrypted_data\":[200,201],\"iv\":[0,1,2,3,4,5,6,7,8,9,10,11],\"dev_mode\":true}},\"attestation\":null}}",
        ones()
    );
    assert_eq!(String::from_utf8(encode_secret_data(&secret_data())).unwrap(), expected);
    let envelope = secret_data().encrypted_data_info;
    let inner = String::from_utf8(encode_encrypted_data(&envelope)).unwrap();
    assert!(expected.contains(&inner));
}

#[test]
fn the_encoding_is_json() {
    let value: serde_json::Value = serde_json::from_slice(&encode_response(&response())).unwrap();
    let info = value.get("challenge_handler").unwrap();
    let inner = info.get("challenge").unwrap();
    assert_eq!(inner.get("block_number").unwrap().as_u64(), Some(1000));
    assert_eq!(inner.get("dev_mode").unwrap().as_bool(), Some(false));
    assert_eq!(inner.get("sgx_target_info").unwrap().as_array().unwrap().len(), 3);
    assert_eq!(inner.get("nonce").unwrap().as_array().unwrap().len(), 32);
    assert_eq!(info.get("ecdh_pubkey").unwrap().as_array().unwrap().len(), 32);
    let report = info.get("sgx_local_report").unwrap().as_array().unwrap();
    assert_eq!(report[5].as_u64(), Some(255));
    assert_eq!(value.get("attestation").unwrap().as_array().unwrap()[1].as_u64(), Some(8));

    let value: serde_json::Value =
        serde_json::from_slice(&encode_secret_data(&secret_data())).unwrap();
    assert!(value.get("attestation").unwrap().is_null());
    let envelope = value.get("encrypted_data_info").unwrap();
    assert_eq!(envelope.get("dev_mode").unwrap().as_bool(), Some(true));
    assert_eq!(envelope.get("iv").unwrap().as_array().unwrap().len(), 12);
}

#[test]
fn the_encoding_is_what_serde_json_writes_for_the_parts() {
    assert_eq!(
        encode_challenge(&HandoverChallenge {
            sgx_target_info: Vec::new(),
            block_number: u64::MAX,
            dev_mode: true,
            nonce: [255u8; 32],
        }),
        format!(
            "{{\"sgx_target_info\":{},\"block_number\":{},\"dev_mode\":{},\"nonce\":{}}}",
            serde_json::to_string(&Vec::<u8>::new()).unwrap(),
            serde_json::to_string(&u64::MAX).unwrap(),
            serde_json::to_string(&true).unwrap(),
            serde_json::to_string(&[255u8; 32]).unwrap()
        )
        .into_bytes()
    );
}

#[test]
fn challenge_roundtrip() {
    let sent = challenge();
    assert_eq!(decode_challenge(&encode_challenge(&sent)), Ok(sent));
    let empty = HandoverChallenge {
        sgx_target_info: Vec::new(),
        block_number: 0,
        dev_mode: true,
        nonce: [0u8; 32],
    };
    assert_eq!(decode_challenge(&encode_challenge(&empty)), Ok(empty));
    let large = HandoverChallenge {
        sgx_target_info: (0..=255).collect(),
        block_number: u64::MAX,
        dev_mode: false,
        nonce: [255u8; 32],
    };
    assert_eq!(decode_challenge(&encode_challenge(&large)), Ok(large));
}

#[test]
fn response_roundtrip() {
    let sent = response();
    assert_eq!(decode_response(&encode_response(&sent)), Ok(sent));
    let mut unattested = response();
    unattested.attestation = None;
    assert_eq!(decode_response(&encode_response(&unattested)), Ok(unattested));
    let mut empty_attestation = response();
    empty_attestation.attestation = Some(Vec::new());
    assert_eq!(decode_response(&encode_response(&empty_attestation)), Ok(empty_attestation));
}

#[test]
fn result_roundtrip() {
    let sent = secret_data();
    assert_eq!(decode_secret_data(&encode_secret_data(&sent)), Ok(sent));
    let mut attested = secret_data();
    attested.attestation = Some(vec![1, 2, 3]);
    attested.encrypted_data_info.dev_mode = false;
    assert_eq!(decode_secret_data(&encode_secret_data(&attested)), Ok(attested));
}

#[test]
fn the_digest_survives_the_wire() {
    let sent = response();
    let received = decode_response(&encode_response(&sent)).unwrap();
    assert_eq!(
        digest_handler_info(&received.challenge_handler),
        digest_handler_info(&sent.challenge_handler)
    );
}

#[test]
fn what_is_no_encoding_is_refused() {
    let good = encode_challenge(&challenge());
    assert_eq!(decode_challenge(b""), Err(HandoverError::SerializationError));
    assert_eq!(decode_challenge(b"{}"), Err(HandoverError::SerializationError));
    assert_eq!(decode_challenge(&good[..good.len() - 1]), Err(HandoverError::SerializationError));
    let mut trailing = good.clone();
    trailing.push(b' ');
    assert_eq!(decode_challenge(&trailing), Err(HandoverError::SerializationError));
    let mut leading = vec![b' '];
    leading.extend_from_slice(&good);
    assert_eq!(decode_challenge(&leading), Err(HandoverError::SerializationError));
    assert_eq!(decode_response(&good), Err(HandoverError::SerializationError));
    assert_eq!(decode_secret_data(&good), Err(HandoverError::SerializationError));
}

#[test]
fn only_the_one_form_is_accepted() {
    let nonce = ones();
    let decode = |text: String| decode_challenge(text.as_bytes());
    let form = |info: &str, block: &str, mode: &str, nonce: &str| {
        format!(
            "{{\"sgx_target_info\":{},\"block_number\":{},\"dev_mode\":{},\"nonce\":[{}]}}",
            info, block, mode, nonce
        )
    };
    assert!(decode(form("[1,2,3]", "1000", "false", &nonce)).is_ok());
    assert!(decode(form("[1, 2,3]", "1000", "false", &nonce)).is_err());
    assert!(decode(form("[1,2,3,]", "1000", "false", &nonce)).is_err());
    assert!(decode(form("[01,2,3]", "1000", "false", &nonce)).is_err());
    assert!(decode(form("[256]", "1000", "false", &nonce)).is_err());
    assert!(decode(form("[-1]", "1000", "false", &nonce)).is_err());
    assert!(decode(form("[1,2,3]", "01000", "false", &nonce)).is_err());
    assert!(decode(form("[1,2,3]", "", "false", &nonce)).is_err());
    assert!(decode(form("[1,2,3]", "18446744073709551615", "false", &nonce)).is_ok());
    assert!(decode(form("[1,2,3]", "18446744073709551616", "false", &nonce)).is_err());
    assert!(decode(form("[1,2,3]", "1000", "False", &nonce)).is_err());
    assert!(decode(form("[1,2,3]", "1000", "0", &nonce)).is_err());
    assert!(decode(form("[1,2,3]", "1000", "false", &vec!["1"; 31].join(","))).is_err());
    assert!(decode(form("[1,2,3]", "1000", "false", &vec!["1"; 33].join(","))).is_err());
    assert!(decode(form("null", "1000", "false", &nonce)).is_err());
}

#[test]
fn fields_in_another_order_are_refused() {
    let text = format!(
        "{{\"block_number\":1000,\"sgx_target_info\":[1,2,3],\"dev_mode\":false,\"nonce\":[{}]}}",
        ones()
    );
    assert_eq!(decode_challenge(text.as_bytes()), Err(HandoverError::SerializationError));
}

#[test]
fn numbers_are_read_as_far_as_their_digits_go() {
    assert_eq!(parse_decimal(b"0", 0), Some((0, 1)));
    assert_eq!(parse_decimal(b"x42,", 1), Some((42, 3)));
    assert_eq!(parse_decimal(b"18446744073709551615", 0), Some((u64::MAX, 20)));
    assert_eq!(parse_decimal(b"18446744073709551616", 0), None);
    assert_eq!(parse_decimal(b"007", 0), None);
    assert_eq!(parse_decimal(b"", 0), None);
    assert_eq!(parse_decimal(b"a", 0), None);
    assert_eq!(parse_decimal(b"12", 2), None);
}

#[test]
fn arrays_and_booleans_are_read_in_place() {
    assert_eq!(parse_byte_array(b"[]", 0), Some((Vec::new(), 2)));
    assert_eq!(parse_byte_array(b"[0]", 0), Some((vec![0], 3)));
    assert_eq!(parse_byte_array(b"..[1,22,255]..", 2), Some((vec![1, 22, 255], 12)));
    assert_eq!(parse_byte_array(b"[1,22,255", 0), None);
    assert_eq!(parse_byte_array(b"[1,,2]", 0), None);
    assert_eq!(parse_byte_array(b"[", 0), None);
    assert_eq!(parse_byte_array(b"", 0), None);
    assert_eq!(parse_boolean(b"true", 0), Some((true, 4)));
    assert_eq!(parse_boolean(b"[false]", 1), Some((false, 6)));
    assert_eq!(parse_boolean(b"tru", 0), None);
}

/// The messages as serde sees a struct with these fields in this order.
struct AsChallenge<'a>(&'a HandoverChallenge);

struct AsHandlerInfo<'a>(&'a ChallengeHandlerInfo);

struct AsResponse<'a>(&'a HandoverChallengeResponse);

struct AsEncryptedData<'a>(&'a EncryptedDataInfo);

struct AsSecretData<'a>(&'a HandoverSecretData);

impl Serialize for AsChallenge<'_> {
    fn serialize<S: Serializer>(&self, serializer: S) -> Result<S::Ok, S::Error> {
        let mut fields = serializer.serialize_struct("HandoverChallenge", 4)?;
        fields.serialize_field("sgx_target_info", &self.0.sgx_target_info)?;
        fields.serialize_field("block_number", &self.0.block_number)?;
        fields.serialize_field("dev_mode", &self.0.dev_mode)?;
        fields.serialize_field("nonce", &self.0.nonce)?;
        fields.end()
    }
}

impl Serialize for AsHandlerInfo<'_> {
    fn serialize<S: Serializer>(&self, serializer: S) -> Result<S::Ok, S::Error> {
        let mut fields = serializer.serialize_struct("ChallengeHandlerInfo", 3)?;
        fields.serialize_field("challenge", &AsChallenge(&self.0.challenge))?;
        fields.serialize_field("sgx_local_report", &self.0.sgx_local_report)?;
        fields.serialize_field("ecdh_pubkey", &self.0.ecdh_pubkey)?;
        fields.end()
    }
}

impl Serialize for AsResponse<'_> {
    fn serialize<S: Serializer>(&self, serializer: S) -> Result<S::Ok, S::Error> {
        let mut fields = serializer.serialize_struct("HandoverChallengeResponse", 2)?;
        fields.serialize_field("challenge_handler", &AsHandlerInfo(&self.0.challenge_handler))?;
        fields.serialize_field("attestation", &self.0.attestation)?;
        fields.end()
    }
}

impl Serialize for AsEncryptedData<'_> {
    fn serialize<S: Serializer>(&self, serializer: S) -> Result<S::Ok, S::Error> {
        let mut fields = serializer.serialize_struct("EncryptedDataInfo", 4)?;
        fields.serialize_field("ecdh_pubkey", &self.0.ecdh_pubkey)?;
        fields.serialize_field("encrypted_data", &self.0.encrypted_data)?;
        fields.serialize_field("iv", &self.0.iv)?;
        fields.serialize_field("dev_mode", &self.0.dev_mode)?;
        fields.end()
    }
}

impl Serialize for AsSecretData<'_> {
    fn serialize<S: Serializer>(&self, serializer: S) -> Result<S::Ok, S::Error> {
        let mut fields = serializer.serialize_struct("HandoverSecretData", 2)?;
        fields.serialize_field("encrypted_data_info", &AsEncryptedData(&self.0.encrypted_data_info))?;
        fields.serialize_field("attestation", &self.0.attestation)?;
        fields.end()
    }
}

#[test]
fn the_encoding_is_what_serde_json_writes() {
    let mut challenges = vec![challenge()];
    challenges.push(HandoverChallenge {
        sgx_target_info: (0..=255).collect(),
        block_number: u64::MAX,
        dev_mode: true,
        nonce: [255u8; 32],
    });
    challenges.push(HandoverChallenge {
        sgx_target_info: Vec::new(),
        block_number: 0,
        dev_mode: false,
        nonce: [0u8; 32],
    });
    for c in &challenges {
        assert_eq!(encode_challenge(c), serde_json::to_vec(&AsChallenge(c)).unwrap());
    }
    let mut responses = vec![response()];
    let mut unattested = response();
    unattested.attestation = None;
    unattested.challenge_handler.sgx_local_report = Vec::new();
    responses.push(unattested);
    for r in &responses {
        assert_eq!(encode_response(r), serde_json::to_vec(&AsResponse(r)).unwrap());
        assert_eq!(
            encode_handler_info(&r.challenge_handler),
            serde_json::to_vec(&AsHandlerInfo(&r.challenge_handler)).unwrap()
        );
    }
    let mut results = vec![secret_data()];
    let mut attested = secret_data();
    attested.attestation = Some(vec![0, 127, 128, 255]);
    attested.encrypted_data_info.dev_mode = false;
    results.push(attested);
    for d in &results {
        assert_eq!(encode_secret_data(d), serde_json::to_vec(&AsSecretData(d)).unwrap());
        assert_eq!(
            encode_encrypted_data(&d.encrypted_data_info),
            serde_json::to_vec(&AsEncryptedData(&d.encrypted_data_info)).unwrap()
        );
    }
}
