//! The messages on the wire: their format, the encoders and the decoders.

pub mod decode;
pub mod encode;
pub mod format;
pub mod numeral;
pub mod scan;
pub mod values;

pub use decode::{decode_challenge, decode_response, decode_secret_data};
pub use encode::{
    encode_challenge, encode_encrypted_data, encode_handler_info, encode_response,
    encode_secret_data,
};
