//! Link layer: frames, control codes and data formats.

pub mod codec;
pub mod control_code;
pub mod format;
pub mod frame;
pub mod stream;

pub use codec::{
    decode_frame, encode_data_block_response, encode_error_response, encode_frame,
    encode_frame_raw, is_broadcast_address, is_wildcard_address, match_address, parse_di,
    validate_broadcast_command, ErrorInfoWord,
};
pub use control_code::ControlCode;
pub use format::{
    bcd_to_quantity, bcd_to_u64, bin_to_u64, format_address, format_datetime, parse_address,
    parse_datetime, quantity_to_bcd, u64_to_bcd, u64_to_bin,
};
pub use frame::Frame;
