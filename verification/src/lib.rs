//! Encoding of byte payloads into the streams of QR code and Micro QR code
//! symbols, rendering of symbols as vector markup, terminal text or raster
//! pixels, and recovery of payloads from the module grids of located symbols.

pub mod types;
pub mod charset;
pub mod packing;
pub mod lossless;
pub mod bits;
pub mod color;
pub mod symbol;
pub mod encode;
pub mod markup;
pub mod decode;
pub mod command;

pub use crate::bits::{
    admits_level, capacity_of, fills_symbol, push_data_for_selected_mode, push_terminator,
};
pub use crate::color::{Color, ColorError};
pub use crate::decode::{decode_grid, grids_as_bytes, Content, DecodeError, ModuleGrid};
pub use crate::encode::{set_version, to_image, to_svg, to_terminal, Raster};
pub use crate::symbol::{
    encode_with_error_correction_level, encode_with_mode, encode_with_version, QrCode,
};
pub use crate::types::{Ecc, Metadata, Mode, QrError, Variant, Version};
