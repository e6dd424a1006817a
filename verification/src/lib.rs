//! Boot header tool for the StarFive VisionFive2 second-stage loader image.
//!
//! The crate builds and repairs the 1 KiB header that the boot ROM reads in
//! front of the loader image, and computes the checksum the ROM validates.

pub mod buffer;
pub mod conf;
pub mod crc32;
pub mod error;
pub mod image;
pub mod spl_header;

pub use conf::{HeaderConf, DEF_SPL_FILE, PATH_MAX};
pub use crc32::{crc32, crc32_final, crc32_reverse, CRC_INIT, CRC_POLY};
pub use error::Error;
pub use image::{
    create_header, fix_existing_header, spl_create_header, spl_fix_image_header, MAX_SPL_LEN,
};
pub use spl_header::{
    UbootSplHeader, CRC_FAILED, DEF_BACKUP, DEF_RESL, DEF_SOFS, DEF_VERS, SPL_HEADER_LEN,
};
