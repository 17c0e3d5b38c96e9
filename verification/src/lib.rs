//! Core of a browser photo-booth: captured frames are kept as raw RGBA
//! records, analysed with a binned colour histogram, and exported as a
//! compressed archive of encoded images.

pub mod download;
pub mod export;
pub mod histogram;
pub mod record;
pub mod session;
