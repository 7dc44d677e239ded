//! The box codecs: one module per box type.
pub mod colr;
pub mod frma;
pub mod mfhd;
pub mod moof;
pub mod moov;
pub mod opus;
pub mod pasp;
pub mod emsg;
pub mod prft;
pub mod pssh;
pub mod schi;
pub mod schm;
pub mod sinf;
pub mod tfdt;
pub mod tfhd;
pub mod traf;
pub mod trun;
pub mod tenc;
