//! A codec library for the ISO base-media box format and its fragmented
//! streaming profile: byte-exact reading and writing of the size-prefixed
//! box tree, and writers that assemble initialization segments and movie
//! fragments from track configuration and per-sample data.
pub mod boxtype;
pub mod cmaf;
pub mod descriptor;
pub mod header;
pub mod mp4box;
pub mod payload;
pub mod primitives;
pub mod types;

pub use boxtype::BoxType;
pub use cmaf::cmaf_chunk_writer::{CmafChunkConfig, CmafChunkWriter, ProducerReferenceTime};
pub use cmaf::cmaf_header_writer::{CmafHeaderConfig, CmafHeaderWriter};
pub use cmaf::emsg::{EmsgData, EmsgKind};
pub use header::BoxHeader;
pub use mp4box::colr::{Color, ColrBox};
pub use mp4box::emsg::EmsgBox;
pub use mp4box::frma::FrmaBox;
pub use mp4box::moov::FtypBox;
pub use mp4box::mfhd::MfhdBox;
pub use mp4box::moof::MoofBox;
pub use mp4box::pasp::PaspBox;
pub use mp4box::prft::PrftBox;
pub use mp4box::pssh::PsshBox;
pub use mp4box::schi::SchiBox;
pub use mp4box::schm::SchmBox;
pub use mp4box::sinf::SinfBox;
pub use mp4box::tenc::{InitializationVector, TencBox};
pub use mp4box::tfdt::TfdtBox;
pub use mp4box::tfhd::TfhdBox;
pub use mp4box::traf::TrafBox;
pub use mp4box::trun::TrunBox;
pub use types::{
    AacConfig, Av1Config, AvcConfig, ColorConfig, Error, FixedPointU16, FourCC, HevcConfig,
    MediaConfig, Mp4Sample, OpusConfig, TrackConfig, TrackType, TtxtConfig, Vp9Config,
    HEADER_EXT_SIZE, HEADER_SIZE,
};
