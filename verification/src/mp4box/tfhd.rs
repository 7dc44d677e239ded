//! The track-fragment-header box: the track id and the fragment's default
//! sample values, each present exactly when its flag bit is set.
use vstd::prelude::*;

use crate::boxtype::BoxType;
use crate::header::{
    ext_bytes, ext_flags, ext_version, header_bytes, lemma_ext_word_roundtrip,
    lemma_header_roundtrip, parse_header, read_box_header_ext, write_box_header_ext, BoxHeader,
};
use crate::primitives::{
    be32_at, be64_at, get_u32, get_u64, lemma_u32_be_bytes_roundtrip, lemma_u64_be_bytes_roundtrip,
    put_u32, put_u64, skip_to_end, spec_u32_to_be_bytes, spec_u64_to_be_bytes,
};
use crate::types::{Error, HEADER_EXT_SIZE, HEADER_SIZE};

verus! {

pub const TFHD_FLAG_BASE_DATA_OFFSET: u32 = 0x1;

pub const TFHD_FLAG_SAMPLE_DESCRIPTION_INDEX: u32 = 0x2;

pub const TFHD_FLAG_DEFAULT_SAMPLE_DURATION: u32 = 0x8;

pub const TFHD_FLAG_DEFAULT_SAMPLE_SIZE: u32 = 0x10;

pub const TFHD_FLAG_DEFAULT_SAMPLE_FLAGS: u32 = 0x20;

#[derive(Debug, Clone, Copy, PartialEq, Eq, Default)]
pub struct TfhdBox {
    pub version: u8,
    pub flags: u32,
    pub track_id: u32,
    pub base_data_offset: Option<u64>,
    pub sample_description_index: Option<u32>,
    pub default_sample_duration: Option<u32>,
    pub default_sample_size: Option<u32>,
    pub default_sample_flags: Option<u32>,
}

impl TfhdBox {
    /// Each optional field travels exactly when its flag bit says so.
    pub open spec fn wf(self) -> bool {
        &&& self.flags < 0x1000000
        &&& (self.base_data_offset is Some) == (self.flags & TFHD_FLAG_BASE_DATA_OFFSET != 0)
        &&& (self.sample_description_index is Some) == (self.flags
            & TFHD_FLAG_SAMPLE_DESCRIPTION_INDEX != 0)
        &&& (self.default_sample_duration is Some) == (self.flags
            & TFHD_FLAG_DEFAULT_SAMPLE_DURATION != 0)
        &&& (self.default_sample_size is Some) == (self.flags & TFHD_FLAG_DEFAULT_SAMPLE_SIZE != 0)
        &&& (self.default_sample_flags is Some) == (self.flags & TFHD_FLAG_DEFAULT_SAMPLE_FLAGS
            != 0)
    }

    pub open spec fn spec_size(self) -> u64 {
        (16 + (match self.base_data_offset {
            Some(_) => 8int,
            None => 0int,
        }) + (match self.sample_description_index {
            Some(_) => 4int,
            None => 0int,
        }) + (match self.default_sample_duration {
            Some(_) => 4int,
            None => 0int,
        }) + (match self.default_sample_size {
            Some(_) => 4int,
            None => 0int,
        }) + (match self.default_sample_flags {
            Some(_) => 4int,
            None => 0int,
        })) as u64
    }

    pub open spec fn opt_u64_bytes(v: Option<u64>) -> Seq<u8> {
        match v {
            Some(x) => spec_u64_to_be_bytes(x),
            None => Seq::empty(),
        }
    }

    pub open spec fn opt_u32_bytes(v: Option<u32>) -> Seq<u8> {
        match v {
            Some(x) => spec_u32_to_be_bytes(x),
            None => Seq::empty(),
        }
    }

    pub open spec fn spec_ser(self) -> Seq<u8> {
        header_bytes(BoxType::TfhdBox, self.spec_size()) + ext_bytes(self.version, self.flags)
            + spec_u32_to_be_bytes(self.track_id) + Self::opt_u64_bytes(self.base_data_offset)
            + Self::opt_u32_bytes(self.sample_description_index) + Self::opt_u32_bytes(
            self.default_sample_duration,
        ) + Self::opt_u32_bytes(self.default_sample_size) + Self::opt_u32_bytes(
            self.default_sample_flags,
        )
    }

    /// One optional 64-bit field: its value if the flag asks for it, and
    /// the position after it.
    pub open spec fn parse_opt_u64(data: Seq<u8>, p: int, present: bool) -> Option<
        (Option<u64>, int),
    > {
        if present {
            if p + 8 <= data.len() {
                Some((Some(be64_at(data, p)), p + 8))
            } else {
                None
            }
        } else {
            Some((None, p))
        }
    }

    /// One optional 32-bit field.
    pub open spec fn parse_opt_u32(data: Seq<u8>, p: int, present: bool) -> Option<
        (Option<u32>, int),
    > {
        if present {
            if p + 4 <= data.len() {
                Some((Some(be32_at(data, p)), p + 4))
            } else {
                None
            }
        } else {
            Some((None, p))
        }
    }

    /// Decodes the payload of a box whose header, already consumed, began
    /// at `start` and declared `size` bytes in total.
    pub open spec fn spec_parse(data: Seq<u8>, start: int, size: int) -> Option<TfhdBox> {
        if start + 16 <= data.len() {
            let version = ext_version(be32_at(data, start + 8));
            let flags = ext_flags(be32_at(data, start + 8));
            let track_id = be32_at(data, start + 12);
            match Self::parse_opt_u64(data, start + 16, flags & TFHD_FLAG_BASE_DATA_OFFSET != 0) {
                Some((base_data_offset, p1)) => match Self::parse_opt_u32(
                    data,
                    p1,
                    flags & TFHD_FLAG_SAMPLE_DESCRIPTION_INDEX != 0,
                ) {
                    Some((sample_description_index, p2)) => match Self::parse_opt_u32(
                        data,
                        p2,
                        flags & TFHD_FLAG_DEFAULT_SAMPLE_DURATION != 0,
                    ) {
                        Some((default_sample_duration, p3)) => match Self::parse_opt_u32(
                            data,
                            p3,
                            flags & TFHD_FLAG_DEFAULT_SAMPLE_SIZE != 0,
                        ) {
                            Some((default_sample_size, p4)) => match Self::parse_opt_u32(
                                data,
                                p4,
                                flags & TFHD_FLAG_DEFAULT_SAMPLE_FLAGS != 0,
                            ) {
                                Some((default_sample_flags, _p5)) => if start + size
                                    <= data.len() {
                                    Some(
                                        TfhdBox {
                                            version,
                                            flags,
                                            track_id,
                                            base_data_offset,
                                            sample_description_index,
                                            default_sample_duration,
                                            default_sample_size,
                                            default_sample_flags,
                                        },
                                    )
                                } else {
                                    None
                                },
                                None => None,
                            },
                            None => None,
                        },
                        None => None,
                    },
                    None => None,
                },
                None => None,
            }
        } else {
            None
        }
    }

    pub fn get_type(&self) -> (r: BoxType)
        ensures
            r == BoxType::TfhdBox,
    {
        BoxType::TfhdBox
    }

    pub fn get_size(&self) -> (r: u64)
        ensures
            r == self.spec_size(),
    {
        let mut size: u64 = HEADER_SIZE + HEADER_EXT_SIZE + 4;
        if self.base_data_offset.is_some() {
            size = size + 8;
        }
        if self.sample_description_index.is_some() {
            size = size + 4;
        }
        if self.default_sample_duration.is_some() {
            size = size + 4;
        }
        if self.default_sample_size.is_some() {
            size = size + 4;
        }
        if self.default_sample_flags.is_some() {
            size = size + 4;
        }
        size
    }

    pub fn box_type(&self) -> (r: BoxType)
        ensures
            r == BoxType::TfhdBox,
    {
        self.get_type()
    }

    pub fn box_size(&self) -> (r: u64)
        ensures
            r == self.spec_size(),
    {
        self.get_size()
    }

    #[verifier::rlimit(100)]
    #[verifier::spinoff_prover]
    pub fn write_box(&self, out: &mut Vec<u8>) -> (r: Result<u64, Error>)
        requires
            self.wf(),
        ensures
            final(out)@ == old(out)@ + self.spec_ser(),
            r matches Ok(n) && n == self.spec_size(),
            self.spec_ser().len() == self.spec_size(),
    {
        let size = self.box_size();
        BoxHeader::new(self.box_type(), size).write(out)?;
        write_box_header_ext(out, self.version, self.flags);
        put_u32(out, self.track_id);
        if let Some(v) = self.base_data_offset {
            put_u64(out, v);
        }
        if let Some(v) = self.sample_description_index {
            put_u32(out, v);
        }
        if let Some(v) = self.default_sample_duration {
            put_u32(out, v);
        }
        if let Some(v) = self.default_sample_size {
            put_u32(out, v);
        }
        if let Some(v) = self.default_sample_flags {
            put_u32(out, v);
        }
        proof {
            assert(out@ =~= old(out)@ + self.spec_ser());
        }
        Ok(size)
    }

    pub fn read_box(data: &Vec<u8>, pos: &mut usize, size: u64) -> (r: Result<TfhdBox, Error>)
        requires
            *old(pos) >= 8,
        ensures
            match r {
                Ok(b) => Self::spec_parse(data@, *old(pos) - 8, size as int) == Some(b)
                    && *final(pos) == *old(pos) - 8 + size,
                Err(e) => Self::spec_parse(data@, *old(pos) - 8, size as int) is None
                    && e is UnexpectedEof,
            },
    {
        let start: usize = *pos - 8;
        let (version, flags) = read_box_header_ext(data, pos)?;
        let track_id = get_u32(data, pos)?;
        let base_data_offset: Option<u64> = if flags & TFHD_FLAG_BASE_DATA_OFFSET != 0 {
            Some(get_u64(data, pos)?)
        } else {
            None
        };
        let sample_description_index: Option<u32> = if flags & TFHD_FLAG_SAMPLE_DESCRIPTION_INDEX
            != 0 {
            Some(get_u32(data, pos)?)
        } else {
            None
        };
        let default_sample_duration: Option<u32> = if flags & TFHD_FLAG_DEFAULT_SAMPLE_DURATION
            != 0 {
            Some(get_u32(data, pos)?)
        } else {
            None
        };
        let default_sample_size: Option<u32> = if flags & TFHD_FLAG_DEFAULT_SAMPLE_SIZE != 0 {
            Some(get_u32(data, pos)?)
        } else {
            None
        };
        let default_sample_flags: Option<u32> = if flags & TFHD_FLAG_DEFAULT_SAMPLE_FLAGS != 0 {
            Some(get_u32(data, pos)?)
        } else {
            None
        };
        skip_to_end(data, pos, start, size)?;
        Ok(
            TfhdBox {
                version,
                flags,
                track_id,
                base_data_offset,
                sample_description_index,
                default_sample_duration,
                default_sample_size,
                default_sample_flags,
            },
        )
    }
}

/// Writing a track-fragment-header box and reading the produced bytes back
/// yields the original value.
#[verifier::spinoff_prover]
#[verifier::rlimit(100)]
pub proof fn lemma_tfhd_roundtrip(b: TfhdBox, data: Seq<u8>, start: int)
    requires
        0 <= start,
        b.wf(),
        start + b.spec_size() <= data.len(),
        data.subrange(start, start + b.spec_size() as int) == b.spec_ser(),
    ensures
        parse_header(data, start) == Some(
            (BoxHeader { name: BoxType::TfhdBox, size: b.spec_size() }, start + 8),
        ),
        TfhdBox::spec_parse(data, start, b.spec_size() as int) == Some(b),
{
    let ser = b.spec_ser();
    let n = b.spec_size() as int;
    assert(data.subrange(start, start + 8) =~= ser.subrange(0, 8));
    assert(ser.subrange(0, 8) =~= header_bytes(BoxType::TfhdBox, b.spec_size()));
    lemma_header_roundtrip(BoxType::TfhdBox, b.spec_size(), data, start);
    assert(data.subrange(start + 8, start + 12) =~= ser.subrange(8, 12));
    assert(ser.subrange(8, 12) =~= ext_bytes(b.version, b.flags));
    lemma_u32_be_bytes_roundtrip(crate::header::ext_word(b.version, b.flags));
    lemma_ext_word_roundtrip(b.version, b.flags);
    assert(data.subrange(start + 12, start + 16) =~= ser.subrange(12, 16));
    assert(ser.subrange(12, 16) =~= spec_u32_to_be_bytes(b.track_id));
    lemma_u32_be_bytes_roundtrip(b.track_id);
    let p0 = start + 16;
    let p1 = p0 + match b.base_data_offset {
        Some(_) => 8int,
        None => 0int,
    };
    let p2 = p1 + match b.sample_description_index {
        Some(_) => 4int,
        None => 0int,
    };
    let p3 = p2 + match b.default_sample_duration {
        Some(_) => 4int,
        None => 0int,
    };
    let p4 = p3 + match b.default_sample_size {
        Some(_) => 4int,
        None => 0int,
    };
    match b.base_data_offset {
        Some(v) => {
            assert(data.subrange(p0, p0 + 8) =~= ser.subrange(p0 - start, p0 - start + 8));
            assert(ser.subrange(p0 - start, p0 - start + 8) =~= spec_u64_to_be_bytes(v));
            lemma_u64_be_bytes_roundtrip(v);
        },
        None => {},
    }
    match b.sample_description_index {
        Some(v) => {
            assert(data.subrange(p1, p1 + 4) =~= ser.subrange(p1 - start, p1 - start + 4));
            assert(ser.subrange(p1 - start, p1 - start + 4) =~= spec_u32_to_be_bytes(v));
            lemma_u32_be_bytes_roundtrip(v);
        },
        None => {},
    }
    match b.default_sample_duration {
        Some(v) => {
            assert(data.subrange(p2, p2 + 4) =~= ser.subrange(p2 - start, p2 - start + 4));
            assert(ser.subrange(p2 - start, p2 - start + 4) =~= spec_u32_to_be_bytes(v));
            lemma_u32_be_bytes_roundtrip(v);
        },
        None => {},
    }
    match b.default_sample_size {
        Some(v) => {
            assert(data.subrange(p3, p3 + 4) =~= ser.subrange(p3 - start, p3 - start + 4));
            assert(ser.subrange(p3 - start, p3 - start + 4) =~= spec_u32_to_be_bytes(v));
            lemma_u32_be_bytes_roundtrip(v);
        },
        None => {},
    }
    match b.default_sample_flags {
        Some(v) => {
            assert(data.subrange(p4, p4 + 4) =~= ser.subrange(p4 - start, p4 - start + 4));
            assert(ser.subrange(p4 - start, p4 - start + 4) =~= spec_u32_to_be_bytes(v));
            lemma_u32_be_bytes_roundtrip(v);
        },
        None => {},
    }
}

} // verus!
