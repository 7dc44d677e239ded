//! The track-run box: the ordered per-sample records of one fragment run.
//! Which per-sample columns are written, and whether a data offset and a
//! first-sample-flags override travel with them, is governed by the flag
//! word; every present column holds one 32-bit value per sample.
use vstd::prelude::*;

use crate::boxtype::BoxType;
use crate::header::{
    ext_bytes, ext_flags, ext_version, header_bytes, lemma_ext_word_roundtrip,
    lemma_header_roundtrip, parse_header, read_box_header_ext, write_box_header_ext, BoxHeader,
};
use crate::mp4box::tfhd::TfhdBox;
use crate::primitives::{
    be32_at, get_u32, lemma_u32_be_bytes_roundtrip, put_u32, skip_to_end, spec_u32_to_be_bytes,
};
use crate::types::{Error, HEADER_EXT_SIZE, HEADER_SIZE};

verus! {

pub const TRUN_FLAG_DATA_OFFSET: u32 = 0x1;

pub const TRUN_FLAG_FIRST_SAMPLE_FLAGS: u32 = 0x4;

pub const TRUN_FLAG_SAMPLE_DURATION: u32 = 0x100;

pub const TRUN_FLAG_SAMPLE_SIZE: u32 = 0x200;

pub const TRUN_FLAG_SAMPLE_FLAGS: u32 = 0x400;

pub const TRUN_FLAG_SAMPLE_CTS: u32 = 0x800;

/// Sample flags meaning the sample depends on no other: a keyframe.
pub const SAMPLE_FLAG_DEPENDS_NO: u32 = 0x2000000;

/// Sample flags meaning the sample depends on others.
pub const SAMPLE_FLAG_DEPENDS_YES: u32 = 0x1000000;

/// Sample flags bit marking a non-sync sample.
pub const SAMPLE_FLAG_IS_NON_SYNC: u32 = 0x10000;

#[derive(Debug, Clone, PartialEq, Eq, Default)]
pub struct TrunBox {
    pub version: u8,
    pub flags: u32,
    pub sample_count: u32,
    pub data_offset: Option<i32>,
    pub first_sample_flags: Option<u32>,
    pub sample_durations: Vec<u32>,
    pub sample_sizes: Vec<u32>,
    pub sample_flags: Vec<u32>,
    pub sample_cts: Vec<u32>,
}

/// The mathematical value of a track-run box.
pub struct TrunBoxView {
    pub version: u8,
    pub flags: u32,
    pub sample_count: u32,
    pub data_offset: Option<i32>,
    pub first_sample_flags: Option<u32>,
    pub sample_durations: Seq<u32>,
    pub sample_sizes: Seq<u32>,
    pub sample_flags: Seq<u32>,
    pub sample_cts: Seq<u32>,
}

impl View for TrunBox {
    type V = TrunBoxView;

    open spec fn view(&self) -> TrunBoxView {
        TrunBoxView {
            version: self.version,
            flags: self.flags,
            sample_count: self.sample_count,
            data_offset: self.data_offset,
            first_sample_flags: self.first_sample_flags,
            sample_durations: self.sample_durations@,
            sample_sizes: self.sample_sizes@,
            sample_flags: self.sample_flags@,
            sample_cts: self.sample_cts@,
        }
    }
}

/// Bytes one sample record occupies: four per present column.
pub open spec fn trun_stride(flags: u32) -> int {
    (if flags & TRUN_FLAG_SAMPLE_DURATION != 0 {
        4int
    } else {
        0int
    }) + (if flags & TRUN_FLAG_SAMPLE_SIZE != 0 {
        4int
    } else {
        0int
    }) + (if flags & TRUN_FLAG_SAMPLE_FLAGS != 0 {
        4int
    } else {
        0int
    }) + (if flags & TRUN_FLAG_SAMPLE_CTS != 0 {
        4int
    } else {
        0int
    })
}

impl TrunBoxView {
    /// The record of sample `i`.
    pub open spec fn entry_bytes(self, i: int) -> Seq<u8> {
        (if self.flags & TRUN_FLAG_SAMPLE_DURATION != 0 {
            spec_u32_to_be_bytes(self.sample_durations[i])
        } else {
            Seq::empty()
        }) + (if self.flags & TRUN_FLAG_SAMPLE_SIZE != 0 {
            spec_u32_to_be_bytes(self.sample_sizes[i])
        } else {
            Seq::empty()
        }) + (if self.flags & TRUN_FLAG_SAMPLE_FLAGS != 0 {
            spec_u32_to_be_bytes(self.sample_flags[i])
        } else {
            Seq::empty()
        }) + (if self.flags & TRUN_FLAG_SAMPLE_CTS != 0 {
            spec_u32_to_be_bytes(self.sample_cts[i])
        } else {
            Seq::empty()
        })
    }

    /// The records of the first `i` samples, laid end to end.
    pub open spec fn entries_bytes(self, i: int) -> Seq<u8>
        decreases i,
    {
        if i <= 0 {
            Seq::empty()
        } else {
            self.entries_bytes(i - 1) + self.entry_bytes(i - 1)
        }
    }

    /// Every column the flag word asks to be written holds one value per
    /// declared sample; the optional leading fields follow their flag
    /// bits. A column kept in memory but not selected for writing is
    /// unconstrained, as in the original.
    pub open spec fn wf(self) -> bool {
        &&& self.flags < 0x1000000
        &&& (self.data_offset is Some) == (self.flags & TRUN_FLAG_DATA_OFFSET != 0)
        &&& (self.first_sample_flags is Some) == (self.flags & TRUN_FLAG_FIRST_SAMPLE_FLAGS != 0)
        &&& (self.flags & TRUN_FLAG_SAMPLE_DURATION != 0 ==> self.sample_durations.len()
            == self.sample_count)
        &&& (self.flags & TRUN_FLAG_SAMPLE_SIZE != 0 ==> self.sample_sizes.len()
            == self.sample_count)
        &&& (self.flags & TRUN_FLAG_SAMPLE_FLAGS != 0 ==> self.sample_flags.len()
            == self.sample_count)
        &&& (self.flags & TRUN_FLAG_SAMPLE_CTS != 0 ==> self.sample_cts.len()
            == self.sample_count)
        &&& self.spec_size_int() <= 0xffffffff
    }

    pub open spec fn spec_size_int(self) -> int {
        16 + (match self.data_offset {
            Some(_) => 4int,
            None => 0int,
        }) + (match self.first_sample_flags {
            Some(_) => 4int,
            None => 0int,
        }) + self.sample_count * trun_stride(self.flags)
    }

    pub open spec fn spec_size(self) -> u64 {
        self.spec_size_int() as u64
    }

    pub open spec fn spec_ser(self) -> Seq<u8> {
        header_bytes(BoxType::TrunBox, self.spec_size()) + ext_bytes(self.version, self.flags)
            + spec_u32_to_be_bytes(self.sample_count) + (match self.data_offset {
            Some(v) => spec_u32_to_be_bytes(v as u32),
            None => Seq::empty(),
        }) + (match self.first_sample_flags {
            Some(v) => spec_u32_to_be_bytes(v),
            None => Seq::empty(),
        }) + self.entries_bytes(self.sample_count as int)
    }

    /// The total of the per-sample durations.
    pub open spec fn spec_total_duration(s: Seq<u32>) -> int
        decreases s.len(),
    {
        if s.len() == 0 {
            0
        } else {
            Self::spec_total_duration(s.drop_last()) + s.last()
        }
    }

    /// Decodes `n` sample records starting at `p`, extending the columns
    /// gathered so far.
    pub open spec fn parse_entries(
        data: Seq<u8>,
        p: int,
        flags: u32,
        n: int,
        durs: Seq<u32>,
        sizes: Seq<u32>,
        fls: Seq<u32>,
        cts: Seq<u32>,
    ) -> Option<(Seq<u32>, Seq<u32>, Seq<u32>, Seq<u32>, int)>
        decreases n,
    {
        if n <= 0 {
            Some((durs, sizes, fls, cts, p))
        } else {
            match TfhdBox::parse_opt_u32(data, p, flags & TRUN_FLAG_SAMPLE_DURATION != 0) {
                Some((d, p1)) => match TfhdBox::parse_opt_u32(
                    data,
                    p1,
                    flags & TRUN_FLAG_SAMPLE_SIZE != 0,
                ) {
                    Some((z, p2)) => match TfhdBox::parse_opt_u32(
                        data,
                        p2,
                        flags & TRUN_FLAG_SAMPLE_FLAGS != 0,
                    ) {
                        Some((f, p3)) => match TfhdBox::parse_opt_u32(
                            data,
                            p3,
                            flags & TRUN_FLAG_SAMPLE_CTS != 0,
                        ) {
                            Some((c, p4)) => Self::parse_entries(
                                data,
                                p4,
                                flags,
                                n - 1,
                                opt_push(durs, d),
                                opt_push(sizes, z),
                                opt_push(fls, f),
                                opt_push(cts, c),
                            ),
                            None => None,
                        },
                        None => None,
                    },
                    None => None,
                },
                None => None,
            }
        }
    }

    /// Decodes the payload of a box whose header, already consumed, began
    /// at `start` and declared `size` bytes in total.
    pub open spec fn spec_parse(data: Seq<u8>, start: int, size: int) -> Option<TrunBoxView> {
        if start + 16 <= data.len() {
            let version = ext_version(be32_at(data, start + 8));
            let flags = ext_flags(be32_at(data, start + 8));
            let sample_count = be32_at(data, start + 12);
            match TfhdBox::parse_opt_u32(data, start + 16, flags & TRUN_FLAG_DATA_OFFSET != 0) {
                Some((dof, p1)) => match TfhdBox::parse_opt_u32(
                    data,
                    p1,
                    flags & TRUN_FLAG_FIRST_SAMPLE_FLAGS != 0,
                ) {
                    Some((fsf, p2)) => match Self::parse_entries(
                        data,
                        p2,
                        flags,
                        sample_count as int,
                        Seq::empty(),
                        Seq::empty(),
                        Seq::empty(),
                        Seq::empty(),
                    ) {
                        Some((durs, sizes, fls, cts, _pe)) => if start + size <= data.len() {
                            Some(
                                TrunBoxView {
                                    version,
                                    flags,
                                    sample_count,
                                    data_offset: match dof {
                                        Some(v) => Some(v as i32),
                                        None => None,
                                    },
                                    first_sample_flags: fsf,
                                    sample_durations: durs,
                                    sample_sizes: sizes,
                                    sample_flags: fls,
                                    sample_cts: cts,
                                },
                            )
                        } else {
                            None
                        },
                        None => None,
                    },
                    None => None,
                },
                None => None,
            }
        } else {
            None
        }
    }
}

/// Appends a value to a column when the flag delivered one.
pub open spec fn opt_push(s: Seq<u32>, v: Option<u32>) -> Seq<u32> {
    match v {
        Some(x) => s.push(x),
        None => s,
    }
}

impl TrunBox {
    /// The run's total duration: the sum of the per-sample durations, as
    /// the original computes it in the 32-bit domain.
    pub fn duration(&self) -> (r: u32)
        requires
            TrunBoxView::spec_total_duration(self@.sample_durations) <= u32::MAX,
        ensures
            r == TrunBoxView::spec_total_duration(self@.sample_durations),
    {
        let mut total: u32 = 0;
        let mut i: usize = 0;
        let n: usize = self.sample_durations.len();
        proof {
            lemma_total_duration_prefix(self@.sample_durations, 0);
            assert(self@.sample_durations.take(0) =~= Seq::<u32>::empty());
        }
        while i < n
            invariant
                i <= n,
                n == self@.sample_durations.len(),
                TrunBoxView::spec_total_duration(self@.sample_durations) <= u32::MAX,
                total == TrunBoxView::spec_total_duration(self@.sample_durations.take(i as int)),
            decreases n - i,
        {
            proof {
                lemma_total_duration_step(self@.sample_durations, i as int);
                lemma_total_duration_prefix(self@.sample_durations, i + 1);
                lemma_total_duration_nonneg(self@.sample_durations.take(i + 1));
            }
            total = total + self.sample_durations[i];
            i = i + 1;
        }
        proof {
            assert(self@.sample_durations.take(n as int) =~= self@.sample_durations);
        }
        total
    }

    pub fn get_type(&self) -> (r: BoxType)
        ensures
            r == BoxType::TrunBox,
    {
        BoxType::TrunBox
    }

    pub fn get_size(&self) -> (r: u64)
        requires
            self@.wf(),
        ensures
            r == self@.spec_size(),
    {
        let mut size: u64 = HEADER_SIZE + HEADER_EXT_SIZE + 4;
        if self.data_offset.is_some() {
            size = size + 4;
        }
        if self.first_sample_flags.is_some() {
            size = size + 4;
        }
        let mut stride: u64 = 0;
        if self.flags & TRUN_FLAG_SAMPLE_DURATION != 0 {
            stride = stride + 4;
        }
        if self.flags & TRUN_FLAG_SAMPLE_SIZE != 0 {
            stride = stride + 4;
        }
        if self.flags & TRUN_FLAG_SAMPLE_FLAGS != 0 {
            stride = stride + 4;
        }
        if self.flags & TRUN_FLAG_SAMPLE_CTS != 0 {
            stride = stride + 4;
        }
        size + (self.sample_count as u64) * stride
    }

    pub fn box_type(&self) -> (r: BoxType)
        ensures
            r == BoxType::TrunBox,
    {
        self.get_type()
    }

    pub fn box_size(&self) -> (r: u64)
        requires
            self@.wf(),
        ensures
            r == self@.spec_size(),
    {
        self.get_size()
    }

    /// Appends the record of sample `i`.
    #[verifier::spinoff_prover]
    fn write_entry(&self, out: &mut Vec<u8>, i: usize)
        requires
            self@.wf(),
            i < self@.sample_count,
        ensures
            final(out)@ == old(out)@ + self@.entry_bytes(i as int),
    {
        if self.flags & TRUN_FLAG_SAMPLE_DURATION != 0 {
            put_u32(out, self.sample_durations[i]);
        }
        if self.flags & TRUN_FLAG_SAMPLE_SIZE != 0 {
            put_u32(out, self.sample_sizes[i]);
        }
        if self.flags & TRUN_FLAG_SAMPLE_FLAGS != 0 {
            put_u32(out, self.sample_flags[i]);
        }
        if self.flags & TRUN_FLAG_SAMPLE_CTS != 0 {
            put_u32(out, self.sample_cts[i]);
        }
        proof {
            assert(out@ =~= old(out)@ + self@.entry_bytes(i as int));
        }
    }

    #[verifier::loop_isolation(false)]
    #[verifier::rlimit(100)]
    #[verifier::spinoff_prover]
    pub fn write_box(&self, out: &mut Vec<u8>) -> (r: Result<u64, Error>)
        requires
            self@.wf(),
        ensures
            final(out)@ == old(out)@ + self@.spec_ser(),
            r matches Ok(n) && n == self@.spec_size(),
            self@.spec_ser().len() == self@.spec_size(),
    {
        let size = self.box_size();
        BoxHeader::new(self.box_type(), size).write(out)?;
        write_box_header_ext(out, self.version, self.flags);
        put_u32(out, self.sample_count);
        if let Some(v) = self.data_offset {
            put_u32(out, v as u32);
        }
        if let Some(v) = self.first_sample_flags {
            put_u32(out, v);
        }
        let ghost base = out@;
        let n: usize = self.sample_count as usize;
        let mut i: usize = 0;
        proof {
            lemma_entries_bytes_len(self@, self@.sample_count as int);
        }
        while i < n
            invariant
                i <= n,
                out@ == base + self@.entries_bytes(i as int),
            decreases n - i,
        {
            self.write_entry(out, i);
            i = i + 1;
            proof {
                assert(out@ =~= base + self@.entries_bytes(i as int));
            }
        }
        proof {
            assert(out@ =~= old(out)@ + self@.spec_ser());
        }
        Ok(size)
    }

    #[verifier::loop_isolation(false)]
    #[verifier::rlimit(100)]
    #[verifier::spinoff_prover]
    pub fn read_box(data: &Vec<u8>, pos: &mut usize, size: u64) -> (r: Result<TrunBox, Error>)
        requires
            *old(pos) >= 8,
        ensures
            match r {
                Ok(b) => TrunBoxView::spec_parse(data@, *old(pos) - 8, size as int) matches Some(m)
                    && m.version == b@.version && m.flags == b@.flags && m.sample_count
                    == b@.sample_count && m.data_offset == b@.data_offset && m.first_sample_flags
                    == b@.first_sample_flags && m.sample_durations == b@.sample_durations
                    && m.sample_sizes == b@.sample_sizes && m.sample_flags == b@.sample_flags
                    && m.sample_cts == b@.sample_cts && *final(pos) == *old(pos) - 8 + size,
                Err(e) => TrunBoxView::spec_parse(data@, *old(pos) - 8, size as int) is None
                    && e is UnexpectedEof,
            },
    {
        let start: usize = *pos - 8;
        let (version, flags) = read_box_header_ext(data, pos)?;
        let sample_count = get_u32(data, pos)?;
        let data_offset: Option<i32> = if flags & TRUN_FLAG_DATA_OFFSET != 0 {
            Some(get_u32(data, pos)? as i32)
        } else {
            None
        };
        let first_sample_flags: Option<u32> = if flags & TRUN_FLAG_FIRST_SAMPLE_FLAGS != 0 {
            Some(get_u32(data, pos)?)
        } else {
            None
        };
        let ghost p2 = *pos as int;
        let mut sample_durations: Vec<u32> = Vec::new();
        let mut sample_sizes: Vec<u32> = Vec::new();
        let mut sample_flags: Vec<u32> = Vec::new();
        let mut sample_cts: Vec<u32> = Vec::new();
        let mut i: u32 = 0;
        while i < sample_count
            invariant
                i <= sample_count,
                TrunBoxView::parse_entries(
                    data@,
                    p2,
                    flags,
                    sample_count as int,
                    Seq::empty(),
                    Seq::empty(),
                    Seq::empty(),
                    Seq::empty(),
                ) == TrunBoxView::parse_entries(
                    data@,
                    *pos as int,
                    flags,
                    sample_count - i,
                    sample_durations@,
                    sample_sizes@,
                    sample_flags@,
                    sample_cts@,
                ),
                *pos <= data@.len(),
            decreases sample_count - i,
        {
            if flags & TRUN_FLAG_SAMPLE_DURATION != 0 {
                sample_durations.push(get_u32(data, pos)?);
            }
            if flags & TRUN_FLAG_SAMPLE_SIZE != 0 {
                sample_sizes.push(get_u32(data, pos)?);
            }
            if flags & TRUN_FLAG_SAMPLE_FLAGS != 0 {
                sample_flags.push(get_u32(data, pos)?);
            }
            if flags & TRUN_FLAG_SAMPLE_CTS != 0 {
                sample_cts.push(get_u32(data, pos)?);
            }
            i = i + 1;
        }
        skip_to_end(data, pos, start, size)?;
        Ok(
            TrunBox {
                version,
                flags,
                sample_count,
                data_offset,
                first_sample_flags,
                sample_durations,
                sample_sizes,
                sample_flags,
                sample_cts,
            },
        )
    }
}

/// One sample record occupies exactly the stride.
pub proof fn lemma_entry_bytes_len(m: TrunBoxView, i: int)
    ensures
        m.entry_bytes(i).len() == trun_stride(m.flags),
{
}

/// `i` sample records occupy `i` strides.
pub proof fn lemma_entries_bytes_len(m: TrunBoxView, i: int)
    requires
        0 <= i,
    ensures
        m.entries_bytes(i).len() == i * trun_stride(m.flags),
    decreases i,
{
    if i > 0 {
        lemma_entries_bytes_len(m, i - 1);
        lemma_entry_bytes_len(m, i - 1);
        assert((i - 1) * trun_stride(m.flags) + trun_stride(m.flags) == i * trun_stride(m.flags))
            by (nonlinear_arith);
    } else {
        assert(i * trun_stride(m.flags) == 0) by (nonlinear_arith)
            requires
                i == 0,
        ;
    }
}

/// A prefix of the duration column sums to no more than the whole.
pub proof fn lemma_total_duration_prefix(s: Seq<u32>, i: int)
    requires
        0 <= i <= s.len(),
    ensures
        TrunBoxView::spec_total_duration(s.take(i)) <= TrunBoxView::spec_total_duration(s),
    decreases s.len() - i,
{
    if i == s.len() {
        assert(s.take(i) =~= s);
    } else {
        lemma_total_duration_prefix(s, i + 1);
        lemma_total_duration_step(s, i);
        lemma_total_duration_nonneg(s.take(i));
    }
}

/// Extending a prefix by one sample adds that sample's duration.
pub proof fn lemma_total_duration_step(s: Seq<u32>, i: int)
    requires
        0 <= i < s.len(),
    ensures
        TrunBoxView::spec_total_duration(s.take(i + 1)) == TrunBoxView::spec_total_duration(
            s.take(i),
        ) + s[i],
{
    assert(s.take(i + 1).drop_last() =~= s.take(i));
    assert(s.take(i + 1).last() == s[i]);
}

pub proof fn lemma_total_duration_nonneg(s: Seq<u32>)
    ensures
        TrunBoxView::spec_total_duration(s) >= 0,
    decreases s.len(),
{
    if s.len() > 0 {
        lemma_total_duration_nonneg(s.drop_last());
    }
}

} // verus!
