//! The fragment writer: accumulates per-sample timing, size and flag data
//! into the track-fragment triple, then emits one movie-fragment box and
//! one media-data box in a single forward pass. The run's data offset is a
//! forward reference, resolved by computing the fragment container's size
//! from the accumulated state before any byte is written.
use vstd::prelude::*;

use crate::boxtype::BoxType;
use crate::header::{header_bytes, BoxHeader};
use crate::mp4box::emsg::EmsgBox;
use crate::mp4box::emsg::EmsgBoxView;
use crate::mp4box::mfhd::MfhdBox;
use crate::mp4box::moof::{lemma_moof_ser_len, trafs_bytes, trafs_size, MoofBox, MoofBoxView};
use crate::mp4box::prft::PrftBox;
use crate::mp4box::tfdt::TfdtBox;
use crate::mp4box::tfhd::{
    TfhdBox, TFHD_FLAG_DEFAULT_SAMPLE_DURATION, TFHD_FLAG_DEFAULT_SAMPLE_FLAGS,
    TFHD_FLAG_DEFAULT_SAMPLE_SIZE,
};
use crate::mp4box::traf::{lemma_traf_ser_len, TrafBox, TrafBoxView};
use crate::mp4box::trun::{
    TrunBox, TrunBoxView, SAMPLE_FLAG_DEPENDS_NO, SAMPLE_FLAG_DEPENDS_YES,
    SAMPLE_FLAG_IS_NON_SYNC, TRUN_FLAG_DATA_OFFSET, TRUN_FLAG_FIRST_SAMPLE_FLAGS,
    TRUN_FLAG_SAMPLE_CTS, TRUN_FLAG_SAMPLE_DURATION, TRUN_FLAG_SAMPLE_FLAGS,
    TRUN_FLAG_SAMPLE_SIZE,
};
use crate::payload::{bytes_append_to, bytes_contents, bytes_len};
use crate::types::{
    AacConfig, Av1Config, AvcConfig, Error, HevcConfig, MediaConfig, Mp4Sample, OpusConfig,
    TtxtConfig, Vp9Config, HEADER_SIZE,
};

verus! {

#[derive(Debug, Clone, PartialEq, Eq)]
pub struct CmafChunkConfig {
    pub timescale: u32,
    pub default_sample_duration: u32,
    pub default_sample_size: u32,
    pub default_sample_flags: u32,
    pub producer_reference_time: Option<ProducerReferenceTime>,
}

#[derive(Debug, Clone, Copy, PartialEq, Eq, Structural)]
pub struct ProducerReferenceTime {
    pub ntp_timestamp: u64,
    pub media_time: u64,
}

/// The per-codec fragment defaults: a placeholder timescale, to be treated
/// as caller-supplied configuration.
pub open spec fn spec_default_chunk_config() -> CmafChunkConfig {
    CmafChunkConfig {
        timescale: 1000,
        default_sample_duration: 0,
        default_sample_size: 0,
        default_sample_flags: 0,
        producer_reference_time: None,
    }
}

impl From<MediaConfig> for CmafChunkConfig {
    fn from(media_conf: MediaConfig) -> (r: Self) {
        match media_conf {
            MediaConfig::AvcConfig(avc_conf) => Self::from(avc_conf),
            MediaConfig::HevcConfig(hevc_conf) => Self::from(hevc_conf),
            MediaConfig::AacConfig(aac_conf) => Self::from(aac_conf),
            MediaConfig::TtxtConfig(ttxt_conf) => Self::from(ttxt_conf),
            MediaConfig::Vp9Config(vp9_config) => Self::from(vp9_config),
            MediaConfig::Av1Config(av1_config) => Self::from(av1_config),
            MediaConfig::OpusConfig(opus_config) => Self::from(opus_config),
        }
    }
}

impl vstd::std_specs::convert::FromSpecImpl<MediaConfig> for CmafChunkConfig {
    open spec fn obeys_from_spec() -> bool {
        true
    }

    open spec fn from_spec(t: MediaConfig) -> Self {
        spec_default_chunk_config()
    }
}

impl From<AvcConfig> for CmafChunkConfig {
    fn from(avc_conf: AvcConfig) -> (r: Self) {
        Self {
            timescale: 1000,
            default_sample_duration: 0,
            default_sample_size: 0,
            default_sample_flags: 0,
            producer_reference_time: None,
        }
    }
}

impl vstd::std_specs::convert::FromSpecImpl<AvcConfig> for CmafChunkConfig {
    open spec fn obeys_from_spec() -> bool {
        true
    }

    open spec fn from_spec(t: AvcConfig) -> Self {
        spec_default_chunk_config()
    }
}

impl From<Av1Config> for CmafChunkConfig {
    fn from(av1_conf: Av1Config) -> (r: Self) {
        Self {
            timescale: 1000,
            default_sample_duration: 0,
            default_sample_size: 0,
            default_sample_flags: 0,
            producer_reference_time: None,
        }
    }
}

impl vstd::std_specs::convert::FromSpecImpl<Av1Config> for CmafChunkConfig {
    open spec fn obeys_from_spec() -> bool {
        true
    }

    open spec fn from_spec(t: Av1Config) -> Self {
        spec_default_chunk_config()
    }
}

impl From<HevcConfig> for CmafChunkConfig {
    fn from(hevc_conf: HevcConfig) -> (r: Self) {
        Self {
            timescale: 1000,
            default_sample_duration: 0,
            default_sample_size: 0,
            default_sample_flags: 0,
            producer_reference_time: None,
        }
    }
}

impl vstd::std_specs::convert::FromSpecImpl<HevcConfig> for CmafChunkConfig {
    open spec fn obeys_from_spec() -> bool {
        true
    }

    open spec fn from_spec(t: HevcConfig) -> Self {
        spec_default_chunk_config()
    }
}

impl From<AacConfig> for CmafChunkConfig {
    fn from(aac_conf: AacConfig) -> (r: Self) {
        Self {
            timescale: 1000,
            default_sample_duration: 0,
            default_sample_size: 0,
            default_sample_flags: 0,
            producer_reference_time: None,
        }
    }
}

impl vstd::std_specs::convert::FromSpecImpl<AacConfig> for CmafChunkConfig {
    open spec fn obeys_from_spec() -> bool {
        true
    }

    open spec fn from_spec(t: AacConfig) -> Self {
        spec_default_chunk_config()
    }
}

impl From<OpusConfig> for CmafChunkConfig {
    fn from(opus_conf: OpusConfig) -> (r: Self) {
        Self {
            timescale: 1000,
            default_sample_duration: 0,
            default_sample_size: 0,
            default_sample_flags: 0,
            producer_reference_time: None,
        }
    }
}

impl vstd::std_specs::convert::FromSpecImpl<OpusConfig> for CmafChunkConfig {
    open spec fn obeys_from_spec() -> bool {
        true
    }

    open spec fn from_spec(t: OpusConfig) -> Self {
        spec_default_chunk_config()
    }
}

impl From<TtxtConfig> for CmafChunkConfig {
    fn from(ttxt_conf: TtxtConfig) -> (r: Self) {
        Self {
            timescale: 1000,
            default_sample_duration: 0,
            default_sample_size: 0,
            default_sample_flags: 0,
            producer_reference_time: None,
        }
    }
}

impl vstd::std_specs::convert::FromSpecImpl<TtxtConfig> for CmafChunkConfig {
    open spec fn obeys_from_spec() -> bool {
        true
    }

    open spec fn from_spec(t: TtxtConfig) -> Self {
        spec_default_chunk_config()
    }
}

impl From<Vp9Config> for CmafChunkConfig {
    fn from(vp9_conf: Vp9Config) -> (r: Self) {
        Self {
            timescale: 1000,
            default_sample_duration: 0,
            default_sample_size: 0,
            default_sample_flags: 0,
            producer_reference_time: None,
        }
    }
}

impl vstd::std_specs::convert::FromSpecImpl<Vp9Config> for CmafChunkConfig {
    open spec fn obeys_from_spec() -> bool {
        true
    }

    open spec fn from_spec(t: Vp9Config) -> Self {
        spec_default_chunk_config()
    }
}

#[derive(Debug)]
pub struct CmafChunkWriter {
    writer: Vec<u8>,
    traf: TrafBox,
    mfhd: MfhdBox,
    prft: Option<PrftBox>,
    emsgs: Vec<EmsgBox>,
    samples: Vec<bytes::Bytes>,
    timescale: u32,
}

/// The mathematical state of a fragment writer.
pub struct CmafChunkWriterView {
    pub writer: Seq<u8>,
    pub traf: TrafBoxView,
    pub mfhd: MfhdBox,
    pub prft: Option<PrftBox>,
    pub emsgs: Seq<EmsgBoxView>,
    pub samples: Seq<Seq<u8>>,
    pub timescale: u32,
}

impl View for CmafChunkWriter {
    type V = CmafChunkWriterView;

    closed spec fn view(&self) -> CmafChunkWriterView {
        CmafChunkWriterView {
            writer: self.writer@,
            traf: self.traf@,
            mfhd: self.mfhd,
            prft: self.prft,
            emsgs: Seq::new(self.emsgs@.len(), |i: int| self.emsgs@[i]@),
            samples: Seq::new(self.samples@.len(), |i: int| bytes_contents(self.samples@[i])),
            timescale: self.timescale,
        }
    }
}

/// The derived run flags of one sample: sync samples depend on nothing,
/// the rest depend on others and are marked non-sync.
pub open spec fn spec_sample_trun_flags(is_sync: bool) -> u32 {
    if is_sync {
        SAMPLE_FLAG_DEPENDS_NO
    } else {
        SAMPLE_FLAG_DEPENDS_YES | SAMPLE_FLAG_IS_NON_SYNC
    }
}

/// The event-message boxes laid end to end.
pub open spec fn emsgs_bytes(s: Seq<EmsgBoxView>) -> Seq<u8>
    decreases s.len(),
{
    if s.len() == 0 {
        Seq::empty()
    } else {
        emsgs_bytes(s.drop_last()) + s.last().spec_ser()
    }
}

/// The sample payloads laid end to end: the media-data payload.
pub open spec fn samples_bytes(s: Seq<Seq<u8>>) -> Seq<u8>
    decreases s.len(),
{
    if s.len() == 0 {
        Seq::empty()
    } else {
        samples_bytes(s.drop_last()) + s.last()
    }
}

/// The total length of the sample payloads.
pub open spec fn samples_total(s: Seq<Seq<u8>>) -> int
    decreases s.len(),
{
    if s.len() == 0 {
        0
    } else {
        samples_total(s.drop_last()) + s.last().len()
    }
}

pub proof fn lemma_samples_bytes_len(s: Seq<Seq<u8>>)
    ensures
        samples_bytes(s).len() == samples_total(s),
        samples_total(s) >= 0,
    decreases s.len(),
{
    if s.len() > 0 {
        lemma_samples_bytes_len(s.drop_last());
    }
}

/// Every payload within `bound` bytes keeps the total within `n * bound`.
pub proof fn lemma_samples_total_bound(s: Seq<Seq<u8>>, bound: int)
    requires
        forall|i: int| 0 <= i < s.len() ==> (#[trigger] s[i]).len() <= bound,
        bound >= 0,
    ensures
        samples_total(s) <= s.len() * bound,
    decreases s.len(),
{
    if s.len() > 0 {
        lemma_samples_total_bound(s.drop_last(), bound);
        assert((s.len() - 1) * bound + bound == s.len() * bound) by (nonlinear_arith);
    }
}

pub proof fn lemma_samples_total_step(s: Seq<Seq<u8>>, i: int)
    requires
        0 <= i < s.len(),
    ensures
        samples_total(s.subrange(0, i + 1)) == samples_total(s.subrange(0, i)) + s[i].len(),
{
    assert(s.subrange(0, i + 1).drop_last() =~= s.subrange(0, i));
    assert(s.subrange(0, i + 1).last() == s[i]);
}

/// The first payload stands at the front of the media-data payload.
pub proof fn lemma_samples_bytes_first(s: Seq<Seq<u8>>)
    requires
        s.len() > 0,
    ensures
        samples_bytes(s).len() >= s[0].len(),
        samples_bytes(s).subrange(0, s[0].len() as int) == s[0],
    decreases s.len(),
{
    lemma_samples_bytes_len(s);
    if s.len() == 1 {
        assert(samples_bytes(s.drop_last()) =~= Seq::<u8>::empty());
        assert(samples_bytes(s).subrange(0, s[0].len() as int) =~= s[0]);
    } else {
        lemma_samples_bytes_first(s.drop_last());
        assert(s.drop_last()[0] == s[0]);
        assert(samples_bytes(s).subrange(0, s[0].len() as int) =~= samples_bytes(
            s.drop_last(),
        ).subrange(0, s[0].len() as int));
    }
}

impl CmafChunkWriterView {
    /// What the writer keeps true of its run between calls.
    pub open spec fn trun_wf(self, t: TrunBoxView) -> bool {
        &&& t.version == 1
        &&& t.flags & TRUN_FLAG_DATA_OFFSET != 0
        &&& t.flags & TRUN_FLAG_SAMPLE_DURATION != 0
        &&& t.flags & TRUN_FLAG_SAMPLE_SIZE != 0
        &&& t.flags & TRUN_FLAG_SAMPLE_FLAGS == 0
        &&& t.data_offset is Some
        &&& t.sample_count == self.samples.len()
        &&& t.sample_durations.len() == self.samples.len()
        &&& t.sample_sizes.len() == self.samples.len()
        &&& t.sample_flags.len() == self.samples.len()
        &&& t.sample_cts.len() == self.samples.len()
        &&& ((t.flags & TRUN_FLAG_SAMPLE_CTS != 0) <==> (exists|i: int|
            0 <= i < t.sample_cts.len() && t.sample_cts[i] != 0))
        &&& (forall|i: int|
            0 <= i < self.samples.len() ==> t.sample_sizes[i] as int == (
            #[trigger] self.samples[i]).len())
        &&& TrunBoxView::spec_total_duration(t.sample_durations) <= u32::MAX
    }

    pub open spec fn wf(self) -> bool {
        &&& self.timescale != 0
        &&& self.traf.tfhd.wf()
        &&& self.traf.tfhd.version == 0
        &&& self.mfhd.wf()
        &&& (self.traf.tfdt matches Some(t) ==> t.wf() && t.version == 1)
        &&& (self.traf.tfdt is Some) == (self.samples.len() > 0)
        &&& (self.traf.trun is Some) == (self.samples.len() > 0)
        &&& (self.traf.trun matches Some(t) ==> self.trun_wf(t) && t.wf())
        &&& self.traf.wf()
        &&& (self.prft matches Some(p) ==> p.wf())
        &&& (forall|i: int| 0 <= i < self.emsgs.len() ==> (#[trigger] self.emsgs[i]).wf())
        &&& self.samples.len() < 0x800000
        &&& self.traf.spec_size_int() + 100 <= 0xffffffff
    }

    /// The run's total duration so far, in the track's timescale.
    pub open spec fn total_duration(self) -> int {
        match self.traf.trun {
            Some(t) => TrunBoxView::spec_total_duration(t.sample_durations),
            None => 0int,
        }
    }

    /// The track fragment with its run's data offset patched.
    pub open spec fn patched_traf(self, off: i32) -> TrafBoxView {
        TrafBoxView {
            tfhd: self.traf.tfhd,
            tfdt: self.traf.tfdt,
            trun: match self.traf.trun {
                Some(t) => Some(TrunBoxView { data_offset: Some(off), ..t }),
                None => None,
            },
        }
    }

    /// The fragment container's total size. A data offset patch does not
    /// change it, so it can be computed before the offset is known.
    pub open spec fn moof_size(self) -> int {
        24 + self.patched_traf(0).spec_size_int()
    }

    /// The movie-fragment box that closing the fragment emits: sequence
    /// number installed, data offset resolved to the first payload byte.
    pub open spec fn moof_model(self, sequence_number: u32) -> MoofBoxView {
        MoofBoxView {
            mfhd: MfhdBox { version: self.mfhd.version, flags: self.mfhd.flags, sequence_number },
            trafs: seq![self.patched_traf((self.moof_size() + 8) as i32)],
        }
    }

    /// Everything closing the fragment appends to the sink: the pending
    /// event messages, the pending producer-reference-time box, the
    /// fragment container, and the media-data box holding the payloads.
    pub open spec fn fragment_bytes(self, sequence_number: u32) -> Seq<u8> {
        emsgs_bytes(self.emsgs) + (match self.prft {
            Some(p) => p.spec_ser(),
            None => Seq::empty(),
        }) + self.moof_model(sequence_number).spec_ser() + header_bytes(
            BoxType::MdatBox,
            (8 + samples_total(self.samples)) as u64,
        ) + samples_bytes(self.samples)
    }
}

fn clone_vec_u32(v: &Vec<u32>) -> (r: Vec<u32>)
    ensures
        r@ == v@,
{
    let mut r: Vec<u32> = Vec::new();
    let mut i: usize = 0;
    while i < v.len()
        invariant
            i <= v@.len(),
            r@ == v@.subrange(0, i as int),
        decreases v@.len() - i,
    {
        r.push(v[i]);
        i = i + 1;
        proof {
            assert(r@ =~= v@.subrange(0, i as int));
        }
    }
    proof {
        assert(v@.subrange(0, v@.len() as int) =~= v@);
    }
    r
}

fn clone_trun(t: &TrunBox) -> (r: TrunBox)
    ensures
        r@ == t@,
{
    TrunBox {
        version: t.version,
        flags: t.flags,
        sample_count: t.sample_count,
        data_offset: t.data_offset,
        first_sample_flags: t.first_sample_flags,
        sample_durations: clone_vec_u32(&t.sample_durations),
        sample_sizes: clone_vec_u32(&t.sample_sizes),
        sample_flags: clone_vec_u32(&t.sample_flags),
        sample_cts: clone_vec_u32(&t.sample_cts),
    }
}

fn any_nonzero(v: &Vec<u32>) -> (r: bool)
    ensures
        r == exists|i: int| 0 <= i < v@.len() && v@[i] != 0,
{
    let mut i: usize = 0;
    while i < v.len()
        invariant
            i <= v@.len(),
            forall|j: int| 0 <= j < i ==> v@[j] == 0,
        decreases v@.len() - i,
    {
        if v[i] != 0 {
            return true;
        }
        i = i + 1;
    }
    false
}

impl CmafChunkWriter {
    /// Opens a fragment for one track: records the caller's defaults in a
    /// track-fragment header, leaves the decode time and the run to the
    /// first sample, and writes nothing yet. A zero timescale is a caller
    /// error.
    pub fn write_start(writer: Vec<u8>, track_id: u32, config: &CmafChunkConfig) -> (r: Result<
        CmafChunkWriter,
        Error,
    >)
        requires
            config.timescale != 0,
        ensures
            r matches Ok(w) && w@.wf() && w@.writer == writer@ && w@.samples
                == Seq::<Seq<u8>>::empty() && w@.emsgs == Seq::<EmsgBoxView>::empty()
                && w@.timescale == config.timescale && w@.traf.tfdt is None
                && w@.traf.trun is None && w@.mfhd == (MfhdBox {
                version: 0,
                flags: 0,
                sequence_number: 0,
            }) && w@.traf.tfhd == (TfhdBox {
                version: 0,
                flags: TFHD_FLAG_DEFAULT_SAMPLE_FLAGS | TFHD_FLAG_DEFAULT_SAMPLE_DURATION
                    | TFHD_FLAG_DEFAULT_SAMPLE_SIZE,
                track_id,
                base_data_offset: None,
                sample_description_index: None,
                default_sample_duration: Some(config.default_sample_duration),
                default_sample_size: Some(config.default_sample_size),
                default_sample_flags: Some(config.default_sample_flags),
            }) && w@.prft == (match config.producer_reference_time {
                Some(prt) => Some(
                    PrftBox {
                        version: 1,
                        flags: 0,
                        reference_track_id: track_id,
                        ntp_timestamp: prt.ntp_timestamp,
                        media_time: prt.media_time,
                    },
                ),
                None => None::<PrftBox>,
            }),
    {
        let tfhd = TfhdBox {
            version: 0,
            flags: TFHD_FLAG_DEFAULT_SAMPLE_FLAGS | TFHD_FLAG_DEFAULT_SAMPLE_DURATION
                | TFHD_FLAG_DEFAULT_SAMPLE_SIZE,
            track_id,
            base_data_offset: None,
            sample_description_index: None,
            default_sample_flags: Some(config.default_sample_flags),
            default_sample_duration: Some(config.default_sample_duration),
            default_sample_size: Some(config.default_sample_size),
        };
        let traf = TrafBox { tfhd, tfdt: None, trun: None };
        let mfhd = MfhdBox { flags: 0, version: 0, sequence_number: 0 };
        let prft: Option<PrftBox> = match &config.producer_reference_time {
            Some(prt) => Some(
                PrftBox {
                    version: 1,
                    flags: 0,
                    reference_track_id: track_id,
                    ntp_timestamp: prt.ntp_timestamp,
                    media_time: prt.media_time,
                },
            ),
            None => None,
        };
        let w = CmafChunkWriter {
            writer,
            traf,
            mfhd,
            prft,
            emsgs: Vec::new(),
            samples: Vec::new(),
            timescale: config.timescale,
        };
        proof {
            assert(w@.samples =~= Seq::<Seq<u8>>::empty());
            assert(w@.emsgs =~= Seq::<EmsgBoxView>::empty());
            let f = TFHD_FLAG_DEFAULT_SAMPLE_FLAGS | TFHD_FLAG_DEFAULT_SAMPLE_DURATION
                | TFHD_FLAG_DEFAULT_SAMPLE_SIZE;
            assert(f == 0x38u32 && f & 0x1 == 0 && f & 0x2 == 0 && f & 0x8 != 0 && f & 0x10 != 0
                && f & 0x20 != 0 && f < 0x1000000) by (bit_vector)
                requires
                    f == 0x20u32 | 0x8 | 0x10,
            ;
            assert(w@.traf.tfhd.wf());
        }
        Ok(w)
    }

    pub fn producer_reference_time(&self) -> (r: Option<&PrftBox>)
        ensures
            match r {
                Some(p) => self@.prft == Some(*p),
                None => self@.prft is None,
            },
    {
        self.prft.as_ref()
    }

    /// The fragment's duration so far in microsecond wall-clock units,
    /// truncating, as scaled by the track timescale.
    pub fn duration(&self) -> (r: u64)
        requires
            self@.wf(),
        ensures
            r as int == self@.total_duration() * 1_000_000 / self@.timescale as int,
    {
        if let Some(trun) = &self.traf.trun {
            let d = trun.duration();
            return ((d as u64) * 1_000_000) / (self.timescale as u64);
        }
        0
    }

    /// The decode time of the fragment's first sample; zero while no
    /// sample has been written.
    pub fn base_media_decode_time(&self) -> (r: u64)
        ensures
            r == (match self@.traf.tfdt {
                Some(t) => t.base_media_decode_time,
                None => 0u64,
            }),
    {
        if let Some(tfdt) = &self.traf.tfdt {
            return tfdt.base_media_decode_time;
        }
        0
    }

    /// Whether the first sample of the run is a keyframe, judged by the
    /// first-sample override if present, else the first per-sample flags.
    pub fn starts_with_keyframe(&self) -> (r: bool)
        ensures
            r == (match self@.traf.trun {
                Some(t) => {
                    if t.first_sample_flags is Some {
                        t.first_sample_flags->Some_0 & SAMPLE_FLAG_DEPENDS_NO > 0
                    } else if t.sample_flags.len() > 0 {
                        t.sample_flags[0] & SAMPLE_FLAG_DEPENDS_NO > 0
                    } else {
                        false
                    }
                },
                None => false,
            }),
    {
        let trun = match &self.traf.trun {
            Some(t) => t,
            None => {
                return false;
            },
        };
        let first_sample_flags: u32 = match trun.first_sample_flags {
            Some(f) => f,
            None => {
                if trun.sample_flags.len() > 0 {
                    trun.sample_flags[0]
                } else {
                    return false;
                }
            },
        };
        first_sample_flags & SAMPLE_FLAG_DEPENDS_NO > 0
    }

    /// Whether any sample of the run is a keyframe.
    #[verifier::loop_isolation(false)]
    pub fn contains_keyframe(&self) -> (r: bool)
        ensures
            r == (match self@.traf.trun {
                Some(t) => exists|i: int|
                    0 <= i < t.sample_flags.len() && t.sample_flags[i] & SAMPLE_FLAG_DEPENDS_NO
                        > 0,
                None => false,
            }),
    {
        let trun = match &self.traf.trun {
            Some(t) => t,
            None => {
                return false;
            },
        };
        proof {
            assert(self@.traf.trun == Some(trun@));
        }
        let mut i: usize = 0;
        while i < trun.sample_flags.len()
            invariant
                i <= trun.sample_flags@.len(),
                forall|j: int|
                    0 <= j < i ==> !(#[trigger] trun.sample_flags@[j] & SAMPLE_FLAG_DEPENDS_NO
                        > 0),
            decreases trun.sample_flags@.len() - i,
        {
            if trun.sample_flags[i] & SAMPLE_FLAG_DEPENDS_NO > 0 {
                proof {
                    assert(trun@.sample_flags[i as int] & SAMPLE_FLAG_DEPENDS_NO > 0);
                }
                return true;
            }
            i = i + 1;
        }
        false
    }

    fn sample_trun_flags(sample: &Mp4Sample) -> (r: u32)
        ensures
            r == spec_sample_trun_flags(sample.is_sync),
    {
        if sample.is_sync {
            SAMPLE_FLAG_DEPENDS_NO
        } else {
            SAMPLE_FLAG_DEPENDS_YES | SAMPLE_FLAG_IS_NON_SYNC
        }
    }

    /// Appends one sample: stores its payload, seeds the decode time from
    /// the first sample, derives its run flags, elides them into a single
    /// first-sample override when only the first sample differs from the
    /// track default, and re-derives the whole-run composition-offset flag
    /// after every append. Returns the run's total duration so far.
    #[verifier::rlimit(100)]
    #[verifier::spinoff_prover]
    pub fn write_sample(&mut self, sample: &Mp4Sample) -> (r: Result<u64, Error>)
        requires
            old(self)@.wf(),
            old(self)@.samples.len() + 1 < 0x800000,
            bytes_contents(sample.bytes).len() <= u32::MAX,
            old(self)@.total_duration() + sample.duration <= u32::MAX,
        ensures
            final(self)@.wf(),
            final(self)@.writer == old(self)@.writer,
            final(self)@.mfhd == old(self)@.mfhd,
            final(self)@.prft == old(self)@.prft,
            final(self)@.emsgs == old(self)@.emsgs,
            final(self)@.timescale == old(self)@.timescale,
            final(self)@.traf.tfhd == old(self)@.traf.tfhd,
            final(self)@.samples == old(self)@.samples.push(bytes_contents(sample.bytes)),
            final(self)@.traf.tfdt == (if old(self)@.samples.len() == 0 {
                Some(TfdtBox { version: 1, flags: 0, base_media_decode_time: sample.start_time })
            } else {
                old(self)@.traf.tfdt
            }),
            final(self)@.traf.trun matches Some(t) && {
                let base = old(self)@.trun_or_new();
                let derived = spec_sample_trun_flags(sample.is_sync);
                &&& t.version == 1
                &&& t.sample_count == old(self)@.samples.len() + 1
                &&& t.data_offset == base.data_offset
                &&& t.sample_durations == base.sample_durations.push(sample.duration)
                &&& t.sample_sizes == base.sample_sizes.push(
                    bytes_contents(sample.bytes).len() as u32,
                )
                &&& t.sample_flags == base.sample_flags.push(derived)
                &&& t.sample_cts == base.sample_cts.push(sample.rendering_offset as u32)
                &&& t.first_sample_flags == (if old(self)@.samples.len() == 0 && Some(derived)
                    != old(self)@.traf.tfhd.default_sample_flags {
                    Some(derived)
                } else {
                    base.first_sample_flags
                })
                &&& ((t.flags & TRUN_FLAG_FIRST_SAMPLE_FLAGS != 0) == (
                t.first_sample_flags is Some))
                &&& ((t.flags & TRUN_FLAG_SAMPLE_CTS != 0) <==> (exists|i: int|
                    0 <= i < t.sample_cts.len() && t.sample_cts[i] != 0))
            },
            r matches Ok(d) && d as int == final(self)@.total_duration(),
    {
        self.samples.push(sample.bytes.clone());
        if self.traf.tfdt.is_none() {
            self.traf.tfdt = Some(
                TfdtBox { version: 1, flags: 0, base_media_decode_time: sample.start_time },
            );
        }
        let sample_trun_flags = Self::sample_trun_flags(sample);
        let has_first_sample_flags: bool = match self.traf.tfhd.default_sample_flags {
            Some(f) => f != sample_trun_flags,
            None => true,
        };
        let mut trun: TrunBox = match self.traf.trun.take() {
            Some(t) => t,
            None => TrunBox {
                version: 1,
                data_offset: Some(0),
                flags: TRUN_FLAG_DATA_OFFSET | TRUN_FLAG_SAMPLE_DURATION | TRUN_FLAG_SAMPLE_SIZE,
                sample_count: 0,
                first_sample_flags: None,
                sample_durations: Vec::new(),
                sample_sizes: Vec::new(),
                sample_flags: Vec::new(),
                sample_cts: Vec::new(),
            },
        };
        if has_first_sample_flags && self.samples.len() == 1 {
            let f = trun.flags;
            trun.flags = f | TRUN_FLAG_FIRST_SAMPLE_FLAGS;
            proof {
                lemma_or_flag_bits(f, TRUN_FLAG_FIRST_SAMPLE_FLAGS);
            }
            if trun.first_sample_flags.is_none() {
                trun.first_sample_flags = Some(sample_trun_flags);
            }
        }
        trun.sample_count = self.samples.len() as u32;
        trun.sample_durations.push(sample.duration);
        trun.sample_sizes.push(bytes_len(&sample.bytes) as u32);
        trun.sample_cts.push(sample.rendering_offset as u32);
        trun.sample_flags.push(sample_trun_flags);
        if any_nonzero(&trun.sample_cts) {
            let f = trun.flags;
            trun.flags = f | TRUN_FLAG_SAMPLE_CTS;
            proof {
                lemma_or_flag_bits(f, TRUN_FLAG_SAMPLE_CTS);
            }
        }
        proof {
            let base = old(self)@.trun_or_new();
            let f0 = TRUN_FLAG_DATA_OFFSET | TRUN_FLAG_SAMPLE_DURATION | TRUN_FLAG_SAMPLE_SIZE;
            assert(f0 & 0x1u32 != 0 && f0 & 0x100 != 0 && f0 & 0x200 != 0 && f0 & 0x400 == 0 && f0
                & 0x4 == 0 && f0 & 0x800 == 0 && f0 < 0x1000000) by (bit_vector)
                requires
                    f0 == 0x1u32 | 0x100 | 0x200,
            ;
            assert(trun@.sample_durations =~= base.sample_durations.push(sample.duration));
            assert(trun@.sample_durations.drop_last() =~= base.sample_durations);
            assert(trun@.sample_durations.last() == sample.duration);
            assert(TrunBoxView::spec_total_duration(Seq::<u32>::empty()) == 0);
            assert(TrunBoxView::spec_total_duration(trun@.sample_durations)
                == TrunBoxView::spec_total_duration(base.sample_durations) + sample.duration);
            assert(Seq::new(self.samples@.len(), |i: int| bytes_contents(self.samples@[i]))
                =~= old(self)@.samples.push(bytes_contents(sample.bytes)));
            assert(Seq::new(self.emsgs@.len(), |i: int| self.emsgs@[i]@) =~= old(self)@.emsgs);
            // the size column matches the stored payload lengths
            let sv = Seq::new(self.samples@.len(), |i: int| bytes_contents(self.samples@[i]));
            assert forall|i: int| 0 <= i < sv.len() implies trun@.sample_sizes[i] as int == (
            #[trigger] sv[i]).len() by {
                if i < sv.len() - 1 {
                    assert(sv[i] == old(self)@.samples[i]);
                    assert(trun@.sample_sizes[i] == base.sample_sizes[i]);
                }
            }
            // the whole-run composition-offset rule survives the append
            assert(trun@.sample_cts.drop_last() =~= base.sample_cts);
            if !(exists|i: int| 0 <= i < trun@.sample_cts.len() && trun@.sample_cts[i] != 0) {
                assert forall|i: int|
                    0 <= i < base.sample_cts.len() implies base.sample_cts[i] == 0 by {
                    assert(trun@.sample_cts[i] == base.sample_cts[i]);
                    assert(!(0 <= i < trun@.sample_cts.len() && trun@.sample_cts[i] != 0));
                }
            }
            // the run stays within its size field
            assert(trun@.sample_count * crate::mp4box::trun::trun_stride(trun@.flags) <= 0x800000
                * 16) by (nonlinear_arith)
                requires
                    0 <= trun@.sample_count < 0x800000,
                    0 <= crate::mp4box::trun::trun_stride(trun@.flags) <= 16,
            ;
        }
        let duration: u32 = trun.duration();
        self.traf.trun = Some(trun);
        Ok(duration as u64)
    }

    /// Queues an event-message box to be emitted before the fragment
    /// container, in insertion order.
    pub fn add_emsg(&mut self, emsg: EmsgBox)
        requires
            emsg@.wf(),
        ensures
            final(self)@.emsgs == old(self)@.emsgs.push(emsg@),
            final(self)@.writer == old(self)@.writer,
            final(self)@.traf == old(self)@.traf,
            final(self)@.mfhd == old(self)@.mfhd,
            final(self)@.prft == old(self)@.prft,
            final(self)@.samples == old(self)@.samples,
            final(self)@.timescale == old(self)@.timescale,
            old(self)@.wf() ==> final(self)@.wf(),
    {
        let ghost pre = Seq::new(self.emsgs@.len(), |i: int| self.emsgs@[i]@);
        let ghost ev = emsg@;
        self.emsgs.push(emsg);
        proof {
            assert(Seq::new(self.emsgs@.len(), |i: int| self.emsgs@[i]@) =~= pre.push(ev));
            assert(Seq::new(self.samples@.len(), |i: int| bytes_contents(self.samples@[i])) =~= old(
                self,
            )@.samples);
        }
    }

    /// Closes the fragment: installs the sequence number, resolves the
    /// run's data offset to the fragment container's size plus the
    /// media-data header, and emits the pending metadata, the container,
    /// and the media data, in that order.
    #[verifier::rlimit(100)]
    #[verifier::spinoff_prover]
    pub fn write_end(&mut self, sequence_number: u32) -> (r: Result<(), Error>)
        requires
            old(self)@.wf(),
        ensures
            r is Ok,
            final(self)@.writer == old(self)@.writer + old(self)@.fragment_bytes(sequence_number),
            final(self)@.mfhd == (MfhdBox { sequence_number, ..old(self)@.mfhd }),
            final(self)@.traf == old(self)@.traf,
            final(self)@.prft == old(self)@.prft,
            final(self)@.emsgs == old(self)@.emsgs,
            final(self)@.samples == old(self)@.samples,
            final(self)@.timescale == old(self)@.timescale,
    {
        self.mfhd.sequence_number = sequence_number;
        let traf_clone = TrafBox {
            tfhd: self.traf.tfhd,
            tfdt: self.traf.tfdt,
            trun: match &self.traf.trun {
                Some(t) => Some(clone_trun(t)),
                None => None,
            },
        };
        let traf_size = traf_clone.box_size();
        let moof_size: u64 = 24 + traf_size;
        let patched_traf = TrafBox {
            tfhd: traf_clone.tfhd,
            tfdt: traf_clone.tfdt,
            trun: match traf_clone.trun {
                Some(t) => Some(
                    TrunBox { data_offset: Some((moof_size + HEADER_SIZE) as i32), ..t },
                ),
                None => None,
            },
        };
        let ghost patched_view = patched_traf@;
        let mut trafs_vec: Vec<TrafBox> = Vec::new();
        trafs_vec.push(patched_traf);
        let moof = MoofBox { mfhd: self.mfhd, trafs: trafs_vec };
        proof {
            assert(moof@.trafs =~= seq![patched_view]);
        }
        proof {
            assert(old(self)@.patched_traf(0int as i32).spec_size_int() == old(
                self,
            )@.traf.spec_size_int());
            assert(moof_size as int == old(self)@.moof_size());
            let off_spec = (old(self)@.moof_size() + 8) as i32;
            let target = old(self)@.patched_traf(off_spec);
            assert(patched_view.tfhd == target.tfhd);
            assert(patched_view.tfdt == target.tfdt);
            match (patched_view.trun, target.trun) {
                (Some(a), Some(b)) => {
                    assert(a.version == b.version && a.flags == b.flags && a.sample_count
                        == b.sample_count && a.data_offset == b.data_offset
                        && a.first_sample_flags == b.first_sample_flags && a.sample_durations
                        == b.sample_durations && a.sample_sizes == b.sample_sizes && a.sample_flags
                        == b.sample_flags && a.sample_cts == b.sample_cts);
                    assert(a == b);
                },
                _ => {},
            }
            assert(patched_view == target);
            assert(moof@.trafs =~= seq![target]);
            assert(moof@.trafs.drop_last() =~= Seq::<TrafBoxView>::empty());
            assert(crate::mp4box::moof::trafs_size(Seq::<TrafBoxView>::empty()) == 0);
            assert(crate::mp4box::moof::trafs_size(moof@.trafs) == moof@.trafs.last().spec_size_int());
            assert(target.wf());
            assert(moof@.wf());
        }
        let ghost emsgs_view = Seq::new(self.emsgs@.len(), |i: int| self.emsgs@[i]@);
        let ghost mfhd_snap = self.mfhd;
        let ghost traf_snap = self.traf;
        let ghost prft_snap = self.prft;
        let ghost emsgs_snap = self.emsgs@;
        let ghost samples_snap = self.samples@;
        let mut i: usize = 0;
        proof {
            assert(emsgs_view =~= old(self)@.emsgs);
            assert(self.writer@ =~= old(self)@.writer + emsgs_bytes(emsgs_view.subrange(0, 0)));
        }
        while i < self.emsgs.len()
            invariant
                i <= self.emsgs@.len(),
                self.mfhd == mfhd_snap,
                self.traf == traf_snap,
                self.prft == prft_snap,
                self.emsgs@ == emsgs_snap,
                self.samples@ == samples_snap,
                self.timescale == old(self).timescale,
                emsgs_view == Seq::new(self.emsgs@.len(), |k: int| self.emsgs@[k]@),
                forall|k: int| 0 <= k < emsgs_view.len() ==> (#[trigger] emsgs_view[k]).wf(),
                self.writer@ == old(self)@.writer + emsgs_bytes(emsgs_view.subrange(0, i as int)),
                self.emsgs@.len() == emsgs_view.len(),
            decreases self.emsgs@.len() - i,
        {
            proof {
                assert(self.emsgs@[i as int]@ == emsgs_view[i as int]);
            }
            let e = &self.emsgs[i];
            e.write_box(&mut self.writer)?;
            i = i + 1;
            proof {
                let pre = emsgs_view.subrange(0, i - 1);
                let cur = emsgs_view.subrange(0, i as int);
                assert(cur.drop_last() =~= pre);
                assert(cur.last() == emsgs_view[i - 1]);
                assert(self.writer@ =~= old(self)@.writer + emsgs_bytes(cur));
            }
        }
        proof {
            assert(emsgs_view.subrange(0, emsgs_view.len() as int) =~= emsgs_view);
        }
        if let Some(prft) = &self.prft {
            prft.write_box(&mut self.writer)?;
        }
        moof.write_box(&mut self.writer)?;
        let ghost writer_after_moof = self.writer@;
        // total payload length, then the media-data box
        let ghost samples_view = Seq::new(
            self.samples@.len(),
            |i: int| bytes_contents(self.samples@[i]),
        );
        proof {
            assert(samples_view =~= old(self)@.samples);
        }
        let mut mdat_size: u64 = 0;
        let mut j: usize = 0;
        proof {
            lemma_samples_bytes_len(samples_view);
            lemma_samples_total_bound(samples_view, 0x100000000);
            assert(samples_view.subrange(0, 0) =~= Seq::<Seq<u8>>::empty());
        }
        while j < self.samples.len()
            invariant
                j <= self.samples@.len(),
                self.mfhd == mfhd_snap,
                self.traf == traf_snap,
                self.prft == prft_snap,
                self.emsgs@ == emsgs_snap,
                self.samples@ == samples_snap,
                self.timescale == old(self).timescale,
                self.writer@ == writer_after_moof,
                samples_view == Seq::new(
                    self.samples@.len(),
                    |i: int| bytes_contents(self.samples@[i]),
                ),
                samples_view.len() < 0x800000,
                forall|k: int|
                    0 <= k < samples_view.len() ==> (#[trigger] samples_view[k]).len()
                        <= 0x100000000,
                mdat_size as int == samples_total(samples_view.subrange(0, j as int)),
                mdat_size <= 0x80000000000000,
            decreases self.samples@.len() - j,
        {
            proof {
                lemma_samples_total_step(samples_view, j as int);
                lemma_samples_total_bound(samples_view.subrange(0, j + 1), 0x100000000);
                assert(samples_view.subrange(0, j + 1).len() * 0x100000000 <= 0x800000
                    * 0x100000000) by (nonlinear_arith)
                    requires
                        samples_view.subrange(0, j + 1).len() <= 0x800000,
                ;
            }
            mdat_size = mdat_size + bytes_len(&self.samples[j]) as u64;
            j = j + 1;
        }
        proof {
            assert(samples_view.subrange(0, samples_view.len() as int) =~= samples_view);
        }
        BoxHeader::new(BoxType::MdatBox, HEADER_SIZE + mdat_size).write(&mut self.writer)?;
        let mut k: usize = 0;
        let ghost mdat_base = self.writer@;
        proof {
            assert(self.writer@ =~= mdat_base + samples_bytes(samples_view.subrange(0, 0)));
        }
        while k < self.samples.len()
            invariant
                k <= self.samples@.len(),
                self.mfhd == mfhd_snap,
                self.traf == traf_snap,
                self.prft == prft_snap,
                self.emsgs@ == emsgs_snap,
                self.samples@ == samples_snap,
                self.timescale == old(self).timescale,
                samples_view == Seq::new(
                    self.samples@.len(),
                    |i: int| bytes_contents(self.samples@[i]),
                ),
                self.writer@ == mdat_base + samples_bytes(samples_view.subrange(0, k as int)),
            decreases self.samples@.len() - k,
        {
            bytes_append_to(&mut self.writer, &self.samples[k]);
            k = k + 1;
            proof {
                let pre = samples_view.subrange(0, k - 1);
                let cur = samples_view.subrange(0, k as int);
                assert(cur.drop_last() =~= pre);
                assert(cur.last() == samples_view[k - 1]);
                assert(self.writer@ =~= mdat_base + samples_bytes(cur));
            }
        }
        proof {
            assert(self.writer@ =~= old(self)@.writer + old(self)@.fragment_bytes(
                sequence_number,
            ));
            assert(Seq::new(self.samples@.len(), |i: int| bytes_contents(self.samples@[i])) =~= old(
                self,
            )@.samples);
            assert(Seq::new(self.emsgs@.len(), |i: int| self.emsgs@[i]@) =~= old(self)@.emsgs);
        }
        Ok(())
    }

    /// Consumes the writer, handing back the sink with everything written.
    pub fn into_writer(self) -> (r: Vec<u8>)
        ensures
            r@ == self@.writer,
    {
        self.writer
    }
}

impl CmafChunkWriterView {
    /// The run as it stands, or the fresh run the first sample creates.
    pub open spec fn trun_or_new(self) -> TrunBoxView {
        match self.traf.trun {
            Some(t) => t,
            None => TrunBoxView {
                version: 1,
                data_offset: Some(0),
                flags: TRUN_FLAG_DATA_OFFSET | TRUN_FLAG_SAMPLE_DURATION | TRUN_FLAG_SAMPLE_SIZE,
                sample_count: 0,
                first_sample_flags: None,
                sample_durations: Seq::empty(),
                sample_sizes: Seq::empty(),
                sample_flags: Seq::empty(),
                sample_cts: Seq::empty(),
            },
        }
    }
}

/// Setting a flag bit keeps every other bit and the 24-bit bound.
pub proof fn lemma_or_flag_bits(f: u32, b: u32)
    requires
        b == TRUN_FLAG_FIRST_SAMPLE_FLAGS || b == TRUN_FLAG_SAMPLE_CTS,
    ensures
        (f | b) & b != 0,
        (f | b) & TRUN_FLAG_DATA_OFFSET == f & TRUN_FLAG_DATA_OFFSET,
        (f | b) & TRUN_FLAG_SAMPLE_DURATION == f & TRUN_FLAG_SAMPLE_DURATION,
        (f | b) & TRUN_FLAG_SAMPLE_SIZE == f & TRUN_FLAG_SAMPLE_SIZE,
        (f | b) & TRUN_FLAG_SAMPLE_FLAGS == f & TRUN_FLAG_SAMPLE_FLAGS,
        b != TRUN_FLAG_FIRST_SAMPLE_FLAGS ==> (f | b) & TRUN_FLAG_FIRST_SAMPLE_FLAGS == f
            & TRUN_FLAG_FIRST_SAMPLE_FLAGS,
        b != TRUN_FLAG_SAMPLE_CTS ==> (f | b) & TRUN_FLAG_SAMPLE_CTS == f & TRUN_FLAG_SAMPLE_CTS,
        f < 0x1000000 ==> (f | b) < 0x1000000,
{
    assert((b == 0x4u32 || b == 0x800u32) ==> ((f | b) & b != 0 && (f | b) & 0x1 == f & 0x1 && (f
        | b) & 0x100 == f & 0x100 && (f | b) & 0x200 == f & 0x200 && (f | b) & 0x400 == f & 0x400
        && (b != 0x4u32 ==> (f | b) & 0x4 == f & 0x4) && (b != 0x800u32 ==> (f | b) & 0x800 == f
        & 0x800) && (f < 0x1000000 ==> (f | b) < 0x1000000))) by (bit_vector);
}

} // verus!
