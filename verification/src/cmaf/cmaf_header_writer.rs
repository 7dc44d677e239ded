//! The initialization-segment writer: emits the file-type box up front,
//! assembles one track subtree per stream as tracks are added, and at the
//! end back-patches every duration and writes the movie box with one
//! fragment-defaults entry per track.
use vstd::prelude::*;

use crate::boxtype::BoxType;
use crate::header::{header_bytes, BoxHeader};
use crate::mp4box::colr::{Color, ColrBox};
use crate::mp4box::moov::{
    Avc1Box, AvcCBox, FtypBox, FtypBoxView, MdhdBox, MvhdBox, TkhdBox, TrakBox, TrakBoxView,
    TrexBox,
};
use crate::mp4box::pasp::PaspBox;
use crate::primitives::{char_bytes, put_bytes, string_wire_bytes};
use crate::types::{Error, FourCC, MediaConfig, TrackConfig, TrackType};

verus! {

#[derive(Debug, Clone, PartialEq, Eq)]
pub struct CmafHeaderConfig {
    pub major_brand: FourCC,
    pub minor_version: u32,
    pub compatible_brands: Vec<FourCC>,
    pub timescale: u32,
}

#[derive(Debug)]
pub struct CmafHeaderWriter {
    writer: Vec<u8>,
    tracks: Vec<TrakBox>,
    timescale: u32,
    duration: u64,
}

/// The mathematical state of a header writer: the bytes written so far,
/// the assembled track subtrees, and the movie timescale and duration in
/// whole seconds.
pub struct CmafHeaderWriterView {
    pub writer: Seq<u8>,
    pub tracks: Seq<TrakBoxView>,
    pub timescale: u32,
    pub duration: u64,
}

impl View for CmafHeaderWriter {
    type V = CmafHeaderWriterView;

    closed spec fn view(&self) -> CmafHeaderWriterView {
        CmafHeaderWriterView {
            writer: self.writer@,
            tracks: Seq::new(self.tracks@.len(), |i: int| self.tracks@[i]@),
            timescale: self.timescale,
            duration: self.duration,
        }
    }
}

/// The byte a language code position contributes: the char's low five
/// bits, or zero past the end of the tag.
pub open spec fn lang_byte(s: Seq<u8>, i: int) -> u8 {
    if i < s.len() {
        s[i]
    } else {
        0u8
    }
}

/// The packed 15-bit language code of the first three tag bytes.
pub open spec fn spec_language_pack(s: Seq<char>) -> u16 {
    let b = char_bytes(s);
    ((lang_byte(b, 0) % 32) as u16 * 1024 + (lang_byte(b, 1) % 32) as u16 * 32 + (lang_byte(b, 2)
        % 32) as u16) as u16
}

fn language_pack(language: &String) -> (r: u16)
    ensures
        r == spec_language_pack(language@),
{
    let b = string_wire_bytes(language);
    let b0: u8 = if b.len() > 0 {
        b[0]
    } else {
        0
    };
    let b1: u8 = if b.len() > 1 {
        b[1]
    } else {
        0
    };
    let b2: u8 = if b.len() > 2 {
        b[2]
    } else {
        0
    };
    (b0 % 32) as u16 * 1024 + (b1 % 32) as u16 * 32 + (b2 % 32) as u16
}

fn clone_color(c: &Color) -> (r: Color)
    ensures
        r@ == c@,
{
    match c {
        Color::Nclx(cc) => Color::Nclx(
            crate::types::ColorConfig {
                color_primaries: cc.color_primaries,
                transfer_characteristics: cc.transfer_characteristics,
                matrix_coefficients: cc.matrix_coefficients,
                full_range: cc.full_range,
            },
        ),
        Color::Prof(b) => Color::Prof(b.clone()),
    }
}

fn clone_vec_u8(v: &Vec<u8>) -> (r: Vec<u8>)
    ensures
        r@ == v@,
{
    let mut r: Vec<u8> = Vec::new();
    put_bytes(&mut r, v.as_slice());
    proof {
        assert(r@ =~= v@);
    }
    r
}

fn clone_vec_fourcc(v: &Vec<FourCC>) -> (r: Vec<FourCC>)
    ensures
        r@ == v@,
{
    let mut r: Vec<FourCC> = Vec::new();
    let mut i: usize = 0;
    while i < v.len()
        invariant
            i <= v@.len(),
            r@ == v@.subrange(0, i as int),
        decreases v@.len() - i,
    {
        r.push(v[i]);
        i = i + 1;
        proof {
            assert(r@ =~= v@.subrange(0, i as int));
        }
    }
    proof {
        assert(v@.subrange(0, v@.len() as int) =~= v@);
    }
    r
}

/// A track subtree with its durations patched to the final values.
pub open spec fn patched_track(t: TrakBoxView, movie_duration: u64, media_duration: u64)
    -> TrakBoxView {
    TrakBoxView {
        tkhd: TkhdBox { duration: movie_duration, ..t.tkhd },
        mdhd: MdhdBox { duration: media_duration, ..t.mdhd },
        ..t
    }
}

/// The patched track subtrees laid end to end.
pub open spec fn traks_bytes(
    tracks: Seq<TrakBoxView>,
    movie_duration: u64,
    duration_secs: u64,
) -> Seq<u8>
    decreases tracks.len(),
{
    if tracks.len() == 0 {
        Seq::empty()
    } else {
        traks_bytes(tracks.drop_last(), movie_duration, duration_secs) + patched_track(
            tracks.last(),
            movie_duration,
            (duration_secs * tracks.last().mdhd.timescale as u64) as u64,
        ).spec_ser()
    }
}

/// The total size the patched track subtrees occupy.
pub open spec fn traks_size(tracks: Seq<TrakBoxView>) -> int
    decreases tracks.len(),
{
    if tracks.len() == 0 {
        0
    } else {
        traks_size(tracks.drop_last()) + tracks.last().spec_size_int()
    }
}

/// The fragment-defaults entries for track ids 1 through `n`.
pub open spec fn trexes_bytes(n: int) -> Seq<u8>
    decreases n,
{
    if n <= 0 {
        Seq::empty()
    } else {
        trexes_bytes(n - 1) + (TrexBox { track_id: n as u32 }).spec_ser()
    }
}

pub proof fn lemma_trexes_bytes_len(n: int)
    requires
        0 <= n,
    ensures
        trexes_bytes(n).len() == 32 * n,
    decreases n,
{
    if n > 0 {
        lemma_trexes_bytes_len(n - 1);
    }
}

impl CmafHeaderWriterView {
    /// What the writer keeps true of its state between calls.
    pub open spec fn wf(self) -> bool {
        &&& self.duration <= u32::MAX
        &&& self.tracks.len() < 0x10000
        &&& (forall|i: int|
            0 <= i < self.tracks.len() ==> (#[trigger] self.tracks[i]).wf() && self.tracks[
                i
            ].spec_size_int() <= 0x100000)
    }

    /// The movie duration: the caller-supplied seconds in movie units.
    pub open spec fn movie_duration(self) -> u64 {
        (self.duration * self.timescale as u64) as u64
    }

    pub open spec fn mvhd_model(self) -> MvhdBox {
        MvhdBox {
            version: if self.movie_duration() > u32::MAX {
                1
            } else {
                0
            },
            timescale: self.timescale,
            duration: self.movie_duration(),
            next_track_id: 2,
        }
    }

    pub open spec fn mvex_size(self) -> int {
        8 + 32 * self.tracks.len() as int
    }

    pub open spec fn moov_size(self) -> int {
        8 + self.mvhd_model().spec_size() + traks_size(self.tracks) + self.mvex_size()
    }

    /// Everything closing the header appends: the movie box holding the
    /// movie header, the patched track subtrees, and the fragment
    /// defaults.
    pub open spec fn moov_bytes(self) -> Seq<u8> {
        header_bytes(BoxType::MoovBox, self.moov_size() as u64) + self.mvhd_model().spec_ser()
            + traks_bytes(self.tracks, self.movie_duration(), self.duration) + header_bytes(
            BoxType::MvexBox,
            self.mvex_size() as u64,
        ) + trexes_bytes(self.tracks.len() as int)
    }
}

pub proof fn lemma_traks_size_step(tracks: Seq<TrakBoxView>, i: int)
    requires
        0 <= i < tracks.len(),
    ensures
        traks_size(tracks.subrange(0, i + 1)) == traks_size(tracks.subrange(0, i)) + tracks[
            i
        ].spec_size_int(),
{
    assert(tracks.subrange(0, i + 1).drop_last() =~= tracks.subrange(0, i));
    assert(tracks.subrange(0, i + 1).last() == tracks[i]);
}

pub proof fn lemma_traks_size_bound(tracks: Seq<TrakBoxView>, i: int, bound: int)
    requires
        0 <= i <= tracks.len(),
        bound >= 0,
        forall|j: int| 0 <= j < tracks.len() ==> (#[trigger] tracks[j]).spec_size_int() <= bound,
        forall|j: int| 0 <= j < tracks.len() ==> (#[trigger] tracks[j]).spec_size_int() >= 0,
    ensures
        0 <= traks_size(tracks.subrange(0, i)) <= i * bound,
    decreases i,
{
    if i == 0 {
        assert(tracks.subrange(0, 0) =~= Seq::<TrakBoxView>::empty());
    } else {
        lemma_traks_size_bound(tracks, i - 1, bound);
        lemma_traks_size_step(tracks, i - 1);
        assert((i - 1) * bound + bound == i * bound) by (nonlinear_arith);
    }
}


/// Total size of the track subtrees, which patching durations leaves
/// unchanged.
#[verifier::loop_isolation(false)]
fn total_traks_size(tracks: &Vec<TrakBox>) -> (r: u64)
    requires
        tracks@.len() < 0x10000,
        forall|i: int|
            0 <= i < tracks@.len() ==> (#[trigger] tracks@[i]@).wf() && tracks@[i]@.spec_size_int()
                <= 0x100000,
    ensures
        r as int == traks_size(Seq::new(tracks@.len(), |k: int| tracks@[k]@)),
        r <= 0x100000 * tracks@.len(),
{
    let ghost tracks_view = Seq::new(tracks@.len(), |k: int| tracks@[k]@);
    let n: usize = tracks.len();
    let mut total: u64 = 0;
    let mut i: usize = 0;
    proof {
        lemma_traks_size_bound(tracks_view, 0, 0x100000);
    }
    while i < n
        invariant
            i <= n,
            total as int == traks_size(tracks_view.subrange(0, i as int)),
            total <= 0x100000 * (i as int),
        decreases n - i,
    {
        proof {
            lemma_traks_size_step(tracks_view, i as int);
            lemma_traks_size_bound(tracks_view, i + 1, 0x100000);
            assert(0x100000 * ((i + 1) as int) <= 0x100000 * 0x10000) by (nonlinear_arith)
                requires
                    i + 1 <= 0x10000,
            ;
        }
        total = total + tracks[i].get_size();
        i = i + 1;
    }
    proof {
        assert(tracks_view.subrange(0, n as int) =~= tracks_view);
    }
    total
}

/// Writes every track subtree with its durations patched in.
#[verifier::loop_isolation(false)]
#[verifier::rlimit(100)]
#[verifier::spinoff_prover]
fn write_patched_tracks(
    out: &mut Vec<u8>,
    tracks: &Vec<TrakBox>,
    movie_duration: u64,
    duration_secs: u64,
) -> (r: Result<(), Error>)
    requires
        duration_secs <= u32::MAX,
        forall|i: int| 0 <= i < tracks@.len() ==> (#[trigger] tracks@[i]@).wf(),
    ensures
        r is Ok,
        final(out)@ == old(out)@ + traks_bytes(
            Seq::new(tracks@.len(), |k: int| tracks@[k]@),
            movie_duration,
            duration_secs,
        ),
{
    let ghost tracks_view = Seq::new(tracks@.len(), |k: int| tracks@[k]@);
    let n: usize = tracks.len();
    let mut j: usize = 0;
    proof {
        assert(out@ =~= old(out)@ + traks_bytes(
            tracks_view.subrange(0, 0),
            movie_duration,
            duration_secs,
        ));
    }
    while j < n
        invariant
            j <= n,
            out@ == old(out)@ + traks_bytes(
                tracks_view.subrange(0, j as int),
                movie_duration,
                duration_secs,
            ),
        decreases n - j,
    {
        let t = &tracks[j];
        proof {
            assert((duration_secs as int) * (t.mdhd.timescale as u64 as int) < 0x10000000000000000)
                by (nonlinear_arith)
                requires
                    duration_secs <= 0xffffffff,
                    t.mdhd.timescale as u64 <= 0xffffffff,
            ;
        }
        let media_duration: u64 = duration_secs * (t.mdhd.timescale as u64);
        let patched = TrakBox {
            tkhd: TkhdBox { duration: movie_duration, ..t.tkhd },
            mdhd: MdhdBox { duration: media_duration, ..t.mdhd },
            track_type: t.track_type,
            avc1: Avc1Box {
                width: t.avc1.width,
                height: t.avc1.height,
                avcc: AvcCBox {
                    seq_param_set: clone_vec_u8(&t.avc1.avcc.seq_param_set),
                    pic_param_set: clone_vec_u8(&t.avc1.avcc.pic_param_set),
                },
                colr: match &t.avc1.colr {
                    Some(c) => Some(ColrBox { color_config: clone_color(&c.color_config) }),
                    None => None,
                },
                pasp: t.avc1.pasp,
            },
        };
        proof {
            assert(patched@.avc1.colr == tracks_view[j as int].avc1.colr);
            assert(patched@ == patched_track(tracks_view[j as int], movie_duration, media_duration));
        }
        patched.write_box(out)?;
        j = j + 1;
        proof {
            let pre = tracks_view.subrange(0, j - 1);
            let cur = tracks_view.subrange(0, j as int);
            assert(cur.drop_last() =~= pre);
            assert(cur.last() == tracks_view[j - 1]);
            assert(out@ =~= old(out)@ + traks_bytes(cur, movie_duration, duration_secs));
        }
    }
    proof {
        assert(tracks_view.subrange(0, n as int) =~= tracks_view);
    }
    Ok(())
}

/// Writes the fragment-defaults entries for track ids 1 through `n`.
#[verifier::loop_isolation(false)]
fn write_trexes(out: &mut Vec<u8>, n: usize) -> (r: Result<(), Error>)
    requires
        n < 0x10000,
    ensures
        r is Ok,
        final(out)@ == old(out)@ + trexes_bytes(n as int),
{
    let mut k: usize = 0;
    proof {
        assert(out@ =~= old(out)@ + trexes_bytes(0));
    }
    while k < n
        invariant
            k <= n,
            out@ == old(out)@ + trexes_bytes(k as int),
        decreases n - k,
    {
        let trex = TrexBox { track_id: (k as u32) + 1 };
        trex.write_box(out)?;
        k = k + 1;
        proof {
            assert(out@ =~= old(out)@ + trexes_bytes(k as int));
        }
    }
    Ok(())
}

impl CmafHeaderWriter {
    /// Opens a header: writes the file-type box at once and starts with an
    /// empty track list. The duration, if known up front, is given in
    /// whole seconds.
    pub fn write_start(
        writer: Vec<u8>,
        config: &CmafHeaderConfig,
        duration_secs: Option<u64>,
    ) -> (r: Result<CmafHeaderWriter, Error>)
        requires
            config.compatible_brands@.len() < 0x1000000,
            (duration_secs matches Some(d) ==> d <= u32::MAX),
        ensures
            r matches Ok(w) && w@.wf() && w@.tracks == Seq::<TrakBoxView>::empty() && w@.timescale
                == config.timescale && w@.duration == (match duration_secs {
                Some(d) => d,
                None => 0u64,
            }) && w@.writer == writer@ + (FtypBoxView {
                major_brand: config.major_brand.spec_u32(),
                minor_version: config.minor_version,
                compatible_brands: Seq::new(
                    config.compatible_brands@.len(),
                    |i: int| config.compatible_brands@[i].spec_u32(),
                ),
            }).spec_ser(),
    {
        let mut out = writer;
        let ftyp = FtypBox {
            major_brand: config.major_brand,
            minor_version: config.minor_version,
            compatible_brands: clone_vec_fourcc(&config.compatible_brands),
        };
        proof {
            assert(ftyp@.compatible_brands =~= Seq::new(
                config.compatible_brands@.len(),
                |i: int| config.compatible_brands@[i].spec_u32(),
            ));
        }
        ftyp.write_box(&mut out)?;
        let w = CmafHeaderWriter {
            writer: out,
            tracks: Vec::new(),
            timescale: config.timescale,
            duration: match duration_secs {
                Some(d) => d,
                None => 0,
            },
        };
        proof {
            assert(w@.tracks =~= Seq::<TrakBoxView>::empty());
        }
        Ok(w)
    }

    /// Adds one track: assigns the next sequential id and assembles the
    /// track subtree eagerly, leaving only the durations for the end.
    /// This library assembles AVC video tracks; other codec
    /// configurations are reported as unsupported.
    pub fn add_track(&mut self, config: &TrackConfig) -> (r: Result<(), Error>)
        requires
            old(self)@.wf(),
            old(self)@.tracks.len() + 1 < 0x10000,
            (config.media_conf matches MediaConfig::AvcConfig(avc) ==> 4 <= avc.seq_param_set@.len()
                <= 0xfff && avc.pic_param_set@.len() <= 0xfff),
        ensures
            final(self)@.writer == old(self)@.writer,
            final(self)@.timescale == old(self)@.timescale,
            final(self)@.duration == old(self)@.duration,
            final(self)@.wf(),
            match r {
                Ok(_) => (config.media_conf matches MediaConfig::AvcConfig(avc) && final(self)@.tracks.len() == old(self)@.tracks.len() + 1 && final(self)@.tracks.subrange(
                    0,
                    old(self)@.tracks.len() as int,
                ) == old(self)@.tracks && {
                    let t = final(self)@.tracks.last();
                    &&& t.tkhd.track_id == old(self)@.tracks.len() + 1
                    &&& t.tkhd.width == avc.width
                    &&& t.tkhd.height == avc.height
                    &&& t.mdhd.timescale == config.timescale
                    &&& t.mdhd.language == spec_language_pack(config.language@)
                    &&& t.track_type == config.track_type
                    &&& t.avc1.avcc.seq_param_set == avc.seq_param_set@
                    &&& t.avc1.avcc.pic_param_set == avc.pic_param_set@
                }),
                Err(e) => !(config.media_conf is AvcConfig) && e is Unsupported && final(self)@.tracks == old(self)@.tracks,
            },
    {
        let track_id = self.tracks.len() as u32 + 1;
        match &config.media_conf {
            MediaConfig::AvcConfig(avc) => {
                let colr: Option<ColrBox> = match &avc.color {
                    Some(c) => Some(
                        ColrBox {
                            color_config: Color::Nclx(
                                crate::types::ColorConfig {
                                    color_primaries: c.color_primaries,
                                    transfer_characteristics: c.transfer_characteristics,
                                    matrix_coefficients: c.matrix_coefficients,
                                    full_range: c.full_range,
                                },
                            ),
                        },
                    ),
                    None => None,
                };
                let pasp: Option<PaspBox> = match &avc.aspect_ratio {
                    Some(ar) => Some(PaspBox { numerator: ar.0, denumerator: ar.1 }),
                    None => None,
                };
                let track = TrakBox {
                    tkhd: TkhdBox {
                        track_id,
                        duration: 0,
                        width: avc.width,
                        height: avc.height,
                        volume: match config.track_type {
                            TrackType::Audio => 0x0100,
                            _ => 0,
                        },
                    },
                    mdhd: MdhdBox {
                        timescale: config.timescale,
                        duration: 0,
                        language: language_pack(&config.language),
                    },
                    track_type: config.track_type,
                    avc1: Avc1Box {
                        width: avc.width,
                        height: avc.height,
                        avcc: AvcCBox {
                            seq_param_set: clone_vec_u8(&avc.seq_param_set),
                            pic_param_set: clone_vec_u8(&avc.pic_param_set),
                        },
                        colr,
                        pasp,
                    },
                };
                let ghost pre = Seq::new(self.tracks@.len(), |i: int| self.tracks@[i]@);
                let ghost tv = track@;
                self.tracks.push(track);
                proof {
                    assert(Seq::new(self.tracks@.len(), |i: int| self.tracks@[i]@) =~= pre.push(
                        tv,
                    ));
                    assert(final(self)@.tracks.subrange(0, pre.len() as int) =~= pre);
                }
                Ok(())
            },
            _ => {
                proof {
                    assert(Seq::new(self.tracks@.len(), |i: int| self.tracks@[i]@) =~= old(self)@.tracks);
                }
                Err(Error::Unsupported("only AVC tracks can be assembled into a header"))
            },
        }
    }

    /// Closes the header: computes the movie duration, back-patches every
    /// track's durations, upgrades the movie header to the 64-bit layout
    /// when the duration demands it, and writes the movie box with one
    /// fragment-defaults entry per track.
    #[verifier::rlimit(100)]
    #[verifier::spinoff_prover]
    pub fn write_end(&mut self) -> (r: Result<(), Error>)
        requires
            old(self)@.wf(),
        ensures
            r is Ok,
            final(self)@.writer == old(self)@.writer + old(self)@.moov_bytes(),
            final(self)@.tracks == old(self)@.tracks,
            final(self)@.timescale == old(self)@.timescale,
            final(self)@.duration == old(self)@.duration,
    {
        proof {
            let d = old(self)@.duration;
            let ts = old(self)@.timescale as u64;
            assert((d as int) * (ts as int) < 0x10000000000000000) by (nonlinear_arith)
                requires
                    d <= 0xffffffff,
                    ts <= 0xffffffff,
            ;
        }
        let duration: u64 = self.duration * (self.timescale as u64);
        let mvhd = MvhdBox {
            version: if duration > 0xffffffff {
                1
            } else {
                0
            },
            timescale: self.timescale,
            duration,
            next_track_id: 2,
        };
        let n: usize = self.tracks.len();
        proof {
            assert(0x100000 * (n as int) <= 0x100000 * 0x10000) by (nonlinear_arith)
                requires
                    n <= 0x10000,
            ;
        }
        proof {
            assert(forall|i: int|
                0 <= i < self.tracks@.len() ==> (#[trigger] self.tracks@[i]@) == old(self)@.tracks[i]);
        }
        let traks_total: u64 = total_traks_size(&self.tracks);
        let mvex_size: u64 = 8 + 32 * (n as u64);
        let moov_size: u64 = 8 + mvhd.get_size() + traks_total + mvex_size;
        BoxHeader::new(BoxType::MoovBox, moov_size).write(&mut self.writer)?;
        mvhd.write_box(&mut self.writer)?;
        write_patched_tracks(&mut self.writer, &self.tracks, mvhd.duration, self.duration)?;
        BoxHeader::new(BoxType::MvexBox, mvex_size).write(&mut self.writer)?;
        write_trexes(&mut self.writer, n)?;
        proof {
            assert(Seq::new(self.tracks@.len(), |m: int| self.tracks@[m]@) =~= old(self)@.tracks);
            assert(self.writer@ =~= old(self)@.writer + old(self)@.moov_bytes());
        }
        Ok(())
    }

    /// Consumes the writer, handing back the sink with everything written.
    pub fn into_writer(self) -> (r: Vec<u8>)
        ensures
            r@ == self@.writer,
    {
        self.writer
    }
}

} // verus!
