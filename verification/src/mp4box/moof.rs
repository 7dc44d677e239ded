//! The movie-fragment box: the fragment header followed by one track
//! fragment per track.
use vstd::prelude::*;

use crate::boxtype::BoxType;
use crate::header::{header_bytes, parse_header, BoxHeader};
use crate::mp4box::mfhd::MfhdBox;
use crate::mp4box::traf::{lemma_traf_ser_len, TrafBox, TrafBoxView};
use crate::primitives::skip_to_end;
use crate::types::Error;

verus! {

#[derive(Debug, Clone, PartialEq, Eq, Default)]
pub struct MoofBox {
    pub mfhd: MfhdBox,
    pub trafs: Vec<TrafBox>,
}

/// The mathematical value of a movie-fragment box.
pub struct MoofBoxView {
    pub mfhd: MfhdBox,
    pub trafs: Seq<TrafBoxView>,
}

impl View for MoofBox {
    type V = MoofBoxView;

    open spec fn view(&self) -> MoofBoxView {
        MoofBoxView {
            mfhd: self.mfhd,
            trafs: Seq::new(self.trafs@.len(), |i: int| self.trafs@[i]@),
        }
    }
}

/// The track fragments laid end to end.
pub open spec fn trafs_bytes(trafs: Seq<TrafBoxView>) -> Seq<u8>
    decreases trafs.len(),
{
    if trafs.len() == 0 {
        Seq::empty()
    } else {
        trafs_bytes(trafs.drop_last()) + trafs.last().spec_ser()
    }
}

/// The laid-out track fragments occupy the sum of their sizes.
pub open spec fn trafs_size(trafs: Seq<TrafBoxView>) -> int
    decreases trafs.len(),
{
    if trafs.len() == 0 {
        0
    } else {
        trafs_size(trafs.drop_last()) + trafs.last().spec_size_int()
    }
}

pub proof fn lemma_trafs_bytes_len(trafs: Seq<TrafBoxView>)
    requires
        forall|i: int| 0 <= i < trafs.len() ==> (#[trigger] trafs[i]).wf(),
    ensures
        trafs_bytes(trafs).len() == trafs_size(trafs),
        trafs_size(trafs) >= 0,
    decreases trafs.len(),
{
    if trafs.len() > 0 {
        lemma_trafs_bytes_len(trafs.drop_last());
        lemma_traf_ser_len(trafs.last());
    }
}

/// One step of the child walk per recursive call: the fragment header and
/// each track fragment in turn.
pub open spec fn parse_moof_children(
    data: Seq<u8>,
    pos: int,
    end: int,
    mfhd: Option<MfhdBox>,
    trafs: Seq<TrafBoxView>,
) -> Option<(Option<MfhdBox>, Seq<TrafBoxView>)>
    decreases end - pos,
{
    if pos >= end {
        Some((mfhd, trafs))
    } else {
        match parse_header(data, pos) {
            None => None,
            Some((h, p2)) => {
                let cstart = p2 - 8;
                let cend = cstart + h.size;
                if h.size < 8 || cend > end {
                    None
                } else if h.name == BoxType::MfhdBox {
                    match MfhdBox::spec_parse(data, cstart, h.size as int) {
                        Some(b) => parse_moof_children(data, cend, end, Some(b), trafs),
                        None => None,
                    }
                } else if h.name == BoxType::TrafBox {
                    match TrafBoxView::spec_parse(data, cstart, h.size as int) {
                        Some(b) => parse_moof_children(data, cend, end, mfhd, trafs.push(b)),
                        None => None,
                    }
                } else {
                    if cend <= data.len() {
                        parse_moof_children(data, cend, end, mfhd, trafs)
                    } else {
                        None
                    }
                }
            },
        }
    }
}

impl MoofBoxView {
    pub open spec fn wf(self) -> bool {
        &&& self.mfhd.wf()
        &&& (forall|i: int| 0 <= i < self.trafs.len() ==> (#[trigger] self.trafs[i]).wf())
        &&& self.spec_size_int() <= 0xffffffff
    }

    pub open spec fn spec_size_int(self) -> int {
        8 + 16 + trafs_size(self.trafs)
    }

    pub open spec fn spec_size(self) -> u64 {
        self.spec_size_int() as u64
    }

    pub open spec fn spec_ser(self) -> Seq<u8> {
        header_bytes(BoxType::MoofBox, self.spec_size()) + self.mfhd.spec_ser() + trafs_bytes(
            self.trafs,
        )
    }

    /// Decodes the payload of a box whose header, already consumed, began
    /// at `start` and declared `size` bytes in total. The fragment-header
    /// child is required.
    pub open spec fn spec_parse(data: Seq<u8>, start: int, size: int) -> Option<MoofBoxView> {
        if start + size <= data.len() {
            match parse_moof_children(data, start + 8, start + size, None, Seq::empty()) {
                Some((Some(mfhd), trafs)) => Some(MoofBoxView { mfhd, trafs }),
                _ => None,
            }
        } else {
            None
        }
    }
}

impl MoofBox {
    pub fn get_type(&self) -> (r: BoxType)
        ensures
            r == BoxType::MoofBox,
    {
        BoxType::MoofBox
    }

    #[verifier::loop_isolation(false)]
    pub fn get_size(&self) -> (r: u64)
        requires
            self@.wf(),
        ensures
            r == self@.spec_size(),
    {
        let mut size: u64 = 8 + self.mfhd.box_size();
        let mut i: usize = 0;
        proof {
            lemma_trafs_bytes_len(self@.trafs);
            assert(self@.trafs.subrange(0, 0) =~= Seq::<TrafBoxView>::empty());
        }
        while i < self.trafs.len()
            invariant
                i <= self.trafs@.len(),
                size == 24 + trafs_size(self@.trafs.subrange(0, i as int)),
                size <= 0xffffffff,
            decreases self.trafs@.len() - i,
        {
            proof {
                lemma_trafs_prefix_step(self@.trafs, i as int);
                lemma_trafs_prefix_bound(self@.trafs, i + 1);
            }
            size = size + self.trafs[i].box_size();
            i = i + 1;
        }
        proof {
            assert(self@.trafs.subrange(0, self@.trafs.len() as int) =~= self@.trafs);
        }
        size
    }

    pub fn box_type(&self) -> (r: BoxType)
        ensures
            r == BoxType::MoofBox,
    {
        self.get_type()
    }

    pub fn box_size(&self) -> (r: u64)
        requires
            self@.wf(),
        ensures
            r == self@.spec_size(),
    {
        self.get_size()
    }

    #[verifier::loop_isolation(false)]
    #[verifier::rlimit(100)]
    #[verifier::spinoff_prover]
    pub fn write_box(&self, out: &mut Vec<u8>) -> (r: Result<u64, Error>)
        requires
            self@.wf(),
        ensures
            final(out)@ == old(out)@ + self@.spec_ser(),
            r matches Ok(n) && n == self@.spec_size(),
            self@.spec_ser().len() == self@.spec_size(),
    {
        let size = self.box_size();
        BoxHeader::new(self.box_type(), size).write(out)?;
        self.mfhd.write_box(out)?;
        let ghost base = out@;
        let mut i: usize = 0;
        proof {
            lemma_trafs_bytes_len(self@.trafs);
            assert(out@ =~= base + trafs_bytes(self@.trafs.subrange(0, 0)));
        }
        while i < self.trafs.len()
            invariant
                i <= self.trafs@.len(),
                out@ == base + trafs_bytes(self@.trafs.subrange(0, i as int)),
            decreases self.trafs@.len() - i,
        {
            proof {
                assert(self@.trafs[i as int] == self.trafs@[i as int]@);
                assert(self@.trafs[i as int].wf());
            }
            self.trafs[i].write_box(out)?;
            i = i + 1;
            proof {
                let pre = self@.trafs.subrange(0, i - 1);
                let cur = self@.trafs.subrange(0, i as int);
                assert(cur.drop_last() =~= pre);
                assert(cur.last() == self@.trafs[i - 1]);
                assert(out@ =~= base + trafs_bytes(cur));
            }
        }
        proof {
            assert(self@.trafs.subrange(0, self@.trafs.len() as int) =~= self@.trafs);
            assert(out@ =~= old(out)@ + self@.spec_ser());
        }
        Ok(size)
    }

    #[verifier::loop_isolation(false)]
    #[verifier::rlimit(100)]
    #[verifier::spinoff_prover]
    pub fn read_box(data: &Vec<u8>, pos: &mut usize, size: u64) -> (r: Result<MoofBox, Error>)
        requires
            *old(pos) >= 8,
            *old(pos) <= data@.len(),
        ensures
            match r {
                Ok(b) => MoofBoxView::spec_parse(data@, *old(pos) - 8, size as int) matches Some(m)
                    && m.mfhd == b@.mfhd && m.trafs == b@.trafs && *final(pos) == *old(pos) - 8
                    + size,
                Err(e) => MoofBoxView::spec_parse(data@, *old(pos) - 8, size as int) is None,
            },
    {
        let start: usize = *pos - 8;
        let remaining: usize = data.len() - start;
        if size > remaining as u64 {
            return Err(Error::UnexpectedEof);
        }
        let end: usize = start + size as usize;
        let p0: usize = *pos;
        let mut mfhd: Option<MfhdBox> = None;
        let mut trafs: Vec<TrafBox> = Vec::new();
        proof {
            assert(Seq::new(trafs@.len(), |i: int| trafs@[i]@) =~= Seq::<TrafBoxView>::empty());
        }
        while *pos < end
            invariant
                p0 <= *pos,
                parse_moof_children(data@, p0 as int, end as int, None, Seq::empty())
                    == parse_moof_children(
                    data@,
                    *pos as int,
                    end as int,
                    mfhd,
                    Seq::new(trafs@.len(), |i: int| trafs@[i]@),
                ),
            decreases end - *pos,
        {
            let header = BoxHeader::read(data, pos)?;
            let child_start: usize = *pos - 8;
            if header.size < 8 || child_start > end || header.size > ((end - child_start)
                as u64) {
                return Err(
                    Error::InvalidData("moof box contains a box with a larger size than it"),
                );
            }
            if header.name == BoxType::MfhdBox {
                mfhd = Some(MfhdBox::read_box(data, pos, header.size)?);
            } else if header.name == BoxType::TrafBox {
                let traf = TrafBox::read_box(data, pos, header.size)?;
                let ghost pre = Seq::new(trafs@.len(), |i: int| trafs@[i]@);
                let ghost tv = traf@;
                trafs.push(traf);
                proof {
                    assert(Seq::new(trafs@.len(), |i: int| trafs@[i]@) =~= pre.push(tv));
                }
            } else {
                skip_to_end(data, pos, child_start, header.size)?;
            }
        }
        skip_to_end(data, pos, start, size)?;
        match mfhd {
            Some(m) => Ok(MoofBox { mfhd: m, trafs }),
            None => Err(Error::BoxNotFound(BoxType::MfhdBox)),
        }
    }
}

/// Extending a prefix of the track-fragment list by one adds that
/// fragment's size.
pub proof fn lemma_trafs_prefix_step(trafs: Seq<TrafBoxView>, i: int)
    requires
        0 <= i < trafs.len(),
    ensures
        trafs_size(trafs.subrange(0, i + 1)) == trafs_size(trafs.subrange(0, i)) + trafs[
            i
        ].spec_size_int(),
{
    assert(trafs.subrange(0, i + 1).drop_last() =~= trafs.subrange(0, i));
    assert(trafs.subrange(0, i + 1).last() == trafs[i]);
}

/// A prefix of the track-fragment list occupies no more than the whole.
pub proof fn lemma_trafs_prefix_bound(trafs: Seq<TrafBoxView>, i: int)
    requires
        0 <= i <= trafs.len(),
        forall|j: int| 0 <= j < trafs.len() ==> (#[trigger] trafs[j]).wf(),
    ensures
        trafs_size(trafs.subrange(0, i)) <= trafs_size(trafs),
    decreases trafs.len() - i,
{
    if i == trafs.len() {
        assert(trafs.subrange(0, i) =~= trafs);
    } else {
        lemma_trafs_prefix_bound(trafs, i + 1);
        lemma_trafs_prefix_step(trafs, i);
        assert(trafs[i].wf());
    }
}

/// A sound movie-fragment box serializes to exactly as many bytes as its
/// size field declares.
pub proof fn lemma_moof_ser_len(m: MoofBoxView)
    requires
        m.wf(),
    ensures
        m.spec_ser().len() == m.spec_size(),
{
    lemma_trafs_bytes_len(m.trafs);
}

} // verus!
