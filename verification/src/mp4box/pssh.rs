//! The protection-system-specific-header box: a system id, under version 1
//! a list of 16-byte key ids, and an opaque data blob with its length.
use vstd::prelude::*;

use crate::boxtype::BoxType;
use crate::header::{
    ext_bytes, ext_flags, ext_version, header_bytes, lemma_ext_word_roundtrip,
    lemma_header_roundtrip, parse_header, read_box_header_ext, write_box_header_ext, BoxHeader,
};
use crate::primitives::{
    be32_at, get_bytes, get_u32, lemma_u32_be_bytes_roundtrip, put_bytes, put_u32, skip_to_end,
    spec_u32_to_be_bytes,
};
use crate::types::{Error, HEADER_EXT_SIZE, HEADER_SIZE};

verus! {

#[derive(Debug, Clone, PartialEq, Eq, Default)]
pub struct PsshBox {
    version: u8,
    flags: u32,
    system_id: Vec<u8>,
    kid_count: Option<u32>,
    kid: Vec<Vec<u8>>,
    data_size: u32,
    data: Vec<u8>,
}

/// The mathematical value of a protection-system header box.
pub struct PsshBoxView {
    pub version: u8,
    pub flags: u32,
    pub system_id: Seq<u8>,
    pub kid_count: Option<u32>,
    pub kid: Seq<Seq<u8>>,
    pub data_size: u32,
    pub data: Seq<u8>,
}

impl View for PsshBox {
    type V = PsshBoxView;

    closed spec fn view(&self) -> PsshBoxView {
        PsshBoxView {
            version: self.version,
            flags: self.flags,
            system_id: self.system_id@,
            kid_count: self.kid_count,
            kid: Seq::new(self.kid@.len(), |i: int| self.kid@[i]@),
            data_size: self.data_size,
            data: self.data@,
        }
    }
}

/// The key ids laid end to end.
pub open spec fn kids_bytes(kid: Seq<Seq<u8>>) -> Seq<u8>
    decreases kid.len(),
{
    if kid.len() == 0 {
        Seq::empty()
    } else {
        kids_bytes(kid.drop_last()) + kid.last()
    }
}

/// Sixteen bytes per key id.
pub proof fn lemma_kids_bytes_len(kid: Seq<Seq<u8>>)
    requires
        forall|i: int| 0 <= i < kid.len() ==> (#[trigger] kid[i]).len() == 16,
    ensures
        kids_bytes(kid).len() == 16 * kid.len(),
    decreases kid.len(),
{
    if kid.len() > 0 {
        lemma_kids_bytes_len(kid.drop_last());
    }
}

/// The bytes of the `i`-th key id stand sixteen-aligned in the laid-out
/// list.
pub proof fn lemma_kids_bytes_index(kid: Seq<Seq<u8>>, i: int)
    requires
        forall|j: int| 0 <= j < kid.len() ==> (#[trigger] kid[j]).len() == 16,
        0 <= i < kid.len(),
    ensures
        kids_bytes(kid).subrange(16 * i, 16 * i + 16) == kid[i],
    decreases kid.len(),
{
    lemma_kids_bytes_len(kid);
    if i + 1 == kid.len() {
        lemma_kids_bytes_len(kid.drop_last());
        assert(kids_bytes(kid).subrange(16 * i, 16 * i + 16) =~= kid.last());
    } else {
        lemma_kids_bytes_index(kid.drop_last(), i);
        lemma_kids_bytes_len(kid.drop_last());
        assert(kid.drop_last()[i] == kid[i]);
        assert(kids_bytes(kid).subrange(16 * i, 16 * i + 16) =~= kids_bytes(
            kid.drop_last(),
        ).subrange(16 * i, 16 * i + 16));
    }
}

impl PsshBoxView {
    /// The key-id list and its count travel together, exactly under
    /// version 1 and above; lengths are fixed and the data length matches
    /// its length field.
    pub open spec fn wf(self) -> bool {
        &&& self.flags < 0x1000000
        &&& self.system_id.len() == 16
        &&& (self.version > 0) == (self.kid_count is Some)
        &&& (self.kid_count matches Some(c) ==> c == self.kid.len())
        &&& (self.version == 0 ==> self.kid.len() == 0)
        &&& (forall|i: int| 0 <= i < self.kid.len() ==> (#[trigger] self.kid[i]).len() == 16)
        &&& self.data_size == self.data.len()
        &&& self.spec_size_int() <= 0xffffffff
    }

    pub open spec fn spec_size_int(self) -> int {
        32 + (if self.version > 0 {
            4 + 16 * self.kid.len() as int
        } else {
            0int
        }) + self.data.len()
    }

    pub open spec fn spec_size(self) -> u64 {
        self.spec_size_int() as u64
    }

    pub open spec fn spec_ser(self) -> Seq<u8> {
        header_bytes(BoxType::PsshBox, self.spec_size()) + ext_bytes(self.version, self.flags)
            + self.system_id + (if self.version > 0 {
            spec_u32_to_be_bytes(self.kid.len() as u32) + kids_bytes(self.kid)
        } else {
            Seq::empty()
        }) + spec_u32_to_be_bytes(self.data_size) + self.data
    }

    /// Decodes the payload of a box whose header, already consumed, began
    /// at `start` and declared `size` bytes in total.
    pub open spec fn spec_parse(data: Seq<u8>, start: int, size: int) -> Option<PsshBoxView> {
        if start + 28 <= data.len() {
            let version = ext_version(be32_at(data, start + 8));
            let flags = ext_flags(be32_at(data, start + 8));
            let system_id = data.subrange(start + 12, start + 28);
            let p = start + 28;
            if version > 0 {
                if p + 4 <= data.len() {
                    let count = be32_at(data, p);
                    let kp = p + 4;
                    if kp + 16 * count <= data.len() {
                        let kid = Seq::new(
                            count as nat,
                            |i: int| data.subrange(kp + 16 * i, kp + 16 * i + 16),
                        );
                        Self::parse_tail(
                            data,
                            start,
                            size,
                            version,
                            flags,
                            system_id,
                            Some(count),
                            kid,
                            kp + 16 * count,
                        )
                    } else {
                        None
                    }
                } else {
                    None
                }
            } else {
                Self::parse_tail(
                    data,
                    start,
                    size,
                    version,
                    flags,
                    system_id,
                    None,
                    Seq::empty(),
                    p,
                )
            }
        } else {
            None
        }
    }

    /// The data blob after the optional key-id list.
    pub open spec fn parse_tail(
        data: Seq<u8>,
        start: int,
        size: int,
        version: u8,
        flags: u32,
        system_id: Seq<u8>,
        kid_count: Option<u32>,
        kid: Seq<Seq<u8>>,
        p: int,
    ) -> Option<PsshBoxView> {
        if p + 4 <= data.len() {
            let data_size = be32_at(data, p);
            if p + 4 + data_size <= data.len() && start + size <= data.len() {
                Some(
                    PsshBoxView {
                        version,
                        flags,
                        system_id,
                        kid_count,
                        kid,
                        data_size,
                        data: data.subrange(p + 4, p + 4 + data_size),
                    },
                )
            } else {
                None
            }
        } else {
            None
        }
    }
}

impl PsshBox {
    /// A version-0 box: a system id and its data blob, no key ids.
    pub fn new(system_id: [u8; 16], data: Vec<u8>) -> (r: PsshBox)
        requires
            data@.len() + 36 <= 0xffffffff,
        ensures
            r@.wf(),
            r@ == (PsshBoxView {
                version: 0,
                flags: 0,
                system_id: system_id@,
                kid_count: None,
                kid: Seq::empty(),
                data_size: data@.len() as u32,
                data: data@,
            }),
    {
        let mut sid: Vec<u8> = Vec::new();
        put_bytes(&mut sid, system_id.as_slice());
        proof {
            assert(sid@ =~= system_id@);
        }
        let data_size = data.len() as u32;
        let r = PsshBox {
            version: 0,
            flags: 0,
            system_id: sid,
            kid_count: None,
            kid: Vec::new(),
            data_size,
            data,
        };
        proof {
            assert(r@.kid =~= Seq::<Seq<u8>>::empty());
        }
        r
    }

    /// A version-1 box: a system id, a key-id list, and a data blob.
    pub fn with_kid(system_id: [u8; 16], kid: Vec<[u8; 16]>, data: Vec<u8>) -> (r: PsshBox)
        requires
            40 + 16 * kid@.len() + data@.len() <= 0xffffffff,
        ensures
            r@.wf(),
            r@.version == 1,
            r@.flags == 0,
            r@.system_id == system_id@,
            r@.kid_count == Some(kid@.len() as u32),
            r@.kid.len() == kid@.len(),
            forall|i: int| 0 <= i < kid@.len() ==> r@.kid[i] == (#[trigger] kid@[i])@,
            r@.data_size == data@.len() as u32,
            r@.data == data@,
    {
        let mut sid: Vec<u8> = Vec::new();
        put_bytes(&mut sid, system_id.as_slice());
        proof {
            assert(sid@ =~= system_id@);
        }
        let mut kid_vecs: Vec<Vec<u8>> = Vec::new();
        let mut i: usize = 0;
        while i < kid.len()
            invariant
                i <= kid@.len(),
                kid_vecs@.len() == i as int,
                forall|j: int| 0 <= j < i ==> kid_vecs@[j]@ == (#[trigger] kid@[j])@,
            decreases kid@.len() - i,
        {
            let mut one: Vec<u8> = Vec::new();
            put_bytes(&mut one, kid[i].as_slice());
            proof {
                assert(one@ =~= kid@[i as int]@);
            }
            kid_vecs.push(one);
            i = i + 1;
        }
        let kid_count = kid_vecs.len() as u32;
        let data_size = data.len() as u32;
        let r = PsshBox {
            version: 1,
            flags: 0,
            system_id: sid,
            kid_count: Some(kid_count),
            kid: kid_vecs,
            data_size,
            data,
        };
        proof {
            assert forall|j: int| 0 <= j < kid@.len() implies r@.kid[j] == (#[trigger] kid@[j])@ by {
            }
            assert forall|j: int| 0 <= j < r@.kid.len() implies (#[trigger] r@.kid[j]).len()
                == 16 by {
                assert(r@.kid[j] == kid_vecs@[j]@);
                assert(kid_vecs@[j]@ == kid@[j]@);
                assert(kid@[j]@.len() == 16);
            }
        }
        r
    }

    pub fn get_type(&self) -> (r: BoxType)
        ensures
            r == BoxType::PsshBox,
    {
        BoxType::PsshBox
    }

    pub fn get_size(&self) -> (r: u64)
        requires
            self@.wf(),
        ensures
            r == self@.spec_size(),
    {
        let kid_size: u64 = if self.version > 0 {
            let c: u64 = match self.kid_count {
                Some(c) => c as u64,
                None => 0,
            };
            4 + 16 * c
        } else {
            0
        };
        let data_size: u64 = 4 + self.data_size as u64;
        HEADER_SIZE + HEADER_EXT_SIZE + 16 + kid_size + data_size
    }

    pub fn box_type(&self) -> (r: BoxType)
        ensures
            r == BoxType::PsshBox,
    {
        self.get_type()
    }

    pub fn box_size(&self) -> (r: u64)
        requires
            self@.wf(),
        ensures
            r == self@.spec_size(),
    {
        self.get_size()
    }

    pub fn write_box(&self, out: &mut Vec<u8>) -> (r: Result<u64, Error>)
        requires
            self@.wf(),
        ensures
            final(out)@ == old(out)@ + self@.spec_ser(),
            r matches Ok(n) && n == self@.spec_size(),
            self@.spec_ser().len() == self@.spec_size(),
    {
        let size = self.box_size();
        BoxHeader::new(self.box_type(), size).write(out)?;
        write_box_header_ext(out, self.version, self.flags);
        put_bytes(out, self.system_id.as_slice());
        if self.version > 0 {
            let kid_count: u32 = match self.kid_count {
                Some(c) => c,
                None => {
                    return Err(Error::InvalidData("kid_count is required for version > 0"));
                },
            };
            put_u32(out, kid_count);
            let ghost base = out@;
            let mut i: usize = 0;
            while i < self.kid.len()
                invariant
                    i <= self@.kid.len(),
                    self@.wf(),
                    i <= self.kid@.len(),
                    self@.kid == Seq::new(self.kid@.len(), |j: int| self.kid@[j]@),
                    out@ == base + kids_bytes(self@.kid.subrange(0, i as int)),
                decreases self@.kid.len() - i,
            {
                put_bytes(out, self.kid[i].as_slice());
                i = i + 1;
                proof {
                    let pre = self@.kid.subrange(0, i - 1);
                    let cur = self@.kid.subrange(0, i as int);
                    assert(cur.drop_last() =~= pre);
                    assert(cur.last() == self@.kid[i - 1]);
                    assert(out@ =~= base + kids_bytes(cur));
                }
            }
            proof {
                assert(self@.kid.subrange(0, self@.kid.len() as int) =~= self@.kid);
                assert(self@.kid_count == Some(self@.kid.len() as u32));
            }
        }
        put_u32(out, self.data_size);
        put_bytes(out, self.data.as_slice());
        proof {
            lemma_kids_bytes_len(self@.kid);
            assert(out@ =~= old(out)@ + self@.spec_ser());
        }
        Ok(size)
    }

    #[verifier::loop_isolation(false)]
    pub fn read_box(data: &Vec<u8>, pos: &mut usize, size: u64) -> (r: Result<PsshBox, Error>)
        requires
            *old(pos) >= 8,
        ensures
            match r {
                Ok(b) => PsshBoxView::spec_parse(data@, *old(pos) - 8, size as int) matches Some(m)
                    && m.version == b@.version && m.flags == b@.flags && m.system_id
                    == b@.system_id && m.kid_count == b@.kid_count && m.kid == b@.kid && m.data_size
                    == b@.data_size && m.data == b@.data && *final(pos) == *old(pos) - 8 + size,
                Err(e) => PsshBoxView::spec_parse(data@, *old(pos) - 8, size as int) is None
                    && e is UnexpectedEof,
            },
    {
        let start: usize = *pos - 8;
        let (version, flags) = read_box_header_ext(data, pos)?;
        let system_id = get_bytes(data, pos, 16)?;
        let (kid_count, kid) = if version > 0 {
            let count = get_u32(data, pos)?;
            let ghost kp = *pos as int;
            let mut kid: Vec<Vec<u8>> = Vec::new();
            let mut i: u32 = 0;
            while i < count
                invariant
                    i <= count,
                    *pos == kp + 16 * i,
                    kp + 16 * i <= data@.len(),
                    kid@.len() == i as int,
                    forall|j: int|
                        0 <= j < i ==> (#[trigger] kid@[j])@ == data@.subrange(
                            kp + 16 * j,
                            kp + 16 * j + 16,
                        ),
                decreases count - i,
            {
                match get_bytes(data, pos, 16) {
                    Ok(one) => {
                        kid.push(one);
                    },
                    Err(e) => {
                        proof {
                            assert(kp + 16 * i + 16 > data@.len());
                            assert(16 * (i as int) + 16 <= 16 * (count as int)) by (nonlinear_arith)
                                requires
                                    i < count,
                            ;
                        }
                        return Err(e);
                    },
                }
                i = i + 1;
            }
            proof {
                assert(Seq::new(kid@.len(), |j: int| kid@[j]@) =~= Seq::new(
                    count as nat,
                    |j: int| data@.subrange(kp + 16 * j, kp + 16 * j + 16),
                ));
            }
            (Some(count), kid)
        } else {
            (None, Vec::new())
        };
        let data_size = get_u32(data, pos)?;
        let blob = get_bytes(data, pos, data_size as usize)?;
        skip_to_end(data, pos, start, size)?;
        let r = PsshBox { version, flags, system_id, kid_count, kid, data_size, data: blob };
        proof {
            if version == 0 {
                assert(r@.kid =~= Seq::<Seq<u8>>::empty());
            }
        }
        Ok(r)
    }
}

/// A sound protection-system header box serializes to exactly as many
/// bytes as its size field declares.
pub proof fn lemma_pssh_ser_len(m: PsshBoxView)
    requires
        m.wf(),
    ensures
        m.spec_ser().len() == m.spec_size(),
{
    lemma_kids_bytes_len(m.kid);
}

/// Writing a protection-system header box and reading the produced bytes
/// back yields the original value.
#[verifier::spinoff_prover]
pub proof fn lemma_pssh_roundtrip(m: PsshBoxView, data: Seq<u8>, start: int)
    requires
        0 <= start,
        m.wf(),
        start + m.spec_size() <= data.len(),
        data.subrange(start, start + m.spec_size() as int) == m.spec_ser(),
    ensures
        parse_header(data, start) == Some(
            (BoxHeader { name: BoxType::PsshBox, size: m.spec_size() }, start + 8),
        ),
        PsshBoxView::spec_parse(data, start, m.spec_size() as int) matches Some(p) && p.version
            == m.version && p.flags == m.flags && p.system_id == m.system_id && p.kid_count
            == m.kid_count && p.kid == m.kid && p.data_size == m.data_size && p.data == m.data,
{
    let ser = m.spec_ser();
    let n = m.spec_size() as int;
    lemma_pssh_ser_len(m);
    lemma_kids_bytes_len(m.kid);
    assert(data.subrange(start, start + 8) =~= ser.subrange(0, 8));
    assert(ser.subrange(0, 8) =~= header_bytes(BoxType::PsshBox, m.spec_size()));
    lemma_header_roundtrip(BoxType::PsshBox, m.spec_size(), data, start);
    assert(data.subrange(start + 8, start + 12) =~= ser.subrange(8, 12));
    assert(ser.subrange(8, 12) =~= ext_bytes(m.version, m.flags));
    lemma_u32_be_bytes_roundtrip(crate::header::ext_word(m.version, m.flags));
    lemma_ext_word_roundtrip(m.version, m.flags);
    assert(data.subrange(start + 12, start + 28) =~= ser.subrange(12, 28));
    assert(ser.subrange(12, 28) =~= m.system_id);
    let p = start + 28;
    let kn = 16 * m.kid.len() as int;
    let tail_at: int = if m.version > 0 {
        p + 4 + kn
    } else {
        p
    };
    if m.version > 0 {
        assert(data.subrange(p, p + 4) =~= ser.subrange(28, 32));
        assert(ser.subrange(28, 32) =~= spec_u32_to_be_bytes(m.kid.len() as u32));
        lemma_u32_be_bytes_roundtrip(m.kid.len() as u32);
        assert(data.subrange(p + 4, p + 4 + kn) =~= ser.subrange(32, 32 + kn));
        assert(ser.subrange(32, 32 + kn) =~= kids_bytes(m.kid));
        let kp = p + 4;
        let count = m.kid.len() as u32;
        assert forall|i: int| 0 <= i < m.kid.len() implies data.subrange(
            kp + 16 * i,
            kp + 16 * i + 16,
        ) == m.kid[i] by {
            lemma_kids_bytes_index(m.kid, i);
            assert(16 * i + 16 <= 16 * m.kid.len() as int) by (nonlinear_arith)
                requires
                    i < m.kid.len(),
            ;
            assert(data.subrange(kp + 16 * i, kp + 16 * i + 16) =~= kids_bytes(m.kid).subrange(
                16 * i,
                16 * i + 16,
            ));
        }
        assert(Seq::new(
            count as nat,
            |i: int| data.subrange(kp + 16 * i, kp + 16 * i + 16),
        ) =~= m.kid);
    }
    assert(data.subrange(tail_at, tail_at + 4) =~= ser.subrange(tail_at - start, tail_at - start
        + 4));
    assert(ser.subrange(tail_at - start, tail_at - start + 4) =~= spec_u32_to_be_bytes(
        m.data_size,
    ));
    lemma_u32_be_bytes_roundtrip(m.data_size);
    assert(data.subrange(tail_at + 4, tail_at + 4 + m.data_size) =~= ser.subrange(
        tail_at - start + 4,
        tail_at - start + 4 + m.data_size,
    ));
    assert(ser.subrange(tail_at - start + 4, tail_at - start + 4 + m.data_size) =~= m.data);
}

} // verus!
