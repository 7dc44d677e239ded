//! The track-encryption box: per-track protection defaults, including the
//! default key id and, for constant-IV schemes, the constant initialization
//! vector whose written length is its own leading byte.
use vstd::prelude::*;

use crate::boxtype::BoxType;
use crate::header::{
    ext_bytes, ext_flags, ext_version, header_bytes, lemma_ext_word_roundtrip,
    lemma_header_roundtrip, parse_header, read_box_header_ext, write_box_header_ext, BoxHeader,
};
use crate::primitives::{
    get_bytes, get_u8, lemma_u32_be_bytes_roundtrip, put_bytes, put_u8, put_zeros, skip_to_end,
    zero_bytes,
};
use crate::types::{Error, HEADER_EXT_SIZE, HEADER_SIZE};

verus! {

#[derive(Debug, Clone, PartialEq, Eq)]
pub struct TencBox {
    default_crypt_byte_block: Option<u8>,
    default_skip_byte_block: Option<u8>,
    default_is_protected: bool,
    // 0: no encryption or constant IVs
    // 8: 64-bit IVs
    // 16: 128-bit IVs
    default_per_sample_iv_size: u8,
    default_kid: Vec<u8>,
    // 8: 64-bit IVs
    // 16: 128-bit IVs
    default_constant_iv_size: Option<u8>,
    default_constant_iv: Option<Vec<u8>>,
}

/// The mathematical value of a track-encryption box.
pub struct TencBoxView {
    pub default_crypt_byte_block: Option<u8>,
    pub default_skip_byte_block: Option<u8>,
    pub default_is_protected: bool,
    pub default_per_sample_iv_size: u8,
    pub default_kid: Seq<u8>,
    pub default_constant_iv_size: Option<u8>,
    pub default_constant_iv: Option<Seq<u8>>,
}

impl View for TencBox {
    type V = TencBoxView;

    closed spec fn view(&self) -> TencBoxView {
        TencBoxView {
            default_crypt_byte_block: self.default_crypt_byte_block,
            default_skip_byte_block: self.default_skip_byte_block,
            default_is_protected: self.default_is_protected,
            default_per_sample_iv_size: self.default_per_sample_iv_size,
            default_kid: self.default_kid@,
            default_constant_iv_size: self.default_constant_iv_size,
            default_constant_iv: match &self.default_constant_iv {
                Some(v) => Some(v@),
                None => None,
            },
        }
    }
}

impl TencBoxView {
    /// The unprotected value: every default zero or absent.
    pub open spec fn unprotected() -> TencBoxView {
        TencBoxView {
            default_crypt_byte_block: None,
            default_skip_byte_block: None,
            default_is_protected: false,
            default_per_sample_iv_size: 0,
            default_kid: zero_bytes(16),
            default_constant_iv_size: None,
            default_constant_iv: None,
        }
    }

    /// Structural soundness: the key id is 16 bytes; a constant IV, present
    /// exactly for protected tracks without per-sample IVs, is carried in a
    /// 16-byte field zero-padded past its declared length; the pattern
    /// nibbles fit their half-byte fields and come as a pair.
    pub open spec fn wf(self) -> bool {
        &&& self.default_kid.len() == 16
        &&& (self.default_crypt_byte_block is Some) == (self.default_skip_byte_block is Some)
        &&& (self.default_crypt_byte_block matches Some(c) ==> c < 16)
        &&& (self.default_skip_byte_block matches Some(s) ==> s < 16)
        &&& (self.default_constant_iv_size is Some) == (self.default_constant_iv is Some)
        &&& (self.default_constant_iv_size is Some) == (self.default_is_protected
            && self.default_per_sample_iv_size == 0)
        &&& (self.default_constant_iv_size matches Some(s) ==> s <= 16)
        &&& (self.default_constant_iv matches Some(v) ==> v.len() == 16)
        &&& ((self.default_constant_iv_size, self.default_constant_iv) matches (
        Some(s),
        Some(v),
        ) ==> v.skip(s as int) == zero_bytes(16 - s as int))
    }

    /// The written full-box version: 1 exactly when the pattern pair is
    /// present.
    pub open spec fn spec_version(self) -> u8 {
        if self.default_skip_byte_block is Some && self.default_crypt_byte_block is Some {
            1u8
        } else {
            0u8
        }
    }

    pub open spec fn spec_pack(self) -> u8 {
        match (self.default_skip_byte_block, self.default_crypt_byte_block) {
            (Some(s), Some(c)) => (s * 16 + c) as u8,
            _ => 0u8,
        }
    }

    pub open spec fn spec_size(self) -> u64 {
        (32 + match self.default_constant_iv_size {
            Some(s) => s as int + 1,
            None => 0int,
        }) as u64
    }

    pub open spec fn civ_bytes(self) -> Seq<u8> {
        match (self.default_constant_iv_size, self.default_constant_iv) {
            (Some(s), Some(v)) => seq![s] + v.subrange(0, s as int),
            _ => Seq::empty(),
        }
    }

    pub open spec fn spec_ser(self) -> Seq<u8> {
        header_bytes(BoxType::TencBox, self.spec_size()) + ext_bytes(self.spec_version(), 0)
            + seq![0u8] + seq![self.spec_pack()] + seq![
            if self.default_is_protected {
                1u8
            } else {
                0u8
            },
        ] + seq![self.default_per_sample_iv_size] + self.default_kid + self.civ_bytes()
    }

    /// Decodes the payload of a box whose header, already consumed, began
    /// at `start` and declared `size` bytes in total.
    pub open spec fn spec_parse(data: Seq<u8>, start: int, size: int) -> Option<TencBoxView> {
        if start + 32 <= data.len() {
            let version = ext_version(crate::primitives::be32_at(data, start + 8));
            let temp = data[start + 13];
            let crypt = if version != 0 {
                Some((temp % 16) as u8)
            } else {
                None
            };
            let skip = if version != 0 {
                Some((temp / 16) as u8)
            } else {
                None
            };
            let protected = data[start + 14] == 1;
            let iv_size = data[start + 15];
            let kid = data.subrange(start + 16, start + 32);
            if protected && iv_size == 0 {
                if start + 33 <= data.len() {
                    let s = data[start + 32];
                    if s <= 16 {
                        if start + 33 + s <= data.len() && start + size <= data.len() {
                            Some(
                                TencBoxView {
                                    default_crypt_byte_block: crypt,
                                    default_skip_byte_block: skip,
                                    default_is_protected: protected,
                                    default_per_sample_iv_size: iv_size,
                                    default_kid: kid,
                                    default_constant_iv_size: Some(s),
                                    default_constant_iv: Some(
                                        data.subrange(start + 33, start + 33 + s) + zero_bytes(
                                            16 - s as int,
                                        ),
                                    ),
                                },
                            )
                        } else {
                            None
                        }
                    } else {
                        None
                    }
                } else {
                    None
                }
            } else {
                if start + size <= data.len() {
                    Some(
                        TencBoxView {
                            default_crypt_byte_block: crypt,
                            default_skip_byte_block: skip,
                            default_is_protected: protected,
                            default_per_sample_iv_size: iv_size,
                            default_kid: kid,
                            default_constant_iv_size: None,
                            default_constant_iv: None,
                        },
                    )
                } else {
                    None
                }
            }
        } else {
            None
        }
    }
}

/// A constant or per-sample initialization vector, held in a 16-byte field
/// with its significant length beside it.
pub struct InitializationVector {
    size: u8,
    data: Vec<u8>,
}

impl InitializationVector {
    pub closed spec fn spec_size(self) -> u8 {
        self.size
    }

    pub closed spec fn spec_data(self) -> Seq<u8> {
        self.data@
    }

    pub open spec fn wf(self) -> bool {
        &&& self.spec_size() == 8 || self.spec_size() == 16
        &&& self.spec_data().len() == 16
        &&& self.spec_data().skip(self.spec_size() as int) == zero_bytes(
            16 - self.spec_size() as int,
        )
    }

    pub fn new_64_bit(data: [u8; 8]) -> (r: InitializationVector)
        ensures
            r.wf(),
            r.spec_size() == 8,
            r.spec_data() == data@ + zero_bytes(8),
    {
        let mut iv: Vec<u8> = Vec::new();
        let mut i: usize = 0;
        while i < 8
            invariant
                i <= 8,
                iv@ == data@.subrange(0, i as int),
            decreases 8 - i,
        {
            iv.push(data[i]);
            i = i + 1;
            proof {
                assert(iv@ =~= data@.subrange(0, i as int));
            }
        }
        put_zeros(&mut iv, 8);
        proof {
            assert(iv@ =~= data@ + zero_bytes(8));
            assert(iv@.skip(8) =~= zero_bytes(8));
        }
        InitializationVector { size: 8, data: iv }
    }

    pub fn new_128_bit(data: [u8; 16]) -> (r: InitializationVector)
        ensures
            r.wf(),
            r.spec_size() == 16,
            r.spec_data() == data@,
    {
        let mut iv: Vec<u8> = Vec::new();
        let mut i: usize = 0;
        while i < 16
            invariant
                i <= 16,
                iv@ == data@.subrange(0, i as int),
            decreases 16 - i,
        {
            iv.push(data[i]);
            i = i + 1;
            proof {
                assert(iv@ =~= data@.subrange(0, i as int));
            }
        }
        proof {
            assert(iv@ =~= data@);
            assert(iv@.skip(16) =~= zero_bytes(0));
        }
        InitializationVector { size: 16, data: iv }
    }
}

impl Default for TencBox {
    fn default() -> (r: Self)
        ensures
            r@ == TencBoxView::unprotected(),
            r@.wf(),
    {
        TencBox::new_unprotected()
    }
}

impl TencBox {
    pub fn new_unprotected() -> (r: Self)
        ensures
            r@ == TencBoxView::unprotected(),
            r@.wf(),
    {
        let mut kid: Vec<u8> = Vec::new();
        put_zeros(&mut kid, 16);
        let r = TencBox {
            default_crypt_byte_block: None,
            default_skip_byte_block: None,
            default_is_protected: false,
            default_per_sample_iv_size: 0,
            default_kid: kid,
            default_constant_iv_size: None,
            default_constant_iv: None,
        };
        proof {
            assert(r@ == TencBoxView::unprotected());
        }
        r
    }

    /// Protection with per-sample IVs: the argument carries the default key
    /// id in its data field and the IV size in its length field.
    pub fn new_kid_protected(iv: InitializationVector) -> (r: Self)
        requires
            iv.wf(),
        ensures
            r@.wf(),
            r@ == (TencBoxView {
                default_crypt_byte_block: None,
                default_skip_byte_block: None,
                default_is_protected: true,
                default_per_sample_iv_size: iv.spec_size(),
                default_kid: iv.spec_data(),
                default_constant_iv_size: None,
                default_constant_iv: None,
            }),
    {
        TencBox {
            default_crypt_byte_block: None,
            default_skip_byte_block: None,
            default_is_protected: true,
            default_per_sample_iv_size: iv.size,
            default_kid: iv.data,
            default_constant_iv_size: None,
            default_constant_iv: None,
        }
    }

    /// Protection with one constant IV for every sample.
    pub fn new_constant_iv_protected(iv: InitializationVector) -> (r: Self)
        requires
            iv.wf(),
        ensures
            r@.wf(),
            r@ == (TencBoxView {
                default_crypt_byte_block: None,
                default_skip_byte_block: None,
                default_is_protected: true,
                default_per_sample_iv_size: 0,
                default_kid: zero_bytes(16),
                default_constant_iv_size: Some(iv.spec_size()),
                default_constant_iv: Some(iv.spec_data()),
            }),
    {
        let mut kid: Vec<u8> = Vec::new();
        put_zeros(&mut kid, 16);
        TencBox {
            default_crypt_byte_block: None,
            default_skip_byte_block: None,
            default_is_protected: true,
            default_per_sample_iv_size: 0,
            default_kid: kid,
            default_constant_iv_size: Some(iv.size),
            default_constant_iv: Some(iv.data),
        }
    }

    pub fn get_type(&self) -> (r: BoxType)
        ensures
            r == BoxType::TencBox,
    {
        BoxType::TencBox
    }

    pub fn get_size(&self) -> (r: u64)
        ensures
            r == self@.spec_size(),
    {
        let base_size: u64 = HEADER_SIZE + HEADER_EXT_SIZE + 1 + 1 + 1 + 1 + 16;
        let dynamic_size: u64 = match &self.default_constant_iv_size {
            Some(s) => (*s as u64) + 1,
            None => 0,
        };
        base_size + dynamic_size
    }

    pub fn box_type(&self) -> (r: BoxType)
        ensures
            r == BoxType::TencBox,
    {
        self.get_type()
    }

    pub fn box_size(&self) -> (r: u64)
        ensures
            r == self@.spec_size(),
    {
        self.get_size()
    }

    pub fn write_box(&self, out: &mut Vec<u8>) -> (r: Result<u64, Error>)
        requires
            self@.wf(),
        ensures
            final(out)@ == old(out)@ + self@.spec_ser(),
            r matches Ok(n) && n == self@.spec_size(),
            self@.spec_ser().len() == self@.spec_size(),
    {
        let size = self.box_size();
        BoxHeader::new(self.box_type(), size).write(out)?;
        let version: u8 = if self.default_skip_byte_block.is_some()
            && self.default_crypt_byte_block.is_some() {
            1
        } else {
            0
        };
        write_box_header_ext(out, version, 0);
        put_u8(out, 0);
        let temp: u8 = match (self.default_skip_byte_block, self.default_crypt_byte_block) {
            (Some(skip), Some(crypt)) => skip * 16 + crypt,
            _ => 0,
        };
        put_u8(out, temp);
        put_u8(out, if self.default_is_protected {
            1
        } else {
            0
        });
        put_u8(out, self.default_per_sample_iv_size);
        put_bytes(out, self.default_kid.as_slice());
        if self.default_is_protected && self.default_per_sample_iv_size == 0 {
            match (&self.default_constant_iv_size, &self.default_constant_iv) {
                (Some(s), Some(iv)) => {
                    put_u8(out, *s);
                    crate::primitives::put_prefix(out, iv, *s as usize);
                },
                _ => {
                    return Err(
                        Error::InvalidData(
                            "default_constant_iv_size and default_constant_iv must be set when default_is_protected is true and default_per_sample_iv_size is 0",
                        ),
                    );
                },
            }
        }
        proof {
            assert(out@ =~= old(out)@ + self@.spec_ser());
        }
        Ok(size)
    }

    pub fn read_box(data: &Vec<u8>, pos: &mut usize, size: u64) -> (r: Result<TencBox, Error>)
        requires
            *old(pos) >= 8,
        ensures
            match r {
                Ok(b) => TencBoxView::spec_parse(data@, *old(pos) - 8, size as int) == Some(b@)
                    && b@.wf() && *final(pos) == *old(pos) - 8 + size,
                Err(e) => TencBoxView::spec_parse(data@, *old(pos) - 8, size as int) is None,
            },
    {
        let start: usize = *pos - 8;
        let (version, _flags) = read_box_header_ext(data, pos)?;
        let _reserved = get_u8(data, pos)?;
        let temp = get_u8(data, pos)?;
        let (default_crypt_byte_block, default_skip_byte_block) = if version != 0 {
            (Some(temp % 16), Some(temp / 16))
        } else {
            (None, None)
        };
        let default_is_protected = get_u8(data, pos)? == 1;
        let default_per_sample_iv_size = get_u8(data, pos)?;
        let default_kid = get_bytes(data, pos, 16)?;
        let (default_constant_iv_size, default_constant_iv) = if default_is_protected
            && default_per_sample_iv_size == 0 {
            let s = get_u8(data, pos)?;
            if s > 16 {
                return Err(Error::InvalidData("constant IV longer than its field"));
            }
            let mut iv = get_bytes(data, pos, s as usize)?;
            put_zeros(&mut iv, 16 - s as usize);
            proof {
                assert(iv@.skip(s as int) =~= zero_bytes(16 - s as int));
            }
            (Some(s), Some(iv))
        } else {
            (None, None)
        };
        skip_to_end(data, pos, start, size)?;
        Ok(
            TencBox {
                default_crypt_byte_block,
                default_skip_byte_block,
                default_is_protected,
                default_per_sample_iv_size,
                default_kid,
                default_constant_iv_size,
                default_constant_iv,
            },
        )
    }
}

/// A sound track-encryption box serializes to exactly as many bytes as its
/// size field declares.
pub proof fn lemma_tenc_ser_len(m: TencBoxView)
    requires
        m.wf(),
    ensures
        m.spec_ser().len() == m.spec_size(),
{
}

/// Writing a track-encryption box and reading the produced bytes back
/// yields the original value.
pub proof fn lemma_tenc_roundtrip(m: TencBoxView, data: Seq<u8>, start: int)
    requires
        0 <= start,
        m.wf(),
        start + m.spec_size() <= data.len(),
        data.subrange(start, start + m.spec_size() as int) == m.spec_ser(),
    ensures
        parse_header(data, start) == Some(
            (BoxHeader { name: BoxType::TencBox, size: m.spec_size() }, start + 8),
        ),
        TencBoxView::spec_parse(data, start, m.spec_size() as int) == Some(m),
{
    let ser = m.spec_ser();
    let n = m.spec_size() as int;
    assert(data.subrange(start, start + 8) =~= ser.subrange(0, 8));
    assert(ser.subrange(0, 8) =~= header_bytes(BoxType::TencBox, m.spec_size()));
    lemma_header_roundtrip(BoxType::TencBox, m.spec_size(), data, start);
    assert(data.subrange(start + 8, start + 12) =~= ser.subrange(8, 12));
    assert(ser.subrange(8, 12) =~= ext_bytes(m.spec_version(), 0));
    lemma_u32_be_bytes_roundtrip(crate::header::ext_word(m.spec_version(), 0));
    lemma_ext_word_roundtrip(m.spec_version(), 0);
    assert(data[start + 13] == ser[13]);
    assert(ser[13] == m.spec_pack());
    assert(data[start + 14] == ser[14]);
    assert(data[start + 15] == ser[15]);
    assert(data.subrange(start + 16, start + 32) =~= ser.subrange(16, 32));
    assert(ser.subrange(16, 32) =~= m.default_kid);
    match (m.default_skip_byte_block, m.default_crypt_byte_block) {
        (Some(s), Some(c)) => {
            assert(m.spec_pack() == s * 16 + c);
            assert((s * 16 + c) % 16 == c && (s * 16 + c) / 16 == s) by (nonlinear_arith)
                requires
                    s < 16,
                    c < 16,
            ;
        },
        _ => {},
    }
    match (m.default_constant_iv_size, m.default_constant_iv) {
        (Some(s), Some(v)) => {
            assert(data[start + 32] == ser[32]);
            assert(ser[32] == s);
            assert(data.subrange(start + 33, start + 33 + s) =~= ser.subrange(33, 33 + s));
            assert(ser.subrange(33, 33 + s) =~= v.subrange(0, s as int));
            assert(v =~= v.subrange(0, s as int) + v.skip(s as int));
            assert(data.subrange(start + 33, start + 33 + s) + zero_bytes(16 - s as int) =~= v);
        },
        _ => {},
    }
}

} // verus!
