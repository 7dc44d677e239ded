//! The scheme-type box: the protection scheme's four-character code and
//! version, with an optional zero-terminated scheme URI whose presence the
//! low flag bit signals.
use vstd::prelude::*;

use crate::boxtype::BoxType;
use crate::header::{
    ext_bytes, ext_flags, ext_version, header_bytes, lemma_ext_word_roundtrip,
    lemma_header_roundtrip, parse_header, read_box_header_ext, write_box_header_ext, BoxHeader,
};
use crate::primitives::{
    be32_at, bytes_chars, char_bytes, get_cstr, get_u32, lemma_char_bytes_roundtrip,
    lemma_parse_cstr_of, lemma_u32_be_bytes_roundtrip, parse_cstr, put_bytes, put_u8, put_u32,
    skip_to_end, spec_u32_to_be_bytes, string_from_wire_bytes, string_wire_bytes, wire_str_ok,
};
use crate::types::{Error, FourCC, HEADER_EXT_SIZE, HEADER_SIZE};

verus! {

/// Size of the box without the optional URI.
pub const SCHM_BOX_SIZE: u64 = 20;

#[derive(Debug, Clone, PartialEq, Eq, Default)]
pub struct SchmBox {
    pub version: u8,
    pub flags: u32,
    pub scheme_type: FourCC,
    pub scheme_version: u32,
    pub scheme_uri: Option<String>,
}

/// The mathematical value of a scheme-type box.
pub struct SchmBoxView {
    pub version: u8,
    pub flags: u32,
    pub scheme_type: u32,
    pub scheme_version: u32,
    pub scheme_uri: Option<Seq<char>>,
}

impl View for SchmBox {
    type V = SchmBoxView;

    open spec fn view(&self) -> SchmBoxView {
        SchmBoxView {
            version: self.version,
            flags: self.flags,
            scheme_type: self.scheme_type.spec_u32(),
            scheme_version: self.scheme_version,
            scheme_uri: match &self.scheme_uri {
                Some(u) => Some(u@),
                None => None,
            },
        }
    }
}

impl SchmBoxView {
    /// The URI is present exactly when the low flag bit says so, and must
    /// be writable one byte per char with a zero terminator.
    pub open spec fn wf(self) -> bool {
        &&& self.flags < 0x1000000
        &&& (self.scheme_uri is Some) == (self.flags & 1 == 1)
        &&& (self.scheme_uri matches Some(u) ==> wire_str_ok(u) && u.len() + 21 <= 0xffffffff)
    }

    pub open spec fn spec_size(self) -> u64 {
        (20 + match self.scheme_uri {
            Some(u) => u.len() + 1,
            None => 0nat,
        }) as u64
    }

    pub open spec fn spec_ser(self) -> Seq<u8> {
        header_bytes(BoxType::SchmBox, self.spec_size()) + ext_bytes(self.version, self.flags)
            + spec_u32_to_be_bytes(self.scheme_type) + spec_u32_to_be_bytes(self.scheme_version)
            + match self.scheme_uri {
            Some(u) => char_bytes(u) + seq![0u8],
            None => Seq::empty(),
        }
    }

    /// Decodes the payload of a box whose header, already consumed, began
    /// at `start` and declared `size` bytes in total.
    pub open spec fn spec_parse(data: Seq<u8>, start: int, size: int) -> Option<SchmBoxView> {
        if start + 20 <= data.len() {
            let version = ext_version(be32_at(data, start + 8));
            let flags = ext_flags(be32_at(data, start + 8));
            let scheme_type = be32_at(data, start + 12);
            let scheme_version = be32_at(data, start + 16);
            if flags & 1 == 1 {
                match parse_cstr(data, start + 20) {
                    Some((bytes, _end)) => if start + size <= data.len() {
                        Some(
                            SchmBoxView {
                                version,
                                flags,
                                scheme_type,
                                scheme_version,
                                scheme_uri: Some(bytes_chars(bytes)),
                            },
                        )
                    } else {
                        None
                    },
                    None => None,
                }
            } else {
                if start + size <= data.len() {
                    Some(
                        SchmBoxView {
                            version,
                            flags,
                            scheme_type,
                            scheme_version,
                            scheme_uri: None,
                        },
                    )
                } else {
                    None
                }
            }
        } else {
            None
        }
    }
}

impl SchmBox {
    pub fn get_type(&self) -> (r: BoxType)
        ensures
            r == BoxType::SchmBox,
    {
        BoxType::SchmBox
    }

    fn scheme_uri_size(&self) -> (r: u64)
        requires
            self@.wf(),
        ensures
            r as int == match self@.scheme_uri {
                Some(u) => u.len() + 1,
                None => 0nat,
            } as int,
    {
        if let Some(scheme_uri) = &self.scheme_uri {
            let uri_bytes = string_wire_bytes(scheme_uri);
            uri_bytes.len() as u64 + 1
        } else {
            0
        }
    }

    pub fn get_size(&self) -> (r: u64)
        requires
            self@.wf(),
        ensures
            r == self@.spec_size(),
    {
        SCHM_BOX_SIZE + self.scheme_uri_size()
    }

    pub fn box_type(&self) -> (r: BoxType)
        ensures
            r == BoxType::SchmBox,
    {
        self.get_type()
    }

    pub fn box_size(&self) -> (r: u64)
        requires
            self@.wf(),
        ensures
            r == self@.spec_size(),
    {
        self.get_size()
    }

    pub fn write_box(&self, out: &mut Vec<u8>) -> (r: Result<u64, Error>)
        requires
            self@.wf(),
        ensures
            final(out)@ == old(out)@ + self@.spec_ser(),
            r matches Ok(n) && n == self@.spec_size(),
            self@.spec_ser().len() == self@.spec_size(),
    {
        let size = self.box_size();
        BoxHeader::new(self.box_type(), size).write(out)?;
        write_box_header_ext(out, self.version, self.flags);
        put_u32(out, self.scheme_type.to_u32());
        put_u32(out, self.scheme_version);
        if let Some(scheme_uri) = &self.scheme_uri {
            let uri_bytes = string_wire_bytes(scheme_uri);
            put_bytes(out, uri_bytes.as_slice());
            put_u8(out, 0);
        }
        proof {
            assert(out@ =~= old(out)@ + self@.spec_ser());
        }
        Ok(size)
    }

    pub fn read_box(data: &Vec<u8>, pos: &mut usize, size: u64) -> (r: Result<SchmBox, Error>)
        requires
            *old(pos) >= 8,
        ensures
            match r {
                Ok(b) => SchmBoxView::spec_parse(data@, *old(pos) - 8, size as int) matches Some(m)
                    && m.version == b@.version && m.flags == b@.flags && m.scheme_type
                    == b@.scheme_type && m.scheme_version == b@.scheme_version && m.scheme_uri
                    == b@.scheme_uri && *final(pos) == *old(pos) - 8 + size,
                Err(e) => SchmBoxView::spec_parse(data@, *old(pos) - 8, size as int) is None
                    && e is UnexpectedEof,
            },
    {
        let start: usize = *pos - 8;
        let (version, flags) = read_box_header_ext(data, pos)?;
        let raw_type = get_u32(data, pos)?;
        let scheme_type = FourCC::from_u32(raw_type);
        let scheme_version = get_u32(data, pos)?;
        let scheme_uri: Option<String> = if flags & 1 == 1 {
            let uri_bytes = get_cstr(data, pos)?;
            Some(string_from_wire_bytes(&uri_bytes))
        } else {
            None
        };
        skip_to_end(data, pos, start, size)?;
        Ok(SchmBox { version, flags, scheme_type, scheme_version, scheme_uri })
    }
}

/// A sound scheme-type box serializes to exactly as many bytes as its size
/// field declares.
pub proof fn lemma_schm_ser_len(m: SchmBoxView)
    requires
        m.wf(),
    ensures
        m.spec_ser().len() == m.spec_size(),
{
}

/// Writing a scheme-type box and reading the produced bytes back yields
/// the original value.
pub proof fn lemma_schm_roundtrip(m: SchmBoxView, data: Seq<u8>, start: int)
    requires
        0 <= start,
        m.wf(),
        start + m.spec_size() <= data.len(),
        data.subrange(start, start + m.spec_size() as int) == m.spec_ser(),
    ensures
        parse_header(data, start) == Some(
            (BoxHeader { name: BoxType::SchmBox, size: m.spec_size() }, start + 8),
        ),
        SchmBoxView::spec_parse(data, start, m.spec_size() as int) == Some(m),
{
    let ser = m.spec_ser();
    let n = m.spec_size() as int;
    assert(data.subrange(start, start + 8) =~= ser.subrange(0, 8));
    assert(ser.subrange(0, 8) =~= header_bytes(BoxType::SchmBox, m.spec_size()));
    lemma_header_roundtrip(BoxType::SchmBox, m.spec_size(), data, start);
    assert(data.subrange(start + 8, start + 12) =~= ser.subrange(8, 12));
    assert(ser.subrange(8, 12) =~= ext_bytes(m.version, m.flags));
    lemma_u32_be_bytes_roundtrip(crate::header::ext_word(m.version, m.flags));
    lemma_ext_word_roundtrip(m.version, m.flags);
    assert(data.subrange(start + 12, start + 16) =~= ser.subrange(12, 16));
    assert(ser.subrange(12, 16) =~= spec_u32_to_be_bytes(m.scheme_type));
    lemma_u32_be_bytes_roundtrip(m.scheme_type);
    assert(data.subrange(start + 16, start + 20) =~= ser.subrange(16, 20));
    assert(ser.subrange(16, 20) =~= spec_u32_to_be_bytes(m.scheme_version));
    lemma_u32_be_bytes_roundtrip(m.scheme_version);
    match m.scheme_uri {
        Some(u) => {
            lemma_char_bytes_roundtrip(u);
            let e = start + 20 + u.len() as int;
            assert(data[e] == ser[20 + u.len() as int]);
            assert(data.subrange(start + 20, e) =~= ser.subrange(20, 20 + u.len() as int));
            assert(ser.subrange(20, 20 + u.len() as int) =~= char_bytes(u));
            assert forall|j: int| start + 20 <= j < e implies data[j] != 0 by {
                assert(data[j] == char_bytes(u)[j - (start + 20)]);
            }
            lemma_parse_cstr_of(data, start + 20, e);
        },
        None => {},
    }
}

} // verus!
