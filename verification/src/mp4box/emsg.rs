//! The event-message box: out-of-band timed metadata identified by a
//! scheme URI, with a presentation time whose width follows the version.
//! This library only assembles event messages, so only the write path is a
//! box codec here.
use vstd::prelude::*;

use crate::boxtype::BoxType;
use crate::header::{ext_bytes, header_bytes, write_box_header_ext, BoxHeader};
use crate::primitives::{
    char_bytes, put_bytes, put_u32, put_u64, put_u8, spec_u32_to_be_bytes, spec_u64_to_be_bytes,
    string_wire_bytes, wire_str_ok,
};
use crate::types::{Error, HEADER_EXT_SIZE, HEADER_SIZE};

verus! {

#[derive(Debug, Clone, PartialEq, Eq)]
pub struct EmsgBox {
    pub version: u8,
    pub flags: u32,
    pub timescale: u32,
    pub presentation_time: Option<u64>,
    pub presentation_time_delta: Option<u32>,
    pub event_duration: u32,
    pub id: u32,
    pub scheme_id_uri: String,
    pub message_data: Vec<u8>,
    pub value: String,
}

/// The mathematical value of an event-message box.
pub struct EmsgBoxView {
    pub version: u8,
    pub flags: u32,
    pub timescale: u32,
    pub presentation_time: Option<u64>,
    pub presentation_time_delta: Option<u32>,
    pub event_duration: u32,
    pub id: u32,
    pub scheme_id_uri: Seq<char>,
    pub message_data: Seq<u8>,
    pub value: Seq<char>,
}

impl View for EmsgBox {
    type V = EmsgBoxView;

    open spec fn view(&self) -> EmsgBoxView {
        EmsgBoxView {
            version: self.version,
            flags: self.flags,
            timescale: self.timescale,
            presentation_time: self.presentation_time,
            presentation_time_delta: self.presentation_time_delta,
            event_duration: self.event_duration,
            id: self.id,
            scheme_id_uri: self.scheme_id_uri@,
            message_data: self.message_data@,
            value: self.value@,
        }
    }
}

impl EmsgBoxView {
    /// A version-1 message carries an absolute presentation time; a
    /// version-0 message carries a delta. The strings must be writable one
    /// byte per char with a zero terminator.
    pub open spec fn wf(self) -> bool {
        &&& self.version <= 1
        &&& self.flags < 0x1000000
        &&& (self.version == 1) == (self.presentation_time is Some)
        &&& (self.version == 0) == (self.presentation_time_delta is Some)
        &&& wire_str_ok(self.scheme_id_uri)
        &&& wire_str_ok(self.value)
        &&& self.spec_size_int() <= 0xffffffff
    }

    pub open spec fn spec_size_int(self) -> int {
        12 + (if self.version == 1 {
            20int
        } else {
            16int
        }) + self.scheme_id_uri.len() + 1 + self.value.len() + 1 + self.message_data.len()
    }

    pub open spec fn spec_size(self) -> u64 {
        self.spec_size_int() as u64
    }

    pub open spec fn pt_or_zero(self) -> u64 {
        match self.presentation_time {
            Some(t) => t,
            None => 0u64,
        }
    }

    pub open spec fn delta_or_zero(self) -> u32 {
        match self.presentation_time_delta {
            Some(t) => t,
            None => 0u32,
        }
    }

    pub open spec fn spec_ser(self) -> Seq<u8> {
        header_bytes(BoxType::EmsgBox, self.spec_size()) + ext_bytes(self.version, self.flags)
            + if self.version == 1 {
            spec_u32_to_be_bytes(self.timescale) + spec_u64_to_be_bytes(self.pt_or_zero())
                + spec_u32_to_be_bytes(self.event_duration) + spec_u32_to_be_bytes(self.id)
                + char_bytes(self.scheme_id_uri) + seq![0u8] + char_bytes(self.value) + seq![0u8]
                + self.message_data
        } else {
            char_bytes(self.scheme_id_uri) + seq![0u8] + char_bytes(self.value) + seq![0u8]
                + spec_u32_to_be_bytes(self.timescale) + spec_u32_to_be_bytes(self.delta_or_zero())
                + spec_u32_to_be_bytes(self.event_duration) + spec_u32_to_be_bytes(self.id)
                + self.message_data
        }
    }
}

impl EmsgBox {
    pub fn get_type(&self) -> (r: BoxType)
        ensures
            r == BoxType::EmsgBox,
    {
        BoxType::EmsgBox
    }

    pub fn get_size(&self) -> (r: u64)
        requires
            self@.wf(),
        ensures
            r == self@.spec_size(),
    {
        let uri_bytes = string_wire_bytes(&self.scheme_id_uri);
        let value_bytes = string_wire_bytes(&self.value);
        let fixed: u64 = if self.version == 1 {
            32
        } else {
            28
        };
        fixed + uri_bytes.len() as u64 + 1 + value_bytes.len() as u64 + 1
            + self.message_data.len() as u64
    }

    pub fn box_type(&self) -> (r: BoxType)
        ensures
            r == BoxType::EmsgBox,
    {
        self.get_type()
    }

    pub fn box_size(&self) -> (r: u64)
        requires
            self@.wf(),
        ensures
            r == self@.spec_size(),
    {
        self.get_size()
    }

    pub fn write_box(&self, out: &mut Vec<u8>) -> (r: Result<u64, Error>)
        requires
            self@.wf(),
        ensures
            final(out)@ == old(out)@ + self@.spec_ser(),
            r matches Ok(n) && n == self@.spec_size(),
            self@.spec_ser().len() == self@.spec_size(),
    {
        let size = self.box_size();
        BoxHeader::new(self.box_type(), size).write(out)?;
        write_box_header_ext(out, self.version, self.flags);
        let uri_bytes = string_wire_bytes(&self.scheme_id_uri);
        let value_bytes = string_wire_bytes(&self.value);
        if self.version == 1 {
            put_u32(out, self.timescale);
            put_u64(out, match self.presentation_time {
                Some(t) => t,
                None => 0,
            });
            put_u32(out, self.event_duration);
            put_u32(out, self.id);
            put_bytes(out, uri_bytes.as_slice());
            put_u8(out, 0);
            put_bytes(out, value_bytes.as_slice());
            put_u8(out, 0);
            put_bytes(out, self.message_data.as_slice());
        } else {
            put_bytes(out, uri_bytes.as_slice());
            put_u8(out, 0);
            put_bytes(out, value_bytes.as_slice());
            put_u8(out, 0);
            put_u32(out, self.timescale);
            put_u32(out, match self.presentation_time_delta {
                Some(t) => t,
                None => 0,
            });
            put_u32(out, self.event_duration);
            put_u32(out, self.id);
            put_bytes(out, self.message_data.as_slice());
        }
        proof {
            assert(out@ =~= old(out)@ + self@.spec_ser());
        }
        Ok(size)
    }
}

/// A sound event-message box serializes to exactly as many bytes as its
/// size field declares.
pub proof fn lemma_emsg_ser_len(m: EmsgBoxView)
    requires
        m.wf(),
    ensures
        m.spec_ser().len() == m.spec_size(),
{
}

} // verus!
