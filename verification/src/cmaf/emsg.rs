//! Timed-metadata payloads and the event-message box they build: each kind
//! fixes the scheme URI and carries the message bytes.
use vstd::prelude::*;

use crate::mp4box::emsg::EmsgBox;
use crate::primitives::wire_str_ok;

verus! {

pub enum EmsgKind {
    Id3(Vec<u8>),
}

pub struct EmsgData {
    pub kind: EmsgKind,
    pub timescale: u32,
    pub presentation_time: u64,
    pub event_duration: u32,
    pub id: u32,
}

impl EmsgData {
    /// The scheme URI of this kind of metadata, as a sequence of chars.
    pub open spec fn spec_scheme_id_uri(&self) -> Seq<char> {
        match self.kind {
            EmsgKind::Id3(_) => "https://aomedia.org/emsg/ID3"@,
        }
    }

    /// The message payload of this kind of metadata.
    pub open spec fn spec_message_data(&self) -> Seq<u8> {
        match self.kind {
            EmsgKind::Id3(data) => data@,
        }
    }

    /// Assembles the version-1 event-message box carrying this payload.
    pub fn build_box(&self) -> (r: EmsgBox)
        ensures
            r@.version == 1,
            r@.flags == 0,
            r@.timescale == self.timescale,
            r@.presentation_time == Some(self.presentation_time),
            r@.presentation_time_delta is None,
            r@.event_duration == self.event_duration,
            r@.id == self.id,
            r@.scheme_id_uri == self.spec_scheme_id_uri(),
            r@.message_data == self.spec_message_data(),
            r@.value == Seq::<char>::empty(),
            self.spec_message_data().len() + 100 <= 0xffffffff ==> r@.wf(),
    {
        let r = EmsgBox {
            version: 1,
            flags: 0,
            timescale: self.timescale,
            presentation_time: Some(self.presentation_time),
            presentation_time_delta: None,
            event_duration: self.event_duration,
            id: self.id,
            scheme_id_uri: self.scheme_id_uri(),
            message_data: self.message_data(),
            value: String::new(),
        };
        proof {
            lemma_id3_uri_wire_ok();
        }
        r
    }

    /// The scheme URI that identifies this kind of metadata.
    pub fn scheme_id_uri(&self) -> (r: String)
        ensures
            r@ == self.spec_scheme_id_uri(),
    {
        match &self.kind {
            EmsgKind::Id3(_) => String::from_str("https://aomedia.org/emsg/ID3"),
        }
    }

    /// A copy of the message payload.
    pub fn message_data(&self) -> (r: Vec<u8>)
        ensures
            r@ == self.spec_message_data(),
    {
        match &self.kind {
            EmsgKind::Id3(data) => {
                let mut v: Vec<u8> = Vec::new();
                crate::primitives::put_bytes(&mut v, data.as_slice());
                proof {
                    assert(v@ =~= data@);
                }
                v
            },
        }
    }
}

/// The identifying URI is plain ASCII without an embedded zero, so the
/// wire format can carry it one byte per char.
pub proof fn lemma_id3_uri_wire_ok()
    ensures
        wire_str_ok("https://aomedia.org/emsg/ID3"@),
        "https://aomedia.org/emsg/ID3"@.len() == 28,
{
    reveal_strlit("https://aomedia.org/emsg/ID3");
}

} // verus!
