//! The Opus audio sample entry and its decoder-specific child box.
use vstd::prelude::*;

verus! {

#[derive(Debug, Clone, PartialEq, Eq, Hash)]
pub struct ChannelMapping {
    pub stream_count: u8,
    pub coupled_count: u8,
    pub channel_mapping: Vec<u8>,
}

#[derive(Debug, Clone, PartialEq, Eq)]
pub enum ChannelMappingFamily {
    Family0 { stereo: bool },
    Family1(ChannelMapping),
    Unknown(ChannelMapping),
}

} // verus!
