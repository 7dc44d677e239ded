use vstd::prelude::*;

verus! {

/// The four-character tag of a box, decoded from (or encoded to) the
/// second word of its header. Tags this library does not know are kept
/// as their raw big-endian value so a reader can skip them.
#[derive(Debug, Clone, Copy, PartialEq, Eq, Structural)]
pub enum BoxType {
    FtypBox,
    MoovBox,
    MvhdBox,
    TrakBox,
    TkhdBox,
    MdiaBox,
    MdhdBox,
    HdlrBox,
    MinfBox,
    VmhdBox,
    SmhdBox,
    DinfBox,
    DrefBox,
    UrlBox,
    StblBox,
    StsdBox,
    SttsBox,
    StscBox,
    StszBox,
    StcoBox,
    MvexBox,
    MehdBox,
    TrexBox,
    MoofBox,
    MfhdBox,
    TrafBox,
    TfhdBox,
    TfdtBox,
    TrunBox,
    MdatBox,
    EmsgBox,
    PrftBox,
    PsshBox,
    SinfBox,
    FrmaBox,
    SchmBox,
    SchiBox,
    TencBox,
    Avc1Box,
    AvcCBox,
    Av01Box,
    Av1CBox,
    ColrBox,
    PaspBox,
    OpusBox,
    DopsBox,
    UnknownBox(u32),
}

impl BoxType {
    pub open spec fn spec_to_u32(self) -> u32 {
        match self {
            BoxType::FtypBox => 0x66747970,
            BoxType::MoovBox => 0x6d6f6f76,
            BoxType::MvhdBox => 0x6d766864,
            BoxType::TrakBox => 0x7472616b,
            BoxType::TkhdBox => 0x746b6864,
            BoxType::MdiaBox => 0x6d646961,
            BoxType::MdhdBox => 0x6d646864,
            BoxType::HdlrBox => 0x68646c72,
            BoxType::MinfBox => 0x6d696e66,
            BoxType::VmhdBox => 0x766d6864,
            BoxType::SmhdBox => 0x736d6864,
            BoxType::DinfBox => 0x64696e66,
            BoxType::DrefBox => 0x64726566,
            BoxType::UrlBox => 0x75726c20,
            BoxType::StblBox => 0x7374626c,
            BoxType::StsdBox => 0x73747364,
            BoxType::SttsBox => 0x73747473,
            BoxType::StscBox => 0x73747363,
            BoxType::StszBox => 0x7374737a,
            BoxType::StcoBox => 0x7374636f,
            BoxType::MvexBox => 0x6d766578,
            BoxType::MehdBox => 0x6d656864,
            BoxType::TrexBox => 0x74726578,
            BoxType::MoofBox => 0x6d6f6f66,
            BoxType::MfhdBox => 0x6d666864,
            BoxType::TrafBox => 0x74726166,
            BoxType::TfhdBox => 0x74666864,
            BoxType::TfdtBox => 0x74666474,
            BoxType::TrunBox => 0x7472756e,
            BoxType::MdatBox => 0x6d646174,
            BoxType::EmsgBox => 0x656d7367,
            BoxType::PrftBox => 0x70726674,
            BoxType::PsshBox => 0x70737368,
            BoxType::SinfBox => 0x73696e66,
            BoxType::FrmaBox => 0x66726d61,
            BoxType::SchmBox => 0x7363686d,
            BoxType::SchiBox => 0x73636869,
            BoxType::TencBox => 0x74656e63,
            BoxType::Avc1Box => 0x61766331,
            BoxType::AvcCBox => 0x61766343,
            BoxType::Av01Box => 0x61763031,
            BoxType::Av1CBox => 0x61763143,
            BoxType::ColrBox => 0x636f6c72,
            BoxType::PaspBox => 0x70617370,
            BoxType::OpusBox => 0x4f707573,
            BoxType::DopsBox => 0x644f7073,
            BoxType::UnknownBox(v) => v,
        }
    }

    pub open spec fn spec_from_u32(v: u32) -> BoxType {
        if v == 0x66747970 {
            BoxType::FtypBox
        } else if v == 0x6d6f6f76 {
            BoxType::MoovBox
        } else if v == 0x6d766864 {
            BoxType::MvhdBox
        } else if v == 0x7472616b {
            BoxType::TrakBox
        } else if v == 0x746b6864 {
            BoxType::TkhdBox
        } else if v == 0x6d646961 {
            BoxType::MdiaBox
        } else if v == 0x6d646864 {
            BoxType::MdhdBox
        } else if v == 0x68646c72 {
            BoxType::HdlrBox
        } else if v == 0x6d696e66 {
            BoxType::MinfBox
        } else if v == 0x766d6864 {
            BoxType::VmhdBox
        } else if v == 0x736d6864 {
            BoxType::SmhdBox
        } else if v == 0x64696e66 {
            BoxType::DinfBox
        } else if v == 0x64726566 {
            BoxType::DrefBox
        } else if v == 0x75726c20 {
            BoxType::UrlBox
        } else if v == 0x7374626c {
            BoxType::StblBox
        } else if v == 0x73747364 {
            BoxType::StsdBox
        } else if v == 0x73747473 {
            BoxType::SttsBox
        } else if v == 0x73747363 {
            BoxType::StscBox
        } else if v == 0x7374737a {
            BoxType::StszBox
        } else if v == 0x7374636f {
            BoxType::StcoBox
        } else if v == 0x6d766578 {
            BoxType::MvexBox
        } else if v == 0x6d656864 {
            BoxType::MehdBox
        } else if v == 0x74726578 {
            BoxType::TrexBox
        } else if v == 0x6d6f6f66 {
            BoxType::MoofBox
        } else if v == 0x6d666864 {
            BoxType::MfhdBox
        } else if v == 0x74726166 {
            BoxType::TrafBox
        } else if v == 0x74666864 {
            BoxType::TfhdBox
        } else if v == 0x74666474 {
            BoxType::TfdtBox
        } else if v == 0x7472756e {
            BoxType::TrunBox
        } else if v == 0x6d646174 {
            BoxType::MdatBox
        } else if v == 0x656d7367 {
            BoxType::EmsgBox
        } else if v == 0x70726674 {
            BoxType::PrftBox
        } else if v == 0x70737368 {
            BoxType::PsshBox
        } else if v == 0x73696e66 {
            BoxType::SinfBox
        } else if v == 0x66726d61 {
            BoxType::FrmaBox
        } else if v == 0x7363686d {
            BoxType::SchmBox
        } else if v == 0x73636869 {
            BoxType::SchiBox
        } else if v == 0x74656e63 {
            BoxType::TencBox
        } else if v == 0x61766331 {
            BoxType::Avc1Box
        } else if v == 0x61766343 {
            BoxType::AvcCBox
        } else if v == 0x61763031 {
            BoxType::Av01Box
        } else if v == 0x61763143 {
            BoxType::Av1CBox
        } else if v == 0x636f6c72 {
            BoxType::ColrBox
        } else if v == 0x70617370 {
            BoxType::PaspBox
        } else if v == 0x4f707573 {
            BoxType::OpusBox
        } else if v == 0x644f7073 {
            BoxType::DopsBox
        } else {
            BoxType::UnknownBox(v)
        }
    }

    pub fn to_u32(self) -> (r: u32)
        ensures
            r == self.spec_to_u32(),
    {
        match self {
            BoxType::FtypBox => 0x66747970,
            BoxType::MoovBox => 0x6d6f6f76,
            BoxType::MvhdBox => 0x6d766864,
            BoxType::TrakBox => 0x7472616b,
            BoxType::TkhdBox => 0x746b6864,
            BoxType::MdiaBox => 0x6d646961,
            BoxType::MdhdBox => 0x6d646864,
            BoxType::HdlrBox => 0x68646c72,
            BoxType::MinfBox => 0x6d696e66,
            BoxType::VmhdBox => 0x766d6864,
            BoxType::SmhdBox => 0x736d6864,
            BoxType::DinfBox => 0x64696e66,
            BoxType::DrefBox => 0x64726566,
            BoxType::UrlBox => 0x75726c20,
            BoxType::StblBox => 0x7374626c,
            BoxType::StsdBox => 0x73747364,
            BoxType::SttsBox => 0x73747473,
            BoxType::StscBox => 0x73747363,
            BoxType::StszBox => 0x7374737a,
            BoxType::StcoBox => 0x7374636f,
            BoxType::MvexBox => 0x6d766578,
            BoxType::MehdBox => 0x6d656864,
            BoxType::TrexBox => 0x74726578,
            BoxType::MoofBox => 0x6d6f6f66,
            BoxType::MfhdBox => 0x6d666864,
            BoxType::TrafBox => 0x74726166,
            BoxType::TfhdBox => 0x74666864,
            BoxType::TfdtBox => 0x74666474,
            BoxType::TrunBox => 0x7472756e,
            BoxType::MdatBox => 0x6d646174,
            BoxType::EmsgBox => 0x656d7367,
            BoxType::PrftBox => 0x70726674,
            BoxType::PsshBox => 0x70737368,
            BoxType::SinfBox => 0x73696e66,
            BoxType::FrmaBox => 0x66726d61,
            BoxType::SchmBox => 0x7363686d,
            BoxType::SchiBox => 0x73636869,
            BoxType::TencBox => 0x74656e63,
            BoxType::Avc1Box => 0x61766331,
            BoxType::AvcCBox => 0x61766343,
            BoxType::Av01Box => 0x61763031,
            BoxType::Av1CBox => 0x61763143,
            BoxType::ColrBox => 0x636f6c72,
            BoxType::PaspBox => 0x70617370,
            BoxType::OpusBox => 0x4f707573,
            BoxType::DopsBox => 0x644f7073,
            BoxType::UnknownBox(v) => v,
        }
    }

    pub fn from_u32(v: u32) -> (r: BoxType)
        ensures
            r == BoxType::spec_from_u32(v),
    {
        if v == 0x66747970 {
            BoxType::FtypBox
        } else if v == 0x6d6f6f76 {
            BoxType::MoovBox
        } else if v == 0x6d766864 {
            BoxType::MvhdBox
        } else if v == 0x7472616b {
            BoxType::TrakBox
        } else if v == 0x746b6864 {
            BoxType::TkhdBox
        } else if v == 0x6d646961 {
            BoxType::MdiaBox
        } else if v == 0x6d646864 {
            BoxType::MdhdBox
        } else if v == 0x68646c72 {
            BoxType::HdlrBox
        } else if v == 0x6d696e66 {
            BoxType::MinfBox
        } else if v == 0x766d6864 {
            BoxType::VmhdBox
        } else if v == 0x736d6864 {
            BoxType::SmhdBox
        } else if v == 0x64696e66 {
            BoxType::DinfBox
        } else if v == 0x64726566 {
            BoxType::DrefBox
        } else if v == 0x75726c20 {
            BoxType::UrlBox
        } else if v == 0x7374626c {
            BoxType::StblBox
        } else if v == 0x73747364 {
            BoxType::StsdBox
        } else if v == 0x73747473 {
            BoxType::SttsBox
        } else if v == 0x73747363 {
            BoxType::StscBox
        } else if v == 0x7374737a {
            BoxType::StszBox
        } else if v == 0x7374636f {
            BoxType::StcoBox
        } else if v == 0x6d766578 {
            BoxType::MvexBox
        } else if v == 0x6d656864 {
            BoxType::MehdBox
        } else if v == 0x74726578 {
            BoxType::TrexBox
        } else if v == 0x6d6f6f66 {
            BoxType::MoofBox
        } else if v == 0x6d666864 {
            BoxType::MfhdBox
        } else if v == 0x74726166 {
            BoxType::TrafBox
        } else if v == 0x74666864 {
            BoxType::TfhdBox
        } else if v == 0x74666474 {
            BoxType::TfdtBox
        } else if v == 0x7472756e {
            BoxType::TrunBox
        } else if v == 0x6d646174 {
            BoxType::MdatBox
        } else if v == 0x656d7367 {
            BoxType::EmsgBox
        } else if v == 0x70726674 {
            BoxType::PrftBox
        } else if v == 0x70737368 {
            BoxType::PsshBox
        } else if v == 0x73696e66 {
            BoxType::SinfBox
        } else if v == 0x66726d61 {
            BoxType::FrmaBox
        } else if v == 0x7363686d {
            BoxType::SchmBox
        } else if v == 0x73636869 {
            BoxType::SchiBox
        } else if v == 0x74656e63 {
            BoxType::TencBox
        } else if v == 0x61766331 {
            BoxType::Avc1Box
        } else if v == 0x61766343 {
            BoxType::AvcCBox
        } else if v == 0x61763031 {
            BoxType::Av01Box
        } else if v == 0x61763143 {
            BoxType::Av1CBox
        } else if v == 0x636f6c72 {
            BoxType::ColrBox
        } else if v == 0x70617370 {
            BoxType::PaspBox
        } else if v == 0x4f707573 {
            BoxType::OpusBox
        } else if v == 0x644f7073 {
            BoxType::DopsBox
        } else {
            BoxType::UnknownBox(v)
        }
    }
}

/// Encoding a known tag and decoding it again gives the tag back: the
/// tag values above are pairwise distinct.
pub proof fn lemma_boxtype_u32_roundtrip(t: BoxType)
    requires
        !(t is UnknownBox),
    ensures
        BoxType::spec_from_u32(t.spec_to_u32()) == t,
{
}

} // verus!
