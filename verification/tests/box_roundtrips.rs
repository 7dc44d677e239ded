//! Write-then-read checks for the leaf box codecs, with the exact wire
//! bytes pinned down where the layout is fixed.
use mp4::{
    BoxHeader, BoxType, Color, ColrBox, FourCC, FrmaBox, InitializationVector, PaspBox, PrftBox,
    PsshBox, SchiBox, SchmBox, SinfBox, TencBox,
};
use mp4::types::ColorConfig;

#[test]
fn test_pasp_one_one() {
    let pasp_box = PaspBox { numerator: 1, denumerator: 1 };
    let mut buf: Vec<u8> = Vec::new();
    pasp_box.write_box(&mut buf).unwrap();
    assert_eq!(buf.len(), pasp_box.box_size() as usize);

    let mut pos: usize = 0;
    let header = BoxHeader::read(&buf, &mut pos).unwrap();
    assert_eq!(header.name, BoxType::PaspBox);
    assert_eq!(pasp_box.box_size(), header.size);

    let dst_box = PaspBox::read_box(&buf, &mut pos, header.size).unwrap();
    assert_eq!(pasp_box, dst_box);
}

#[test]
fn test_pasp_sixteen_nine() {
    let pasp_box = PaspBox { numerator: 16, denumerator: 9 };
    let mut buf: Vec<u8> = Vec::new();
    pasp_box.write_box(&mut buf).unwrap();
    assert_eq!(buf.len(), pasp_box.box_size() as usize);

    let mut pos: usize = 0;
    let header = BoxHeader::read(&buf, &mut pos).unwrap();
    assert_eq!(header.name, BoxType::PaspBox);
    assert_eq!(pasp_box.box_size(), header.size);

    let dst_box = PaspBox::read_box(&buf, &mut pos, header.size).unwrap();
    assert_eq!(pasp_box, dst_box);
}

#[test]
fn test_frma() {
    let src_box = FrmaBox { data_format: FourCC { value: *b"avc1" } };

    let mut buf: Vec<u8> = Vec::new();
    src_box.write_box(&mut buf).unwrap();
    assert_eq!(buf.len(), src_box.box_size() as usize);

    let expected: Vec<u8> = vec![
        0x00, 0x00, 0x00, 0x0c, b'f', b'r', b'm', b'a', b'a', b'v', b'c', b'1',
    ];
    assert_eq!(buf, expected);

    let mut pos: usize = 0;
    let header = BoxHeader::read(&buf, &mut pos).unwrap();
    assert_eq!(header.name, BoxType::FrmaBox);
    assert_eq!(src_box.box_size(), header.size);

    let dst_box = FrmaBox::read_box(&buf, &mut pos, header.size).unwrap();
    assert_eq!(src_box, dst_box);
}

#[test]
fn test_colr_nclx() {
    let colr_box = ColrBox {
        color_config: Color::Nclx(ColorConfig {
            color_primaries: 1,
            transfer_characteristics: 1,
            matrix_coefficients: 1,
            full_range: false,
        }),
    };
    let mut buf: Vec<u8> = Vec::new();
    colr_box.write_box(&mut buf).unwrap();
    assert_eq!(buf.len(), colr_box.box_size() as usize);

    let mut pos: usize = 0;
    let header = BoxHeader::read(&buf, &mut pos).unwrap();
    assert_eq!(header.name, BoxType::ColrBox);
    assert_eq!(colr_box.box_size(), header.size);

    let dst_box = ColrBox::read_box(&buf, &mut pos, header.size).unwrap();
    assert_eq!(colr_box, dst_box);
}

#[test]
fn test_colr_prof() {
    let colr_box = ColrBox { color_config: Color::Prof(bytes::Bytes::from(vec![0u8; 10])) };
    let mut buf: Vec<u8> = Vec::new();
    colr_box.write_box(&mut buf).unwrap();
    assert_eq!(buf.len(), colr_box.box_size() as usize);

    let mut pos: usize = 0;
    let header = BoxHeader::read(&buf, &mut pos).unwrap();
    assert_eq!(header.name, BoxType::ColrBox);
    assert_eq!(colr_box.box_size(), header.size);

    let dst_box = ColrBox::read_box(&buf, &mut pos, header.size).unwrap();
    assert_eq!(colr_box, dst_box);
}

#[test]
fn test_prft() {
    let src_box = PrftBox {
        version: 0,
        flags: 0,
        media_time: 123,
        ntp_timestamp: 321,
        reference_track_id: 1,
    };
    let mut buf: Vec<u8> = Vec::new();
    src_box.write_box(&mut buf).unwrap();
    assert_eq!(buf.len(), src_box.box_size() as usize);

    let mut pos: usize = 0;
    let header = BoxHeader::read(&buf, &mut pos).unwrap();
    assert_eq!(header.name, BoxType::PrftBox);
    assert_eq!(src_box.box_size(), header.size);

    let dst_box = PrftBox::read_box(&buf, &mut pos, header.size).unwrap();
    assert_eq!(src_box, dst_box);
}

#[test]
fn test_pssh() {
    let system_id = [
        0x10, 0x77, 0xef, 0xec, 0xc0, 0xb2, 0x4d, 0x02, //
        0xac, 0xe3, 0x3c, 0x1e, 0x52, 0xe2, 0xfb, 0x4b,
    ];

    let data = vec![
        0x6d, 0x76, 0xf2, 0x5c, 0xb1, 0x7f, 0x5e, 0x16, //
    ];

    let src_box = PsshBox::new(system_id, data);

    let mut buf: Vec<u8> = Vec::new();
    src_box.write_box(&mut buf).unwrap();
    assert_eq!(buf.len(), src_box.box_size() as usize);

    let expected: Vec<u8> = vec![
        0x00, 0x00, 0x00, 0x28, b'p', b's', b's', b'h', //
        0x00, 0x00, 0x00, 0x00, 0x10, 0x77, 0xef, 0xec, //
        0xc0, 0xb2, 0x4d, 0x02, 0xac, 0xe3, 0x3c, 0x1e, //
        0x52, 0xe2, 0xfb, 0x4b, 0x00, 0x00, 0x00, 0x08, //
        0x6d, 0x76, 0xf2, 0x5c, 0xb1, 0x7f, 0x5e, 0x16,
    ];
    assert_eq!(buf, expected);

    let mut pos: usize = 0;
    let header = BoxHeader::read(&buf, &mut pos).unwrap();
    assert_eq!(header.name, BoxType::PsshBox);
    assert_eq!(src_box.box_size(), header.size);

    let dst_box = PsshBox::read_box(&buf, &mut pos, header.size).unwrap();
    assert_eq!(src_box, dst_box);
}

#[test]
fn test_pssh_with_kid() {
    let kid = vec![[
        0x6d, 0x76, 0xf2, 0x5c, 0xb1, 0x7f, 0x5e, 0x16, //
        0xb8, 0xea, 0xef, 0x6b, 0xbf, 0x58, 0x2d, 0x8e,
    ]];

    let system_id = [
        0x10, 0x77, 0xef, 0xec, 0xc0, 0xb2, 0x4d, 0x02, //
        0xac, 0xe3, 0x3c, 0x1e, 0x52, 0xe2, 0xfb, 0x4b,
    ];

    let src_box = PsshBox::with_kid(system_id, kid, Vec::new());

    let mut buf: Vec<u8> = Vec::new();
    src_box.write_box(&mut buf).unwrap();
    assert_eq!(buf.len(), src_box.box_size() as usize);

    let expected: Vec<u8> = vec![
        0x00, 0x00, 0x00, 0x34, b'p', b's', b's', b'h', //
        0x01, 0x00, 0x00, 0x00, 0x10, 0x77, 0xef, 0xec, //
        0xc0, 0xb2, 0x4d, 0x02, 0xac, 0xe3, 0x3c, 0x1e, //
        0x52, 0xe2, 0xfb, 0x4b, 0x00, 0x00, 0x00, 0x01, //
        0x6d, 0x76, 0xf2, 0x5c, 0xb1, 0x7f, 0x5e, 0x16, //
        0xb8, 0xea, 0xef, 0x6b, 0xbf, 0x58, 0x2d, 0x8e, //
        0x00, 0x00, 0x00, 0x00,
    ];
    assert_eq!(buf, expected);

    let mut pos: usize = 0;
    let header = BoxHeader::read(&buf, &mut pos).unwrap();
    assert_eq!(header.name, BoxType::PsshBox);
    assert_eq!(src_box.box_size(), header.size);

    let dst_box = PsshBox::read_box(&buf, &mut pos, header.size).unwrap();
    assert_eq!(src_box, dst_box);
}

#[test]
fn test_schi() {
    let src_box = SchiBox { tenc: TencBox::new_unprotected() };

    let mut buf: Vec<u8> = Vec::new();
    src_box.write_box(&mut buf).unwrap();
    assert_eq!(buf.len(), src_box.box_size() as usize);

    let expected: Vec<u8> = vec![
        0x00, 0x00, 0x00, 0x28, b's', b'c', b'h', b'i', //
        0x00, 0x00, 0x00, 0x20, b't', b'e', b'n', b'c', //
        0x00, 0x00, 0x00, 0x00, 0x00, 0x00, 0x00, 0x00, //
        0x00, 0x00, 0x00, 0x00, 0x00, 0x00, 0x00, 0x00, //
        0x00, 0x00, 0x00, 0x00, 0x00, 0x00, 0x00, 0x00, //
    ];
    assert_eq!(buf, expected);

    let mut pos: usize = 0;
    let header = BoxHeader::read(&buf, &mut pos).unwrap();
    assert_eq!(header.name, BoxType::SchiBox);
    assert_eq!(src_box.box_size(), header.size);

    let dst_box = SchiBox::read_box(&buf, &mut pos, header.size).unwrap();
    assert_eq!(src_box, dst_box);
}

#[test]
fn test_schm_box() {
    let src_box = SchmBox {
        version: 0,
        flags: 0,
        scheme_type: FourCC { value: *b"cenc" },
        scheme_uri: None,
        scheme_version: 0x10000,
    };
    let mut buf: Vec<u8> = Vec::new();
    src_box.write_box(&mut buf).unwrap();
    assert_eq!(buf.len(), src_box.box_size() as usize);

    let expected: Vec<u8> = vec![
        0x00, 0x00, 0x00, 0x14, b's', b'c', b'h', b'm', //
        0x00, 0x00, 0x00, 0x00, b'c', b'e', b'n', b'c', //
        0x00, 0x01, 0x00, 0x00, //
    ];

    assert_eq!(buf, expected);

    let mut pos: usize = 0;
    let header = BoxHeader::read(&buf, &mut pos).unwrap();
    assert_eq!(header.name, BoxType::SchmBox);
    assert_eq!(src_box.box_size(), header.size);

    let dst_box = SchmBox::read_box(&buf, &mut pos, header.size).unwrap();
    assert_eq!(src_box, dst_box);
}

#[test]
fn test_schm_box_with_uri() {
    let src_box = SchmBox {
        version: 0,
        flags: 1,
        scheme_type: FourCC { value: *b"cenc" },
        scheme_uri: Some("https://example.com".to_string()),
        scheme_version: 0x10000,
    };
    let mut buf: Vec<u8> = Vec::new();
    src_box.write_box(&mut buf).unwrap();
    assert_eq!(buf.len(), src_box.box_size() as usize);

    let expected: Vec<u8> = vec![
        0x00, 0x00, 0x00, 0x28, b's', b'c', b'h', b'm', //
        0x00, 0x00, 0x00, 0x01, b'c', b'e', b'n', b'c', //
        0x00, 0x01, 0x00, 0x00, b'h', b't', b't', b'p', //
        b's', b':', b'/', b'/', b'e', b'x', b'a', b'm', //
        b'p', b'l', b'e', b'.', b'c', b'o', b'm', 0x00, //
    ];

    assert_eq!(buf, expected);

    let mut pos: usize = 0;
    let header = BoxHeader::read(&buf, &mut pos).unwrap();
    assert_eq!(header.name, BoxType::SchmBox);
    assert_eq!(src_box.box_size(), header.size);

    let dst_box = SchmBox::read_box(&buf, &mut pos, header.size).unwrap();
    assert_eq!(src_box, dst_box);
}

#[test]
fn test_sinf_only_frma() {
    let src_box = SinfBox {
        frma: FrmaBox { data_format: FourCC { value: *b"avc1" } },
        schi: None,
        schm: None,
    };

    let mut buf: Vec<u8> = Vec::new();
    src_box.write_box(&mut buf).unwrap();
    assert_eq!(buf.len(), src_box.box_size() as usize);

    let expected: Vec<u8> = vec![
        0x00, 0x00, 0x00, 0x14, b's', b'i', b'n', b'f', //
        0x00, 0x00, 0x00, 0x0c, b'f', b'r', b'm', b'a', //
        b'a', b'v', b'c', b'1', //
    ];
    assert_eq!(buf, expected);

    let mut pos: usize = 0;
    let header = BoxHeader::read(&buf, &mut pos).unwrap();
    assert_eq!(header.name, BoxType::SinfBox);
    assert_eq!(src_box.box_size(), header.size);

    let dst_box = SinfBox::read_box(&buf, &mut pos, header.size).unwrap();
    assert_eq!(src_box, dst_box);
}

#[test]
fn test_sinf_schi() {
    let src_box = SinfBox {
        frma: FrmaBox { data_format: FourCC { value: *b"avc1" } },
        schi: Some(SchiBox { tenc: TencBox::new_unprotected() }),
        schm: None,
    };

    let mut buf: Vec<u8> = Vec::new();
    src_box.write_box(&mut buf).unwrap();
    assert_eq!(buf.len(), src_box.box_size() as usize);

    let expected: Vec<u8> = vec![
        0x00, 0x00, 0x00, 0x3c, b's', b'i', b'n', b'f', //
        // the original-format child
        0x00, 0x00, 0x00, 0x0c, b'f', b'r', b'm', b'a', //
        b'a', b'v', b'c', b'1', //
        // the scheme-information child
        0x00, 0x00, 0x00, 0x28, b's', b'c', b'h', b'i', //
        0x00, 0x00, 0x00, 0x20, b't', b'e', b'n', b'c', //
        0x00, 0x00, 0x00, 0x00, 0x00, 0x00, 0x00, 0x00, //
        0x00, 0x00, 0x00, 0x00, 0x00, 0x00, 0x00, 0x00, //
        0x00, 0x00, 0x00, 0x00, 0x00, 0x00, 0x00, 0x00, //
    ];
    assert_eq!(buf, expected);

    let mut pos: usize = 0;
    let header = BoxHeader::read(&buf, &mut pos).unwrap();
    assert_eq!(header.name, BoxType::SinfBox);
    assert_eq!(src_box.box_size(), header.size);

    let dst_box = SinfBox::read_box(&buf, &mut pos, header.size).unwrap();
    assert_eq!(src_box, dst_box);
}

#[test]
fn test_sinf_schm() {
    let src_box = SinfBox {
        frma: FrmaBox { data_format: FourCC { value: *b"avc1" } },
        schi: None,
        schm: Some(SchmBox {
            version: 0,
            flags: 0,
            scheme_type: FourCC { value: *b"cenc" },
            scheme_uri: None,
            scheme_version: 0x10000,
        }),
    };

    let mut buf: Vec<u8> = Vec::new();
    src_box.write_box(&mut buf).unwrap();
    assert_eq!(buf.len(), src_box.box_size() as usize);

    let expected: Vec<u8> = vec![
        0x00, 0x00, 0x00, 0x28, b's', b'i', b'n', b'f', //
        // the original-format child
        0x00, 0x00, 0x00, 0x0c, b'f', b'r', b'm', b'a', //
        b'a', b'v', b'c', b'1', //
        // the scheme-type child
        0x00, 0x00, 0x00, 0x14, b's', b'c', b'h', b'm', //
        0x00, 0x00, 0x00, 0x00, b'c', b'e', b'n', b'c', //
        0x00, 0x01, 0x00, 0x00, //
    ];
    assert_eq!(buf, expected);

    let mut pos: usize = 0;
    let header = BoxHeader::read(&buf, &mut pos).unwrap();
    assert_eq!(header.name, BoxType::SinfBox);
    assert_eq!(src_box.box_size(), header.size);

    let dst_box = SinfBox::read_box(&buf, &mut pos, header.size).unwrap();
    assert_eq!(src_box, dst_box);
}

#[test]
fn test_sinf_schi_schm() {
    let src_box = SinfBox {
        frma: FrmaBox { data_format: FourCC { value: *b"avc1" } },
        schi: Some(SchiBox { tenc: TencBox::new_unprotected() }),
        schm: Some(SchmBox {
            version: 0,
            flags: 0,
            scheme_type: FourCC { value: *b"cenc" },
            scheme_uri: None,
            scheme_version: 0x10000,
        }),
    };

    let mut buf: Vec<u8> = Vec::new();
    src_box.write_box(&mut buf).unwrap();
    assert_eq!(buf.len(), src_box.box_size() as usize);

    let expected: Vec<u8> = vec![
        0x00, 0x00, 0x00, 0x50, b's', b'i', b'n', b'f', //
        // the original-format child
        0x00, 0x00, 0x00, 0x0c, b'f', b'r', b'm', b'a', //
        b'a', b'v', b'c', b'1', //
        // the scheme-information child
        0x00, 0x00, 0x00, 0x28, b's', b'c', b'h', b'i', //
        0x00, 0x00, 0x00, 0x20, b't', b'e', b'n', b'c', //
        0x00, 0x00, 0x00, 0x00, 0x00, 0x00, 0x00, 0x00, //
        0x00, 0x00, 0x00, 0x00, 0x00, 0x00, 0x00, 0x00, //
        0x00, 0x00, 0x00, 0x00, 0x00, 0x00, 0x00, 0x00, //
        // the scheme-type child
        0x00, 0x00, 0x00, 0x14, b's', b'c', b'h', b'm', //
        0x00, 0x00, 0x00, 0x00, b'c', b'e', b'n', b'c', //
        0x00, 0x01, 0x00, 0x00, //
    ];
    assert_eq!(buf, expected);

    let mut pos: usize = 0;
    let header = BoxHeader::read(&buf, &mut pos).unwrap();
    assert_eq!(header.name, BoxType::SinfBox);
    assert_eq!(src_box.box_size(), header.size);

    let dst_box = SinfBox::read_box(&buf, &mut pos, header.size).unwrap();
    assert_eq!(src_box, dst_box);
}

#[test]
fn test_tenc_unprotected() {
    let src_box = TencBox::new_unprotected();

    let mut buf: Vec<u8> = Vec::new();
    src_box.write_box(&mut buf).unwrap();
    assert_eq!(buf.len(), src_box.box_size() as usize);

    let expected = vec![
        0x00, 0x00, 0x00, 0x20, b't', b'e', b'n', b'c', //
        0x00, 0x00, 0x00, 0x00, 0x00, 0x00, 0x00, 0x00, //
        0x00, 0x00, 0x00, 0x00, 0x00, 0x00, 0x00, 0x00, //
        0x00, 0x00, 0x00, 0x00, 0x00, 0x00, 0x00, 0x00, //
    ];

    assert_eq!(buf, expected);

    let mut pos: usize = 0;
    let header = BoxHeader::read(&buf, &mut pos).unwrap();
    assert_eq!(header.name, BoxType::TencBox);
    assert_eq!(src_box.box_size(), header.size);

    let dst_box = TencBox::read_box(&buf, &mut pos, header.size).unwrap();
    assert_eq!(src_box, dst_box);
}

#[test]
fn test_tenc_kid_64() {
    let data = [
        0x6d, 0x76, 0xf2, 0x5c, 0xb1, 0x7f, 0x5e, 0x16, //
    ];
    let src_box = TencBox::new_kid_protected(InitializationVector::new_64_bit(data));

    let mut buf: Vec<u8> = Vec::new();
    src_box.write_box(&mut buf).unwrap();
    assert_eq!(buf.len(), src_box.box_size() as usize);

    let expected = vec![
        0x00, 0x00, 0x00, 0x20, b't', b'e', b'n', b'c', //
        0x00, 0x00, 0x00, 0x00, 0x00, 0x00, 0x01, 0x08, //
        0x6d, 0x76, 0xf2, 0x5c, 0xb1, 0x7f, 0x5e, 0x16, //
        0x00, 0x00, 0x00, 0x00, 0x00, 0x00, 0x00, 0x00, //
    ];

    assert_eq!(buf, expected);

    let mut pos: usize = 0;
    let header = BoxHeader::read(&buf, &mut pos).unwrap();
    assert_eq!(header.name, BoxType::TencBox);
    assert_eq!(src_box.box_size(), header.size);

    let dst_box = TencBox::read_box(&buf, &mut pos, header.size).unwrap();
    assert_eq!(src_box, dst_box);
}

#[test]
fn test_tenc_kid_128() {
    let data = [
        0x6d, 0x76, 0xf2, 0x5c, 0xb1, 0x7f, 0x5e, 0x16, //
        0xb8, 0xea, 0xef, 0x6b, 0xbf, 0x58, 0x2d, 0x8e, //
    ];
    let src_box = TencBox::new_kid_protected(InitializationVector::new_128_bit(data));

    let mut buf: Vec<u8> = Vec::new();
    src_box.write_box(&mut buf).unwrap();
    assert_eq!(buf.len(), src_box.box_size() as usize);

    let expected = vec![
        0x00, 0x00, 0x00, 0x20, b't', b'e', b'n', b'c', //
        0x00, 0x00, 0x00, 0x00, 0x00, 0x00, 0x01, 0x10, //
        0x6d, 0x76, 0xf2, 0x5c, 0xb1, 0x7f, 0x5e, 0x16, //
        0xb8, 0xea, 0xef, 0x6b, 0xbf, 0x58, 0x2d, 0x8e, //
    ];

    assert_eq!(buf, expected);

    let mut pos: usize = 0;
    let header = BoxHeader::read(&buf, &mut pos).unwrap();
    assert_eq!(header.name, BoxType::TencBox);
    assert_eq!(src_box.box_size(), header.size);

    let dst_box = TencBox::read_box(&buf, &mut pos, header.size).unwrap();
    assert_eq!(src_box, dst_box);
}

#[test]
fn test_tenc_constant_iv_64() {
    let data = [
        0x6d, 0x76, 0xf2, 0x5c, 0xb1, 0x7f, 0x5e, 0x16, //
    ];
    let src_box = TencBox::new_constant_iv_protected(InitializationVector::new_64_bit(data));

    let mut buf: Vec<u8> = Vec::new();
    src_box.write_box(&mut buf).unwrap();
    assert_eq!(buf.len(), src_box.box_size() as usize);

    let expected = vec![
        0x00, 0x00, 0x00, 0x29, b't', b'e', b'n', b'c', //
        0x00, 0x00, 0x00, 0x00, 0x00, 0x00, 0x01, 0x00, //
        0x00, 0x00, 0x00, 0x00, 0x00, 0x00, 0x00, 0x00, //
        0x00, 0x00, 0x00, 0x00, 0x00, 0x00, 0x00, 0x00, //
        0x08, 0x6d, 0x76, 0xf2, 0x5c, 0xb1, 0x7f, 0x5e, //
        0x16,
    ];

    assert_eq!(buf, expected);

    let mut pos: usize = 0;
    let header = BoxHeader::read(&buf, &mut pos).unwrap();
    assert_eq!(header.name, BoxType::TencBox);
    assert_eq!(src_box.box_size(), header.size);

    let dst_box = TencBox::read_box(&buf, &mut pos, header.size).unwrap();
    assert_eq!(src_box, dst_box);
}

#[test]
fn test_tenc_constant_iv_128() {
    let data = [
        0x6d, 0x76, 0xf2, 0x5c, 0xb1, 0x7f, 0x5e, 0x16, //
        0xb8, 0xea, 0xef, 0x6b, 0xbf, 0x58, 0x2d, 0x8e, //
    ];
    let src_box = TencBox::new_constant_iv_protected(InitializationVector::new_128_bit(data));

    let mut buf: Vec<u8> = Vec::new();
    src_box.write_box(&mut buf).unwrap();
    assert_eq!(buf.len(), src_box.box_size() as usize);

    let expected = vec![
        0x00, 0x00, 0x00, 0x31, b't', b'e', b'n', b'c', //
        0x00, 0x00, 0x00, 0x00, 0x00, 0x00, 0x01, 0x00, //
        0x00, 0x00, 0x00, 0x00, 0x00, 0x00, 0x00, 0x00, //
        0x00, 0x00, 0x00, 0x00, 0x00, 0x00, 0x00, 0x00, //
        0x10, 0x6d, 0x76, 0xf2, 0x5c, 0xb1, 0x7f, 0x5e, //
        0x16, 0xb8, 0xea, 0xef, 0x6b, 0xbf, 0x58, 0x2d, //
        0x8e,
    ];

    assert_eq!(buf, expected);

    let mut pos: usize = 0;
    let header = BoxHeader::read(&buf, &mut pos).unwrap();
    assert_eq!(header.name, BoxType::TencBox);
    assert_eq!(src_box.box_size(), header.size);

    let dst_box = TencBox::read_box(&buf, &mut pos, header.size).unwrap();
    assert_eq!(src_box, dst_box);
}

#[test]
fn test_sinf_rejects_oversized_child() {
    // a crafted child header that declares more bytes than the parent has
    // left must fail as a data error, not read out of bounds
    let mut buf: Vec<u8> = Vec::new();
    buf.extend_from_slice(&[0x00, 0x00, 0x00, 0x20, b's', b'i', b'n', b'f']);
    buf.extend_from_slice(&[0x00, 0x00, 0x00, 0x64, b'f', b'r', b'm', b'a']);
    buf.extend_from_slice(&[0u8; 16]);
    let mut pos: usize = 0;
    let header = BoxHeader::read(&buf, &mut pos).unwrap();
    assert_eq!(header.name, BoxType::SinfBox);
    let r = SinfBox::read_box(&buf, &mut pos, header.size);
    assert!(matches!(r, Err(mp4::Error::InvalidData(_))));
}

#[test]
fn test_colr_rejects_unknown_tag() {
    let mut buf: Vec<u8> = Vec::new();
    buf.extend_from_slice(&[0x00, 0x00, 0x00, 0x13, b'c', b'o', b'l', b'r']);
    buf.extend_from_slice(&[b'x', b'y', b'z', b'w']);
    buf.extend_from_slice(&[0u8; 7]);
    let mut pos: usize = 0;
    let header = BoxHeader::read(&buf, &mut pos).unwrap();
    let r = ColrBox::read_box(&buf, &mut pos, header.size);
    assert!(matches!(r, Err(mp4::Error::InvalidData(_))));
}

#[test]
fn test_truncated_box_is_eof() {
    let buf: Vec<u8> = vec![0x00, 0x00, 0x00, 0x10, b'p', b'a', b's', b'p', 0x00, 0x00];
    let mut pos: usize = 0;
    let header = BoxHeader::read(&buf, &mut pos).unwrap();
    let r = PaspBox::read_box(&buf, &mut pos, header.size);
    assert!(matches!(r, Err(mp4::Error::UnexpectedEof)));
}

#[test]
fn test_schi_requires_tenc_child() {
    // a scheme-information box whose only child is not a track-encryption
    // box is invalid
    let mut buf: Vec<u8> = Vec::new();
    buf.extend_from_slice(&[0x00, 0x00, 0x00, 0x14, b's', b'c', b'h', b'i']);
    buf.extend_from_slice(&[0x00, 0x00, 0x00, 0x0c, b'f', b'r', b'm', b'a']);
    buf.extend_from_slice(&[b'a', b'v', b'c', b'1']);
    let mut pos: usize = 0;
    let header = BoxHeader::read(&buf, &mut pos).unwrap();
    let r = SchiBox::read_box(&buf, &mut pos, header.size);
    assert!(matches!(r, Err(mp4::Error::InvalidData(_))));
}

#[test]
fn test_sinf_requires_frma_child() {
    // a protection-scheme box without its original-format child reports
    // the missing box
    let mut buf: Vec<u8> = Vec::new();
    buf.extend_from_slice(&[0x00, 0x00, 0x00, 0x1c, b's', b'i', b'n', b'f']);
    buf.extend_from_slice(&[0x00, 0x00, 0x00, 0x14, b's', b'c', b'h', b'm']);
    buf.extend_from_slice(&[0x00, 0x00, 0x00, 0x00, b'c', b'e', b'n', b'c']);
    buf.extend_from_slice(&[0x00, 0x01, 0x00, 0x00]);
    let mut pos: usize = 0;
    let header = BoxHeader::read(&buf, &mut pos).unwrap();
    let r = SinfBox::read_box(&buf, &mut pos, header.size);
    assert!(matches!(r, Err(mp4::Error::BoxNotFound(BoxType::FrmaBox))));
}
