//! The initialization-segment writer, alone and concatenated with a
//! fragment into one parseable stream.
use bytes::Bytes;
use mp4::types::{AvcConfig, ColorConfig, MediaConfig, Mp4Sample, TrackConfig, TrackType};
use mp4::{
    BoxHeader, BoxType, CmafChunkConfig, CmafChunkWriter, CmafHeaderConfig, CmafHeaderWriter,
    FourCC, MoofBox,
};

fn avc_track_config() -> TrackConfig {
    TrackConfig {
        track_type: TrackType::Video,
        timescale: 1000,
        language: "finne".to_string(),
        media_conf: MediaConfig::AvcConfig(AvcConfig {
            width: 1920,
            height: 1080,
            seq_param_set: [
                103, 66, 192, 31, 149, 160, 20, 1, 110, 192, 90, 128, 128, 128, 160, 0, 0, 125, 0,
                0, 29, 76, 28, 0, 0, 4, 196, 176, 0, 2, 98, 90, 221, 229, 193, 64,
            ]
            .to_vec(),
            pic_param_set: [104, 206, 60, 128].to_vec(),
            color: Some(ColorConfig {
                color_primaries: 1,
                transfer_characteristics: 1,
                matrix_coefficients: 1,
                full_range: false,
            }),
            aspect_ratio: Some((1, 1)),
        }),
    }
}

#[test]
fn test_header() {
    let config = CmafHeaderConfig {
        major_brand: FourCC { value: *b"iso6" },
        minor_version: 512,
        compatible_brands: vec![
            FourCC { value: *b"iso6" },
            FourCC { value: *b"cmfc" },
            FourCC { value: *b"mp41" },
        ],
        timescale: 1000,
    };
    let data: Vec<u8> = Vec::new();

    let mut writer = CmafHeaderWriter::write_start(data, &config, None).unwrap();

    writer.add_track(&avc_track_config()).unwrap();

    writer.write_end().unwrap();

    let data: Vec<u8> = writer.into_writer();

    // the file-type box comes first and the movie box fills the rest
    let mut pos: usize = 0;
    let ftyp = BoxHeader::read(&data, &mut pos).unwrap();
    assert_eq!(ftyp.name, BoxType::FtypBox);
    assert_eq!(ftyp.size, 28);
    pos = ftyp.size as usize;
    let moov = BoxHeader::read(&data, &mut pos).unwrap();
    assert_eq!(moov.name, BoxType::MoovBox);
    assert_eq!(ftyp.size + moov.size, data.len() as u64);
}

#[test]
fn header_then_fragment_forms_one_stream() {
    // an initialization segment concatenated with one fragment walks as
    // ftyp, moov, moof, mdat, and the fragment holds exactly the written
    // samples
    let config = CmafHeaderConfig {
        major_brand: FourCC { value: *b"iso6" },
        minor_version: 512,
        compatible_brands: vec![FourCC { value: *b"cmfc" }],
        timescale: 1000,
    };
    let mut header = CmafHeaderWriter::write_start(Vec::new(), &config, None).unwrap();
    header.add_track(&avc_track_config()).unwrap();
    header.write_end().unwrap();
    let mut stream = header.into_writer();

    let chunk_config = CmafChunkConfig {
        timescale: 1000,
        default_sample_duration: 10,
        default_sample_size: 0,
        default_sample_flags: 0,
        producer_reference_time: None,
    };
    let mut chunk = CmafChunkWriter::write_start(Vec::new(), 1, &chunk_config).unwrap();
    chunk
        .write_sample(&Mp4Sample {
            start_time: 0,
            duration: 10,
            rendering_offset: 0,
            is_sync: true,
            bytes: Bytes::from_static(&[1, 2, 3]),
        })
        .unwrap();
    chunk
        .write_sample(&Mp4Sample {
            start_time: 10,
            duration: 10,
            rendering_offset: 0,
            is_sync: false,
            bytes: Bytes::from_static(&[4, 5]),
        })
        .unwrap();
    chunk.write_end(1).unwrap();
    stream.extend_from_slice(&chunk.into_writer());

    let mut pos: usize = 0;
    let ftyp = BoxHeader::read(&stream, &mut pos).unwrap();
    assert_eq!(ftyp.name, BoxType::FtypBox);
    pos = ftyp.size as usize;
    let moov = BoxHeader::read(&stream, &mut pos).unwrap();
    assert_eq!(moov.name, BoxType::MoovBox);
    pos = (ftyp.size + moov.size) as usize;
    let moof_start = pos;
    let moof_header = BoxHeader::read(&stream, &mut pos).unwrap();
    assert_eq!(moof_header.name, BoxType::MoofBox);
    let moof = MoofBox::read_box(&stream, &mut pos, moof_header.size).unwrap();
    assert_eq!(moof.trafs.len(), 1);
    let traf = &moof.trafs[0];
    assert_eq!(traf.tfhd.track_id, 1);
    let trun = traf.trun.as_ref().unwrap();
    assert_eq!(trun.sample_count, 2);
    assert_eq!(trun.sample_durations, vec![10, 10]);
    // the first sample is sync: override set, keyframe semantics
    assert_eq!(trun.first_sample_flags, Some(0x2000000));
    let mdat = BoxHeader::read(&stream, &mut pos).unwrap();
    assert_eq!(mdat.name, BoxType::MdatBox);
    // the data offset resolves relative to the fragment container
    let off = trun.data_offset.unwrap() as usize;
    assert_eq!(&stream[moof_start + off..moof_start + off + 3], &[1, 2, 3]);
}
