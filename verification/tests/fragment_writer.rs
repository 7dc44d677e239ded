//! End-to-end checks of the fragment writer: flag derivation, the
//! first-sample-flags elision, the whole-run composition-offset rule, the
//! resolved data offset, and the descriptor length codec.
use bytes::Bytes;
use mp4::descriptor::{read_desc_len, write_desc_len};
use mp4::{BoxHeader, BoxType, CmafChunkConfig, CmafChunkWriter, MoofBox};
use mp4::types::Mp4Sample;

fn chunk_config(default_sample_flags: u32) -> CmafChunkConfig {
    CmafChunkConfig {
        timescale: 1000,
        default_sample_duration: 10,
        default_sample_size: 100,
        default_sample_flags,
        producer_reference_time: None,
    }
}

fn sample(start_time: u64, duration: u32, rendering_offset: i32, is_sync: bool, payload: &[u8]) -> Mp4Sample {
    Mp4Sample {
        start_time,
        duration,
        rendering_offset,
        is_sync,
        bytes: Bytes::copy_from_slice(payload),
    }
}

#[test]
fn test_chunk() {
    let config = chunk_config(0);
    let data: Vec<u8> = Vec::new();

    let mut writer = CmafChunkWriter::write_start(data, 1, &config).unwrap();

    writer
        .write_sample(&Mp4Sample {
            start_time: 10,
            duration: 10,
            rendering_offset: 10,
            is_sync: true,
            bytes: Bytes::from_static(&[0, 0, 0, 0, 0, 0, 0]),
        })
        .unwrap();

    writer.write_end(1).unwrap();

    let data: Vec<u8> = writer.into_writer();

    // the emitted fragment must hold a fragment container and its media data
    let mut pos: usize = 0;
    let header = BoxHeader::read(&data, &mut pos).unwrap();
    assert_eq!(header.name, BoxType::MoofBox);
    let moof = MoofBox::read_box(&data, &mut pos, header.size).unwrap();
    assert_eq!(moof.mfhd.sequence_number, 1);
    assert_eq!(moof.trafs.len(), 1);
    let trun = moof.trafs[0].trun.as_ref().unwrap();
    assert_eq!(trun.sample_count, 1);
    assert_eq!(trun.sample_durations, vec![10]);
    assert_eq!(trun.sample_sizes, vec![7]);
    let mdat = BoxHeader::read(&data, &mut pos).unwrap();
    assert_eq!(mdat.name, BoxType::MdatBox);
    assert_eq!(mdat.size, 8 + 7);
    assert_eq!(&data[pos..pos + 7], &[0, 0, 0, 0, 0, 0, 0]);
}

#[test]
fn first_sample_flags_elided_when_default_matches() {
    // the derived flags of a sync sample equal the track default: no
    // override is written
    let sync_flags: u32 = 0x2000000;
    let mut writer = CmafChunkWriter::write_start(Vec::new(), 1, &chunk_config(sync_flags)).unwrap();
    writer.write_sample(&sample(0, 10, 0, true, &[1, 2, 3])).unwrap();
    writer.write_end(1).unwrap();
    let data = writer.into_writer();

    let mut pos: usize = 0;
    let header = BoxHeader::read(&data, &mut pos).unwrap();
    let moof = MoofBox::read_box(&data, &mut pos, header.size).unwrap();
    let trun = moof.trafs[0].trun.as_ref().unwrap();
    assert_eq!(trun.first_sample_flags, None);
    assert_eq!(trun.flags & 0x4, 0);
}

#[test]
fn first_sample_flags_override_when_default_differs() {
    // a sync sample against a zero default: the run carries one override
    // with the derived value instead of per-sample flags
    let mut writer = CmafChunkWriter::write_start(Vec::new(), 1, &chunk_config(0)).unwrap();
    writer.write_sample(&sample(0, 10, 0, true, &[1, 2, 3])).unwrap();
    writer.write_sample(&sample(10, 10, 0, false, &[4, 5])).unwrap();
    writer.write_end(1).unwrap();
    let data = writer.into_writer();

    let mut pos: usize = 0;
    let header = BoxHeader::read(&data, &mut pos).unwrap();
    let moof = MoofBox::read_box(&data, &mut pos, header.size).unwrap();
    let trun = moof.trafs[0].trun.as_ref().unwrap();
    assert_eq!(trun.first_sample_flags, Some(0x2000000));
    assert!(trun.flags & 0x4 != 0);
    // per-sample flags are never paid for
    assert_eq!(trun.flags & 0x400, 0);
}

#[test]
fn composition_offset_flag_toggles_on_later_sample() {
    // first sample offset zero, second non-zero: the whole-run flag must
    // be set after the second append, not only judged at the first
    let mut writer = CmafChunkWriter::write_start(Vec::new(), 1, &chunk_config(0)).unwrap();
    writer.write_sample(&sample(0, 10, 0, true, &[1])).unwrap();
    writer.write_sample(&sample(10, 10, 42, false, &[2])).unwrap();
    writer.write_end(1).unwrap();
    let data = writer.into_writer();

    let mut pos: usize = 0;
    let header = BoxHeader::read(&data, &mut pos).unwrap();
    let moof = MoofBox::read_box(&data, &mut pos, header.size).unwrap();
    let trun = moof.trafs[0].trun.as_ref().unwrap();
    assert!(trun.flags & 0x800 != 0);
    assert_eq!(trun.sample_cts, vec![0, 42]);
}

#[test]
fn composition_offset_flag_stays_clear_when_all_zero() {
    let mut writer = CmafChunkWriter::write_start(Vec::new(), 1, &chunk_config(0)).unwrap();
    writer.write_sample(&sample(0, 10, 0, true, &[1])).unwrap();
    writer.write_sample(&sample(10, 10, 0, false, &[2])).unwrap();
    writer.write_end(1).unwrap();
    let data = writer.into_writer();

    let mut pos: usize = 0;
    let header = BoxHeader::read(&data, &mut pos).unwrap();
    let moof = MoofBox::read_box(&data, &mut pos, header.size).unwrap();
    let trun = moof.trafs[0].trun.as_ref().unwrap();
    assert_eq!(trun.flags & 0x800, 0);
}

#[test]
fn data_offset_points_at_first_sample() {
    // sequence number 7, track id 1, two samples of known sizes: the
    // written data offset must be the byte distance from the start of the
    // fragment container to the first payload byte
    let mut writer = CmafChunkWriter::write_start(Vec::new(), 1, &chunk_config(0)).unwrap();
    writer.write_sample(&sample(0, 10, 0, true, &[0xaa, 0xbb, 0xcc])).unwrap();
    writer.write_sample(&sample(10, 10, 0, false, &[0xdd, 0xee])).unwrap();
    writer.write_end(7).unwrap();
    let data = writer.into_writer();

    let mut pos: usize = 0;
    let header = BoxHeader::read(&data, &mut pos).unwrap();
    assert_eq!(header.name, BoxType::MoofBox);
    let moof_start: usize = 0;
    let moof = MoofBox::read_box(&data, &mut pos, header.size).unwrap();
    assert_eq!(moof.mfhd.sequence_number, 7);
    let trun = moof.trafs[0].trun.as_ref().unwrap();
    let off = trun.data_offset.unwrap() as usize;
    assert_eq!(off, header.size as usize + 8);
    assert_eq!(&data[moof_start + off..moof_start + off + 3], &[0xaa, 0xbb, 0xcc]);
    assert_eq!(&data[moof_start + off + 3..moof_start + off + 5], &[0xdd, 0xee]);
}

#[test]
fn fragment_reads_back_with_sample_timing() {
    // the emitted bytes parse back as one fragment with exactly the
    // written durations and sync flags
    let mut writer = CmafChunkWriter::write_start(Vec::new(), 1, &chunk_config(0)).unwrap();
    writer.write_sample(&sample(0, 10, 0, true, &[1, 2, 3, 4])).unwrap();
    let total = writer.write_sample(&sample(10, 10, 0, false, &[5, 6])).unwrap();
    assert_eq!(total, 20);
    assert_eq!(writer.base_media_decode_time(), 0);
    assert!(writer.starts_with_keyframe());
    assert!(writer.contains_keyframe());
    assert_eq!(writer.duration(), 20 * 1_000_000 / 1000);
    writer.write_end(1).unwrap();
    let data = writer.into_writer();

    let mut pos: usize = 0;
    let header = BoxHeader::read(&data, &mut pos).unwrap();
    let moof = MoofBox::read_box(&data, &mut pos, header.size).unwrap();
    let traf = &moof.trafs[0];
    assert_eq!(traf.tfhd.track_id, 1);
    assert_eq!(traf.tfdt.as_ref().unwrap().base_media_decode_time, 0);
    let trun = traf.trun.as_ref().unwrap();
    assert_eq!(trun.sample_count, 2);
    assert_eq!(trun.sample_durations, vec![10, 10]);
    // the first sample is sync, signalled by the override; the rest use
    // the track default
    assert_eq!(trun.first_sample_flags, Some(0x2000000));
}

#[test]
fn descriptor_length_codec_identity_at_boundaries() {
    let cases: [(u32, usize); 7] = [
        (0, 1),
        (127, 1),
        (128, 2),
        (16383, 2),
        (16384, 3),
        (0x1FFFFF, 3),
        (0x200000, 4),
    ];
    for (v, want_len) in cases.iter() {
        let mut buf: Vec<u8> = Vec::new();
        let n = write_desc_len(&mut buf, *v).unwrap();
        assert_eq!(n as usize, *want_len);
        assert_eq!(buf.len(), *want_len);
        let mut pos: usize = 0;
        let back = read_desc_len(&buf, &mut pos).unwrap();
        assert_eq!(back, *v);
        assert_eq!(pos, *want_len);
    }
}

#[test]
fn descriptor_length_rejects_out_of_range() {
    let mut buf: Vec<u8> = Vec::new();
    let r = write_desc_len(&mut buf, 0x10000000);
    assert!(matches!(r, Err(mp4::Error::InvalidData(_))));
    assert!(buf.is_empty());
}

#[test]
fn emsg_box_rides_before_the_fragment() {
    let emsg = mp4::EmsgData {
        kind: mp4::EmsgKind::Id3(vec![9, 9, 9]),
        timescale: 1000,
        presentation_time: 5,
        event_duration: 1,
        id: 77,
    }
    .build_box();
    assert_eq!(emsg.scheme_id_uri, "https://aomedia.org/emsg/ID3");
    let mut writer = CmafChunkWriter::write_start(Vec::new(), 1, &chunk_config(0)).unwrap();
    writer.add_emsg(emsg);
    writer.write_sample(&sample(0, 10, 0, true, &[1])).unwrap();
    writer.write_end(1).unwrap();
    let data = writer.into_writer();

    let mut pos: usize = 0;
    let first = BoxHeader::read(&data, &mut pos).unwrap();
    assert_eq!(first.name, BoxType::EmsgBox);
    pos = first.size as usize;
    let second = BoxHeader::read(&data, &mut pos).unwrap();
    assert_eq!(second.name, BoxType::MoofBox);
}
