use audioinfo::extract::{normalize_key, process_file};
use audioinfo::info::{ExtractError, ProbeData, RawTag, TrackData};

fn s(x: &str) -> String {
    x.to_string()
}

fn track() -> TrackData {
    TrackData {
        sample_rate: Some(44100),
        channel_bits: Some(0b11),
        time_base: Some((1, 44100)),
        n_frames: Some(44100 * 123),
        codec: Some(s("0x1001")),
    }
}

#[test]
fn no_track_is_the_only_extraction_error() {
    let probe = ProbeData { tracks: vec![], tags: vec![] };
    match process_file(s("a.mp3"), 10, &probe) {
        Err(e) => {
            assert!(matches!(e, ExtractError::NoSupportedTrack));
            assert_eq!(e.message(), "No supported audio track");
        }
        Ok(_) => panic!("expected an error without any track"),
    }
}

#[test]
fn derived_fields_come_from_the_first_track() {
    let probe = ProbeData { tracks: vec![track()], tags: vec![] };
    let info = process_file(s("a.mp3"), 1_000_000, &probe).unwrap();
    assert_eq!(info.file_path, s("a.mp3"));
    assert_eq!(info.sample_rate, Some(44100));
    assert_eq!(info.channels, Some(2));
    assert_eq!(info.duration_seconds, Some(123));
    // 1_000_000 * 8 / 123 = 65040 bits per second, so 65 kbps rounded down.
    assert_eq!(info.avg_bitrate_kbps, Some(65));
    assert_eq!(info.file_size_bytes, 1_000_000);
    assert_eq!(info.codec, Some(s("0x1001")));
}

#[test]
fn duration_rounds_down_through_the_time_base() {
    let mut t = track();
    t.time_base = Some((1, 44100));
    t.n_frames = Some(44100 * 7 + 44099);
    let probe = ProbeData { tracks: vec![t], tags: vec![] };
    let info = process_file(s("a.wav"), 100, &probe).unwrap();
    assert_eq!(info.duration_seconds, Some(7));
}

#[test]
fn zero_duration_leaves_bitrate_absent() {
    let mut t = track();
    t.time_base = Some((1, 1_000_000_000));
    t.n_frames = Some(1);
    let probe = ProbeData { tracks: vec![t], tags: vec![] };
    let info = process_file(s("a.wav"), 1_000_000, &probe).unwrap();
    assert_eq!(info.duration_seconds, Some(0));
    assert_eq!(info.avg_bitrate_kbps, None);
}

#[test]
fn missing_time_base_leaves_duration_and_bitrate_absent() {
    let mut t = track();
    t.time_base = None;
    let probe = ProbeData { tracks: vec![t], tags: vec![] };
    let info = process_file(s("a.wav"), 1_000_000, &probe).unwrap();
    assert_eq!(info.duration_seconds, None);
    assert_eq!(info.avg_bitrate_kbps, None);
}

#[test]
fn channel_count_is_the_set_bits_of_the_layout() {
    let mut t = track();
    t.channel_bits = Some(0b101101);
    let probe = ProbeData { tracks: vec![t], tags: vec![] };
    let info = process_file(s("a.wav"), 100, &probe).unwrap();
    assert_eq!(info.channels, Some(4));
}

#[test]
fn tag_keys_are_snake_cased() {
    let std_tag = RawTag {
        std_key: Some(s("TrackTitle")),
        key: s("TIT2"),
        value: s("Hello")
    };
    assert_eq!(normalize_key(&std_tag), "track_title");
    let raw_tag = RawTag {
        std_key: None,
        key: s("TRACK-TITLE"),
        value: s("X")
    };
    assert_eq!(normalize_key(&raw_tag), "track_title");
}

#[test]
fn tags_keep_order_and_duplicates() {
    let probe = ProbeData {
        tracks: vec![track()],
        tags: vec![
            RawTag { std_key: None, key: s("Comment"), value: s("one") },
            RawTag { std_key: Some(s("Artist")), key: s("TPE1"), value: s("me") },
            RawTag { std_key: None, key: s("Comment"), value: s("two") },
        ],
    };
    let info = process_file(s("a.mp3"), 100, &probe).unwrap();
    assert_eq!(
        info.tags,
        vec![
            (s("comment"), s("one")),
            (s("artist"), s("me")),
            (s("comment"), s("two")),
        ]
    );
}
