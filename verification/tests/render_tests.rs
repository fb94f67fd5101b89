use audioinfo::batch::RunState;
use audioinfo::info::AudioInfo;
use audioinfo::render_csv::output_csv;
use audioinfo::render_json::{json_compact, output_json};
use audioinfo::render_text::output_text;
use audioinfo::strutil::u64_to_string;

fn s(x: &str) -> String {
    x.to_string()
}

fn full_info() -> AudioInfo {
    AudioInfo {
        file_path: s("a.mp3"),
        sample_rate: Some(44100),
        channels: Some(2),
        duration_seconds: Some(12),
        avg_bitrate_kbps: Some(128),
        tags: vec![(s("title"), s("Hello")), (s("artist"), s("Me"))],
        file_size_bytes: 196608,
        codec: Some(s("0x1001")),
    }
}

fn bare_info() -> AudioInfo {
    AudioInfo {
        file_path: s("b.wav"),
        sample_rate: None,
        channels: None,
        duration_seconds: None,
        avg_bitrate_kbps: None,
        tags: vec![],
        file_size_bytes: 42,
        codec: None,
    }
}

#[test]
fn decimal_rendering_is_exact() {
    assert_eq!(u64_to_string(0), "0");
    assert_eq!(u64_to_string(7), "7");
    assert_eq!(u64_to_string(1234567890), "1234567890");
    assert_eq!(u64_to_string(u64::MAX), "18446744073709551615");
}

#[test]
fn text_block_prints_every_known_field() {
    let out = output_text(&vec![full_info()], false);
    assert_eq!(
        out,
        "file: a.mp3\n\
         codec: 0x1001\n\
         sample_rate: 44100\n\
         channels: 2\n\
         duration: 12.00s\n\
         avg_bitrate_kbps: 128\n\
         file_size_bytes: 196608\n\
         title: Hello\n\
         artist: Me\n"
    );
}

#[test]
fn text_mixed_durations_use_unknown_only_where_absent() {
    let out = output_text(&vec![full_info(), bare_info()], false);
    assert_eq!(out.matches("duration: unknown").count(), 1);
    assert_eq!(out.matches("duration: 12.00s").count(), 1);
    // Blocks are separated by one blank line.
    assert_eq!(
        out,
        "file: a.mp3\n\
         codec: 0x1001\n\
         sample_rate: 44100\n\
         channels: 2\n\
         duration: 12.00s\n\
         avg_bitrate_kbps: 128\n\
         file_size_bytes: 196608\n\
         title: Hello\n\
         artist: Me\n\
         \n\
         file: b.wav\n\
         duration: unknown\n\
         file_size_bytes: 42\n"
    );
}

#[test]
fn basic_mode_omits_tags_only_in_text() {
    let out = output_text(&vec![full_info()], true);
    assert!(!out.contains("title"));
    assert!(out.contains("file_size_bytes: 196608\n"));
}

#[test]
fn csv_has_header_and_one_row_per_file() {
    let out = output_csv(&vec![full_info(), bare_info()]);
    let lines: Vec<&str> = out.lines().collect();
    assert_eq!(lines.len(), 3);
    assert_eq!(
        lines[0],
        "file_path,codec,sample_rate,channels,duration_seconds,avg_bitrate_kbps,file_size_bytes"
    );
    assert_eq!(lines[1], "a.mp3,0x1001,44100,2,12.00,128,196608");
    assert_eq!(lines[2], "b.wav,,,,,,42");
    for line in &lines {
        assert_eq!(line.matches(',').count(), 6);
    }
    assert!(!out.contains("title"));
}

#[test]
fn compact_json_is_exact_for_known_values() {
    let out = json_compact(&vec![bare_info()]);
    assert_eq!(
        out,
        "[{\"file_path\":\"b.wav\",\"codec\":null,\"sample_rate\":null,\"channels\":null,\
         \"duration_seconds\":null,\"avg_bitrate_kbps\":null,\"file_size_bytes\":42,\"tags\":{}}]"
    );
}

#[test]
fn json_round_trips_structurally() {
    let infos = vec![full_info(), bare_info()];
    let pretty = output_json(&infos);
    let parsed: serde_json::Value = serde_json::from_str(&pretty).unwrap();
    let arr = parsed.as_array().unwrap();
    assert_eq!(arr.len(), 2);
    for obj in arr {
        let map = obj.as_object().unwrap();
        assert_eq!(map.len(), 8);
        for key in [
            "file_path",
            "codec",
            "sample_rate",
            "channels",
            "duration_seconds",
            "avg_bitrate_kbps",
            "file_size_bytes",
            "tags",
        ] {
            assert!(map.contains_key(key));
        }
        assert!(map["tags"].is_object());
    }
    assert_eq!(arr[0]["sample_rate"], serde_json::Value::from(44100u64));
    assert!(arr[1]["sample_rate"].is_null());
    // The pretty form really was re-encoded.
    assert!(pretty.contains('\n'));
    assert_ne!(pretty, json_compact(&infos));
}

#[test]
fn json_tags_keep_the_last_duplicate_and_sort_keys() {
    let mut info = bare_info();
    info.tags = vec![
        (s("comment"), s("first")),
        (s("artist"), s("me")),
        (s("comment"), s("second")),
    ];
    let out = json_compact(&vec![info]);
    assert!(out.contains("\"tags\":{\"artist\":\"me\",\"comment\":\"second\"}"));
    let parsed: serde_json::Value = serde_json::from_str(&out).unwrap();
    let tags = parsed[0]["tags"].as_object().unwrap();
    assert_eq!(tags.len(), 2);
    assert_eq!(tags["comment"], serde_json::Value::from("second"));
}

#[test]
fn json_escapes_special_characters() {
    let mut info = bare_info();
    info.file_path = s("we\"ird\\pa\nth.mp3");
    let out = json_compact(&vec![info]);
    let parsed: serde_json::Value = serde_json::from_str(&out).unwrap();
    assert_eq!(
        parsed[0]["file_path"],
        serde_json::Value::from("we\"ird\\pa\nth.mp3")
    );
}

#[test]
fn run_state_applies_the_keep_going_policy() {
    let mut run = RunState::new();
    assert!(!run.any_results());
    assert_eq!(run.exit_code(), 0);
    run.record_success(full_info());
    assert!(run.any_results());
    // A failure without keep-going aborts; with it, the run goes on, but the
    // exit code stays non-zero either way.
    assert!(run.record_failure(false));
    let mut keep = RunState::new();
    assert!(!keep.record_failure(true));
    keep.record_success(full_info());
    assert!(keep.any_results());
    assert_eq!(keep.exit_code(), 1);
    assert_eq!(run.exit_code(), 1);
}
