//! Scenarios that drive several library functions together, the way the
//! surrounding program does: discovery, per-file processing under the
//! keep-going policy, and rendering of the partial results.

use audioinfo::batch::{require_nonempty, RunState};
use audioinfo::discover::{collect_audio_files, FsEntry};
use audioinfo::extract::process_file;
use audioinfo::info::{DiscoveryError, ProbeData, TrackData};
use audioinfo::render_text::output_text;

fn s(x: &str) -> String {
    x.to_string()
}

fn good_probe() -> ProbeData {
    ProbeData {
        tracks: vec![TrackData {
            sample_rate: Some(8000),
            channel_bits: Some(1),
            time_base: Some((1, 8000)),
            n_frames: Some(16000),
            codec: Some(s("0x2000")),
        }],
        tags: vec![],
    }
}

fn bad_probe() -> ProbeData {
    ProbeData { tracks: vec![], tags: vec![] }
}

#[test]
fn keep_going_renders_partial_results_with_nonzero_exit() {
    let batch = vec![
        (s("a.wav"), good_probe()),
        (s("broken.wav"), bad_probe()),
        (s("c.wav"), good_probe()),
    ];
    let mut run = RunState::new();
    let keep_going = true;
    for (path, probe) in &batch {
        match process_file(path.clone(), 4000, probe) {
            Ok(info) => run.record_success(info),
            Err(_) => {
                assert!(!run.record_failure(keep_going));
            }
        }
    }
    assert!(run.any_results());
    assert_eq!(run.results.len(), 2);
    let text = output_text(&run.results, true);
    assert!(text.contains("file: a.wav\n"));
    assert!(text.contains("file: c.wav\n"));
    assert!(!text.contains("broken.wav"));
    assert_eq!(run.exit_code(), 1);
}

#[test]
fn without_keep_going_the_run_stops_at_the_first_failure() {
    let batch = vec![
        (s("broken.wav"), bad_probe()),
        (s("c.wav"), good_probe()),
    ];
    let mut run = RunState::new();
    let mut aborted = false;
    for (path, probe) in &batch {
        match process_file(path.clone(), 4000, probe) {
            Ok(info) => run.record_success(info),
            Err(_) => {
                if run.record_failure(false) {
                    aborted = true;
                    break;
                }
            }
        }
    }
    assert!(aborted);
    assert!(!run.any_results());
    assert_eq!(run.exit_code(), 1);
}

#[test]
fn directory_error_wins_over_valid_files_alongside() {
    let entries = vec![
        FsEntry::File(s("a.mp3")),
        FsEntry::File(s("b.flac")),
        FsEntry::Directory(s("albums"), vec![s("albums/hidden.mp3")]),
    ];
    match collect_audio_files(&entries, false) {
        Err(DiscoveryError::IsDirectory(p)) => assert_eq!(p, "albums"),
        _ => panic!("expected the directory to fail discovery"),
    }
}

#[test]
fn discovery_then_processing_preserves_order() {
    let entries = vec![
        FsEntry::File(s("z.wav")),
        FsEntry::File(s("a.wav")),
    ];
    let files = require_nonempty(collect_audio_files(&entries, false).unwrap()).unwrap();
    let mut run = RunState::new();
    for f in &files {
        run.record_success(process_file(f.clone(), 4000, &good_probe()).unwrap());
    }
    let text = output_text(&run.results, true);
    let z = text.find("file: z.wav").unwrap();
    let a = text.find("file: a.wav").unwrap();
    assert!(z < a);
    assert_eq!(run.exit_code(), 0);
}
