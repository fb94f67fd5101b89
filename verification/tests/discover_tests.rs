use audioinfo::batch::require_nonempty;
use audioinfo::discover::{collect_audio_files, stdin_line_action, FsEntry, LineAction};
use audioinfo::info::DiscoveryError;
use audioinfo::strutil::trim;

fn s(x: &str) -> String {
    x.to_string()
}

#[test]
fn explicit_files_keep_order_and_drop_non_audio() {
    let entries = vec![
        FsEntry::File(s("a.mp3")),
        FsEntry::File(s("b.txt")),
        FsEntry::File(s("c.flac")),
    ];
    let files = collect_audio_files(&entries, false).unwrap();
    assert_eq!(files, vec![s("a.mp3"), s("c.flac")]);
}

#[test]
fn directory_without_recursive_fails_naming_it() {
    let entries = vec![
        FsEntry::File(s("a.mp3")),
        FsEntry::Directory(s("music"), vec![]),
        FsEntry::File(s("c.flac")),
    ];
    match collect_audio_files(&entries, false) {
        Err(DiscoveryError::IsDirectory(p)) => {
            assert_eq!(p, s("music"));
            let msg = DiscoveryError::IsDirectory(p).message();
            assert_eq!(
                msg,
                "music is a directory (use --recursive to process directories)"
            );
        }
        _ => panic!("expected a directory error"),
    }
}

#[test]
fn missing_path_fails_naming_exactly_it() {
    let entries = vec![
        FsEntry::File(s("a.mp3")),
        FsEntry::Missing(s("gone.mp3")),
        FsEntry::File(s("c.flac")),
    ];
    match collect_audio_files(&entries, false) {
        Err(DiscoveryError::FileNotFound(p)) => {
            assert_eq!(p, s("gone.mp3"));
            let msg = DiscoveryError::FileNotFound(p).message();
            assert_eq!(msg, "File not found: gone.mp3");
        }
        _ => panic!("expected a file-not-found error"),
    }
}

#[test]
fn recursive_walk_filters_by_classifier() {
    let walked = vec![s("d/x.mp3"), s("d/notes.txt"), s("d/z.OGG")];
    let entries = vec![FsEntry::Directory(s("d"), walked)];
    let files = collect_audio_files(&entries, true).unwrap();
    assert_eq!(files, vec![s("d/x.mp3"), s("d/z.OGG")]);
}

#[test]
fn stdin_lines_warn_only_for_missing_paths() {
    assert_eq!(stdin_line_action("a.mp3", true, true), LineAction::Include);
    assert_eq!(
        stdin_line_action("missing.mp3", false, false),
        LineAction::WarnMissing
    );
    assert_eq!(stdin_line_action("notes.txt", true, true), LineAction::Skip);
    assert_eq!(stdin_line_action("somedir", false, true), LineAction::Skip);
}

#[test]
fn stdin_lines_are_trimmed() {
    assert_eq!(trim("  a.mp3 \r\n"), s("a.mp3"));
    assert_eq!(trim("a.mp3"), s("a.mp3"));
    assert_eq!(trim("   \t "), s(""));
    assert_eq!(trim(""), s(""));
}

#[test]
fn empty_discovery_fails_the_run() {
    match require_nonempty(vec![]) {
        Err(e) => assert_eq!(e.message(), "No audio files found"),
        Ok(_) => panic!("expected an error for an empty list"),
    }
    let kept = require_nonempty(vec![s("a.mp3")]).unwrap();
    assert_eq!(kept, vec![s("a.mp3")]);
}
