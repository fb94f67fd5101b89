use audioinfo::classify::is_audio_file;

#[test]
fn accepts_each_allowed_extension() {
    assert!(is_audio_file("song.mp3"));
    assert!(is_audio_file("song.flac"));
    assert!(is_audio_file("song.ogg"));
    assert!(is_audio_file("song.wav"));
    assert!(is_audio_file("song.aac"));
    assert!(is_audio_file("song.m4a"));
    assert!(is_audio_file("song.wma"));
}

#[test]
fn accepts_case_variants() {
    assert!(is_audio_file("song.FLAC"));
    assert!(is_audio_file("song.Mp3"));
    assert!(is_audio_file("song.WAV"));
    assert!(is_audio_file("song.M4A"));
    assert!(is_audio_file("a/b/song.OgG"));
}

#[test]
fn rejects_unknown_or_missing_extension() {
    assert!(!is_audio_file("notes.txt"));
    assert!(!is_audio_file("song.mp33"));
    assert!(!is_audio_file("song"));
    assert!(!is_audio_file(""));
    assert!(!is_audio_file("song.mp3.bak"));
    assert!(!is_audio_file("archive.tar.gz"));
}

#[test]
fn extension_belongs_to_final_component() {
    assert!(!is_audio_file(".mp3"));
    assert!(!is_audio_file("dir/.mp3"));
    assert!(!is_audio_file("a.mp3/file"));
    assert!(is_audio_file("dir.d/track.mp3"));
    assert!(is_audio_file("weird..mp3"));
}
