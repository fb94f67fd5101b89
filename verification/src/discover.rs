//! The file discoverer: expands user-supplied inputs, as the file system
//! resolved them, into the ordered list of candidate audio files, and decides
//! what to do with each line read from standard input.

use vstd::prelude::*;
use crate::classify::is_audio_file;
use crate::classify::is_audio_path;
use crate::info::DiscoveryError;

verus! {

/// One user-supplied path as the file system resolved it.
pub enum FsEntry {
    /// The path names a regular file.
    File(String),
    /// The path names a directory; the second field holds the paths of the
    /// regular files found by walking it, in walk order. It may be left
    /// empty when walking is off, since discovery then fails on the
    /// directory itself.
    Directory(String, Vec<String>),
    /// The path exists as neither file nor directory.
    Missing(String),
}

/// Whether one resolved entry passes discovery under the given policy:
/// files always do, directories only when walking is on, missing paths
/// never.
pub open spec fn entry_ok(e: FsEntry, recursive: bool) -> bool {
    match e {
        FsEntry::File(_) => true,
        FsEntry::Directory(_, _) => recursive,
        FsEntry::Missing(_) => false,
    }
}

/// The error the first offending entry raises: a missing path is a
/// file-not-found error, a directory without walking names the directory.
pub open spec fn entry_error(e: FsEntry) -> DiscoveryError {
    match e {
        FsEntry::File(_) => DiscoveryError::NoAudioFiles,
        FsEntry::Directory(p, _) => DiscoveryError::IsDirectory(p),
        FsEntry::Missing(p) => DiscoveryError::FileNotFound(p),
    }
}

/// The audio files among a sequence of walked paths, in order.
pub open spec fn audio_filter(paths: Seq<String>) -> Seq<Seq<char>>
    decreases paths.len(),
{
    if paths.len() == 0 {
        Seq::empty()
    } else {
        audio_filter(paths.drop_last()) + (if is_audio_path(paths.last()@) {
            seq![paths.last()@]
        } else {
            Seq::<Seq<char>>::empty()
        })
    }
}

/// The audio files one passing entry contributes, in order: a regular file
/// only if it passes the classifier, a directory all audio files of its
/// walk, a missing path nothing.
pub open spec fn entry_files(e: FsEntry) -> Seq<Seq<char>> {
    match e {
        FsEntry::File(p) => if is_audio_path(p@) {
            seq![p@]
        } else {
            Seq::<Seq<char>>::empty()
        },
        FsEntry::Directory(_, walked) => audio_filter(walked@),
        FsEntry::Missing(_) => Seq::empty(),
    }
}

/// The audio files discovered from a sequence of entries that all pass, in
/// order.
pub open spec fn collected(entries: Seq<FsEntry>) -> Seq<Seq<char>>
    decreases entries.len(),
{
    if entries.len() == 0 {
        Seq::empty()
    } else {
        collected(entries.drop_last()) + entry_files(entries.last())
    }
}

/// Expands the resolved entries, in order, into the list of audio files to
/// process. Regular files that fail the classifier are dropped silently.
/// Discovery fails on the first directory entry while walking is off,
/// naming that directory, and on the first missing path, naming that path;
/// nothing is returned from entries before it.
pub fn collect_audio_files(entries: &Vec<FsEntry>, recursive: bool) -> (r: Result<
    Vec<String>,
    DiscoveryError,
>)
    ensures
        (r is Ok) <==> (forall|i: int|
            0 <= i < entries@.len() ==> entry_ok(#[trigger] entries@[i], recursive)),
        r is Ok ==> r->Ok_0.deep_view() == collected(entries@),
        r is Err ==> exists|i: int|
            0 <= i < entries@.len() && !entry_ok(#[trigger] entries@[i], recursive) && (forall|
                j: int,
            |
                0 <= j < i ==> entry_ok(#[trigger] entries@[j], recursive)) && r->Err_0
                == entry_error(entries@[i]),
{
    let mut files: Vec<String> = Vec::new();
    let mut idx: usize = 0;
    proof {
        assert(files.deep_view() =~= collected(entries@.take(0)));
    }
    while idx < entries.len()
        invariant
            0 <= idx <= entries@.len(),
            forall|j: int| 0 <= j < idx ==> entry_ok(#[trigger] entries@[j], recursive),
            files.deep_view() == collected(entries@.take(idx as int)),
        decreases entries@.len() - idx,
    {
        proof {
            assert(entries@.take(idx as int + 1).drop_last() =~= entries@.take(idx as int));
            assert(entries@.take(idx as int + 1).last() == entries@[idx as int]);
        }
        match &entries[idx] {
            FsEntry::File(p) => {
                if is_audio_file(p.as_str()) {
                    let ghost before = files.deep_view();
                    files.push(p.clone());
                    proof {
                        assert(files.deep_view() =~= before.push(p@));
                    }
                }
                proof {
                    assert(files.deep_view() =~= collected(entries@.take(idx as int + 1)));
                }
            },
            FsEntry::Directory(p, walked) => {
                if recursive {
                    let mut k: usize = 0;
                    proof {
                        assert(audio_filter(walked@.take(0)) =~= Seq::<Seq<char>>::empty());
                    }
                    while k < walked.len()
                        invariant
                            0 <= k <= walked@.len(),
                            files.deep_view() == collected(entries@.take(idx as int))
                                + audio_filter(walked@.take(k as int)),
                        decreases walked@.len() - k,
                    {
                        proof {
                            assert(walked@.take(k as int + 1).drop_last() =~= walked@.take(
                                k as int,
                            ));
                            assert(walked@.take(k as int + 1).last() == walked@[k as int]);
                        }
                        if is_audio_file(walked[k].as_str()) {
                            let ghost before = files.deep_view();
                            files.push(walked[k].clone());
                            proof {
                                assert(files.deep_view() =~= before.push(walked@[k as int]@));
                            }
                        }
                        proof {
                            assert(files.deep_view() =~= collected(entries@.take(idx as int))
                                + audio_filter(walked@.take(k as int + 1)));
                        }
                        k = k + 1;
                    }
                    proof {
                        assert(walked@.take(walked@.len() as int) =~= walked@);
                        assert(files.deep_view() =~= collected(entries@.take(idx as int + 1)));
                    }
                } else {
                    return Err(DiscoveryError::IsDirectory(p.clone()));
                }
            },
            FsEntry::Missing(p) => {
                return Err(DiscoveryError::FileNotFound(p.clone()));
            },
        }
        idx = idx + 1;
    }
    proof {
        assert(entries@.take(entries@.len() as int) =~= entries@);
    }
    Ok(files)
}

/// What the tool does with one path read from standard input.
#[derive(Debug, PartialEq, Eq, Structural)]
pub enum LineAction {
    /// The path names a regular file that passes the classifier: process it.
    Include,
    /// The path exists nowhere: warn on the error stream, but go on.
    WarnMissing,
    /// Anything else is skipped silently.
    Skip,
}

/// The action for one trimmed line, given what the file system said of it.
pub open spec fn line_action_spec(trimmed: Seq<char>, is_file: bool, exists: bool) -> LineAction {
    if is_file && is_audio_path(trimmed) {
        LineAction::Include
    } else if !exists {
        LineAction::WarnMissing
    } else {
        LineAction::Skip
    }
}

/// Decides what to do with one line read from standard input, already
/// trimmed; `is_file` and `exists` report what the file system said of the
/// trimmed path. A line is included only when it names a regular file that
/// passes the classifier; a path that exists nowhere draws a warning; all
/// else is skipped, and no line is ever a hard error.
pub fn stdin_line_action(trimmed: &str, is_file: bool, exists: bool) -> (a: LineAction)
    ensures
        a == line_action_spec(trimmed@, is_file, exists),
{
    if is_file && is_audio_file(trimmed) {
        LineAction::Include
    } else if !exists {
        LineAction::WarnMissing
    } else {
        LineAction::Skip
    }
}

} // verus!
