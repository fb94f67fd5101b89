//! The batch driver's decisions: the accumulating run state, the
//! continue-versus-abort policy on a per-file failure, and the final exit
//! code.

use vstd::prelude::*;
use crate::info::AudioInfo;
use crate::info::DiscoveryError;

verus! {

/// The state a run accumulates while the discovered files are processed in
/// order: the successful results, and whether any failure occurred.
pub struct RunState {
    pub results: Vec<AudioInfo>,
    pub had_errors: bool,
}

impl RunState {
    /// A fresh run: no results, no errors yet.
    pub fn new() -> (s: Self)
        ensures
            s.results@.len() == 0,
            s.had_errors == false,
    {
        RunState { results: Vec::new(), had_errors: false }
    }

    /// Appends one successful result, in processing order.
    pub fn record_success(&mut self, info: AudioInfo)
        ensures
            final(self).results@ == old(self).results@.push(info),
            final(self).had_errors == old(self).had_errors,
    {
        self.results.push(info);
    }

    /// Records one per-file failure and decides whether the run stops here:
    /// it does exactly when keep-going mode is off. The failure is
    /// remembered either way.
    pub fn record_failure(&mut self, keep_going: bool) -> (abort: bool)
        ensures
            final(self).had_errors == true,
            final(self).results@ == old(self).results@,
            abort == !keep_going,
    {
        self.had_errors = true;
        !keep_going
    }

    /// Whether any results were produced, and so whether anything is
    /// rendered.
    pub fn any_results(&self) -> (b: bool)
        ensures
            b == (self.results@.len() > 0),
    {
        self.results.len() > 0
    }

    /// The process exit code: zero only for a run without any failure.
    pub fn exit_code(&self) -> (c: i32)
        ensures
            c == (if self.had_errors {
                1int
            } else {
                0int
            }),
    {
        if self.had_errors {
            1
        } else {
            0
        }
    }
}

/// After discovery, an empty file list fails the whole run.
pub fn require_nonempty(files: Vec<String>) -> (r: Result<Vec<String>, DiscoveryError>)
    ensures
        (r is Err) <==> files@.len() == 0,
        r is Err ==> r->Err_0 == DiscoveryError::NoAudioFiles,
        r is Ok ==> r->Ok_0 == files,
{
    if files.len() == 0 {
        Err(DiscoveryError::NoAudioFiles)
    } else {
        Ok(files)
    }
}

} // verus!
