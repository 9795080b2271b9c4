use vstd::prelude::*;
use crate::errors::{BlackError, ErrorKind};
use crate::interpret::{interpret_response, Interpretation};
use crate::transport::{execute_request, request_with_source};
use crate::writer::write_pyfile;

verus! {

/// Runs one file's round against the daemon, given the file's bytes
/// (`None` when the file did not exist: the round is skipped without a
/// request). `Ok(true)` means the file was rewritten, `Ok(false)` that
/// nothing needed to change.
pub fn format_pyfile(
    filepath: &str,
    source: Option<Vec<u8>>,
    builder: reqwest::blocking::RequestBuilder,
) -> (r: Result<bool, BlackError>)
    ensures
        (source is None ==> r == Ok::<bool, BlackError>(false)),
        (r == Ok::<bool, BlackError>(true) ==> source is Some),
        (r matches Err(e) ==> e.kind != ErrorKind::FileAccess),
{
    match source {
        None => Ok(false),
        Some(bytes) => {
            let rb = request_with_source(builder, bytes);
            match execute_request(rb) {
                Err(e) => Err(e),
                Ok((status, body)) => match interpret_response(status, body, filepath) {
                    Interpretation::Rewrite(new_bytes) => write_pyfile(filepath, new_bytes),
                    Interpretation::Unchanged => Ok(false),
                    Interpretation::Reject(e) => Err(e),
                },
            }
        },
    }
}

/// Whether an outcome counts towards the "reformatted" total.
pub open spec fn counts_as_formatted(r: Result<bool, BlackError>) -> bool {
    r matches Ok(b) && b
}

/// Running totals over a batch of files.
pub struct BatchTally {
    pub formatted: u32,
    pub skipped: u32,
}

impl BatchTally {
    pub fn new() -> (t: BatchTally)
        ensures
            t.formatted == 0,
            t.skipped == 0,
    {
        BatchTally { formatted: 0, skipped: 0 }
    }

    /// Folds one per-file outcome into the totals: every outcome is
    /// counted exactly once, whether it succeeded or failed, so one
    /// file's failure never stops the bookkeeping of the rest.
    pub fn record(&mut self, outcome: &Result<bool, BlackError>)
        requires
            old(self).formatted < u32::MAX,
            old(self).skipped < u32::MAX,
        ensures
            final(self).formatted == old(self).formatted + (if counts_as_formatted(*outcome) {
                1int
            } else {
                0int
            }),
            final(self).skipped == old(self).skipped + (if counts_as_formatted(*outcome) {
                0int
            } else {
                1int
            }),
            final(self).formatted + final(self).skipped == old(self).formatted + old(
                self,
            ).skipped + 1,
    {
        match outcome {
            Ok(changed) => {
                if *changed {
                    self.formatted = self.formatted + 1;
                } else {
                    self.skipped = self.skipped + 1;
                }
            },
            Err(_) => {
                self.skipped = self.skipped + 1;
            },
        }
    }
}

} // verus!
