//! Diff loading requests and what the worker computes for them. Threads,
//! channels and the reading of contents happen outside this module, but
//! for taking the queued requests off a channel.

use vstd::prelude::*;
use crate::diff::DiffResult;
use crate::repo::{ChangedFile, DiffSource};
use crate::text::TextBuffer;

verus! {

/// A request to load one file's diff.
#[derive(Debug)]
pub struct DiffLoadRequest {
    pub id: u64,
    pub source: DiffSource,
    pub cached_merge_base: Option<String>,
    pub file: ChangedFile,
}

/// What the worker answers.
#[derive(Debug)]
pub enum DiffLoadResponse {
    Loaded {
        id: u64,
        old_buffer: TextBuffer,
        new_buffer: TextBuffer,
        diff: Option<DiffResult>,
        is_binary: bool,
    },
    Error { id: u64, message: String },
}

/// The answer for request `id` whose contents were read as `old_bytes` and
/// `new_bytes`: both buffers, and their diff unless either is binary.
pub fn diff_payload(id: u64, old_bytes: &[u8], new_bytes: &[u8]) -> (r: DiffLoadResponse)
    ensures
        r matches DiffLoadResponse::Loaded { id: rid, old_buffer, new_buffer, diff, is_binary } && {
            &&& rid == id
            &&& old_buffer@ == crate::text::crlf_normalized(old_bytes@)
            &&& new_buffer@ == crate::text::crlf_normalized(new_bytes@)
            &&& is_binary == (old_buffer.spec_binary() || new_buffer.spec_binary())
            &&& is_binary <==> diff is None
            &&& diff matches Some(d) ==> d.spec_rows() == crate::diff::diff_rows(
                crate::diff::text_lines(old_buffer@),
                crate::diff::text_lines(new_buffer@),
            ) && d.spec_hunks() == crate::diff::hunks_of(d.spec_rows(), 3)
        },
{
    let old_buffer = TextBuffer::new(old_bytes);
    let new_buffer = TextBuffer::new(new_bytes);
    let is_binary = old_buffer.is_binary() || new_buffer.is_binary();
    let diff = if is_binary {
        None
    } else {
        Some(DiffResult::compute(&old_buffer, &new_buffer))
    };
    DiffLoadResponse::Loaded { id, old_buffer, new_buffer, diff, is_binary }
}

/// The request that counts: the last one queued, or `first` when none was.
pub fn latest_of(first: DiffLoadRequest, queued: Vec<DiffLoadRequest>) -> (r: DiffLoadRequest)
    ensures
        queued@.len() == 0 ==> r == first,
        queued@.len() > 0 ==> r == queued@.last(),
{
    let mut queued = queued;
    match queued.pop() {
        Some(last) => last,
        None => first,
    }
}

#[verifier::external_type_specification]
#[verifier::external_body]
#[verifier::reject_recursive_types(T)]
pub struct ExReceiver<T>(std::sync::mpsc::Receiver<T>);

/// `Receiver::try_recv`: the next queued request, or `None` when nothing is
/// queued (or every sender is gone). What is queued depends on other
/// threads: nothing is stated of the result.
#[verifier::external_body]
fn try_recv_request(rx: &std::sync::mpsc::Receiver<DiffLoadRequest>) -> Option<DiffLoadRequest> {
    rx.try_recv().ok()
}

/// Take every request already queued and keep the latest: `req` when none
/// is queued. (It stops after `usize::MAX` requests, more than memory can
/// hold.)
pub fn drain_latest_request(req: DiffLoadRequest, request_rx: &std::sync::mpsc::Receiver<DiffLoadRequest>) -> (r:
    DiffLoadRequest) {
    let mut latest = req;
    let mut taken: usize = 0;
    while taken < usize::MAX
        decreases usize::MAX - taken,
    {
        match try_recv_request(request_rx) {
            Some(next) => {
                latest = next;
                taken = taken + 1;
            },
            None => {
                break;
            },
        }
    }
    latest
}

} // verus!
