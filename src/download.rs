use vstd::prelude::*;
use crate::error::{retryable_spec, FetchError};

verus! {

/// Why a download ended without a verified payload.
#[derive(Clone, Copy, Debug, PartialEq, Eq, Structural)]
pub enum DownloadError {
    /// The server answered with a status other than 200 or 206.
    Status(u16),
    /// A fetch failed in a way that another attempt would not mend.
    Fetch(FetchError),
    /// The payload arrived whole but its digest differs from the expected one.
    Integrity,
}

/// What to do after one ranged fetch.
#[derive(Clone, Copy, Debug, PartialEq, Eq, Structural)]
pub enum Decision {
    /// Request the next range at once.
    Continue,
    /// Wait the backoff interval, then request the same range again.
    Retry,
    /// The server has nothing beyond what was received: the payload is whole.
    Complete,
    /// Stop: the download has failed.
    Fail(DownloadError),
}

/// The fixed wait before a retried request, in milliseconds.
pub const BACKOFF_MS: u64 = 100;

pub open spec fn view_fetch(r: Result<(u16, Vec<u8>), FetchError>) -> Result<(u16, Seq<u8>), FetchError> {
    match r {
        Ok((c, b)) => Ok((c, b@)),
        Err(e) => Err(e),
    }
}

/// The payload after a fetch that was answered with `result`.
pub open spec fn next_payload(data: Seq<u8>, result: Result<(u16, Seq<u8>), FetchError>) -> Seq<u8> {
    match result {
        Ok((c, b)) => if c == 200 || c == 206 {
            data + b
        } else {
            data
        },
        Err(_) => data,
    }
}

/// The decision after a fetch from offset `data.len()` answered with `result`.
/// A 206 with an empty body after some bytes were received completes the
/// download; any other 200 or 206 continues; another status is fatal;
/// a failed fetch is retried when it is retryable and fatal otherwise.
pub open spec fn decision_spec(data: Seq<u8>, result: Result<(u16, Seq<u8>), FetchError>) -> Decision {
    match result {
        Ok((c, b)) => if c == 200 || c == 206 {
            if c == 206 && b.len() == 0 && data.len() > 0 {
                Decision::Complete
            } else {
                Decision::Continue
            }
        } else {
            Decision::Fail(DownloadError::Status(c))
        },
        Err(e) => if retryable_spec(e) {
            Decision::Retry
        } else {
            Decision::Fail(DownloadError::Fetch(e))
        },
    }
}

/// The payload is never truncated or reordered: after any fetch it still
/// starts with what it held before, and it grows only on a 200 or 206.
pub proof fn lemma_payload_only_grows(data: Seq<u8>, result: Result<(u16, Seq<u8>), FetchError>)
    ensures
        next_payload(data, result).len() >= data.len(),
        next_payload(data, result).subrange(0, data.len() as int) == data,
        next_payload(data, result).len() > data.len() ==> (result matches Ok((c, _)) && (c == 200 || c == 206)),
{
    assert(next_payload(data, result).subrange(0, data.len() as int) =~= data);
}

/// The accumulated payload of one download. Its length is the offset of the
/// next range request; it only ever grows at its end.
pub struct Download {
    data: Vec<u8>,
}

impl View for Download {
    type V = Seq<u8>;

    closed spec fn view(&self) -> Seq<u8> {
        self.data@
    }
}

impl Download {
    pub fn new() -> (r: Download)
        ensures
            r@ == Seq::<u8>::empty(),
    {
        Download { data: Vec::new() }
    }

    /// The offset at which the next range starts: the number of bytes received.
    pub fn next_offset(&self) -> (r: usize)
        ensures
            r == self@.len(),
    {
        self.data.len()
    }

    /// Takes in the outcome of the fetch that started at `next_offset()`.
    pub fn on_fetch(&mut self, result: Result<(u16, Vec<u8>), FetchError>) -> (d: Decision)
        ensures
            final(self)@ == next_payload(old(self)@, view_fetch(result)),
            d == decision_spec(old(self)@, view_fetch(result)),
    {
        match result {
            Ok((status, body)) => {
                if status == 200 || status == 206 {
                    let start = self.data.len();
                    let empty = body.len() == 0;
                    let mut body = body;
                    self.data.append(&mut body);
                    if status == 206 && empty && start > 0 {
                        Decision::Complete
                    } else {
                        Decision::Continue
                    }
                } else {
                    Decision::Fail(DownloadError::Status(status))
                }
            },
            Err(e) => {
                if e.is_retryable() {
                    Decision::Retry
                } else {
                    Decision::Fail(DownloadError::Fetch(e))
                }
            },
        }
    }

    pub fn data(&self) -> (r: &Vec<u8>)
        ensures
            r@ == self@,
    {
        &self.data
    }

    pub fn into_data(self) -> (r: Vec<u8>)
        ensures
            r@ == self@,
    {
        self.data
    }
}

} // verus!
