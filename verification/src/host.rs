//! Decisions of a host call: the host reads the request from guest memory,
//! runs one step of the forward pass, and writes the answer back.  The
//! memory accesses are the host's; what happens after each of them is
//! decided here.
use vstd::prelude::*;

verus! {

/// Status returned to the guest when a call fails.
pub const HOST_FAILURE: i32 = -1;

/// What the host does next.
pub enum HostAction {
    /// Run the operation on these request bytes.
    Run(Vec<u8>),
    /// Write these answer bytes to guest memory.
    Write(Vec<u8>),
    /// Return this status to the guest.
    Finish(i32),
}

/// After guest memory was read: run the operation, or fail when the
/// request could not be read.
pub fn on_read(request: Option<Vec<u8>>) -> (a: HostAction)
    ensures
        match request {
            Some(bytes) => a == HostAction::Run(bytes),
            None => a == HostAction::Finish(HOST_FAILURE),
        },
{
    match request {
        Some(bytes) => HostAction::Run(bytes),
        None => HostAction::Finish(HOST_FAILURE),
    }
}

/// After the operation ran: write its answer when it succeeded and fits in
/// `out_max` bytes, fail otherwise.
pub fn on_answer(answer: Result<Vec<u8>, &'static str>, out_max: u32) -> (a: HostAction)
    ensures
        match answer {
            Ok(out) => if out@.len() <= out_max {
                a == HostAction::Write(out)
            } else {
                a == HostAction::Finish(HOST_FAILURE)
            },
            Err(_) => a == HostAction::Finish(HOST_FAILURE),
        },
{
    match answer {
        Ok(out) => {
            if out.len() as u64 > out_max as u64 {
                HostAction::Finish(HOST_FAILURE)
            } else {
                HostAction::Write(out)
            }
        },
        Err(_) => HostAction::Finish(HOST_FAILURE),
    }
}

/// After the answer of `len` bytes was (or was not) written: its length
/// as the status, or failure.
pub fn on_written(len: usize, written: bool) -> (a: HostAction)
    ensures
        a == HostAction::Finish(if written { len as i32 } else { HOST_FAILURE }),
{
    if written {
        #[verifier::truncate]
        let status = len as i32;
        HostAction::Finish(status)
    } else {
        HostAction::Finish(HOST_FAILURE)
    }
}

} // verus!
