//! The boundary to whatever carries a transaction out.

use crate::lifecycle::Verdict;
use vstd::prelude::*;

verus! {

/// Builds, signs and submits the transaction that a payload describes, and
/// reports how the attempt went.
///
/// An adapter sees the payload only. The status, the retry count and the
/// identifier of the task stay with the scheduler. A timeout is reported as
/// a failure of one of the two kinds.
pub trait ExecutionAdapter {
    /// What one attempt may come to: whether the adapter, as it stands, may
    /// answer `verdict` to `payload` and be as `next` afterwards.
    ///
    /// An adapter whose answers depend on the network admits them all, and
    /// so does every adapter that does not say otherwise.
    open spec fn may_answer(&self, payload: Seq<char>, verdict: Verdict, next: &Self) -> bool {
        true
    }

    /// Makes one attempt at the transaction described by `payload`.
    fn attempt(&mut self, payload: &str) -> (verdict: Verdict)
        ensures
            old(self).may_answer(payload@, verdict, final(self)),
    ;
}

/// An adapter that reports every attempt as a success without doing
/// anything: the adapter of a scheduler that was given none.
#[derive(Clone, Copy, Debug, Default)]
pub struct DryRun;

impl ExecutionAdapter for DryRun {
    open spec fn may_answer(&self, payload: Seq<char>, verdict: Verdict, next: &Self) -> bool {
        verdict is Success
    }

    fn attempt(&mut self, payload: &str) -> (verdict: Verdict) {
        Verdict::Success
    }
}

} // verus!
