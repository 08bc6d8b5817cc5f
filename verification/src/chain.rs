//! The path source chain and the re-exec executor's outcome.
//!
//! Path sources are consulted in one fixed canonical order, the same on
//! every platform: sources that are unavailable on the running platform are
//! skipped silently. Earlier sources are more likely to still be valid after
//! the binary has been renamed or deleted; later ones are best-effort
//! approximations fixed at process start. The re-exec executor consumes a
//! restricted subset of the chain that leaves out the last-resort source,
//! whose canonicalization step traverses the filesystem and allocates and so
//! is not safe inside a signal handler.

use vstd::prelude::*;

use crate::errno::ENOENT;
use crate::errno::Fold;
use crate::errno::fold_error;
use crate::errno::is_soft;
use crate::errno::spec_fold;

verus! {

/// One source of candidate paths, in the chain's canonical order.
#[derive(Clone, Copy, Debug, PartialEq, Eq, Structural)]
pub enum PathSource {
    /// A fixed magic self-referencing filesystem entry.
    ProcfsStatic,
    /// The magic entry read as a symbolic link into a caller buffer.
    ProcfsReadlink,
    /// The absolute executable path reported by a kernel query.
    KernelReported,
    /// The loader-recorded invocation path, handed out as a pointer.
    InitialStatic,
    /// The loader-recorded invocation path, copied into a caller buffer.
    InitialBuffered,
    /// The recovered first argument, verified against the kernel-held
    /// identity of the executing image.
    LastResort,
}

/// The canonical traversal order of the validating resolver: every source,
/// last resort included.
pub open spec fn spec_resolve_sources() -> Seq<PathSource> {
    seq![PathSource::ProcfsStatic, PathSource::ProcfsReadlink, PathSource::KernelReported,
        PathSource::InitialStatic, PathSource::InitialBuffered, PathSource::LastResort]
}

/// The canonical traversal order of the re-exec executor: the allocation-free
/// subset, in the same order, without the last-resort source.
pub open spec fn spec_reexec_sources() -> Seq<PathSource> {
    seq![PathSource::ProcfsStatic, PathSource::ProcfsReadlink, PathSource::KernelReported,
        PathSource::InitialStatic, PathSource::InitialBuffered]
}

/// The sources the validating resolver consults, in order.
pub fn resolve_sources() -> (r: Vec<PathSource>)
    ensures
        r@ == spec_resolve_sources(),
{
    let r: Vec<PathSource> = vec![PathSource::ProcfsStatic, PathSource::ProcfsReadlink,
        PathSource::KernelReported, PathSource::InitialStatic, PathSource::InitialBuffered,
        PathSource::LastResort];
    proof {
        assert(r@ =~= spec_resolve_sources());
    }
    r
}

/// The sources the re-exec executor consults, in order. The last-resort
/// source is never among them: its canonicalization step is not safe inside
/// a signal handler.
pub fn reexec_sources() -> (r: Vec<PathSource>)
    ensures
        r@ == spec_reexec_sources(),
        forall|i: int| 0 <= i < r@.len() ==> r@[i] != PathSource::LastResort,
{
    let r: Vec<PathSource> = vec![PathSource::ProcfsStatic, PathSource::ProcfsReadlink,
        PathSource::KernelReported, PathSource::InitialStatic, PathSource::InitialBuffered];
    proof {
        assert(r@ =~= spec_reexec_sources());
    }
    r
}

/// The restricted set is the full canonical order with the last-resort
/// source removed: same sources, same order, nothing else dropped.
pub proof fn lemma_reexec_sources_restrict_resolve()
    ensures
        spec_reexec_sources() == spec_resolve_sources().take(spec_reexec_sources().len() as int),
        forall|i: int| 0 <= i < spec_reexec_sources().len() ==> spec_reexec_sources()[i]
            != PathSource::LastResort,
        spec_resolve_sources().last() == PathSource::LastResort,
{
    assert(spec_reexec_sources() =~= spec_resolve_sources().take(
        spec_reexec_sources().len() as int));
}

/// What one source's direct exec attempt came to. An unavailable source was
/// skipped; an attempted one always reports the error code the
/// process-image-replace call left behind, because if that call had
/// succeeded control would never have come back.
#[derive(Clone, Copy, Debug, PartialEq, Eq, Structural)]
pub enum ExecAttempt {
    /// The source does not apply on the running platform.
    Unavailable,
    /// The source yielded a candidate, the exec call returned, and this is
    /// the error code it reported.
    Returned(i32),
}

/// The terminal error of a re-exec traversal: attempts are folded in order
/// into the aggregated error until a hard code stops the chain.
pub open spec fn spec_reexec_outcome(attempts: Seq<ExecAttempt>, best: i32) -> i32
    decreases attempts.len(),
{
    if attempts.len() == 0 {
        best
    } else {
        match attempts[0] {
            ExecAttempt::Unavailable => spec_reexec_outcome(attempts.skip(1), best),
            ExecAttempt::Returned(e) => match spec_fold(best, e) {
                Fold::Continue(b) => spec_reexec_outcome(attempts.skip(1), b),
                Fold::Stop(h) => h,
            },
        }
    }
}

/// Decide the error a re-exec traversal ends with, given what each candidate
/// attempt in canonical order came to. Control only reaches this decision
/// when every exec attempt returned, so the outcome is always an error code:
/// the aggregated soft code, or the first hard code.
pub fn reexec_outcome(attempts: &Vec<ExecAttempt>) -> (r: i32)
    ensures
        r == spec_reexec_outcome(attempts@, ENOENT),
{
    let mut best: i32 = ENOENT;
    let mut i: usize = 0;
    proof {
        assert(attempts@.skip(0) =~= attempts@);
    }
    while i < attempts.len()
        invariant
            0 <= i <= attempts.len(),
            is_soft(best),
            spec_reexec_outcome(attempts@, ENOENT) == spec_reexec_outcome(
                attempts@.skip(i as int), best),
        decreases attempts.len() - i,
    {
        match attempts[i] {
            ExecAttempt::Unavailable => {},
            ExecAttempt::Returned(e) => {
                match fold_error(best, e) {
                    Fold::Continue(b) => {
                        best = b;
                    },
                    Fold::Stop(h) => {
                        proof {
                            assert(attempts@.skip(i as int)[0] == attempts@[i as int]);
                        }
                        return h;
                    },
                }
            },
        }
        proof {
            assert(attempts@.skip(i as int).skip(1) =~= attempts@.skip(i as int + 1));
        }
        i = i + 1;
    }
    best
}

/// An attempt that does not stop the chain: the source was unavailable or
/// its exec attempt reported a soft code.
pub open spec fn attempt_is_soft(a: ExecAttempt) -> bool {
    match a {
        ExecAttempt::Unavailable => true,
        ExecAttempt::Returned(e) => is_soft(e),
    }
}

/// Priority policy of the aggregator: the first hard code is the outcome,
/// and nothing after it is even consulted — the outcome over the whole
/// traversal equals the outcome over the prefix that ends at the hard code.
pub proof fn lemma_hard_code_stops_chain(attempts: Seq<ExecAttempt>, best: i32, i: int)
    requires
        is_soft(best),
        0 <= i < attempts.len(),
        attempts[i] matches ExecAttempt::Returned(e) && !is_soft(e),
        forall|j: int| 0 <= j < i ==> attempt_is_soft(#[trigger] attempts[j]),
    ensures
        spec_reexec_outcome(attempts, best) == attempts[i]->0,
        spec_reexec_outcome(attempts, best) == spec_reexec_outcome(attempts.take(i + 1), best),
    decreases i,
{
    if i == 0 {
        assert(attempts.take(1)[0] == attempts[0]);
    } else {
        let tail = attempts.skip(1);
        assert(tail[i - 1] == attempts[i]);
        assert(forall|j: int| 0 <= j < i - 1 ==> attempt_is_soft(#[trigger] tail[j]));
        match attempts[0] {
            ExecAttempt::Unavailable => {
                lemma_hard_code_stops_chain(tail, best, i - 1);
                assert(attempts.take(i + 1).skip(1) =~= tail.take(i));
                assert(attempts.take(i + 1)[0] == attempts[0]);
            },
            ExecAttempt::Returned(e) => {
                assert(is_soft(e));
                let b = spec_fold(best, e)->Continue_0;
                assert(is_soft(b));
                lemma_hard_code_stops_chain(tail, b, i - 1);
                assert(attempts.take(i + 1).skip(1) =~= tail.take(i));
                assert(attempts.take(i + 1)[0] == attempts[0]);
            },
        }
    }
}

/// All-unavailable chain: when every source is skipped, the outcome is the
/// default "no such entity" code.
pub proof fn lemma_all_unavailable_defaults(attempts: Seq<ExecAttempt>)
    requires
        forall|j: int| 0 <= j < attempts.len() ==> #[trigger] attempts[j]
            == ExecAttempt::Unavailable,
    ensures
        spec_reexec_outcome(attempts, ENOENT) == ENOENT,
    decreases attempts.len(),
{
    if attempts.len() > 0 {
        lemma_all_unavailable_defaults(attempts.skip(1));
    }
}

} // verus!
