//! The validating resolver: the terminal consumer of the path source chain
//! that returns a usable path instead of exec'ing it.
//!
//! The caller gathers, per source in canonical order, what the platform
//! reported — unavailable, or a candidate path together with the outcome of
//! the executability check on it — and the resolver decides: the first
//! candidate that validates is the answer, soft failures fold into one
//! aggregated error, a hard failure stops the traversal at once. The
//! last-resort source is consumed with its identity data: an absolute
//! recovered argument is used directly, a relative one only through its
//! canonicalized form, and only when the canonical path still stats to the
//! very file identity the kernel holds for the executing image.

use vstd::prelude::*;
use vstd::seq_lib::lemma_seq_skip_of_skip;

use crate::errno::ENOENT;
use crate::errno::Fold;
use crate::errno::fold_error;
use crate::errno::is_soft;
use crate::errno::spec_fold;
use crate::last_resort::FileId;
use crate::last_resort::copy_bytes;
use crate::last_resort::last_resort_candidate;
use crate::last_resort::spec_last_resort_accepts;
use crate::path_bytes::is_absolute;
use crate::path_bytes::path_is_absolute;

verus! {

/// The outcome of the executability check on one candidate: would an exec
/// of it succeed right now, and if not, which error code the check left.
#[derive(Clone, Copy, Debug, PartialEq, Eq, Structural)]
pub enum Access {
    /// The candidate is executable by this process's effective credentials.
    Granted,
    /// The check failed and this is the error code it reported.
    Refused(i32),
}

/// What one ordinary source reported to the resolver.
pub enum Probe {
    /// The source does not apply on the running platform.
    Unavailable,
    /// The source yielded a candidate path; `constant` says whether the path
    /// is a process-wide constant (so the resolved path may borrow it) or
    /// was materialized into a scratch buffer (so it must be copied), and
    /// `access` is the executability check's outcome on it.
    Candidate { path: Vec<u8>, constant: bool, access: Access },
}

/// The spec-level shape of a `Probe`.
pub enum ProbeView {
    Unavailable,
    Candidate { path: Seq<u8>, constant: bool, access: Access },
}

impl View for Probe {
    type V = ProbeView;

    open spec fn view(&self) -> ProbeView {
        match self {
            Probe::Unavailable => ProbeView::Unavailable,
            Probe::Candidate { path, constant, access } => ProbeView::Candidate {
                path: path@,
                constant: *constant,
                access: *access,
            },
        }
    }
}

/// The canonicalized form of a relative last-resort candidate: the absolute
/// path the filesystem resolved it to, and the identity that path stats to
/// now.
pub struct CanonicalProbe {
    /// The canonical absolute path.
    pub path: Vec<u8>,
    /// The file identity the canonical path stats to.
    pub id: FileId,
}

/// The spec-level shape of a `CanonicalProbe`.
pub struct CanonicalView {
    pub path: Seq<u8>,
    pub id: FileId,
}

impl View for CanonicalProbe {
    type V = CanonicalView;

    open spec fn view(&self) -> CanonicalView {
        CanonicalView { path: self.path@, id: self.id }
    }
}

/// What the last-resort source reported to the resolver.
pub struct LastResortProbe {
    /// The recovered first command-line argument.
    pub arg0: Vec<u8>,
    /// The identity the kernel holds for the executing text image.
    pub image_id: FileId,
    /// The identity the recovered argument stats to, when it stats at all.
    pub arg0_id: Option<FileId>,
    /// The executability check's outcome on the recovered argument.
    pub access: Access,
    /// Canonicalization of the recovered argument relative to the current
    /// working directory, with a fresh stat of the canonical path; or the
    /// error code canonicalization failed with. Consulted only when the
    /// argument is relative.
    pub canonical: Result<CanonicalProbe, i32>,
}

/// The spec-level shape of a `LastResortProbe`.
pub struct LastResortView {
    pub arg0: Seq<u8>,
    pub image_id: FileId,
    pub arg0_id: Option<FileId>,
    pub access: Access,
    pub canonical: Result<CanonicalView, i32>,
}

impl View for LastResortProbe {
    type V = LastResortView;

    open spec fn view(&self) -> LastResortView {
        LastResortView {
            arg0: self.arg0@,
            image_id: self.image_id,
            arg0_id: self.arg0_id,
            access: self.access,
            canonical: match &self.canonical {
                Ok(c) => Ok(c@),
                Err(e) => Err(*e),
            },
        }
    }
}

/// Everything the platform reported for one resolution attempt: the ordinary
/// sources in canonical order, and the last-resort source where the platform
/// has one.
pub struct ResolveEnv {
    /// Ordinary sources, in the chain's canonical order.
    pub probes: Vec<Probe>,
    /// The last-resort source's report, or `None` where unavailable.
    pub last_resort: Option<LastResortProbe>,
}

/// The spec-level shape of a `ResolveEnv`.
pub struct EnvView {
    pub probes: Seq<ProbeView>,
    pub last_resort: Option<LastResortView>,
}

impl View for ResolveEnv {
    type V = EnvView;

    open spec fn view(&self) -> EnvView {
        EnvView {
            probes: self.probes@.map_values(|p: Probe| p@),
            last_resort: match &self.last_resort {
                Some(l) => Some(l@),
                None => None,
            },
        }
    }
}

/// A successfully resolved path, tagged with its ownership kind.
pub enum Resolved {
    /// A borrowed process-wide constant path.
    Constant(Vec<u8>),
    /// A freshly materialized copy.
    Copied(Vec<u8>),
}

/// The spec-level shape of a `Resolved`.
pub enum ResolvedView {
    Constant(Seq<u8>),
    Copied(Seq<u8>),
}

impl View for Resolved {
    type V = ResolvedView;

    open spec fn view(&self) -> ResolvedView {
        match self {
            Resolved::Constant(p) => ResolvedView::Constant(p@),
            Resolved::Copied(p) => ResolvedView::Copied(p@),
        }
    }
}

/// The path a resolution came to, whatever its ownership kind.
pub open spec fn resolved_path(r: ResolvedView) -> Seq<u8> {
    match r {
        ResolvedView::Constant(p) => p,
        ResolvedView::Copied(p) => p,
    }
}

/// What the resolver decides for the last-resort source. The source counts
/// as unavailable unless its acceptance rule holds (the argument names a
/// path and stats to the kernel-held image identity); a validated absolute argument is used
/// directly; a relative one goes through its canonical form, which must
/// still stat to the image identity — a mismatch means the directory moved
/// or the file was replaced, and surfaces as "no such entity" rather than a
/// possibly wrong path.
pub open spec fn spec_resolve_last(l: LastResortView, best: i32) -> Result<ResolvedView, i32> {
    if !spec_last_resort_accepts(l.arg0, l.image_id, l.arg0_id) {
        Err(best)
    } else {
        match l.access {
            Access::Refused(e) => match spec_fold(best, e) {
                Fold::Continue(b) => Err(b),
                Fold::Stop(h) => Err(h),
            },
            Access::Granted => {
                if is_absolute(l.arg0) {
                    Ok(ResolvedView::Copied(l.arg0))
                } else {
                    match l.canonical {
                        Err(e) => Err(e),
                        Ok(c) => if c.id == l.image_id {
                            Ok(ResolvedView::Copied(c.path))
                        } else {
                            Err(ENOENT)
                        },
                    }
                }
            },
        }
    }
}

/// What the resolver decides: the first candidate that validates, with soft
/// failures folded into the aggregated error and a hard failure stopping the
/// traversal at once; on exhaustion, the last-resort source, and failing
/// that the aggregated error.
pub open spec fn spec_resolve_probes(probes: Seq<ProbeView>, last: Option<LastResortView>,
    best: i32) -> Result<ResolvedView, i32>
    decreases probes.len(),
{
    if probes.len() == 0 {
        match last {
            None => Err(best),
            Some(l) => spec_resolve_last(l, best),
        }
    } else {
        match probes[0] {
            ProbeView::Unavailable => spec_resolve_probes(probes.skip(1), last, best),
            ProbeView::Candidate { path, constant, access } => match access {
                Access::Granted => Ok(
                    if constant {
                        ResolvedView::Constant(path)
                    } else {
                        ResolvedView::Copied(path)
                    },
                ),
                Access::Refused(e) => match spec_fold(best, e) {
                    Fold::Continue(b) => spec_resolve_probes(probes.skip(1), last, b),
                    Fold::Stop(h) => Err(h),
                },
            },
        }
    }
}

/// The whole resolution, starting from the default "no such entity" code.
pub open spec fn spec_resolve(env: EnvView) -> Result<ResolvedView, i32> {
    spec_resolve_probes(env.probes, env.last_resort, ENOENT)
}

/// A model of the filesystem at one instant: the identity of the running
/// process image, and the identity each existing path stats to.
pub struct FsModel {
    /// The identity of the executing image.
    pub self_id: FileId,
    /// The identity each path stats to; paths outside the map's domain stat
    /// to nothing.
    pub ids: Map<Seq<u8>, FileId>,
}

/// When an environment is an honest report about a filesystem: every
/// candidate an ordinary source yielded names the running image (that is
/// what the kernel mechanisms hand out), the kernel-held image identity is
/// the image's, and the stat results the last-resort source carries agree
/// with the filesystem.
pub open spec fn env_reflects(env: EnvView, fs: FsModel) -> bool {
    &&& (forall|i: int| 0 <= i < env.probes.len() ==> (#[trigger] env.probes[i] matches
        ProbeView::Candidate { path, .. } ==> fs.ids.contains_key(path) && fs.ids[path]
        == fs.self_id))
    &&& (env.last_resort matches Some(l) ==> {
        &&& l.image_id == fs.self_id
        &&& (l.arg0_id matches Some(id) ==> fs.ids.contains_key(l.arg0) && fs.ids[l.arg0] == id)
        &&& (l.canonical matches Ok(c) ==> fs.ids.contains_key(c.path) && fs.ids[c.path] == c.id)
    })
}

/// The last-resort decision only ever returns a path whose identity is the
/// kernel-held image identity.
proof fn lemma_resolve_last_identity(l: LastResortView, best: i32, fs: FsModel)
    requires
        l.image_id == fs.self_id,
        l.arg0_id matches Some(id) ==> fs.ids.contains_key(l.arg0) && fs.ids[l.arg0] == id,
        l.canonical matches Ok(c) ==> fs.ids.contains_key(c.path) && fs.ids[c.path] == c.id,
    ensures
        spec_resolve_last(l, best) matches Ok(res) ==> fs.ids.contains_key(resolved_path(res))
            && fs.ids[resolved_path(res)] == fs.self_id,
{
}

/// The core of the identity law, by induction over the chain traversal.
proof fn lemma_resolve_probes_identity(probes: Seq<ProbeView>, last: Option<LastResortView>,
    best: i32, fs: FsModel)
    requires
        forall|i: int| 0 <= i < probes.len() ==> (#[trigger] probes[i] matches
            ProbeView::Candidate { path, .. } ==> fs.ids.contains_key(path) && fs.ids[path]
            == fs.self_id),
        last matches Some(l) ==> {
            &&& l.image_id == fs.self_id
            &&& (l.arg0_id matches Some(id) ==> fs.ids.contains_key(l.arg0) && fs.ids[l.arg0]
                == id)
            &&& (l.canonical matches Ok(c) ==> fs.ids.contains_key(c.path) && fs.ids[c.path]
                == c.id)
        },
    ensures
        spec_resolve_probes(probes, last, best) matches Ok(res) ==> fs.ids.contains_key(
            resolved_path(res)) && fs.ids[resolved_path(res)] == fs.self_id,
    decreases probes.len(),
{
    if probes.len() == 0 {
        match last {
            None => {},
            Some(l) => {
                lemma_resolve_last_identity(l, best, fs);
            },
        }
    } else {
        let tail = probes.skip(1);
        assert(forall|i: int| 0 <= i < tail.len() ==> tail[i] == probes[i + 1]);
        match probes[0] {
            ProbeView::Unavailable => {
                lemma_resolve_probes_identity(tail, last, best, fs);
            },
            ProbeView::Candidate { path, constant, access } => {
                match access {
                    Access::Granted => {},
                    Access::Refused(e) => {
                        match spec_fold(best, e) {
                            Fold::Continue(b) => {
                                lemma_resolve_probes_identity(tail, last, b, fs);
                            },
                            Fold::Stop(_) => {},
                        }
                    },
                }
            },
        }
    }
}

/// Identity law: whenever resolution succeeds on an environment that
/// honestly reports a filesystem, the returned path's file identity equals
/// that of the currently running process image.
pub proof fn lemma_resolved_identity(env: EnvView, fs: FsModel)
    requires
        env_reflects(env, fs),
    ensures
        spec_resolve(env) matches Ok(res) ==> fs.ids.contains_key(resolved_path(res)) && fs.ids[
            resolved_path(res)] == fs.self_id,
{
    lemma_resolve_probes_identity(env.probes, env.last_resort, ENOENT, fs);
}

/// Idempotence law: resolution decides by the reports alone, so two calls
/// whose sources report the same — no filesystem change happened in between
/// — come to the same outcome, and in particular to paths of identical file
/// identity on any filesystem both reports reflect.
pub proof fn lemma_resolve_idempotent(env1: EnvView, env2: EnvView, fs: FsModel)
    requires
        env1 == env2,
        env_reflects(env1, fs),
    ensures
        spec_resolve(env1) == spec_resolve(env2),
        spec_resolve(env1) matches Ok(r1) ==> (spec_resolve(env2) matches Ok(r2) ==> fs.ids[
            resolved_path(r1)] == fs.ids[resolved_path(r2)]),
{
    lemma_resolved_identity(env1, fs);
}

/// All-unavailable law: when every source reports unavailable, resolution
/// fails with the default "no such entity" code.
pub proof fn lemma_resolve_all_unavailable(env: EnvView)
    requires
        forall|i: int| 0 <= i < env.probes.len() ==> #[trigger] env.probes[i]
            is Unavailable,
        env.last_resort is None,
    ensures
        spec_resolve(env) == Err::<ResolvedView, i32>(ENOENT),
{
    lemma_resolve_probes_unavailable(env.probes, ENOENT);
}

/// Helper for the all-unavailable law, by induction over the traversal.
proof fn lemma_resolve_probes_unavailable(probes: Seq<ProbeView>, best: i32)
    requires
        forall|i: int| 0 <= i < probes.len() ==> #[trigger] probes[i] is Unavailable,
    ensures
        spec_resolve_probes(probes, None, best) == Err::<ResolvedView, i32>(best),
    decreases probes.len(),
{
    if probes.len() > 0 {
        let tail = probes.skip(1);
        assert(forall|i: int| 0 <= i < tail.len() ==> tail[i] == probes[i + 1]);
        lemma_resolve_probes_unavailable(tail, best);
    }
}

/// A probe that neither resolves nor stops the traversal: unavailable, or a
/// candidate whose executability check failed with a soft code.
pub open spec fn probe_is_soft_failure(p: ProbeView) -> bool {
    match p {
        ProbeView::Unavailable => true,
        ProbeView::Candidate { access, .. } => match access {
            Access::Granted => false,
            Access::Refused(e) => is_soft(e),
        },
    }
}

/// Priority-policy law for the resolver: the first hard failure is the
/// outcome, and nothing after it — no later source and not the last-resort
/// source — is even consulted.
pub proof fn lemma_resolve_hard_stop(probes: Seq<ProbeView>, last: Option<LastResortView>,
    best: i32, i: int)
    requires
        is_soft(best),
        0 <= i < probes.len(),
        probes[i] matches ProbeView::Candidate { access, .. } && access matches Access::Refused(
            e) && !is_soft(e),
        forall|j: int| 0 <= j < i ==> probe_is_soft_failure(#[trigger] probes[j]),
    ensures
        probes[i] matches ProbeView::Candidate { access, .. } && access matches Access::Refused(
            e) && spec_resolve_probes(probes, last, best) == Err::<ResolvedView, i32>(e),
        forall|last2: Option<LastResortView>| spec_resolve_probes(probes, last, best)
            == #[trigger] spec_resolve_probes(probes.take(i + 1), last2, best),
    decreases i,
{
    if i == 0 {
        assert(forall|last2: Option<LastResortView>| probes.take(1)[0] == probes[0]
            && #[trigger] spec_resolve_probes(probes.take(1), last2, best)
            == spec_resolve_probes(probes, last, best));
    } else {
        let tail = probes.skip(1);
        assert(forall|j: int| 0 <= j < tail.len() ==> tail[j] == probes[j + 1]);
        assert(probes.take(i + 1).skip(1) =~= tail.take(i));
        assert(probes.take(i + 1)[0] == probes[0]);
        match probes[0] {
            ProbeView::Unavailable => {
                lemma_resolve_hard_stop(tail, last, best, i - 1);
                assert forall|last2: Option<LastResortView>| spec_resolve_probes(probes, last,
                    best) == #[trigger] spec_resolve_probes(probes.take(i + 1), last2, best) by {
                    assert(spec_resolve_probes(probes.take(i + 1), last2, best)
                        == spec_resolve_probes(tail.take(i), last2, best));
                }
            },
            ProbeView::Candidate { access, .. } => {
                let e0 = access->Refused_0;
                let b = spec_fold(best, e0)->Continue_0;
                lemma_resolve_hard_stop(tail, last, b, i - 1);
                assert forall|last2: Option<LastResortView>| spec_resolve_probes(probes, last,
                    best) == #[trigger] spec_resolve_probes(probes.take(i + 1), last2, best) by {
                    assert(spec_resolve_probes(probes.take(i + 1), last2, best)
                        == spec_resolve_probes(tail.take(i), last2, b));
                }
            },
        }
    }
}

/// Resolve a path that can be used to re-execute this program, given what
/// every source in canonical order reported. The result is the path of the
/// first candidate that validated, tagged borrowed-constant or owned-copy;
/// or the error the traversal aggregated.
pub fn get_reexec_path(env: &ResolveEnv) -> (r: Result<Resolved, i32>)
    ensures
        match r {
            Ok(res) => spec_resolve(env@) == Ok::<ResolvedView, i32>(res@),
            Err(e) => spec_resolve(env@) == Err::<ResolvedView, i32>(e),
        },
{
    let ghost gprobes = env@.probes;
    let mut best: i32 = ENOENT;
    let mut i: usize = 0;
    proof {
        assert(gprobes.skip(0) =~= gprobes);
    }
    while i < env.probes.len()
        invariant
            0 <= i <= env.probes.len(),
            is_soft(best),
            gprobes == env@.probes,
            gprobes.len() == env.probes@.len(),
            spec_resolve(env@) == spec_resolve_probes(gprobes.skip(i as int), env@.last_resort,
                best),
        decreases env.probes.len() - i,
    {
        proof {
            assert(gprobes.skip(i as int)[0] == gprobes[i as int]);
            lemma_seq_skip_of_skip(gprobes, i as int, 1);
        }
        let p = &env.probes[i];
        match p {
            Probe::Unavailable => {},
            Probe::Candidate { path, constant, access } => {
                match access {
                    Access::Granted => {
                        let owned = copy_bytes(path);
                        if *constant {
                            return Ok(Resolved::Constant(owned));
                        } else {
                            return Ok(Resolved::Copied(owned));
                        }
                    },
                    Access::Refused(e) => {
                        match fold_error(best, *e) {
                            Fold::Continue(b) => {
                                best = b;
                            },
                            Fold::Stop(h) => {
                                return Err(h);
                            },
                        }
                    },
                }
            },
        }
        i = i + 1;
    }
    proof {
        assert(gprobes.skip(i as int) =~= Seq::<ProbeView>::empty());
    }
    match &env.last_resort {
        None => Err(best),
        Some(l) => {
            match last_resort_candidate(&l.arg0, l.image_id, l.arg0_id) {
                None => Err(best),
                Some(arg0) => {
                    match l.access {
                        Access::Refused(e) => {
                            match fold_error(best, e) {
                                Fold::Continue(b) => Err(b),
                                Fold::Stop(h) => Err(h),
                            }
                        },
                        Access::Granted => {
                            if path_is_absolute(&arg0) {
                                Ok(Resolved::Copied(arg0))
                            } else {
                                match &l.canonical {
                                    Err(e) => Err(*e),
                                    Ok(c) => {
                                        if c.id.dev == l.image_id.dev && c.id.ino
                                            == l.image_id.ino {
                                            Ok(Resolved::Copied(copy_bytes(&c.path)))
                                        } else {
                                            Err(ENOENT)
                                        }
                                    },
                                }
                            }
                        },
                    }
                },
            }
        },
    }
}

} // verus!
