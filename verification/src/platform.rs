//! Per-platform capability table for the path sources.
//!
//! Each operating system exposes a different set of self-identification
//! mechanisms. Instead of scattering conditional branches through the chain
//! logic, the platform is a value and each source consults this table: a
//! source either yields its platform-specific datum or reports unavailable.
//! All returned path constants are terminated by a trailing zero byte, in
//! the form the process-image-replace call expects.

use vstd::prelude::*;

verus! {

/// The platform family the process is running on, fixed at build time by
/// the caller.
#[derive(Clone, Copy, Debug, PartialEq, Eq, Structural)]
pub enum Platform {
    Linux,
    Android,
    Solaris,
    Illumos,
    NetBsd,
    DragonFly,
    FreeBsd,
    MacOs,
    Ios,
    OpenBsd,
    Redox,
    Windows,
}

/// The bytes of `/proc/self/exe`, with a trailing zero.
pub open spec fn procfs_self_exe() -> Seq<u8> {
    seq![47u8, 112, 114, 111, 99, 47, 115, 101, 108, 102, 47, 101, 120, 101, 0]
}

/// The bytes of `/proc/self/object/a.out`, with a trailing zero.
pub open spec fn procfs_self_object_aout() -> Seq<u8> {
    seq![47u8, 112, 114, 111, 99, 47, 115, 101, 108, 102, 47, 111, 98, 106, 101, 99, 116, 47, 97,
        46, 111, 117, 116, 0]
}

/// The bytes of `/proc/curproc/file`, with a trailing zero.
pub open spec fn procfs_curproc_file() -> Seq<u8> {
    seq![47u8, 112, 114, 111, 99, 47, 99, 117, 114, 112, 114, 111, 99, 47, 102, 105, 108, 101, 0]
}

/// The bytes of `/proc/self/path/a.out`, with a trailing zero.
pub open spec fn procfs_self_path_aout() -> Seq<u8> {
    seq![47u8, 112, 114, 111, 99, 47, 115, 101, 108, 102, 47, 112, 97, 116, 104, 47, 97, 46, 111,
        117, 116, 0]
}

/// The bytes of `/proc/curproc/exe`, with a trailing zero.
pub open spec fn procfs_curproc_exe() -> Seq<u8> {
    seq![47u8, 112, 114, 111, 99, 47, 99, 117, 114, 112, 114, 111, 99, 47, 101, 120, 101, 0]
}

/// The magic self-referencing path that is directly executable, for the
/// validating resolver's first source.
pub open spec fn spec_procfs(p: Platform) -> Option<Seq<u8>> {
    match p {
        Platform::Linux => Some(procfs_self_exe()),
        Platform::Solaris | Platform::Illumos => Some(procfs_self_object_aout()),
        Platform::NetBsd | Platform::DragonFly => Some(procfs_curproc_file()),
        _ => None,
    }
}

/// The magic self-referencing path for the re-exec executor's first source.
/// It admits one platform more than the resolver's table: there the entry is
/// only ever handed to the process-image-replace call, never opened.
pub open spec fn spec_procfs_reexec(p: Platform) -> Option<Seq<u8>> {
    match p {
        Platform::Linux | Platform::Android => Some(procfs_self_exe()),
        Platform::Solaris | Platform::Illumos => Some(procfs_self_object_aout()),
        Platform::NetBsd | Platform::DragonFly => Some(procfs_curproc_file()),
        _ => None,
    }
}

/// The symbolic link that resolves to the running executable, where the
/// magic entry is a link rather than directly usable.
pub open spec fn spec_procfs_readlink_target(p: Platform) -> Option<Seq<u8>> {
    match p {
        Platform::Linux | Platform::Android => Some(procfs_self_exe()),
        Platform::Solaris | Platform::Illumos => Some(procfs_self_path_aout()),
        Platform::NetBsd => Some(procfs_curproc_exe()),
        _ => None,
    }
}

/// If possible, return a path under `/proc` that may refer to the current
/// program, usable directly as an executable target.
pub fn get_procfs(p: Platform) -> (r: Option<Vec<u8>>)
    ensures
        r is Some <==> spec_procfs(p) is Some,
        r matches Some(v) ==> spec_procfs(p) == Some(v@),
{
    match p {
        Platform::Linux => Some(vec![47u8, 112, 114, 111, 99, 47, 115, 101, 108, 102, 47, 101,
            120, 101, 0]),
        Platform::Solaris | Platform::Illumos => Some(vec![47u8, 112, 114, 111, 99, 47, 115, 101,
            108, 102, 47, 111, 98, 106, 101, 99, 116, 47, 97, 46, 111, 117, 116, 0]),
        Platform::NetBsd | Platform::DragonFly => Some(vec![47u8, 112, 114, 111, 99, 47, 99, 117,
            114, 112, 114, 111, 99, 47, 102, 105, 108, 101, 0]),
        _ => None,
    }
}

/// If possible, return a path under `/proc` that may refer to the current
/// program, for the re-exec executor.
pub fn get_procfs_reexec(p: Platform) -> (r: Result<Vec<u8>, ()>)
    ensures
        r is Ok <==> spec_procfs_reexec(p) is Some,
        r matches Ok(v) ==> spec_procfs_reexec(p) == Some(v@),
{
    match p {
        Platform::Linux | Platform::Android => Ok(vec![47u8, 112, 114, 111, 99, 47, 115, 101,
            108, 102, 47, 101, 120, 101, 0]),
        Platform::Solaris | Platform::Illumos => Ok(vec![47u8, 112, 114, 111, 99, 47, 115, 101,
            108, 102, 47, 111, 98, 106, 101, 99, 116, 47, 97, 46, 111, 117, 116, 0]),
        Platform::NetBsd | Platform::DragonFly => Ok(vec![47u8, 112, 114, 111, 99, 47, 99, 117,
            114, 112, 114, 111, 99, 47, 102, 105, 108, 101, 0]),
        _ => Err(()),
    }
}

/// If possible, return the symbolic link under `/proc` whose target is the
/// running executable; the caller reads the link and hands the result to
/// `crate::readlink_trim`.
pub fn get_procfs_readlink_target(p: Platform) -> (r: Option<Vec<u8>>)
    ensures
        r is Some <==> spec_procfs_readlink_target(p) is Some,
        r matches Some(v) ==> spec_procfs_readlink_target(p) == Some(v@),
{
    match p {
        Platform::Linux | Platform::Android => Some(vec![47u8, 112, 114, 111, 99, 47, 115, 101,
            108, 102, 47, 101, 120, 101, 0]),
        Platform::Solaris | Platform::Illumos => Some(vec![47u8, 112, 114, 111, 99, 47, 115, 101,
            108, 102, 47, 112, 97, 116, 104, 47, 97, 46, 111, 117, 116, 0]),
        Platform::NetBsd => Some(vec![47u8, 112, 114, 111, 99, 47, 99, 117, 114, 112, 114, 111,
            99, 47, 101, 120, 101, 0]),
        _ => None,
    }
}

} // verus!
