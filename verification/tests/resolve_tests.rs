use reexec::Access;
use reexec::CanonicalProbe;
use reexec::EACCES;
use reexec::ENOENT;
use reexec::FileId;
use reexec::LastResortProbe;
use reexec::Probe;
use reexec::ResolveEnv;
use reexec::Resolved;
use reexec::get_reexec_path;

fn granted(path: &[u8], constant: bool) -> Probe {
    Probe::Candidate { path: path.to_vec(), constant, access: Access::Granted }
}

fn refused(path: &[u8], code: i32) -> Probe {
    Probe::Candidate { path: path.to_vec(), constant: false, access: Access::Refused(code) }
}

fn expect_path(r: Result<Resolved, i32>) -> (Vec<u8>, bool) {
    match r {
        Ok(Resolved::Constant(p)) => (p, true),
        Ok(Resolved::Copied(p)) => (p, false),
        Err(e) => panic!("resolution failed with {}", e),
    }
}

#[test]
fn first_validating_candidate_wins() {
    let env = ResolveEnv {
        probes: vec![
            Probe::Unavailable,
            refused(b"/proc/self/exe", ENOENT),
            granted(b"/proc/curproc/file", true),
            granted(b"/bin/later", false),
        ],
        last_resort: None,
    };
    let (path, constant) = expect_path(get_reexec_path(&env));
    assert_eq!(path, b"/proc/curproc/file".to_vec());
    assert!(constant);
}

#[test]
fn owned_copy_keeps_its_tag() {
    let env = ResolveEnv {
        probes: vec![granted(b"/bin/app", false)],
        last_resort: None,
    };
    let (path, constant) = expect_path(get_reexec_path(&env));
    assert_eq!(path, b"/bin/app".to_vec());
    assert!(!constant);
}

#[test]
fn permission_denied_dominates_no_such_entity() {
    let env = ResolveEnv {
        probes: vec![
            refused(b"/proc/self/exe", ENOENT),
            refused(b"/bin/app", EACCES),
            refused(b"/bin/other", ENOENT),
        ],
        last_resort: None,
    };
    assert_eq!(get_reexec_path(&env).err(), Some(EACCES));
}

#[test]
fn hard_code_stops_resolution() {
    // The hard code at the second source is final; the later candidate that
    // would validate is never consulted.
    let enomem = 12;
    let env = ResolveEnv {
        probes: vec![
            refused(b"/proc/self/exe", EACCES),
            refused(b"/bin/app", enomem),
            granted(b"/bin/late", true),
        ],
        last_resort: None,
    };
    assert_eq!(get_reexec_path(&env).err(), Some(enomem));
}

#[test]
fn resolver_all_unavailable_yields_default() {
    let env = ResolveEnv {
        probes: vec![
            Probe::Unavailable,
            Probe::Unavailable,
            Probe::Unavailable,
            Probe::Unavailable,
            Probe::Unavailable,
        ],
        last_resort: None,
    };
    assert_eq!(get_reexec_path(&env).err(), Some(ENOENT));
}

fn last_resort_probe(canonical_id: FileId) -> LastResortProbe {
    let image = FileId { dev: 7, ino: 42 };
    LastResortProbe {
        arg0: b"./app".to_vec(),
        image_id: image,
        arg0_id: Some(image),
        access: Access::Granted,
        canonical: Ok(CanonicalProbe { path: b"/work/app".to_vec(), id: canonical_id }),
    }
}

#[test]
fn relative_last_resort_canonicalizes() {
    // The relative argument stats to the captured (device=7, serial=42)
    // identity, and so does its canonical form: resolution succeeds with the
    // absolute canonical path.
    let env = ResolveEnv {
        probes: vec![Probe::Unavailable],
        last_resort: Some(last_resort_probe(FileId { dev: 7, ino: 42 })),
    };
    let (path, constant) = expect_path(get_reexec_path(&env));
    assert_eq!(path, b"/work/app".to_vec());
    assert!(!constant);
}

#[test]
fn replaced_file_fails_identity_check() {
    // The file at the canonical path was replaced between capture and
    // canonicalization: the serial number changed, so resolution fails with
    // "no such entity" rather than returning the stale path.
    let env = ResolveEnv {
        probes: vec![Probe::Unavailable],
        last_resort: Some(last_resort_probe(FileId { dev: 7, ino: 43 })),
    };
    assert_eq!(get_reexec_path(&env).err(), Some(ENOENT));
}

#[test]
fn absolute_last_resort_used_directly() {
    let image = FileId { dev: 7, ino: 42 };
    let env = ResolveEnv {
        probes: vec![],
        last_resort: Some(LastResortProbe {
            arg0: b"/opt/app".to_vec(),
            image_id: image,
            arg0_id: Some(image),
            access: Access::Granted,
            canonical: Err(ENOENT),
        }),
    };
    let (path, constant) = expect_path(get_reexec_path(&env));
    assert_eq!(path, b"/opt/app".to_vec());
    assert!(!constant);
}

#[test]
fn canonicalization_error_is_surfaced() {
    let image = FileId { dev: 7, ino: 42 };
    let eio = 5;
    let env = ResolveEnv {
        probes: vec![],
        last_resort: Some(LastResortProbe {
            arg0: b"./app".to_vec(),
            image_id: image,
            arg0_id: Some(image),
            access: Access::Granted,
            canonical: Err(eio),
        }),
    };
    assert_eq!(get_reexec_path(&env).err(), Some(eio));
}

#[test]
fn unmatched_last_resort_is_skipped() {
    // The recovered argument stats to a different file than the kernel-held
    // image identity: the source yields no candidate and the aggregated
    // error stands.
    let image = FileId { dev: 7, ino: 42 };
    let env = ResolveEnv {
        probes: vec![refused(b"/proc/self/exe", EACCES)],
        last_resort: Some(LastResortProbe {
            arg0: b"./app".to_vec(),
            image_id: image,
            arg0_id: Some(FileId { dev: 8, ino: 42 }),
            access: Access::Granted,
            canonical: Err(ENOENT),
        }),
    };
    assert_eq!(get_reexec_path(&env).err(), Some(EACCES));
}

#[test]
fn refused_last_resort_folds_its_code() {
    let image = FileId { dev: 7, ino: 42 };
    let env = ResolveEnv {
        probes: vec![],
        last_resort: Some(LastResortProbe {
            arg0: b"./app".to_vec(),
            image_id: image,
            arg0_id: Some(image),
            access: Access::Refused(EACCES),
            canonical: Err(ENOENT),
        }),
    };
    assert_eq!(get_reexec_path(&env).err(), Some(EACCES));
}

#[test]
fn repeated_resolution_is_stable() {
    // With no filesystem change between calls, the reports are the same and
    // so is the resolved path.
    let make_env = || ResolveEnv {
        probes: vec![granted(b"/proc/self/exe", true)],
        last_resort: None,
    };
    let first = expect_path(get_reexec_path(&make_env()));
    let second = expect_path(get_reexec_path(&make_env()));
    assert_eq!(first, second);
}
