use reexec::EACCES;
use reexec::ENOENT;
use reexec::ExecAttempt;
use reexec::Fold;
use reexec::PathSource;
use reexec::fold_error;
use reexec::reexec_outcome;
use reexec::reexec_sources;
use reexec::resolve_sources;

#[test]
fn fold_escalates_to_permission_denied() {
    assert_eq!(fold_error(ENOENT, EACCES), Fold::Continue(EACCES));
    // Once escalated, "no such entity" does not pull the aggregate back.
    assert_eq!(fold_error(EACCES, ENOENT), Fold::Continue(EACCES));
    assert_eq!(fold_error(ENOENT, ENOENT), Fold::Continue(ENOENT));
}

#[test]
fn fold_stops_on_hard_code() {
    let enomem = 12;
    assert_eq!(fold_error(ENOENT, enomem), Fold::Stop(enomem));
    assert_eq!(fold_error(EACCES, enomem), Fold::Stop(enomem));
}

#[test]
fn hard_code_wins_over_soft_codes() {
    // Three attempts: permission denied, no such entity, then a hard
    // out-of-memory-class code. The hard code is the outcome.
    let enomem = 12;
    let attempts = vec![
        ExecAttempt::Returned(EACCES),
        ExecAttempt::Returned(ENOENT),
        ExecAttempt::Returned(enomem),
    ];
    assert_eq!(reexec_outcome(&attempts), enomem);

    // Whatever comes after the hard code cannot change the outcome.
    let longer = vec![
        ExecAttempt::Returned(EACCES),
        ExecAttempt::Returned(ENOENT),
        ExecAttempt::Returned(enomem),
        ExecAttempt::Returned(ENOENT),
        ExecAttempt::Unavailable,
    ];
    assert_eq!(reexec_outcome(&longer), enomem);
}

#[test]
fn all_unavailable_yields_default() {
    let attempts = vec![
        ExecAttempt::Unavailable,
        ExecAttempt::Unavailable,
        ExecAttempt::Unavailable,
        ExecAttempt::Unavailable,
        ExecAttempt::Unavailable,
    ];
    assert_eq!(reexec_outcome(&attempts), ENOENT);
    assert_eq!(reexec_outcome(&Vec::new()), ENOENT);
}

#[test]
fn soft_codes_aggregate() {
    let only_enoent = vec![ExecAttempt::Returned(ENOENT), ExecAttempt::Unavailable];
    assert_eq!(reexec_outcome(&only_enoent), ENOENT);

    let with_eacces = vec![
        ExecAttempt::Returned(ENOENT),
        ExecAttempt::Returned(EACCES),
        ExecAttempt::Returned(ENOENT),
    ];
    assert_eq!(reexec_outcome(&with_eacces), EACCES);
}

#[test]
fn reexec_set_excludes_last_resort() {
    let restricted = reexec_sources();
    assert!(!restricted.contains(&PathSource::LastResort));

    // The restricted set is a prefix of the full canonical order.
    let full = resolve_sources();
    assert_eq!(&full[..restricted.len()], &restricted[..]);
    assert_eq!(full.last(), Some(&PathSource::LastResort));
    assert_eq!(full.len(), restricted.len() + 1);
}
