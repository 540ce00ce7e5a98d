use patch_prep::apply::{ApplyError, ApplySession, Phase};

/// Drives a session to its final phase, answering every query with the
/// given statuses, and returns how many patch invocations happened.
fn drive(
    session: &mut ApplySession,
    unstaged_clean: bool,
    staged_clean: bool,
    listing: Option<Vec<Vec<u8>>>,
    patch_statuses: &[bool],
) -> usize {
    let mut invocations: usize = 0;
    let mut listing = Some(listing);
    loop {
        match session.current_phase() {
            Phase::QueryUnstaged => session.on_unstaged_status(unstaged_clean),
            Phase::QueryStaged => session.on_staged_status(staged_clean),
            Phase::ListPatchDir => session.on_listing(listing.take().unwrap()),
            Phase::Applying => {
                let ok = patch_statuses[invocations];
                invocations += 1;
                session.on_patch_status(ok);
            }
            Phase::Done | Phase::Failed => return invocations,
        }
    }
}

#[test]
fn clean_tree_absent_patch_dir_succeeds() {
    let mut session = ApplySession::new();
    let invocations = drive(&mut session, true, true, None, &[]);
    assert_eq!(session.current_phase(), Phase::Done);
    assert_eq!(session.error(), &None);
    assert_eq!(session.applied_count(), 0);
    assert_eq!(invocations, 0);
}

#[test]
fn clean_tree_empty_patch_dir_succeeds() {
    let mut session = ApplySession::new();
    let invocations = drive(&mut session, true, true, Some(Vec::new()), &[]);
    assert_eq!(session.current_phase(), Phase::Done);
    assert_eq!(session.error(), &None);
    assert_eq!(session.applied_count(), 0);
    assert_eq!(invocations, 0);
}

#[test]
fn unstaged_edit_aborts_before_any_patch() {
    let mut session = ApplySession::new();
    let listing = vec![b"a.patch".to_vec()];
    let invocations = drive(&mut session, false, true, Some(listing), &[true]);
    assert_eq!(session.current_phase(), Phase::Failed);
    assert_eq!(session.error(), &Some(ApplyError::DirtyUnstaged));
    assert_eq!(session.applied_count(), 0);
    assert_eq!(invocations, 0);
    assert!(session.patches().is_empty());
}

#[test]
fn staged_edit_aborts_before_any_patch() {
    let mut session = ApplySession::new();
    let listing = vec![b"a.patch".to_vec()];
    let invocations = drive(&mut session, true, false, Some(listing), &[true]);
    assert_eq!(session.current_phase(), Phase::Failed);
    assert_eq!(session.error(), &Some(ApplyError::DirtyStaged));
    assert_eq!(session.applied_count(), 0);
    assert_eq!(invocations, 0);
}

#[test]
fn one_patch_one_other_file() {
    let mut session = ApplySession::new();
    session.on_unstaged_status(true);
    session.on_staged_status(true);
    session.on_listing(Some(vec![b"a.patch".to_vec(), b"notes.txt".to_vec()]));
    assert_eq!(session.current_phase(), Phase::Applying);
    assert_eq!(session.patches(), &vec![b"a.patch".to_vec()]);
    assert_eq!(session.current_patch(), &b"a.patch".to_vec());
    session.on_patch_status(true);
    assert_eq!(session.current_phase(), Phase::Done);
    assert_eq!(session.error(), &None);
    assert_eq!(session.applied_count(), 1);
}

#[test]
fn exactly_one_invocation_per_patch_file() {
    let mut session = ApplySession::new();
    let listing = vec![
        b"notes.txt".to_vec(),
        b"a.patch".to_vec(),
        b"README".to_vec(),
        b"b.patch".to_vec(),
    ];
    let invocations = drive(&mut session, true, true, Some(listing), &[true, true]);
    assert_eq!(session.current_phase(), Phase::Done);
    assert_eq!(session.error(), &None);
    assert_eq!(invocations, 2);
    assert_eq!(session.applied_count(), 2);
}

#[test]
fn patches_are_applied_in_listing_order() {
    let mut session = ApplySession::new();
    session.on_unstaged_status(true);
    session.on_staged_status(true);
    session.on_listing(Some(vec![
        b"b.patch".to_vec(),
        b"notes.txt".to_vec(),
        b"a.patch".to_vec(),
    ]));
    assert_eq!(session.current_patch(), &b"b.patch".to_vec());
    session.on_patch_status(true);
    assert_eq!(session.current_patch(), &b"a.patch".to_vec());
    session.on_patch_status(true);
    assert_eq!(session.current_phase(), Phase::Done);
}

#[test]
fn first_failure_stops_the_run() {
    let mut session = ApplySession::new();
    let listing = vec![b"a.patch".to_vec(), b"b.patch".to_vec(), b"c.patch".to_vec()];
    let invocations = drive(&mut session, true, true, Some(listing), &[true, false, true]);
    assert_eq!(session.current_phase(), Phase::Failed);
    assert_eq!(session.error(), &Some(ApplyError::PatchFailed(b"b.patch".to_vec())));
    // The failing invocation was the second and last one; c.patch was never tried.
    assert_eq!(invocations, 2);
    assert_eq!(session.applied_count(), 1);
}

#[test]
fn failure_on_first_patch_applies_none() {
    let mut session = ApplySession::new();
    let listing = vec![b"a.patch".to_vec(), b"b.patch".to_vec()];
    let invocations = drive(&mut session, true, true, Some(listing), &[false, true]);
    assert_eq!(session.current_phase(), Phase::Failed);
    assert_eq!(session.error(), &Some(ApplyError::PatchFailed(b"a.patch".to_vec())));
    assert_eq!(invocations, 1);
    assert_eq!(session.applied_count(), 0);
}
