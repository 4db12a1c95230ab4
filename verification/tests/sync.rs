use noteworthy::sync::{
    sync_author_email, sync_author_name, sync_commit_message, sync_remote_name, sync_step,
    SyncAction, SyncEvent, SyncState,
};

#[test]
fn sync_without_changes_only_pulls() {
    let (s, a) = sync_step(SyncState::Idle, SyncEvent::Start);
    assert_eq!(a, SyncAction::Pull);
    let (s, a) = sync_step(s, SyncEvent::Pulled(true));
    assert_eq!(a, SyncAction::CheckChanges);
    let (s, a) = sync_step(s, SyncEvent::ChangesChecked(Some(false)));
    assert_eq!((s, a), (SyncState::Finished, SyncAction::Succeed));
}

#[test]
fn sync_with_changes_commits_and_pushes() {
    let (s, _) = sync_step(SyncState::Idle, SyncEvent::Start);
    let (s, _) = sync_step(s, SyncEvent::Pulled(true));
    let (s, a) = sync_step(s, SyncEvent::ChangesChecked(Some(true)));
    assert_eq!(a, SyncAction::AddAll);
    let (s, a) = sync_step(s, SyncEvent::Added(true));
    assert_eq!(a, SyncAction::Commit);
    let (s, a) = sync_step(s, SyncEvent::Committed(true));
    assert_eq!(a, SyncAction::Push);
    let (s, a) = sync_step(s, SyncEvent::Pushed(true));
    assert_eq!((s, a), (SyncState::Finished, SyncAction::Succeed));
}

#[test]
fn sync_fails_at_a_failed_step() {
    let (s, _) = sync_step(SyncState::Idle, SyncEvent::Start);
    assert_eq!(sync_step(s, SyncEvent::Pulled(false)), (SyncState::Finished, SyncAction::Fail));
    let (s, _) = sync_step(s, SyncEvent::Pulled(true));
    assert_eq!(sync_step(s, SyncEvent::ChangesChecked(None)), (SyncState::Finished, SyncAction::Fail));
    assert_eq!(sync_step(s, SyncEvent::Pushed(true)), (s, SyncAction::Wait));
}

#[test]
fn sync_names() {
    assert_eq!(sync_remote_name(), "origin");
    assert_eq!(sync_author_name(), "NoteworthyApp");
    assert_eq!(sync_author_email(), "app@noteworthy.io");
    assert_eq!(sync_commit_message(), "Sync commit");
}
