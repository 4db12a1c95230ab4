//! The decisions of syncing the notes with their remote repository: pull
//! first, then commit and push only when the working tree changed. The
//! repository work itself is done by the caller, which reports each
//! outcome back.
use vstd::prelude::*;

verus! {

/// Where a sync stands.
#[derive(Debug, Clone, Copy, PartialEq, Eq, Structural)]
pub enum SyncState {
    Idle,
    Pulling,
    CheckingChanges,
    Adding,
    Committing,
    Pushing,
    Finished,
}

/// What the caller reports: the start of a sync, or how the step it was
/// asked for went. Checking for changes reports whether the working tree
/// changed, or `None` when the check failed.
#[derive(Debug, Clone, Copy, PartialEq, Eq, Structural)]
pub enum SyncEvent {
    Start,
    Pulled(bool),
    ChangesChecked(Option<bool>),
    Added(bool),
    Committed(bool),
    Pushed(bool),
}

/// What the caller is to do next: pull from the remote, check the working
/// tree for changes, stage every file, commit, push, or end the sync with
/// success (handing back the files the pull changed) or failure. `Wait`
/// answers an event that does not belong to the current step.
#[derive(Debug, Clone, Copy, PartialEq, Eq, Structural)]
pub enum SyncAction {
    Pull,
    CheckChanges,
    AddAll,
    Commit,
    Push,
    Succeed,
    Fail,
    Wait,
}

/// The next state and action of a sync in `state` on `event`.
pub open spec fn sync_next(state: SyncState, event: SyncEvent) -> (SyncState, SyncAction) {
    match (state, event) {
        (SyncState::Idle, SyncEvent::Start) => (SyncState::Pulling, SyncAction::Pull),
        (SyncState::Pulling, SyncEvent::Pulled(true)) => (
            SyncState::CheckingChanges,
            SyncAction::CheckChanges,
        ),
        (SyncState::CheckingChanges, SyncEvent::ChangesChecked(Some(false))) => (
            SyncState::Finished,
            SyncAction::Succeed,
        ),
        (SyncState::CheckingChanges, SyncEvent::ChangesChecked(Some(true))) => (
            SyncState::Adding,
            SyncAction::AddAll,
        ),
        (SyncState::Adding, SyncEvent::Added(true)) => (SyncState::Committing, SyncAction::Commit),
        (SyncState::Committing, SyncEvent::Committed(true)) => (SyncState::Pushing, SyncAction::Push),
        (SyncState::Pushing, SyncEvent::Pushed(true)) => (SyncState::Finished, SyncAction::Succeed),
        (SyncState::Pulling, SyncEvent::Pulled(false)) => (SyncState::Finished, SyncAction::Fail),
        (SyncState::CheckingChanges, SyncEvent::ChangesChecked(None)) => (
            SyncState::Finished,
            SyncAction::Fail,
        ),
        (SyncState::Adding, SyncEvent::Added(false)) => (SyncState::Finished, SyncAction::Fail),
        (SyncState::Committing, SyncEvent::Committed(false)) => (
            SyncState::Finished,
            SyncAction::Fail,
        ),
        (SyncState::Pushing, SyncEvent::Pushed(false)) => (SyncState::Finished, SyncAction::Fail),
        _ => (state, SyncAction::Wait),
    }
}

/// One step of a sync: from `state` on `event` to the next state and the
/// action to perform. A sync pulls; when the pull succeeded it checks the
/// working tree; when nothing changed it succeeds at once, otherwise it
/// stages every file, commits and pushes, and succeeds after the push. Any
/// failed step ends the sync with failure.
pub fn sync_step(state: SyncState, event: SyncEvent) -> (next: (SyncState, SyncAction))
    ensures
        next == sync_next(state, event),
{
    match (state, event) {
        (SyncState::Idle, SyncEvent::Start) => (SyncState::Pulling, SyncAction::Pull),
        (SyncState::Pulling, SyncEvent::Pulled(ok)) => if ok {
            (SyncState::CheckingChanges, SyncAction::CheckChanges)
        } else {
            (SyncState::Finished, SyncAction::Fail)
        },
        (SyncState::CheckingChanges, SyncEvent::ChangesChecked(checked)) => match checked {
            Some(changed) => if changed {
                (SyncState::Adding, SyncAction::AddAll)
            } else {
                (SyncState::Finished, SyncAction::Succeed)
            },
            None => (SyncState::Finished, SyncAction::Fail),
        },
        (SyncState::Adding, SyncEvent::Added(ok)) => if ok {
            (SyncState::Committing, SyncAction::Commit)
        } else {
            (SyncState::Finished, SyncAction::Fail)
        },
        (SyncState::Committing, SyncEvent::Committed(ok)) => if ok {
            (SyncState::Pushing, SyncAction::Push)
        } else {
            (SyncState::Finished, SyncAction::Fail)
        },
        (SyncState::Pushing, SyncEvent::Pushed(ok)) => if ok {
            (SyncState::Finished, SyncAction::Succeed)
        } else {
            (SyncState::Finished, SyncAction::Fail)
        },
        _ => (state, SyncAction::Wait),
    }
}

/// A sync commits and pushes only when the working tree changed: staging
/// is asked for only right after the check reported a change, a commit
/// only right after staging, a push only right after a commit, and a check
/// that found nothing ends the sync with success.
pub proof fn lemma_commit_only_after_change(state: SyncState, event: SyncEvent)
    ensures
        sync_next(state, event).1 == SyncAction::AddAll ==> state == SyncState::CheckingChanges
            && event == SyncEvent::ChangesChecked(Some(true)),
        sync_next(state, event).1 == SyncAction::Commit ==> state == SyncState::Adding,
        sync_next(state, event).1 == SyncAction::Push ==> state == SyncState::Committing,
        event == SyncEvent::ChangesChecked(Some(false)) && state == SyncState::CheckingChanges
            ==> sync_next(state, event) == (SyncState::Finished, SyncAction::Succeed),
{
}

/// Whether `event` reports a failed step.
pub open spec fn is_failure(event: SyncEvent) -> bool {
    ||| event == SyncEvent::Pulled(false)
    ||| event == SyncEvent::ChangesChecked(None)
    ||| event == SyncEvent::Added(false)
    ||| event == SyncEvent::Committed(false)
    ||| event == SyncEvent::Pushed(false)
}

/// A sync succeeds only when its last step went well: right after a
/// successful push, or right after a check that found nothing to commit.
/// A failed step never ends a sync in success: while its step is awaited
/// it ends the sync with failure, and otherwise it is not waited for.
pub proof fn lemma_sync_succeeds_only_when_done(state: SyncState, event: SyncEvent)
    ensures
        sync_next(state, event).1 == SyncAction::Succeed ==> (state == SyncState::Pushing
            && event == SyncEvent::Pushed(true)) || (state == SyncState::CheckingChanges && event
            == SyncEvent::ChangesChecked(Some(false))),
        sync_next(state, event).1 == SyncAction::Succeed ==> sync_next(state, event).0
            == SyncState::Finished,
        is_failure(event) ==> sync_next(state, event).1 != SyncAction::Succeed,
        is_failure(event) && sync_next(state, event).1 != SyncAction::Wait ==> sync_next(
            state,
            event,
        ) == (SyncState::Finished, SyncAction::Fail),
        state == SyncState::Pushing && event == SyncEvent::Pushed(false) ==> sync_next(
            state,
            event,
        ) == (SyncState::Finished, SyncAction::Fail),
        state == SyncState::Finished ==> sync_next(state, event) == (state, SyncAction::Wait),
{
}

/// Each step awaits exactly its own report: the report of the step a
/// state waits for moves the sync on, and any other report is waited
/// past with nothing done.
pub proof fn lemma_sync_waits_for_its_step(state: SyncState, event: SyncEvent)
    ensures
        sync_next(state, event).1 == SyncAction::Wait <==> !(match (state, event) {
            (SyncState::Idle, SyncEvent::Start) => true,
            (SyncState::Pulling, SyncEvent::Pulled(_)) => true,
            (SyncState::CheckingChanges, SyncEvent::ChangesChecked(_)) => true,
            (SyncState::Adding, SyncEvent::Added(_)) => true,
            (SyncState::Committing, SyncEvent::Committed(_)) => true,
            (SyncState::Pushing, SyncEvent::Pushed(_)) => true,
            _ => false,
        }),
        sync_next(state, event).1 == SyncAction::Wait ==> sync_next(state, event).0 == state,
{
}

/// The remote a sync pulls from and pushes to.
pub fn sync_remote_name() -> (name: &'static str)
    ensures
        name@ == "origin"@,
{
    "origin"
}

/// The author a sync's merges and commits are made under.
pub fn sync_author_name() -> (name: &'static str)
    ensures
        name@ == "NoteworthyApp"@,
{
    "NoteworthyApp"
}

/// The e-mail address of that author.
pub fn sync_author_email() -> (email: &'static str)
    ensures
        email@ == "app@noteworthy.io"@,
{
    "app@noteworthy.io"
}

/// The message of a sync's commit.
pub fn sync_commit_message() -> (message: &'static str)
    ensures
        message@ == "Sync commit"@,
{
    "Sync commit"
}

} // verus!
