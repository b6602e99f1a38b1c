//! The decisions around the working copy of the cluster repository.
//!
//! Cloning, opening, committing and pushing are the caller's work: they
//! touch the disk and the network. What is decided here is what follows
//! from their outcome: whether a clone that failed means that the working
//! copy is there already, which kind of failure an error of git is, and
//! which step of publishing a change comes after the one that was taken.
use vstd::prelude::*;
use crate::failure::Failure;

verus! {

/// `git2::ErrorCode`, the code of an error of git, declared with its
/// variants so that the code here can tell them apart.
#[verifier::external_type_specification]
pub struct ExErrorCode(git2::ErrorCode);

/// What to do after an attempt to clone the repository.
#[derive(Clone, Copy, Debug, PartialEq, Eq, Structural)]
pub enum CloneStep {
    /// The clone is the working copy.
    UseClone,
    /// The directory was there: open it as the working copy.
    OpenExisting,
    /// Give up on this request.
    Fail(Failure),
}

/// The kind of failure that an error of git is: `TlsError` if the
/// remote's certificate was rejected, else `Internal`.
pub open spec fn failure_of_code(code: git2::ErrorCode) -> Failure {
    match code {
        git2::ErrorCode::Certificate => Failure::TlsError,
        _ => Failure::Internal,
    }
}

/// What follows an attempt to clone: the clone is used if it succeeded;
/// the directory is opened if it exists already; else the request fails.
pub open spec fn step_after_clone(error: Option<git2::ErrorCode>) -> CloneStep {
    match error {
        None => CloneStep::UseClone,
        Some(git2::ErrorCode::Exists) => CloneStep::OpenExisting,
        Some(code) => CloneStep::Fail(failure_of_code(code)),
    }
}

/// What follows an attempt to open, to commit or to push: nothing if it
/// succeeded, else the failure that the error is.
pub open spec fn outcome_of(error: Option<git2::ErrorCode>) -> Result<(), Failure> {
    match error {
        None => Ok(()),
        Some(code) => Err(failure_of_code(code)),
    }
}

/// Computes [`failure_of_code`].
pub fn classify_error(code: git2::ErrorCode) -> (failure: Failure)
    ensures
        failure == failure_of_code(code),
{
    match code {
        git2::ErrorCode::Certificate => Failure::TlsError,
        _ => Failure::Internal,
    }
}

/// Computes [`step_after_clone`].
pub fn after_clone(error: Option<git2::ErrorCode>) -> (step: CloneStep)
    ensures
        step == step_after_clone(error),
{
    match error {
        None => CloneStep::UseClone,
        Some(git2::ErrorCode::Exists) => CloneStep::OpenExisting,
        Some(code) => CloneStep::Fail(classify_error(code)),
    }
}

/// Computes [`outcome_of`].
pub fn after_git(error: Option<git2::ErrorCode>) -> (outcome: Result<(), Failure>)
    ensures
        outcome == outcome_of(error),
{
    match error {
        None => Ok(()),
        Some(code) => Err(classify_error(code)),
    }
}

/// A step of publishing a change: what the caller is to do next, or how
/// the publishing ended.
#[derive(Clone, Copy, Debug, PartialEq, Eq, Structural)]
pub enum PublishStep {
    /// Write the files of the change into the working copy.
    Write,
    /// Stage the files and make the one commit.
    Commit,
    /// Push the commit to the remote.
    Push,
    /// Put the working copy back to where it stood before the change,
    /// because of the failure that is carried along.
    Undo(Failure),
    /// The change is committed and pushed.
    Done,
    /// The change was not published, for this reason.
    Failed(Failure),
}

/// The step that follows `step`, given how `step` went. A failure to
/// write or to commit is undone before it is reported; a failure to push
/// is reported at once, and the commit stays. How the undoing went does
/// not change the failure that is reported. The two ends stay.
pub open spec fn publish_next(step: PublishStep, outcome: Result<(), Failure>) -> PublishStep {
    match (step, outcome) {
        (PublishStep::Write, Ok(_)) => PublishStep::Commit,
        (PublishStep::Write, Err(failure)) => PublishStep::Undo(failure),
        (PublishStep::Commit, Ok(_)) => PublishStep::Push,
        (PublishStep::Commit, Err(failure)) => PublishStep::Undo(failure),
        (PublishStep::Push, Ok(_)) => PublishStep::Done,
        (PublishStep::Push, Err(failure)) => PublishStep::Failed(failure),
        (PublishStep::Undo(failure), _) => PublishStep::Failed(failure),
        (PublishStep::Done, _) => PublishStep::Done,
        (PublishStep::Failed(failure), _) => PublishStep::Failed(failure),
    }
}

/// How the publishing ended, once it has: `None` while a step is still
/// to be taken.
pub open spec fn publish_end(step: PublishStep) -> Option<Result<(), Failure>> {
    match step {
        PublishStep::Done => Some(Ok(())),
        PublishStep::Failed(failure) => Some(Err(failure)),
        _ => None,
    }
}

/// The first failure among the outcomes of three steps, if there is one.
pub open spec fn first_failure(
    first: Result<(), Failure>,
    second: Result<(), Failure>,
    third: Result<(), Failure>,
) -> Result<(), Failure> {
    if first is Err {
        first
    } else if second is Err {
        second
    } else {
        third
    }
}

/// Computes [`publish_next`].
pub fn after_publish_step(step: PublishStep, outcome: Result<(), Failure>) -> (next: PublishStep)
    ensures
        next == publish_next(step, outcome),
{
    match step {
        PublishStep::Write => match outcome {
            Ok(_) => PublishStep::Commit,
            Err(failure) => PublishStep::Undo(failure),
        },
        PublishStep::Commit => match outcome {
            Ok(_) => PublishStep::Push,
            Err(failure) => PublishStep::Undo(failure),
        },
        PublishStep::Push => match outcome {
            Ok(_) => PublishStep::Done,
            Err(failure) => PublishStep::Failed(failure),
        },
        PublishStep::Undo(failure) => PublishStep::Failed(failure),
        PublishStep::Done => PublishStep::Done,
        PublishStep::Failed(failure) => PublishStep::Failed(failure),
    }
}

/// Computes [`publish_end`].
pub fn end_of_publish(step: PublishStep) -> (end: Option<Result<(), Failure>>)
    ensures
        end == publish_end(step),
{
    match step {
        PublishStep::Done => Some(Ok(())),
        PublishStep::Failed(failure) => Some(Err(failure)),
        _ => None,
    }
}

/// To clone where the working copy is already there is no failure: of
/// all errors of a clone, that one alone leads on, to opening the copy.
pub proof fn lemma_existing_copy_is_opened(code: git2::ErrorCode)
    ensures
        step_after_clone(Some(code)) == CloneStep::OpenExisting <==> code == git2::ErrorCode::Exists,
        step_after_clone(Some(code)) is Fail <==> code != git2::ErrorCode::Exists,
        step_after_clone(Some(code)) != CloneStep::UseClone,
{
}

/// Publishing ends after three steps, whatever their outcomes: with
/// success if all three succeeded, else with the first failure.
pub proof fn lemma_publish_ends(
    first: Result<(), Failure>,
    second: Result<(), Failure>,
    third: Result<(), Failure>,
)
    ensures
        publish_end(
            publish_next(publish_next(publish_next(PublishStep::Write, first), second), third),
        ) == Some(first_failure(first, second, third)),
{
    if let Ok(u) = third {
        assert(u == ());
    }
}

/// What was written or staged without a commit is undone before the
/// failure is reported, and a commit is never undone: the step that
/// undoes follows a failure to write or to commit, and nothing else.
pub proof fn lemma_only_uncommitted_work_is_undone(step: PublishStep, outcome: Result<(), Failure>)
    ensures
        publish_next(step, outcome) is Undo <==> (step == PublishStep::Write || step
            == PublishStep::Commit) && outcome is Err,
        publish_next(step, outcome) is Undo ==> outcome == Err::<(), Failure>(
            publish_next(step, outcome)->Undo_0,
        ),
        step == PublishStep::Push ==> publish_end(publish_next(step, outcome)) == Some(outcome),
{
    if let Ok(u) = outcome {
        assert(u == ());
    }
}

} // verus!
