use server_init::failure::Failure;
use server_init::repository::{after_publish_step, end_of_publish, PublishStep};

fn run(outcomes: &[Result<(), Failure>]) -> Vec<PublishStep> {
    let mut step = PublishStep::Write;
    let mut steps = vec![step];
    for outcome in outcomes {
        if end_of_publish(step).is_some() {
            break;
        }
        step = after_publish_step(step, *outcome);
        steps.push(step);
    }
    steps
}

#[test]
fn publishing_writes_commits_and_pushes() {
    assert_eq!(
        run(&[Ok(()), Ok(()), Ok(())]),
        vec![PublishStep::Write, PublishStep::Commit, PublishStep::Push, PublishStep::Done]
    );
    assert_eq!(end_of_publish(PublishStep::Done), Some(Ok(())));
}

#[test]
fn failed_write_is_undone_then_reported() {
    assert_eq!(
        run(&[Err(Failure::Internal), Ok(())]),
        vec![
            PublishStep::Write,
            PublishStep::Undo(Failure::Internal),
            PublishStep::Failed(Failure::Internal)
        ]
    );
}

#[test]
fn failed_commit_is_undone_then_reported() {
    assert_eq!(
        run(&[Ok(()), Err(Failure::Internal), Ok(())]),
        vec![
            PublishStep::Write,
            PublishStep::Commit,
            PublishStep::Undo(Failure::Internal),
            PublishStep::Failed(Failure::Internal)
        ]
    );
}

#[test]
fn failed_push_keeps_the_commit() {
    assert_eq!(
        run(&[Ok(()), Ok(()), Err(Failure::TlsError)]),
        vec![
            PublishStep::Write,
            PublishStep::Commit,
            PublishStep::Push,
            PublishStep::Failed(Failure::TlsError)
        ]
    );
    assert_eq!(
        after_publish_step(PublishStep::Push, Err(Failure::Internal)),
        PublishStep::Failed(Failure::Internal)
    );
}

#[test]
fn failed_undo_reports_the_first_failure() {
    assert_eq!(
        after_publish_step(PublishStep::Undo(Failure::TlsError), Err(Failure::Internal)),
        PublishStep::Failed(Failure::TlsError)
    );
    assert_eq!(
        after_publish_step(PublishStep::Undo(Failure::Internal), Ok(())),
        PublishStep::Failed(Failure::Internal)
    );
}

#[test]
fn ended_publishing_stays_ended() {
    assert_eq!(after_publish_step(PublishStep::Done, Err(Failure::Internal)), PublishStep::Done);
    assert_eq!(
        after_publish_step(PublishStep::Failed(Failure::Conflict), Ok(())),
        PublishStep::Failed(Failure::Conflict)
    );
    assert_eq!(end_of_publish(PublishStep::Failed(Failure::Conflict)), Some(Err(Failure::Conflict)));
}

#[test]
fn publishing_has_no_end_while_a_step_is_due() {
    assert_eq!(end_of_publish(PublishStep::Write), None);
    assert_eq!(end_of_publish(PublishStep::Commit), None);
    assert_eq!(end_of_publish(PublishStep::Push), None);
    assert_eq!(end_of_publish(PublishStep::Undo(Failure::Internal)), None);
}
