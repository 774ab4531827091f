use sonic_verifier::coordinator::checked_contributor_status;
use sonic_verifier::coordinator::contributor_status;
use sonic_verifier::coordinator::may_post_contribution_info;
use sonic_verifier::coordinator::pending_task;
use sonic_verifier::coordinator::signed_message;
use sonic_verifier::coordinator::ContributionFileSignature;
use sonic_verifier::coordinator::ContributionLocator;
use sonic_verifier::coordinator::ContributionSignatureLocator;
use sonic_verifier::coordinator::ContributionState;
use sonic_verifier::coordinator::ContributorFacts;
use sonic_verifier::coordinator::ContributorStatus;
use sonic_verifier::coordinator::PostChunkRequest;
use sonic_verifier::coordinator::QueuePlace;
use sonic_verifier::coordinator::Task;
use sonic_verifier::coordinator::TaskRefusal;

fn facts() -> ContributorFacts {
    ContributorFacts {
        is_current: false,
        is_queued: false,
        queue_size: 5,
        place: QueuePlace::Unknown,
        current_round_height: 10,
        is_finished: false,
    }
}

#[test]
fn current_contributor_is_in_the_round() {
    let f = ContributorFacts {
        is_current: true,
        is_queued: true,
        place: QueuePlace::Assigned(12),
        is_finished: true,
        ..facts()
    };
    assert_eq!(contributor_status(&f), ContributorStatus::Round);
    // the round comes first even where the queue is behind
    let behind = ContributorFacts { place: QueuePlace::Assigned(3), ..f };
    assert_eq!(checked_contributor_status(&behind), Some(ContributorStatus::Round));
}

#[test]
fn queued_contributor_waits_for_its_round() {
    let f = ContributorFacts { is_queued: true, place: QueuePlace::Assigned(13), ..facts() };
    assert_eq!(contributor_status(&f), ContributorStatus::Queue(3, 5));
    let now = ContributorFacts { place: QueuePlace::Assigned(10), ..f };
    assert_eq!(contributor_status(&now), ContributorStatus::Queue(0, 5));
    // finished does not count while queued
    let done = ContributorFacts { is_finished: true, ..f };
    assert_eq!(contributor_status(&done), ContributorStatus::Queue(3, 5));
}

#[test]
fn queued_contributor_without_a_round_waits_behind_the_queue() {
    let f = ContributorFacts { is_queued: true, place: QueuePlace::Unassigned, ..facts() };
    assert_eq!(contributor_status(&f), ContributorStatus::Queue(5, 5));
}

#[test]
fn queued_contributor_that_the_queue_does_not_know_has_no_status() {
    let f = ContributorFacts { is_queued: true, is_finished: true, ..facts() };
    assert_eq!(contributor_status(&f), ContributorStatus::Other);
}

#[test]
fn finished_and_other() {
    let done = ContributorFacts { is_finished: true, ..facts() };
    assert_eq!(contributor_status(&done), ContributorStatus::Finished);
    assert_eq!(contributor_status(&facts()), ContributorStatus::Other);
    // a place in the queue does not count for one who is not queued
    let stale = ContributorFacts { place: QueuePlace::Assigned(3), ..facts() };
    assert_eq!(checked_contributor_status(&stale), Some(ContributorStatus::Other));
}

#[test]
fn a_round_that_has_passed_gives_no_status() {
    let f = ContributorFacts { is_queued: true, place: QueuePlace::Assigned(9), ..facts() };
    assert_eq!(checked_contributor_status(&f), None);
    let ahead = ContributorFacts { place: QueuePlace::Assigned(11), ..f };
    assert_eq!(checked_contributor_status(&ahead), Some(ContributorStatus::Queue(1, 5)));
}

#[test]
fn pending_task_is_handed_out() {
    let tasks = vec![
        Task { chunk_id: 0, contribution_id: 1 },
        Task { chunk_id: 2, contribution_id: 1 },
    ];
    let wanted = Task { chunk_id: 2, contribution_id: 1 };
    assert_eq!(pending_task(Some(&tasks), wanted), Ok(wanted));
    let other = Task { chunk_id: 2, contribution_id: 2 };
    assert_eq!(pending_task(Some(&tasks), other), Err(TaskRefusal::UnknownTask(other)));
    let swapped = Task { chunk_id: 1, contribution_id: 2 };
    assert_eq!(pending_task(Some(&tasks), swapped), Err(TaskRefusal::UnknownTask(swapped)));
    assert_eq!(pending_task(Some(&vec![]), wanted), Err(TaskRefusal::UnknownTask(wanted)));
    assert_eq!(pending_task(None, wanted), Err(TaskRefusal::UnknownContributor));
}

#[test]
fn signed_message_is_key_then_body() {
    assert_eq!(signed_message("\"key\"", None), "\"key\"");
    assert_eq!(signed_message("\"key\"", Some("\"test_body\"")), "\"key\"\"test_body\"");
    assert_eq!(signed_message("", Some("7")), "7");
    assert_eq!(signed_message("\"key\"", Some("")), "\"key\"");
}

#[test]
fn post_chunk_request_keeps_its_parts() {
    let locator = ContributionLocator {
        round_height: 1,
        chunk_id: 0,
        contribution_id: 1,
        is_verified: false,
    };
    let signature_locator = ContributionSignatureLocator {
        round_height: 1,
        chunk_id: 0,
        contribution_id: 1,
        is_verified: false,
    };
    let signature = ContributionFileSignature {
        signature: "sig".to_string(),
        state: ContributionState {
            challenge_hash: "c".to_string(),
            response_hash: "r".to_string(),
            next_challenge_hash: None,
        },
    };
    let request =
        PostChunkRequest::new(locator, vec![1, 2, 3], signature_locator, signature.clone());
    assert_eq!(request.contribution_locator(), locator);
    assert_eq!(request.contribution(), &vec![1, 2, 3]);
    assert_eq!(request.contribution_file_signature_locator(), signature_locator);
    assert_eq!(request.contribution_file_signature(), &signature);
}

#[test]
fn contribution_info_is_taken_from_the_current_and_the_finished() {
    assert!(may_post_contribution_info(true, false));
    assert!(may_post_contribution_info(false, true));
    assert!(may_post_contribution_info(true, true));
    assert!(!may_post_contribution_info(false, false));
}
