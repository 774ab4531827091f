//! What the coordinator of a ceremony answers to its contributors: the
//! requests they post and the decisions behind the answers, free of the
//! transport that carries them.

use vstd::prelude::*;
use vstd::string::StringExecFns;

verus! {

/// The status of the contributor related to the current round.
#[derive(Clone, Copy, Debug, PartialEq, Eq)]
pub enum ContributorStatus {
    /// Waiting, at this position of a queue of this size.
    Queue(u64, u64),
    /// Contributing to the current round.
    Round,
    /// Done with its contribution.
    Finished,
    /// None of the others.
    Other,
}

/// Where the queue has put a contributor.
#[derive(Clone, Copy, Debug, PartialEq, Eq)]
pub enum QueuePlace {
    /// The queue does not know the contributor.
    Unknown,
    /// Known, with no round assigned yet.
    Unassigned,
    /// Assigned to the round of this height.
    Assigned(u64),
}

/// What the coordinator's state says of one contributor.
#[derive(Clone, Copy, Debug, PartialEq, Eq)]
pub struct ContributorFacts {
    /// Whether the contributor may lock a chunk in the current round.
    pub is_current: bool,
    /// Whether the contributor is in the queue.
    pub is_queued: bool,
    /// The number of contributors in the queue.
    pub queue_size: u64,
    /// Where the queue has put the contributor.
    pub place: QueuePlace,
    /// The height of the current round.
    pub current_round_height: u64,
    /// Whether the contributor has finished.
    pub is_finished: bool,
}

/// The status that follows from the facts: the current round comes first,
/// then the queue, then having finished. A queued contributor waits as many
/// rounds as its round lies ahead, or behind the whole queue while it has no
/// round; one that the queue does not know after all has no status.
pub open spec fn status_of(facts: ContributorFacts) -> ContributorStatus {
    if facts.is_current {
        ContributorStatus::Round
    } else if facts.is_queued {
        match facts.place {
            QueuePlace::Assigned(round) => ContributorStatus::Queue(
                (round - facts.current_round_height) as u64,
                facts.queue_size,
            ),
            QueuePlace::Unassigned => ContributorStatus::Queue(facts.queue_size, facts.queue_size),
            QueuePlace::Unknown => ContributorStatus::Other,
        }
    } else if facts.is_finished {
        ContributorStatus::Finished
    } else {
        ContributorStatus::Other
    }
}

/// Whether a queued contributor's round, if it has one, is not behind the
/// current round.
pub open spec fn round_not_passed(facts: ContributorFacts) -> bool {
    !facts.is_current && facts.is_queued ==> match facts.place {
        QueuePlace::Assigned(round) => round >= facts.current_round_height,
        _ => true,
    }
}

/// The status of a contributor, from what the coordinator's state says.
pub fn contributor_status(facts: &ContributorFacts) -> (r: ContributorStatus)
    requires
        round_not_passed(*facts),
    ensures
        r == status_of(*facts),
{
    if facts.is_current {
        return ContributorStatus::Round;
    }
    if facts.is_queued {
        let queue_position = match facts.place {
            QueuePlace::Assigned(round) => round - facts.current_round_height,
            QueuePlace::Unassigned => facts.queue_size,
            QueuePlace::Unknown => {
                return ContributorStatus::Other;
            },
        };
        return ContributorStatus::Queue(queue_position, facts.queue_size);
    }
    if facts.is_finished {
        return ContributorStatus::Finished;
    }
    ContributorStatus::Other
}

/// The status of a contributor; nothing where its round lies behind the
/// current one, which no state of the coordinator should say.
pub fn checked_contributor_status(facts: &ContributorFacts) -> (r: Option<ContributorStatus>)
    ensures
        r == if round_not_passed(*facts) {
            Some(status_of(*facts))
        } else {
            None
        },
{
    let passed = !facts.is_current && facts.is_queued && match facts.place {
        QueuePlace::Assigned(round) => round < facts.current_round_height,
        _ => false,
    };
    if passed {
        None
    } else {
        Some(contributor_status(facts))
    }
}

/// A unit of work in a round: one contribution to one chunk.
#[derive(Clone, Copy, Debug, PartialEq, Eq)]
pub struct Task {
    pub chunk_id: u64,
    pub contribution_id: u64,
}

/// Why a chunk is not handed out.
#[derive(Clone, Copy, Debug, PartialEq, Eq)]
pub enum TaskRefusal {
    /// The coordinator does not know the contributor.
    UnknownContributor,
    /// The task is not among those the contributor still has to do.
    UnknownTask(Task),
}

/// The task that a contributor asks for, where the coordinator knows the
/// contributor and the task is among its pending ones.
pub fn pending_task(pending: Option<&Vec<Task>>, task: Task) -> (r: Result<Task, TaskRefusal>)
    ensures
        r == match pending {
            None => Err::<Task, TaskRefusal>(TaskRefusal::UnknownContributor),
            Some(tasks) => if tasks@.contains(task) {
                Ok::<Task, TaskRefusal>(task)
            } else {
                Err::<Task, TaskRefusal>(TaskRefusal::UnknownTask(task))
            },
        },
{
    match pending {
        None => Err(TaskRefusal::UnknownContributor),
        Some(tasks) => {
            let mut i: usize = 0;
            while i < tasks.len()
                invariant
                    i <= tasks.len(),
                    pending == Some(tasks),
                    forall|j: int| 0 <= j < i ==> tasks@[j] != task,
                decreases tasks.len() - i,
            {
                if tasks[i].chunk_id == task.chunk_id && tasks[i].contribution_id
                    == task.contribution_id {
                    assert(tasks@[i as int] == task);
                    return Ok(task);
                }
                i += 1;
            }
            Err(TaskRefusal::UnknownTask(task))
        },
    }
}

/// What a request's signature is made over: the encoded public key, then
/// the encoded body where the request has one.
pub open spec fn signed_message_of(pubkey: Seq<char>, body: Option<Seq<char>>) -> Seq<char> {
    match body {
        Some(b) => pubkey + b,
        None => pubkey,
    }
}

/// The message that a request's signature is made over.
pub fn signed_message(pubkey: &str, body: Option<&str>) -> (r: String)
    ensures
        r@ == signed_message_of(
            pubkey@,
            match body {
                Some(b) => Some(b@),
                None => None,
            },
        ),
{
    let mut message = pubkey.to_owned();
    match body {
        Some(b) => {
            message.append(b);
        },
        None => {},
    }
    message
}

/// Whether a contributor may post the information on its contribution: the
/// one that contributes to the current round, and one that has finished.
pub fn may_post_contribution_info(is_current: bool, is_finished: bool) -> (r: bool)
    ensures
        r == (is_current || is_finished),
{
    is_current || is_finished
}

/// Where a contribution is kept.
#[derive(Clone, Copy, Debug, PartialEq, Eq)]
pub struct ContributionLocator {
    pub round_height: u64,
    pub chunk_id: u64,
    pub contribution_id: u64,
    pub is_verified: bool,
}

/// Where the signature of a contribution file is kept.
#[derive(Clone, Copy, Debug, PartialEq, Eq)]
pub struct ContributionSignatureLocator {
    pub round_height: u64,
    pub chunk_id: u64,
    pub contribution_id: u64,
    pub is_verified: bool,
}

/// The hashes that a contribution's signature covers.
#[derive(Clone, Debug, PartialEq, Eq)]
pub struct ContributionState {
    pub challenge_hash: String,
    pub response_hash: String,
    pub next_challenge_hash: Option<String>,
}

/// The signature of a contribution file, with what it covers.
#[derive(Clone, Debug, PartialEq, Eq)]
pub struct ContributionFileSignature {
    pub signature: String,
    pub state: ContributionState,
}

/// Request to post a chunk.
#[derive(Clone, Debug, PartialEq, Eq)]
pub struct PostChunkRequest {
    contribution_locator: ContributionLocator,
    contribution: Vec<u8>,
    contribution_file_signature_locator: ContributionSignatureLocator,
    contribution_file_signature: ContributionFileSignature,
}

impl PostChunkRequest {
    /// The locator of the contribution.
    pub closed spec fn spec_contribution_locator(&self) -> ContributionLocator {
        self.contribution_locator
    }

    /// The bytes of the contribution.
    pub closed spec fn spec_contribution(&self) -> Seq<u8> {
        self.contribution@
    }

    /// The locator of the signature.
    pub closed spec fn spec_contribution_file_signature_locator(
        &self,
    ) -> ContributionSignatureLocator {
        self.contribution_file_signature_locator
    }

    /// The signature of the contribution file.
    pub closed spec fn spec_contribution_file_signature(&self) -> ContributionFileSignature {
        self.contribution_file_signature
    }

    /// A request made of its four parts.
    pub fn new(
        contribution_locator: ContributionLocator,
        contribution: Vec<u8>,
        contribution_file_signature_locator: ContributionSignatureLocator,
        contribution_file_signature: ContributionFileSignature,
    ) -> (r: Self)
        ensures
            r.spec_contribution_locator() == contribution_locator,
            r.spec_contribution() == contribution@,
            r.spec_contribution_file_signature_locator() == contribution_file_signature_locator,
            r.spec_contribution_file_signature() == contribution_file_signature,
    {
        Self {
            contribution_locator,
            contribution,
            contribution_file_signature_locator,
            contribution_file_signature,
        }
    }

    /// The locator of the contribution.
    pub fn contribution_locator(&self) -> (r: ContributionLocator)
        ensures
            r == self.spec_contribution_locator(),
    {
        self.contribution_locator
    }

    /// The bytes of the contribution.
    pub fn contribution(&self) -> (r: &Vec<u8>)
        ensures
            r@ == self.spec_contribution(),
    {
        &self.contribution
    }

    /// The locator of the signature.
    pub fn contribution_file_signature_locator(&self) -> (r: ContributionSignatureLocator)
        ensures
            r == self.spec_contribution_file_signature_locator(),
    {
        self.contribution_file_signature_locator
    }

    /// The signature of the contribution file.
    pub fn contribution_file_signature(&self) -> (r: &ContributionFileSignature)
        ensures
            *r == self.spec_contribution_file_signature(),
    {
        &self.contribution_file_signature
    }
}

} // verus!
