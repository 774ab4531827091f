//! The Fiat–Shamir transcript.
//!
//! A transcript is the sequence of bytes absorbed so far. A challenge is the
//! SHA-256 digest of that sequence, read as a field element; drawing one
//! appends a mark, so that the next challenge differs. Nothing else enters:
//! two transcripts with the same bytes give the same challenges.

use crate::field::digest_scalar;
use crate::field::scalar_bytes;
use crate::field::Scalar;
use crate::group::G1Point;
use sha2::Digest;
use sha2::Sha256;
use vstd::prelude::*;

verus! {

/// The byte that precedes an absorbed point.
pub const TAG_POINT: u8 = 1;

/// The byte that precedes an absorbed scalar.
pub const TAG_SCALAR: u8 = 2;

/// The byte that is absorbed when a challenge is drawn.
pub const TAG_CHALLENGE: u8 = 3;

/// The SHA-256 digest of a sequence of bytes.
pub uninterp spec fn sha256_of(data: Seq<u8>) -> Seq<u8>;

/// The transcript after a point has been absorbed.
pub open spec fn with_point(t: Seq<u8>, p: Seq<u8>) -> Seq<u8> {
    t.push(TAG_POINT) + p
}

/// The transcript after a scalar has been absorbed.
pub open spec fn with_scalar(t: Seq<u8>, s: nat) -> Seq<u8> {
    t.push(TAG_SCALAR) + scalar_bytes(s)
}

/// The challenge that a transcript gives.
pub open spec fn challenge_of(t: Seq<u8>) -> nat {
    digest_scalar(sha256_of(t))
}

/// The transcript after a challenge has been drawn from it.
pub open spec fn after_challenge(t: Seq<u8>) -> Seq<u8> {
    t.push(TAG_CHALLENGE)
}

/// One step in the life of a transcript.
pub enum TranscriptOp {
    /// A point is absorbed.
    CommitPoint(Seq<u8>),
    /// A scalar is absorbed.
    CommitScalar(nat),
    /// A challenge is drawn.
    Challenge,
}

/// The transcript after a sequence of steps.
pub open spec fn replay_state(start: Seq<u8>, ops: Seq<TranscriptOp>) -> Seq<u8>
    decreases ops.len(),
{
    if ops.len() == 0 {
        start
    } else {
        let before = replay_state(start, ops.drop_last());
        match ops.last() {
            TranscriptOp::CommitPoint(p) => with_point(before, p),
            TranscriptOp::CommitScalar(s) => with_scalar(before, s),
            TranscriptOp::Challenge => after_challenge(before),
        }
    }
}

/// The challenges drawn during a sequence of steps, in order.
pub open spec fn replay_challenges(start: Seq<u8>, ops: Seq<TranscriptOp>) -> Seq<nat>
    decreases ops.len(),
{
    if ops.len() == 0 {
        Seq::empty()
    } else {
        let earlier = replay_challenges(start, ops.drop_last());
        match ops.last() {
            TranscriptOp::Challenge => earlier.push(
                challenge_of(replay_state(start, ops.drop_last())),
            ),
            _ => earlier,
        }
    }
}

/// Two transcripts that start from the same bytes and take the same steps
/// end in the same state and have given the same challenges.
pub proof fn lemma_replay_is_deterministic(
    start1: Seq<u8>,
    ops1: Seq<TranscriptOp>,
    start2: Seq<u8>,
    ops2: Seq<TranscriptOp>,
)
    requires
        start1 =~= start2,
        ops1.len() == ops2.len(),
        forall|i: int| 0 <= i < ops1.len() ==> ops1[i] == ops2[i],
    ensures
        replay_state(start1, ops1) == replay_state(start2, ops2),
        replay_challenges(start1, ops1) == replay_challenges(start2, ops2),
{
    assert(ops1 =~= ops2);
}

/// A challenge depends on what was absorbed before it: the transcript from
/// which the second of two challenges is drawn is not the one from which the
/// first was.
pub proof fn lemma_challenge_moves_on(t: Seq<u8>)
    ensures
        after_challenge(t) != t,
        after_challenge(t).len() == t.len() + 1,
{
}

/// A Fiat–Shamir transcript: all that was absorbed, in order.
#[derive(Debug)]
pub struct Transcript {
    state: Vec<u8>,
}

impl View for Transcript {
    type V = Seq<u8>;

    closed spec fn view(&self) -> Seq<u8> {
        self.state@
    }
}

impl Transcript {
    /// A transcript that has absorbed only the personalization.
    pub fn new(personalization: &[u8]) -> (r: Transcript)
        ensures
            r@ == personalization@,
    {
        let mut state: Vec<u8> = Vec::new();
        let mut i: usize = 0;
        while i < personalization.len()
            invariant
                i <= personalization.len(),
                state@ == personalization@.take(i as int),
            decreases personalization.len() - i,
        {
            state.push(personalization[i]);
            assert(personalization@.take(i + 1) =~= personalization@.take(i as int).push(
                personalization@[i as int],
            ));
            i += 1;
        }
        assert(personalization@.take(personalization.len() as int) =~= personalization@);
        Transcript { state }
    }

    /// An independent copy: it shares the history up to here, and what is
    /// absorbed into one of the two does not reach the other.
    pub fn fork(&self) -> (r: Transcript)
        ensures
            r@ == self@,
    {
        let mut state: Vec<u8> = Vec::new();
        let mut i: usize = 0;
        while i < self.state.len()
            invariant
                i <= self.state.len(),
                state@ == self.state@.take(i as int),
            decreases self.state.len() - i,
        {
            state.push(self.state[i]);
            assert(self.state@.take(i + 1) =~= self.state@.take(i as int).push(
                self.state@[i as int],
            ));
            i += 1;
        }
        assert(self.state@.take(self.state.len() as int) =~= self.state@);
        Transcript { state }
    }

    /// Absorbs a group element.
    pub fn commit_point(&mut self, point: &G1Point)
        ensures
            final(self)@ == with_point(old(self)@, point@),
    {
        self.state.push(TAG_POINT);
        let mut i: usize = 0;
        while i < 48
            invariant
                i <= 48,
                self.state@ == old(self).state@.push(TAG_POINT) + point@.take(i as int),
            decreases 48 - i,
        {
            self.state.push(point.bytes[i]);
            assert(point@.take(i + 1) =~= point@.take(i as int).push(point@[i as int]));
            i += 1;
        }
        assert(point@.take(48) =~= point@);
    }

    /// Absorbs a field element.
    pub fn commit_scalar(&mut self, scalar: &Scalar)
        ensures
            final(self)@ == with_scalar(old(self)@, scalar@),
    {
        self.state.push(TAG_SCALAR);
        let mut bytes = scalar.to_bytes();
        self.state.append(&mut bytes);
    }

    /// Draws the next challenge, which depends on all that was absorbed
    /// before and on the challenges drawn before.
    pub fn get_challenge_scalar(&mut self) -> (r: Scalar)
        ensures
            r@ == challenge_of(old(self)@),
            final(self)@ == after_challenge(old(self)@),
    {
        let digest = sha256(&self.state);
        self.state.push(TAG_CHALLENGE);
        Scalar::from_digest(&digest)
    }
}

/// `Sha256::digest`: the SHA-256 digest of the bytes.
#[verifier::external_body]
fn sha256(data: &Vec<u8>) -> (r: [u8; 32])
    ensures
        r@ == sha256_of(data@),
{
    Sha256::digest(data).into()
}

} // verus!
