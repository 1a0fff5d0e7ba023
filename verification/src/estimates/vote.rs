use vstd::prelude::*;

verus! {

/// The lifecycle of a single participant's vote: no vote cast yet, a cast
/// vote whose amount is still secret, or a revealed vote.
#[derive(Debug, PartialEq, Eq, Clone, Copy, Structural)]
pub enum VoteState {
    Empty,
    Hidden(u32),
    Visible(u32),
}

/// What casting a vote does to a vote state: any prior state is overwritten.
pub open spec fn spec_vote(v: VoteState, amount: u32) -> VoteState {
    VoteState::Hidden(amount)
}

/// What revealing does to a vote state: hidden amounts become visible,
/// everything else is unchanged.
pub open spec fn spec_reveal(v: VoteState) -> VoteState {
    match v {
        VoteState::Empty => VoteState::Empty,
        VoteState::Hidden(x) => VoteState::Visible(x),
        VoteState::Visible(x) => VoteState::Visible(x),
    }
}

/// What clearing does to a vote state: visible votes are discarded, hidden
/// votes survive.
pub open spec fn spec_clear(v: VoteState) -> VoteState {
    match v {
        VoteState::Empty => VoteState::Empty,
        VoteState::Hidden(x) => VoteState::Hidden(x),
        VoteState::Visible(_) => VoteState::Empty,
    }
}

/// What resetting does to a vote state: everything is discarded.
pub open spec fn spec_reset(v: VoteState) -> VoteState {
    VoteState::Empty
}

impl VoteState {
    pub fn new() -> (r: Self)
        ensures
            r == VoteState::Empty,
    {
        VoteState::Empty
    }

    /// Place a new vote, overwriting any prior state.
    pub fn vote(&mut self, amount: u32)
        ensures
            *final(self) == spec_vote(*old(self), amount),
    {
        *self = VoteState::Hidden(amount);
    }

    /// Take any hidden votes and make them visible.
    pub fn reveal_vote(&mut self)
        ensures
            *final(self) == spec_reveal(*old(self)),
    {
        *self = match *self {
            VoteState::Empty => VoteState::Empty,
            VoteState::Hidden(x) => VoteState::Visible(x),
            VoteState::Visible(x) => VoteState::Visible(x),
        };
    }

    /// Take any visible votes and make them empty; hidden votes are kept.
    pub fn clear(&mut self)
        ensures
            *final(self) == spec_clear(*old(self)),
    {
        *self = match *self {
            VoteState::Empty => VoteState::Empty,
            VoteState::Hidden(x) => VoteState::Hidden(x),
            VoteState::Visible(_) => VoteState::Empty,
        };
    }

    /// Take any votes and make them empty.
    pub fn reset(&mut self)
        ensures
            *final(self) == spec_reset(*old(self)),
            *final(self) == VoteState::Empty,
    {
        *self = Self::new();
    }
}

/// Revealing is idempotent: revealing an already revealed vote changes
/// nothing, whatever the vote was.
pub proof fn lemma_reveal_idempotent(v: VoteState)
    ensures
        spec_reveal(spec_reveal(v)) == spec_reveal(v),
{
}

/// Clearing never discards a hidden vote.
pub proof fn lemma_clear_keeps_hidden(x: u32)
    ensures
        spec_clear(VoteState::Hidden(x)) == VoteState::Hidden(x),
{
}

/// Resetting yields an empty vote regardless of the prior state.
pub proof fn lemma_reset_yields_empty(v: VoteState)
    ensures
        spec_reset(v) == VoteState::Empty,
{
}

/// The public face of a vote: its phase, never a hidden amount.
#[derive(Debug, PartialEq, Eq, Clone, Copy, Structural)]
pub enum PublicVoteState {
    Empty,
    Hidden,
    Visible,
}

/// The redacted projection of a vote: an amount is present exactly when the
/// vote is visible.
#[derive(Debug, PartialEq, Eq, Clone, Copy, Structural)]
pub struct PublicVote {
    pub state: PublicVoteState,
    pub amount: Option<u32>,
}

/// The projection as a spec-level function.
pub open spec fn spec_public_vote(vote: VoteState) -> PublicVote {
    match vote {
        VoteState::Empty => PublicVote { state: PublicVoteState::Empty, amount: None },
        VoteState::Hidden(_) => PublicVote { state: PublicVoteState::Hidden, amount: None },
        VoteState::Visible(x) => PublicVote { state: PublicVoteState::Visible, amount: Some(x) },
    }
}

impl<'a> From<&'a VoteState> for PublicVote {
    fn from(vote: &VoteState) -> (r: PublicVote) {
        let (vote_state, vote_amount) = match *vote {
            VoteState::Empty => (PublicVoteState::Empty, None),
            VoteState::Hidden(_) => (PublicVoteState::Hidden, None),
            VoteState::Visible(x) => (PublicVoteState::Visible, Some(x)),
        };
        PublicVote { state: vote_state, amount: vote_amount }
    }
}

impl<'a> vstd::std_specs::convert::FromSpecImpl<&'a VoteState> for PublicVote {
    open spec fn obeys_from_spec() -> bool {
        true
    }

    open spec fn from_spec(vote: &'a VoteState) -> PublicVote {
        spec_public_vote(*vote)
    }
}

/// A hidden or empty vote's amount never appears in the public projection.
pub proof fn lemma_public_vote_hides_amounts(v: VoteState)
    ensures
        !(v is Visible) ==> spec_public_vote(v).amount is None,
{
}

} // verus!
