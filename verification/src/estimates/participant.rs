use vstd::prelude::*;

verus! {

use crate::estimates::vote::{VoteState, PublicVoteState, spec_public_vote, spec_vote};
use crate::user::{Nickname, User, UserID};

/// A session identifier; defined with the session module.
use crate::estimates::session::SessionID;

/// A user's membership in one session, carrying the display name and the
/// vote for that session.
#[derive(Debug, PartialEq, Eq)]
pub struct Participant {
    pub user_id: UserID,
    pub session_id: SessionID,
    pub nickname: Nickname,
    pub vote: VoteState,
}

/// The spec-level content of a participant.
pub struct ParticipantView {
    pub user_id: Seq<char>,
    pub session_id: Seq<char>,
    pub nickname: Seq<char>,
    pub vote: VoteState,
}

impl View for Participant {
    type V = ParticipantView;

    open spec fn view(&self) -> ParticipantView {
        ParticipantView {
            user_id: self.user_id@,
            session_id: self.session_id@,
            nickname: self.nickname@,
            vote: self.vote,
        }
    }
}

impl Clone for Participant {
    fn clone(&self) -> (r: Self)
        ensures
            r@ == self@,
    {
        Participant {
            user_id: self.user_id.clone(),
            session_id: self.session_id.clone(),
            nickname: self.nickname.clone(),
            vote: self.vote,
        }
    }
}

impl Participant {
    /// A new membership for the given user, with no vote cast yet.
    pub fn new<U: User>(user: &U, session_id: SessionID, nickname: Nickname) -> (r: Self)
        ensures
            r@.user_id == user.spec_user_id(),
            r@.session_id == session_id@,
            r@.nickname == nickname@,
            r@.vote == VoteState::Empty,
    {
        Participant {
            user_id: user.user_id().clone(),
            session_id: session_id,
            nickname: nickname,
            vote: VoteState::new(),
        }
    }

    /// Cast a vote for this participant, overwriting any prior vote.
    pub fn vote(&mut self, amount: u32)
        ensures
            final(self)@ == (ParticipantView {
                vote: spec_vote(old(self)@.vote, amount),
                ..old(self)@
            }),
    {
        self.vote.vote(amount)
    }
}

/// The redacted projection of a participant: the vote phase is public, a
/// vote amount only once it is visible.
#[derive(Debug, PartialEq, Eq)]
pub struct PublicParticipant {
    pub user_id: UserID,
    pub nickname: Nickname,
    pub vote_state: PublicVoteState,
    pub vote_amount: Option<u32>,
}

/// The spec-level content of a public participant.
pub struct PublicParticipantView {
    pub user_id: Seq<char>,
    pub nickname: Seq<char>,
    pub vote_state: PublicVoteState,
    pub vote_amount: Option<u32>,
}

impl View for PublicParticipant {
    type V = PublicParticipantView;

    open spec fn view(&self) -> PublicParticipantView {
        PublicParticipantView {
            user_id: self.user_id@,
            nickname: self.nickname@,
            vote_state: self.vote_state,
            vote_amount: self.vote_amount,
        }
    }
}

impl Clone for PublicParticipant {
    fn clone(&self) -> (r: Self)
        ensures
            r@ == self@,
    {
        PublicParticipant {
            user_id: self.user_id.clone(),
            nickname: self.nickname.clone(),
            vote_state: self.vote_state,
            vote_amount: self.vote_amount,
        }
    }
}

/// The projection as a spec-level function: everything public is copied, and
/// an amount appears exactly when the vote is visible.
pub open spec fn spec_public_participant(p: ParticipantView) -> PublicParticipantView {
    PublicParticipantView {
        user_id: p.user_id,
        nickname: p.nickname,
        vote_state: spec_public_vote(p.vote).state,
        vote_amount: spec_public_vote(p.vote).amount,
    }
}

impl From<Participant> for PublicParticipant {
    fn from(p: Participant) -> (r: PublicParticipant) {
        let vote_state = match p.vote {
            VoteState::Empty => PublicVoteState::Empty,
            VoteState::Hidden(_) => PublicVoteState::Hidden,
            VoteState::Visible(_) => PublicVoteState::Visible,
        };
        let vote_amount = match p.vote {
            VoteState::Visible(x) => Some(x),
            _ => None,
        };
        PublicParticipant {
            user_id: p.user_id,
            nickname: p.nickname,
            vote_state: vote_state,
            vote_amount: vote_amount,
        }
    }
}

impl vstd::std_specs::convert::FromSpecImpl<Participant> for PublicParticipant {
    open spec fn obeys_from_spec() -> bool {
        true
    }

    open spec fn from_spec(p: Participant) -> PublicParticipant {
        PublicParticipant {
            user_id: p.user_id,
            nickname: p.nickname,
            vote_state: spec_public_vote(p.vote).state,
            vote_amount: spec_public_vote(p.vote).amount,
        }
    }
}

/// The views of a sequence of participants.
pub open spec fn pviews(ps: Seq<Participant>) -> Seq<ParticipantView> {
    ps.map(|i: int, p: Participant| p@)
}

} // verus!
