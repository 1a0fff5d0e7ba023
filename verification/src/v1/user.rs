use vstd::prelude::*;

verus! {

use crate::apikey::APIKey;
use crate::generator;

/// The vote lifecycle is the same in this older surface as in the current
/// one; the enum is shared.
pub use crate::estimates::vote::VoteState;
pub use crate::estimates::vote::PublicVoteState;

use crate::estimates::vote::{spec_clear, spec_public_vote, spec_reveal};

/// The flat user record of the older surface: identity, secret, display
/// name and the vote, all in one row.
#[derive(Debug, PartialEq, Eq)]
pub struct User {
    pub user_id: String,
    pub user_token: String,
    pub nickname: Option<String>,
    pub vote: VoteState,
}

impl Clone for User {
    fn clone(&self) -> (r: Self)
        ensures
            r == *self,
    {
        User {
            user_id: self.user_id.clone(),
            user_token: self.user_token.clone(),
            nickname: match &self.nickname {
                Some(s) => Some(s.clone()),
                None => None,
            },
            vote: self.vote,
        }
    }
}

impl User {
    /// A fresh user with random identity and token, an optional display
    /// name, and no vote cast.
    pub fn new(name: Option<&str>) -> (r: Self)
        ensures
            r.user_id@.len() == 15,
            r.user_token@.len() == 25,
            (name matches Some(n) ==> (r.nickname matches Some(s) && s@ == n@)),
            (name is None ==> r.nickname is None),
            r.vote == VoteState::Empty,
    {
        User {
            user_id: generator::user_id(),
            user_token: generator::authtoken(),
            nickname: match name {
                Some(s) => Some(s.to_owned()),
                None => None,
            },
            vote: VoteState::Empty,
        }
    }

    /// Cast a vote, overwriting any prior state.
    pub fn vote(&mut self, points: u32)
        ensures
            final(self).vote == VoteState::Hidden(points),
            final(self).user_id == old(self).user_id,
            final(self).user_token == old(self).user_token,
            final(self).nickname == old(self).nickname,
    {
        self.vote = VoteState::Hidden(points);
    }

    /// Take any hidden votes and make them visible.
    pub fn reveal_vote(&mut self)
        ensures
            final(self).vote == spec_reveal(old(self).vote),
            final(self).user_id == old(self).user_id,
            final(self).user_token == old(self).user_token,
            final(self).nickname == old(self).nickname,
    {
        self.vote = match self.vote {
            VoteState::Empty => VoteState::Empty,
            VoteState::Hidden(x) => VoteState::Visible(x),
            VoteState::Visible(x) => VoteState::Visible(x),
        };
    }

    /// Take any visible votes and make them empty; hidden votes are kept.
    pub fn clear(&mut self)
        ensures
            final(self).vote == spec_clear(old(self).vote),
            final(self).user_id == old(self).user_id,
            final(self).user_token == old(self).user_token,
            final(self).nickname == old(self).nickname,
    {
        self.vote = match self.vote {
            VoteState::Empty => VoteState::Empty,
            VoteState::Hidden(x) => VoteState::Hidden(x),
            VoteState::Visible(_) => VoteState::Empty,
        };
    }

    /// Take any votes and make them empty.
    pub fn reset(&mut self)
        ensures
            final(self).vote == VoteState::Empty,
            final(self).user_id == old(self).user_id,
            final(self).user_token == old(self).user_token,
            final(self).nickname == old(self).nickname,
    {
        self.vote = VoteState::Empty;
    }

    /// Whether the presented credentials name this user and carry its
    /// secret.
    pub fn is_authorized(&self, key: &APIKey) -> (r: bool)
        ensures
            r == (key.user_key matches Some(k) && self.user_id@ == key.user_id@
                && self.user_token@ == k@),
    {
        match &key.user_key {
            Some(user_token) => self.user_id == key.user_id && self.user_token == *user_token,
            None => false,
        }
    }
}

/// The redacted projection of a flat user: everything public, an amount
/// only once the vote is visible; whether the user is an admin is filled in
/// by whoever projects a whole session.
#[derive(Debug, PartialEq, Eq, Clone)]
pub struct PublicUser {
    pub user_id: String,
    pub nickname: Option<String>,
    pub is_admin: bool,
    pub vote_state: PublicVoteState,
    pub vote_amount: Option<u32>,
}

impl<'a> From<&'a User> for PublicUser {
    fn from(u: &User) -> (r: PublicUser) {
        let (vote_state, vote_amount) = match u.vote {
            VoteState::Empty => (PublicVoteState::Empty, None),
            VoteState::Hidden(_) => (PublicVoteState::Hidden, None),
            VoteState::Visible(x) => (PublicVoteState::Visible, Some(x)),
        };
        PublicUser {
            user_id: u.user_id.clone(),
            nickname: match &u.nickname {
                Some(s) => Some(s.clone()),
                None => None,
            },
            is_admin: false,
            vote_state: vote_state,
            vote_amount: vote_amount,
        }
    }
}

impl<'a> vstd::std_specs::convert::FromSpecImpl<&'a User> for PublicUser {
    open spec fn obeys_from_spec() -> bool {
        true
    }

    open spec fn from_spec(u: &'a User) -> PublicUser {
        spec_public_user(*u)
    }
}


/// The decision behind the legacy token check, once the user record was
/// fetched: an absent user reads as unauthorized, a present one authorizes
/// exactly its own credentials.
pub fn check_token(user: Option<&User>, key: &APIKey) -> (r: bool)
    ensures
        r == (user matches Some(u) && key.user_key matches Some(k) && u.user_id@ == key.user_id@
            && u.user_token@ == k@),
{
    match user {
        Some(u) => u.is_authorized(key),
        None => false,
    }
}

/// The projection of one flat user, view-level.
pub open spec fn spec_public_user(u: User) -> PublicUser {
    PublicUser {
        user_id: u.user_id,
        nickname: u.nickname,
        is_admin: false,
        vote_state: spec_public_vote(u.vote).state,
        vote_amount: spec_public_vote(u.vote).amount,
    }
}


impl crate::auth::ObjectAuth for User {
    open spec fn spec_object_token(&self) -> Seq<char> {
        self.user_token@
    }

    fn object_token(&self) -> (r: &String) {
        &self.user_token
    }
}

} // verus!
