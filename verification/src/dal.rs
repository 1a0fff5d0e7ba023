use vstd::prelude::*;

pub mod codec;
pub mod memory;
pub mod remote;

verus! {

use crate::errors::Error;
use crate::estimates::participant::{Participant, ParticipantView};
use crate::estimates::session::{
    Session, SessionID, SessionView, spec_take_votes_average, spec_reveal_all, spec_clear_all,
    spec_reset_all,
};
use crate::estimates::vote::VoteState;
use crate::user::{BasicUser, BasicUserView, Nickname, UserID};

/// A transactional mutation of a session together with all its participants:
/// reveal and average the votes, clear them, or reset them.
#[derive(Debug, Clone, Copy, PartialEq, Eq, Structural)]
pub enum SessionAction {
    TakeVotes,
    Clear,
    Reset,
}

/// A mutation of one participant: take a new display name, or cast a vote.
#[derive(Debug)]
pub enum ParticipantChange {
    Rename(Nickname),
    CastVote(u32),
}

/// What a session action does to the session record itself.
pub open spec fn apply_action_session(
    s: SessionView,
    ps: Seq<ParticipantView>,
    action: SessionAction,
) -> SessionView {
    match action {
        SessionAction::TakeVotes => SessionView {
            average: spec_take_votes_average(ps),
            ..s
        },
        SessionAction::Clear => SessionView { average: None, ..s },
        SessionAction::Reset => SessionView { average: None, ..s },
    }
}

/// What a session action does to the participant list.
pub open spec fn apply_action_participants(
    ps: Seq<ParticipantView>,
    action: SessionAction,
) -> Seq<ParticipantView> {
    match action {
        SessionAction::TakeVotes => spec_reveal_all(ps),
        SessionAction::Clear => spec_clear_all(ps),
        SessionAction::Reset => spec_reset_all(ps),
    }
}

/// What a participant change does to one participant.
pub open spec fn apply_participant_change(
    p: ParticipantView,
    change: ParticipantChange,
) -> ParticipantView {
    match change {
        ParticipantChange::Rename(n) => ParticipantView { nickname: n@, ..p },
        ParticipantChange::CastVote(x) => ParticipantView { vote: VoteState::Hidden(x), ..p },
    }
}

/// The abstract content of a whole store: each map is keyed by the owning
/// identifier. A session with no entry in `participants` or `admins` simply
/// has none.
pub struct StoreModel {
    pub users: Map<Seq<char>, BasicUserView>,
    pub sessions: Map<Seq<char>, SessionView>,
    pub participants: Map<Seq<char>, Seq<ParticipantView>>,
    pub admins: Map<Seq<char>, Seq<Seq<char>>>,
}

/// The participants of a session; none for an unknown session.
pub open spec fn participants_of(m: StoreModel, sid: Seq<char>) -> Seq<ParticipantView> {
    if m.participants.contains_key(sid) {
        m.participants[sid]
    } else {
        Seq::empty()
    }
}

/// The admins of a session; none for an unknown session.
pub open spec fn admins_of(m: StoreModel, sid: Seq<char>) -> Seq<Seq<char>> {
    if m.admins.contains_key(sid) {
        m.admins[sid]
    } else {
        Seq::empty()
    }
}

/// A well-formed store keys every user and session record under the
/// identifier the record itself carries; every backend's writes keep it so.
pub open spec fn store_wf(m: StoreModel) -> bool {
    &&& (forall|k: Seq<char>| m.users.contains_key(k) ==> #[trigger] m.users[k].user_id == k)
    &&& (forall|k: Seq<char>|
        m.sessions.contains_key(k) ==> #[trigger] m.sessions[k].session_id == k)
}

/// Whether the user is an admin of the session.
pub open spec fn spec_is_admin(m: StoreModel, sid: Seq<char>, uid: Seq<char>) -> bool {
    admins_of(m, sid).contains(uid)
}

/// Whether the user is a member of the session.
pub open spec fn has_participant(m: StoreModel, sid: Seq<char>, uid: Seq<char>) -> bool {
    exists|i: int|
        0 <= i < participants_of(m, sid).len() && participants_of(m, sid)[i].user_id == uid
}

/// The participant list with the member's entry changed.
pub open spec fn update_matching(
    ps: Seq<ParticipantView>,
    uid: Seq<char>,
    change: ParticipantChange,
) -> Seq<ParticipantView> {
    ps.map(
        |i: int, p: ParticipantView|
            if p.user_id == uid {
                apply_participant_change(p, change)
            } else {
                p
            },
    )
}

/// No session's participant list differs between the two stores.
pub open spec fn participants_same(m1: StoreModel, m2: StoreModel) -> bool {
    forall|k: Seq<char>| participants_of(m2, k) == participants_of(m1, k)
}

/// Only the given session's participant list may differ.
pub open spec fn participants_same_except(m1: StoreModel, m2: StoreModel, sid: Seq<char>) -> bool {
    forall|k: Seq<char>| k != sid ==> participants_of(m2, k) == participants_of(m1, k)
}

/// No session's admin list differs between the two stores.
pub open spec fn admins_same(m1: StoreModel, m2: StoreModel) -> bool {
    forall|k: Seq<char>| admins_of(m2, k) == admins_of(m1, k)
}

/// Only the given session's admin list may differ.
pub open spec fn admins_same_except(m1: StoreModel, m2: StoreModel, sid: Seq<char>) -> bool {
    forall|k: Seq<char>| k != sid ==> admins_of(m2, k) == admins_of(m1, k)
}

/// Nothing observable differs between the two stores.
pub open spec fn store_same(m1: StoreModel, m2: StoreModel) -> bool {
    &&& m2.users == m1.users
    &&& m2.sessions == m1.sessions
    &&& participants_same(m1, m2)
    &&& admins_same(m1, m2)
}

/// The transactional contract every storage backend fulfils: users, sessions,
/// participants and admin relations are read and mutated per aggregate.
///
/// `store` is the backend's abstract content and `inv` its well-formedness.
/// A backend whose operations cannot fail for reasons of their own — the
/// in-memory one — has `infallible`, and then owes the exact success and
/// error cases below; a remote backend may instead surface transport errors.
/// On a remote backend the compound operations are a sequence of independent
/// round trips, not one atomic step: a failure partway through may leave the
/// store partially updated, which is why nothing is promised of its state
/// after an error there.
pub trait StoryData: Sized {
    /// The abstract content of the store.
    spec fn store(&self) -> StoreModel;

    /// Whether operations can only fail for the business reasons stated
    /// here, never for the backend's own reasons.
    spec fn infallible(&self) -> bool;

    /// The backend's internal well-formedness.
    spec fn inv(&self) -> bool;

    /// A well-formed backend stores every record under its own identifier.
    proof fn inv_implies_wf(&self)
        requires
            self.inv(),
        ensures
            store_wf(self.store()),
    ;

    fn get_user(&self, user_id: &UserID) -> (r: Result<Option<BasicUser>, Error>)
        requires
            self.inv(),
        ensures
            (r matches Ok(Some(u)) ==> self.store().users.contains_key(user_id@) && u@
                == self.store().users[user_id@]),
            (r matches Ok(None) ==> !self.store().users.contains_key(user_id@)),
            self.infallible() ==> r is Ok,
    ;

    fn add_user(&mut self, user: BasicUser) -> (r: Result<(), Error>)
        requires
            old(self).inv(),
        ensures
            final(self).inv(),
            final(self).infallible() == old(self).infallible(),
            (r is Ok ==> {
                &&& final(self).store().users == old(self).store().users.insert(
                    user@.user_id,
                    user@,
                )
                &&& final(self).store().sessions == old(self).store().sessions
                &&& participants_same(old(self).store(), final(self).store())
                &&& admins_same(old(self).store(), final(self).store())
            }),
            old(self).infallible() ==> r is Ok,
    ;

    fn get_session(&self, session_id: &SessionID) -> (r: Result<Option<Session>, Error>)
        requires
            self.inv(),
        ensures
            (r matches Ok(Some(s)) ==> self.store().sessions.contains_key(session_id@) && s@
                == self.store().sessions[session_id@]),
            (r matches Ok(None) ==> !self.store().sessions.contains_key(session_id@)),
            self.infallible() ==> r is Ok,
    ;

    fn add_session(&mut self, session: Session) -> (r: Result<(), Error>)
        requires
            old(self).inv(),
        ensures
            final(self).inv(),
            final(self).infallible() == old(self).infallible(),
            (r is Ok ==> {
                &&& final(self).store().sessions == old(self).store().sessions.insert(
                    session@.session_id,
                    session@,
                )
                &&& final(self).store().users == old(self).store().users
                &&& participants_same(old(self).store(), final(self).store())
                &&& admins_same(old(self).store(), final(self).store())
            }),
            old(self).infallible() ==> r is Ok,
    ;

    fn del_session(&mut self, session_id: &SessionID) -> (r: Result<(), Error>)
        requires
            old(self).inv(),
        ensures
            final(self).inv(),
            final(self).infallible() == old(self).infallible(),
            (r is Ok ==> {
                &&& old(self).store().sessions.contains_key(session_id@)
                &&& final(self).store().sessions == old(self).store().sessions.remove(session_id@)
                &&& final(self).store().users == old(self).store().users
                &&& participants_same(old(self).store(), final(self).store())
                &&& admins_same(old(self).store(), final(self).store())
            }),
            old(self).infallible() ==> {
                &&& (old(self).store().sessions.contains_key(session_id@) ==> r is Ok)
                &&& (!old(self).store().sessions.contains_key(session_id@) ==> (
                r matches Err(e) && e is ObjectNotFound && store_same(
                    old(self).store(),
                    final(self).store(),
                )))
            },
    ;

    fn update_session(&mut self, session_id: &SessionID, action: SessionAction) -> (r: Result<
        (),
        Error,
    >)
        requires
            old(self).inv(),
            action is TakeVotes ==> participants_of(old(self).store(), session_id@).len()
                <= 0xFFFF_FFFF,
        ensures
            final(self).inv(),
            final(self).infallible() == old(self).infallible(),
            (r is Ok ==> {
                &&& old(self).store().sessions.contains_key(session_id@)
                &&& final(self).store().sessions == old(self).store().sessions.insert(
                    session_id@,
                    apply_action_session(
                        old(self).store().sessions[session_id@],
                        participants_of(old(self).store(), session_id@),
                        action,
                    ),
                )
                &&& participants_of(final(self).store(), session_id@) == apply_action_participants(
                    participants_of(old(self).store(), session_id@),
                    action,
                )
                &&& participants_same_except(old(self).store(), final(self).store(), session_id@)
                &&& final(self).store().users == old(self).store().users
                &&& admins_same(old(self).store(), final(self).store())
            }),
            old(self).infallible() ==> {
                &&& (old(self).store().sessions.contains_key(session_id@) ==> r is Ok)
                &&& (!old(self).store().sessions.contains_key(session_id@) ==> (
                r matches Err(e) && e is ObjectNotFound && store_same(
                    old(self).store(),
                    final(self).store(),
                )))
            },
    ;

    fn get_participants(&self, session_id: &SessionID) -> (r: Result<Vec<Participant>, Error>)
        requires
            self.inv(),
        ensures
            (r matches Ok(v) ==> crate::estimates::participant::pviews(v@) == participants_of(
                self.store(),
                session_id@,
            )),
            self.infallible() ==> r is Ok,
    ;

    fn add_participant(&mut self, participant: Participant) -> (r: Result<(), Error>)
        requires
            old(self).inv(),
        ensures
            final(self).inv(),
            final(self).infallible() == old(self).infallible(),
            (r is Ok ==> {
                &&& !has_participant(
                    old(self).store(),
                    participant@.session_id,
                    participant@.user_id,
                )
                &&& participants_of(final(self).store(), participant@.session_id)
                    == participants_of(old(self).store(), participant@.session_id).push(
                    participant@,
                )
                &&& participants_same_except(
                    old(self).store(),
                    final(self).store(),
                    participant@.session_id,
                )
                &&& final(self).store().users == old(self).store().users
                &&& final(self).store().sessions == old(self).store().sessions
                &&& admins_same(old(self).store(), final(self).store())
            }),
            old(self).infallible() ==> {
                &&& (has_participant(
                    old(self).store(),
                    participant@.session_id,
                    participant@.user_id,
                ) ==> (r matches Err(e) && e is UserError && store_same(
                    old(self).store(),
                    final(self).store(),
                )))
                &&& (!has_participant(
                    old(self).store(),
                    participant@.session_id,
                    participant@.user_id,
                ) ==> r is Ok)
            },
    ;

    fn del_participant(&mut self, user_id: &UserID, session_id: &SessionID) -> (r: Result<
        (),
        Error,
    >)
        requires
            old(self).inv(),
        ensures
            final(self).inv(),
            final(self).infallible() == old(self).infallible(),
            (r is Ok ==> {
                &&& has_participant(old(self).store(), session_id@, user_id@)
                &&& (exists|i: int|
                    {
                        &&& 0 <= i < participants_of(old(self).store(), session_id@).len()
                        &&& participants_of(old(self).store(), session_id@)[i].user_id == user_id@
                        &&& participants_of(final(self).store(), session_id@) == participants_of(
                            old(self).store(),
                            session_id@,
                        ).remove(i)
                    })
                &&& participants_same_except(old(self).store(), final(self).store(), session_id@)
                &&& final(self).store().users == old(self).store().users
                &&& final(self).store().sessions == old(self).store().sessions
                &&& admins_same(old(self).store(), final(self).store())
            }),
            old(self).infallible() ==> {
                &&& (has_participant(old(self).store(), session_id@, user_id@) ==> r is Ok)
                &&& (!has_participant(old(self).store(), session_id@, user_id@) ==> (
                r matches Err(e) && e is ObjectNotFound && store_same(
                    old(self).store(),
                    final(self).store(),
                )))
            },
    ;

    fn update_participant(
        &mut self,
        session_id: &SessionID,
        user_id: &UserID,
        change: ParticipantChange,
    ) -> (r: Result<(), Error>)
        requires
            old(self).inv(),
        ensures
            final(self).inv(),
            final(self).infallible() == old(self).infallible(),
            (r is Ok ==> {
                &&& has_participant(old(self).store(), session_id@, user_id@)
                &&& participants_of(final(self).store(), session_id@) == update_matching(
                    participants_of(old(self).store(), session_id@),
                    user_id@,
                    change,
                )
                &&& participants_same_except(old(self).store(), final(self).store(), session_id@)
                &&& final(self).store().users == old(self).store().users
                &&& final(self).store().sessions == old(self).store().sessions
                &&& admins_same(old(self).store(), final(self).store())
            }),
            old(self).infallible() ==> {
                &&& (has_participant(old(self).store(), session_id@, user_id@) ==> r is Ok)
                &&& (!has_participant(old(self).store(), session_id@, user_id@) ==> (
                r matches Err(e) && e is ObjectNotFound && store_same(
                    old(self).store(),
                    final(self).store(),
                )))
            },
    ;

    fn get_admins(&self, session_id: &SessionID) -> (r: Result<Vec<UserID>, Error>)
        requires
            self.inv(),
        ensures
            (r matches Ok(v) ==> crate::user::uid_views(v@) == admins_of(
                self.store(),
                session_id@,
            )),
            self.infallible() ==> r is Ok,
    ;

    fn add_admin(&mut self, user_id: UserID, session_id: SessionID) -> (r: Result<(), Error>)
        requires
            old(self).inv(),
        ensures
            final(self).inv(),
            final(self).infallible() == old(self).infallible(),
            (r is Ok ==> {
                &&& !spec_is_admin(old(self).store(), session_id@, user_id@)
                &&& admins_of(final(self).store(), session_id@) == admins_of(
                    old(self).store(),
                    session_id@,
                ).push(user_id@)
                &&& admins_same_except(old(self).store(), final(self).store(), session_id@)
                &&& final(self).store().users == old(self).store().users
                &&& final(self).store().sessions == old(self).store().sessions
                &&& participants_same(old(self).store(), final(self).store())
            }),
            old(self).infallible() ==> {
                &&& (spec_is_admin(old(self).store(), session_id@, user_id@) ==> (
                r matches Err(e) && e is UserError && store_same(
                    old(self).store(),
                    final(self).store(),
                )))
                &&& (!spec_is_admin(old(self).store(), session_id@, user_id@) ==> r is Ok)
            },
    ;

    fn del_admin(&mut self, user_id: &UserID, session_id: &SessionID) -> (r: Result<(), Error>)
        requires
            old(self).inv(),
        ensures
            final(self).inv(),
            final(self).infallible() == old(self).infallible(),
            (r is Ok ==> {
                &&& spec_is_admin(old(self).store(), session_id@, user_id@)
                &&& (exists|i: int|
                    {
                        &&& 0 <= i < admins_of(old(self).store(), session_id@).len()
                        &&& admins_of(old(self).store(), session_id@)[i] == user_id@
                        &&& admins_of(final(self).store(), session_id@) == admins_of(
                            old(self).store(),
                            session_id@,
                        ).remove(i)
                    })
                &&& admins_same_except(old(self).store(), final(self).store(), session_id@)
                &&& final(self).store().users == old(self).store().users
                &&& final(self).store().sessions == old(self).store().sessions
                &&& participants_same(old(self).store(), final(self).store())
            }),
            old(self).infallible() ==> {
                &&& (spec_is_admin(old(self).store(), session_id@, user_id@) ==> r is Ok)
                &&& (!spec_is_admin(old(self).store(), session_id@, user_id@) ==> (
                r matches Err(e) && e is ObjectNotFound && store_same(
                    old(self).store(),
                    final(self).store(),
                )))
            },
    ;

    fn is_admin(&self, session_id: &SessionID, user_id: &UserID) -> (r: Result<bool, Error>)
        requires
            self.inv(),
        ensures
            (r matches Ok(b) ==> b == spec_is_admin(self.store(), session_id@, user_id@)),
            self.infallible() ==> r is Ok,
    ;
}


/// Writing a user and reading the same identifier back yields the value
/// written: the round trip through any backend that meets the storage
/// contract, stated over the store model that `add_user` and `get_user`
/// promise.
pub proof fn lemma_user_round_trip(m: StoreModel, u: BasicUserView)
    ensures
        m.users.insert(u.user_id, u).contains_key(u.user_id),
        m.users.insert(u.user_id, u)[u.user_id] == u,
{
}

/// Writing a session and reading the same identifier back yields the value
/// written, stated over the store model that `add_session` and
/// `get_session` promise.
pub proof fn lemma_session_round_trip(m: StoreModel, s: SessionView)
    ensures
        m.sessions.insert(s.session_id, s).contains_key(s.session_id),
        m.sessions.insert(s.session_id, s)[s.session_id] == s,
{
}

/// Admitting a participant and reading the session's members back yields a
/// list that ends in the participant written, with everyone else in place,
/// stated over the participant lists that `add_participant` and
/// `get_participants` promise.
pub proof fn lemma_participant_round_trip(ps: Seq<ParticipantView>, p: ParticipantView)
    ensures
        ps.push(p).len() == ps.len() + 1,
        ps.push(p).last() == p,
        forall|i: int| 0 <= i < ps.len() ==> ps.push(p)[i] == ps[i],
{
}

/// A handle that can produce a storage backend for a request; fulfilled by
/// the process-wide providers that live outside the verified core.
pub trait StoryDataProvider: Send + Sync {
}

} // verus!
