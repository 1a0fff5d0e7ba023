use vstd::prelude::*;

verus! {

use crate::dal::{
    StoryData, SessionAction, admins_of, admins_same, admins_same_except, apply_action_session,
    apply_action_participants, has_participant, participants_of, participants_same,
    participants_same_except, spec_is_admin, store_same,
};
use crate::errors::Error;
use crate::estimates::participant::spec_public_participant;
use crate::estimates::session::{
    PublicSession, Session, SessionID, SessionState, SessionView, spec_session_state, votes_of,
};
use crate::user::{AuthenticatedUser, UserID};

/// The transition a requested target state stands for; `Dirty` is
/// diagnostic-only and never a settable target.
pub open spec fn action_of(state: SessionState) -> SessionAction {
    match state {
        SessionState::Clean => SessionAction::Reset,
        SessionState::Voting => SessionAction::Clear,
        SessionState::Visible => SessionAction::TakeVotes,
        SessionState::Dirty => SessionAction::Reset,
    }
}

/// Persists one freshly drawn session and makes its creator the first
/// admin: the per-draw decision behind session creation. An identifier
/// already naming a session, or one whose admin set still holds the creator
/// from an earlier life, is in use and yields the conflict error with no
/// state change; an unused identifier must succeed.
pub fn create_session_with<D: StoryData>(
    dal: &mut D,
    user: &AuthenticatedUser,
    new_session: Session,
) -> (r: Result<SessionID, Error>)
    requires
        old(dal).inv(),
    ensures
        final(dal).inv(),
        final(dal).infallible() == old(dal).infallible(),
        (r matches Ok(sid) ==> {
            &&& sid@ == new_session@.session_id
            &&& !old(dal).store().sessions.contains_key(sid@)
            &&& !spec_is_admin(old(dal).store(), sid@, user@)
            &&& final(dal).store().sessions == old(dal).store().sessions.insert(
                sid@,
                new_session@,
            )
            &&& admins_of(final(dal).store(), sid@) == admins_of(old(dal).store(), sid@).push(
                user@,
            )
            &&& spec_is_admin(final(dal).store(), sid@, user@)
            &&& admins_same_except(old(dal).store(), final(dal).store(), sid@)
            &&& final(dal).store().users == old(dal).store().users
            &&& participants_same(old(dal).store(), final(dal).store())
        }),
        old(dal).infallible() ==> {
            let in_use = old(dal).store().sessions.contains_key(new_session@.session_id)
                || spec_is_admin(old(dal).store(), new_session@.session_id, user@);
            &&& (in_use ==> (r matches Err(e) && e is UserError && store_same(
                old(dal).store(),
                final(dal).store(),
            )))
            &&& (!in_use ==> r is Ok)
        },
{
    let session_id = new_session.session_id.clone();
    let taken = match dal.get_session(&session_id) {
        Ok(o) => o.is_some(),
        Err(e) => {
            return Err(e);
        },
    };
    let already_admin = match dal.is_admin(&session_id, &user.user_id) {
        Ok(b) => b,
        Err(e) => {
            return Err(e);
        },
    };
    if taken || already_admin {
        return Err(Error::UserError("session identifier already in use".to_owned()));
    }
    match dal.add_session(new_session) {
        Ok(()) => {},
        Err(e) => {
            return Err(e);
        },
    }
    match dal.add_admin(user.user_id.clone(), session_id.clone()) {
        Ok(()) => {},
        Err(e) => {
            return Err(e);
        },
    }
    proof {
        assert(admins_of(final(dal).store(), session_id@).last() == user@);
    }
    Ok(session_id)
}

/// Creates a fresh empty session under an identifier not yet in use and
/// makes its creator the first admin. An identifier collision is retried
/// with a fresh draw a bounded number of times before the conflict is
/// surfaced.
pub fn create_session<D: StoryData>(dal: &mut D, user: &AuthenticatedUser) -> (r: Result<
    SessionID,
    Error,
>)
    requires
        old(dal).inv(),
    ensures
        final(dal).inv(),
        final(dal).infallible() == old(dal).infallible(),
        (r matches Ok(sid) ==> {
            &&& !old(dal).store().sessions.contains_key(sid@)
            &&& final(dal).store().sessions == old(dal).store().sessions.insert(
                sid@,
                (SessionView { session_id: sid@, average: None }),
            )
            &&& admins_of(final(dal).store(), sid@) == admins_of(old(dal).store(), sid@).push(
                user@,
            )
            &&& spec_is_admin(final(dal).store(), sid@, user@)
            &&& admins_same_except(old(dal).store(), final(dal).store(), sid@)
            &&& final(dal).store().users == old(dal).store().users
            &&& participants_same(old(dal).store(), final(dal).store())
        }),
        old(dal).infallible() ==> (r matches Err(e) ==> e is UserError),
{
    let mut tries: usize = 0;
    while tries < 16
        invariant
            *dal == *old(dal),
            old(dal).inv(),
        decreases 16 - tries,
    {
        let new_session = Session::new();
        let session_id = new_session.session_id.clone();
        let taken = match dal.get_session(&session_id) {
            Ok(o) => o.is_some(),
            Err(e) => {
                return Err(e);
            },
        };
        let already_admin = match dal.is_admin(&session_id, &user.user_id) {
            Ok(b) => b,
            Err(e) => {
                return Err(e);
            },
        };
        if !taken && !already_admin {
            return create_session_with(dal, user, new_session);
        }
        tries = tries + 1;
    }
    Err(Error::UserError("could not draw an unused session identifier".to_owned()))
}

/// Removes a participant: allowed to the user leaving on their own and to
/// any admin of the session; everyone else is refused with no state change.
pub fn kick_user<D: StoryData>(
    dal: &mut D,
    session_id: &SessionID,
    user_id: &UserID,
    requester: &AuthenticatedUser,
) -> (r: Result<(), Error>)
    requires
        old(dal).inv(),
    ensures
        final(dal).inv(),
        final(dal).infallible() == old(dal).infallible(),
        !(requester@ == user_id@ || spec_is_admin(old(dal).store(), session_id@, requester@))
            ==> r is Err,
        (r is Ok ==> {
            &&& (requester@ == user_id@ || spec_is_admin(old(dal).store(), session_id@, requester@))
            &&& has_participant(old(dal).store(), session_id@, user_id@)
            &&& (exists|i: int|
                {
                    &&& 0 <= i < participants_of(old(dal).store(), session_id@).len()
                    &&& participants_of(old(dal).store(), session_id@)[i].user_id == user_id@
                    &&& participants_of(final(dal).store(), session_id@) == participants_of(
                        old(dal).store(),
                        session_id@,
                    ).remove(i)
                })
            &&& participants_same_except(old(dal).store(), final(dal).store(), session_id@)
            &&& final(dal).store().users == old(dal).store().users
            &&& final(dal).store().sessions == old(dal).store().sessions
            &&& admins_same(old(dal).store(), final(dal).store())
        }),
        old(dal).infallible() ==> {
            let auth = requester@ == user_id@ || spec_is_admin(
                old(dal).store(),
                session_id@,
                requester@,
            );
            &&& (!auth ==> (r matches Err(e) && e is UserForbidden && store_same(
                old(dal).store(),
                final(dal).store(),
            )))
            &&& (auth && !has_participant(old(dal).store(), session_id@, user_id@) ==> (
            r matches Err(e) && e is ObjectNotFound && store_same(
                old(dal).store(),
                final(dal).store(),
            )))
            &&& (auth && has_participant(old(dal).store(), session_id@, user_id@) ==> r is Ok)
        },
{
    let allowed = if requester.user_id == *user_id {
        true
    } else {
        match dal.is_admin(session_id, &requester.user_id) {
            Ok(b) => b,
            Err(e) => {
                return Err(e);
            },
        }
    };
    if allowed {
        dal.del_participant(user_id, session_id)
    } else {
        Err(Error::UserForbidden("user is not an admin of the session".to_owned()))
    }
}

/// Makes the user an admin of the session: only an existing admin may, and
/// only for a session that exists.
pub fn grant_admin<D: StoryData>(
    dal: &mut D,
    session_id: &SessionID,
    user_id: &UserID,
    requester: &AuthenticatedUser,
) -> (r: Result<(), Error>)
    requires
        old(dal).inv(),
    ensures
        final(dal).inv(),
        final(dal).infallible() == old(dal).infallible(),
        !spec_is_admin(old(dal).store(), session_id@, requester@) ==> r is Err,
        (r is Ok ==> {
            &&& old(dal).store().sessions.contains_key(session_id@)
            &&& spec_is_admin(old(dal).store(), session_id@, requester@)
            &&& !spec_is_admin(old(dal).store(), session_id@, user_id@)
            &&& admins_of(final(dal).store(), session_id@) == admins_of(
                old(dal).store(),
                session_id@,
            ).push(user_id@)
            &&& admins_same_except(old(dal).store(), final(dal).store(), session_id@)
            &&& final(dal).store().users == old(dal).store().users
            &&& final(dal).store().sessions == old(dal).store().sessions
            &&& participants_same(old(dal).store(), final(dal).store())
        }),
        old(dal).infallible() ==> {
            let m = old(dal).store();
            &&& (!m.sessions.contains_key(session_id@) ==> (r matches Err(e)
                && e is ObjectNotFound && store_same(m, final(dal).store())))
            &&& (m.sessions.contains_key(session_id@) && !spec_is_admin(m, session_id@, requester@)
                ==> (r matches Err(e) && e is UserForbidden && store_same(m, final(dal).store())))
            &&& (m.sessions.contains_key(session_id@) && spec_is_admin(m, session_id@, requester@)
                && spec_is_admin(m, session_id@, user_id@) ==> (r matches Err(e) && e is UserError
                && store_same(m, final(dal).store())))
            &&& (m.sessions.contains_key(session_id@) && spec_is_admin(m, session_id@, requester@)
                && !spec_is_admin(m, session_id@, user_id@) ==> r is Ok)
        },
{
    let exists_session = match dal.get_session(session_id) {
        Ok(o) => o.is_some(),
        Err(e) => {
            return Err(e);
        },
    };
    if !exists_session {
        return Err(Error::ObjectNotFound("can not make an admin for a non-existent session".to_owned()));
    }
    let requester_is_admin = match dal.is_admin(session_id, &requester.user_id) {
        Ok(b) => b,
        Err(e) => {
            return Err(e);
        },
    };
    if !requester_is_admin {
        return Err(Error::UserForbidden("user is not an admin of the session".to_owned()));
    }
    dal.add_admin(user_id.clone(), session_id.clone())
}

/// Strips the user of adminship: only an admin may.
pub fn revoke_admin<D: StoryData>(
    dal: &mut D,
    session_id: &SessionID,
    user_id: &UserID,
    requester: &AuthenticatedUser,
) -> (r: Result<(), Error>)
    requires
        old(dal).inv(),
    ensures
        final(dal).inv(),
        final(dal).infallible() == old(dal).infallible(),
        !spec_is_admin(old(dal).store(), session_id@, requester@) ==> r is Err,
        (r is Ok ==> {
            &&& spec_is_admin(old(dal).store(), session_id@, requester@)
            &&& spec_is_admin(old(dal).store(), session_id@, user_id@)
            &&& (exists|i: int|
                {
                    &&& 0 <= i < admins_of(old(dal).store(), session_id@).len()
                    &&& admins_of(old(dal).store(), session_id@)[i] == user_id@
                    &&& admins_of(final(dal).store(), session_id@) == admins_of(
                        old(dal).store(),
                        session_id@,
                    ).remove(i)
                })
            &&& admins_same_except(old(dal).store(), final(dal).store(), session_id@)
            &&& final(dal).store().users == old(dal).store().users
            &&& final(dal).store().sessions == old(dal).store().sessions
            &&& participants_same(old(dal).store(), final(dal).store())
        }),
        old(dal).infallible() ==> {
            let m = old(dal).store();
            &&& (!spec_is_admin(m, session_id@, requester@) ==> (r matches Err(e)
                && e is UserForbidden && store_same(m, final(dal).store())))
            &&& (spec_is_admin(m, session_id@, requester@) && !spec_is_admin(
                m,
                session_id@,
                user_id@,
            ) ==> (r matches Err(e) && e is ObjectNotFound && store_same(m, final(dal).store())))
            &&& (spec_is_admin(m, session_id@, requester@) && spec_is_admin(
                m,
                session_id@,
                user_id@,
            ) ==> r is Ok)
        },
{
    let requester_is_admin = match dal.is_admin(session_id, &requester.user_id) {
        Ok(b) => b,
        Err(e) => {
            return Err(e);
        },
    };
    if requester_is_admin {
        dal.del_admin(user_id, session_id)
    } else {
        Err(Error::UserForbidden("user is not an admin of the session".to_owned()))
    }
}

/// Reads a session with its participants and admins and projects it to its
/// public form; absent sessions read as absent, raising nothing.
pub fn lookup_session<D: StoryData>(dal: &D, session_id: &SessionID) -> (r: Result<
    Option<PublicSession>,
    Error,
>)
    requires
        dal.inv(),
    ensures
        (r matches Ok(Some(ps)) ==> {
            let m = dal.store();
            &&& m.sessions.contains_key(session_id@)
            &&& ps.session_id@ == m.sessions[session_id@].session_id
            &&& ps.average == m.sessions[session_id@].average
            &&& crate::user::uid_views(ps.admins@) == admins_of(m, session_id@)
            &&& ps.state == spec_session_state(votes_of(participants_of(m, session_id@)))
            &&& ps.users@.len() == participants_of(m, session_id@).len()
            &&& (forall|i: int|
                0 <= i < participants_of(m, session_id@).len() ==> #[trigger] ps.users@[i]@
                    == spec_public_participant(participants_of(m, session_id@)[i]))
        }),
        (r matches Ok(None) ==> !dal.store().sessions.contains_key(session_id@)),
        dal.infallible() ==> r is Ok,
{
    let participants = match dal.get_participants(session_id) {
        Ok(v) => v,
        Err(e) => {
            return Err(e);
        },
    };
    let admins = match dal.get_admins(session_id) {
        Ok(v) => v,
        Err(e) => {
            return Err(e);
        },
    };
    match dal.get_session(session_id) {
        Ok(Some(s)) => {
            proof {
                assert(crate::estimates::participant::pviews(participants@) == participants_of(
                    dal.store(),
                    session_id@,
                ));
            }
            Ok(Some(PublicSession::new(s, participants, admins)))
        },
        Ok(None) => Ok(None),
        Err(e) => Err(e),
    }
}

/// Moves the whole session to the requested target state: only an admin may,
/// and `Dirty` is never a valid target. The matching transition is applied
/// to the session and all its participants in one step.
pub fn update_session<D: StoryData>(
    dal: &mut D,
    session_id: &SessionID,
    into_state: &SessionState,
    requester: &AuthenticatedUser,
) -> (r: Result<(), Error>)
    requires
        old(dal).inv(),
        *into_state is Visible ==> participants_of(old(dal).store(), session_id@).len()
            <= 0xFFFF_FFFF,
    ensures
        final(dal).inv(),
        final(dal).infallible() == old(dal).infallible(),
        !spec_is_admin(old(dal).store(), session_id@, requester@) ==> r is Err,
        (r is Ok ==> {
            let m = old(dal).store();
            &&& spec_is_admin(m, session_id@, requester@)
            &&& !(*into_state is Dirty)
            &&& m.sessions.contains_key(session_id@)
            &&& final(dal).store().sessions == m.sessions.insert(
                session_id@,
                apply_action_session(
                    m.sessions[session_id@],
                    participants_of(m, session_id@),
                    action_of(*into_state),
                ),
            )
            &&& participants_of(final(dal).store(), session_id@) == apply_action_participants(
                participants_of(m, session_id@),
                action_of(*into_state),
            )
            &&& participants_same_except(m, final(dal).store(), session_id@)
            &&& final(dal).store().users == m.users
            &&& admins_same(m, final(dal).store())
        }),
        old(dal).infallible() ==> {
            let m = old(dal).store();
            &&& (!spec_is_admin(m, session_id@, requester@) ==> (r matches Err(e)
                && e is UserForbidden && store_same(m, final(dal).store())))
            &&& (spec_is_admin(m, session_id@, requester@) && *into_state is Dirty ==> (
            r matches Err(e) && e is UserError && store_same(m, final(dal).store())))
            &&& (spec_is_admin(m, session_id@, requester@) && !(*into_state is Dirty)
                && !m.sessions.contains_key(session_id@) ==> (r matches Err(e)
                && e is ObjectNotFound && store_same(m, final(dal).store())))
            &&& (spec_is_admin(m, session_id@, requester@) && !(*into_state is Dirty)
                && m.sessions.contains_key(session_id@) ==> r is Ok)
        },
{
    let requester_is_admin = match dal.is_admin(session_id, &requester.user_id) {
        Ok(b) => b,
        Err(e) => {
            return Err(e);
        },
    };
    if !requester_is_admin {
        return Err(Error::UserForbidden("user is not an admin of the session".to_owned()));
    }
    match *into_state {
        SessionState::Clean => dal.update_session(session_id, SessionAction::Reset),
        SessionState::Voting => dal.update_session(session_id, SessionAction::Clear),
        SessionState::Visible => dal.update_session(session_id, SessionAction::TakeVotes),
        SessionState::Dirty => Err(Error::UserError("can not set session to be dirty".to_owned())),
    }
}

/// Deletes a session: only an admin may, and only a session that exists.
/// Once deleted, a lookup reads it as absent and a second delete reports the
/// absence.
pub fn delete_session<D: StoryData>(
    dal: &mut D,
    session_id: &SessionID,
    requester: &AuthenticatedUser,
) -> (r: Result<(), Error>)
    requires
        old(dal).inv(),
    ensures
        final(dal).inv(),
        final(dal).infallible() == old(dal).infallible(),
        !spec_is_admin(old(dal).store(), session_id@, requester@) ==> r is Err,
        (r is Ok ==> {
            let m = old(dal).store();
            &&& spec_is_admin(m, session_id@, requester@)
            &&& m.sessions.contains_key(session_id@)
            &&& final(dal).store().sessions == m.sessions.remove(session_id@)
            &&& final(dal).store().users == m.users
            &&& participants_same(m, final(dal).store())
            &&& admins_same(m, final(dal).store())
        }),
        old(dal).infallible() ==> {
            let m = old(dal).store();
            &&& (!m.sessions.contains_key(session_id@) ==> (r matches Err(e)
                && e is ObjectNotFound && store_same(m, final(dal).store())))
            &&& (m.sessions.contains_key(session_id@) && !spec_is_admin(m, session_id@, requester@)
                ==> (r matches Err(e) && e is UserForbidden && store_same(m, final(dal).store())))
            &&& (m.sessions.contains_key(session_id@) && spec_is_admin(m, session_id@, requester@)
                ==> r is Ok)
        },
{
    let exists_session = match dal.get_session(session_id) {
        Ok(o) => o.is_some(),
        Err(e) => {
            return Err(e);
        },
    };
    if !exists_session {
        return Err(Error::ObjectNotFound("can not delete non-existent session".to_owned()));
    }
    let requester_is_admin = match dal.is_admin(session_id, &requester.user_id) {
        Ok(b) => b,
        Err(e) => {
            return Err(e);
        },
    };
    if requester_is_admin {
        dal.del_session(session_id)
    } else {
        Err(Error::UserForbidden("user is not an admin of the session".to_owned()))
    }
}

/// Once a session is deleted from the store, a lookup of the same identifier
/// finds nothing: deletion removes the session from subsequent lookups.
pub proof fn lemma_deleted_session_absent(sessions: Map<Seq<char>, SessionView>, sid: Seq<char>)
    ensures
        !sessions.remove(sid).contains_key(sid),
{
}

} // verus!
