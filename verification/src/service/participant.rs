use vstd::prelude::*;

verus! {

use crate::dal::{
    StoryData, ParticipantChange, admins_same, has_participant, participants_of,
    participants_same_except, store_same, update_matching,
};
use crate::errors::Error;
use crate::estimates::participant::{Participant, ParticipantView};
use crate::estimates::session::SessionID;
use crate::estimates::vote::VoteState;
use crate::user::{AuthenticatedUser, Nickname, UserID};

/// Joins the caller to a session, or renames their membership if they are
/// already in it: joining twice updates the nickname rather than creating a
/// duplicate. Only the user themselves may join; a missing session is
/// reported and nothing is created.
pub fn join_session<D: StoryData>(
    dal: &mut D,
    session_id: &SessionID,
    user_id: &UserID,
    user: &AuthenticatedUser,
    nickname: &Nickname,
) -> (r: Result<(), Error>)
    requires
        old(dal).inv(),
    ensures
        final(dal).inv(),
        final(dal).infallible() == old(dal).infallible(),
        (user_id@ != user@ ==> (r matches Err(e) && e is UserUnauthorized) && store_same(
            old(dal).store(),
            final(dal).store(),
        )),
        (r is Ok ==> user_id@ == user@ && (exists|i: int|
            {
                &&& 0 <= i < participants_of(final(dal).store(), session_id@).len()
                &&& participants_of(final(dal).store(), session_id@)[i].user_id == user_id@
                &&& participants_of(final(dal).store(), session_id@)[i].nickname == nickname@
            })),
        old(dal).infallible() && user_id@ == user@ ==> {
            let m = old(dal).store();
            &&& (!m.sessions.contains_key(session_id@) ==> (r matches Err(e)
                && e is ObjectNotFound && store_same(m, final(dal).store())))
            &&& (m.sessions.contains_key(session_id@) ==> {
                &&& r is Ok
                &&& final(dal).store().users == m.users
                &&& final(dal).store().sessions == m.sessions
                &&& admins_same(m, final(dal).store())
                &&& participants_same_except(m, final(dal).store(), session_id@)
                &&& (has_participant(m, session_id@, user_id@) ==> participants_of(
                    final(dal).store(),
                    session_id@,
                ) == update_matching(
                    participants_of(m, session_id@),
                    user_id@,
                    ParticipantChange::Rename(*nickname),
                ))
                &&& (!has_participant(m, session_id@, user_id@) ==> participants_of(
                    final(dal).store(),
                    session_id@,
                ) == participants_of(m, session_id@).push(
                    (ParticipantView {
                        user_id: user@,
                        session_id: session_id@,
                        nickname: nickname@,
                        vote: VoteState::Empty,
                    }),
                ))
            })
        },
{
    if !(*user_id == user.user_id) {
        return Err(Error::UserUnauthorized);
    }
    let session_found = match dal.get_session(session_id) {
        Ok(o) => o.is_some(),
        Err(e) => {
            return Err(e);
        },
    };
    if !session_found {
        return Err(Error::ObjectNotFound("can not participate in non-existent session".to_owned()));
    }
    let ghost pre = old(dal).store();
    match dal.update_participant(
        session_id,
        &user.user_id,
        ParticipantChange::Rename(nickname.clone()),
    ) {
        Err(Error::ObjectNotFound(_)) => {
            let member = Participant::new(user, session_id.clone(), nickname.clone());
            let added = dal.add_participant(member);
            proof {
                if added is Ok {
                    let ps = participants_of(dal.store(), session_id@);
                    assert(ps[ps.len() - 1].user_id == user_id@);
                    assert(ps[ps.len() - 1].nickname == nickname@);
                }
            }
            added
        },
        x => {
            proof {
                if x is Ok {
                    let mid_ps = participants_of(pre, session_id@);
                    let j = choose|j: int|
                        0 <= j < mid_ps.len() && mid_ps[j].user_id == user.user_id@;
                    assert(participants_of(dal.store(), session_id@)[j].user_id == user_id@);
                    assert(participants_of(dal.store(), session_id@)[j].nickname == nickname@);
                }
            }
            x
        },
    }
}

/// Casts the caller's vote in a session; only the user themselves may vote,
/// and only as an existing participant.
pub fn place_vote<D: StoryData>(
    dal: &mut D,
    session_id: &SessionID,
    user_id: &UserID,
    user: &AuthenticatedUser,
    vote: u32,
) -> (r: Result<(), Error>)
    requires
        old(dal).inv(),
    ensures
        final(dal).inv(),
        final(dal).infallible() == old(dal).infallible(),
        (user_id@ != user@ ==> (r matches Err(e) && e is UserUnauthorized) && store_same(
            old(dal).store(),
            final(dal).store(),
        )),
        (r is Ok ==> {
            let m = old(dal).store();
            &&& user_id@ == user@
            &&& has_participant(m, session_id@, user_id@)
            &&& participants_of(final(dal).store(), session_id@) == update_matching(
                participants_of(m, session_id@),
                user_id@,
                ParticipantChange::CastVote(vote),
            )
            &&& participants_same_except(m, final(dal).store(), session_id@)
            &&& final(dal).store().users == m.users
            &&& final(dal).store().sessions == m.sessions
            &&& admins_same(m, final(dal).store())
        }),
        old(dal).infallible() && user_id@ == user@ ==> {
            let m = old(dal).store();
            &&& (has_participant(m, session_id@, user_id@) ==> r is Ok)
            &&& (!has_participant(m, session_id@, user_id@) ==> (r matches Err(e)
                && e is ObjectNotFound && store_same(m, final(dal).store())))
        },
{
    if !(*user_id == user.user_id) {
        return Err(Error::UserUnauthorized);
    }
    dal.update_participant(session_id, &user.user_id, ParticipantChange::CastVote(vote))
}

} // verus!
