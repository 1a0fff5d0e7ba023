use vstd::prelude::*;

verus! {

use vstd::string::StringExecFns;

use crate::dal::codec::{
    decode_participant, decode_session, decode_user, enc_participant, enc_session, enc_user,
    encode_participant, encode_session,
};
use crate::dal::{
    ParticipantChange, SessionAction, apply_action_participants, apply_action_session,
    apply_participant_change,
};
use crate::errors::Error;
use crate::estimates::participant::{Participant, ParticipantView, pviews};
use crate::estimates::session::{Session, SessionID, SessionView};
use crate::user::{BasicUser, BasicUserView, UserID};

/// The tables of the remote key/value layout: one record per aggregate under
/// a table-qualified key.
#[derive(Debug, Clone, Copy, PartialEq, Eq, Structural)]
pub enum RedisTable {
    User,
    Session,
    Participant,
}

/// The relationship sets of the remote layout: set-typed keys holding member
/// identifiers.
#[derive(Debug, Clone, Copy, PartialEq, Eq, Structural)]
pub enum RedisSet {
    ParticipantUID,
    ParticipantName,
    Admin,
}

/// The key prefix of a table.
pub open spec fn spec_table_prefix(table: RedisTable) -> Seq<char> {
    match table {
        RedisTable::User => "STORYESTIMATES_USER_"@,
        RedisTable::Session => "STORYESTIMATES_SESSION_"@,
        RedisTable::Participant => "STORYESTIMATES_PARTICIPANT_"@,
    }
}

/// The key prefix of a relationship set.
pub open spec fn spec_set_prefix(set: RedisSet) -> Seq<char> {
    match set {
        RedisSet::ParticipantUID => "STORYESTIMATES_set_PARTICIPANTUID_"@,
        RedisSet::ParticipantName => "STORYESTIMATES_set_PARTICIPANTNAME_"@,
        RedisSet::Admin => "STORYESTIMATES_set_ADMIN_"@,
    }
}

/// The full key of one aggregate's record in its table.
pub fn redis_table_key(key: &str, table: RedisTable) -> (r: String)
    ensures
        r@ == spec_table_prefix(table) + key@,
{
    let mut s = match table {
        RedisTable::User => String::from_str("STORYESTIMATES_USER_"),
        RedisTable::Session => String::from_str("STORYESTIMATES_SESSION_"),
        RedisTable::Participant => String::from_str("STORYESTIMATES_PARTICIPANT_"),
    };
    s.append(key);
    s
}

/// The full key of one aggregate's relationship set.
pub fn redis_set_key(key: &str, set: RedisSet) -> (r: String)
    ensures
        r@ == spec_set_prefix(set) + key@,
{
    let mut s = match set {
        RedisSet::ParticipantUID => String::from_str("STORYESTIMATES_set_PARTICIPANTUID_"),
        RedisSet::ParticipantName => String::from_str("STORYESTIMATES_set_PARTICIPANTNAME_"),
        RedisSet::Admin => String::from_str("STORYESTIMATES_set_ADMIN_"),
    };
    s.append(key);
    s
}

/// The row identifier of a participant: its session, an underscore, its
/// user.
pub fn participant_key(sid: &SessionID, uid: &UserID) -> (r: String)
    ensures
        r@ == sid@ + "_"@ + uid@,
{
    let mut s = sid.0.clone();
    s.append("_");
    s.append(uid.0.as_str());
    s
}

/// Demands a value where the remote store had to hold one: absence becomes
/// the not-found error, any other failure passes through.
pub fn strict<T>(redis_result: Result<Option<T>, Error>) -> (r: Result<T, Error>)
    ensures
        (redis_result matches Ok(Some(x)) ==> (r matches Ok(y) && x == y)),
        (r is Ok ==> (redis_result matches Ok(o) && o is Some)),
        (redis_result matches Ok(None) ==> (r matches Err(e) && e is ObjectNotFound)),
        (redis_result matches Err(e) ==> (r matches Err(e2) && e2 == e)),
{
    match redis_result {
        Ok(Some(x)) => Ok(x),
        Ok(None) => Err(Error::ObjectNotFound("expected key missing from the remote store".to_owned())),
        Err(e) => Err(e),
    }
}

/// Reads a user record fetched from the remote store: no row means no user,
/// a row must decode to exactly the user it encodes.
pub fn remote_get_user(row: Option<Vec<u8>>) -> (r: Result<Option<BasicUser>, Error>)
    ensures
        (row is None ==> (r matches Ok(o) && o is None)),
        (r matches Ok(Some(u)) ==> (row matches Some(b) && b@ == enc_user(u@))),
        (forall|uv: BasicUserView|
            (row matches Some(b) && b@ == #[trigger] enc_user(uv)) ==> (r matches Ok(Some(u)) && u@
                == uv)),
{
    match row {
        None => Ok(None),
        Some(bytes) => match decode_user(&bytes) {
            Some(u) => Ok(Some(u)),
            None => Err(Error::BackendError("stored record could not be decoded".to_owned())),
        },
    }
}

/// Reads a session record fetched from the remote store.
pub fn remote_get_session(row: Option<Vec<u8>>) -> (r: Result<Option<Session>, Error>)
    ensures
        (row is None ==> (r matches Ok(o) && o is None)),
        (r matches Ok(Some(s)) ==> (row matches Some(b) && b@ == enc_session(s@))),
        (forall|sv: SessionView|
            (row matches Some(b) && b@ == #[trigger] enc_session(sv)) ==> (r matches Ok(Some(s))
                && s@ == sv)),
{
    match row {
        None => Ok(None),
        Some(bytes) => match decode_session(&bytes) {
            Some(s) => Ok(Some(s)),
            None => Err(Error::BackendError("stored record could not be decoded".to_owned())),
        },
    }
}

/// Writing a session row and reading it back through the remote read path
/// yields an equal record: the remote backend's value layer round-trips
/// every session, whatever it holds.
pub fn remote_session_round_trip(s: &Session) -> (r: Session)
    ensures
        r@ == s@,
{
    let row = encode_session(s);
    match remote_get_session(Some(row)) {
        Ok(Some(x)) => x,
        _ => vstd::pervasive::unreached(),
    }
}

/// Joins the member index of a session against the fetched participant
/// rows: a member whose row is gone is a data-integrity fault, any row there
/// must decode to exactly the participant it encodes, and rows that are all
/// present and well formed must load.
pub fn remote_load_participants(rows: Vec<Option<Vec<u8>>>) -> (r: Result<Vec<Participant>, Error>)
    ensures
        (r matches Ok(v) ==> {
            &&& v@.len() == rows@.len()
            &&& (forall|i: int|
                0 <= i < rows@.len() ==> (#[trigger] rows@[i] matches Some(b) && b@
                    == enc_participant(pviews(v@)[i])))
        }),
        ((exists|i: int| 0 <= i < rows@.len() && #[trigger] rows@[i] is None) ==> r is Err),
        (r matches Err(e) ==> e is DataIntegrityError || e is BackendError),
        ((exists|i: int| 0 <= i < rows@.len() && #[trigger] rows@[i] is None) && (forall|i: int|
            0 <= i < rows@.len() ==> (#[trigger] rows@[i] matches Some(b) ==> (exists|pv:
                ParticipantView| b@ == enc_participant(pv)))) ==> (r matches Err(e)
            && e is DataIntegrityError)),
        ((forall|i: int|
            0 <= i < rows@.len() ==> (#[trigger] rows@[i] matches Some(b) && (exists|pv:
                ParticipantView| b@ == enc_participant(pv)))) ==> r is Ok),

{
    let n = rows.len();
    let mut out: Vec<Participant> = Vec::new();
    let mut i: usize = 0;
    while i < n
        invariant
            n == rows@.len(),
            i <= n,
            out@.len() == i,
            forall|k: int|
                0 <= k < i ==> (#[trigger] rows@[k] matches Some(b) && b@ == enc_participant(
                    pviews(out@)[k],
                )),
        decreases n - i,
    {
        match &rows[i] {
            None => {
                proof {
                    assert(!(rows@[i as int] matches Some(b) && (exists|pv: ParticipantView| b@
                        == enc_participant(pv))));
                }
                return Err(Error::DataIntegrityError("a listed participant has no stored record".to_owned()));
            },
            Some(bytes) => match decode_participant(bytes) {
                Some(p) => {
                    out.push(p);
                    proof {
                        assert forall|k: int|
                            0 <= k < i + 1 implies (#[trigger] rows@[k] matches Some(b) && b@
                            == enc_participant(pviews(out@)[k])) by {
                            if k < i {
                                assert(pviews(out@.drop_last())[k] == pviews(out@)[k]);
                            }
                        }
                    }
                },
                None => {
                    proof {
                        assert forall|pv: ParticipantView| bytes@ != #[trigger] enc_participant(
                            pv,
                        ) by {
                            if bytes@ == enc_participant(pv) {
                                assert(false);
                            }
                        }
                        assert(!(rows@[i as int] matches Some(b) && (exists|pv: ParticipantView|
                            b@ == enc_participant(pv))));
                    }
                    return Err(Error::BackendError("stored record could not be decoded".to_owned()));
                },
            },
        }
        i = i + 1;
    }
    proof {
        assert forall|i2: int|
            0 <= i2 < rows@.len() implies !(#[trigger] rows@[i2] is None) by {}
    }
    Ok(out)
}

/// The writes that admit a new participant, once the member index was asked:
/// a member twice over is the duplicate-join conflict, otherwise the row to
/// store under its key.
pub fn remote_add_participant_plan(already_member: bool, participant: Participant) -> (r: Result<
    (String, Vec<u8>),
    Error,
>)
    ensures
        (already_member ==> (r matches Err(e) && e is UserError)),
        (!already_member ==> (r matches Ok((k, b)) && k@ == spec_table_prefix(
            RedisTable::Participant,
        ) + participant@.session_id + "_"@ + participant@.user_id && b@ == enc_participant(
            participant@,
        ))),
{
    if already_member {
        return Err(Error::UserError("that user is already part of this session".to_owned()));
    }
    let pkey = participant_key(&participant.session_id, &participant.user_id);
    let true_key = redis_table_key(pkey.as_str(), RedisTable::Participant);
    let row = encode_participant(&participant);
    proof {
        assert(true_key@ =~= spec_table_prefix(RedisTable::Participant) + participant@.session_id
            + "_"@ + participant@.user_id);
    }
    Ok((true_key, row))
}

/// Settles a participant removal after the member index answered: removing a
/// non-member is the not-found error, otherwise the row key to delete.
pub fn remote_del_participant_plan(
    removed: bool,
    session_id: &SessionID,
    user_id: &UserID,
) -> (r: Result<String, Error>)
    ensures
        (!removed ==> (r matches Err(e) && e is ObjectNotFound)),
        (removed ==> (r matches Ok(k) && k@ == spec_table_prefix(RedisTable::Participant)
            + session_id@ + "_"@ + user_id@)),
{
    if !removed {
        return Err(Error::ObjectNotFound("user was not a member of the session".to_owned()));
    }
    let pkey = participant_key(session_id, user_id);
    let true_key = redis_table_key(pkey.as_str(), RedisTable::Participant);
    proof {
        assert(true_key@ =~= spec_table_prefix(RedisTable::Participant) + session_id@ + "_"@
            + user_id@);
    }
    Ok(true_key)
}


/// Settles an admin grant after the member index answered: an admin twice
/// over is the duplicate-grant conflict, otherwise the grant proceeds.
pub fn remote_add_admin_plan(already_admin: bool) -> (r: Result<(), Error>)
    ensures
        (already_admin ==> (r matches Err(e) && e is UserError)),
        (!already_admin ==> r is Ok),
{
    if already_admin {
        Err(Error::UserError("that user is already an admin of this session".to_owned()))
    } else {
        Ok(())
    }
}

/// Settles an admin revocation after the member index answered: revoking a
/// non-admin is the not-found error.
pub fn remote_del_admin_plan(removed: bool) -> (r: Result<(), Error>)
    ensures
        (!removed ==> (r matches Err(e) && e is ObjectNotFound)),
        (removed ==> r is Ok),
{
    if removed {
        Ok(())
    } else {
        Err(Error::ObjectNotFound("user was not an admin of the session".to_owned()))
    }
}

/// Applies one participant change to a fetched row: a missing row is the
/// not-found error, a present row must decode, and the write holds exactly
/// the changed participant.
pub fn remote_update_participant_plan(row: Option<Vec<u8>>, change: ParticipantChange) -> (r:
    Result<(String, Vec<u8>), Error>)
    ensures
        (row is None ==> (r matches Err(e) && e is ObjectNotFound)),
        (forall|pv: ParticipantView|
            (row matches Some(b) && b@ == #[trigger] enc_participant(pv)) ==> (r matches Ok(x)
                && x.1@ == enc_participant(apply_participant_change(pv, change)) && x.0@
                == spec_table_prefix(RedisTable::Participant) + pv.session_id + "_"@
                + pv.user_id)),
{
    let bytes = match row {
        None => {
            return Err(Error::ObjectNotFound("user was not a member of the session".to_owned()));
        },
        Some(b) => b,
    };
    let mut participant = match decode_participant(&bytes) {
        None => {
            return Err(Error::BackendError("stored record could not be decoded".to_owned()));
        },
        Some(p) => p,
    };
    let pkey = participant_key(&participant.session_id, &participant.user_id);
    let true_key = redis_table_key(pkey.as_str(), RedisTable::Participant);
    let ghost pv0 = participant@;
    match change {
        ParticipantChange::Rename(n) => {
            participant.nickname = n;
        },
        ParticipantChange::CastVote(x) => {
            participant.vote.vote(x);
        },
    }
    proof {
        assert(true_key@ =~= spec_table_prefix(RedisTable::Participant) + pv0.session_id + "_"@
            + pv0.user_id);
    }
    let row2 = encode_participant(&participant);
    Ok((true_key, row2))
}

/// Builds the writes for an applied whole-session transition: the new
/// session row under its key, and every participant row under its key.
fn session_writes(
    session: Session,
    participants: Vec<Participant>,
    action: SessionAction,
) -> (r: (String, Vec<u8>, Vec<(String, Vec<u8>)>))
    requires
        action is TakeVotes ==> participants@.len() <= 0xFFFF_FFFF,
    ensures
        r.0@ == spec_table_prefix(RedisTable::Session) + session@.session_id,
        r.1@ == enc_session(apply_action_session(session@, pviews(participants@), action)),
        r.2@.len() == participants@.len(),
        (forall|i: int|
            0 <= i < r.2@.len() ==> (#[trigger] r.2@[i]).1@ == enc_participant(
                apply_action_participants(pviews(participants@), action)[i],
            )),
{
    let ghost old_ps = pviews(participants@);
    let key = redis_table_key(session.session_id.0.as_str(), RedisTable::Session);
    let mut session = session;
    let mut ps = participants;
    match action {
        SessionAction::TakeVotes => session.take_votes(&mut ps),
        SessionAction::Clear => session.clear(&mut ps),
        SessionAction::Reset => session.reset(&mut ps),
    }
    let session_bytes = encode_session(&session);
    let n = ps.len();
    let ghost new_ps = apply_action_participants(old_ps, action);
    let mut writes: Vec<(String, Vec<u8>)> = Vec::new();
    let mut i: usize = 0;
    while i < n
        invariant
            n == ps@.len(),
            pviews(ps@) == new_ps,
            i <= n,
            writes@.len() == i,
            forall|k: int| 0 <= k < i ==> (#[trigger] writes@[k]).1@ == enc_participant(new_ps[k]),
        decreases n - i,
    {
        let p = &ps[i];
        let pkey = participant_key(&p.session_id, &p.user_id);
        let true_key = redis_table_key(pkey.as_str(), RedisTable::Participant);
        let row = encode_participant(p);
        proof {
            assert(pviews(ps@)[i as int] == ps@[i as int]@);
        }
        writes.push((true_key, row));
        i = i + 1;
    }
    proof {
        assert(new_ps.len() == old_ps.len());
        assert(old_ps.len() == participants@.len());
        assert(pviews(ps@).len() == ps@.len());
    }
    (key, session_bytes, writes)
}

/// Applies a whole-session transition to the fetched session row and the
/// already loaded participants: the session must exist and decode; the
/// writes hold exactly the transitioned session and every participant.
pub fn remote_update_session_plan(
    session_row: Option<Vec<u8>>,
    participants: Vec<Participant>,
    action: SessionAction,
) -> (r: Result<(String, Vec<u8>, Vec<(String, Vec<u8>)>), Error>)
    requires
        action is TakeVotes ==> participants@.len() <= 0xFFFF_FFFF,
    ensures
        (session_row is None ==> (r matches Err(e) && e is ObjectNotFound)),
        (forall|sv: SessionView|
            (session_row matches Some(b) && b@ == #[trigger] enc_session(sv)) ==> (r matches Ok(x)
                && {
                &&& x.0@ == spec_table_prefix(RedisTable::Session) + sv.session_id
                &&& x.1@ == enc_session(apply_action_session(sv, pviews(participants@), action))
                &&& x.2@.len() == participants@.len()
                &&& (forall|i: int|
                    0 <= i < x.2@.len() ==> (#[trigger] x.2@[i]).1@ == enc_participant(
                        apply_action_participants(pviews(participants@), action)[i],
                    ))
            })),
{
    let bytes = match session_row {
        None => {
            return Err(Error::ObjectNotFound("user was not a member of the session".to_owned()));
        },
        Some(b) => b,
    };
    let ghost b0 = bytes@;
    match decode_session(&bytes) {
        None => Err(Error::BackendError("stored record could not be decoded".to_owned())),
        Some(session) => {
            let ghost sv0 = session@;
            let out = session_writes(session, participants, action);
            proof {
                assert forall|sv: SessionView|
                    session_row matches Some(b) && b@ == #[trigger] enc_session(sv) implies sv
                    == sv0 by {}
            }
            Ok(out)
        },
    }
}

} // verus!
