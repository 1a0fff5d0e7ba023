use storyestimate::dal::memory::MemoryDB;
use storyestimate::dal::StoryData;
use storyestimate::errors::Error;
use storyestimate::estimates::session::{PublicSession, SessionID, SessionState};
use storyestimate::service::session::{
    create_session, delete_session, grant_admin, kick_user, lookup_session, revoke_admin,
    update_session,
};
use storyestimate::service::participant::{join_session, place_vote};
use storyestimate::service::user::{authenticate_user, create_user, get_authenticated_user};
use storyestimate::user::{BasicUser, Nickname, UserToken};

#[test]
fn create_session_and_check() {
    let mut dal = MemoryDB::new();
    let auth_user = get_authenticated_user(&mut dal).unwrap();
    let new_session_id = create_session(&mut dal, &auth_user).unwrap();
    let saved_session = dal.get_session(&new_session_id).unwrap().unwrap();
    assert_eq!(new_session_id, saved_session.session_id);
}

#[test]
fn join_session_and_check() {
    let mut dal = MemoryDB::new();
    let admin_user = get_authenticated_user(&mut dal).unwrap();
    let new_session_id = create_session(&mut dal, &admin_user).unwrap();
    let member_user = get_authenticated_user(&mut dal).unwrap();
    let nickname = Nickname::new("bob");
    join_session(&mut dal, &new_session_id, &member_user.user_id, &member_user, &nickname).unwrap();
    let all_participants = dal.get_participants(&new_session_id).unwrap();
    assert_eq!(member_user.user_id, all_participants[0].user_id);
}

#[test]
fn leave_session_willingly() {
    let mut dal = MemoryDB::new();
    let admin_user = get_authenticated_user(&mut dal).unwrap();
    let new_session_id = create_session(&mut dal, &admin_user).unwrap();
    let member_user = get_authenticated_user(&mut dal).unwrap();
    let nickname = Nickname::new("bob");
    join_session(&mut dal, &new_session_id, &member_user.user_id, &member_user, &nickname).unwrap();
    kick_user(&mut dal, &new_session_id, &member_user.user_id, &member_user).unwrap();
    let all_participants = dal.get_participants(&new_session_id).unwrap();
    assert_eq!(all_participants.len(), 0);
}

#[test]
fn kick_user_from_session() {
    let mut dal = MemoryDB::new();
    let admin_user = get_authenticated_user(&mut dal).unwrap();
    let new_session_id = create_session(&mut dal, &admin_user).unwrap();
    let member_user = get_authenticated_user(&mut dal).unwrap();
    let nickname = Nickname::new("bob");
    join_session(&mut dal, &new_session_id, &member_user.user_id, &member_user, &nickname).unwrap();
    kick_user(&mut dal, &new_session_id, &member_user.user_id, &admin_user).unwrap();
    let all_participants = dal.get_participants(&new_session_id).unwrap();
    assert_eq!(all_participants.len(), 0);
}

#[test]
fn kick_user_without_admin_session() {
    let mut dal = MemoryDB::new();
    let admin_user = get_authenticated_user(&mut dal).unwrap();
    let new_session_id = create_session(&mut dal, &admin_user).unwrap();
    let member_user = get_authenticated_user(&mut dal).unwrap();
    let non_admin_user = get_authenticated_user(&mut dal).unwrap();
    let nickname = Nickname::new("bob");
    join_session(&mut dal, &new_session_id, &member_user.user_id, &member_user, &nickname).unwrap();
    let outcome = kick_user(&mut dal, &new_session_id, &member_user.user_id, &non_admin_user);
    assert!(outcome.is_err())
}

#[test]
fn kick_non_existant_user() {
    let mut dal = MemoryDB::new();
    let admin_user = get_authenticated_user(&mut dal).unwrap();
    let new_session_id = create_session(&mut dal, &admin_user).unwrap();
    let member_user = get_authenticated_user(&mut dal).unwrap();
    let non_member_user = get_authenticated_user(&mut dal).unwrap();
    let nickname = Nickname::new("bob");
    join_session(&mut dal, &new_session_id, &member_user.user_id, &member_user, &nickname).unwrap();
    let outcome = kick_user(&mut dal, &new_session_id, &non_member_user.user_id, &admin_user);
    assert!(outcome.is_err())
}

#[test]
fn add_admin_to_session() {
    let mut dal = MemoryDB::new();
    let admin_user = get_authenticated_user(&mut dal).unwrap();
    let new_session_id = create_session(&mut dal, &admin_user).unwrap();
    let new_admin_user = get_authenticated_user(&mut dal).unwrap();
    grant_admin(&mut dal, &new_session_id, &new_admin_user.user_id, &admin_user).unwrap();
    assert!(dal.is_admin(&new_session_id, &new_admin_user.user_id).unwrap());
    assert_eq!(dal.get_admins(&new_session_id).unwrap().len(), 2);
}

#[test]
fn add_admin_to_session_wout_creds() {
    let mut dal = MemoryDB::new();
    let admin_user = get_authenticated_user(&mut dal).unwrap();
    let new_session_id = create_session(&mut dal, &admin_user).unwrap();
    let new_admin_user = get_authenticated_user(&mut dal).unwrap();
    let outcome = grant_admin(&mut dal, &new_session_id, &new_admin_user.user_id, &new_admin_user);
    assert!(outcome.is_err());
    assert!(!dal.is_admin(&new_session_id, &new_admin_user.user_id).unwrap());
}

#[test]
fn remove_admin_from_session() {
    let mut dal = MemoryDB::new();
    let admin_user = get_authenticated_user(&mut dal).unwrap();
    let new_session_id = create_session(&mut dal, &admin_user).unwrap();
    let new_admin_user = get_authenticated_user(&mut dal).unwrap();
    grant_admin(&mut dal, &new_session_id, &new_admin_user.user_id, &admin_user).unwrap();
    assert!(dal.is_admin(&new_session_id, &new_admin_user.user_id).unwrap());
    revoke_admin(&mut dal, &new_session_id, &new_admin_user.user_id, &admin_user).unwrap();
    assert!(!dal.is_admin(&new_session_id, &new_admin_user.user_id).unwrap());
}

#[test]
fn remove_admin_from_session_wout_creds() {
    let mut dal = MemoryDB::new();
    let admin_user = get_authenticated_user(&mut dal).unwrap();
    let new_session_id = create_session(&mut dal, &admin_user).unwrap();
    let new_admin_user = get_authenticated_user(&mut dal).unwrap();
    let new_non_admin_user = get_authenticated_user(&mut dal).unwrap();
    grant_admin(&mut dal, &new_session_id, &new_admin_user.user_id, &admin_user).unwrap();
    assert!(dal.is_admin(&new_session_id, &new_admin_user.user_id).unwrap());
    let outcome = revoke_admin(&mut dal, &new_session_id, &new_admin_user.user_id, &new_non_admin_user);
    assert!(outcome.is_err());
    assert!(dal.is_admin(&new_session_id, &new_admin_user.user_id).unwrap());
}

#[test]
fn get_session() {
    let mut dal = MemoryDB::new();
    let admin_user = get_authenticated_user(&mut dal).unwrap();
    let new_session_id = create_session(&mut dal, &admin_user).unwrap();
    let pub_session: PublicSession = lookup_session(&dal, &new_session_id).unwrap().unwrap();
    assert_eq!(pub_session.session_id, new_session_id);
    assert_eq!(pub_session.users, vec![]);
    assert_eq!(pub_session.average, None);
    assert_eq!(pub_session.state, SessionState::Clean);
}

#[test]
fn get_session_with_participants() {
    let mut dal = MemoryDB::new();
    let admin_user = get_authenticated_user(&mut dal).unwrap();
    let new_session_id = create_session(&mut dal, &admin_user).unwrap();
    let member_user = get_authenticated_user(&mut dal).unwrap();
    let nickname = Nickname::new("bob");
    join_session(&mut dal, &new_session_id, &member_user.user_id, &member_user, &nickname).unwrap();
    let pub_session: PublicSession = lookup_session(&dal, &new_session_id).unwrap().unwrap();
    assert_eq!(pub_session.session_id, new_session_id);
    assert_eq!(pub_session.users[0].user_id, member_user.user_id);
    assert_eq!(pub_session.average, None);
    assert_eq!(pub_session.state, SessionState::Voting);
}

#[test]
fn change_nickname() {
    let mut dal = MemoryDB::new();
    let admin_user = get_authenticated_user(&mut dal).unwrap();
    let new_session_id = create_session(&mut dal, &admin_user).unwrap();
    let member_user = get_authenticated_user(&mut dal).unwrap();
    let nickname = Nickname::new("bob");
    join_session(&mut dal, &new_session_id, &member_user.user_id, &member_user, &nickname).unwrap();
    let new_nickname = Nickname::new("bill");
    join_session(&mut dal, &new_session_id, &member_user.user_id, &member_user, &new_nickname).unwrap();
    let all_participants = dal.get_participants(&new_session_id).unwrap();
    assert_eq!(all_participants[0].user_id, member_user.user_id);
    assert_eq!(all_participants[0].nickname, new_nickname);
}

#[test]
fn join_empty_session() {
    let mut dal = MemoryDB::new();
    let _admin_user = get_authenticated_user(&mut dal).unwrap();
    let bad_session_id = SessionID("foo".to_string());
    let member_user = get_authenticated_user(&mut dal).unwrap();
    let nickname = Nickname::new("bob");
    let result = join_session(&mut dal, &bad_session_id, &member_user.user_id, &member_user, &nickname);
    match result {
        Err(Error::ObjectNotFound(_)) => (),
        _ => panic!("Did not raise object not found error for missing session"),
    }
    assert_eq!(dal.get_participants(&bad_session_id).unwrap().len(), 0);
}

#[test]
fn update_vote() {
    let mut dal = MemoryDB::new();
    let admin_user = get_authenticated_user(&mut dal).unwrap();
    let new_session_id = create_session(&mut dal, &admin_user).unwrap();
    let member_user = get_authenticated_user(&mut dal).unwrap();
    let nickname = Nickname::new("bob");
    join_session(&mut dal, &new_session_id, &member_user.user_id, &member_user, &nickname).unwrap();
    place_vote(&mut dal, &new_session_id, &member_user.user_id, &member_user, 5).unwrap();
    let all_participants = dal.get_participants(&new_session_id).unwrap();
    assert_eq!(all_participants[0].user_id, member_user.user_id);
    assert_eq!(
        all_participants[0].vote,
        storyestimate::estimates::vote::VoteState::Hidden(5)
    );
}

#[test]
fn create_user_and_check() {
    let mut dal = MemoryDB::new();
    let new_user = create_user(&mut dal).unwrap();
    let saved_user = dal.get_user(&new_user.user_id).unwrap().unwrap();
    assert!(new_user == saved_user);
}

#[test]
fn auth_valid_user() {
    let mut dal = MemoryDB::new();
    let new_user = create_user(&mut dal).unwrap();
    let auth_user = authenticate_user(&dal, &new_user.user_id, &new_user.user_token).unwrap().unwrap();
    assert_eq!(new_user.user_id, auth_user.user_id);
}

#[test]
fn auth_invalid_user() {
    let mut dal = MemoryDB::new();
    let new_user = create_user(&mut dal).unwrap();
    let bad_token = UserToken::new();
    let auth_user_opt = authenticate_user(&dal, &new_user.user_id, &bad_token).unwrap();
    assert_eq!(auth_user_opt, None);
}

#[test]
fn auth_missing_user() {
    let mut dal = MemoryDB::new();
    create_user(&mut dal).unwrap();
    let bad_user = BasicUser::new();
    let auth_user_opt = authenticate_user(&dal, &bad_user.user_id, &bad_user.user_token).unwrap();
    assert_eq!(auth_user_opt, None);
}

#[test]
fn new_auth_user() {
    let mut dal = MemoryDB::new();
    let _auth_user = get_authenticated_user(&mut dal).unwrap();
}

#[test]
fn reveal_votes_and_average_through_service() {
    let mut dal = MemoryDB::new();
    let admin_user = get_authenticated_user(&mut dal).unwrap();
    let sid = create_session(&mut dal, &admin_user).unwrap();
    let member1 = get_authenticated_user(&mut dal).unwrap();
    let member2 = get_authenticated_user(&mut dal).unwrap();
    join_session(&mut dal, &sid, &member1.user_id, &member1, &Nickname::new("bob")).unwrap();
    join_session(&mut dal, &sid, &member2.user_id, &member2, &Nickname::new("bill")).unwrap();
    place_vote(&mut dal, &sid, &member1.user_id, &member1, 4).unwrap();
    place_vote(&mut dal, &sid, &member2.user_id, &member2, 6).unwrap();
    update_session(&mut dal, &sid, &SessionState::Visible, &admin_user).unwrap();
    let pub_session = lookup_session(&dal, &sid).unwrap().unwrap();
    let avg = pub_session.average.unwrap();
    assert_eq!(avg.total as f32 / avg.count as f32, 5.0f32);
    assert_eq!(pub_session.state, SessionState::Visible);
}

#[test]
fn reveal_with_no_votes_leaves_average_absent() {
    let mut dal = MemoryDB::new();
    let admin_user = get_authenticated_user(&mut dal).unwrap();
    let sid = create_session(&mut dal, &admin_user).unwrap();
    let member = get_authenticated_user(&mut dal).unwrap();
    join_session(&mut dal, &sid, &member.user_id, &member, &Nickname::new("bob")).unwrap();
    update_session(&mut dal, &sid, &SessionState::Visible, &admin_user).unwrap();
    let pub_session = lookup_session(&dal, &sid).unwrap().unwrap();
    assert_eq!(pub_session.average, None);
}

#[test]
fn non_admin_cannot_move_session_state() {
    let mut dal = MemoryDB::new();
    let admin_user = get_authenticated_user(&mut dal).unwrap();
    let sid = create_session(&mut dal, &admin_user).unwrap();
    let outsider = get_authenticated_user(&mut dal).unwrap();
    let before = lookup_session(&dal, &sid).unwrap().unwrap();
    let outcome = update_session(&mut dal, &sid, &SessionState::Visible, &outsider);
    assert!(matches!(outcome.unwrap_err(), Error::UserForbidden(_)));
    let after = lookup_session(&dal, &sid).unwrap().unwrap();
    assert_eq!(before.state, after.state);
    assert_eq!(before.average, after.average);
}

#[test]
fn non_admin_cannot_delete_session() {
    let mut dal = MemoryDB::new();
    let admin_user = get_authenticated_user(&mut dal).unwrap();
    let sid = create_session(&mut dal, &admin_user).unwrap();
    let outsider = get_authenticated_user(&mut dal).unwrap();
    let outcome = delete_session(&mut dal, &sid, &outsider);
    assert!(matches!(outcome.unwrap_err(), Error::UserForbidden(_)));
    assert!(dal.get_session(&sid).unwrap().is_some());
}

#[test]
fn dirty_is_never_a_valid_target() {
    let mut dal = MemoryDB::new();
    let admin_user = get_authenticated_user(&mut dal).unwrap();
    let sid = create_session(&mut dal, &admin_user).unwrap();
    let outcome = update_session(&mut dal, &sid, &SessionState::Dirty, &admin_user);
    assert!(matches!(outcome.unwrap_err(), Error::UserError(_)));
}

#[test]
fn deleted_session_is_absent_from_lookups() {
    let mut dal = MemoryDB::new();
    let admin_user = get_authenticated_user(&mut dal).unwrap();
    let sid = create_session(&mut dal, &admin_user).unwrap();
    delete_session(&mut dal, &sid, &admin_user).unwrap();
    assert!(dal.get_session(&sid).unwrap().is_none());
    assert!(lookup_session(&dal, &sid).unwrap().is_none());
}

#[test]
fn joining_as_someone_else_is_unauthorized() {
    let mut dal = MemoryDB::new();
    let admin_user = get_authenticated_user(&mut dal).unwrap();
    let sid = create_session(&mut dal, &admin_user).unwrap();
    let caller = get_authenticated_user(&mut dal).unwrap();
    let victim = get_authenticated_user(&mut dal).unwrap();
    let outcome = join_session(&mut dal, &sid, &victim.user_id, &caller, &Nickname::new("bob"));
    assert!(matches!(outcome.unwrap_err(), Error::UserUnauthorized));
    assert_eq!(dal.get_participants(&sid).unwrap().len(), 0);
}
