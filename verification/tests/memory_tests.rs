use storyestimate::dal::memory::MemoryDB;
use storyestimate::dal::{ParticipantChange, SessionAction, StoryData};
use storyestimate::errors::Error;
use storyestimate::estimates::participant::Participant;
use storyestimate::estimates::session::{Session, SessionID};
use storyestimate::user::{BasicUser, Nickname, UserID};

#[test]
fn save_and_get_user() {
    let mut memdal = MemoryDB::new();
    let my_user = BasicUser::new();
    memdal.add_user(my_user.clone()).unwrap();
    let same_user = memdal.get_user(&my_user.user_id).unwrap().unwrap();
    assert!(my_user == same_user);
}

#[test]
fn get_non_existant_user() {
    let memdal = MemoryDB::new();
    let user_id = UserID::new();
    let user_opt = memdal.get_user(&user_id).unwrap();
    assert!(user_opt == None);
}

#[test]
fn save_and_get_session() {
    let mut memdal = MemoryDB::new();
    let my_session = Session::new();
    memdal.add_session(my_session.clone()).unwrap();
    let same_session = memdal.get_session(&my_session.session_id).unwrap().unwrap();
    assert!(my_session == same_session);
}

#[test]
fn get_non_existant_session() {
    let memdal = MemoryDB::new();
    let session_id = SessionID::new();
    let session_opt = memdal.get_session(&session_id).unwrap();
    assert!(session_opt == None);
}

fn add_n_admins_and_check(n: usize) {
    let mut memdal = MemoryDB::new();
    let s = Session::new();
    let mut all_admins = Vec::new();
    for _ in 0..n {
        let u = BasicUser::new();
        memdal.add_admin(u.user_id.clone(), s.session_id.clone()).unwrap();
        all_admins.push(u.user_id);
    }
    let same_admins = memdal.get_admins(&s.session_id).unwrap();
    assert_eq!(same_admins, all_admins);
}

fn add_n_participants_and_check(n: usize) {
    let mut memdal = MemoryDB::new();
    let s = Session::new();
    let mut all_participants = Vec::new();
    for i in 0..n {
        let new_user = BasicUser::new();
        let u = Participant::new(&new_user, s.session_id.clone(), Nickname::new(&format!("bob_{}", i)));
        memdal.add_participant(u.clone()).unwrap();
        all_participants.push(u);
    }
    let same_participants = memdal.get_participants(&s.session_id).unwrap();
    assert_eq!(same_participants, all_participants);
}

#[test]
fn save_and_get_admins() {
    for i in 0..32 {
        add_n_admins_and_check(i);
    }
}

#[test]
fn save_and_get_participant() {
    for i in 0..32 {
        add_n_participants_and_check(i);
    }
}

#[test]
fn remove_participant() {
    let mut memdal = MemoryDB::new();
    let s = Session::new();
    let new_user = BasicUser::new();
    let u = Participant::new(&new_user, s.session_id.clone(), Nickname::new("bob"));
    memdal.add_participant(u.clone()).unwrap();

    let new_user2 = BasicUser::new();
    let u2 = Participant::new(&new_user2, s.session_id.clone(), Nickname::new("bill"));
    memdal.add_participant(u2.clone()).unwrap();

    memdal.del_participant(&u.user_id, &s.session_id).unwrap();

    let all_participants = memdal.get_participants(&s.session_id).unwrap();
    assert_eq!(all_participants.len(), 1);
    assert_eq!(all_participants[0].user_id, u2.user_id);
}

#[test]
fn remove_nonexistant_participant() {
    let mut memdal = MemoryDB::new();
    let s = Session::new();
    let new_user = BasicUser::new();
    let outcome = memdal.del_participant(&new_user.user_id, &s.session_id);
    assert!(outcome.is_err())
}

#[test]
fn remove_admin() {
    let mut memdal = MemoryDB::new();
    let s = Session::new();
    let new_user = BasicUser::new();
    memdal.add_admin(new_user.user_id.clone(), s.session_id.clone()).unwrap();

    let new_user2 = BasicUser::new();
    memdal.add_admin(new_user2.user_id.clone(), s.session_id.clone()).unwrap();

    memdal.del_admin(&new_user.user_id, &s.session_id).unwrap();

    let all_admins = memdal.get_admins(&s.session_id).unwrap();
    assert_eq!(all_admins.len(), 1);
    assert_eq!(all_admins[0], new_user2.user_id);
}

#[test]
fn remove_nonexistant_admin() {
    let mut memdal = MemoryDB::new();
    let s = Session::new();
    let new_user = BasicUser::new();
    let outcome = memdal.del_admin(&new_user.user_id, &s.session_id);
    assert!(outcome.is_err())
}

#[test]
fn test_is_admin() {
    let mut memdal = MemoryDB::new();
    let s = Session::new();
    let real_admin = BasicUser::new();
    memdal.add_admin(real_admin.user_id.clone(), s.session_id.clone()).unwrap();

    let fake_admin = BasicUser::new();

    assert!(memdal.is_admin(&s.session_id, &real_admin.user_id).unwrap());
    assert!(!memdal.is_admin(&s.session_id, &fake_admin.user_id).unwrap());
}

#[test]
fn create_and_delete_session() {
    let mut memdal = MemoryDB::new();
    let my_session = Session::new();
    memdal.add_session(my_session.clone()).unwrap();
    memdal.del_session(&my_session.session_id).unwrap();
    let outcome = memdal.get_session(&my_session.session_id).unwrap();
    assert_eq!(outcome, None);
}

#[test]
fn delete_non_existent_session() {
    let mut memdal = MemoryDB::new();
    let my_session = Session::new();
    let outcome = memdal.del_session(&my_session.session_id);
    assert!(matches!(outcome.unwrap_err(), Error::ObjectNotFound(_)));
}

#[test]
fn delete_session_twice_reports_absence() {
    let mut memdal = MemoryDB::new();
    let my_session = Session::new();
    memdal.add_session(my_session.clone()).unwrap();
    memdal.del_session(&my_session.session_id).unwrap();
    let outcome = memdal.del_session(&my_session.session_id);
    assert!(matches!(outcome.unwrap_err(), Error::ObjectNotFound(_)));
}

#[test]
fn create_and_update_session() {
    let mut memdal = MemoryDB::new();
    let my_session = Session::new();
    memdal.add_session(my_session.clone()).unwrap();
    let new_user = BasicUser::new();
    let mut member = Participant::new(&new_user, my_session.session_id.clone(), Nickname::new("bob"));
    member.vote(1234);
    memdal.add_participant(member).unwrap();

    memdal.update_session(&my_session.session_id, SessionAction::TakeVotes).unwrap();
    let same_session = memdal.get_session(&my_session.session_id).unwrap().unwrap();
    let avg = same_session.average.unwrap();
    assert_eq!(avg.total as f32 / avg.count as f32, 1234f32);
}

#[test]
fn create_and_update_participant() {
    let mut memdal = MemoryDB::new();
    let my_session = Session::new();
    memdal.add_session(my_session.clone()).unwrap();
    let new_user = BasicUser::new();
    let u = Participant::new(&new_user, my_session.session_id.clone(), Nickname::new("bob"));
    memdal.add_participant(u.clone()).unwrap();
    let new_name = Nickname::new("bill");
    memdal
        .update_participant(
            &my_session.session_id,
            &new_user.user_id,
            ParticipantChange::Rename(new_name.clone()),
        )
        .unwrap();
    let all_participants = memdal.get_participants(&my_session.session_id).unwrap();
    assert_eq!(all_participants[0].nickname, new_name);
}

#[test]
fn duplicate_join_is_a_conflict_and_changes_nothing() {
    let mut memdal = MemoryDB::new();
    let s = Session::new();
    let new_user = BasicUser::new();
    let u = Participant::new(&new_user, s.session_id.clone(), Nickname::new("bob"));
    memdal.add_participant(u.clone()).unwrap();

    let mut again = Participant::new(&new_user, s.session_id.clone(), Nickname::new("impostor"));
    again.vote(9);
    let outcome = memdal.add_participant(again);
    assert!(matches!(outcome.unwrap_err(), Error::UserError(_)));

    let all_participants = memdal.get_participants(&s.session_id).unwrap();
    assert_eq!(all_participants.len(), 1);
    assert_eq!(all_participants[0], u);
}

#[test]
fn duplicate_admin_grant_is_a_conflict() {
    let mut memdal = MemoryDB::new();
    let s = Session::new();
    let u = BasicUser::new();
    memdal.add_admin(u.user_id.clone(), s.session_id.clone()).unwrap();
    let outcome = memdal.add_admin(u.user_id.clone(), s.session_id.clone());
    assert!(matches!(outcome.unwrap_err(), Error::UserError(_)));
    assert_eq!(memdal.get_admins(&s.session_id).unwrap().len(), 1);
}
