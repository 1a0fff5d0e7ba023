use storyestimate::apikey::APIKey;
use storyestimate::auth::ObjectAuth;
use storyestimate::v1::session::{PublicSession, Session, SessionState};
use storyestimate::v1::user::{check_token, PublicUser, PublicVoteState, User, VoteState};

#[test]
fn user_user_vote() {
    let mut u = User::new(None);
    assert_eq!(u.vote, VoteState::Empty);
    u.vote(3);
    assert_eq!(u.vote, VoteState::Hidden(3));
}

#[test]
fn user_user_vote_reveal() {
    let mut u = User::new(None);
    assert_eq!(u.vote, VoteState::Empty);
    u.vote(3);
    u.reveal_vote();
    assert_eq!(u.vote, VoteState::Visible(3));
}

#[test]
fn user_user_vote_clear() {
    let mut u = User::new(None);
    assert_eq!(u.vote, VoteState::Empty);
    u.vote(3);
    u.reveal_vote();
    assert_eq!(u.vote, VoteState::Visible(3));
    u.clear();
    assert_eq!(u.vote, VoteState::Empty);
}

#[test]
fn user_user_dont_clear_hidden() {
    let mut u = User::new(None);
    assert_eq!(u.vote, VoteState::Empty);
    u.vote(3);
    assert_eq!(u.vote, VoteState::Hidden(3));
    u.clear();
    assert_eq!(u.vote, VoteState::Hidden(3));
}

#[test]
fn user_user_vote_reset() {
    let mut u = User::new(None);
    assert_eq!(u.vote, VoteState::Empty);
    u.vote(3);
    u.reset();
    assert_eq!(u.vote, VoteState::Empty);
}

#[test]
fn session_create_session() {
    let s = Session::new();
    assert_eq!(s.average, None);
}

#[test]
fn session_unique_session_id() {
    let s1 = Session::new();
    let s2 = Session::new();
    assert!(s1.session_id != s2.session_id);
}

#[test]
fn session_take_votes_average() {
    let mut s = Session::new();
    let mut u = User::new(None);
    let mut u2 = User::new(None);
    u.vote(4);
    u2.vote(6);
    let mut users = vec![u, u2];
    s.take_votes(&mut users);
    let avg = s.average.unwrap();
    assert_eq!(avg.total as f32 / avg.count as f32, 5f32);
}

#[test]
fn user_authorization_needs_matching_secret() {
    let u = User::new(Some("joe"));
    let good = APIKey { user_id: u.user_id.clone(), user_key: Some(u.user_token.clone()) };
    let bad_key = APIKey { user_id: u.user_id.clone(), user_key: Some("wrong".to_string()) };
    let keyless = APIKey { user_id: u.user_id.clone(), user_key: None };
    assert!(u.is_authorized(&good));
    assert!(!u.is_authorized(&bad_key));
    assert!(!u.is_authorized(&keyless));
}

#[test]
fn public_session_marks_admins() {
    let s = Session::new();
    let mut u = User::new(Some("joe"));
    u.vote(4);
    let users = vec![u.clone()];
    let admins = vec![u.user_id.clone()];
    let ps = PublicSession::new(&s, &users, &admins);
    assert_eq!(ps.state, SessionState::Vote);
    assert_eq!(ps.users.len(), 1);
    assert!(ps.users[0].is_admin);
    assert_eq!(ps.users[0].vote_amount, None);
}

#[test]
fn check_token_demands_a_stored_user_with_matching_secret() {
    let u = User::new(Some("joe"));
    let good = APIKey { user_id: u.user_id.clone(), user_key: Some(u.user_token.clone()) };
    let bad = APIKey { user_id: u.user_id.clone(), user_key: Some("wrong".to_string()) };
    assert!(check_token(Some(&u), &good));
    assert!(!check_token(Some(&u), &bad));
    assert!(!check_token(None, &good));
}

#[test]
fn object_auth_compares_the_guarding_token() {
    let u = User::new(Some("joe"));
    assert!(ObjectAuth::is_authorized(&u, &Some(u.user_token.clone())));
    assert!(!ObjectAuth::is_authorized(&u, &Some("wrong".to_string())));
    assert!(!ObjectAuth::is_authorized(&u, &None));
}

#[test]
fn public_user_redacts_hidden_votes() {
    let mut u = User::new(Some("joe"));
    u.vote(3);
    let pu = PublicUser::from(&u);
    assert_eq!(pu.vote_state, PublicVoteState::Hidden);
    assert_eq!(pu.vote_amount, None);
    assert!(!pu.is_admin);
    u.reveal_vote();
    let pu2 = PublicUser::from(&u);
    assert_eq!(pu2.vote_state, PublicVoteState::Visible);
    assert_eq!(pu2.vote_amount, Some(3));
}
