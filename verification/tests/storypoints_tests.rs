use storyestimate::storypoints::{Session, User, VoteState};

#[test]
fn storypoints_create_session() {
    let s = Session::new();
    assert_eq!(s.users, vec![]);
    assert_eq!(s.average, None);
}

#[test]
fn add_user_to_session() {
    let mut s = Session::new();
    assert_eq!(s.users, vec![]);
    let u = User::new("joe");
    let u_vec = vec![u.clone()];
    s.add_user(u);
    assert_eq!(u_vec, s.users);
}

#[test]
fn mod_user_vote() {
    let mut u = User::new("joe");
    assert_eq!(u.vote, VoteState::Empty);
    u.vote(3);
    assert_eq!(u.vote, VoteState::Hidden(3));
}

#[test]
fn mod_user_vote_reveal() {
    let mut u = User::new("joe");
    assert_eq!(u.vote, VoteState::Empty);
    u.vote(3);
    u.reveal_vote();
    assert_eq!(u.vote, VoteState::Visible(3));
}

#[test]
fn mod_user_vote_clear() {
    let mut u = User::new("joe");
    assert_eq!(u.vote, VoteState::Empty);
    u.vote(3);
    u.reveal_vote();
    assert_eq!(u.vote, VoteState::Visible(3));
    u.clear();
    assert_eq!(u.vote, VoteState::Empty);
}

#[test]
fn mod_user_dont_clear_hidden() {
    let mut u = User::new("joe");
    assert_eq!(u.vote, VoteState::Empty);
    u.vote(3);
    assert_eq!(u.vote, VoteState::Hidden(3));
    u.clear();
    assert_eq!(u.vote, VoteState::Hidden(3));
}

#[test]
fn mod_user_vote_reset() {
    let mut u = User::new("joe");
    assert_eq!(u.vote, VoteState::Empty);
    u.vote(3);
    u.reset();
    assert_eq!(u.vote, VoteState::Empty);
}

#[test]
fn storypoints_take_votes_average() {
    let mut s = Session::new();
    let mut u = User::new("joe");
    let mut u2 = User::new("john");
    u.vote(4);
    u2.vote(6);
    s.add_user(u);
    s.add_user(u2);
    s.take_votes();
    let avg = s.average.unwrap();
    assert_eq!(avg.total as f32 / avg.count as f32, 5f32);
}

#[test]
fn session_kick_user() {
    let mut s = Session::new();
    let u = User::new("joe");
    let u2 = User::new("john");
    let u_vec = vec![u.clone()];
    let u2_vec = vec![u.clone(), u2.clone()];
    s.add_user(u);
    s.add_user(u2);
    assert_eq!(s.users, u2_vec);
    s.kick_user("john");
    assert_eq!(s.users, u_vec);
}

#[test]
fn points_scale() {
    assert_eq!(storyestimate::storypoints::points(), "3".to_string());
}

#[test]
fn storypoints_take_votes_with_no_amounts_is_absent() {
    let mut s = Session::new();
    s.add_user(User::new("joe"));
    s.take_votes();
    assert_eq!(s.average, None);
    assert_eq!(s.users[0].vote, VoteState::Empty);
}
