use storyestimate::estimates::participant::Participant;
use storyestimate::estimates::session::{choose_session_state, Session, SessionState};
use storyestimate::estimates::vote::VoteState;
use storyestimate::user::{BasicUser, Nickname};

#[test]
fn mod_create_session() {
    let s = Session::new();
    assert_eq!(s.average, None);
}

#[test]
fn mod_unique_session_id() {
    let s1 = Session::new();
    let s2 = Session::new();
    assert!(s1.session_id != s2.session_id);
}

#[test]
fn mod_take_votes_average() {
    let mut s = Session::new();
    let new_user = BasicUser::new();
    let mut u = Participant::new(&new_user, s.session_id.clone(), Nickname::new("bob"));
    let new_user2 = BasicUser::new();
    let mut u2 = Participant::new(&new_user2, s.session_id.clone(), Nickname::new("bill"));
    u.vote(4);
    u2.vote(6);
    let mut participants = vec![u, u2];
    s.take_votes(&mut participants);
    let avg = s.average.unwrap();
    assert_eq!(avg.total as f32 / avg.count as f32, 5f32);
    assert!(participants.iter().all(|p| matches!(p.vote, VoteState::Visible(_))));
}

#[test]
fn take_votes_with_no_amounts_is_absent() {
    let mut s = Session::new();
    let new_user = BasicUser::new();
    let u = Participant::new(&new_user, s.session_id.clone(), Nickname::new("bob"));
    let mut participants = vec![u];
    s.take_votes(&mut participants);
    assert_eq!(s.average, None);
}

#[test]
fn clear_keeps_hidden_votes_in_session() {
    let mut s = Session::new();
    let new_user = BasicUser::new();
    let mut u = Participant::new(&new_user, s.session_id.clone(), Nickname::new("bob"));
    u.vote(8);
    let mut participants = vec![u];
    s.clear(&mut participants);
    assert_eq!(participants[0].vote, VoteState::Hidden(8));
    assert_eq!(s.average, None);
}

#[test]
fn reset_empties_every_vote() {
    let mut s = Session::new();
    let new_user = BasicUser::new();
    let mut u = Participant::new(&new_user, s.session_id.clone(), Nickname::new("bob"));
    u.vote(8);
    u.vote.reveal_vote();
    let mut participants = vec![u];
    s.reset(&mut participants);
    assert_eq!(participants[0].vote, VoteState::Empty);
    assert_eq!(s.average, None);
}

#[test]
fn state_of_no_votes_is_clean() {
    let votes: Vec<VoteState> = vec![];
    assert_eq!(choose_session_state(&votes), SessionState::Clean);
}

#[test]
fn uniform_prevote_lists_derive_voting_in_any_order() {
    let a = vec![VoteState::Empty, VoteState::Hidden(4), VoteState::Hidden(6)];
    let b = vec![VoteState::Hidden(6), VoteState::Empty, VoteState::Hidden(4)];
    let c = vec![VoteState::Hidden(4), VoteState::Hidden(6), VoteState::Empty];
    assert_eq!(choose_session_state(&a), SessionState::Voting);
    assert_eq!(choose_session_state(&b), SessionState::Voting);
    assert_eq!(choose_session_state(&c), SessionState::Voting);
}

#[test]
fn uniform_visible_lists_derive_visible_in_any_order() {
    let a = vec![VoteState::Visible(4), VoteState::Visible(6)];
    let b = vec![VoteState::Visible(6), VoteState::Visible(4)];
    assert_eq!(choose_session_state(&a), SessionState::Visible);
    assert_eq!(choose_session_state(&b), SessionState::Visible);
}

#[test]
fn one_out_of_phase_vote_makes_dirty() {
    let a = vec![VoteState::Visible(4), VoteState::Hidden(6), VoteState::Visible(1)];
    let b = vec![VoteState::Hidden(6), VoteState::Visible(4), VoteState::Hidden(2)];
    let c = vec![VoteState::Empty, VoteState::Visible(4)];
    let d = vec![VoteState::Visible(4), VoteState::Empty];
    assert_eq!(choose_session_state(&a), SessionState::Dirty);
    assert_eq!(choose_session_state(&b), SessionState::Dirty);
    assert_eq!(choose_session_state(&c), SessionState::Dirty);
    assert_eq!(choose_session_state(&d), SessionState::Dirty);
}

#[test]
fn generated_session_ids_are_short_and_lowercase() {
    let s = Session::new();
    assert_eq!(s.session_id.0.len(), 5);
    assert!(s.session_id.0.chars().all(|c| c.is_ascii_lowercase()));
}
