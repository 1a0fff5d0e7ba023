use storyestimate::estimates::vote::{PublicVote, PublicVoteState, VoteState};

#[test]
fn place_vote() {
    let mut v = VoteState::new();
    assert_eq!(v, VoteState::Empty);
    v.vote(3);
    assert_eq!(v, VoteState::Hidden(3));
}

#[test]
fn vote_reveal() {
    let mut v = VoteState::new();
    assert_eq!(v, VoteState::Empty);
    v.vote(3);
    v.reveal_vote();
    assert_eq!(v, VoteState::Visible(3));
}

#[test]
fn vote_clear() {
    let mut v = VoteState::new();
    assert_eq!(v, VoteState::Empty);
    v.vote(3);
    v.reveal_vote();
    assert_eq!(v, VoteState::Visible(3));
    v.clear();
    assert_eq!(v, VoteState::Empty);
}

#[test]
fn dont_clear_hidden() {
    let mut v = VoteState::new();
    assert_eq!(v, VoteState::Empty);
    v.vote(3);
    assert_eq!(v, VoteState::Hidden(3));
    v.clear();
    assert_eq!(v, VoteState::Hidden(3));
}

#[test]
fn vote_reset() {
    let mut v = VoteState::new();
    assert_eq!(v, VoteState::Empty);
    v.vote(3);
    v.reset();
    assert_eq!(v, VoteState::Empty);
}

#[test]
fn convert_empty() {
    let v = VoteState::new();
    let pv = PublicVote::from(&v);
    assert_eq!(v, VoteState::Empty);
    assert_eq!(pv, PublicVote { state: PublicVoteState::Empty, amount: None });
}

#[test]
fn convert_hidden() {
    let mut v = VoteState::new();
    v.vote(3);
    let pv = PublicVote::from(&v);
    assert_eq!(v, VoteState::Hidden(3));
    assert_eq!(pv, PublicVote { state: PublicVoteState::Hidden, amount: None });
}

#[test]
fn convert_visible() {
    let mut v = VoteState::new();
    v.vote(3);
    v.reveal_vote();
    let pv = PublicVote::from(&v);
    assert_eq!(v, VoteState::Visible(3));
    assert_eq!(pv, PublicVote { state: PublicVoteState::Visible, amount: Some(3) });
}

#[test]
fn reveal_twice_equals_reveal_once() {
    let starts = vec![VoteState::Empty, VoteState::Hidden(7), VoteState::Visible(9)];
    for start in starts {
        let mut once = start;
        once.reveal_vote();
        let mut twice = start;
        twice.reveal_vote();
        twice.reveal_vote();
        assert_eq!(once, twice);
    }
}

#[test]
fn clear_keeps_every_hidden_vote() {
    for x in [0u32, 1, 13, u32::MAX] {
        let mut v = VoteState::Hidden(x);
        v.clear();
        assert_eq!(v, VoteState::Hidden(x));
    }
}

#[test]
fn reset_from_every_state() {
    let starts = vec![VoteState::Empty, VoteState::Hidden(7), VoteState::Visible(9)];
    for start in starts {
        let mut v = start;
        v.reset();
        assert_eq!(v, VoteState::Empty);
    }
}
