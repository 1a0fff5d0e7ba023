use vstd::prelude::*;

verus! {

use crate::estimates::session::Average;
use crate::estimates::vote::{VoteState, spec_clear, spec_reveal};
use crate::generator;
use crate::v1::user::{PublicUser, User, spec_public_user};

/// The flat session record of the older surface.
#[derive(Debug, PartialEq, Eq, Clone)]
pub struct Session {
    pub session_id: String,
    pub average: Option<Average>,
}

/// The aggregate phase in the older surface's names: `Reset` before anyone
/// joined, `Vote` while votes are unrevealed, `Visible` when all are
/// revealed, `Dirty` for a mixture.
#[derive(Debug, Clone, Copy, PartialEq, Eq, Structural)]
pub enum SessionState {
    Reset,
    Vote,
    Visible,
    Dirty,
}

/// The public face of a flat session.
#[derive(Debug, PartialEq, Eq, Clone)]
pub struct PublicSession {
    pub session_id: String,
    pub average: Option<Average>,
    pub users: Vec<PublicUser>,
    pub state: SessionState,
}

/// One step of the derivation: how one vote moves the aggregate state.
pub open spec fn state_step(st: SessionState, v: VoteState) -> SessionState {
    match (st, v) {
        (SessionState::Reset, VoteState::Empty) => SessionState::Vote,
        (SessionState::Reset, VoteState::Hidden(_)) => SessionState::Vote,
        (SessionState::Reset, VoteState::Visible(_)) => SessionState::Visible,
        (SessionState::Vote, VoteState::Visible(_)) => SessionState::Dirty,
        (SessionState::Visible, VoteState::Empty) => SessionState::Dirty,
        (SessionState::Visible, VoteState::Hidden(_)) => SessionState::Dirty,
        _ => st,
    }
}

/// The left-to-right fold of `state_step` over the users' votes.
pub open spec fn spec_fold_state(st: SessionState, votes: Seq<VoteState>) -> SessionState
    decreases votes.len(),
{
    if votes.len() == 0 {
        st
    } else {
        spec_fold_state(state_step(st, votes[0]), votes.drop_first())
    }
}

/// The votes of a sequence of users.
pub open spec fn votes_of_users(us: Seq<User>) -> Seq<VoteState> {
    us.map(|i: int, u: User| u.vote)
}

/// Derives the aggregate state of the users' votes, scanning left to right.
pub fn choose_session_state(users: &Vec<User>) -> (r: SessionState)
    ensures
        r == spec_fold_state(SessionState::Reset, votes_of_users(users@)),
{
    let ghost votes = votes_of_users(users@);
    let n = users.len();
    let mut state = SessionState::Reset;
    let mut i: usize = 0;
    while i < n
        invariant
            n == users@.len(),
            votes == votes_of_users(users@),
            i <= n,
            state == spec_fold_state(SessionState::Reset, votes.take(i as int)),
        decreases n - i,
    {
        proof {
            lemma_fold_snoc(SessionState::Reset, votes.take(i as int), votes[i as int]);
            assert(votes.take(i as int).push(votes[i as int]) =~= votes.take(i + 1));
        }
        state = match (state, users[i].vote) {
            (SessionState::Reset, VoteState::Empty) => SessionState::Vote,
            (SessionState::Reset, VoteState::Hidden(_)) => SessionState::Vote,
            (SessionState::Reset, VoteState::Visible(_)) => SessionState::Visible,
            (SessionState::Vote, VoteState::Visible(_)) => SessionState::Dirty,
            (SessionState::Visible, VoteState::Empty) => SessionState::Dirty,
            (SessionState::Visible, VoteState::Hidden(_)) => SessionState::Dirty,
            (s, _) => s,
        };
        i = i + 1;
    }
    proof {
        assert(votes.take(n as int) =~= votes);
    }
    state
}

proof fn lemma_fold_snoc(st: SessionState, votes: Seq<VoteState>, v: VoteState)
    ensures
        spec_fold_state(st, votes.push(v)) == state_step(spec_fold_state(st, votes), v),
    decreases votes.len(),
{
    if votes.len() == 0 {
        assert(votes.push(v)[0] == v);
        assert(votes.push(v).drop_first() =~= Seq::<VoteState>::empty());
        assert(spec_fold_state(st, votes.push(v)) == spec_fold_state(
            state_step(st, v),
            votes.push(v).drop_first(),
        ));
    } else {
        assert(votes.push(v)[0] == votes[0]);
        assert(votes.push(v).drop_first() =~= votes.drop_first().push(v));
        lemma_fold_snoc(state_step(st, votes[0]), votes.drop_first(), v);
    }
}

/// All users with their votes revealed.
pub open spec fn spec_reveal_users(us: Seq<User>) -> Seq<User> {
    us.map(|i: int, u: User| User { vote: spec_reveal(u.vote), ..u })
}

/// All users with their votes cleared.
pub open spec fn spec_clear_users(us: Seq<User>) -> Seq<User> {
    us.map(|i: int, u: User| User { vote: spec_clear(u.vote), ..u })
}

/// All users with their votes reset.
pub open spec fn spec_reset_users(us: Seq<User>) -> Seq<User> {
    us.map(|i: int, u: User| User { vote: VoteState::Empty, ..u })
}

/// The sum of the visible vote amounts.
pub open spec fn spec_users_total(us: Seq<User>) -> int
    decreases us.len(),
{
    if us.len() == 0 {
        0
    } else {
        spec_users_total(us.drop_last()) + (match us.last().vote {
            VoteState::Visible(x) => x as int,
            _ => 0,
        })
    }
}

/// How many votes are visible.
pub open spec fn spec_users_count(us: Seq<User>) -> int
    decreases us.len(),
{
    if us.len() == 0 {
        0
    } else {
        spec_users_count(us.drop_last()) + (match us.last().vote {
            VoteState::Visible(_) => 1int,
            _ => 0,
        })
    }
}

/// The average that taking votes stores: sum and count of the visible votes
/// once all are revealed, or nothing when no vote carries an amount.
pub open spec fn spec_users_average(us: Seq<User>) -> Option<Average> {
    let rs = spec_reveal_users(us);
    if spec_users_count(rs) > 0 {
        Some(Average { total: spec_users_total(rs) as u64, count: spec_users_count(rs) as u32 })
    } else {
        None
    }
}

impl Session {
    /// A fresh session with a random identifier and no average yet.
    pub fn new() -> (r: Self)
        ensures
            r.session_id@.len() == 5,
            r.average is None,
    {
        Session { session_id: generator::session_id(), average: None }
    }

    /// Reveal every user's vote, then store the exact mean of the amounts
    /// that are visible; no votes with amounts leave the average absent.
    pub fn take_votes(&mut self, users: &mut Vec<User>)
        requires
            old(users)@.len() <= 0xFFFF_FFFF,
        ensures
            final(self).session_id == old(self).session_id,
            final(self).average == spec_users_average(old(users)@),
            final(users)@ == spec_reveal_users(old(users)@),
    {
        let ghost rs = spec_reveal_users(old(users)@);
        let n = users.len();
        let mut out: Vec<User> = Vec::new();
        let mut total: u64 = 0;
        let mut count: u32 = 0;
        let mut i: usize = 0;
        while i < n
            invariant
                n == users@.len(),
                n <= 0xFFFF_FFFF,
                users@ == old(users)@,
                rs == spec_reveal_users(users@),
                i <= n,
                out@.len() == i,
                out@ == rs.take(i as int),
                total == spec_users_total(rs.take(i as int)),
                count == spec_users_count(rs.take(i as int)),
                count <= i,
                total <= i * 0xFFFF_FFFF,
            decreases n - i,
        {
            let mut u = users[i].clone();
            u.reveal_vote();
            proof {
                assert(u == rs[i as int]);
                assert(rs.take(i + 1).drop_last() =~= rs.take(i as int));
                assert(rs.take(i + 1).last() == rs[i as int]);
            }
            match u.vote {
                VoteState::Visible(x) => {
                    total = total + x as u64;
                    count = count + 1;
                },
                _ => {},
            }
            out.push(u);
            proof {
                assert(out@ =~= rs.take(i + 1));
            }
            i = i + 1;
        }
        proof {
            assert(rs.take(n as int) =~= rs);
        }
        if count > 0 {
            self.average = Some(Average { total: total, count: count });
        } else {
            self.average = None;
        }
        *users = out;
    }

    /// Clear every user's vote (hidden votes survive) and drop the average.
    pub fn clear(&mut self, users: &mut Vec<User>)
        ensures
            final(self).session_id == old(self).session_id,
            final(self).average is None,
            final(users)@ == spec_clear_users(old(users)@),
    {
        let ghost cs = spec_clear_users(old(users)@);
        let n = users.len();
        let mut out: Vec<User> = Vec::new();
        let mut i: usize = 0;
        while i < n
            invariant
                n == users@.len(),
                users@ == old(users)@,
                cs == spec_clear_users(users@),
                i <= n,
                out@ == cs.take(i as int),
            decreases n - i,
        {
            let mut u = users[i].clone();
            u.clear();
            proof {
                assert(u == cs[i as int]);
            }
            out.push(u);
            proof {
                assert(out@ =~= cs.take(i + 1));
            }
            i = i + 1;
        }
        proof {
            assert(cs.take(n as int) =~= cs);
        }
        self.average = None;
        *users = out;
    }

    /// Reset every user's vote to empty and drop the average.
    pub fn reset(&mut self, users: &mut Vec<User>)
        ensures
            final(self).session_id == old(self).session_id,
            final(self).average is None,
            final(users)@ == spec_reset_users(old(users)@),
    {
        let ghost zs = spec_reset_users(old(users)@);
        let n = users.len();
        let mut out: Vec<User> = Vec::new();
        let mut i: usize = 0;
        while i < n
            invariant
                n == users@.len(),
                users@ == old(users)@,
                zs == spec_reset_users(users@),
                i <= n,
                out@ == zs.take(i as int),
            decreases n - i,
        {
            let mut u = users[i].clone();
            u.reset();
            proof {
                assert(u == zs[i as int]);
            }
            out.push(u);
            proof {
                assert(out@ =~= zs.take(i + 1));
            }
            i = i + 1;
        }
        proof {
            assert(zs.take(n as int) =~= zs);
        }
        self.average = None;
        *users = out;
    }
}

/// Whether a sequence of names holds the given one.
pub open spec fn contains_name(admins: Seq<String>, name: String) -> bool {
    exists|i: int| 0 <= i < admins.len() && admins[i]@ == name@
}

impl PublicSession {
    /// Projects a flat session: each user redacted and flagged as admin
    /// exactly when the admin list names them, the average as stored, and
    /// the state derived from the votes.
    pub fn new(s: &Session, users: &Vec<User>, admins: &Vec<String>) -> (r: PublicSession)
        ensures
            r.session_id@ == s.session_id@,
            r.average == s.average,
            r.state == spec_fold_state(SessionState::Reset, votes_of_users(users@)),
            r.users@.len() == users@.len(),
            (forall|i: int|
                0 <= i < users@.len() ==> #[trigger] r.users@[i] == (PublicUser {
                    is_admin: contains_name(admins@, users@[i].user_id),
                    ..spec_public_user(users@[i])
                })),
    {
        let state = choose_session_state(users);
        let n = users.len();
        let mut pubs: Vec<PublicUser> = Vec::new();
        let mut i: usize = 0;
        while i < n
            invariant
                n == users@.len(),
                i <= n,
                pubs@.len() == i,
                forall|k: int|
                    0 <= k < i ==> #[trigger] pubs@[k] == (PublicUser {
                        is_admin: contains_name(admins@, users@[k].user_id),
                        ..spec_public_user(users@[k])
                    }),
            decreases n - i,
        {
            let u = &users[i];
            let (vote_state, vote_amount) = match u.vote {
                VoteState::Empty => (crate::estimates::vote::PublicVoteState::Empty, None),
                VoteState::Hidden(_) => (crate::estimates::vote::PublicVoteState::Hidden, None),
                VoteState::Visible(x) => (
                    crate::estimates::vote::PublicVoteState::Visible,
                    Some(x),
                ),
            };
            let is_admin = name_listed(admins, &u.user_id);
            pubs.push(
                PublicUser {
                    user_id: u.user_id.clone(),
                    nickname: match &u.nickname {
                        Some(nick) => Some(nick.clone()),
                        None => None,
                    },
                    is_admin: is_admin,
                    vote_state: vote_state,
                    vote_amount: vote_amount,
                },
            );
            i = i + 1;
        }
        PublicSession {
            session_id: s.session_id.clone(),
            average: s.average,
            users: pubs,
            state: state,
        }
    }
}

/// Whether the list of names holds the given one.
fn name_listed(admins: &Vec<String>, name: &String) -> (r: bool)
    ensures
        r == contains_name(admins@, *name),
{
    let n = admins.len();
    let mut i: usize = 0;
    while i < n
        invariant
            n == admins@.len(),
            i <= n,
            forall|k: int| 0 <= k < i ==> admins@[k]@ != name@,
        decreases n - i,
    {
        if admins[i] == *name {
            return true;
        }
        i = i + 1;
    }
    false
}

} // verus!
