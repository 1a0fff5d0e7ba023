use vstd::prelude::*;

verus! {

use crate::estimates::session::Average;
use crate::estimates::vote::{spec_clear, spec_reveal};

/// The vote lifecycle of the little demonstration layer is the shared one.
pub use crate::estimates::vote::VoteState;

/// The demonstration story-point scale offered to voters.
pub fn points() -> (r: String)
    ensures
        r@ == "3"@,
{
    "3".to_owned()
}

/// A voter in the demonstration session: a fixed token, a display name and
/// a vote.
#[derive(Debug, PartialEq, Eq)]
pub struct User {
    pub user_token: u32,
    pub nickname: String,
    pub vote: VoteState,
}

impl Clone for User {
    fn clone(&self) -> (r: Self)
        ensures
            r == *self,
    {
        User {
            user_token: self.user_token,
            nickname: self.nickname.clone(),
            vote: self.vote,
        }
    }
}

impl User {
    /// A fresh voter with the demonstration token and no vote cast.
    pub fn new(name: &str) -> (r: Self)
        ensures
            r.user_token == 1,
            r.nickname@ == name@,
            r.vote == VoteState::Empty,
    {
        User { user_token: 1, nickname: name.to_owned(), vote: VoteState::Empty }
    }

    /// Cast a vote, overwriting any prior state.
    pub fn vote(&mut self, points: u32)
        ensures
            final(self).vote == VoteState::Hidden(points),
            final(self).user_token == old(self).user_token,
            final(self).nickname == old(self).nickname,
    {
        self.vote = VoteState::Hidden(points);
    }

    /// Take any hidden votes and make them visible.
    pub fn reveal_vote(&mut self)
        ensures
            final(self).vote == spec_reveal(old(self).vote),
            final(self).user_token == old(self).user_token,
            final(self).nickname == old(self).nickname,
    {
        self.vote = match self.vote {
            VoteState::Empty => VoteState::Empty,
            VoteState::Hidden(x) => VoteState::Visible(x),
            VoteState::Visible(x) => VoteState::Visible(x),
        };
    }

    /// Take any visible votes and make them empty; hidden votes are kept.
    pub fn clear(&mut self)
        ensures
            final(self).vote == spec_clear(old(self).vote),
            final(self).user_token == old(self).user_token,
            final(self).nickname == old(self).nickname,
    {
        self.vote = match self.vote {
            VoteState::Empty => VoteState::Empty,
            VoteState::Hidden(x) => VoteState::Hidden(x),
            VoteState::Visible(_) => VoteState::Empty,
        };
    }

    /// Take any votes and make them empty.
    pub fn reset(&mut self)
        ensures
            final(self).vote == VoteState::Empty,
            final(self).user_token == old(self).user_token,
            final(self).nickname == old(self).nickname,
    {
        self.vote = VoteState::Empty;
    }
}

/// All voters with their votes revealed.
pub open spec fn spec_reveal_users(us: Seq<User>) -> Seq<User> {
    us.map(|i: int, u: User| User { vote: spec_reveal(u.vote), ..u })
}

/// All voters with their votes cleared.
pub open spec fn spec_clear_users(us: Seq<User>) -> Seq<User> {
    us.map(|i: int, u: User| User { vote: spec_clear(u.vote), ..u })
}

/// All voters with their votes reset.
pub open spec fn spec_reset_users(us: Seq<User>) -> Seq<User> {
    us.map(|i: int, u: User| User { vote: VoteState::Empty, ..u })
}

/// The sum of the visible vote amounts.
pub open spec fn spec_users_total(us: Seq<User>) -> int
    decreases us.len(),
{
    if us.len() == 0 {
        0
    } else {
        spec_users_total(us.drop_last()) + (match us.last().vote {
            VoteState::Visible(x) => x as int,
            _ => 0,
        })
    }
}

/// How many votes are visible.
pub open spec fn spec_users_count(us: Seq<User>) -> int
    decreases us.len(),
{
    if us.len() == 0 {
        0
    } else {
        spec_users_count(us.drop_last()) + (match us.last().vote {
            VoteState::Visible(_) => 1int,
            _ => 0,
        })
    }
}

/// The demonstration session: it owns its voters, and taking votes records
/// the sum and count of the visible ones; with no amounts the average is
/// explicitly absent.
#[derive(Debug)]
pub struct Session {
    pub session_id: u32,
    pub session_admin_token: u32,
    pub users: Vec<User>,
    pub average: Option<Average>,
}

impl Session {
    /// A fresh demonstration session with no voters.
    pub fn new() -> (r: Self)
        ensures
            r.session_id == 1,
            r.session_admin_token == 1,
            r.users@.len() == 0,
            r.average is None,
    {
        Session { session_id: 1, session_admin_token: 1, users: Vec::new(), average: None }
    }

    /// Admits one voter at the end of the list.
    pub fn add_user(&mut self, user: User)
        ensures
            final(self).users@ == old(self).users@.push(user),
            final(self).session_id == old(self).session_id,
            final(self).session_admin_token == old(self).session_admin_token,
            final(self).average == old(self).average,
    {
        self.users.push(user);
    }

    /// Reveal every vote, then store the exact mean of the amounts that are
    /// visible; no votes with amounts leave the average explicitly absent.
    pub fn take_votes(&mut self)
        requires
            old(self).users@.len() <= 0xFFFF_FFFF,
        ensures
            final(self).users@ == spec_reveal_users(old(self).users@),
            final(self).average == (if spec_users_count(spec_reveal_users(old(self).users@)) > 0 {
                Some(
                    Average {
                        total: spec_users_total(spec_reveal_users(old(self).users@)) as u64,
                        count: spec_users_count(spec_reveal_users(old(self).users@)) as u32,
                    },
                )
            } else {
                None
            }),
            final(self).session_id == old(self).session_id,
            final(self).session_admin_token == old(self).session_admin_token,
    {
        let ghost rs = spec_reveal_users(old(self).users@);
        let n = self.users.len();
        let mut out: Vec<User> = Vec::new();
        let mut total: u64 = 0;
        let mut count: u32 = 0;
        let mut i: usize = 0;
        while i < n
            invariant
                n == self.users@.len(),
                n <= 0xFFFF_FFFF,
                self.users@ == old(self).users@,
                rs == spec_reveal_users(self.users@),
                i <= n,
                out@ == rs.take(i as int),
                out@.len() == i,
                total == spec_users_total(rs.take(i as int)),
                count == spec_users_count(rs.take(i as int)),
                count <= i,
                total <= i * 0xFFFF_FFFF,
            decreases n - i,
        {
            let mut u = self.users[i].clone();
            u.reveal_vote();
            proof {
                assert(u == rs[i as int]);
                assert(rs.take(i + 1).drop_last() =~= rs.take(i as int));
                assert(rs.take(i + 1).last() == rs[i as int]);
            }
            match u.vote {
                VoteState::Visible(x) => {
                    total = total + x as u64;
                    count = count + 1;
                },
                _ => {},
            }
            out.push(u);
            proof {
                assert(out@ =~= rs.take(i + 1));
            }
            i = i + 1;
        }
        proof {
            assert(rs.take(n as int) =~= rs);
        }
        if count > 0 {
            self.average = Some(Average { total: total, count: count });
        } else {
            self.average = None;
        }
        self.users = out;
    }

    /// Clear every vote (hidden votes survive) and drop the average.
    pub fn clear(&mut self)
        ensures
            final(self).users@ == spec_clear_users(old(self).users@),
            final(self).average is None,
            final(self).session_id == old(self).session_id,
            final(self).session_admin_token == old(self).session_admin_token,
    {
        let ghost cs = spec_clear_users(old(self).users@);
        let n = self.users.len();
        let mut out: Vec<User> = Vec::new();
        let mut i: usize = 0;
        while i < n
            invariant
                n == self.users@.len(),
                self.users@ == old(self).users@,
                cs == spec_clear_users(self.users@),
                i <= n,
                out@ == cs.take(i as int),
            decreases n - i,
        {
            let mut u = self.users[i].clone();
            u.clear();
            proof {
                assert(u == cs[i as int]);
            }
            out.push(u);
            proof {
                assert(out@ =~= cs.take(i + 1));
            }
            i = i + 1;
        }
        proof {
            assert(cs.take(n as int) =~= cs);
        }
        self.average = None;
        self.users = out;
    }

    /// Reset every vote to empty and drop the average.
    pub fn reset(&mut self)
        ensures
            final(self).users@ == spec_reset_users(old(self).users@),
            final(self).average is None,
            final(self).session_id == old(self).session_id,
            final(self).session_admin_token == old(self).session_admin_token,
    {
        let ghost zs = spec_reset_users(old(self).users@);
        let n = self.users.len();
        let mut out: Vec<User> = Vec::new();
        let mut i: usize = 0;
        while i < n
            invariant
                n == self.users@.len(),
                self.users@ == old(self).users@,
                zs == spec_reset_users(self.users@),
                i <= n,
                out@ == zs.take(i as int),
            decreases n - i,
        {
            let mut u = self.users[i].clone();
            u.reset();
            proof {
                assert(u == zs[i as int]);
            }
            out.push(u);
            proof {
                assert(out@ =~= zs.take(i + 1));
            }
            i = i + 1;
        }
        proof {
            assert(zs.take(n as int) =~= zs);
        }
        self.average = None;
        self.users = out;
    }

    /// Removes every voter going by the given name.
    pub fn kick_user(&mut self, nickname: &str)
        ensures
            final(self).users@ == spec_kick(old(self).users@, nickname@),
            final(self).session_id == old(self).session_id,
            final(self).session_admin_token == old(self).session_admin_token,
            final(self).average == old(self).average,
    {
        let target: String = nickname.to_owned();
        let n = self.users.len();
        let mut out: Vec<User> = Vec::new();
        let mut i: usize = 0;
        proof {
            reveal(Seq::filter);
            assert(self.users@.take(0) =~= Seq::<User>::empty());
        }
        while i < n
            invariant
                n == self.users@.len(),
                self.users@ == old(self).users@,
                i <= n,
                out@ == spec_kick(self.users@.take(i as int), target@),
                target@ == nickname@,
            decreases n - i,
        {
            let u = self.users[i].clone();
            proof {
                reveal(Seq::filter);
                assert(self.users@.take(i + 1).drop_last() =~= self.users@.take(i as int));
                assert(self.users@.take(i + 1).last() == self.users@[i as int]);
            }
            if !(u.nickname == target) {
                out.push(u);
            }
            proof {
                assert(out@ =~= spec_kick(self.users@.take(i + 1), target@));
            }
            i = i + 1;
        }
        proof {
            assert(self.users@.take(n as int) =~= self.users@);
        }
        self.users = out;
    }
}

/// The voters that survive kicking a name: those going by any other name.
pub open spec fn spec_kick(us: Seq<User>, name: Seq<char>) -> Seq<User> {
    us.filter(|u: User| u.nickname@ != name)
}

} // verus!
