use vstd::prelude::*;

verus! {

use crate::estimates::participant::{
    Participant, ParticipantView, PublicParticipant, pviews, spec_public_participant,
};
use crate::estimates::vote::{VoteState, spec_reveal, spec_clear, spec_reset};
use crate::generator;
use crate::user::UserID;

/// An opaque identifier for a session, random at creation and immutable.
#[derive(Debug, Eq)]
pub struct SessionID(pub String);

impl View for SessionID {
    type V = Seq<char>;

    open spec fn view(&self) -> Seq<char> {
        self.0@
    }
}

impl SessionID {
    /// A fresh random session identifier: short, lower-case letters only.
    pub fn new() -> (r: Self)
        ensures
            r@.len() == 5,
            forall|i: int| 0 <= i < r@.len() ==> generator::is_lower_alpha(#[trigger] r@[i]),
    {
        SessionID(generator::session_id())
    }
}

impl Clone for SessionID {
    fn clone(&self) -> (r: Self)
        ensures
            r == *self,
    {
        SessionID(self.0.clone())
    }
}

impl PartialEq for SessionID {
    fn eq(&self, other: &SessionID) -> (r: bool) {
        self.0 == other.0
    }
}

impl vstd::std_specs::cmp::PartialEqSpecImpl for SessionID {
    open spec fn obeys_eq_spec() -> bool {
        true
    }

    open spec fn eq_spec(&self, other: &SessionID) -> bool {
        self@ == other@
    }
}

/// The exact mean of the revealed votes, kept as the sum and the number of
/// contributing votes so no precision is lost in storage.
#[derive(Debug, PartialEq, Eq, Clone, Copy, Structural)]
pub struct Average {
    pub total: u64,
    pub count: u32,
}

/// A session aggregate: its identifier and the average of the last reveal,
/// absent until votes were taken.
#[derive(Debug, PartialEq, Eq)]
pub struct Session {
    pub session_id: SessionID,
    pub average: Option<Average>,
}

/// The spec-level content of a session.
pub struct SessionView {
    pub session_id: Seq<char>,
    pub average: Option<Average>,
}

impl View for Session {
    type V = SessionView;

    open spec fn view(&self) -> SessionView {
        SessionView { session_id: self.session_id@, average: self.average }
    }
}

impl Clone for Session {
    fn clone(&self) -> (r: Self)
        ensures
            r@ == self@,
    {
        Session { session_id: self.session_id.clone(), average: self.average }
    }
}

/// All participants with their votes revealed.
pub open spec fn spec_reveal_all(ps: Seq<ParticipantView>) -> Seq<ParticipantView> {
    ps.map(|i: int, p: ParticipantView| ParticipantView { vote: spec_reveal(p.vote), ..p })
}

/// All participants with their votes cleared.
pub open spec fn spec_clear_all(ps: Seq<ParticipantView>) -> Seq<ParticipantView> {
    ps.map(|i: int, p: ParticipantView| ParticipantView { vote: spec_clear(p.vote), ..p })
}

/// All participants with their votes reset.
pub open spec fn spec_reset_all(ps: Seq<ParticipantView>) -> Seq<ParticipantView> {
    ps.map(|i: int, p: ParticipantView| ParticipantView { vote: spec_reset(p.vote), ..p })
}

/// The sum of the visible vote amounts.
pub open spec fn spec_visible_total(ps: Seq<ParticipantView>) -> int
    decreases ps.len(),
{
    if ps.len() == 0 {
        0
    } else {
        spec_visible_total(ps.drop_last()) + (match ps.last().vote {
            VoteState::Visible(x) => x as int,
            _ => 0,
        })
    }
}

/// How many votes are visible.
pub open spec fn spec_visible_count(ps: Seq<ParticipantView>) -> int
    decreases ps.len(),
{
    if ps.len() == 0 {
        0
    } else {
        spec_visible_count(ps.drop_last()) + (match ps.last().vote {
            VoteState::Visible(_) => 1int,
            _ => 0,
        })
    }
}

/// The average that taking votes stores: the sum and count of the votes that
/// are visible once every vote is revealed, or nothing when no vote carries
/// an amount.
pub open spec fn spec_take_votes_average(ps: Seq<ParticipantView>) -> Option<Average> {
    let rps = spec_reveal_all(ps);
    if spec_visible_count(rps) > 0 {
        Some(Average {
            total: spec_visible_total(rps) as u64,
            count: spec_visible_count(rps) as u32,
        })
    } else {
        None
    }
}

impl Session {
    /// A fresh session with a random identifier and no average yet.
    pub fn new() -> (r: Self)
        ensures
            r@.session_id.len() == 5,
            r@.average is None,
    {
        Session { session_id: SessionID::new(), average: None }
    }

    /// Reveal every participant's vote, then store the exact mean of the
    /// amounts that are visible; no votes with amounts leave the average
    /// explicitly absent.
    pub fn take_votes(&mut self, participants: &mut Vec<Participant>)
        requires
            old(participants)@.len() <= 0xFFFF_FFFF,
        ensures
            final(self)@.session_id == old(self)@.session_id,
            final(self)@.average == spec_take_votes_average(pviews(old(participants)@)),
            pviews(final(participants)@) == spec_reveal_all(pviews(old(participants)@)),
    {
        let ghost rps = spec_reveal_all(pviews(old(participants)@));
        let n = participants.len();
        let mut out: Vec<Participant> = Vec::new();
        let mut total: u64 = 0;
        let mut count: u32 = 0;
        let mut i: usize = 0;
        while i < n
            invariant
                n == participants@.len(),
                n <= 0xFFFF_FFFF,
                participants@ == old(participants)@,
                rps == spec_reveal_all(pviews(participants@)),
                i <= n,
                out@.len() == i,
                pviews(out@) == rps.take(i as int),
                total == spec_visible_total(rps.take(i as int)),
                count == spec_visible_count(rps.take(i as int)),
                count <= i,
                total <= i * 0xFFFF_FFFF,
            decreases n - i,
        {
            let mut p = participants[i].clone();
            p.vote.reveal_vote();
            assert(p@ == rps[i as int]);
            proof {
                assert(rps.take(i + 1).drop_last() =~= rps.take(i as int));
                assert(rps.take(i + 1).last() == rps[i as int]);
            }
            match p.vote {
                VoteState::Visible(x) => {
                    total = total + x as u64;
                    count = count + 1;
                },
                _ => {},
            }
            out.push(p);
            proof {
                assert(pviews(out@) =~= rps.take(i + 1));
            }
            i = i + 1;
        }
        proof {
            assert(rps.take(n as int) =~= rps);
        }
        if count > 0 {
            self.average = Some(Average { total: total, count: count });
        } else {
            self.average = None;
        }
        *participants = out;
    }

    /// Clear every participant's vote (hidden votes survive) and drop the
    /// stored average.
    pub fn clear(&mut self, participants: &mut Vec<Participant>)
        ensures
            final(self)@.session_id == old(self)@.session_id,
            final(self)@.average is None,
            pviews(final(participants)@) == spec_clear_all(pviews(old(participants)@)),
    {
        let ghost cps = spec_clear_all(pviews(old(participants)@));
        let n = participants.len();
        let mut out: Vec<Participant> = Vec::new();
        let mut i: usize = 0;
        while i < n
            invariant
                n == participants@.len(),
                participants@ == old(participants)@,
                cps == spec_clear_all(pviews(participants@)),
                i <= n,
                out@.len() == i,
                pviews(out@) == cps.take(i as int),
            decreases n - i,
        {
            let mut p = participants[i].clone();
            p.vote.clear();
            assert(p@ == cps[i as int]);
            out.push(p);
            proof {
                assert(pviews(out@) =~= cps.take(i + 1));
            }
            i = i + 1;
        }
        proof {
            assert(cps.take(n as int) =~= cps);
        }
        self.average = None;
        *participants = out;
    }

    /// Reset every participant's vote to empty and drop the stored average.
    pub fn reset(&mut self, participants: &mut Vec<Participant>)
        ensures
            final(self)@.session_id == old(self)@.session_id,
            final(self)@.average is None,
            pviews(final(participants)@) == spec_reset_all(pviews(old(participants)@)),
    {
        let ghost zps = spec_reset_all(pviews(old(participants)@));
        let n = participants.len();
        let mut out: Vec<Participant> = Vec::new();
        let mut i: usize = 0;
        while i < n
            invariant
                n == participants@.len(),
                participants@ == old(participants)@,
                zps == spec_reset_all(pviews(participants@)),
                i <= n,
                out@.len() == i,
                pviews(out@) == zps.take(i as int),
            decreases n - i,
        {
            let mut p = participants[i].clone();
            p.vote.reset();
            assert(p@ == zps[i as int]);
            out.push(p);
            proof {
                assert(pviews(out@) =~= zps.take(i + 1));
            }
            i = i + 1;
        }
        proof {
            assert(zps.take(n as int) =~= zps);
        }
        self.average = None;
        *participants = out;
    }
}


/// The aggregate phase of a session, derived on read from the participants'
/// votes and never stored: `Clean` for no participants, `Voting` while all
/// votes are unrevealed, `Visible` when all votes are revealed, and `Dirty`
/// for any mixture of the two phases.
#[derive(Debug, Clone, Copy, PartialEq, Eq, Structural)]
pub enum SessionState {
    Clean,
    Voting,
    Visible,
    Dirty,
}

/// One step of the derivation: how one vote moves the aggregate state.
pub open spec fn state_step(st: SessionState, v: VoteState) -> SessionState {
    match (st, v) {
        (SessionState::Clean, VoteState::Empty) => SessionState::Voting,
        (SessionState::Clean, VoteState::Hidden(_)) => SessionState::Voting,
        (SessionState::Clean, VoteState::Visible(_)) => SessionState::Visible,
        (SessionState::Voting, VoteState::Visible(_)) => SessionState::Dirty,
        (SessionState::Visible, VoteState::Empty) => SessionState::Dirty,
        (SessionState::Visible, VoteState::Hidden(_)) => SessionState::Dirty,
        _ => st,
    }
}

/// The left-to-right fold of `state_step` over a sequence of votes.
pub open spec fn spec_fold_state(st: SessionState, votes: Seq<VoteState>) -> SessionState
    decreases votes.len(),
{
    if votes.len() == 0 {
        st
    } else {
        spec_fold_state(state_step(st, votes[0]), votes.drop_first())
    }
}

/// The derived state of a session whose participants hold the given votes.
pub open spec fn spec_session_state(votes: Seq<VoteState>) -> SessionState {
    spec_fold_state(SessionState::Clean, votes)
}

/// The votes of a sequence of participants.
pub open spec fn votes_of(ps: Seq<ParticipantView>) -> Seq<VoteState> {
    ps.map(|i: int, p: ParticipantView| p.vote)
}

/// Folding one more vote at the end applies one more step.
proof fn lemma_fold_snoc(st: SessionState, votes: Seq<VoteState>, v: VoteState)
    ensures
        spec_fold_state(st, votes.push(v)) == state_step(spec_fold_state(st, votes), v),
    decreases votes.len(),
{
    if votes.len() == 0 {
        assert(votes.push(v)[0] == v);
        assert(votes.push(v).drop_first() =~= Seq::<VoteState>::empty());
        assert(spec_fold_state(st, votes.push(v)) == spec_fold_state(
            state_step(st, v),
            votes.push(v).drop_first(),
        ));
    } else {
        assert(votes.push(v)[0] == votes[0]);
        assert(votes.push(v).drop_first() =~= votes.drop_first().push(v));
        lemma_fold_snoc(state_step(st, votes[0]), votes.drop_first(), v);
    }
}

/// A dirty state is terminal: no further vote changes it.
proof fn lemma_fold_dirty(votes: Seq<VoteState>)
    ensures
        spec_fold_state(SessionState::Dirty, votes) == SessionState::Dirty,
    decreases votes.len(),
{
    if votes.len() > 0 {
        lemma_fold_dirty(votes.drop_first());
    }
}

/// A vote that has not been revealed: empty or still hidden.
pub open spec fn is_prevote(v: VoteState) -> bool {
    v is Empty || v is Hidden
}

proof fn lemma_fold_voting_stays(votes: Seq<VoteState>)
    requires
        forall|i: int| 0 <= i < votes.len() ==> is_prevote(#[trigger] votes[i]),
    ensures
        spec_fold_state(SessionState::Voting, votes) == SessionState::Voting,
    decreases votes.len(),
{
    if votes.len() > 0 {
        lemma_fold_voting_stays(votes.drop_first());
    }
}

proof fn lemma_fold_visible_stays(votes: Seq<VoteState>)
    requires
        forall|i: int| 0 <= i < votes.len() ==> #[trigger] votes[i] is Visible,
    ensures
        spec_fold_state(SessionState::Visible, votes) == SessionState::Visible,
    decreases votes.len(),
{
    if votes.len() > 0 {
        lemma_fold_visible_stays(votes.drop_first());
    }
}

/// The derivation does not depend on the order of a uniform list: any
/// non-empty sequence of unrevealed votes derives `Voting`, however it is
/// permuted.
pub proof fn lemma_state_all_prevote(votes: Seq<VoteState>)
    requires
        votes.len() > 0,
        forall|i: int| 0 <= i < votes.len() ==> is_prevote(#[trigger] votes[i]),
    ensures
        spec_session_state(votes) == SessionState::Voting,
{
    lemma_fold_voting_stays(votes.drop_first());
}

/// The derivation does not depend on the order of a uniform list: any
/// non-empty sequence of visible votes derives `Visible`, however it is
/// permuted.
pub proof fn lemma_state_all_visible(votes: Seq<VoteState>)
    requires
        votes.len() > 0,
        forall|i: int| 0 <= i < votes.len() ==> #[trigger] votes[i] is Visible,
    ensures
        spec_session_state(votes) == SessionState::Visible,
{
    lemma_fold_visible_stays(votes.drop_first());
}

proof fn lemma_fold_voting_mixed(votes: Seq<VoteState>)
    requires
        exists|i: int| 0 <= i < votes.len() && #[trigger] votes[i] is Visible,
    ensures
        spec_fold_state(SessionState::Voting, votes) == SessionState::Dirty,
    decreases votes.len(),
{
    if votes[0] is Visible {
        lemma_fold_dirty(votes.drop_first());
    } else {
        let i = choose|i: int| 0 <= i < votes.len() && #[trigger] votes[i] is Visible;
        assert(votes.drop_first()[i - 1] is Visible);
        lemma_fold_voting_mixed(votes.drop_first());
    }
}

proof fn lemma_fold_visible_mixed(votes: Seq<VoteState>)
    requires
        exists|i: int| 0 <= i < votes.len() && is_prevote(#[trigger] votes[i]),
    ensures
        spec_fold_state(SessionState::Visible, votes) == SessionState::Dirty,
    decreases votes.len(),
{
    if is_prevote(votes[0]) {
        lemma_fold_dirty(votes.drop_first());
    } else {
        let i = choose|i: int| 0 <= i < votes.len() && is_prevote(#[trigger] votes[i]);
        assert(is_prevote(votes.drop_first()[i - 1]));
        lemma_fold_visible_mixed(votes.drop_first());
    }
}

/// Any mixture of phases is flagged: as soon as one vote is visible and one
/// is not, the derived state is `Dirty`, wherever those votes stand in the
/// list.
pub proof fn lemma_state_mixed(votes: Seq<VoteState>)
    requires
        exists|i: int| 0 <= i < votes.len() && #[trigger] votes[i] is Visible,
        exists|i: int| 0 <= i < votes.len() && is_prevote(#[trigger] votes[i]),
    ensures
        spec_session_state(votes) == SessionState::Dirty,
    decreases votes.len(),
{
    if votes[0] is Visible {
        let i = choose|i: int| 0 <= i < votes.len() && is_prevote(#[trigger] votes[i]);
        assert(is_prevote(votes.drop_first()[i - 1]));
        lemma_fold_visible_mixed(votes.drop_first());
    } else {
        let i = choose|i: int| 0 <= i < votes.len() && #[trigger] votes[i] is Visible;
        assert(votes.drop_first()[i - 1] is Visible);
        lemma_fold_voting_mixed(votes.drop_first());
    }
}

/// Derives the aggregate state from the participants' votes, scanning left
/// to right and stopping at the first violation.
pub fn choose_session_state(votes: &Vec<VoteState>) -> (r: SessionState)
    ensures
        r == spec_session_state(votes@),
{
    let mut state = SessionState::Clean;
    let n = votes.len();
    let mut i: usize = 0;
    while i < n
        invariant
            n == votes@.len(),
            i <= n,
            state == spec_fold_state(SessionState::Clean, votes@.take(i as int)),
            state != SessionState::Dirty,
        decreases n - i,
    {
        let v = votes[i];
        proof {
            assert(votes@.take(i + 1).drop_last() =~= votes@.take(i as int));
            lemma_fold_snoc(SessionState::Clean, votes@.take(i as int), votes@[i as int]);
            assert(votes@.take(i as int).push(votes@[i as int]) =~= votes@.take(i + 1));
        }
        match (state, v) {
            (SessionState::Clean, VoteState::Empty) => {
                state = SessionState::Voting;
            },
            (SessionState::Clean, VoteState::Hidden(_)) => {
                state = SessionState::Voting;
            },
            (SessionState::Clean, VoteState::Visible(_)) => {
                state = SessionState::Visible;
            },
            (SessionState::Voting, VoteState::Visible(_)) => {
                proof {
                    assert(votes@ =~= votes@.take(i + 1) + votes@.skip(i + 1));
                    lemma_fold_split(SessionState::Clean, votes@.take(i + 1), votes@.skip(i + 1));
                    lemma_fold_dirty(votes@.skip(i + 1));
                }
                return SessionState::Dirty;
            },
            (SessionState::Visible, VoteState::Empty) => {
                proof {
                    assert(votes@ =~= votes@.take(i + 1) + votes@.skip(i + 1));
                    lemma_fold_split(SessionState::Clean, votes@.take(i + 1), votes@.skip(i + 1));
                    lemma_fold_dirty(votes@.skip(i + 1));
                }
                return SessionState::Dirty;
            },
            (SessionState::Visible, VoteState::Hidden(_)) => {
                proof {
                    assert(votes@ =~= votes@.take(i + 1) + votes@.skip(i + 1));
                    lemma_fold_split(SessionState::Clean, votes@.take(i + 1), votes@.skip(i + 1));
                    lemma_fold_dirty(votes@.skip(i + 1));
                }
                return SessionState::Dirty;
            },
            _ => {},
        }
        i = i + 1;
    }
    proof {
        assert(votes@.take(n as int) =~= votes@);
    }
    state
}

/// Folding a concatenation folds the two halves in turn.
proof fn lemma_fold_split(st: SessionState, a: Seq<VoteState>, b: Seq<VoteState>)
    ensures
        spec_fold_state(st, a + b) == spec_fold_state(spec_fold_state(st, a), b),
    decreases a.len(),
{
    if a.len() == 0 {
        assert(a + b =~= b);
    } else {
        assert((a + b).drop_first() =~= a.drop_first() + b);
        lemma_fold_split(state_step(st, a[0]), a.drop_first(), b);
    }
}

/// The public face of a whole session: redacted participants, the admin
/// list, the stored average and the derived state.
#[derive(Debug)]
pub struct PublicSession {
    pub session_id: SessionID,
    pub users: Vec<PublicParticipant>,
    pub admins: Vec<UserID>,
    pub average: Option<Average>,
    pub state: SessionState,
}

impl PublicSession {
    /// Projects a session and its participants to what anyone may see: each
    /// participant redacted, the admins and average as stored, and the state
    /// derived from the votes.
    pub fn new(session: Session, participants: Vec<Participant>, admins: Vec<UserID>) -> (r:
        PublicSession)
        ensures
            r.session_id@ == session@.session_id,
            r.average == session@.average,
            r.admins == admins,
            r.state == spec_session_state(votes_of(pviews(participants@))),
            r.users@.len() == participants@.len(),
            forall|i: int|
                0 <= i < participants@.len() ==> #[trigger] r.users@[i]@ == spec_public_participant(
                    pviews(participants@)[i],
                ),
    {
        let n = participants.len();
        let mut votes: Vec<VoteState> = Vec::new();
        let mut i: usize = 0;
        while i < n
            invariant
                n == participants@.len(),
                i <= n,
                votes@.len() == i,
                votes@ == votes_of(pviews(participants@)).take(i as int),
            decreases n - i,
        {
            votes.push(participants[i].vote);
            proof {
                assert(votes@ =~= votes_of(pviews(participants@)).take(i + 1));
            }
            i = i + 1;
        }
        proof {
            assert(votes_of(pviews(participants@)).take(n as int) =~= votes_of(
                pviews(participants@),
            ));
        }
        let state = choose_session_state(&votes);
        let ghost pvs = pviews(participants@);
        let mut users: Vec<PublicParticipant> = Vec::new();
        let mut j: usize = 0;
        while j < n
            invariant
                n == participants@.len(),
                pvs == pviews(participants@),
                j <= n,
                users@.len() == j,
                forall|k: int|
                    0 <= k < j ==> #[trigger] users@[k]@ == spec_public_participant(pvs[k]),
            decreases n - j,
        {
            let p = participants[j].clone();
            users.push(PublicParticipant::from(p));
            j = j + 1;
        }
        PublicSession {
            session_id: session.session_id,
            users: users,
            average: session.average,
            admins: admins,
            state: state,
        }
    }
}

} // verus!
