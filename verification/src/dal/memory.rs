use vstd::prelude::*;

verus! {

use crate::dal::{
    StoryData, StoreModel, SessionAction, ParticipantChange, participants_of, admins_of,
    spec_is_admin, has_participant, store_wf, update_matching, apply_action_session,
    apply_action_participants, apply_participant_change, participants_same,
    participants_same_except, admins_same, admins_same_except, store_same,
};
use crate::errors::Error;
use crate::estimates::participant::{Participant, ParticipantView, pviews};
use crate::estimates::session::{Session, SessionID, SessionView};
use crate::user::{BasicUser, BasicUserView, UserID, uid_views};

/// An in-memory store of users, sessions, participants and admin relations.
/// The reference backend: every operation succeeds or fails exactly as the
/// storage contract says, with no transport in between. Entries are kept in
/// insertion order, which `get_participants` and `get_admins` preserve.
pub struct MemoryDB {
    users: Vec<BasicUser>,
    sessions: Vec<Session>,
    participants: Vec<(SessionID, Vec<Participant>)>,
    admins: Vec<(SessionID, Vec<UserID>)>,
}

/// The user table a sequence of stored users stands for.
pub open spec fn user_map(s: Seq<BasicUser>) -> Map<Seq<char>, BasicUserView>
    decreases s.len(),
{
    if s.len() == 0 {
        Map::empty()
    } else {
        user_map(s.drop_last()).insert(s.last()@.user_id, s.last()@)
    }
}

/// The session table a sequence of stored sessions stands for.
pub open spec fn session_map(s: Seq<Session>) -> Map<Seq<char>, SessionView>
    decreases s.len(),
{
    if s.len() == 0 {
        Map::empty()
    } else {
        session_map(s.drop_last()).insert(s.last()@.session_id, s.last()@)
    }
}

/// The participant relation a sequence of keyed lists stands for.
pub open spec fn plist_map(s: Seq<(SessionID, Vec<Participant>)>) -> Map<
    Seq<char>,
    Seq<ParticipantView>,
>
    decreases s.len(),
{
    if s.len() == 0 {
        Map::empty()
    } else {
        plist_map(s.drop_last()).insert(s.last().0@, pviews(s.last().1@))
    }
}

/// The admin relation a sequence of keyed lists stands for.
pub open spec fn alist_map(s: Seq<(SessionID, Vec<UserID>)>) -> Map<Seq<char>, Seq<Seq<char>>>
    decreases s.len(),
{
    if s.len() == 0 {
        Map::empty()
    } else {
        alist_map(s.drop_last()).insert(s.last().0@, uid_views(s.last().1@))
    }
}

/// Each stored user has its own identifier.
pub open spec fn unique_users(s: Seq<BasicUser>) -> bool {
    forall|i: int, j: int| 0 <= i < j < s.len() ==> s[i]@.user_id != s[j]@.user_id
}

/// Each stored session has its own identifier.
pub open spec fn unique_sessions(s: Seq<Session>) -> bool {
    forall|i: int, j: int| 0 <= i < j < s.len() ==> s[i]@.session_id != s[j]@.session_id
}

/// Each keyed participant list has its own key.
pub open spec fn unique_pkeys(s: Seq<(SessionID, Vec<Participant>)>) -> bool {
    forall|i: int, j: int| 0 <= i < j < s.len() ==> s[i].0@ != s[j].0@
}

/// Each keyed admin list has its own key.
pub open spec fn unique_akeys(s: Seq<(SessionID, Vec<UserID>)>) -> bool {
    forall|i: int, j: int| 0 <= i < j < s.len() ==> s[i].0@ != s[j].0@
}

/// A participant list holds each user at most once.
pub open spec fn unique_members(ps: Seq<Participant>) -> bool {
    forall|i: int, j: int| 0 <= i < j < ps.len() ==> ps[i]@.user_id != ps[j]@.user_id
}

/// Every stored participant list holds each user at most once.
pub open spec fn all_unique_members(s: Seq<(SessionID, Vec<Participant>)>) -> bool {
    forall|i: int| 0 <= i < s.len() ==> unique_members(#[trigger] s[i].1@)
}

proof fn lemma_pview_at(s: Seq<Participant>, x: int)
    requires
        0 <= x < s.len(),
    ensures
        pviews(s).len() == s.len(),
        pviews(s)[x] == s[x]@,
{
}

proof fn lemma_action_user_id(ps: Seq<ParticipantView>, action: SessionAction, x: int)
    requires
        0 <= x < ps.len(),
    ensures
        apply_action_participants(ps, action).len() == ps.len(),
        apply_action_participants(ps, action)[x].user_id == ps[x].user_id,
{
}

proof fn lemma_user_map_wf(s: Seq<BasicUser>)
    ensures
        forall|k: Seq<char>|
            user_map(s).contains_key(k) ==> #[trigger] user_map(s)[k].user_id == k,
    decreases s.len(),
{
    if s.len() > 0 {
        lemma_user_map_wf(s.drop_last());
        assert forall|k: Seq<char>| user_map(s).contains_key(k) implies #[trigger] user_map(
            s,
        )[k].user_id == k by {
            if k != s.last()@.user_id {
                assert(user_map(s.drop_last())[k].user_id == k);
            }
        }
    }
}

proof fn lemma_session_map_wf(s: Seq<Session>)
    ensures
        forall|k: Seq<char>|
            session_map(s).contains_key(k) ==> #[trigger] session_map(s)[k].session_id == k,
    decreases s.len(),
{
    if s.len() > 0 {
        lemma_session_map_wf(s.drop_last());
        assert forall|k: Seq<char>| session_map(s).contains_key(k) implies #[trigger] session_map(
            s,
        )[k].session_id == k by {
            if k != s.last()@.session_id {
                assert(session_map(s.drop_last())[k].session_id == k);
            }
        }
    }
}

proof fn lemma_user_map_found(s: Seq<BasicUser>, i: int)
    requires
        unique_users(s),
        0 <= i < s.len(),
    ensures
        user_map(s).contains_key(s[i]@.user_id),
        user_map(s)[s[i]@.user_id] == s[i]@,
    decreases s.len(),
{
    if i < s.len() - 1 {
        assert(s.drop_last()[i] == s[i]);
        lemma_user_map_found(s.drop_last(), i);
    }
}

proof fn lemma_user_map_absent(s: Seq<BasicUser>, k: Seq<char>)
    requires
        forall|i: int| 0 <= i < s.len() ==> s[i]@.user_id != k,
    ensures
        !user_map(s).contains_key(k),
    decreases s.len(),
{
    if s.len() > 0 {
        lemma_user_map_absent(s.drop_last(), k);
    }
}

proof fn lemma_user_map_push(s: Seq<BasicUser>, u: BasicUser)
    ensures
        user_map(s.push(u)) == user_map(s).insert(u@.user_id, u@),
{
    assert(s.push(u).drop_last() =~= s);
    assert(s.push(u).last() == u);
}

proof fn lemma_user_map_update(s: Seq<BasicUser>, i: int, u: BasicUser)
    requires
        unique_users(s),
        0 <= i < s.len(),
        u@.user_id == s[i]@.user_id,
    ensures
        user_map(s.update(i, u)) == user_map(s).insert(u@.user_id, u@),
    decreases s.len(),
{
    let t = s.update(i, u);
    let k = u@.user_id;
    if i == s.len() - 1 {
        assert(t.drop_last() =~= s.drop_last());
        assert(t.last() == u);
        assert(user_map(s.drop_last()).insert(k, s[i]@).insert(k, u@) =~= user_map(
            s.drop_last(),
        ).insert(k, u@));
    } else {
        assert(t.drop_last() =~= s.drop_last().update(i, u));
        assert(t.last() == s.last());
        assert(s.drop_last()[i] == s[i]);
        lemma_user_map_update(s.drop_last(), i, u);
        assert(user_map(s.drop_last()).insert(k, u@).insert(s.last()@.user_id, s.last()@)
            =~= user_map(s.drop_last()).insert(s.last()@.user_id, s.last()@).insert(k, u@));
    }
}

proof fn lemma_session_map_found(s: Seq<Session>, i: int)
    requires
        unique_sessions(s),
        0 <= i < s.len(),
    ensures
        session_map(s).contains_key(s[i]@.session_id),
        session_map(s)[s[i]@.session_id] == s[i]@,
    decreases s.len(),
{
    if i < s.len() - 1 {
        assert(s.drop_last()[i] == s[i]);
        lemma_session_map_found(s.drop_last(), i);
    }
}

proof fn lemma_session_map_absent(s: Seq<Session>, k: Seq<char>)
    requires
        forall|i: int| 0 <= i < s.len() ==> s[i]@.session_id != k,
    ensures
        !session_map(s).contains_key(k),
    decreases s.len(),
{
    if s.len() > 0 {
        lemma_session_map_absent(s.drop_last(), k);
    }
}

proof fn lemma_session_map_push(s: Seq<Session>, x: Session)
    ensures
        session_map(s.push(x)) == session_map(s).insert(x@.session_id, x@),
{
    assert(s.push(x).drop_last() =~= s);
    assert(s.push(x).last() == x);
}

proof fn lemma_session_map_update(s: Seq<Session>, i: int, x: Session)
    requires
        unique_sessions(s),
        0 <= i < s.len(),
        x@.session_id == s[i]@.session_id,
    ensures
        session_map(s.update(i, x)) == session_map(s).insert(x@.session_id, x@),
    decreases s.len(),
{
    let t = s.update(i, x);
    let k = x@.session_id;
    if i == s.len() - 1 {
        assert(t.drop_last() =~= s.drop_last());
        assert(t.last() == x);
        assert(session_map(s.drop_last()).insert(k, s[i]@).insert(k, x@) =~= session_map(
            s.drop_last(),
        ).insert(k, x@));
    } else {
        assert(t.drop_last() =~= s.drop_last().update(i, x));
        assert(t.last() == s.last());
        assert(s.drop_last()[i] == s[i]);
        lemma_session_map_update(s.drop_last(), i, x);
        assert(session_map(s.drop_last()).insert(k, x@).insert(s.last()@.session_id, s.last()@)
            =~= session_map(s.drop_last()).insert(s.last()@.session_id, s.last()@).insert(k, x@));
    }
}

proof fn lemma_session_map_remove(s: Seq<Session>, i: int)
    requires
        unique_sessions(s),
        0 <= i < s.len(),
    ensures
        session_map(s.remove(i)) == session_map(s).remove(s[i]@.session_id),
    decreases s.len(),
{
    let k = s[i]@.session_id;
    if i == s.len() - 1 {
        assert(s.remove(i) =~= s.drop_last());
        lemma_session_map_absent(s.drop_last(), k);
        assert(session_map(s.drop_last()) =~= session_map(s.drop_last()).insert(
            k,
            s[i]@,
        ).remove(k));
    } else {
        assert(s.remove(i).drop_last() =~= s.drop_last().remove(i));
        assert(s.remove(i).last() == s.last());
        assert(s.drop_last()[i] == s[i]);
        lemma_session_map_remove(s.drop_last(), i);
        assert(session_map(s.drop_last()).remove(k).insert(s.last()@.session_id, s.last()@)
            =~= session_map(s.drop_last()).insert(s.last()@.session_id, s.last()@).remove(k));
    }
}

proof fn lemma_plist_map_found(s: Seq<(SessionID, Vec<Participant>)>, i: int)
    requires
        unique_pkeys(s),
        0 <= i < s.len(),
    ensures
        plist_map(s).contains_key(s[i].0@),
        plist_map(s)[s[i].0@] == pviews(s[i].1@),
    decreases s.len(),
{
    if i < s.len() - 1 {
        assert(s.drop_last()[i] == s[i]);
        lemma_plist_map_found(s.drop_last(), i);
    }
}

proof fn lemma_plist_map_absent(s: Seq<(SessionID, Vec<Participant>)>, k: Seq<char>)
    requires
        forall|i: int| 0 <= i < s.len() ==> s[i].0@ != k,
    ensures
        !plist_map(s).contains_key(k),
    decreases s.len(),
{
    if s.len() > 0 {
        lemma_plist_map_absent(s.drop_last(), k);
    }
}

proof fn lemma_plist_map_push(s: Seq<(SessionID, Vec<Participant>)>, x: (SessionID, Vec<
    Participant,
>))
    ensures
        plist_map(s.push(x)) == plist_map(s).insert(x.0@, pviews(x.1@)),
{
    assert(s.push(x).drop_last() =~= s);
    assert(s.push(x).last() == x);
}

proof fn lemma_plist_map_update(s: Seq<(SessionID, Vec<Participant>)>, i: int, x: (SessionID, Vec<
    Participant,
>))
    requires
        unique_pkeys(s),
        0 <= i < s.len(),
        x.0@ == s[i].0@,
    ensures
        plist_map(s.update(i, x)) == plist_map(s).insert(x.0@, pviews(x.1@)),
    decreases s.len(),
{
    let t = s.update(i, x);
    let k = x.0@;
    if i == s.len() - 1 {
        assert(t.drop_last() =~= s.drop_last());
        assert(t.last() == x);
        assert(plist_map(s.drop_last()).insert(k, pviews(s[i].1@)).insert(k, pviews(x.1@))
            =~= plist_map(s.drop_last()).insert(k, pviews(x.1@)));
    } else {
        assert(t.drop_last() =~= s.drop_last().update(i, x));
        assert(t.last() == s.last());
        assert(s.drop_last()[i] == s[i]);
        lemma_plist_map_update(s.drop_last(), i, x);
        assert(plist_map(s.drop_last()).insert(k, pviews(x.1@)).insert(
            s.last().0@,
            pviews(s.last().1@),
        ) =~= plist_map(s.drop_last()).insert(s.last().0@, pviews(s.last().1@)).insert(
            k,
            pviews(x.1@),
        ));
    }
}

proof fn lemma_alist_map_found(s: Seq<(SessionID, Vec<UserID>)>, i: int)
    requires
        unique_akeys(s),
        0 <= i < s.len(),
    ensures
        alist_map(s).contains_key(s[i].0@),
        alist_map(s)[s[i].0@] == uid_views(s[i].1@),
    decreases s.len(),
{
    if i < s.len() - 1 {
        assert(s.drop_last()[i] == s[i]);
        lemma_alist_map_found(s.drop_last(), i);
    }
}

proof fn lemma_alist_map_absent(s: Seq<(SessionID, Vec<UserID>)>, k: Seq<char>)
    requires
        forall|i: int| 0 <= i < s.len() ==> s[i].0@ != k,
    ensures
        !alist_map(s).contains_key(k),
    decreases s.len(),
{
    if s.len() > 0 {
        lemma_alist_map_absent(s.drop_last(), k);
    }
}

proof fn lemma_alist_map_push(s: Seq<(SessionID, Vec<UserID>)>, x: (SessionID, Vec<UserID>))
    ensures
        alist_map(s.push(x)) == alist_map(s).insert(x.0@, uid_views(x.1@)),
{
    assert(s.push(x).drop_last() =~= s);
    assert(s.push(x).last() == x);
}

proof fn lemma_alist_map_update(s: Seq<(SessionID, Vec<UserID>)>, i: int, x: (SessionID, Vec<
    UserID,
>))
    requires
        unique_akeys(s),
        0 <= i < s.len(),
        x.0@ == s[i].0@,
    ensures
        alist_map(s.update(i, x)) == alist_map(s).insert(x.0@, uid_views(x.1@)),
    decreases s.len(),
{
    let t = s.update(i, x);
    let k = x.0@;
    if i == s.len() - 1 {
        assert(t.drop_last() =~= s.drop_last());
        assert(t.last() == x);
        assert(alist_map(s.drop_last()).insert(k, uid_views(s[i].1@)).insert(k, uid_views(x.1@))
            =~= alist_map(s.drop_last()).insert(k, uid_views(x.1@)));
    } else {
        assert(t.drop_last() =~= s.drop_last().update(i, x));
        assert(t.last() == s.last());
        assert(s.drop_last()[i] == s[i]);
        lemma_alist_map_update(s.drop_last(), i, x);
        assert(alist_map(s.drop_last()).insert(k, uid_views(x.1@)).insert(
            s.last().0@,
            uid_views(s.last().1@),
        ) =~= alist_map(s.drop_last()).insert(s.last().0@, uid_views(s.last().1@)).insert(
            k,
            uid_views(x.1@),
        ));
    }
}

fn find_user_index(users: &Vec<BasicUser>, user_id: &UserID) -> (r: Option<usize>)
    ensures
        (r matches Some(i) ==> i < users@.len() && users@[i as int]@.user_id == user_id@),
        (r is None ==> forall|i: int| 0 <= i < users@.len() ==> users@[i]@.user_id != user_id@),
{
    let n = users.len();
    let mut i: usize = 0;
    while i < n
        invariant
            n == users@.len(),
            i <= n,
            forall|j: int| 0 <= j < i ==> users@[j]@.user_id != user_id@,
        decreases n - i,
    {
        if users[i].user_id == *user_id {
            return Some(i);
        }
        i = i + 1;
    }
    None
}

fn find_session_index(sessions: &Vec<Session>, session_id: &SessionID) -> (r: Option<usize>)
    ensures
        (r matches Some(i) ==> i < sessions@.len() && sessions@[i as int]@.session_id
            == session_id@),
        (r is None ==> forall|i: int|
            0 <= i < sessions@.len() ==> sessions@[i]@.session_id != session_id@),
{
    let n = sessions.len();
    let mut i: usize = 0;
    while i < n
        invariant
            n == sessions@.len(),
            i <= n,
            forall|j: int| 0 <= j < i ==> sessions@[j]@.session_id != session_id@,
        decreases n - i,
    {
        if sessions[i].session_id == *session_id {
            return Some(i);
        }
        i = i + 1;
    }
    None
}

fn find_plist_index(lists: &Vec<(SessionID, Vec<Participant>)>, session_id: &SessionID) -> (r:
    Option<usize>)
    ensures
        (r matches Some(i) ==> i < lists@.len() && lists@[i as int].0@ == session_id@),
        (r is None ==> forall|i: int| 0 <= i < lists@.len() ==> lists@[i].0@ != session_id@),
{
    let n = lists.len();
    let mut i: usize = 0;
    while i < n
        invariant
            n == lists@.len(),
            i <= n,
            forall|j: int| 0 <= j < i ==> lists@[j].0@ != session_id@,
        decreases n - i,
    {
        if lists[i].0 == *session_id {
            return Some(i);
        }
        i = i + 1;
    }
    None
}

fn find_alist_index(lists: &Vec<(SessionID, Vec<UserID>)>, session_id: &SessionID) -> (r: Option<
    usize,
>)
    ensures
        (r matches Some(i) ==> i < lists@.len() && lists@[i as int].0@ == session_id@),
        (r is None ==> forall|i: int| 0 <= i < lists@.len() ==> lists@[i].0@ != session_id@),
{
    let n = lists.len();
    let mut i: usize = 0;
    while i < n
        invariant
            n == lists@.len(),
            i <= n,
            forall|j: int| 0 <= j < i ==> lists@[j].0@ != session_id@,
        decreases n - i,
    {
        if lists[i].0 == *session_id {
            return Some(i);
        }
        i = i + 1;
    }
    None
}

fn find_member_index(ps: &Vec<Participant>, user_id: &UserID) -> (r: Option<usize>)
    ensures
        (r matches Some(i) ==> i < ps@.len() && ps@[i as int]@.user_id == user_id@),
        (r is None ==> forall|i: int| 0 <= i < ps@.len() ==> ps@[i]@.user_id != user_id@),
{
    let n = ps.len();
    let mut i: usize = 0;
    while i < n
        invariant
            n == ps@.len(),
            i <= n,
            forall|j: int| 0 <= j < i ==> ps@[j]@.user_id != user_id@,
        decreases n - i,
    {
        if ps[i].user_id == *user_id {
            return Some(i);
        }
        i = i + 1;
    }
    None
}

fn find_admin_index(admins: &Vec<UserID>, user_id: &UserID) -> (r: Option<usize>)
    ensures
        (r matches Some(i) ==> i < admins@.len() && admins@[i as int]@ == user_id@),
        (r is None ==> forall|i: int| 0 <= i < admins@.len() ==> admins@[i]@ != user_id@),
{
    let n = admins.len();
    let mut i: usize = 0;
    while i < n
        invariant
            n == admins@.len(),
            i <= n,
            forall|j: int| 0 <= j < i ==> admins@[j]@ != user_id@,
        decreases n - i,
    {
        if admins[i] == *user_id {
            return Some(i);
        }
        i = i + 1;
    }
    None
}

fn clone_participants(ps: &Vec<Participant>) -> (r: Vec<Participant>)
    ensures
        r@.len() == ps@.len(),
        pviews(r@) == pviews(ps@),
{
    let n = ps.len();
    let mut out: Vec<Participant> = Vec::new();
    let mut i: usize = 0;
    while i < n
        invariant
            n == ps@.len(),
            i <= n,
            out@.len() == i,
            pviews(out@) == pviews(ps@).take(i as int),
        decreases n - i,
    {
        out.push(ps[i].clone());
        proof {
            assert(pviews(out@) =~= pviews(ps@).take(i + 1));
        }
        i = i + 1;
    }
    proof {
        assert(pviews(ps@).take(n as int) =~= pviews(ps@));
    }
    out
}

fn clone_userids(s: &Vec<UserID>) -> (r: Vec<UserID>)
    ensures
        r@.len() == s@.len(),
        uid_views(r@) == uid_views(s@),
{
    let n = s.len();
    let mut out: Vec<UserID> = Vec::new();
    let mut i: usize = 0;
    while i < n
        invariant
            n == s@.len(),
            i <= n,
            out@.len() == i,
            uid_views(out@) == uid_views(s@).take(i as int),
        decreases n - i,
    {
        out.push(s[i].clone());
        proof {
            assert(uid_views(out@) =~= uid_views(s@).take(i + 1));
        }
        i = i + 1;
    }
    proof {
        assert(uid_views(s@).take(n as int) =~= uid_views(s@));
    }
    out
}

impl MemoryDB {
    /// An empty store.
    pub fn new() -> (r: Self)
        ensures
            r.inv(),
            r.infallible(),
            r.store().users == Map::<Seq<char>, BasicUserView>::empty(),
            r.store().sessions == Map::<Seq<char>, SessionView>::empty(),
            forall|k: Seq<char>| participants_of(r.store(), k) == Seq::<ParticipantView>::empty(),
            forall|k: Seq<char>| admins_of(r.store(), k) == Seq::<Seq<char>>::empty(),
    {
        MemoryDB { users: Vec::new(), sessions: Vec::new(), participants: Vec::new(), admins: Vec::new() }
    }
}

impl StoryData for MemoryDB {
    closed spec fn store(&self) -> StoreModel {
        StoreModel {
            users: user_map(self.users@),
            sessions: session_map(self.sessions@),
            participants: plist_map(self.participants@),
            admins: alist_map(self.admins@),
        }
    }

    closed spec fn infallible(&self) -> bool {
        true
    }

    closed spec fn inv(&self) -> bool {
        &&& unique_users(self.users@)
        &&& unique_sessions(self.sessions@)
        &&& unique_pkeys(self.participants@)
        &&& unique_akeys(self.admins@)
        &&& all_unique_members(self.participants@)
    }

    proof fn inv_implies_wf(&self) {
        lemma_user_map_wf(self.users@);
        lemma_session_map_wf(self.sessions@);
    }

    fn get_user(&self, user_id: &UserID) -> (r: Result<Option<BasicUser>, Error>) {
        match find_user_index(&self.users, user_id) {
            Some(i) => {
                proof {
                    lemma_user_map_found(self.users@, i as int);
                }
                Ok(Some(self.users[i].clone()))
            },
            None => {
                proof {
                    lemma_user_map_absent(self.users@, user_id@);
                }
                Ok(None)
            },
        }
    }

    fn add_user(&mut self, user: BasicUser) -> (r: Result<(), Error>) {
        match find_user_index(&self.users, &user.user_id) {
            Some(i) => {
                proof {
                    lemma_user_map_update(self.users@, i as int, user);
                    assert forall|a: int, b: int|
                        0 <= a < b < self.users@.update(i as int, user).len() implies self.users@.update(
                        i as int,
                        user,
                    )[a]@.user_id != self.users@.update(i as int, user)[b]@.user_id by {
                        assert(self.users@[a]@.user_id != self.users@[b]@.user_id);
                    }
                }
                self.users[i] = user;
            },
            None => {
                proof {
                    lemma_user_map_push(self.users@, user);
                }
                self.users.push(user);
            },
        }
        Ok(())
    }

    fn get_session(&self, session_id: &SessionID) -> (r: Result<Option<Session>, Error>) {
        match find_session_index(&self.sessions, session_id) {
            Some(i) => {
                proof {
                    lemma_session_map_found(self.sessions@, i as int);
                }
                Ok(Some(self.sessions[i].clone()))
            },
            None => {
                proof {
                    lemma_session_map_absent(self.sessions@, session_id@);
                }
                Ok(None)
            },
        }
    }

    fn add_session(&mut self, session: Session) -> (r: Result<(), Error>) {
        match find_session_index(&self.sessions, &session.session_id) {
            Some(i) => {
                proof {
                    lemma_session_map_update(self.sessions@, i as int, session);
                    assert forall|a: int, b: int|
                        0 <= a < b < self.sessions@.update(i as int, session).len() implies self.sessions@.update(
                        i as int,
                        session,
                    )[a]@.session_id != self.sessions@.update(i as int, session)[b]@.session_id by {
                        assert(self.sessions@[a]@.session_id != self.sessions@[b]@.session_id);
                    }
                }
                self.sessions[i] = session;
            },
            None => {
                proof {
                    lemma_session_map_push(self.sessions@, session);
                }
                self.sessions.push(session);
            },
        }
        Ok(())
    }

    fn del_session(&mut self, session_id: &SessionID) -> (r: Result<(), Error>) {
        match find_session_index(&self.sessions, session_id) {
            Some(i) => {
                proof {
                    lemma_session_map_found(self.sessions@, i as int);
                    lemma_session_map_remove(self.sessions@, i as int);
                    assert forall|a: int, b: int|
                        0 <= a < b < self.sessions@.remove(i as int).len() implies self.sessions@.remove(
                        i as int,
                    )[a]@.session_id != self.sessions@.remove(i as int)[b]@.session_id by {}
                }
                self.sessions.remove(i);
                Ok(())
            },
            None => {
                proof {
                    lemma_session_map_absent(self.sessions@, session_id@);
                }
                Err(Error::ObjectNotFound("could not find session".to_owned()))
            },
        }
    }

    fn update_session(&mut self, session_id: &SessionID, action: SessionAction) -> (r: Result<
        (),
        Error,
    >) {
        let si = match find_session_index(&self.sessions, session_id) {
            Some(i) => i,
            None => {
                proof {
                    lemma_session_map_absent(self.sessions@, session_id@);
                }
                return Err(Error::ObjectNotFound("could not find session".to_owned()));
            },
        };
        proof {
            lemma_session_map_found(self.sessions@, si as int);
        }
        let mut session = self.sessions[si].clone();
        let pi = find_plist_index(&self.participants, session_id);
        let mut plist: Vec<Participant> = match pi {
            Some(j) => {
                proof {
                    lemma_plist_map_found(self.participants@, j as int);
                }
                clone_participants(&self.participants[j].1)
            },
            None => {
                proof {
                    lemma_plist_map_absent(self.participants@, session_id@);
                }
                Vec::new()
            },
        };
        let ghost old_ps = participants_of(old(self).store(), session_id@);
        proof {
            assert(pviews(plist@) =~= old_ps);
        }
        match action {
            SessionAction::TakeVotes => session.take_votes(&mut plist),
            SessionAction::Clear => session.clear(&mut plist),
            SessionAction::Reset => session.reset(&mut plist),
        }
        proof {
            assert(session@ == apply_action_session(
                old(self).store().sessions[session_id@],
                old_ps,
                action,
            ));
            assert(pviews(plist@) == apply_action_participants(old_ps, action));
            lemma_session_map_update(self.sessions@, si as int, session);
            assert forall|a: int, b: int|
                0 <= a < b < self.sessions@.update(si as int, session).len() implies self.sessions@.update(
                si as int,
                session,
            )[a]@.session_id != self.sessions@.update(si as int, session)[b]@.session_id by {
                assert(self.sessions@[a]@.session_id != self.sessions@[b]@.session_id);
            }
        }
        self.sessions[si] = session;
        match pi {
            Some(j) => {
                let key = self.participants[j].0.clone();
                let ghost pre = self.participants@;
                proof {
                    lemma_plist_map_update(pre, j as int, (key, plist));
                    assert forall|a: int, b: int|
                        0 <= a < b < pre.update(j as int, (key, plist)).len() implies pre.update(
                        j as int,
                        (key, plist),
                    )[a].0@ != pre.update(j as int, (key, plist))[b].0@ by {
                        assert(pre[a].0@ != pre[b].0@);
                    }
                    assert forall|a: int|
                        0 <= a < pre.update(j as int, (key, plist)).len() implies unique_members(
                        #[trigger] pre.update(j as int, (key, plist))[a].1@,
                    ) by {
                        if a == j {
                            assert forall|x: int, y: int|
                                0 <= x < y < plist@.len() implies plist@[x]@.user_id
                                != plist@[y]@.user_id by {
                                let inner = pre[j as int].1@;
                                lemma_pview_at(plist@, x);
                                lemma_pview_at(plist@, y);
                                lemma_action_user_id(old_ps, action, x);
                                lemma_action_user_id(old_ps, action, y);
                                lemma_pview_at(inner, x);
                                lemma_pview_at(inner, y);
                                assert(unique_members(inner));
                                assert(inner[x]@.user_id != inner[y]@.user_id);
                            }
                        } else {
                            assert(unique_members(pre[a].1@));
                        }
                    }
                }
                self.participants[j] = (key, plist);
            },
            None => {
                proof {
                    assert(plist@.len() == old_ps.len());
                    assert(pviews(plist@) =~= Seq::<ParticipantView>::empty());
                    assert(participants_of(self.store(), session_id@) == apply_action_participants(
                        old_ps,
                        action,
                    ));
                }
            },
        }
        Ok(())
    }

    fn get_participants(&self, session_id: &SessionID) -> (r: Result<Vec<Participant>, Error>) {
        match find_plist_index(&self.participants, session_id) {
            Some(j) => {
                proof {
                    lemma_plist_map_found(self.participants@, j as int);
                }
                Ok(clone_participants(&self.participants[j].1))
            },
            None => {
                proof {
                    lemma_plist_map_absent(self.participants@, session_id@);
                    assert(pviews(Seq::<Participant>::empty()) =~= Seq::<ParticipantView>::empty());
                }
                let empty: Vec<Participant> = Vec::new();
                proof {
                    assert(pviews(empty@) =~= participants_of(self.store(), session_id@));
                }
                Ok(empty)
            },
        }
    }

    fn add_participant(&mut self, participant: Participant) -> (r: Result<(), Error>) {
        let ghost sid = participant@.session_id;
        let ghost old_ps = participants_of(old(self).store(), sid);
        match find_plist_index(&self.participants, &participant.session_id) {
            Some(j) => {
                proof {
                    lemma_plist_map_found(self.participants@, j as int);
                }
                match find_member_index(&self.participants[j].1, &participant.user_id) {
                    Some(i) => {
                        proof {
                            lemma_pview_at(self.participants@[j as int].1@, i as int);
                            assert(participants_of(old(self).store(), sid)[i as int].user_id
                                == participant@.user_id);
                            assert(has_participant(old(self).store(), sid, participant@.user_id));
                        }
                        Err(Error::UserError("that user is already part of this session".to_owned()))
                    },
                    None => {
                        proof {
                            assert forall|i: int|
                                0 <= i < old_ps.len() implies old_ps[i].user_id
                                != participant@.user_id by {
                                lemma_pview_at(self.participants@[j as int].1@, i);
                            }
                        }
                        let key = self.participants[j].0.clone();
                        let mut plist = clone_participants(&self.participants[j].1);
                        plist.push(participant);
                        let ghost pre = self.participants@;
                        proof {
                            assert(pviews(plist@) =~= old_ps.push(plist@.last()@));
                            lemma_plist_map_update(pre, j as int, (key, plist));
                            assert forall|a: int, b: int|
                                0 <= a < b < pre.update(j as int, (key, plist)).len() implies pre.update(
                                j as int,
                                (key, plist),
                            )[a].0@ != pre.update(j as int, (key, plist))[b].0@ by {
                                assert(pre[a].0@ != pre[b].0@);
                            }
                            assert forall|a: int|
                                0 <= a < pre.update(j as int, (key, plist)).len() implies unique_members(
                                #[trigger] pre.update(j as int, (key, plist))[a].1@,
                            ) by {
                                if a == j {
                                    assert forall|x: int, y: int|
                                        0 <= x < y < plist@.len() implies plist@[x]@.user_id
                                        != plist@[y]@.user_id by {
                                        let inner = pre[j as int].1@;
                                        assert(unique_members(inner));
                                        lemma_pview_at(plist@, x);
                                        lemma_pview_at(plist@, y);
                                        assert(pviews(plist@) == old_ps.push(plist@.last()@));
                                        if x < old_ps.len() {
                                            lemma_pview_at(inner, x);
                                            assert(old_ps[x] == inner[x]@);
                                        }
                                        if y < old_ps.len() {
                                            lemma_pview_at(inner, y);
                                            assert(old_ps[y] == inner[y]@);
                                            assert(inner[x]@.user_id != inner[y]@.user_id);
                                        } else {
                                            assert(pviews(plist@)[y] == plist@.last()@);
                                            assert(plist@.last()@.user_id == participant@.user_id);
                                            assert(old_ps[x].user_id != participant@.user_id);
                                        }
                                    }
                                } else {
                                    assert(unique_members(pre[a].1@));
                                }
                            }
                        }
                        self.participants[j] = (key, plist);
                        Ok(())
                    },
                }
            },
            None => {
                proof {
                    lemma_plist_map_absent(self.participants@, sid);
                    assert(old_ps =~= Seq::<ParticipantView>::empty());
                }
                let key = participant.session_id.clone();
                let mut plist: Vec<Participant> = Vec::new();
                plist.push(participant);
                let ghost pre = self.participants@;
                proof {
                    assert(pviews(plist@) =~= old_ps.push(plist@.last()@));
                    lemma_plist_map_push(pre, (key, plist));
                    assert forall|a: int, b: int|
                        0 <= a < b < pre.push((key, plist)).len() implies pre.push(
                        (key, plist),
                    )[a].0@ != pre.push((key, plist))[b].0@ by {
                        if b < pre.len() {
                            assert(pre[a].0@ != pre[b].0@);
                        } else {
                            assert(pre[a].0@ != sid);
                        }
                    }
                    assert forall|a: int|
                        0 <= a < pre.push((key, plist)).len() implies unique_members(
                        #[trigger] pre.push((key, plist))[a].1@,
                    ) by {
                        if a < pre.len() {
                            assert(unique_members(pre[a].1@));
                        } else {
                            assert(plist@.len() == 1);
                        }
                    }
                }
                self.participants.push((key, plist));
                Ok(())
            },
        }
    }

    fn del_participant(&mut self, user_id: &UserID, session_id: &SessionID) -> (r: Result<
        (),
        Error,
    >) {
        let ghost old_ps = participants_of(old(self).store(), session_id@);
        match find_plist_index(&self.participants, session_id) {
            Some(j) => {
                proof {
                    lemma_plist_map_found(self.participants@, j as int);
                }
                match find_member_index(&self.participants[j].1, user_id) {
                    Some(m) => {
                        let key = self.participants[j].0.clone();
                        let mut plist = clone_participants(&self.participants[j].1);
                        plist.remove(m);
                        let ghost pre = self.participants@;
                        proof {
                            assert(pviews(plist@) =~= old_ps.remove(m as int));
                            assert(old_ps[m as int].user_id == user_id@);
                            lemma_plist_map_update(pre, j as int, (key, plist));
                            assert forall|a: int, b: int|
                                0 <= a < b < pre.update(j as int, (key, plist)).len() implies pre.update(
                                j as int,
                                (key, plist),
                            )[a].0@ != pre.update(j as int, (key, plist))[b].0@ by {
                                assert(pre[a].0@ != pre[b].0@);
                            }
                            assert forall|a: int|
                                0 <= a < pre.update(j as int, (key, plist)).len() implies unique_members(
                                #[trigger] pre.update(j as int, (key, plist))[a].1@,
                            ) by {
                                if a == j {
                                    assert forall|x: int, y: int|
                                        0 <= x < y < plist@.len() implies plist@[x]@.user_id
                                        != plist@[y]@.user_id by {
                                        let inner = pre[j as int].1@;
                                        assert(unique_members(inner));
                                        let xi: int = if x < m { x } else { x + 1 };
                                        let yi: int = if y < m { y } else { y + 1 };
                                        lemma_pview_at(plist@, x);
                                        lemma_pview_at(plist@, y);
                                        assert(pviews(plist@) == old_ps.remove(m as int));
                                        assert(old_ps.remove(m as int)[x] == old_ps[xi]);
                                        assert(old_ps.remove(m as int)[y] == old_ps[yi]);
                                        lemma_pview_at(inner, xi);
                                        lemma_pview_at(inner, yi);
                                        assert(inner[xi]@.user_id != inner[yi]@.user_id);
                                    }
                                } else {
                                    assert(unique_members(pre[a].1@));
                                }
                            }
                        }
                        self.participants[j] = (key, plist);
                        Ok(())
                    },
                    None => {
                        proof {
                            assert forall|i: int|
                                0 <= i < old_ps.len() implies old_ps[i].user_id != user_id@ by {
                                lemma_pview_at(self.participants@[j as int].1@, i);
                            }
                        }
                        Err(Error::ObjectNotFound("user was not a member of the session".to_owned()))
                    },
                }
            },
            None => {
                proof {
                    lemma_plist_map_absent(self.participants@, session_id@);
                }
                Err(Error::ObjectNotFound("user was not a member of the session".to_owned()))
            },
        }
    }

    fn update_participant(
        &mut self,
        session_id: &SessionID,
        user_id: &UserID,
        change: ParticipantChange,
    ) -> (r: Result<(), Error>) {
        let ghost old_ps = participants_of(old(self).store(), session_id@);
        match find_plist_index(&self.participants, session_id) {
            Some(j) => {
                proof {
                    lemma_plist_map_found(self.participants@, j as int);
                }
                match find_member_index(&self.participants[j].1, user_id) {
                    Some(m) => {
                        let key = self.participants[j].0.clone();
                        let mut plist = clone_participants(&self.participants[j].1);
                        let mut p = plist[m].clone();
                        match change {
                            ParticipantChange::Rename(n) => {
                                p.nickname = n;
                            },
                            ParticipantChange::CastVote(x) => {
                                p.vote.vote(x);
                            },
                        }
                        proof {
                            assert(p@ == apply_participant_change(old_ps[m as int], change));
                        }
                        plist[m] = p;
                        let ghost pre = self.participants@;
                        proof {
                            assert forall|x: int, y: int|
                                0 <= x < y < plist@.len() implies plist@[x]@.user_id
                                != plist@[y]@.user_id by {
                                assert(unique_members(pre[j as int].1@));
                                let inner = pre[j as int].1@;
                                assert(pviews(plist@)[x].user_id == old_ps[x].user_id);
                                assert(pviews(plist@)[y].user_id == old_ps[y].user_id);
                                assert(old_ps[x].user_id == inner[x]@.user_id);
                                assert(old_ps[y].user_id == inner[y]@.user_id);
                            }
                            assert forall|x: int|
                                0 <= x < plist@.len() implies pviews(plist@)[x] == update_matching(
                                old_ps,
                                user_id@,
                                change,
                            )[x] by {
                                assert(unique_members(pre[j as int].1@));
                                if x != m {
                                    assert(old_ps[x].user_id == pre[j as int].1@[x]@.user_id);
                                    assert(old_ps[m as int].user_id == pre[j as int].1@[m as int]@.user_id);
                                }
                            }
                            assert(pviews(plist@) =~= update_matching(old_ps, user_id@, change));
                            lemma_plist_map_update(pre, j as int, (key, plist));
                            assert forall|a: int, b: int|
                                0 <= a < b < pre.update(j as int, (key, plist)).len() implies pre.update(
                                j as int,
                                (key, plist),
                            )[a].0@ != pre.update(j as int, (key, plist))[b].0@ by {
                                assert(pre[a].0@ != pre[b].0@);
                            }
                            assert forall|a: int|
                                0 <= a < pre.update(j as int, (key, plist)).len() implies unique_members(
                                #[trigger] pre.update(j as int, (key, plist))[a].1@,
                            ) by {
                                if a != j {
                                    assert(unique_members(pre[a].1@));
                                }
                            }
                        }
                        self.participants[j] = (key, plist);
                        Ok(())
                    },
                    None => {
                        proof {
                            assert forall|i: int|
                                0 <= i < old_ps.len() implies old_ps[i].user_id != user_id@ by {
                                lemma_pview_at(self.participants@[j as int].1@, i);
                            }
                        }
                        Err(Error::ObjectNotFound("user was not a member of the session".to_owned()))
                    },
                }
            },
            None => {
                proof {
                    lemma_plist_map_absent(self.participants@, session_id@);
                }
                Err(Error::ObjectNotFound("user was not a member of the session".to_owned()))
            },
        }
    }

    fn get_admins(&self, session_id: &SessionID) -> (r: Result<Vec<UserID>, Error>) {
        match find_alist_index(&self.admins, session_id) {
            Some(j) => {
                proof {
                    lemma_alist_map_found(self.admins@, j as int);
                }
                Ok(clone_userids(&self.admins[j].1))
            },
            None => {
                proof {
                    lemma_alist_map_absent(self.admins@, session_id@);
                }
                let empty: Vec<UserID> = Vec::new();
                proof {
                    assert(uid_views(empty@) =~= admins_of(self.store(), session_id@));
                }
                Ok(empty)
            },
        }
    }

    fn add_admin(&mut self, user_id: UserID, session_id: SessionID) -> (r: Result<(), Error>) {
        let ghost sid = session_id@;
        let ghost old_as = admins_of(old(self).store(), sid);
        match find_alist_index(&self.admins, &session_id) {
            Some(j) => {
                proof {
                    lemma_alist_map_found(self.admins@, j as int);
                }
                match find_admin_index(&self.admins[j].1, &user_id) {
                    Some(i) => {
                        proof {
                            assert(old_as[i as int] == user_id@);
                            assert(spec_is_admin(old(self).store(), sid, user_id@));
                        }
                        Err(Error::UserError("that user is already an admin of this session".to_owned()))
                    },
                    None => {
                        proof {
                            assert forall|i: int|
                                0 <= i < old_as.len() implies old_as[i] != user_id@ by {
                                assert(old_as[i] == self.admins@[j as int].1@[i]@);
                            }
                            assert(!spec_is_admin(old(self).store(), sid, user_id@));
                        }
                        let key = self.admins[j].0.clone();
                        let mut alist = clone_userids(&self.admins[j].1);
                        alist.push(user_id);
                        let ghost pre = self.admins@;
                        proof {
                            assert(uid_views(alist@) =~= old_as.push(alist@.last()@));
                            lemma_alist_map_update(pre, j as int, (key, alist));
                            assert forall|a: int, b: int|
                                0 <= a < b < pre.update(j as int, (key, alist)).len() implies pre.update(
                                j as int,
                                (key, alist),
                            )[a].0@ != pre.update(j as int, (key, alist))[b].0@ by {
                                assert(pre[a].0@ != pre[b].0@);
                            }
                        }
                        self.admins[j] = (key, alist);
                        Ok(())
                    },
                }
            },
            None => {
                proof {
                    lemma_alist_map_absent(self.admins@, sid);
                    assert(old_as =~= Seq::<Seq<char>>::empty());
                    assert(!spec_is_admin(old(self).store(), sid, user_id@));
                }
                let key = session_id;
                let mut alist: Vec<UserID> = Vec::new();
                alist.push(user_id);
                let ghost pre = self.admins@;
                proof {
                    assert(uid_views(alist@) =~= old_as.push(alist@.last()@));
                    lemma_alist_map_push(pre, (key, alist));
                    assert forall|a: int, b: int|
                        0 <= a < b < pre.push((key, alist)).len() implies pre.push(
                        (key, alist),
                    )[a].0@ != pre.push((key, alist))[b].0@ by {
                        if b < pre.len() {
                            assert(pre[a].0@ != pre[b].0@);
                        } else {
                            assert(pre[a].0@ != sid);
                        }
                    }
                }
                self.admins.push((key, alist));
                Ok(())
            },
        }
    }

    fn del_admin(&mut self, user_id: &UserID, session_id: &SessionID) -> (r: Result<(), Error>) {
        let ghost old_as = admins_of(old(self).store(), session_id@);
        match find_alist_index(&self.admins, session_id) {
            Some(j) => {
                proof {
                    lemma_alist_map_found(self.admins@, j as int);
                }
                match find_admin_index(&self.admins[j].1, user_id) {
                    Some(m) => {
                        proof {
                            assert(old_as[m as int] == user_id@);
                        }
                        let key = self.admins[j].0.clone();
                        let mut alist = clone_userids(&self.admins[j].1);
                        alist.remove(m);
                        let ghost pre = self.admins@;
                        proof {
                            assert(uid_views(alist@) =~= old_as.remove(m as int));
                            lemma_alist_map_update(pre, j as int, (key, alist));
                            assert forall|a: int, b: int|
                                0 <= a < b < pre.update(j as int, (key, alist)).len() implies pre.update(
                                j as int,
                                (key, alist),
                            )[a].0@ != pre.update(j as int, (key, alist))[b].0@ by {
                                assert(pre[a].0@ != pre[b].0@);
                            }
                        }
                        self.admins[j] = (key, alist);
                        Ok(())
                    },
                    None => {
                        proof {
                            assert forall|i: int|
                                0 <= i < old_as.len() implies old_as[i] != user_id@ by {
                                assert(old_as[i] == self.admins@[j as int].1@[i]@);
                            }
                            assert(!spec_is_admin(old(self).store(), session_id@, user_id@));
                        }
                        Err(Error::ObjectNotFound("user was not an admin of the session".to_owned()))
                    },
                }
            },
            None => {
                proof {
                    lemma_alist_map_absent(self.admins@, session_id@);
                    assert(!spec_is_admin(old(self).store(), session_id@, user_id@));
                }
                Err(Error::ObjectNotFound("user was not an admin of the session".to_owned()))
            },
        }
    }

    fn is_admin(&self, session_id: &SessionID, user_id: &UserID) -> (r: Result<bool, Error>) {
        match find_alist_index(&self.admins, session_id) {
            Some(j) => {
                proof {
                    lemma_alist_map_found(self.admins@, j as int);
                }
                match find_admin_index(&self.admins[j].1, user_id) {
                    Some(i) => {
                        proof {
                            assert(admins_of(self.store(), session_id@)[i as int] == user_id@);
                        }
                        Ok(true)
                    },
                    None => {
                        proof {
                            let ads = admins_of(self.store(), session_id@);
                            assert forall|i: int| 0 <= i < ads.len() implies ads[i] != user_id@ by {
                                assert(ads[i] == self.admins@[j as int].1@[i]@);
                            }
                        }
                        Ok(false)
                    },
                }
            },
            None => {
                proof {
                    lemma_alist_map_absent(self.admins@, session_id@);
                }
                Ok(false)
            },
        }
    }
}

} // verus!
