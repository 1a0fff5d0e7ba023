use vstd::prelude::*;

verus! {

use crate::dal::{StoryData, participants_same, admins_same};
use crate::errors::Error;
use crate::user::{AuthenticatedUser, BasicUser, UserID, UserToken};

/// Creates a fresh user with a random identifier and token and persists it.
pub fn create_user<D: StoryData>(dal: &mut D) -> (r: Result<BasicUser, Error>)
    requires
        old(dal).inv(),
    ensures
        final(dal).inv(),
        final(dal).infallible() == old(dal).infallible(),
        (r matches Ok(u) ==> {
            &&& final(dal).store().users == old(dal).store().users.insert(u@.user_id, u@)
            &&& final(dal).store().sessions == old(dal).store().sessions
            &&& participants_same(old(dal).store(), final(dal).store())
            &&& admins_same(old(dal).store(), final(dal).store())
            &&& u@.user_id.len() == 15
            &&& u@.user_token.len() == 25
        }),
        old(dal).infallible() ==> r is Ok,
{
    let new_user = BasicUser::new();
    match dal.add_user(new_user.clone()) {
        Ok(()) => Ok(new_user),
        Err(e) => Err(e),
    }
}

/// Checks the presented token against the stored user and yields a
/// capability exactly when the user exists and the token matches.
pub fn authenticate_user<D: StoryData>(
    dal: &D,
    user_id: &UserID,
    user_token: &UserToken,
) -> (r: Result<Option<AuthenticatedUser>, Error>)
    requires
        dal.inv(),
    ensures
        (r matches Ok(Some(a)) ==> {
            &&& dal.store().users.contains_key(user_id@)
            &&& dal.store().users[user_id@].user_token == user_token@
            &&& a@ == dal.store().users[user_id@].user_id
            &&& a@ == user_id@
        }),
        (r matches Ok(None) ==> !dal.store().users.contains_key(user_id@)
            || dal.store().users[user_id@].user_token != user_token@),
        dal.infallible() ==> r is Ok,
{
    proof {
        dal.inv_implies_wf();
    }
    match dal.get_user(user_id) {
        Ok(Some(existing_user)) => Ok(existing_user.authenticate(user_token)),
        Ok(None) => Ok(None),
        Err(e) => Err(e),
    }
}

/// Creates a fresh user and immediately authenticates as it: the one way to
/// come by a capability without presenting a token over a wire.
pub fn get_authenticated_user<D: StoryData>(dal: &mut D) -> (r: Result<AuthenticatedUser, Error>)
    requires
        old(dal).inv(),
    ensures
        final(dal).inv(),
        final(dal).infallible() == old(dal).infallible(),
        (r matches Ok(a) ==> {
            &&& final(dal).store().users.contains_key(a@)
            &&& final(dal).store().users[a@].user_id == a@
            &&& final(dal).store().users == old(dal).store().users.insert(
                a@,
                final(dal).store().users[a@],
            )
            &&& final(dal).store().sessions == old(dal).store().sessions
            &&& participants_same(old(dal).store(), final(dal).store())
            &&& admins_same(old(dal).store(), final(dal).store())
        }),
        old(dal).infallible() ==> r is Ok,
{
    let new_user: BasicUser = match create_user(dal) {
        Ok(u) => u,
        Err(e) => {
            return Err(e);
        },
    };
    match authenticate_user(dal, &new_user.user_id, &new_user.user_token) {
        Ok(Some(a)) => Ok(a),
        Ok(None) => vstd::pervasive::unreached(),
        Err(e) => Err(e),
    }
}

} // verus!
