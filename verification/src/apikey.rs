use vstd::prelude::*;

verus! {

use crate::dal::StoryData;
use crate::errors::Error;
use crate::service::user::authenticate_user;
use crate::user::{AuthenticatedUser, UserID, UserToken};

/// The credentials a request presents: who the caller claims to be, and the
/// secret that is to prove it, when one was sent at all.
#[derive(Debug, PartialEq, Eq, Clone)]
pub struct APIKey {
    pub user_id: String,
    pub user_key: Option<String>,
}

/// Resolves presented credentials to a capability: a key without a secret,
/// an unknown user or a wrong secret all read as unauthenticated.
pub fn get_authenticated_user<D: StoryData>(dal: &D, api_key: APIKey) -> (r: Result<
    AuthenticatedUser,
    Error,
>)
    requires
        dal.inv(),
    ensures
        (r matches Ok(a) ==> {
            &&& api_key.user_key matches Some(k) && dal.store().users.contains_key(
                api_key.user_id@,
            ) && dal.store().users[api_key.user_id@].user_token == k@
            &&& a@ == dal.store().users[api_key.user_id@].user_id
            &&& a@ == api_key.user_id@
        }),
        dal.infallible() ==> {
            let ok = api_key.user_key matches Some(k) && dal.store().users.contains_key(
                api_key.user_id@,
            ) && dal.store().users[api_key.user_id@].user_token == k@;
            &&& (ok ==> r is Ok)
            &&& (!ok ==> (r matches Err(e) && e is UserUnauthorized))
        },
{
    match api_key {
        APIKey { user_id, user_key: Some(user_key) } => {
            match authenticate_user(dal, &UserID(user_id), &UserToken::from(user_key)) {
                Ok(Some(a)) => Ok(a),
                Ok(None) => Err(Error::UserUnauthorized),
                Err(e) => Err(e),
            }
        },
        _ => Err(Error::UserUnauthorized),
    }
}

} // verus!
