use storyestimate::apikey::{get_authenticated_user, APIKey};
use storyestimate::dal::memory::MemoryDB;
use storyestimate::errors::Error;
use storyestimate::service::user::create_user;

#[test]
fn api_key_resolves_to_capability() {
    let mut dal = MemoryDB::new();
    let user = create_user(&mut dal).unwrap();
    let key = APIKey { user_id: user.user_id.0.clone(), user_key: Some(user.user_token.0.clone()) };
    let auth = get_authenticated_user(&dal, key).unwrap();
    assert_eq!(auth.user_id, user.user_id);
}

#[test]
fn api_key_without_secret_is_unauthorized() {
    let mut dal = MemoryDB::new();
    let user = create_user(&mut dal).unwrap();
    let keyless = APIKey { user_id: user.user_id.0.clone(), user_key: None };
    assert!(matches!(get_authenticated_user(&dal, keyless).unwrap_err(), Error::UserUnauthorized));
    let wrong = APIKey { user_id: user.user_id.0.clone(), user_key: Some("nope".to_string()) };
    assert!(matches!(get_authenticated_user(&dal, wrong).unwrap_err(), Error::UserUnauthorized));
}
