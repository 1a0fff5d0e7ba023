use storyestimate::user::{BasicUser, UserToken};

#[test]
fn get_valid_auth_user() {
    let new_user = BasicUser::new();
    let my_token = new_user.user_token.clone();
    let auth_user = new_user.authenticate(&my_token).unwrap();
    assert_eq!(auth_user.user_id, new_user.user_id);
}

#[test]
fn get_invalid_auth_user() {
    let new_user = BasicUser::new();
    let my_token = UserToken::new();
    let auth_user = new_user.authenticate(&my_token);
    assert_eq!(auth_user, None);
}

#[test]
fn generated_identifiers_have_expected_shape() {
    let user = BasicUser::new();
    assert_eq!(user.user_id.0.len(), 15);
    assert_eq!(user.user_token.0.len(), 25);
    assert!(user.user_id.0.chars().all(|c| c.is_ascii_alphanumeric()));
    assert!(user.user_token.0.chars().all(|c| c.is_ascii_alphanumeric()));
}
