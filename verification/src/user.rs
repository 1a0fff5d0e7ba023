use vstd::prelude::*;

verus! {

use crate::generator;

/// An opaque identifier for a user, random at creation and immutable.
#[derive(Debug, Eq)]
pub struct UserID(pub String);

impl View for UserID {
    type V = Seq<char>;

    open spec fn view(&self) -> Seq<char> {
        self.0@
    }
}

impl UserID {
    /// A fresh random user identifier over the identifier alphabet.
    pub fn new() -> (r: Self)
        ensures
            r@.len() == 15,
            forall|i: int| 0 <= i < r@.len() ==> generator::is_id_char(#[trigger] r@[i]),
    {
        UserID(generator::user_id())
    }
}

impl Clone for UserID {
    fn clone(&self) -> (r: Self)
        ensures
            r == *self,
    {
        UserID(self.0.clone())
    }
}

impl PartialEq for UserID {
    fn eq(&self, other: &UserID) -> (r: bool) {
        self.0 == other.0
    }
}

impl vstd::std_specs::cmp::PartialEqSpecImpl for UserID {
    open spec fn obeys_eq_spec() -> bool {
        true
    }

    open spec fn eq_spec(&self, other: &UserID) -> bool {
        self@ == other@
    }
}

/// A user-chosen display name.
#[derive(Debug, Eq)]
pub struct Nickname(String);

impl View for Nickname {
    type V = Seq<char>;

    closed spec fn view(&self) -> Seq<char> {
        self.0@
    }
}

impl Nickname {
    pub fn new(nickname: &str) -> (r: Self)
        ensures
            r@ == nickname@,
    {
        Nickname(nickname.to_owned())
    }

    /// The name as a plain string slice.
    pub fn as_str(&self) -> (r: &str)
        ensures
            r@ == self@,
    {
        self.0.as_str()
    }
}

impl Clone for Nickname {
    fn clone(&self) -> (r: Self)
        ensures
            r == *self,
    {
        Nickname(self.0.clone())
    }
}

impl PartialEq for Nickname {
    fn eq(&self, other: &Nickname) -> (r: bool) {
        self.0 == other.0
    }
}

impl vstd::std_specs::cmp::PartialEqSpecImpl for Nickname {
    open spec fn obeys_eq_spec() -> bool {
        true
    }

    open spec fn eq_spec(&self, other: &Nickname) -> bool {
        self@ == other@
    }
}

/// An opaque secret bound to one user at creation; knowing it proves the
/// caller acts for that user. It deliberately has no `Debug`: the secret is
/// never printed.
#[derive(Eq)]
pub struct UserToken(pub String);

impl View for UserToken {
    type V = Seq<char>;

    open spec fn view(&self) -> Seq<char> {
        self.0@
    }
}

impl UserToken {
    /// A fresh random secret token over the identifier alphabet.
    pub fn new() -> (r: Self)
        ensures
            r@.len() == 25,
            forall|i: int| 0 <= i < r@.len() ==> generator::is_id_char(#[trigger] r@[i]),
    {
        UserToken(generator::authtoken())
    }
}

impl Clone for UserToken {
    fn clone(&self) -> (r: Self)
        ensures
            r == *self,
    {
        UserToken(self.0.clone())
    }
}

impl PartialEq for UserToken {
    fn eq(&self, other: &UserToken) -> (r: bool) {
        self.0 == other.0
    }
}

impl vstd::std_specs::cmp::PartialEqSpecImpl for UserToken {
    open spec fn obeys_eq_spec() -> bool {
        true
    }

    open spec fn eq_spec(&self, other: &UserToken) -> bool {
        self@ == other@
    }
}

impl From<String> for UserToken {
    fn from(s: String) -> (r: UserToken) {
        UserToken(s)
    }
}

impl vstd::std_specs::convert::FromSpecImpl<String> for UserToken {
    open spec fn obeys_from_spec() -> bool {
        true
    }

    open spec fn from_spec(s: String) -> UserToken {
        UserToken(s)
    }
}

/// A stored user: an identifier and the secret that authenticates it. It
/// deliberately has no `Debug`: the token must never reach a log.
#[derive(PartialEq, Eq)]
pub struct BasicUser {
    pub user_id: UserID,
    pub user_token: UserToken,
}

/// The spec-level content of a stored user.
pub struct BasicUserView {
    pub user_id: Seq<char>,
    pub user_token: Seq<char>,
}

impl View for BasicUser {
    type V = BasicUserView;

    open spec fn view(&self) -> BasicUserView {
        BasicUserView { user_id: self.user_id@, user_token: self.user_token@ }
    }
}

impl Clone for BasicUser {
    fn clone(&self) -> (r: Self)
        ensures
            r@ == self@,
    {
        BasicUser { user_id: self.user_id.clone(), user_token: self.user_token.clone() }
    }
}

/// Proof that a caller knows a user's secret token; carries only the user's
/// identifier, never the token.
#[derive(Debug, PartialEq, Eq)]
pub struct AuthenticatedUser {
    pub user_id: UserID,
}

impl View for AuthenticatedUser {
    type V = Seq<char>;

    open spec fn view(&self) -> Seq<char> {
        self.user_id@
    }
}

impl Clone for AuthenticatedUser {
    fn clone(&self) -> (r: Self)
        ensures
            r@ == self@,
    {
        AuthenticatedUser { user_id: self.user_id.clone() }
    }
}

impl BasicUser {
    /// A fresh user with a random identifier and a random token.
    pub fn new() -> (r: Self)
        ensures
            r@.user_id.len() == 15,
            r@.user_token.len() == 25,
    {
        BasicUser { user_id: UserID::new(), user_token: UserToken::new() }
    }

    /// Yields a capability for this user exactly when the presented token
    /// matches the stored one.
    pub fn authenticate(&self, token: &UserToken) -> (r: Option<AuthenticatedUser>)
        ensures
            self@.user_token == token@ ==> (r matches Some(a) && a@ == self@.user_id),
            self@.user_token != token@ ==> r is None,
    {
        if self.user_token == *token {
            Some(AuthenticatedUser { user_id: self.user_id.clone() })
        } else {
            None
        }
    }
}

/// The views of a sequence of user identifiers.
pub open spec fn uid_views(s: Seq<UserID>) -> Seq<Seq<char>> {
    s.map(|i: int, u: UserID| u@)
}

/// Anything that stands for a user and can say which one.
pub trait User {
    /// The identifier of the user this value stands for.
    spec fn spec_user_id(&self) -> Seq<char>;

    fn user_id(&self) -> (r: &UserID)
        ensures
            r@ == self.spec_user_id(),
    ;
}

impl User for BasicUser {
    open spec fn spec_user_id(&self) -> Seq<char> {
        self.user_id@
    }

    fn user_id(&self) -> (r: &UserID) {
        &self.user_id
    }
}

impl User for AuthenticatedUser {
    open spec fn spec_user_id(&self) -> Seq<char> {
        self.user_id@
    }

    fn user_id(&self) -> (r: &UserID) {
        &self.user_id
    }
}

} // verus!
