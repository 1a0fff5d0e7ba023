use vstd::prelude::*;

verus! {

/// Anything guarded by a secret token of its own: presenting the matching
/// token authorizes access to the object.
pub trait ObjectAuth {
    /// The guarding token's content.
    spec fn spec_object_token(&self) -> Seq<char>;

    /// The object's guarding token.
    fn object_token(&self) -> (r: &String)
        ensures
            r@ == self.spec_object_token(),
    ;

    /// Whether the presented token, if any, matches the object's: true
    /// exactly when a token was presented and equals the guarding one.
    fn is_authorized(&self, token_opt: &Option<String>) -> (r: bool)
        ensures
            r == (token_opt matches Some(t) && t@ == self.spec_object_token()),
    {
        match token_opt {
            Some(token) => {
                let own = self.object_token();
                *own == *token
            },
            None => false,
        }
    }
}

} // verus!
