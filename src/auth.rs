use vstd::prelude::*;

use std::collections::HashSet;

use crate::error::{ErrorView, HelixError, HelixResult};

verus! {

/// A registered API key: only the hex digest of the key is kept.
pub struct ApiKey {
    pub name: String,
    pub hashed_key: String,
    pub scopes: HashSet<String>,
}

/// The claims of a bearer token.
pub struct JwtClaims {
    pub sub: String,
    pub iss: String,
    pub aud: String,
    pub exp: usize,
    pub scopes: Option<Vec<String>>,
    pub roles: Option<Vec<String>>,
}

impl JwtClaims {
    /// Accepts the claims when subject, issuer and audience are all non-empty.
    pub fn validate(&self) -> (r: HelixResult<()>)
        ensures
            r is Ok <==> (self.sub@.len() > 0 && self.iss@.len() > 0 && self.aud@.len() > 0),
            r matches Err(e) ==> e@ == ErrorView::Authentication,
    {
        if self.sub.as_str().unicode_len() == 0 || self.iss.as_str().unicode_len() == 0
            || self.aud.as_str().unicode_len() == 0 {
            Err(HelixError::Authentication)
        } else {
            Ok(())
        }
    }
}

} // verus!
