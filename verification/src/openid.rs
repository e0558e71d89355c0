//! OpenID realm configuration record.
use vstd::prelude::*;

verus! {

/// OpenID configuration properties of one realm.
pub struct CloudOpenIdConfig {
    pub realm: String,
    /// OpenID issuer URL.
    pub issuer_url: String,
    /// OpenID client id.
    pub client_id: String,
    pub scopes: Option<String>,
    pub acr_values: Option<String>,
    pub prompt: Option<String>,
    /// OpenID client key.
    pub client_key: Option<String>,
    pub comment: Option<String>,
    /// Automatically create users if they do not exist.
    pub autocreate: Option<bool>,
    pub username_claim: Option<String>,
}

} // verus!
