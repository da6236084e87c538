//! Plain request and response shapes of the HTTP-facing service around the
//! reconciliation core.  The surrounding process deserialises queries into
//! these and serialises the response; the core itself never reads them.

use vstd::prelude::*;

verus! {

/// Query for registering a new user and starting the account linkage.
pub struct NewUserQuery {
    /// The application-level user id.
    pub teleport_id: String,
    /// The user's chain address.
    pub address: String,
}

/// Query completing the account-linkage callback.
pub struct CallbackQuery {
    /// The request token being authorised.
    pub oauth_token: String,
    /// The verifier returned by the social platform.
    pub oauth_verifier: String,
    /// The application-level user id.
    pub teleport_id: String,
}

/// Query for submitting a mint transaction.
pub struct MintQuery {
    /// The application-level user id.
    pub teleport_id: String,
    /// The safety policy to attach to the token.
    pub policy: String,
}

/// Query for submitting a redeem transaction.
pub struct RedeemQuery {
    /// The application-level user id.
    pub teleport_id: String,
    /// The token to redeem.
    pub token_id: String,
    /// The content to publish on redemption.
    pub content: String,
}

/// Response carrying the hash of a submitted transaction.
pub struct TxHashResponse {
    /// The transaction hash, hex-encoded.
    pub hash: String,
}

} // verus!
