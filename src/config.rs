//! Configuration records shared by every strategy.

use vstd::prelude::*;

verus! {

/// API credentials for one exchange account.
#[derive(Clone, Debug)]
pub struct CredentialConfig {
    pub exchange: String,
    pub ak: String,
    pub sk: String,
    pub pwd: Option<String>,
    pub extra_info: Option<String>,
    pub user_id: String,
}

} // verus!
