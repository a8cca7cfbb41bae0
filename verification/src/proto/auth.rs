//! Provider-account shapes.
use vstd::prelude::*;

verus! {

pub const METHOD_AUTH_STATUS: &'static str = "auth.status";
pub const METHOD_AUTH_BEGIN: &'static str = "auth.begin";
pub const METHOD_AUTH_CANCEL: &'static str = "auth.cancel";
pub const METHOD_AUTH_LOGOUT: &'static str = "auth.logout";
pub const OPENAI_CODEX_PROVIDER: &'static str = "openai-codex";

#[derive(Debug, Clone, PartialEq, Eq)]
pub struct AuthProviderParams {
    pub provider: String,
}

#[derive(Debug, Clone, PartialEq, Eq)]
pub enum AuthState {
    SignedOut,
    Pending { authorize_url: String },
    SignedIn { email: Option<String>, account_id: Option<String> },
    Failed { message: String },
}

#[derive(Debug, Clone, PartialEq, Eq)]
pub struct AuthStatusResult {
    pub provider: String,
    pub status: AuthState,
}

} // verus!
