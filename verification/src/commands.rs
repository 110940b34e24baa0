//! What the commands decide once their work on disk and on the network is
//! done: the response that the user sees.

use crate::auth::{AuthError, AuthErrorView, AuthState, AuthStateView};
use crate::crypto::CryptoError;
use crate::deploy::{DeployError, DeployErrorView, DeployState, DeployStateView};
use crate::driftwood::{join, joined, SiteDetails};
use crate::netlify::{missing_root_message, ApiError, LoginError, LoginErrorView};
use crate::response::Response;
use crate::text::join_text;
use vstd::prelude::*;

verus! {

/// How many posts the list of recent posts holds at most.
pub const RECENT_POST_LIMIT: i32 = 5;

/// What a lookup of a site in the local store came to.
#[derive(Debug)]
pub enum SiteLookup {
    /// The store could not be opened.
    Unavailable { reason: String },
    /// The store was opened and the query failed.
    QueryFailed { reason: String },
    /// The query ran: the site, if the store holds it.
    Row { site: Option<SiteDetails> },
}

/// Finds a site in the local store: the site, if the store holds one with
/// the identifier `site_id`, or a message that says what went wrong.
pub fn read_site(site_id: &str, lookup: SiteLookup) -> (r: Result<Option<SiteDetails>, String>)
    ensures
        match lookup {
            SiteLookup::Unavailable { reason } => r is Err && r->Err_0@
                == "Failed to initialize site repository: "@ + reason@,
            SiteLookup::QueryFailed { reason } => r is Err && r->Err_0@
                == "Database error when reading site "@ + site_id@ + ": "@ + reason@,
            SiteLookup::Row { site } => r == Ok::<Option<SiteDetails>, String>(site),
        },
{
    match lookup {
        SiteLookup::Unavailable { reason } => Err(
            join_text("Failed to initialize site repository: ", reason.as_str()),
        ),
        SiteLookup::QueryFailed { reason } => {
            let mut message = join_text("Database error when reading site ", site_id);
            message.append(": ");
            message.append(reason.as_str());
            Err(message)
        },
        SiteLookup::Row { site } => Ok(site),
    }
}

/// The sites that a listing gave, or none where it failed.
pub fn get_sites(listing: Result<Vec<SiteDetails>, ApiError>) -> (r: Vec<SiteDetails>)
    ensures
        match listing {
            Ok(sites) => r == sites,
            Err(_) => r@.len() == 0,
        },
{
    match listing {
        Ok(sites) => sites,
        Err(_) => Vec::new(),
    }
}

/// Says whether the store holds a token.
pub fn check_token(has_token: bool) -> (r: Response)
    ensures
        has_token ==> r.is_success_with("Has token."@),
        !has_token ==> r.is_failure_with("Does not have token."@),
{
    if has_token {
        Response::success(String::from_str("Has token."))
    } else {
        Response::fail(String::from_str("Does not have token."))
    }
}

/// What a logout came to: whether the store held a token, and, if so,
/// whether it could be removed.
pub fn netlify_logout(has_token: bool, removed: bool) -> (r: Response)
    ensures
        has_token && removed ==> r.is_success_with(
            "Logged out and removed user data from the system."@,
        ),
        has_token && !removed ==> r.is_failure_with(
            "Logged out, but failed to remove user data from system."@,
        ),
        !has_token ==> r.is_failure_with("Could not log out."@),
{
    if has_token {
        if removed {
            Response::success(
                String::from_str("Logged out and removed user data from the system."),
            )
        } else {
            Response::fail(
                String::from_str("Logged out, but failed to remove user data from system."),
            )
        }
    } else {
        Response::fail(String::from_str("Could not log out."))
    }
}

/// Why a login failed, in words for the user.
pub open spec fn login_failure_message(error: AuthErrorView) -> Seq<char> {
    match error {
        AuthErrorView::Login(LoginErrorView::BrowserOpenError) => "Failed to log in: the browser could not be opened."@,
        AuthErrorView::Login(LoginErrorView::TimeoutError) => "Failed to log in: timed out waiting for the redirect."@,
        AuthErrorView::Login(error) => "Failed to trigger login: "@ + LoginError::description(error),
        AuthErrorView::Crypto(CryptoError::KeyGeneration) => "Failed to log in: no key pair could be generated."@,
        AuthErrorView::Crypto(CryptoError::Encoding) => "Failed to log in: the public key could not be written out."@,
        AuthErrorView::Crypto(CryptoError::Base64) => "Failed to log in: the provider's token is no base64 text."@,
        AuthErrorView::Crypto(CryptoError::Decryption) => "Failed to log in: the token could not be decrypted."@,
        AuthErrorView::Crypto(CryptoError::InvalidText) => "Failed to log in: the decrypted token is no text."@,
        AuthErrorView::Transport(reason) => "Failed to exchange code for token: "@ + reason,
        AuthErrorView::Protocol => "Failed to log in: the provider rejected the code."@,
        AuthErrorView::Store(reason) => "Failed to store the token: "@ + reason,
        AuthErrorView::OutOfOrder => "Failed to log in: the steps came out of order."@,
    }
}

/// What a login came to for the user: success once the login holds a token,
/// the reason once it has failed, and a failure while it is unfinished.
pub fn netlify_login(outcome: &AuthState) -> (r: Response)
    ensures
        match outcome@ {
            AuthStateView::Authenticated { .. } => r.is_success_with("Logged in"@),
            AuthStateView::Failed { error } => r.is_failure_with(login_failure_message(error)),
            _ => r.is_failure_with("Login did not finish."@),
        },
{
    match outcome {
        AuthState::Authenticated { .. } => Response::success(String::from_str("Logged in")),
        AuthState::Failed { error } => Response::fail(login_failure_text(error)),
        _ => Response::fail(String::from_str("Login did not finish.")),
    }
}

/// Computes [`login_failure_message`].
fn login_failure_text(error: &AuthError) -> (r: String)
    ensures
        r@ == login_failure_message(error@),
{
    match error {
        AuthError::Login(LoginError::BrowserOpenError) => String::from_str(
            "Failed to log in: the browser could not be opened.",
        ),
        AuthError::Login(LoginError::TimeoutError) => String::from_str(
            "Failed to log in: timed out waiting for the redirect.",
        ),
        AuthError::Login(error) => join_text("Failed to trigger login: ", error.describe().as_str()),
        AuthError::Crypto(CryptoError::KeyGeneration) => String::from_str(
            "Failed to log in: no key pair could be generated.",
        ),
        AuthError::Crypto(CryptoError::Encoding) => String::from_str(
            "Failed to log in: the public key could not be written out.",
        ),
        AuthError::Crypto(CryptoError::Base64) => String::from_str(
            "Failed to log in: the provider's token is no base64 text.",
        ),
        AuthError::Crypto(CryptoError::Decryption) => String::from_str(
            "Failed to log in: the token could not be decrypted.",
        ),
        AuthError::Crypto(CryptoError::InvalidText) => String::from_str(
            "Failed to log in: the decrypted token is no text.",
        ),
        AuthError::Transport(reason) => join_text(
            "Failed to exchange code for token: ",
            reason.as_str(),
        ),
        AuthError::Protocol => String::from_str("Failed to log in: the provider rejected the code."),
        AuthError::Store(reason) => join_text("Failed to store the token: ", reason.as_str()),
        AuthError::OutOfOrder => String::from_str("Failed to log in: the steps came out of order."),
    }
}

/// Why a deploy failed before any upload, in words for the user.
pub open spec fn deploy_failure_message(error: DeployErrorView) -> Seq<char> {
    match error {
        DeployErrorView::MissingRootDocument(site_path) => "Failed to deploy site: "@
            + missing_root_message(site_path),
        DeployErrorView::MissingPost(name) => "Failed to deploy site: no rendered page for "@
            + name,
        DeployErrorView::FileSystem(reason) => "Failed to deploy site: "@ + reason,
        DeployErrorView::Negotiation(error) => "Failed to deploy site during negotiation, no files were uploaded. "@
            + ApiError::description(error),
        DeployErrorView::OutOfOrder => "Failed to deploy site: the steps came out of order."@,
    }
}

/// What a deploy came to for the user: success once it is complete with
/// every upload done, the paths that failed once it is complete without
/// them, the reason once it has failed, and a failure while it is unfinished.
pub fn deploy_site(outcome: &DeployState) -> (r: Response)
    ensures
        match outcome@ {
            DeployStateView::Complete { uploaded, failed } => if failed.len() == 0 {
                r.is_success_with("Deployed site successfully! 🚀"@)
            } else {
                r.is_failure_with(
                    "Deployed site partially, failed to upload: "@ + joined(failed, ", "@),
                )
            },
            DeployStateView::Failed { error } => r.is_failure_with(deploy_failure_message(error)),
            _ => r.is_failure_with("Deploy did not finish."@),
        },
{
    match outcome {
        DeployState::Complete { result } => {
            if result.success() {
                Response::success(String::from_str("Deployed site successfully! 🚀"))
            } else {
                Response::fail(
                    join_text(
                        "Deployed site partially, failed to upload: ",
                        join(&result.failed, ", ").as_str(),
                    ),
                )
            }
        },
        DeployState::Failed { error } => Response::fail(deploy_failure_text(error)),
        _ => Response::fail(String::from_str("Deploy did not finish.")),
    }
}

/// Computes [`deploy_failure_message`].
fn deploy_failure_text(error: &DeployError) -> (r: String)
    ensures
        r@ == deploy_failure_message(error@),
{
    match error {
        DeployError::MissingRootDocument(site_path) => {
            let mut message = String::from_str("Failed to deploy site: ");
            message.append("> index.html not found in ");
            message.append(site_path.as_str());
            message
        },
        DeployError::MissingPost(name) => join_text(
            "Failed to deploy site: no rendered page for ",
            name.as_str(),
        ),
        DeployError::FileSystem(reason) => join_text("Failed to deploy site: ", reason.as_str()),
        DeployError::Negotiation(error) => join_text(
            "Failed to deploy site during negotiation, no files were uploaded. ",
            error.describe().as_str(),
        ),
        DeployError::OutOfOrder => String::from_str(
            "Failed to deploy site: the steps came out of order.",
        ),
    }
}

} // verus!
