use driftwood::auth::{AuthError, AuthState};
use driftwood::crypto::CryptoError;
use driftwood::commands::{
    check_token, deploy_site, get_sites, netlify_login, netlify_logout, read_site, SiteLookup,
    RECENT_POST_LIMIT,
};
use driftwood::deploy::{negotiation_event, DeployError, DeployEvent, DeployResult, DeployState};
use driftwood::driftwood::SiteDetails;
use driftwood::netlify::{ApiError, LoginError};
use driftwood::response::{CreateSiteResponse, Request, Response};
use driftwood::users::{stored_token, User};

fn site(name: &str, id: &str) -> SiteDetails {
    SiteDetails {
        name: Some(name.to_string()),
        domain: None,
        id: Some(id.to_string()),
        ssl: None,
        url: None,
        screenshot_url: None,
        password: None,
        required: None,
    }
}

fn message(response: &Response) -> &str {
    response.message.as_deref().unwrap()
}

#[test]
fn responses_carry_result_status_and_message() {
    let ok = Response::success("fine".to_string());
    assert_eq!(ok.result, Some(true));
    assert_eq!(ok.status, Some(200));
    assert_eq!(message(&ok), "fine");
    assert!(ok.body.is_none());
    let bad = Response::fail("broken".to_string());
    assert_eq!(bad.result, Some(false));
    assert_eq!(bad.status, Some(500));
    assert_eq!(message(&bad), "broken");
    assert!(bad.body.is_none());
    let created = CreateSiteResponse { name: None, title: Some("Created".to_string()) };
    assert_eq!(created.clone().title.as_deref(), Some("Created"));
    let request = Request { action: "login".to_string(), args: "{}".to_string() };
    assert_eq!(request.clone().action, "login");
    assert_eq!(RECENT_POST_LIMIT, 5);
}

#[test]
fn read_site_maps_store_failures_to_messages() {
    let found = read_site("id-1", SiteLookup::Row { site: Some(site("blog", "id-1")) });
    assert_eq!(found.unwrap().unwrap().name.as_deref(), Some("blog"));
    assert!(read_site("id-1", SiteLookup::Row { site: None }).unwrap().is_none());
    assert_eq!(
        read_site("id-1", SiteLookup::Unavailable { reason: "locked".to_string() }).err(),
        Some("Failed to initialize site repository: locked".to_string())
    );
    assert_eq!(
        read_site("id-1", SiteLookup::QueryFailed { reason: "no table".to_string() }).err(),
        Some("Database error when reading site id-1: no table".to_string())
    );
}

#[test]
fn get_sites_is_empty_on_failure() {
    assert_eq!(get_sites(Ok(vec![site("a", "1")])).len(), 1);
    assert!(get_sites(Err(ApiError::Protocol)).is_empty());
}

#[test]
fn check_token_tells_presence() {
    assert_eq!(message(&check_token(true)), "Has token.");
    assert_eq!(check_token(true).result, Some(true));
    assert_eq!(message(&check_token(false)), "Does not have token.");
    assert_eq!(check_token(false).result, Some(false));
}

#[test]
fn logout_tells_what_happened() {
    let r = netlify_logout(true, true);
    assert_eq!(r.result, Some(true));
    assert_eq!(message(&r), "Logged out and removed user data from the system.");
    let r = netlify_logout(true, false);
    assert_eq!(r.result, Some(false));
    assert_eq!(message(&r), "Logged out, but failed to remove user data from system.");
    for removed in [true, false] {
        let r = netlify_logout(false, removed);
        assert_eq!(r.result, Some(false));
        assert_eq!(message(&r), "Could not log out.");
    }
}

#[test]
fn login_response_names_the_reason() {
    let r = netlify_login(&AuthState::Authenticated { token: "t".to_string() });
    assert_eq!((r.result, message(&r)), (Some(true), "Logged in"));
    let failed = |error| netlify_login(&AuthState::Failed { error });
    assert_eq!(
        message(&failed(AuthError::Login(LoginError::BrowserOpenError))),
        "Failed to log in: the browser could not be opened."
    );
    assert_eq!(
        message(&failed(AuthError::Login(LoginError::TimeoutError))),
        "Failed to log in: timed out waiting for the redirect."
    );
    assert_eq!(
        message(&failed(AuthError::Login(LoginError::IoError("in use".to_string())))),
        "Failed to trigger login: IoError(in use)"
    );
    assert_eq!(
        message(&failed(AuthError::Protocol)),
        "Failed to log in: the provider rejected the code."
    );
    assert_eq!(
        message(&failed(AuthError::Transport("down".to_string()))),
        "Failed to exchange code for token: down"
    );
    assert_eq!(
        message(&failed(AuthError::Store("disk".to_string()))),
        "Failed to store the token: disk"
    );
    assert_eq!(
        message(&failed(AuthError::Crypto(CryptoError::KeyGeneration))),
        "Failed to log in: no key pair could be generated."
    );
    assert_eq!(
        message(&failed(AuthError::Crypto(CryptoError::Encoding))),
        "Failed to log in: the public key could not be written out."
    );
    assert_eq!(
        message(&failed(AuthError::Crypto(CryptoError::Base64))),
        "Failed to log in: the provider's token is no base64 text."
    );
    assert_eq!(
        message(&failed(AuthError::Crypto(CryptoError::Decryption))),
        "Failed to log in: the token could not be decrypted."
    );
    assert_eq!(
        message(&failed(AuthError::Crypto(CryptoError::InvalidText))),
        "Failed to log in: the decrypted token is no text."
    );
    assert_eq!(failed(AuthError::OutOfOrder).result, Some(false));
    let r = netlify_login(&AuthState::Start);
    assert_eq!((r.result, message(&r)), (Some(false), "Login did not finish."));
}

#[test]
fn deploy_response_tells_negotiation_from_upload_failures() {
    let complete = |uploaded: &[&str], failed: &[&str]| DeployState::Complete {
        result: DeployResult {
            uploaded: uploaded.iter().map(|s| s.to_string()).collect(),
            failed: failed.iter().map(|s| s.to_string()).collect(),
        },
    };
    let r = deploy_site(&complete(&["/index.html"], &[]));
    assert_eq!((r.result, message(&r)), (Some(true), "Deployed site successfully! 🚀"));
    let r = deploy_site(&complete(&["/index.html"], &["/posts/a.html", "/posts/b.html"]));
    assert_eq!(
        (r.result, message(&r)),
        (Some(false), "Deployed site partially, failed to upload: /posts/a.html, /posts/b.html")
    );
    let r = deploy_site(&DeployState::Failed {
        error: DeployError::Negotiation(ApiError::RemoteApi {
            status: 401,
            body: "denied".to_string(),
        }),
    });
    assert_eq!(
        (r.result, message(&r)),
        (
            Some(false),
            "Failed to deploy site during negotiation, no files were uploaded. > Request failed: 401"
        )
    );
    let r = deploy_site(&DeployState::Failed {
        error: DeployError::MissingRootDocument("sites/blog_1".to_string()),
    });
    assert_eq!(message(&r), "Failed to deploy site: > index.html not found in sites/blog_1");
    let r = deploy_site(&DeployState::Failed { error: DeployError::MissingPost("a.html".to_string()) });
    assert_eq!(message(&r), "Failed to deploy site: no rendered page for a.html");
    let r = deploy_site(&DeployState::Rendered { site_path: "sites/blog_1".to_string() });
    assert_eq!((r.result, message(&r)), (Some(false), "Deploy did not finish."));
}

#[test]
fn negotiation_reply_becomes_an_event() {
    let mut accepted = site("blog", "dep-1");
    accepted.required = Some(vec!["H2".to_string()]);
    match negotiation_event(Ok(accepted)) {
        DeployEvent::NegotiationAccepted { deploy_id, required } => {
            assert_eq!(deploy_id, "dep-1");
            assert_eq!(required, vec!["H2"]);
        }
        other => panic!("unexpected: {:?}", other),
    }
    assert!(matches!(
        negotiation_event(Ok(site("blog", "dep-1"))),
        DeployEvent::NegotiationFailed { error: DeployError::Negotiation(ApiError::Protocol) }
    ));
    let mut unnamed = site("blog", "dep-1");
    unnamed.id = None;
    unnamed.required = Some(Vec::new());
    assert!(matches!(
        negotiation_event(Ok(unnamed)),
        DeployEvent::NegotiationFailed { error: DeployError::Negotiation(ApiError::Protocol) }
    ));
    assert!(matches!(
        negotiation_event(Err(ApiError::Transport("down".to_string()))),
        DeployEvent::NegotiationFailed { error: DeployError::Negotiation(ApiError::Transport(_)) }
    ));
}

#[test]
fn stored_token_expires() {
    let user = User {
        id: "id".to_string(),
        username: Some("test_user".to_string()),
        netlify_token: "encrypted_token".to_string(),
        token_issued_at: 1000,
        token_expires_at: 4600,
        last_login: 1000,
        created_at: 1000,
        settings: None,
    };
    assert!(user.token_is_valid(4599));
    assert!(!user.token_is_valid(4600));
    assert_eq!(stored_token(Some(&user), 2000), Some("encrypted_token".to_string()));
    assert_eq!(stored_token(Some(&user), 4600), None);
    assert_eq!(stored_token(None, 0), None);
}
