use driftwood::driftwood::SiteDetails;
use driftwood::manifest::{content_hash, Artifact};
use driftwood::netlify::{
    status_is_success, ApiError, LoginError, Method, Netlify, Payload, SslCert,
    UNPROCESSABLE_ENTITY,
};

fn site(name: &str, id: &str) -> SiteDetails {
    SiteDetails {
        name: Some(name.to_string()),
        domain: None,
        id: Some(id.to_string()),
        ssl: None,
        url: None,
        screenshot_url: None,
        password: None,
        required: None,
    }
}

fn client() -> Netlify {
    Netlify::new("https://api.netlify.com/api/v1/".to_string(), Ok("tok".to_string())).unwrap()
}

#[test]
fn client_is_made_from_a_token() {
    let netlify = client();
    assert_eq!(netlify.token(), "tok");
    assert_eq!(netlify.url(), "https://api.netlify.com/api/v1/");
    assert_eq!(netlify.user_agent(), "driftwood/0.1.0");
    let failed = Netlify::new("u".to_string(), Err("no browser".to_string()));
    assert_eq!(failed.err(), Some("> Failed to get token: no browser".to_string()));
}

#[test]
fn attempt_login_says_where_it_failed() {
    assert_eq!(Netlify::attempt_login(Ok(()), Ok("t".to_string())), Ok("t".to_string()));
    assert_eq!(
        Netlify::attempt_login(Ok(()), Err("bad reply".to_string())),
        Err("Failed to exchange code for token: bad reply".to_string())
    );
    assert_eq!(
        Netlify::attempt_login(Err(LoginError::TimeoutError), Ok("t".to_string())),
        Err("Failed to trigger login: TimeoutError".to_string())
    );
    assert_eq!(
        Netlify::attempt_login(Err(LoginError::IoError("in use".to_string())), Err("x".to_string())),
        Err("Failed to trigger login: IoError(in use)".to_string())
    );
}

#[test]
fn login_errors_describe_themselves() {
    assert_eq!(LoginError::BrowserOpenError.describe(), "BrowserOpenError");
    assert_eq!(LoginError::ParseError.describe(), "ParseError");
    assert_eq!(LoginError::ChannelError.describe(), "ChannelError");
}

#[test]
fn site_requests() {
    let netlify = client();
    let request = netlify.get_sites();
    assert_eq!(request.method, Method::Get);
    assert_eq!(request.url, "https://api.netlify.com/api/v1/sites");
    assert!(matches!(request.payload, Payload::Empty));
    assert!(!request.json_content_type);

    let request = netlify.get_site_details("abc");
    assert_eq!(request.method, Method::Get);
    assert_eq!(request.url, "https://api.netlify.com/api/v1/sites/abc");

    let request = netlify.create_site(site("blog", "1"));
    assert_eq!(request.method, Method::Post);
    assert_eq!(request.url, "https://api.netlify.com/api/v1/sites");
    match &request.payload {
        Payload::Site(sent) => assert_eq!(sent.name.as_deref(), Some("blog")),
        other => panic!("unexpected: {:?}", other),
    }
    assert!(request.json_content_type);

    let request = netlify.update_site(&site("blog", "id-1"), site("blog2", "id-1"));
    assert_eq!(request.method, Method::Patch);
    assert_eq!(request.url, "https://api.netlify.com/api/v1/sites/id-1");
    match &request.payload {
        Payload::Site(sent) => assert_eq!(sent.name.as_deref(), Some("blog2")),
        other => panic!("unexpected: {:?}", other),
    }

    let request = netlify.delete_site(&site("blog", "id-1"));
    assert_eq!(request.method, Method::Delete);
    assert_eq!(request.url, "https://api.netlify.com/api/v1/sites/id-1");
    assert!(matches!(request.payload, Payload::Null));
}

#[test]
fn deploy_requests() {
    let netlify = client();
    let manifest = Netlify::generate_sha1_for_posts("sites/blog_id-1", Some(b"home"), &Vec::new())
        .unwrap();
    let request = netlify.send_file_checksums(&site("blog", "id-1"), &manifest);
    assert_eq!(request.method, Method::Post);
    assert_eq!(request.url, "https://api.netlify.com/api/v1/sites/id-1/deploys");
    match &request.payload {
        Payload::Manifest(sent) => assert_eq!(sent.files, manifest.files),
        other => panic!("unexpected: {:?}", other),
    }

    let request = netlify.upload_file("blog", "id-1", "dep-9", "/posts/a.html", true).unwrap();
    assert_eq!(request.method, Method::Put);
    assert_eq!(request.url, "https://api.netlify.com/api/v1/deploys/dep-9/files/posts/a.html");
    match &request.payload {
        Payload::File(path) => assert_eq!(path, "sites/blog_id-1/posts/a.html"),
        other => panic!("unexpected: {:?}", other),
    }

    let request = netlify.upload_file("blog", "id-1", "dep-9", "/index.html", true).unwrap();
    assert_eq!(request.url, "https://api.netlify.com/api/v1/deploys/dep-9/files/index.html");
    match &request.payload {
        Payload::File(path) => assert_eq!(path, "sites/blog_id-1/index.html"),
        other => panic!("unexpected: {:?}", other),
    }
}

#[test]
fn ssl_request() {
    let netlify = client();
    let cert = SslCert {
        cert: Some("C".to_string()),
        key: Some("K".to_string()),
        ca_cert: Some("A".to_string()),
    };
    let request = netlify.provision_ssl(&site("blog", "id-1"), &cert);
    assert_eq!(request.method, Method::Post);
    assert_eq!(
        request.url,
        "https://api.netlify.com/api/v1/sites/id-1/ssl?certificate=C&key=K&ca_certificates=A"
    );
    assert!(matches!(request.payload, Payload::Null));
}

#[test]
fn success_is_two_hundred_to_two_ninety_nine() {
    assert!(!status_is_success(199));
    assert!(status_is_success(200));
    assert!(status_is_success(204));
    assert!(status_is_success(299));
    assert!(!status_is_success(300));
    assert!(!status_is_success(UNPROCESSABLE_ENTITY));
    assert_eq!(UNPROCESSABLE_ENTITY, 422);
    assert!(!status_is_success(0));
    assert!(!status_is_success(u16::MAX));
}

#[test]
fn object_reply_is_read_by_status() {
    let ok = Netlify::read_object_response(Ok((200, "{}".to_string())), Some(site("blog", "1")));
    assert_eq!(ok.unwrap().name.as_deref(), Some("blog"));
    match Netlify::read_object_response(Ok((422, "taken".to_string())), Some(site("blog", "1"))) {
        Err(ApiError::RemoteApi { status, body }) => {
            assert_eq!(status, 422);
            assert_eq!(body, "taken");
        }
        other => panic!("unexpected: {:?}", other),
    }
    assert!(matches!(
        Netlify::read_object_response(Ok((200, "[]".to_string())), None),
        Err(ApiError::Protocol)
    ));
    match Netlify::read_object_response(Err("refused".to_string()), None) {
        Err(ApiError::Transport(reason)) => assert_eq!(reason, "refused"),
        other => panic!("unexpected: {:?}", other),
    }
}

#[test]
fn array_reply_is_read_by_status() {
    let ok = Netlify::read_array_response(
        Ok((200, "[]".to_string())),
        Some(vec![site("a", "1"), site("b", "2")]),
    );
    assert_eq!(ok.unwrap().len(), 2);
    assert!(matches!(
        Netlify::read_array_response(Ok((500, "".to_string())), Some(Vec::new())),
        Err(ApiError::RemoteApi { status: 500, .. })
    ));
    assert!(matches!(
        Netlify::read_array_response(Ok((201, "".to_string())), None),
        Err(ApiError::Protocol)
    ));
    assert!(matches!(
        Netlify::read_array_response(Err("x".to_string()), Some(Vec::new())),
        Err(ApiError::Transport(_))
    ));
}

#[test]
fn api_errors_describe_themselves() {
    assert_eq!(ApiError::Transport("down".to_string()).describe(), "> Request failed: down");
    assert_eq!(
        ApiError::RemoteApi { status: 422, body: "b".to_string() }.describe(),
        "> Request failed: 422"
    );
    assert_eq!(ApiError::Protocol.describe(), "> Request failed: the reply could not be read");
}

#[test]
fn generate_sha1_for_posts_hashes_every_artifact() {
    let posts = vec![Artifact { name: "a.html".to_string(), content: b"a".to_vec() }];
    let manifest = Netlify::generate_sha1_for_posts("sites/x_1", Some(b"home"), &posts).unwrap();
    assert_eq!(
        manifest.files,
        vec![
            ("/index.html".to_string(), content_hash(b"home")),
            ("/posts/a.html".to_string(), content_hash(b"a")),
        ]
    );
}

#[test]
fn missing_root_document_is_an_error_that_names_the_site() {
    let posts = vec![Artifact { name: "a.html".to_string(), content: b"a".to_vec() }];
    assert_eq!(
        Netlify::generate_sha1_for_posts("sites/blog_1", None, &posts).err(),
        Some("> index.html not found in sites/blog_1".to_string())
    );
    assert_eq!(
        Netlify::generate_sha1_for_posts("", None, &Vec::new()).err(),
        Some("> index.html not found in ".to_string())
    );
}

#[test]
fn upload_of_a_missing_file_makes_no_request() {
    let netlify = client();
    assert_eq!(
        netlify.upload_file("blog", "id-1", "dep-9", "/posts/a.html", false).err(),
        Some("> sites/blog_id-1/posts/a.html not found".to_string())
    );
    assert_eq!(
        netlify.upload_file("blog", "id-1", "dep-9", "/index.html", false).err(),
        Some("> sites/blog_id-1/index.html not found".to_string())
    );
    assert_eq!(Netlify::artifact_path("blog", "id-1", "/posts/a.html"), "sites/blog_id-1/posts/a.html");
    assert_eq!(Netlify::artifact_path("blog", "id-1", "/index.html"), "sites/blog_id-1/index.html");
}

#[test]
fn ssl_reply_is_read_by_status() {
    assert_eq!(Netlify::read_ssl_response(Ok((200, "{}".to_string())), true).ok(), Some(true));
    assert!(matches!(
        Netlify::read_ssl_response(Ok((200, "oops".to_string())), false),
        Err(ApiError::Protocol)
    ));
    assert!(matches!(
        Netlify::read_ssl_response(Ok((404, "no".to_string())), true),
        Err(ApiError::RemoteApi { status: 404, .. })
    ));
    assert!(matches!(
        Netlify::read_ssl_response(Err("down".to_string()), true),
        Err(ApiError::Transport(_))
    ));
}
