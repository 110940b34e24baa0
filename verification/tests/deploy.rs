use driftwood::deploy::{
    check_rendered, first_path_with_hash, plan_uploads, DeployAction, DeployError, DeployEvent,
    DeployState,
};
use driftwood::manifest::{content_hash, Artifact, FileHashes};
use driftwood::netlify::ApiError;

fn manifest_of(entries: &[(&str, &str)]) -> FileHashes {
    let mut manifest = FileHashes::new();
    for (path, hash) in entries {
        manifest.insert(path.to_string(), hash.to_string());
    }
    manifest
}

fn strings(items: &[&str]) -> Vec<String> {
    items.iter().map(|s| s.to_string()).collect()
}

#[test]
fn nothing_required_plans_nothing() {
    let manifest = manifest_of(&[("/index.html", "H1"), ("/posts/a.html", "H2")]);
    assert_eq!(plan_uploads(&manifest, &Vec::new()), Vec::<String>::new());
}

#[test]
fn fresh_manifest_plans_every_path() {
    let manifest = manifest_of(&[("/index.html", "H1"), ("/posts/a.html", "H2")]);
    assert_eq!(
        plan_uploads(&manifest, &strings(&["H2", "H1"])),
        strings(&["/posts/a.html", "/index.html"])
    );
}

#[test]
fn scenario_provider_lacks_one_post() {
    let manifest = manifest_of(&[("/index.html", "H1"), ("/posts/a.html", "H2")]);
    assert_eq!(plan_uploads(&manifest, &strings(&["H2"])), strings(&["/posts/a.html"]));
}

#[test]
fn identical_content_collapses_to_one_upload() {
    let manifest =
        manifest_of(&[("/index.html", "H1"), ("/posts/a.html", "H2"), ("/posts/b.html", "H2")]);
    assert_eq!(plan_uploads(&manifest, &strings(&["H2"])), strings(&["/posts/a.html"]));
    assert_eq!(first_path_with_hash(&manifest, "H2"), Some(&"/posts/a.html".to_string()));
    assert_eq!(first_path_with_hash(&manifest, "H9"), None);
}

#[test]
fn repeated_and_unknown_digests_are_skipped() {
    let manifest = manifest_of(&[("/index.html", "H1"), ("/posts/a.html", "H2")]);
    assert_eq!(
        plan_uploads(&manifest, &strings(&["H2", "H7", "H2", "H1"])),
        strings(&["/posts/a.html", "/index.html"])
    );
}

#[test]
fn required_is_matched_by_digest_not_by_path() {
    let manifest = manifest_of(&[("/index.html", "H1")]);
    assert_eq!(plan_uploads(&manifest, &strings(&["/index.html"])), Vec::<String>::new());
}

#[test]
fn check_rendered_names_what_is_missing() {
    let expected = strings(&["a.html", "b.html"]);
    let site = "sites/blog_1";
    assert!(check_rendered(site, true, &expected, &strings(&["b.html", "a.html", "c.html"]))
        .is_none());
    match check_rendered(site, false, &expected, &expected) {
        Some(DeployError::MissingRootDocument(path)) => assert_eq!(path, "sites/blog_1"),
        other => panic!("unexpected: {:?}", other),
    }
    match check_rendered(site, true, &expected, &strings(&["a.html"])) {
        Some(DeployError::MissingPost(name)) => assert_eq!(name, "b.html"),
        other => panic!("unexpected: {:?}", other),
    }
    match check_rendered(site, true, &expected, &Vec::new()) {
        Some(DeployError::MissingPost(name)) => assert_eq!(name, "a.html"),
        other => panic!("unexpected: {:?}", other),
    }
}

fn negotiated(index: &[u8], posts: Vec<Artifact>, required: Vec<String>) -> (DeployState, DeployAction) {
    let names: Vec<String> = posts.iter().map(|p| p.name.clone()).collect();
    let (state, action) = DeployState::new().step(DeployEvent::RenderFinished {
        site_path: "sites/blog_1".to_string(),
        has_index: true,
        expected: names.clone(),
        rendered: names,
    });
    assert!(matches!(state, DeployState::Rendered { .. }));
    assert!(matches!(action, DeployAction::ReadArtifacts));
    let (state, action) = state.step(DeployEvent::ArtifactsRead { index: Some(index.to_vec()), posts });
    assert!(matches!(state, DeployState::Manifested { .. }));
    assert!(matches!(action, DeployAction::Negotiate));
    state.step(DeployEvent::NegotiationAccepted { deploy_id: "dep-9".to_string(), required })
}

#[test]
fn scenario_only_the_changed_post_is_uploaded() {
    let posts = vec![Artifact { name: "a.html".to_string(), content: b"post a".to_vec() }];
    let h2 = content_hash(b"post a");
    let (state, action) = negotiated(b"home", posts, vec![h2]);
    match &action {
        DeployAction::Upload { deploy_id, path } => {
            assert_eq!(deploy_id, "dep-9");
            assert_eq!(path, "/posts/a.html");
        }
        other => panic!("unexpected: {:?}", other),
    }
    let (state, action) = state.step(DeployEvent::UploadFinished { ok: true });
    assert!(matches!(action, DeployAction::Conclude));
    let (state, action) = state.step(DeployEvent::Acknowledged);
    assert!(matches!(action, DeployAction::Report));
    match state {
        DeployState::Complete { result } => {
            assert!(result.success());
            assert_eq!(result.uploaded, strings(&["/posts/a.html"]));
            assert!(result.failed.is_empty());
        }
        other => panic!("unexpected: {:?}", other),
    }
}

#[test]
fn provider_that_has_everything_gets_no_upload() {
    let posts = vec![Artifact { name: "a.html".to_string(), content: b"post a".to_vec() }];
    let (state, action) = negotiated(b"home", posts, Vec::new());
    assert!(matches!(action, DeployAction::Conclude));
    match state {
        DeployState::Uploaded { result } => {
            assert!(result.uploaded.is_empty());
            assert!(result.failed.is_empty());
        }
        other => panic!("unexpected: {:?}", other),
    }
}

#[test]
fn failed_upload_does_not_stop_the_rest() {
    let posts = vec![
        Artifact { name: "a.html".to_string(), content: b"post a".to_vec() },
        Artifact { name: "b.html".to_string(), content: b"post b".to_vec() },
    ];
    let required =
        vec![content_hash(b"home"), content_hash(b"post a"), content_hash(b"post b")];
    let (state, action) = negotiated(b"home", posts, required);
    match &action {
        DeployAction::Upload { deploy_id, path } => {
            assert_eq!(deploy_id, "dep-9");
            assert_eq!(path, "/index.html");
        }
        other => panic!("unexpected: {:?}", other),
    }
    let (state, action) = state.step(DeployEvent::UploadFinished { ok: true });
    match &action {
        DeployAction::Upload { deploy_id, path } => {
            assert_eq!(deploy_id, "dep-9");
            assert_eq!(path, "/posts/a.html");
        }
        other => panic!("unexpected: {:?}", other),
    }
    let (state, action) = state.step(DeployEvent::UploadFinished { ok: false });
    match &action {
        DeployAction::Upload { deploy_id, path } => {
            assert_eq!(deploy_id, "dep-9");
            assert_eq!(path, "/posts/b.html");
        }
        other => panic!("unexpected: {:?}", other),
    }
    let (state, action) = state.step(DeployEvent::UploadFinished { ok: true });
    assert!(matches!(action, DeployAction::Conclude));
    let (state, _) = state.step(DeployEvent::Acknowledged);
    match state {
        DeployState::Complete { result } => {
            assert!(!result.success());
            assert_eq!(result.uploaded, strings(&["/index.html", "/posts/b.html"]));
            assert_eq!(result.failed, strings(&["/posts/a.html"]));
        }
        other => panic!("unexpected: {:?}", other),
    }
}

#[test]
fn declined_negotiation_fails_without_uploads() {
    let (state, _) = DeployState::new().step(DeployEvent::RenderFinished {
        site_path: "sites/blog_1".to_string(),
        has_index: true,
        expected: Vec::new(),
        rendered: Vec::new(),
    });
    let (state, _) =
        state.step(DeployEvent::ArtifactsRead { index: Some(b"home".to_vec()), posts: Vec::new() });
    let (state, action) = state.step(DeployEvent::NegotiationFailed {
        error: DeployError::Negotiation(ApiError::RemoteApi { status: 422, body: "no".to_string() }),
    });
    assert!(matches!(action, DeployAction::Abort));
    let (state, action) = state.step(DeployEvent::UploadFinished { ok: true });
    assert!(matches!(action, DeployAction::Abort));
    match state {
        DeployState::Failed {
            error: DeployError::Negotiation(ApiError::RemoteApi { status, body }),
        } => {
            assert_eq!(status, 422);
            assert_eq!(body, "no");
        }
        other => panic!("unexpected: {:?}", other),
    }
}

#[test]
fn steps_out_of_order_fail_the_deploy() {
    let (state, action) = DeployState::new().step(DeployEvent::UploadFinished { ok: true });
    assert!(matches!(action, DeployAction::Abort));
    assert!(matches!(state, DeployState::Failed { error: DeployError::OutOfOrder }));
    let (state, _) = DeployState::new().step(DeployEvent::RenderFinished {
        site_path: "sites/blog_1".to_string(),
        has_index: false,
        expected: Vec::new(),
        rendered: Vec::new(),
    });
    assert!(matches!(state, DeployState::Failed { error: DeployError::MissingRootDocument(_) }));
}

#[test]
fn unreadable_output_fails_the_deploy() {
    let (state, _) = DeployState::new().step(DeployEvent::RenderFinished {
        site_path: "sites/blog_1".to_string(),
        has_index: true,
        expected: Vec::new(),
        rendered: Vec::new(),
    });
    let (state, action) = state.step(DeployEvent::ReadFailed { reason: "denied".to_string() });
    assert!(matches!(action, DeployAction::Abort));
    match state {
        DeployState::Failed { error: DeployError::FileSystem(reason) } => assert_eq!(reason, "denied"),
        other => panic!("unexpected: {:?}", other),
    }
}

#[test]
fn site_without_root_document_fails_before_any_request() {
    let (state, _) = DeployState::new().step(DeployEvent::RenderFinished {
        site_path: "sites/blog_1".to_string(),
        has_index: true,
        expected: Vec::new(),
        rendered: Vec::new(),
    });
    let (state, action) = state.step(DeployEvent::ArtifactsRead { index: None, posts: Vec::new() });
    assert!(matches!(action, DeployAction::Abort));
    match state {
        DeployState::Failed { error: DeployError::MissingRootDocument(path) } => {
            assert_eq!(path, "sites/blog_1")
        }
        other => panic!("unexpected: {:?}", other),
    }
}
