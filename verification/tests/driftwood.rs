use driftwood::driftwood::{
    dash_words, join, join_path, site_of_new_site, undash, NewSite, Post, SiteDetails,
};

fn site(name: &str, id: &str) -> SiteDetails {
    SiteDetails {
        name: Some(name.to_string()),
        domain: None,
        id: Some(id.to_string()),
        ssl: None,
        url: None,
        screenshot_url: None,
        password: None,
        required: None,
    }
}

fn post(title: &str) -> Post {
    Post::new(title.to_string(), "2024/01/02 03:04 PM".to_string())
}

#[test]
fn site_path_is_name_and_id() {
    assert_eq!(site("blog", "abc-123").build_site_path(), "sites/blog_abc-123");
    assert_eq!(site("", "").build_site_path(), "sites/_");
}

#[test]
fn new_post_is_empty_but_for_title_and_date() {
    let p = post("Hello");
    assert_eq!(p.title, "Hello");
    assert_eq!(p.date, "2024/01/02 03:04 PM");
    assert_eq!(p.content, "");
    assert_eq!(p.filename, "");
    assert!(p.tags.is_empty());
}

#[test]
fn clean_filename_dashes_the_words_of_the_title() {
    let mut p = post("  Hello,   World! It's 2024 ");
    assert_eq!(p.clean_filename(), Ok(()));
    assert_eq!(p.filename, "Hello-World-It-s-2024");
    assert_eq!(p.title, "  Hello,   World! It's 2024 ");
    let mut p = post("!!!");
    assert_eq!(p.clean_filename(), Ok(()));
    assert_eq!(p.filename, "");
    let mut p = post("a-b_c");
    assert_eq!(p.clean_filename(), Ok(()));
    assert_eq!(p.filename, "a-b-c");
    let mut p = post("café\tcrème");
    assert_eq!(p.clean_filename(), Ok(()));
    assert_eq!(p.filename, "caf-cr-me");
}

#[test]
fn dash_words_joins_words() {
    assert_eq!(dash_words("a b"), "a-b");
    assert_eq!(dash_words(" a \n\t b  "), "a-b");
    assert_eq!(dash_words(""), "");
    assert_eq!(dash_words("   "), "");
    assert_eq!(dash_words("one"), "one");
    assert_eq!(dash_words("a\u{a0}b\u{3000}c"), "a-b-c");
}

#[test]
fn post_name_comes_from_file_name() {
    let mut p = post("ignored");
    p.filename = "Hello-World--x".to_string();
    p.build_post_name();
    assert_eq!(p.title, "Hello World  x");
    assert_eq!(undash(""), "");
    assert_eq!(undash("-"), " ");
}

#[test]
fn post_path_is_below_md_posts() {
    let mut p = post("t");
    p.filename = "Hello-World".to_string();
    assert_eq!(p.build_post_path(&site("blog", "1")), "sites/blog_1/md_posts/Hello-World.md");
    p.filename = String::new();
    assert_eq!(p.build_post_path(&site("blog", "1")), "sites/blog_1/md_posts/.md");
    p.filename = "/etc/x".to_string();
    assert_eq!(p.build_post_path(&site("blog", "1")), "/etc/x.md");
}

#[test]
fn join_path_follows_the_separator_rules() {
    assert_eq!(join_path("a", "b"), "a/b");
    assert_eq!(join_path("a/", "b"), "a/b");
    assert_eq!(join_path("", "b"), "b");
    assert_eq!(join_path("a", "/b"), "/b");
    assert_eq!(join_path("a", ""), "a/");
    let expected: std::path::PathBuf = std::path::Path::new("sites/x").join("md_posts").join("p.md");
    assert_eq!(join_path(&join_path("sites/x", "md_posts"), "p.md"), expected.to_str().unwrap());
}

#[test]
fn tags_are_split_and_cleaned() {
    let mut p = post("t");
    assert_eq!(p.clean_and_set_tags("  rust, web-dev,c++ ,\n"), Ok(()));
    assert_eq!(p.tags, vec!["rust", " web dev", "c   ", ""]);
    assert_eq!(p.clean_and_set_tags("more"), Ok(()));
    assert_eq!(p.tags, vec!["rust", " web dev", "c   ", "", "more"]);
    let mut p = post("t");
    assert_eq!(p.clean_and_set_tags(""), Ok(()));
    assert_eq!(p.tags, vec![""]);
}

#[test]
fn join_puts_separator_between_parts() {
    assert_eq!(join(&Vec::new(), ","), "");
    assert_eq!(join(&vec!["a".to_string()], ","), "a");
    assert_eq!(join(&vec!["a".to_string(), "".to_string(), "b".to_string()], ", "), "a, , b");
}

#[test]
fn file_content_has_front_matter_then_title_then_text() {
    let mut p = post("Hello World");
    p.tags = vec!["a".to_string(), "b".to_string()];
    assert_eq!(
        p.file_content("body text"),
        "date:2024/01/02 03:04 PM\nexcerpt:Write cool excerpt here\nimage:https://images.unsplash.com/photo-1615147342761-9238e15d8b96?ixid=MXwxMjA3fDB8MHxwaG90by1wYWdlfHx8fGVufDB8fHw%3D&ixlib=rb-1.2.1&auto=format&fit=crop&w=1001&q=80\ntags:a,b\n# Hello World\nbody text"
    );
}

#[test]
fn new_site_holds_its_settings() {
    let s = NewSite {
        site_name: "blog".to_string(),
        custom_domain: "example.com".to_string(),
        favicon_file: "f.ico".to_string(),
        template: "default".to_string(),
        password_enabled: false,
        password: String::new(),
        rss_enabled: true,
    };
    assert_eq!(s.clone().site_name, "blog");
    assert!(s.rss_enabled);
}

#[test]
fn new_site_becomes_the_site_to_ask_for() {
    let mut settings = NewSite {
        site_name: "blog".to_string(),
        custom_domain: "example.com".to_string(),
        favicon_file: "f.ico".to_string(),
        template: "default".to_string(),
        password_enabled: true,
        password: "secret".to_string(),
        rss_enabled: true,
    };
    let site = site_of_new_site(&settings);
    assert_eq!(site.name.as_deref(), Some("blog"));
    assert_eq!(site.domain.as_deref(), Some("example.com"));
    assert_eq!(site.password.as_deref(), Some("secret"));
    assert!(site.id.is_none() && site.ssl.is_none() && site.url.is_none());
    assert!(site.screenshot_url.is_none() && site.required.is_none());
    settings.custom_domain = String::new();
    settings.password_enabled = false;
    let site = site_of_new_site(&settings);
    assert_eq!(site.name.as_deref(), Some("blog"));
    assert!(site.domain.is_none());
    assert!(site.password.is_none());
}
