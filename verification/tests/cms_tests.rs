use article_pipeline::cms::{
    build_categories_url, build_media_url, build_post_payload, build_posts_url,
    choose_publish_status, interpret_categories_response, interpret_publish_response,
    require_configured, WordPressCategory,
};
use article_pipeline::html::{choose_post_title, placeholders_each_once, validate_merged_article};
use article_pipeline::settings::ProjectSettings;
use article_pipeline::ProviderError;

fn configured_settings() -> ProjectSettings {
    ProjectSettings {
        wordpress_url: "https://blog.example/".to_string(),
        wordpress_user: "author".to_string(),
        wordpress_pass: "app-pass".to_string(),
        tool_name: "Acme".to_string(),
        article_goal_prompt: String::new(),
        example_url: String::new(),
        sections: Vec::new(),
        text_generation_model: "gpt-4o".to_string(),
        target_word_count: 1000,
    }
}

#[test]
fn blank_credentials_are_not_configured() {
    let ok = configured_settings();
    assert!(require_configured(&ok).is_ok());
    let mut missing_url = configured_settings();
    missing_url.wordpress_url = "   ".to_string();
    assert!(matches!(
        require_configured(&missing_url),
        Err(ProviderError::NotConfigured)
    ));
    let mut missing_pass = configured_settings();
    missing_pass.wordpress_pass = String::new();
    assert!(matches!(
        require_configured(&missing_pass),
        Err(ProviderError::NotConfigured)
    ));
}

#[test]
fn endpoint_urls_strip_trailing_slashes() {
    assert_eq!(
        build_categories_url("https://blog.example//"),
        "https://blog.example/wp-json/wp/v2/categories?per_page=100"
    );
    assert_eq!(
        build_posts_url("https://blog.example"),
        "https://blog.example/wp-json/wp/v2/posts"
    );
    assert_eq!(
        build_media_url("https://blog.example/"),
        "https://blog.example/wp-json/wp/v2/media"
    );
}

#[test]
fn publish_status_defaults_to_publish() {
    assert_eq!(choose_publish_status(None), "publish");
    assert_eq!(choose_publish_status(Some("draft")), "draft");
    assert_eq!(choose_publish_status(Some("pending")), "pending");
    assert_eq!(choose_publish_status(Some("publish")), "publish");
    assert_eq!(choose_publish_status(Some("scheduled")), "publish");
}

#[test]
fn title_comes_from_title_tag_or_default() {
    assert_eq!(
        choose_post_title("<html><TITLE>  Avis Acme 2025 </title></html>", "Acme"),
        "Avis Acme 2025"
    );
    assert_eq!(
        choose_post_title("<html><body>no title</body></html>", "Acme"),
        "Generated Article for Acme"
    );
    assert_eq!(
        choose_post_title("<title>   </title>", "Acme"),
        "Generated Article for Acme"
    );
}

#[test]
fn title_extraction_handles_accented_text() {
    assert_eq!(
        choose_post_title(
            "<html>\n<title>\n  Pourquoi Acmé révolutionne vos projets IA \n</title></html>",
            "Acmé"
        ),
        "Pourquoi Acmé révolutionne vos projets IA"
    );
}

#[test]
fn post_payload_is_assembled() {
    let payload = build_post_payload(
        "<html><title>My Piece</title><body>x</body></html>".to_string(),
        "Acme",
        Some("draft"),
        Some(5),
    );
    assert_eq!(payload.title, "My Piece");
    assert_eq!(payload.status, "draft");
    assert_eq!(payload.categories, Some(vec![5]));
    assert!(payload.content.contains("<body>x</body>"));
}

#[test]
fn publish_response_reports_status_and_category() {
    let ok = interpret_publish_response(201, "{}", "draft", Some(5)).unwrap();
    assert_eq!(
        ok,
        "Article successfully published to WordPress with status 'draft' in category ID 5!"
    );
    let plain = interpret_publish_response(200, "{}", "publish", None).unwrap();
    assert_eq!(
        plain,
        "Article successfully published to WordPress with status 'publish'!"
    );
    match interpret_publish_response(500, "db down", "publish", None) {
        Err(ProviderError::UpstreamError { status, body }) => {
            assert_eq!(status, 500);
            assert_eq!(body, "db down");
        }
        _ => panic!("expected an upstream error"),
    }
}

#[test]
fn publish_failures_keep_status_and_body_verbatim_even_on_auth_statuses() {
    // the publish stage never reinterprets a non-2xx answer
    match interpret_publish_response(401, "credentials rejected", "publish", None) {
        Err(ProviderError::UpstreamError { status, body }) => {
            assert_eq!(status, 401);
            assert_eq!(body, "credentials rejected");
        }
        _ => panic!("expected the upstream status and body verbatim"),
    }
    match interpret_publish_response(403, "forbidden", "draft", Some(2)) {
        Err(ProviderError::UpstreamError { status, body }) => {
            assert_eq!(status, 403);
            assert_eq!(body, "forbidden");
        }
        _ => panic!("expected the upstream status and body verbatim"),
    }
}

#[test]
fn categories_response_passes_parsed_list_through() {
    let cats = vec![
        WordPressCategory { id: 1, name: "News".to_string(), slug: "news".to_string() },
        WordPressCategory { id: 2, name: "Reviews".to_string(), slug: "reviews".to_string() },
    ];
    let r = interpret_categories_response(200, Some(cats), "").unwrap();
    assert_eq!(r.len(), 2);
    assert_eq!(r[0].id, 1);
    assert_eq!(r[1].slug, "reviews");
    assert!(matches!(
        interpret_categories_response(200, None, "glop"),
        Err(ProviderError::ParseError)
    ));
    assert!(matches!(
        interpret_categories_response(401, None, "denied"),
        Err(ProviderError::AuthError)
    ));
}

#[test]
fn placeholder_counting_validates_a_merge() {
    let merged = "<p>a</p>[INSERT_IMAGE_HERE_1]<p>b</p>[INSERT_IMAGE_HERE_2]";
    assert!(placeholders_each_once(merged, &vec![1, 2]));
    // the second token is missing
    assert!(!placeholders_each_once("<p>[INSERT_IMAGE_HERE_1]</p>", &vec![1, 2]));
    // a token occurs twice
    assert!(!placeholders_each_once(
        "[INSERT_IMAGE_HERE_1][INSERT_IMAGE_HERE_1]",
        &vec![1]
    ));
    // token ten is its own token, not a second occurrence of token one
    assert!(placeholders_each_once(
        "[INSERT_IMAGE_HERE_1][INSERT_IMAGE_HERE_10]",
        &vec![1, 10]
    ));
}

#[test]
fn placeholder_counting_follows_the_requested_indices() {
    // the validation tests exactly the numbers the prompt asked for, even
    // when they are not 1..n
    let merged = "<p>[INSERT_IMAGE_HERE_3]</p><p>[INSERT_IMAGE_HERE_7]</p>";
    assert!(placeholders_each_once(merged, &vec![3, 7]));
    assert!(!placeholders_each_once(merged, &vec![1, 2]));
    assert!(!placeholders_each_once("<p>[INSERT_IMAGE_HERE_1]</p>", &vec![3]));
}

#[test]
fn merge_acceptance_judges_the_count_alone() {
    let good = "<p>[INSERT_IMAGE_HERE_1]</p><p>[INSERT_IMAGE_HERE_2]</p>".to_string();
    assert_eq!(validate_merged_article(good.clone(), &vec![1, 2]).unwrap(), good);
    let bad = "<p>[INSERT_IMAGE_HERE_1]</p>".to_string();
    assert!(matches!(
        validate_merged_article(bad, &vec![1, 2]),
        Err(ProviderError::ParseError)
    ));
    // non-contiguous indices are judged as requested
    let skewed = "<p>[INSERT_IMAGE_HERE_5]</p>".to_string();
    assert_eq!(validate_merged_article(skewed.clone(), &vec![5]).unwrap(), skewed);
}
