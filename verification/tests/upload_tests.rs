use article_pipeline::upload::{
    assemble_upload_results, backoff_delay, derive_filename, download_send_failed_message,
    parse_retry_after, prepare_upload, rate_limited_message, upload_attempt_decision,
    upstream_message, ImageUploadResult, UploadDecision, UploadOutcome,
};

#[test]
fn retry_after_header_is_obeyed() {
    // a 429 with Retry-After: 5 delays the next attempt by exactly 5 seconds
    let d = upload_attempt_decision(1, 429, "slow down", Some("5"));
    match d {
        UploadDecision::Retry { delay_secs } => {
            assert!(delay_secs >= 5 && delay_secs < 6);
            assert_eq!(delay_secs, 5);
        }
        _ => panic!("expected a retry"),
    }
}

#[test]
fn retry_after_is_floored_at_one_second() {
    assert_eq!(backoff_delay(1, Some(0)), 1);
    assert_eq!(backoff_delay(2, Some(1)), 1);
}

#[test]
fn missing_header_doubles_from_ten_seconds() {
    assert_eq!(backoff_delay(1, None), 10);
    assert_eq!(backoff_delay(2, None), 20);
    assert_eq!(backoff_delay(3, None), 40);
}

#[test]
fn unparseable_header_falls_back_to_backoff() {
    let d = upload_attempt_decision(2, 429, "", Some("soon"));
    match d {
        UploadDecision::Retry { delay_secs } => assert_eq!(delay_secs, 20),
        _ => panic!("expected a retry"),
    }
}

#[test]
fn parse_retry_after_accepts_digits_only() {
    assert_eq!(parse_retry_after("5"), Some(5));
    assert_eq!(parse_retry_after("0"), Some(0));
    assert_eq!(parse_retry_after("120"), Some(120));
    assert_eq!(parse_retry_after(""), None);
    assert_eq!(parse_retry_after("5s"), None);
    assert_eq!(parse_retry_after("-3"), None);
    assert_eq!(parse_retry_after("99999999999999999999999"), None);
}

#[test]
fn fourth_attempt_on_429_is_terminal() {
    let d = upload_attempt_decision(4, 429, "body", Some("5"));
    match d {
        UploadDecision::Failed { error } => {
            assert_eq!(error, rate_limited_message(4));
            assert_eq!(
                error,
                "Upload failed after 4 attempts due to rate limiting (429)."
            );
        }
        _ => panic!("a fifth attempt must never be asked for"),
    }
}

#[test]
fn successful_upload_parses_media_fields() {
    let body = "{\"id\":7,\"source_url\":\"https://cms/x.png\"}";
    let d = upload_attempt_decision(1, 201, body, None);
    match d {
        UploadDecision::Success { media_id, media_url } => {
            assert_eq!(media_id, 7);
            assert_eq!(media_url, "https://cms/x.png");
        }
        _ => panic!("expected success"),
    }
}

#[test]
fn unparseable_success_body_is_terminal() {
    let d = upload_attempt_decision(2, 200, "not json", None);
    match d {
        UploadDecision::Failed { error } => {
            assert_eq!(
                error,
                "Failed to parse successful WP media response (Attempt 2)"
            );
        }
        _ => panic!("expected terminal failure"),
    }
}

#[test]
fn other_status_is_terminal_without_retry() {
    let d = upload_attempt_decision(1, 500, "boom", None);
    match d {
        UploadDecision::Failed { error } => {
            assert_eq!(error, upstream_message(1, 500, "boom"));
            assert_eq!(
                error,
                "WordPress media upload failed (Attempt 1) with status 500: boom"
            );
        }
        _ => panic!("expected terminal failure"),
    }
}

#[test]
fn filename_strips_query_and_fragment() {
    assert_eq!(
        derive_filename("https://img.example/a/b/photo.png?w=300#top", 42),
        "photo.png"
    );
    assert_eq!(derive_filename("plain.jpg", 42), "plain.jpg");
}

#[test]
fn filename_falls_back_to_timestamp() {
    assert_eq!(derive_filename("https://img.example/dir/", 1234), "upload_1234.png");
    assert_eq!(derive_filename("", 9), "upload_9.png");
}

#[test]
fn prepared_upload_guesses_mime_and_disposition() {
    let parts = prepare_upload("https://img.example/pic.png?x=1", 7);
    assert_eq!(parts.filename, "pic.png");
    assert_eq!(parts.mime_type, "image/png");
    assert_eq!(parts.content_disposition, "attachment; filename=\"pic.png\"");

    let generic = prepare_upload("https://img.example/raw/blob", 7);
    assert_eq!(generic.filename, "blob");
    assert_eq!(generic.mime_type, "application/octet-stream");
}

#[test]
fn batch_results_mirror_inputs_in_order() {
    let urls = vec![
        "https://a/1.png".to_string(),
        "https://a/2.png".to_string(),
        "https://a/3.png".to_string(),
    ];
    let outcomes = vec![
        UploadOutcome::NotUploaded { error: "download failed".to_string() },
        UploadOutcome::Uploaded { media_id: 11, media_url: "https://cms/2.png".to_string() },
        UploadOutcome::NotUploaded { error: "rate limited".to_string() },
    ];
    let results: Vec<ImageUploadResult> = assemble_upload_results(&urls, &outcomes);
    assert_eq!(results.len(), 3);
    for (i, r) in results.iter().enumerate() {
        assert_eq!(r.original_url, urls[i]);
    }
    assert!(!results[0].success);
    assert!(results[1].success);
    assert_eq!(results[1].wordpress_media_id, Some(11));
    assert!(!results[2].success);
}

#[test]
fn two_image_scenario_first_succeeds_second_fails() {
    // first URL uploads fine (id 7), the second one's download fails
    let urls = vec![
        "https://img.example/one.png".to_string(),
        "https://img.example/two.png".to_string(),
    ];
    let first = match upload_attempt_decision(
        1,
        201,
        "{\"id\":7,\"source_url\":\"https://cms/x.png\"}",
        None,
    ) {
        UploadDecision::Success { media_id, media_url } => {
            UploadOutcome::Uploaded { media_id, media_url }
        }
        _ => panic!("expected success"),
    };
    let second = UploadOutcome::NotUploaded {
        error: download_send_failed_message("https://img.example/two.png", "connection refused"),
    };
    let outcomes = vec![first, second];
    let results = assemble_upload_results(&urls, &outcomes);
    assert_eq!(results.len(), 2);
    assert!(results[0].success);
    assert_eq!(results[0].wordpress_media_id, Some(7));
    assert_eq!(
        results[0].wordpress_media_url,
        Some("https://cms/x.png".to_string())
    );
    assert!(results[0].error.is_none());
    assert!(!results[1].success);
    assert!(results[1].wordpress_media_id.is_none());
    assert_eq!(
        results[1].error,
        Some(
            "Failed to start download for https://img.example/two.png: connection refused"
                .to_string()
        )
    );
}
