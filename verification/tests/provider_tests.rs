use article_pipeline::imagegen::{build_image_form, image_generate_url, interpret_image_response};
use article_pipeline::textgen::{
    chat_completions_url, ensure_api_key, insertion_model, interpret_chat_response,
    interpret_insertion_response, interpret_responses_response, interpret_suggestion_response,
    placeholder_indices, plan_placeholder_insertion, render_article_system_prompt,
    render_sections_part,
    render_suggestion_prompt, suggestion_model, suggestion_system_prompt, ImageDetailsForLLM,
    InsertionPlan,
};
use article_pipeline::settings::SectionDefinitionData;
use article_pipeline::ProviderError;

#[test]
fn api_key_must_be_present_and_non_empty() {
    assert!(matches!(ensure_api_key(None), Err(ProviderError::AuthError)));
    assert!(matches!(
        ensure_api_key(Some(String::new())),
        Err(ProviderError::AuthError)
    ));
    assert_eq!(ensure_api_key(Some("sk-abc".to_string())).unwrap(), "sk-abc");
}

#[test]
fn chat_response_content_is_extracted() {
    let body = "{\"choices\":[{\"message\":{\"role\":\"assistant\",\"content\":\"<html>Bonjour</html>\"}}]}";
    let r = interpret_chat_response(200, body);
    assert_eq!(r.unwrap(), "<html>Bonjour</html>");
}

#[test]
fn chat_response_without_choices_is_a_parse_error() {
    assert!(matches!(
        interpret_chat_response(200, "{\"choices\":[]}"),
        Err(ProviderError::ParseError)
    ));
    assert!(matches!(
        interpret_chat_response(200, "not json"),
        Err(ProviderError::ParseError)
    ));
}

#[test]
fn chat_response_failures_are_classified() {
    assert!(matches!(
        interpret_chat_response(401, "denied"),
        Err(ProviderError::AuthError)
    ));
    match interpret_chat_response(500, "oops") {
        Err(ProviderError::UpstreamError { status, body }) => {
            assert_eq!(status, 500);
            assert_eq!(body, "oops");
        }
        _ => panic!("expected an upstream error"),
    }
}

#[test]
fn responses_shape_has_its_own_parser() {
    let body =
        "{\"output\":[{\"type\":\"message\",\"role\":\"assistant\",\"content\":[{\"type\":\"output_text\",\"text\":\"Salut\"}]}]}";
    assert_eq!(interpret_responses_response(200, body).unwrap(), "Salut");
    // a chat-shape body does not satisfy the responses-shape parser
    let chat = "{\"choices\":[{\"message\":{\"content\":\"Salut\"}}]}";
    assert!(matches!(
        interpret_responses_response(200, chat),
        Err(ProviderError::ParseError)
    ));
}

#[test]
fn suggestions_parse_the_content_array() {
    let body =
        "{\"choices\":[{\"message\":{\"content\":\"[\\\"a lighthouse\\\", \\\"a robot hand\\\"]\"}}]}";
    let prompts = interpret_suggestion_response(200, body).unwrap();
    assert_eq!(prompts, vec!["a lighthouse".to_string(), "a robot hand".to_string()]);
}

#[test]
fn suggestions_never_sniff_another_shape() {
    // a bare JSON array is not the chat shape this parser reads: a 2xx body
    // that is not chat-shaped is a parse error, not a second parse
    let body = "[\"idea one\", \"idea two\"]";
    assert!(matches!(
        interpret_suggestion_response(200, body),
        Err(ProviderError::ParseError)
    ));
}

#[test]
fn suggestions_that_are_no_array_are_a_parse_error() {
    let body = "{\"choices\":[{\"message\":{\"content\":\"no array here\"}}]}";
    assert!(matches!(
        interpret_suggestion_response(200, body),
        Err(ProviderError::ParseError)
    ));
}

#[test]
fn insertion_response_is_trimmed_chat_content_only() {
    let body = "{\"choices\":[{\"message\":{\"content\":\"  <html>x</html>\\n\"}}]}";
    assert_eq!(interpret_insertion_response(200, body).unwrap(), "<html>x</html>");
    // a success body that is no chat response is a parse error, never passed
    // off as the article
    assert!(matches!(
        interpret_insertion_response(200, "  raw text  "),
        Err(ProviderError::ParseError)
    ));
    assert!(matches!(
        interpret_insertion_response(502, "bad gateway"),
        Err(ProviderError::UpstreamError { .. })
    ));
}

#[test]
fn insertion_with_no_images_passes_article_through() {
    let html = "<html><body><p>No pictures here.</p></body></html>".to_string();
    match plan_placeholder_insertion(html.clone(), &Vec::new()) {
        InsertionPlan::Ready { article } => assert_eq!(article, html),
        InsertionPlan::NeedsLlm { .. } => panic!("no images must mean no LLM call"),
    }
}

#[test]
fn insertion_with_images_renders_the_placeholder_list() {
    let html = "<html><body><p>Text.</p></body></html>".to_string();
    let images = vec![ImageDetailsForLLM {
        wordpress_media_url: "https://cms/img.png".to_string(),
        wordpress_media_id: 12,
        alt_text: "a diagram".to_string(),
        placeholder_index: 1,
    }];
    match plan_placeholder_insertion(html, &images) {
        InsertionPlan::NeedsLlm { system_prompt, user_prompt } => {
            assert!(system_prompt.contains("insert unique image placeholders"));
            assert!(user_prompt.contains(
                "Image Placeholder: [INSERT_IMAGE_HERE_1]\n   Context/Alt Text: a diagram\n   (URL: https://cms/img.png, WP ID: 12)"
            ));
            assert!(user_prompt.contains("<p>Text.</p>"));
        }
        InsertionPlan::Ready { .. } => panic!("images present must mean an LLM call"),
    }
}

#[test]
fn placeholder_indices_follow_the_image_list() {
    let images = vec![
        ImageDetailsForLLM {
            wordpress_media_url: "https://cms/a.png".to_string(),
            wordpress_media_id: 1,
            alt_text: "first".to_string(),
            placeholder_index: 3,
        },
        ImageDetailsForLLM {
            wordpress_media_url: "https://cms/b.png".to_string(),
            wordpress_media_id: 2,
            alt_text: "second".to_string(),
            placeholder_index: 7,
        },
    ];
    assert_eq!(placeholder_indices(&images), vec![3, 7]);
}

#[test]
fn sections_part_numbers_from_one() {
    let sections = vec![
        SectionDefinitionData { instructions: "Introduce the tool".to_string() },
        SectionDefinitionData { instructions: "Compare pricing".to_string() },
    ];
    assert_eq!(
        render_sections_part(&sections),
        "Section 1:\nIntroduce the tool\n\nSection 2:\nCompare pricing\n\n"
    );
}

#[test]
fn article_system_prompt_carries_word_count() {
    let p = render_article_system_prompt(1500);
    assert!(p.ends_with("Prioritize reaching the target word count of 1500."));
}

#[test]
fn suggestion_prompt_embeds_article() {
    let p = render_suggestion_prompt("ARTICLE BODY");
    assert!(p.contains("        ---\n        ARTICLE BODY\n        ---"));
    assert!(p.ends_with("Suggested Prompts (JSON Array Only):"));
    assert!(suggestion_system_prompt().contains("ONLY a valid JSON array of strings"));
}

#[test]
fn fixed_endpoints_and_models() {
    assert_eq!(chat_completions_url(), "https://api.openai.com/v1/chat/completions");
    assert_eq!(image_generate_url(), "https://api.ideogram.ai/v1/ideogram-v3/generate");
    assert_eq!(suggestion_model(), "gpt-4-turbo");
    assert_eq!(insertion_model(), "gpt-4o");
}

#[test]
fn image_form_defaults_rendering_speed() {
    let form = build_image_form("a fox".to_string(), None, None);
    assert_eq!(
        form,
        vec![
            ("prompt".to_string(), "a fox".to_string()),
            ("rendering_speed".to_string(), "TURBO".to_string())
        ]
    );
    let form2 = build_image_form(
        "a fox".to_string(),
        Some("QUALITY".to_string()),
        Some("16x9".to_string()),
    );
    assert_eq!(form2.len(), 3);
    assert_eq!(form2[1], ("rendering_speed".to_string(), "QUALITY".to_string()));
    assert_eq!(form2[2], ("aspect_ratio".to_string(), "16x9".to_string()));
}

#[test]
fn image_response_first_url_is_taken() {
    let body = "{\"created\":\"now\",\"data\":[{\"url\":\"https://img/1.png\"},{\"url\":\"https://img/2.png\"}]}";
    assert_eq!(interpret_image_response(200, body).unwrap(), "https://img/1.png");
}

#[test]
fn image_response_empty_data_is_empty_result() {
    assert!(matches!(
        interpret_image_response(200, "{\"data\":[]}"),
        Err(ProviderError::EmptyResult)
    ));
    assert!(matches!(
        interpret_image_response(200, "{\"created\":\"now\"}"),
        Err(ProviderError::EmptyResult)
    ));
    assert!(matches!(
        interpret_image_response(200, "###"),
        Err(ProviderError::ParseError)
    ));
    assert!(matches!(
        interpret_image_response(403, "denied"),
        Err(ProviderError::AuthError)
    ));
}
