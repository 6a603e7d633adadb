use article_pipeline::cms::build_post_payload;
use article_pipeline::registry::SettingsDocument;
use article_pipeline::settings::SectionDefinitionData;
use article_pipeline::textgen::{
    interpret_chat_response, plan_placeholder_insertion, render_article_prompt, InsertionPlan,
};

// End to end, with the text provider stubbed: a project is created, settings
// with one section are saved, the prompt is rendered from them, the stub
// returns fixed HTML, and with no images the article reaches the
// placeholder-resolution stage unchanged.
#[test]
fn full_article_run_without_images_passes_html_through() {
    let mut doc = SettingsDocument::new();
    assert_eq!(doc.create_project("Acme"), Ok(()));

    let mut settings = doc.get_project_settings("Acme").unwrap();
    settings.article_goal_prompt = "Write a review of the tool.".to_string();
    settings.example_url = "https://example.org/model-article".to_string();
    settings.sections.push(SectionDefinitionData {
        instructions: "Explain what Acme does".to_string(),
    });
    assert_eq!(doc.save_project_settings("Acme", settings), Ok(()));

    let saved = doc.get_project_settings("Acme").unwrap();
    let prompt = render_article_prompt(
        saved.article_goal_prompt.as_str(),
        saved.example_url.as_str(),
        saved.tool_name.as_str(),
        &saved.sections,
        saved.target_word_count,
    );
    assert!(prompt.starts_with(
        "Write a review of the tool. Use https://example.org/model-article as a reference"
    ));
    assert!(prompt.contains("The article must focus on the AI tool: Acme."));
    assert!(prompt.contains("Section 1:\nExplain what Acme does\n\n"));
    assert!(prompt.contains("Produire un article de minimum 1000 mots"));

    // the stub text client answers with fixed HTML
    let fixed_html = "<html><title>Acme Review</title><body><p>Done.</p></body></html>";
    let stub_body = format!(
        "{{\"choices\":[{{\"message\":{{\"content\":\"{}\"}}}}]}}",
        fixed_html.replace('"', "\\\"")
    );
    let article = interpret_chat_response(200, stub_body.as_str()).unwrap();
    assert_eq!(article, fixed_html);

    // no placeholders were generated, so the article passes through unchanged
    match plan_placeholder_insertion(article.clone(), &Vec::new()) {
        InsertionPlan::Ready { article: resolved } => {
            assert_eq!(resolved, fixed_html);
            let payload = build_post_payload(resolved, saved.tool_name.as_str(), None, None);
            assert_eq!(payload.title, "Acme Review");
            assert_eq!(payload.status, "publish");
        }
        InsertionPlan::NeedsLlm { .. } => panic!("no images must mean no LLM call"),
    }
}
