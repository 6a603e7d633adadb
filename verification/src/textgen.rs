//! The text-generation client's logic: what is sent to the provider and what
//! its answers mean.
//!
//! The provider speaks two response shapes — the chat-completion shape
//! (`choices[0].message.content`) and the "responses" shape
//! (`output[0].content[0].text`).  Each shape has its own parser and callers
//! pick one; the parsers are never conflated.  The HTTP transfer itself is
//! the caller's job: functions here render the request text and judge the
//! status and body that came back.
use vstd::prelude::*;

use crate::{classified_failure, classify_failure, is_success_status};
use crate::ProviderError;
use crate::settings::SectionDefinitionData;
use crate::strutil::{append_u64, dec_digits, trim_spec, trim_str};

verus! {

/// The chat-completion content of a response body
/// (`choices[0].message.content`), a function of the body text alone.
pub uninterp spec fn chat_content_of(body: Seq<char>) -> Option<Seq<char>>;

/// Relies on `serde_json::from_str` and `serde_json::Value::{get, as_str}`:
/// extracts `choices[0].message.content` from a chat-completion response
/// body, a deterministic function of the text.
#[verifier::external_body]
fn extract_chat_content(body: &str) -> (r: Option<String>)
    ensures
        r is Some <==> chat_content_of(body@) is Some,
        r matches Some(s) ==> chat_content_of(body@) == Some(s@),
{
    let v: serde_json::Value = serde_json::from_str(body).ok()?;
    let s = v.get("choices")?.get(0)?.get("message")?.get("content")?.as_str()?;
    Some(s.to_string())
}

/// The "responses"-shape content of a response body
/// (`output[0].content[0].text`), a function of the body text alone.
pub uninterp spec fn responses_content_of(body: Seq<char>) -> Option<Seq<char>>;

/// Relies on `serde_json::from_str` and `serde_json::Value::{get, as_str}`:
/// extracts `output[0].content[0].text` from a "responses"-shape body, a
/// deterministic function of the text.
#[verifier::external_body]
fn extract_responses_content(body: &str) -> (r: Option<String>)
    ensures
        r is Some <==> responses_content_of(body@) is Some,
        r matches Some(s) ==> responses_content_of(body@) == Some(s@),
{
    let v: serde_json::Value = serde_json::from_str(body).ok()?;
    let s = v.get("output")?.get(0)?.get("content")?.get(0)?.get("text")?.as_str()?;
    Some(s.to_string())
}

/// The string array a JSON text denotes, if it is exactly one, as a function
/// of the text alone.
pub uninterp spec fn string_array_of(s: Seq<char>) -> Option<Seq<Seq<char>>>;

/// Relies on `serde_json::from_str::<Vec<String>>`: the text parses to a JSON
/// array of strings or to nothing, deterministically.
#[verifier::external_body]
fn parse_string_array(s: &str) -> (r: Option<Vec<String>>)
    ensures
        r is Some <==> string_array_of(s@) is Some,
        r matches Some(v) ==> (string_array_of(s@) matches Some(m) && v@.len() == m.len()
            && forall|i: int| 0 <= i < m.len() ==> v@[i]@ == m[i]),
{
    serde_json::from_str::<Vec<String>>(s).ok()
}

/// Admits a stored API key: present and non-empty, or the call must not be
/// made.
pub fn ensure_api_key(key: Option<String>) -> (r: Result<String, ProviderError>)
    ensures
        match key {
            None => r matches Err(e) && e is AuthError,
            Some(k) => if k@.len() == 0 {
                r matches Err(e) && e is AuthError
            } else {
                r matches Ok(v) && v@ == k@
            },
        },
{
    match key {
        None => Err(ProviderError::AuthError),
        Some(k) => {
            if k.as_str().is_empty() {
                Err(ProviderError::AuthError)
            } else {
                Ok(k)
            }
        },
    }
}

/// Judges a chat-completion response: the extracted content on success, a
/// parse error when a success body has no content, and the classified
/// failure otherwise.
pub fn interpret_chat_response(status: u16, body: &str) -> (r: Result<String, ProviderError>)
    ensures
        is_success_status(status as int) ==> match chat_content_of(body@) {
            Some(c) => r matches Ok(s) && s@ == c,
            None => r matches Err(e) && e is ParseError,
        },
        !is_success_status(status as int) ==> (r matches Err(e) && classified_failure(
            status as int,
            body@,
            e,
        )),
{
    if status >= 200 && status < 300 {
        match extract_chat_content(body) {
            Some(content) => Ok(content),
            None => Err(ProviderError::ParseError),
        }
    } else {
        Err(classify_failure(status, body))
    }
}

/// Judges a "responses"-shape response, the same way but with that shape's
/// parser.
pub fn interpret_responses_response(status: u16, body: &str) -> (r: Result<String, ProviderError>)
    ensures
        is_success_status(status as int) ==> match responses_content_of(body@) {
            Some(c) => r matches Ok(s) && s@ == c,
            None => r matches Err(e) && e is ParseError,
        },
        !is_success_status(status as int) ==> (r matches Err(e) && classified_failure(
            status as int,
            body@,
            e,
        )),
{
    if status >= 200 && status < 300 {
        match extract_responses_content(body) {
            Some(content) => Ok(content),
            None => Err(ProviderError::ParseError),
        }
    } else {
        Err(classify_failure(status, body))
    }
}

/// The prompt list an image-prompt suggestion response stands for: the chat
/// content parsed as a JSON string array.  A success body that is not
/// chat-shaped stands for nothing — this parser reads one shape and never
/// sniffs another.
pub open spec fn suggested_prompts_of(body: Seq<char>) -> Option<Seq<Seq<char>>> {
    match chat_content_of(body) {
        Some(c) => string_array_of(c),
        None => None,
    }
}

/// Judges an image-prompt suggestion response: the suggested prompts on
/// success; a parse error when the success body is not chat-shaped or its
/// content is no string array; the classified failure otherwise.
pub fn interpret_suggestion_response(status: u16, body: &str) -> (r: Result<
    Vec<String>,
    ProviderError,
>)
    ensures
        is_success_status(status as int) ==> match suggested_prompts_of(body@) {
            Some(m) => r matches Ok(v) && v@.len() == m.len() && forall|i: int|
                0 <= i < m.len() ==> v@[i]@ == m[i],
            None => r matches Err(e) && e is ParseError,
        },
        !is_success_status(status as int) ==> (r matches Err(e) && classified_failure(
            status as int,
            body@,
            e,
        )),
{
    if status >= 200 && status < 300 {
        let parsed = match extract_chat_content(body) {
            Some(content) => parse_string_array(content.as_str()),
            None => None,
        };
        match parsed {
            Some(prompts) => Ok(prompts),
            None => Err(ProviderError::ParseError),
        }
    } else {
        Err(classify_failure(status, body))
    }
}

/// Judges an LLM placeholder-insertion response: the trimmed chat content on
/// success.  A success body that is no chat response is a parse error —
/// nothing is swallowed or passed off as the article; other failures are
/// classified as usual.
pub fn interpret_insertion_response(status: u16, body: &str) -> (r: Result<String, ProviderError>)
    ensures
        is_success_status(status as int) ==> match chat_content_of(body@) {
            Some(c) => r matches Ok(s) && s@ == trim_spec(c),
            None => r matches Err(e) && e is ParseError,
        },
        !is_success_status(status as int) ==> (r matches Err(e) && classified_failure(
            status as int,
            body@,
            e,
        )),
{
    if status >= 200 && status < 300 {
        match extract_chat_content(body) {
            Some(content) => Ok(trim_str(content.as_str())),
            None => Err(ProviderError::ParseError),
        }
    } else {
        Err(classify_failure(status, body))
    }
}

/// The per-section block of the article prompt, from section `i` on: each
/// section numbered from one, with its instructions.
pub open spec fn sections_part_from(sections: Seq<Seq<char>>, i: int) -> Seq<char>
    decreases sections.len() - i when 0 <= i
{
    if i < 0 || i >= sections.len() {
        Seq::<char>::empty()
    } else {
        "Section "@ + dec_digits(i + 1) + ":\n"@ + sections[i] + "\n\n"@ + sections_part_from(
            sections,
            i + 1,
        )
    }
}

/// The per-section block of the article prompt.
pub open spec fn sections_part(sections: Seq<Seq<char>>) -> Seq<char> {
    sections_part_from(sections, 0)
}

/// Renders the per-section block from section `i` on.
fn render_sections_from(sections: &Vec<SectionDefinitionData>, i: usize) -> (r: String)
    ensures
        r@ == sections_part_from(sections@.map_values(|s: SectionDefinitionData| s@), i as int),
    decreases sections@.len() - i,
{
    if i >= sections.len() {
        String::new()
    } else {
        let mut out = "Section ".to_owned();
        append_u64(&mut out, (i + 1) as u64);
        out.append(":\n");
        out.append(sections[i].instructions.as_str());
        out.append("\n\n");
        let rest = render_sections_from(sections, i + 1);
        out.append(rest.as_str());
        proof {
            let views = sections@.map_values(|s: SectionDefinitionData| s@);
            assert(out@ =~= "Section "@ + dec_digits(i + 1) + ":\n"@ + views[i as int] + "\n\n"@
                + sections_part_from(views, i + 1));
        }
        out
    }
}

/// Renders the per-section block of the article prompt.
pub fn render_sections_part(sections: &Vec<SectionDefinitionData>) -> (r: String)
    ensures
        r@ == sections_part(sections@.map_values(|s: SectionDefinitionData| s@)),
{
    render_sections_from(sections, 0)
}

/// The full article prompt: the configured goal and example URL, the tool
/// name, the numbered section instructions and the target word count, laid
/// into the fixed template.
pub open spec fn article_prompt_spec(
    goal: Seq<char>,
    example_url: Seq<char>,
    tool_name: Seq<char>,
    sections: Seq<Seq<char>>,
    target_word_count: int,
) -> Seq<char> {
    goal + " Use "@ + example_url
        + " as a reference for style and structure where applicable. The article must focus on the AI tool: "@
        + tool_name
        + ".\n\nRecherche approfondie :\nAnalyser le site officiel de l'outil, les discussions pertinentes sur X.com, et des sources web fiables pour collecter des informations à jour sur les fonctionnalités, tarifs, avis utilisateurs, et alternatives.\nVérifier les données pour 2025 afin d'assurer leur actualité et leur précision.\nÉviter toute confusion avec des outils similaires (ex. Groq vs Grok).\n\nStructure de l'article :\nBased on the instructions below, create distinct sections with appropriate H2 titles. Develop each section thoroughly based on its instructions.\n"@
        + sections_part(sections) + "\n\nRédaction :\nProduire un article de minimum "@
        + dec_digits(target_word_count)
        + " mots en HTML, incluant :\nBalise <title> : Optimisée pour le SEO, 60-70 caractères, avec des mots-clés comme \"avis\", \"fonctionnalités\", \"tarifs\", \""@
        + tool_name + "\", \"2025\" (ex. \"Avis "@ + tool_name
        + " 2025 : fonctionnalités, tarifs, alternatives\").\nBalise <meta description> : 150-160 caractères, incluant un call-to-action engageant (ex. \"Découvrez "@
        + tool_name
        + " : fonctionnalités, tarifs, avis. Boostez vos projets IA !\").\nBalise <h1> : Optimisée pour le lecteur, engageante, différente du <title>, axée sur un bénéfice clé (ex. \"Pourquoi "@
        + tool_name
        + " révolutionne vos projets IA en 2025\").\nBalises H2: Générez des titres H2 descriptifs et pertinents pour chaque section définie ci-dessus en vous basant sur les instructions fournies pour cette section.\nLiens hypertextes : Inclure un lien vers le site officiel de l'outil dans l'introduction, les tarifs, et la conclusion, et des liens vers les sites des alternatives dans la section correspondante. Ne pas inclure de liens vers des sources de recherche.\nStyle CSS : Intégré dans la balise <style> pour un tableau esthétique (bordures, couleurs alternées, padding) et une mise en page lisible (polices claires, espacement).\nRespecter les conventions typographiques françaises : minuscules sauf pour débuts de phrases, titres, et noms propres.\nUtiliser un ton engageant, professionnel, et accessible, avec des exemples concrets pour illustrer les cas d'usage.\nAssurez-vous que la sortie est uniquement le code HTML complet de l'article, en commençant par <!DOCTYPE html> ou <html> et se terminant par </html>. N'incluez AUCUN texte ou explication avant ou après le code HTML.\nIMPORTANT: The final article content within the HTML MUST contain at least "@
        + dec_digits(target_word_count)
        + " words. Expand significantly on each section's instructions to achieve this length.\n"@
}

/// Renders the full article prompt.
pub fn render_article_prompt(
    article_goal_prompt: &str,
    example_url: &str,
    tool_name: &str,
    sections: &Vec<SectionDefinitionData>,
    target_word_count: u32,
) -> (r: String)
    ensures
        r@ == article_prompt_spec(
            article_goal_prompt@,
            example_url@,
            tool_name@,
            sections@.map_values(|s: SectionDefinitionData| s@),
            target_word_count as int,
        ),
{
    let mut out = String::new();
    out.append(article_goal_prompt);
    out.append(" Use ");
    out.append(example_url);
    out.append(
        " as a reference for style and structure where applicable. The article must focus on the AI tool: ",
    );
    out.append(tool_name);
    out.append(
        ".\n\nRecherche approfondie :\nAnalyser le site officiel de l'outil, les discussions pertinentes sur X.com, et des sources web fiables pour collecter des informations à jour sur les fonctionnalités, tarifs, avis utilisateurs, et alternatives.\nVérifier les données pour 2025 afin d'assurer leur actualité et leur précision.\nÉviter toute confusion avec des outils similaires (ex. Groq vs Grok).\n\nStructure de l'article :\nBased on the instructions below, create distinct sections with appropriate H2 titles. Develop each section thoroughly based on its instructions.\n",
    );
    let body = render_sections_part(sections);
    out.append(body.as_str());
    out.append("\n\nRédaction :\nProduire un article de minimum ");
    append_u64(&mut out, target_word_count as u64);
    out.append(
        " mots en HTML, incluant :\nBalise <title> : Optimisée pour le SEO, 60-70 caractères, avec des mots-clés comme \"avis\", \"fonctionnalités\", \"tarifs\", \"",
    );
    out.append(tool_name);
    out.append("\", \"2025\" (ex. \"Avis ");
    out.append(tool_name);
    out.append(
        " 2025 : fonctionnalités, tarifs, alternatives\").\nBalise <meta description> : 150-160 caractères, incluant un call-to-action engageant (ex. \"Découvrez ",
    );
    out.append(tool_name);
    out.append(
        " : fonctionnalités, tarifs, avis. Boostez vos projets IA !\").\nBalise <h1> : Optimisée pour le lecteur, engageante, différente du <title>, axée sur un bénéfice clé (ex. \"Pourquoi ",
    );
    out.append(tool_name);
    out.append(
        " révolutionne vos projets IA en 2025\").\nBalises H2: Générez des titres H2 descriptifs et pertinents pour chaque section définie ci-dessus en vous basant sur les instructions fournies pour cette section.\nLiens hypertextes : Inclure un lien vers le site officiel de l'outil dans l'introduction, les tarifs, et la conclusion, et des liens vers les sites des alternatives dans la section correspondante. Ne pas inclure de liens vers des sources de recherche.\nStyle CSS : Intégré dans la balise <style> pour un tableau esthétique (bordures, couleurs alternées, padding) et une mise en page lisible (polices claires, espacement).\nRespecter les conventions typographiques françaises : minuscules sauf pour débuts de phrases, titres, et noms propres.\nUtiliser un ton engageant, professionnel, et accessible, avec des exemples concrets pour illustrer les cas d'usage.\nAssurez-vous que la sortie est uniquement le code HTML complet de l'article, en commençant par <!DOCTYPE html> ou <html> et se terminant par </html>. N'incluez AUCUN texte ou explication avant ou après le code HTML.\nIMPORTANT: The final article content within the HTML MUST contain at least ",
    );
    append_u64(&mut out, target_word_count as u64);
    out.append(" words. Expand significantly on each section's instructions to achieve this length.\n");
    proof {
        assert(out@ =~= article_prompt_spec(
            article_goal_prompt@,
            example_url@,
            tool_name@,
            sections@.map_values(|s: SectionDefinitionData| s@),
            target_word_count as int,
        ));
    }
    out
}

/// The system prompt that frames the article generation, carrying the target
/// word count.
pub open spec fn article_system_prompt_spec(target_word_count: int) -> Seq<char> {
    "You are a helpful assistant tasked with writing detailed AI tool review articles in French HTML format based on user instructions and web searches. Generate appropriate H2 titles for each section based on the provided instructions. Prioritize reaching the target word count of "@
        + dec_digits(target_word_count) + "."@
}

/// Renders the article-generation system prompt.
pub fn render_article_system_prompt(target_word_count: u32) -> (r: String)
    ensures
        r@ == article_system_prompt_spec(target_word_count as int),
{
    let mut out =
        "You are a helpful assistant tasked with writing detailed AI tool review articles in French HTML format based on user instructions and web searches. Generate appropriate H2 titles for each section based on the provided instructions. Prioritize reaching the target word count of ".to_owned();
    append_u64(&mut out, target_word_count as u64);
    out.append(".");
    proof {
        assert(out@ =~= article_system_prompt_spec(target_word_count as int));
    }
    out
}

/// The prompt that asks for image-prompt suggestions over an article.
pub open spec fn suggestion_prompt_spec(article: Seq<char>) -> Seq<char> {
    "Based on the following article text, suggest 3-5 diverse image prompts suitable for illustrating it. Focus on key themes, concepts, or visual metaphors described in the text.\n\n        Output ONLY a valid JSON array of strings, where each string is a suggested image prompt. Example output format: [\"prompt idea 1\", \"prompt idea 2\", \"a third idea\"]\n\n        Article Text:\n        ---\n        "@
        + article + "\n        ---\n\n        Suggested Prompts (JSON Array Only):"@
}

/// Renders the image-prompt suggestion prompt.
pub fn render_suggestion_prompt(article_text: &str) -> (r: String)
    ensures
        r@ == suggestion_prompt_spec(article_text@),
{
    let mut out =
        "Based on the following article text, suggest 3-5 diverse image prompts suitable for illustrating it. Focus on key themes, concepts, or visual metaphors described in the text.\n\n        Output ONLY a valid JSON array of strings, where each string is a suggested image prompt. Example output format: [\"prompt idea 1\", \"prompt idea 2\", \"a third idea\"]\n\n        Article Text:\n        ---\n        ".to_owned();
    out.append(article_text);
    out.append("\n        ---\n\n        Suggested Prompts (JSON Array Only):");
    proof {
        assert(out@ =~= suggestion_prompt_spec(article_text@));
    }
    out
}

/// The fixed system prompt for image-prompt suggestions.
pub fn suggestion_system_prompt() -> (r: String)
    ensures
        r@
            == "You are an assistant that suggests image prompts based on provided text and outputs ONLY a valid JSON array of strings."@,
{
    "You are an assistant that suggests image prompts based on provided text and outputs ONLY a valid JSON array of strings.".to_owned()
}

/// The chat-completions endpoint every text call posts to.
pub fn chat_completions_url() -> (r: String)
    ensures
        r@ == "https://api.openai.com/v1/chat/completions"@,
{
    "https://api.openai.com/v1/chat/completions".to_owned()
}

/// The model used for image-prompt suggestions.
pub fn suggestion_model() -> (r: String)
    ensures
        r@ == "gpt-4-turbo"@,
{
    "gpt-4-turbo".to_owned()
}

/// The model used for LLM placeholder insertion.
pub fn insertion_model() -> (r: String)
    ensures
        r@ == "gpt-4o"@,
{
    "gpt-4o".to_owned()
}

/// One uploaded image as handed to the placeholder-insertion call: where it
/// lives on the CMS, its context text, and the number its placeholder token
/// carries.
pub struct ImageDetailsForLLM {
    pub wordpress_media_url: String,
    pub wordpress_media_id: u64,
    pub alt_text: String,
    pub placeholder_index: u64,
}

/// The mathematical value of an image's insertion details.
#[verifier::ext_equal]
pub struct ImageDetailsView {
    pub wordpress_media_url: Seq<char>,
    pub wordpress_media_id: int,
    pub alt_text: Seq<char>,
    pub placeholder_index: int,
}

impl View for ImageDetailsForLLM {
    type V = ImageDetailsView;

    open spec fn view(&self) -> ImageDetailsView {
        ImageDetailsView {
            wordpress_media_url: self.wordpress_media_url@,
            wordpress_media_id: self.wordpress_media_id as int,
            alt_text: self.alt_text@,
            placeholder_index: self.placeholder_index as int,
        }
    }
}

/// One image's line block in the insertion prompt's placeholder list.
pub open spec fn image_entry_spec(img: ImageDetailsView) -> Seq<char> {
    "Image Placeholder: [INSERT_IMAGE_HERE_"@ + dec_digits(img.placeholder_index)
        + "]\n   Context/Alt Text: "@ + img.alt_text + "\n   (URL: "@ + img.wordpress_media_url
        + ", WP ID: "@ + dec_digits(img.wordpress_media_id) + ")"@
}

/// The placeholder list from image `i` on, entries joined by newlines.
pub open spec fn image_list_from(imgs: Seq<ImageDetailsView>, i: int) -> Seq<char>
    decreases imgs.len() - i when 0 <= i
{
    if i < 0 || i >= imgs.len() {
        Seq::<char>::empty()
    } else if i == imgs.len() - 1 {
        image_entry_spec(imgs[i])
    } else {
        image_entry_spec(imgs[i]) + "\n"@ + image_list_from(imgs, i + 1)
    }
}

/// The whole placeholder list of the insertion prompt.
pub open spec fn image_list_spec(imgs: Seq<ImageDetailsView>) -> Seq<char> {
    image_list_from(imgs, 0)
}

/// Renders one image's entry of the placeholder list.
fn render_image_entry(img: &ImageDetailsForLLM) -> (r: String)
    ensures
        r@ == image_entry_spec(img@),
{
    let mut out = "Image Placeholder: [INSERT_IMAGE_HERE_".to_owned();
    append_u64(&mut out, img.placeholder_index);
    out.append("]\n   Context/Alt Text: ");
    out.append(img.alt_text.as_str());
    out.append("\n   (URL: ");
    out.append(img.wordpress_media_url.as_str());
    out.append(", WP ID: ");
    append_u64(&mut out, img.wordpress_media_id);
    out.append(")");
    proof {
        assert(out@ =~= image_entry_spec(img@));
    }
    out
}

/// Renders the placeholder list from image `i` on.
fn render_image_list_from(imgs: &Vec<ImageDetailsForLLM>, i: usize) -> (r: String)
    ensures
        r@ == image_list_from(imgs@.map_values(|m: ImageDetailsForLLM| m@), i as int),
    decreases imgs@.len() - i,
{
    if i >= imgs.len() {
        String::new()
    } else if i == imgs.len() - 1 {
        render_image_entry(&imgs[i])
    } else {
        let mut out = render_image_entry(&imgs[i]);
        out.append("\n");
        let rest = render_image_list_from(imgs, i + 1);
        out.append(rest.as_str());
        proof {
            let views = imgs@.map_values(|m: ImageDetailsForLLM| m@);
            assert(out@ =~= image_entry_spec(views[i as int]) + "\n"@ + image_list_from(
                views,
                i + 1,
            ));
        }
        out
    }
}

/// The fixed system prompt for LLM placeholder insertion.
pub fn insertion_system_prompt() -> (r: String)
    ensures
        r@
            == "You are an AI assistant that modifies HTML articles. Your task is to insert unique image placeholders (like [INSERT_IMAGE_HERE_1], [INSERT_IMAGE_HERE_2], etc.) into the provided HTML article at semantically relevant locations based on the image's context/alt text and the surrounding article content. Ensure the final output is ONLY the complete, valid HTML code for the modified article including the placeholders, starting with <!DOCTYPE html> or <html> and ending with </html>. Do not include any explanations or preamble."@,
{
    "You are an AI assistant that modifies HTML articles. Your task is to insert unique image placeholders (like [INSERT_IMAGE_HERE_1], [INSERT_IMAGE_HERE_2], etc.) into the provided HTML article at semantically relevant locations based on the image's context/alt text and the surrounding article content. Ensure the final output is ONLY the complete, valid HTML code for the modified article including the placeholders, starting with <!DOCTYPE html> or <html> and ending with </html>. Do not include any explanations or preamble.".to_owned()
}

/// The user prompt for LLM placeholder insertion: the placeholder list and
/// the article, laid into the fixed instructions.
pub open spec fn insertion_user_prompt_spec(
    article_html: Seq<char>,
    imgs: Seq<ImageDetailsView>,
) -> Seq<char> {
    "Please modify the following HTML article by inserting the unique placeholders provided for each image.\n\nPlaceholders and Context:\n---\n"@
        + image_list_spec(imgs) + "\n---\n\nHTML Article to Modify:\n---\n"@ + article_html
        + "\n---\n\nInstructions:\n1. Analyze the article content and the context/alt text for each image placeholder.\n2. For each image placeholder (e.g., `[INSERT_IMAGE_HERE_1]`), insert it exactly as provided into the most semantically relevant location within the article body.\n3. Place placeholders where they enhance the content, ideally near paragraphs discussing related topics. Avoid breaking HTML structure. Do not place placeholders inside header tags (h1, h2, etc.) or within other HTML tags. Place them between paragraphs or block elements where an image would naturally fit.\n4. Ensure ALL provided placeholders are inserted exactly once.\n5. Return ONLY the complete, modified HTML article content including the inserted placeholders. Do not add any introductory text, explanations, or code fences.\n\nModified HTML Article with Placeholders:"@
}

/// Renders the insertion user prompt.
pub fn render_insertion_user_prompt(article_html: &str, imgs: &Vec<ImageDetailsForLLM>) -> (r:
    String)
    ensures
        r@ == insertion_user_prompt_spec(
            article_html@,
            imgs@.map_values(|m: ImageDetailsForLLM| m@),
        ),
{
    let mut out =
        "Please modify the following HTML article by inserting the unique placeholders provided for each image.\n\nPlaceholders and Context:\n---\n".to_owned();
    let list = render_image_list_from(imgs, 0);
    out.append(list.as_str());
    out.append("\n---\n\nHTML Article to Modify:\n---\n");
    out.append(article_html);
    out.append(
        "\n---\n\nInstructions:\n1. Analyze the article content and the context/alt text for each image placeholder.\n2. For each image placeholder (e.g., `[INSERT_IMAGE_HERE_1]`), insert it exactly as provided into the most semantically relevant location within the article body.\n3. Place placeholders where they enhance the content, ideally near paragraphs discussing related topics. Avoid breaking HTML structure. Do not place placeholders inside header tags (h1, h2, etc.) or within other HTML tags. Place them between paragraphs or block elements where an image would naturally fit.\n4. Ensure ALL provided placeholders are inserted exactly once.\n5. Return ONLY the complete, modified HTML article content including the inserted placeholders. Do not add any introductory text, explanations, or code fences.\n\nModified HTML Article with Placeholders:",
    );
    proof {
        assert(out@ =~= insertion_user_prompt_spec(
            article_html@,
            imgs@.map_values(|m: ImageDetailsForLLM| m@),
        ));
    }
    out
}

/// The placeholder numbers an image list asks the insertion call to use, in
/// order: what a merged article is validated against.
pub fn placeholder_indices(images: &Vec<ImageDetailsForLLM>) -> (r: Vec<u64>)
    ensures
        r@.len() == images@.len(),
        forall|i: int| 0 <= i < images@.len() ==> r@[i] == (#[trigger] images@[i]).placeholder_index,
{
    let n = images.len();
    let mut out: Vec<u64> = Vec::new();
    let mut i: usize = 0;
    while i < n
        invariant
            n == images@.len(),
            i <= n,
            out@.len() == i,
            forall|k: int| 0 <= k < i ==> out@[k] == (#[trigger] images@[k]).placeholder_index,
        decreases n - i,
    {
        out.push(images[i].placeholder_index);
        i = i + 1;
    }
    out
}

/// What the placeholder-insertion stage does next: with no images the
/// article passes through unchanged; otherwise the rendered prompts go to the
/// text provider.
pub enum InsertionPlan {
    /// Nothing to insert: the article, exactly as it came in.
    Ready { article: String },
    /// The prompts for the insertion call.
    NeedsLlm { system_prompt: String, user_prompt: String },
}

/// Plans the placeholder-insertion stage for an article and its uploaded
/// images.
pub fn plan_placeholder_insertion(article_html: String, images: &Vec<ImageDetailsForLLM>) -> (r:
    InsertionPlan)
    ensures
        images@.len() == 0 ==> (r matches InsertionPlan::Ready { article } && article@
            == article_html@),
        images@.len() > 0 ==> (r matches InsertionPlan::NeedsLlm { system_prompt, user_prompt }
            && system_prompt@
            == "You are an AI assistant that modifies HTML articles. Your task is to insert unique image placeholders (like [INSERT_IMAGE_HERE_1], [INSERT_IMAGE_HERE_2], etc.) into the provided HTML article at semantically relevant locations based on the image's context/alt text and the surrounding article content. Ensure the final output is ONLY the complete, valid HTML code for the modified article including the placeholders, starting with <!DOCTYPE html> or <html> and ending with </html>. Do not include any explanations or preamble."@
            && user_prompt@ == insertion_user_prompt_spec(
            article_html@,
            images@.map_values(|m: ImageDetailsForLLM| m@),
        )),
{
    if images.len() == 0 {
        InsertionPlan::Ready { article: article_html }
    } else {
        let user_prompt = render_insertion_user_prompt(article_html.as_str(), images);
        InsertionPlan::NeedsLlm { system_prompt: insertion_system_prompt(), user_prompt }
    }
}

} // verus!
