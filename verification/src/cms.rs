//! The CMS client's logic: configuration checks, endpoint URLs, post payload
//! assembly and what the CMS's answers mean.
use vstd::prelude::*;

use crate::{classified_failure, classify_failure, is_success_status};
use crate::ProviderError;
use crate::html::{chosen_title, choose_post_title};
use crate::settings::ProjectSettings;
use crate::strutil::{
    append_u64, dec_digits, is_blank, is_blank_spec, str_eq, strip_trailing_slashes,
    strip_trailing_slashes_spec,
};

verus! {

/// The CMS configuration of a project is complete: base URL, user and
/// credential all non-blank.
pub open spec fn cms_configured(s: crate::settings::ProjectSettingsView) -> bool {
    !is_blank_spec(s.wordpress_url) && !is_blank_spec(s.wordpress_user) && !is_blank_spec(
        s.wordpress_pass,
    )
}

/// Fails fast with `NotConfigured` unless URL, user and credential are all
/// set; nothing may be sent otherwise.
pub fn require_configured(settings: &ProjectSettings) -> (r: Result<(), ProviderError>)
    ensures
        cms_configured(settings@) ==> r matches Ok(()),
        !cms_configured(settings@) ==> (r matches Err(e) && e is NotConfigured),
{
    if is_blank(settings.wordpress_url.as_str()) || is_blank(settings.wordpress_user.as_str())
        || is_blank(settings.wordpress_pass.as_str()) {
        Err(ProviderError::NotConfigured)
    } else {
        Ok(())
    }
}

/// The categories endpoint under a base URL, trailing slashes stripped.
pub open spec fn categories_url_spec(base: Seq<char>) -> Seq<char> {
    strip_trailing_slashes_spec(base) + "/wp-json/wp/v2/categories?per_page=100"@
}

/// Builds the categories endpoint URL.
pub fn build_categories_url(base: &str) -> (r: String)
    ensures
        r@ == categories_url_spec(base@),
{
    let mut out = strip_trailing_slashes(base);
    out.append("/wp-json/wp/v2/categories?per_page=100");
    out
}

/// The posts endpoint under a base URL, trailing slashes stripped.
pub open spec fn posts_url_spec(base: Seq<char>) -> Seq<char> {
    strip_trailing_slashes_spec(base) + "/wp-json/wp/v2/posts"@
}

/// Builds the posts endpoint URL.
pub fn build_posts_url(base: &str) -> (r: String)
    ensures
        r@ == posts_url_spec(base@),
{
    let mut out = strip_trailing_slashes(base);
    out.append("/wp-json/wp/v2/posts");
    out
}

/// The media endpoint under a base URL, trailing slashes stripped.
pub open spec fn media_url_spec(base: Seq<char>) -> Seq<char> {
    strip_trailing_slashes_spec(base) + "/wp-json/wp/v2/media"@
}

/// Builds the media endpoint URL.
pub fn build_media_url(base: &str) -> (r: String)
    ensures
        r@ == media_url_spec(base@),
{
    let mut out = strip_trailing_slashes(base);
    out.append("/wp-json/wp/v2/media");
    out
}

/// The publish status a post is created with: one of the three recognized
/// words if the caller asked for it, `publish` otherwise.
pub open spec fn chosen_status(requested: Option<Seq<char>>) -> Seq<char> {
    match requested {
        Some(v) => if v == "publish"@ || v == "draft"@ || v == "pending"@ {
            v
        } else {
            "publish"@
        },
        None => "publish"@,
    }
}

/// Chooses the publish status for a post.
pub fn choose_publish_status(requested: Option<&str>) -> (r: String)
    ensures
        r@ == chosen_status(match requested {
            Some(s) => Some(s@),
            None => None,
        }),
{
    match requested {
        Some(s) => {
            if str_eq(s, "publish") || str_eq(s, "draft") || str_eq(s, "pending") {
                s.to_owned()
            } else {
                "publish".to_owned()
            }
        },
        None => "publish".to_owned(),
    }
}

/// The body of a post-creation request: title, HTML content, status, and the
/// chosen category if any.
pub struct PostPayload {
    pub title: String,
    pub content: String,
    pub status: String,
    pub categories: Option<Vec<u32>>,
}

/// Assembles the post payload for publishing `article_html` under a
/// project's tool name: the title is taken from the article's `<title>` tag
/// or defaulted, the status filtered to the recognized words, the category
/// passed through.
pub fn build_post_payload(
    article_html: String,
    tool_name: &str,
    publish_status: Option<&str>,
    category_id: Option<u32>,
) -> (r: PostPayload)
    ensures
        r.title@ == chosen_title(article_html@, tool_name@),
        r.content@ == article_html@,
        r.status@ == chosen_status(match publish_status {
            Some(s) => Some(s@),
            None => None,
        }),
        match category_id {
            Some(id) => r.categories matches Some(c) && c@ == seq![id],
            None => r.categories is None,
        },
{
    let title = choose_post_title(article_html.as_str(), tool_name);
    let status = choose_publish_status(publish_status);
    let categories = match category_id {
        Some(id) => {
            let mut v: Vec<u32> = Vec::new();
            v.push(id);
            proof {
                assert(v@ =~= seq![id]);
            }
            Some(v)
        },
        None => None,
    };
    PostPayload { title, content: article_html, status, categories }
}

/// The message reported after a successful post creation.
pub open spec fn publish_success_message_spec(status: Seq<char>, category_id: Option<int>) -> Seq<
    char,
> {
    "Article successfully published to WordPress with status '"@ + status + "'"@ + (match
        category_id {
        Some(id) => " in category ID "@ + dec_digits(id),
        None => Seq::<char>::empty(),
    }) + "!"@
}

/// Judges a post-creation response: a success message carrying the status
/// and category used.  Any non-success status is terminal, with the upstream
/// status and body surfaced verbatim — publishing never reinterprets them.
pub fn interpret_publish_response(
    status_code: u16,
    body: &str,
    publish_status: &str,
    category_id: Option<u32>,
) -> (r: Result<String, ProviderError>)
    ensures
        is_success_status(status_code as int) ==> (r matches Ok(m) && m@
            == publish_success_message_spec(publish_status@, match category_id {
            Some(id) => Some(id as int),
            None => None,
        })),
        !is_success_status(status_code as int) ==> (r matches Err(e) && (e
            matches ProviderError::UpstreamError { status: st, body: b } && st == status_code && b@
            == body@)),
{
    if status_code >= 200 && status_code < 300 {
        let mut out = "Article successfully published to WordPress with status '".to_owned();
        out.append(publish_status);
        out.append("'");
        match category_id {
            Some(id) => {
                out.append(" in category ID ");
                append_u64(&mut out, id as u64);
            },
            None => (),
        }
        out.append("!");
        proof {
            assert(out@ =~= publish_success_message_spec(publish_status@, match category_id {
                Some(id) => Some(id as int),
                None => None,
            }));
        }
        Ok(out)
    } else {
        Err(ProviderError::UpstreamError { status: status_code, body: body.to_owned() })
    }
}

/// One CMS category, as its listing endpoint reports it.
pub struct WordPressCategory {
    pub id: u32,
    pub name: String,
    pub slug: String,
}

/// Judges a category-listing response.  The caller parses the body into
/// category records and passes them in; a success response that did not parse
/// is a parse error, everything else is classified as usual.
pub fn interpret_categories_response(
    status: u16,
    parsed: Option<Vec<WordPressCategory>>,
    body: &str,
) -> (r: Result<Vec<WordPressCategory>, ProviderError>)
    ensures
        is_success_status(status as int) ==> match parsed {
            Some(cats) => r == Ok::<Vec<WordPressCategory>, ProviderError>(cats),
            None => r matches Err(e) && e is ParseError,
        },
        !is_success_status(status as int) ==> (r matches Err(e) && classified_failure(
            status as int,
            body@,
            e,
        )),
{
    if status >= 200 && status < 300 {
        match parsed {
            Some(cats) => Ok(cats),
            None => Err(ProviderError::ParseError),
        }
    } else {
        Err(classify_failure(status, body))
    }
}

} // verus!
