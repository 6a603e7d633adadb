//! The image-generation client's logic: the multipart form it submits and
//! what the provider's answers mean.
use vstd::prelude::*;

use crate::{classified_failure, classify_failure, is_success_status};
use crate::ProviderError;

verus! {

/// The multipart fields an image-generation request carries: the prompt, the
/// rendering speed (defaulting to `TURBO`), and the aspect ratio when one was
/// asked for.
pub open spec fn image_form_spec(
    prompt: Seq<char>,
    rendering_speed: Option<Seq<char>>,
    aspect_ratio: Option<Seq<char>>,
) -> Seq<(Seq<char>, Seq<char>)> {
    seq![("prompt"@, prompt)]
        + seq![
        ("rendering_speed"@, match rendering_speed {
            Some(s) => s,
            None => "TURBO"@,
        }),
    ] + (match aspect_ratio {
        Some(a) => seq![("aspect_ratio"@, a)],
        None => Seq::<(Seq<char>, Seq<char>)>::empty(),
    })
}

/// Builds the multipart form fields for one image-generation request.
pub fn build_image_form(
    prompt: String,
    rendering_speed: Option<String>,
    aspect_ratio: Option<String>,
) -> (r: Vec<(String, String)>)
    ensures
        r@.map_values(|e: (String, String)| (e.0@, e.1@)) == image_form_spec(
            prompt@,
            match rendering_speed {
                Some(s) => Some(s@),
                None => None,
            },
            match aspect_ratio {
                Some(a) => Some(a@),
                None => None,
            },
        ),
{
    let ghost pv = prompt@;
    let ghost rsv: Option<Seq<char>> = match rendering_speed {
        Some(ref s) => Some(s@),
        None => None,
    };
    let ghost arv: Option<Seq<char>> = match aspect_ratio {
        Some(ref a) => Some(a@),
        None => None,
    };
    let mut out: Vec<(String, String)> = Vec::new();
    out.push(("prompt".to_owned(), prompt));
    match rendering_speed {
        Some(s) => out.push(("rendering_speed".to_owned(), s)),
        None => out.push(("rendering_speed".to_owned(), "TURBO".to_owned())),
    }
    match aspect_ratio {
        Some(a) => out.push(("aspect_ratio".to_owned(), a)),
        None => (),
    }
    proof {
        assert(out@.map_values(|e: (String, String)| (e.0@, e.1@)) =~= image_form_spec(
            pv,
            rsv,
            arv,
        ));
    }
    out
}

/// The image-generation endpoint every request posts to.
pub fn image_generate_url() -> (r: String)
    ensures
        r@ == "https://api.ideogram.ai/v1/ideogram-v3/generate"@,
{
    "https://api.ideogram.ai/v1/ideogram-v3/generate".to_owned()
}

/// What an image-generation response body holds, as a function of the text
/// alone: nothing when it is not JSON, otherwise the first image's URL if the
/// `data` array carries one.
pub uninterp spec fn first_image_url_of(body: Seq<char>) -> Option<Option<Seq<char>>>;

/// Relies on `serde_json::from_str` and `serde_json::Value::{get, as_str}`:
/// extracts `data[0].url` from an image-generation response body; an
/// unparseable body yields the outer `None`, a parseable one without that
/// member the inner one.
#[verifier::external_body]
fn extract_first_image_url(body: &str) -> (r: Option<Option<String>>)
    ensures
        r is Some <==> first_image_url_of(body@) is Some,
        r == Some(Option::<String>::None) <==> first_image_url_of(body@) == Some(
            Option::<Seq<char>>::None,
        ),
        r matches Some(Some(u)) ==> first_image_url_of(body@) == Some(Some(u@)),
{
    let v: serde_json::Value = match serde_json::from_str(body) {
        Ok(v) => v,
        Err(_) => return None,
    };
    let url = v.get("data").and_then(|d| d.get(0)).and_then(|e| e.get("url"));
    Some(url.and_then(|u| u.as_str()).map(str::to_string))
}

/// Judges an image-generation response: the first image's URL on success, an
/// empty result when a well-formed success body carries no image, a parse
/// error when the body is not JSON, and the classified failure otherwise.
pub fn interpret_image_response(status: u16, body: &str) -> (r: Result<String, ProviderError>)
    ensures
        is_success_status(status as int) ==> match first_image_url_of(body@) {
            Some(inner) => match inner {
                Some(u) => r matches Ok(s) && s@ == u,
                None => r matches Err(e) && e is EmptyResult,
            },
            None => r matches Err(e) && e is ParseError,
        },
        !is_success_status(status as int) ==> (r matches Err(e) && classified_failure(
            status as int,
            body@,
            e,
        )),
{
    if status >= 200 && status < 300 {
        match extract_first_image_url(body) {
            Some(Some(url)) => Ok(url),
            Some(None) => Err(ProviderError::EmptyResult),
            None => Err(ProviderError::ParseError),
        }
    } else {
        Err(classify_failure(status, body))
    }
}

} // verus!
