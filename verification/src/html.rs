//! Scanning generated HTML: extracting the document title and accounting for
//! image placeholder tokens.
use vstd::prelude::*;

use crate::strutil::{
    count_matches, count_occurrences, find_first_ci, matches_ci_at, trim_spec, trim_str,
    append_u64, dec_digits,
};

verus! {

/// First position at or after `from` where the pattern occurs up to ASCII
/// case, if any.
pub open spec fn first_ci_from(s: Seq<char>, lo: Seq<char>, up: Seq<char>, from: int) -> Option<
    int,
>
    decreases s.len() - from when 0 <= from
{
    if from < 0 || from + lo.len() > s.len() {
        None
    } else if matches_ci_at(s, lo, up, from) {
        Some(from)
    } else {
        first_ci_from(s, lo, up, from + 1)
    }
}

/// What characterizes `first_ci_from`.
pub proof fn lemma_first_ci_from_props(s: Seq<char>, lo: Seq<char>, up: Seq<char>, from: int)
    requires
        0 <= from,
    ensures
        match first_ci_from(s, lo, up, from) {
            Some(j) => from <= j && matches_ci_at(s, lo, up, j) && forall|k: int|
                from <= k < j ==> !matches_ci_at(s, lo, up, k),
            None => forall|k: int| from <= k ==> !matches_ci_at(s, lo, up, k),
        },
    decreases s.len() - from,
{
    if from + lo.len() > s.len() {
    } else if matches_ci_at(s, lo, up, from) {
    } else {
        lemma_first_ci_from_props(s, lo, up, from + 1);
    }
}

/// Finds the leftmost case-insensitive occurrence, as `first_ci_from` names
/// it.
fn find_ci_spec_indexed(s: &str, lo: &str, up: &str, from: usize) -> (r: Option<usize>)
    requires
        lo@.len() == up@.len(),
    ensures
        match r {
            Some(j) => first_ci_from(s@, lo@, up@, from as int) == Some(j as int) && from <= j && j
                + lo@.len() <= s@.len(),
            None => first_ci_from(s@, lo@, up@, from as int) is None,
        },
{
    let r = find_first_ci(s, lo, up, from);
    proof {
        lemma_first_ci_from_props(s@, lo@, up@, from as int);
        match (r, first_ci_from(s@, lo@, up@, from as int)) {
            (Some(j), Some(i)) => {
                if (j as int) < i {
                    assert(!matches_ci_at(s@, lo@, up@, j as int));
                }
                if i < j as int {
                    assert(!matches_ci_at(s@, lo@, up@, i));
                }
            },
            (Some(j), None) => {
                assert(!matches_ci_at(s@, lo@, up@, j as int));
            },
            (None, Some(i)) => {
                assert(!matches_ci_at(s@, lo@, up@, i));
            },
            (None, None) => {},
        }
    }
    r
}

/// The trimmed text between the first `<title>` tag (case-insensitive) and
/// the first `</title>` after it, if both exist.
pub open spec fn extracted_title(html: Seq<char>) -> Option<Seq<char>> {
    match first_ci_from(html, "<title>"@, "<TITLE>"@, 0) {
        None => None,
        Some(i) => match first_ci_from(html, "</title>"@, "</TITLE>"@, i + "<title>"@.len()) {
            None => None,
            Some(j) => Some(trim_spec(html.subrange(i + "<title>"@.len(), j))),
        },
    }
}

/// The post title: the non-empty extracted title, or a default built from the
/// tool name.
pub open spec fn chosen_title(html: Seq<char>, tool_name: Seq<char>) -> Seq<char> {
    match extracted_title(html) {
        Some(t) => if t.len() > 0 {
            t
        } else {
            "Generated Article for "@ + tool_name
        },
        None => "Generated Article for "@ + tool_name,
    }
}

/// Chooses the post title for publishing `html` on behalf of `tool_name`.
pub fn choose_post_title(html: &str, tool_name: &str) -> (r: String)
    ensures
        r@ == chosen_title(html@, tool_name@),
{
    proof {
        reveal_strlit("<title>");
        reveal_strlit("<TITLE>");
        reveal_strlit("</title>");
        reveal_strlit("</TITLE>");
    }
    let hlen = html.unicode_len();
    proof {
        assert(html@.len() == hlen);
    }
    let open = find_ci_spec_indexed(html, "<title>", "<TITLE>", 0);
    if let Some(i) = open {
        let close = find_ci_spec_indexed(html, "</title>", "</TITLE>", i + 7);
        if let Some(j) = close {
            let captured = html.substring_char(i + 7, j);
            let t = trim_str(captured);
            if t.unicode_len() > 0 {
                return t;
            }
        }
    }
    let mut out = "Generated Article for ".to_owned();
    out.append(tool_name);
    proof {
        assert(out@ =~= "Generated Article for "@ + tool_name@);
    }
    out
}

/// The placeholder token that marks where image number `k` belongs.
pub open spec fn placeholder_token_spec(k: int) -> Seq<char> {
    "[INSERT_IMAGE_HERE_"@ + dec_digits(k) + "]"@
}

/// Builds the placeholder token for image number `k`.
pub fn placeholder_token(k: u64) -> (r: String)
    ensures
        r@ == placeholder_token_spec(k as int),
{
    let mut out = "[INSERT_IMAGE_HERE_".to_owned();
    append_u64(&mut out, k);
    out.append("]");
    proof {
        assert(out@ =~= placeholder_token_spec(k as int));
    }
    out
}

/// The token of every listed placeholder number occurs in `html` exactly
/// once.
pub open spec fn all_placeholders_once(html: Seq<char>, indices: Seq<u64>) -> bool {
    forall|i: int|
        0 <= i < indices.len() ==> count_matches(
            html,
            placeholder_token_spec(#[trigger] indices[i] as int),
        ) == 1
}

/// Validates a placeholder merge: the token of each requested placeholder
/// number must occur exactly once in the merged article.
pub fn placeholders_each_once(html: &str, indices: &Vec<u64>) -> (r: bool)
    ensures
        r == all_placeholders_once(html@, indices@),
{
    let n = indices.len();
    let mut i: usize = 0;
    while i < n
        invariant
            n == indices@.len(),
            i <= n,
            forall|k: int|
                0 <= k < i ==> count_matches(
                    html@,
                    placeholder_token_spec(#[trigger] indices@[k] as int),
                ) == 1,
        decreases n - i,
    {
        let token = placeholder_token(indices[i]);
        proof {
            reveal_strlit("[INSERT_IMAGE_HERE_");
        }
        if count_occurrences(html, token.as_str()) != 1 {
            return false;
        }
        i = i + 1;
    }
    true
}

/// Accepts a merged article only when the token of each requested
/// placeholder number occurs in it exactly once; placement is not judged,
/// only the count.
pub fn validate_merged_article(candidate: String, indices: &Vec<u64>) -> (r: Result<
    String,
    crate::ProviderError,
>)
    ensures
        all_placeholders_once(candidate@, indices@) ==> (r matches Ok(a) && a@ == candidate@),
        !all_placeholders_once(candidate@, indices@) ==> (r matches Err(e) && e is ParseError),
{
    if placeholders_each_once(candidate.as_str(), indices) {
        Ok(candidate)
    } else {
        Err(crate::ProviderError::ParseError)
    }
}

} // verus!
