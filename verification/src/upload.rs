//! The resilient media-upload procedure: filename and MIME derivation for a
//! downloaded image, the bounded retry policy under rate limiting, and the
//! per-item results of an upload batch.
//!
//! Network transfers happen outside; this module decides.  For each upload
//! attempt the caller reports the HTTP status, the response body and the
//! `Retry-After` header, and is told whether the item succeeded, failed for
//! good, or should be retried after a computed delay.
use vstd::prelude::*;

use crate::strutil::{append_u64, dec_digits};

verus! {

/// Maximum number of upload attempts for one image under rate limiting.
pub const MAX_RETRIES: u32 = 4;

/// Backoff seed: the delay before the second attempt when the provider gave
/// no usable `Retry-After` value.
pub const INITIAL_BACKOFF_SECS: u64 = 10;

/// Powers of two.
pub open spec fn pow2(k: nat) -> nat
    decreases k,
{
    if k == 0 {
        1
    } else {
        2 * pow2((k - 1) as nat)
    }
}

/// A decimal digit.
pub open spec fn is_dec_digit(c: char) -> bool {
    ('0' as int) <= (c as int) <= ('9' as int)
}

/// The numeric value of a decimal digit character.
pub open spec fn digit_val(c: char) -> int {
    (c as int) - ('0' as int)
}

/// The string is one or more decimal digits and nothing else.
pub open spec fn is_dec_digits(s: Seq<char>) -> bool {
    s.len() > 0 && forall|i: int| 0 <= i < s.len() ==> is_dec_digit(#[trigger] s[i])
}

/// The numeric value of a digit string.
pub open spec fn dec_value(s: Seq<char>) -> int
    decreases s.len(),
{
    if s.len() == 0 {
        0
    } else {
        10 * dec_value(s.drop_last()) + digit_val(s[s.len() - 1])
    }
}

/// The value of a digit string is non-negative.
pub proof fn lemma_dec_value_nonneg(s: Seq<char>)
    requires
        forall|i: int| 0 <= i < s.len() ==> is_dec_digit(#[trigger] s[i]),
    ensures
        dec_value(s) >= 0,
    decreases s.len(),
{
    if s.len() > 0 {
        lemma_dec_value_nonneg(s.drop_last());
    }
}

/// A digit string is worth at least any of its prefixes.
pub proof fn lemma_dec_value_prefix_le(s: Seq<char>, i: int)
    requires
        0 <= i <= s.len(),
        forall|k: int| 0 <= k < s.len() ==> is_dec_digit(#[trigger] s[k]),
    ensures
        dec_value(s.take(i)) <= dec_value(s),
    decreases s.len() - i,
{
    if i < s.len() {
        lemma_dec_value_prefix_le(s.drop_last(), i);
        assert(s.drop_last().take(i) =~= s.take(i));
        lemma_dec_value_nonneg(s.drop_last());
    } else {
        assert(s.take(i) =~= s);
    }
}

/// The seconds a `Retry-After` header value stands for: the value of a digit
/// string that fits in a `u64`, and nothing otherwise.
pub open spec fn parsed_retry_after(s: Seq<char>) -> Option<int> {
    if is_dec_digits(s) && dec_value(s) <= u64::MAX {
        Some(dec_value(s))
    } else {
        None
    }
}

/// Parses a `Retry-After` header value as a number of seconds.
pub fn parse_retry_after(s: &str) -> (r: Option<u64>)
    ensures
        match r {
            Some(v) => parsed_retry_after(s@) == Some(v as int),
            None => parsed_retry_after(s@) is None,
        },
{
    let len = s.unicode_len();
    if len == 0 {
        return None;
    }
    let mut i: usize = 0;
    while i < len
        invariant
            s@.len() == len,
            i <= len,
            forall|k: int| 0 <= k < i ==> is_dec_digit(#[trigger] s@[k]),
        decreases len - i,
    {
        let c = s.get_char(i);
        let code = c as u32;
        if code < 48 || code > 57 {
            return None;
        }
        i = i + 1;
    }
    let mut acc: u64 = 0;
    let mut j: usize = 0;
    while j < len
        invariant
            s@.len() == len,
            j <= len,
            forall|k: int| 0 <= k < len ==> is_dec_digit(#[trigger] s@[k]),
            acc as int == dec_value(s@.take(j as int)),
        decreases len - j,
    {
        let c = s.get_char(j);
        let d = ((c as u32) - 48) as u64;
        let acc10 = match acc.checked_mul(10) {
            Some(v) => v,
            None => {
                proof {
                    overflow_means_no_fit(s@, j as int);
                }
                return None;
            },
        };
        let next = match acc10.checked_add(d) {
            Some(v) => v,
            None => {
                proof {
                    overflow_means_no_fit(s@, j as int);
                }
                return None;
            },
        };
        proof {
            assert(s@.take(j + 1).drop_last() =~= s@.take(j as int));
            assert(s@.take(j + 1)[j as int] == s@[j as int]);
        }
        acc = next;
        j = j + 1;
    }
    proof {
        assert(s@.take(len as int) =~= s@);
    }
    Some(acc)
}

/// If one more digit no longer fits in a `u64`, the whole string's value does
/// not fit either.
proof fn overflow_means_no_fit(s: Seq<char>, j: int)
    requires
        0 <= j < s.len(),
        forall|k: int| 0 <= k < s.len() ==> is_dec_digit(#[trigger] s[k]),
        10 * dec_value(s.take(j)) + digit_val(s[j]) > u64::MAX,
    ensures
        dec_value(s) > u64::MAX,
{
    assert(s.take(j + 1).drop_last() =~= s.take(j));
    assert(s.take(j + 1)[j] == s[j]);
    assert(dec_value(s.take(j + 1)) == 10 * dec_value(s.take(j)) + digit_val(s[j]));
    lemma_dec_value_prefix_le(s, j + 1);
}

/// The delay before the next attempt after a rate-limited response: the
/// `Retry-After` seconds floored at one, or, without a usable header, an
/// exponential backoff seeded at ten seconds and doubling per attempt.
pub open spec fn backoff_delay_spec(attempt: int, retry_after: Option<int>) -> int {
    match retry_after {
        Some(secs) => if secs < 1 {
            1
        } else {
            secs
        },
        None => (INITIAL_BACKOFF_SECS as int) * pow2((attempt - 1) as nat),
    }
}

/// Computes the wait before retrying attempt `attempt + 1`.
pub fn backoff_delay(attempt: u32, retry_after: Option<u64>) -> (r: u64)
    requires
        1 <= attempt < MAX_RETRIES,
    ensures
        r as int == backoff_delay_spec(attempt as int, match retry_after {
            Some(s) => Some(s as int),
            None => None,
        }),
{
    match retry_after {
        Some(secs) => if secs < 1 {
            1
        } else {
            secs
        },
        None => {
            proof {
                assert(pow2(0) == 1);
                assert(pow2(1) == 2 * pow2(0));
                assert(pow2(2) == 2 * pow2(1));
            }
            if attempt == 1 {
                10
            } else if attempt == 2 {
                20
            } else {
                40
            }
        },
    }
}

/// Index of the first occurrence of `c` in `s`, or the length if absent.
pub open spec fn idx_of_char(s: Seq<char>, c: char) -> int
    decreases s.len(),
{
    if s.len() == 0 {
        0
    } else if s[0] == c {
        0
    } else {
        1 + idx_of_char(s.drop_first(), c)
    }
}

/// What characterizes `idx_of_char`.
pub proof fn lemma_idx_of_char_props(s: Seq<char>, c: char)
    ensures
        0 <= idx_of_char(s, c) <= s.len(),
        idx_of_char(s, c) < s.len() ==> s[idx_of_char(s, c)] == c,
        forall|k: int| 0 <= k < idx_of_char(s, c) ==> s[k] != c,
    decreases s.len(),
{
    if s.len() > 0 && s[0] != c {
        lemma_idx_of_char_props(s.drop_first(), c);
        assert forall|k: int| 0 <= k < idx_of_char(s, c) implies s[k] != c by {
            if k > 0 {
                assert(s.drop_first()[k - 1] == s[k]);
            }
        }
    }
}

/// `s` cut off at the first occurrence of `c`.
pub open spec fn cut_at_char(s: Seq<char>, c: char) -> Seq<char> {
    s.take(idx_of_char(s, c))
}

/// Position of the first occurrence of `c` in `s`, or the length if absent.
pub fn find_char(s: &str, c: char) -> (r: usize)
    ensures
        r == idx_of_char(s@, c),
        r <= s@.len(),
{
    let len = s.unicode_len();
    let mut j: usize = 0;
    while j < len && s.get_char(j) != c
        invariant
            s@.len() == len,
            j <= len,
            forall|k: int| 0 <= k < j ==> s@[k] != c,
        decreases len - j,
    {
        j = j + 1;
    }
    proof {
        lemma_idx_of_char_props(s@, c);
        let idx = idx_of_char(s@, c);
        if j < idx {
            assert(s@[j as int] == c);
        }
        if idx < j {
            assert(s@[idx] != c);
        }
    }
    j
}

/// The suffix of `s` after its last `/`, or all of `s` if it has none.
pub open spec fn after_last_slash(s: Seq<char>) -> Seq<char>
    decreases s.len(),
{
    if s.len() == 0 {
        s
    } else if s[s.len() - 1] == '/' {
        Seq::<char>::empty()
    } else {
        after_last_slash(s.drop_last()).push(s[s.len() - 1])
    }
}

/// If no character from `cut` on is a `/` and the one before `cut` (if any)
/// is, the suffix after the last slash starts at `cut`.
pub proof fn lemma_after_last_slash(s: Seq<char>, cut: int)
    requires
        0 <= cut <= s.len(),
        forall|k: int| cut <= k < s.len() ==> s[k] != '/',
        cut > 0 ==> s[cut - 1] == '/',
    ensures
        after_last_slash(s) == s.skip(cut),
    decreases s.len(),
{
    if cut == s.len() {
        if s.len() > 0 {
            assert(after_last_slash(s) =~= s.skip(cut));
        } else {
            assert(s.skip(0) =~= s);
        }
    } else {
        assert(s[s.len() - 1] != '/');
        lemma_after_last_slash(s.drop_last(), cut);
        assert(s.drop_last().skip(cut).push(s[s.len() - 1]) =~= s.skip(cut));
    }
}

/// The URL with its query and fragment parts removed.
pub open spec fn sanitized_url_path(url: Seq<char>) -> Seq<char> {
    cut_at_char(cut_at_char(url, '?'), '#')
}

/// The filename part of an image URL: the last path segment, queries and
/// fragments stripped.
pub open spec fn filename_of_url(url: Seq<char>) -> Seq<char> {
    after_last_slash(sanitized_url_path(url))
}

/// The synthetic filename used when the URL yields none.
pub open spec fn fallback_filename(now_secs: int) -> Seq<char> {
    "upload_"@ + dec_digits(now_secs) + ".png"@
}

/// The filename an upload uses: from the URL when one can be extracted, else
/// a timestamp-based synthetic name.
pub open spec fn chosen_filename(url: Seq<char>, now_secs: int) -> Seq<char> {
    if filename_of_url(url).len() > 0 {
        filename_of_url(url)
    } else {
        fallback_filename(now_secs)
    }
}

/// Derives the upload filename from the image URL; `now_secs` (a Unix
/// timestamp the caller provides) names the fallback.
pub fn derive_filename(url: &str, now_secs: u64) -> (r: String)
    ensures
        r@ == chosen_filename(url@, now_secs as int),
{
    let cut_q = find_char(url, '?');
    let no_query = url.substring_char(0, cut_q);
    proof {
        lemma_idx_of_char_props(url@, '?');
    }
    let cut_h = find_char(no_query, '#');
    let path = no_query.substring_char(0, cut_h);
    proof {
        lemma_idx_of_char_props(no_query@, '#');
        assert(path@ == sanitized_url_path(url@));
    }
    let plen = path.unicode_len();
    let mut b: usize = plen;
    while b > 0 && path.get_char(b - 1) != '/'
        invariant
            path@.len() == plen,
            b <= plen,
            forall|k: int| b <= k < plen ==> path@[k] != '/',
        decreases b,
    {
        b = b - 1;
    }
    proof {
        lemma_after_last_slash(path@, b as int);
    }
    if b < plen {
        path.substring_char(b, plen).to_owned()
    } else {
        let mut out = "upload_".to_owned();
        append_u64(&mut out, now_secs);
        out.append(".png");
        proof {
            assert(after_last_slash(path@).len() == 0);
            assert(out@ =~= fallback_filename(now_secs as int));
        }
        out
    }
}

/// What `mime_guess` derives from a filename's extension; a pure lookup, so
/// the result is a function of the name alone.
pub uninterp spec fn mime_for_name(filename: Seq<char>) -> Seq<char>;

/// Relies on `mime_guess::from_path` and `MimeGuess::first_or_octet_stream`:
/// the guess is a table lookup on the file extension, falling back to the
/// generic binary type, so it depends on the filename alone.  The extension
/// is taken by `Path::extension`, whose path syntax is the build target's, so
/// the name stands for the lookup on this build; within one build it is pure.
#[verifier::external_body]
fn guess_mime_type(filename: &str) -> (r: String)
    ensures
        r@ == mime_for_name(filename@),
{
    mime_guess::from_path(filename).first_or_octet_stream().to_string()
}

/// The `Content-Disposition` header value that attaches the file under its
/// name.
pub open spec fn content_disposition_for(filename: Seq<char>) -> Seq<char> {
    "attachment; filename=\""@ + filename + "\""@
}

/// Everything an upload request needs besides the bytes: filename, guessed
/// MIME type and the attachment header value.
pub struct UploadRequestParts {
    pub filename: String,
    pub mime_type: String,
    pub content_disposition: String,
}

/// Prepares the upload request parts for one downloaded image.
pub fn prepare_upload(url: &str, now_secs: u64) -> (r: UploadRequestParts)
    ensures
        r.filename@ == chosen_filename(url@, now_secs as int),
        r.mime_type@ == mime_for_name(chosen_filename(url@, now_secs as int)),
        r.content_disposition@ == content_disposition_for(chosen_filename(url@, now_secs as int)),
{
    let filename = derive_filename(url, now_secs);
    let mime_type = guess_mime_type(filename.as_str());
    let mut content_disposition = "attachment; filename=\"".to_owned();
    content_disposition.append(filename.as_str());
    content_disposition.append("\"");
    proof {
        assert(content_disposition@ =~= content_disposition_for(filename@));
    }
    UploadRequestParts { filename, mime_type, content_disposition }
}

/// Error text when the download request for an image could not be sent.
pub open spec fn msg_download_send_failed(url: Seq<char>, detail: Seq<char>) -> Seq<char> {
    "Failed to start download for "@ + url + ": "@ + detail
}

/// Error text when the image download answered a non-success status.
pub open spec fn msg_download_status(url: Seq<char>, status: int) -> Seq<char> {
    "Failed to download image from "@ + url + ": Status "@ + dec_digits(status)
}

/// Error text when the downloaded bytes could not be read.
pub open spec fn msg_read_bytes_failed(url: Seq<char>, detail: Seq<char>) -> Seq<char> {
    "Failed to read image bytes from "@ + url + ": "@ + detail
}

/// Error text when an upload request could not be sent.
pub open spec fn msg_send_failed(attempt: int, detail: Seq<char>) -> Seq<char> {
    "Failed to send upload request (Attempt "@ + dec_digits(attempt) + "): "@ + detail
}

/// Error text when a successful upload response did not parse.
pub open spec fn msg_parse_failed(attempt: int) -> Seq<char> {
    "Failed to parse successful WP media response (Attempt "@ + dec_digits(attempt) + ")"@
}

/// Error text when the retry budget on rate limiting is exhausted.
pub open spec fn msg_rate_limited(attempts: int) -> Seq<char> {
    "Upload failed after "@ + dec_digits(attempts) + " attempts due to rate limiting (429)."@
}

/// Error text for any other non-success upload status.
pub open spec fn msg_upstream(attempt: int, status: int, body: Seq<char>) -> Seq<char> {
    "WordPress media upload failed (Attempt "@ + dec_digits(attempt) + ") with status "@
        + dec_digits(status) + ": "@ + body
}

/// Builds `msg_download_send_failed`.
pub fn download_send_failed_message(url: &str, detail: &str) -> (r: String)
    ensures
        r@ == msg_download_send_failed(url@, detail@),
{
    let mut out = "Failed to start download for ".to_owned();
    out.append(url);
    out.append(": ");
    out.append(detail);
    proof {
        assert(out@ =~= msg_download_send_failed(url@, detail@));
    }
    out
}

/// Builds `msg_download_status`.
pub fn download_status_message(url: &str, status: u16) -> (r: String)
    ensures
        r@ == msg_download_status(url@, status as int),
{
    let mut out = "Failed to download image from ".to_owned();
    out.append(url);
    out.append(": Status ");
    append_u64(&mut out, status as u64);
    proof {
        assert(out@ =~= msg_download_status(url@, status as int));
    }
    out
}

/// Builds `msg_read_bytes_failed`.
pub fn read_bytes_failed_message(url: &str, detail: &str) -> (r: String)
    ensures
        r@ == msg_read_bytes_failed(url@, detail@),
{
    let mut out = "Failed to read image bytes from ".to_owned();
    out.append(url);
    out.append(": ");
    out.append(detail);
    proof {
        assert(out@ =~= msg_read_bytes_failed(url@, detail@));
    }
    out
}

/// Builds `msg_send_failed`.
pub fn send_failed_message(attempt: u32, detail: &str) -> (r: String)
    ensures
        r@ == msg_send_failed(attempt as int, detail@),
{
    let mut out = "Failed to send upload request (Attempt ".to_owned();
    append_u64(&mut out, attempt as u64);
    out.append("): ");
    out.append(detail);
    proof {
        assert(out@ =~= msg_send_failed(attempt as int, detail@));
    }
    out
}

/// Builds `msg_parse_failed`.
pub fn parse_failed_message(attempt: u32) -> (r: String)
    ensures
        r@ == msg_parse_failed(attempt as int),
{
    let mut out = "Failed to parse successful WP media response (Attempt ".to_owned();
    append_u64(&mut out, attempt as u64);
    out.append(")");
    proof {
        assert(out@ =~= msg_parse_failed(attempt as int));
    }
    out
}

/// Builds `msg_rate_limited`.
pub fn rate_limited_message(attempts: u32) -> (r: String)
    ensures
        r@ == msg_rate_limited(attempts as int),
{
    let mut out = "Upload failed after ".to_owned();
    append_u64(&mut out, attempts as u64);
    out.append(" attempts due to rate limiting (429).");
    proof {
        assert(out@ =~= msg_rate_limited(attempts as int));
    }
    out
}

/// Builds `msg_upstream`.
pub fn upstream_message(attempt: u32, status: u16, body: &str) -> (r: String)
    ensures
        r@ == msg_upstream(attempt as int, status as int, body@),
{
    let mut out = "WordPress media upload failed (Attempt ".to_owned();
    append_u64(&mut out, attempt as u64);
    out.append(") with status ");
    append_u64(&mut out, status as u64);
    out.append(": ");
    out.append(body);
    proof {
        assert(out@ =~= msg_upstream(attempt as int, status as int, body@));
    }
    out
}

/// The media identifier and source URL a successful CMS media response body
/// holds, as a function of the body text alone.
pub uninterp spec fn media_fields_of(body: Seq<char>) -> Option<(u64, Seq<char>)>;

/// Relies on `serde_json::from_str` and `serde_json::Value::{get, as_u64,
/// as_str}`: the numeric `id` and string `source_url` members of the response
/// body, both present or the parse fails, a deterministic function of the
/// text.
#[verifier::external_body]
fn extract_media_fields(body: &str) -> (r: Option<(u64, String)>)
    ensures
        r is Some <==> media_fields_of(body@) is Some,
        r matches Some((id, u)) ==> media_fields_of(body@) == Some((id, u@)),
{
    let v: serde_json::Value = serde_json::from_str(body).ok()?;
    let id = v.get("id")?.as_u64()?;
    let url = v.get("source_url")?.as_str()?.to_string();
    Some((id, url))
}

/// What one upload attempt decided: the item is done (well or badly), or
/// another attempt should follow after a delay.
pub enum UploadDecision {
    /// The CMS accepted the media; its identifier and URL.
    Success { media_id: u64, media_url: String },
    /// Rate limited with retry budget left: wait this many seconds, then try
    /// again.
    Retry { delay_secs: u64 },
    /// Terminal failure for this item.
    Failed { error: String },
}

/// Decides what one upload attempt's response means.
///
/// `attempt` counts from 1.  A success status with a parseable body ends the
/// item well; an unparseable body on success is terminal despite the status.
/// Status 429 asks for a retry until the attempt budget is spent, waiting as
/// `backoff_delay_spec` says; any other status is terminal.
pub fn upload_attempt_decision(
    attempt: u32,
    status: u16,
    body: &str,
    retry_after: Option<&str>,
) -> (r: UploadDecision)
    requires
        1 <= attempt <= MAX_RETRIES,
    ensures
        (status == 200 || status == 201) ==> match media_fields_of(body@) {
            Some((id, u)) => r matches UploadDecision::Success { media_id, media_url } && media_id
                == id && media_url@ == u,
            None => r matches UploadDecision::Failed { error } && error@ == msg_parse_failed(
                attempt as int,
            ),
        },
        status == 429 && attempt < MAX_RETRIES ==> (r matches UploadDecision::Retry { delay_secs }
            && delay_secs as int == backoff_delay_spec(attempt as int, match retry_after {
            Some(h) => parsed_retry_after(h@),
            None => None,
        })),
        status == 429 && attempt >= MAX_RETRIES ==> (r matches UploadDecision::Failed { error }
            && error@ == msg_rate_limited(attempt as int)),
        !(status == 200 || status == 201 || status == 429) ==> (r
            matches UploadDecision::Failed { error } && error@ == msg_upstream(
            attempt as int,
            status as int,
            body@,
        )),
        r is Retry ==> status == 429 && attempt < MAX_RETRIES,
{
    if status == 200 || status == 201 {
        match extract_media_fields(body) {
            Some((media_id, media_url)) => UploadDecision::Success { media_id, media_url },
            None => UploadDecision::Failed { error: parse_failed_message(attempt) },
        }
    } else if status == 429 {
        if attempt >= MAX_RETRIES {
            UploadDecision::Failed { error: rate_limited_message(attempt) }
        } else {
            let secs = match retry_after {
                Some(h) => parse_retry_after(h),
                None => None,
            };
            UploadDecision::Retry { delay_secs: backoff_delay(attempt, secs) }
        }
    } else {
        UploadDecision::Failed { error: upstream_message(attempt, status, body) }
    }
}

/// The terminal outcome the caller's per-item procedure reached for one image.
pub enum UploadOutcome {
    /// The media was stored: its identifier and URL on the CMS.
    Uploaded { media_id: u64, media_url: String },
    /// The item failed; the error text says where.
    NotUploaded { error: String },
}

/// One record of an upload batch, mirroring one input URL.
pub struct ImageUploadResult {
    pub original_url: String,
    pub success: bool,
    pub error: Option<String>,
    pub wordpress_media_id: Option<u64>,
    pub wordpress_media_url: Option<String>,
}

/// The result record that reports `outcome` for the image at `url`.
pub open spec fn result_reflects_outcome(
    r: ImageUploadResult,
    url: Seq<char>,
    outcome: UploadOutcome,
) -> bool {
    &&& r.original_url@ == url
    &&& match outcome {
        UploadOutcome::Uploaded { media_id, media_url } => {
            &&& r.success == true
            &&& r.error is None
            &&& r.wordpress_media_id == Some(media_id)
            &&& r.wordpress_media_url matches Some(u) && u@ == media_url@
        },
        UploadOutcome::NotUploaded { error } => {
            &&& r.success == false
            &&& r.error matches Some(e) && e@ == error@
            &&& r.wordpress_media_id is None
            &&& r.wordpress_media_url is None
        },
    }
}

/// Collects per-item outcomes into the batch's result list: one record per
/// input URL, in input order, whatever subset failed.
pub fn assemble_upload_results(urls: &Vec<String>, outcomes: &Vec<UploadOutcome>) -> (r: Vec<
    ImageUploadResult,
>)
    requires
        outcomes@.len() == urls@.len(),
    ensures
        r@.len() == urls@.len(),
        forall|i: int|
            0 <= i < r@.len() ==> result_reflects_outcome(
                #[trigger] r@[i],
                urls@[i]@,
                outcomes@[i],
            ),
{
    let n = urls.len();
    let mut out: Vec<ImageUploadResult> = Vec::new();
    let mut i: usize = 0;
    while i < n
        invariant
            n == urls@.len(),
            outcomes@.len() == n,
            i <= n,
            out@.len() == i,
            forall|k: int|
                0 <= k < i ==> result_reflects_outcome(
                    #[trigger] out@[k],
                    urls@[k]@,
                    outcomes@[k],
                ),
        decreases n - i,
    {
        let original_url = urls[i].clone();
        let rec = match &outcomes[i] {
            UploadOutcome::Uploaded { media_id, media_url } => ImageUploadResult {
                original_url,
                success: true,
                error: None,
                wordpress_media_id: Some(*media_id),
                wordpress_media_url: Some(media_url.clone()),
            },
            UploadOutcome::NotUploaded { error } => ImageUploadResult {
                original_url,
                success: false,
                error: Some(error.clone()),
                wordpress_media_id: None,
                wordpress_media_url: None,
            },
        };
        out.push(rec);
        i = i + 1;
    }
    out
}

} // verus!
