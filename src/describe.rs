//! The description that a mirrored event gets: a link back to the source
//! page, the cleaned and shortened source text, and the marker.
use vstd::prelude::*;
use crate::marker::{marker, marker_text};
use crate::text::{bytes_left, chars_of, fit_bytes, fitting_prefix_len, strip_carriage_returns, utf8_len, without_cr, lemma_fit_bytes_bounds, lemma_utf8_len_concat, lemma_utf8_len_is_encoded_len, lemma_prefix_ends_on_boundary};
use vstd::utf8::{encode_utf8, is_char_boundary};
use crate::tmp_response::EventIndex;

verus! {

/// Largest size, in bytes, of a published description.
pub const DESCRIPTION_LIMIT: usize = 1000;

/// A markdown image: `!`, an optional bracketed alt text, a parenthesised
/// address.
pub const MARKDOWN_IMAGE_PATTERN: &'static str = r"!(\[[^\]]*\])?\([^)]*\)";

/// What is left of `text` once every match of the regular expression
/// `pattern` is removed.
pub uninterp spec fn matches_removed(pattern: Seq<char>, text: Seq<char>) -> Seq<char>;

/// Relies on `regex::Regex::new` and `regex::Regex::replace_all` with an
/// empty replacement: the result depends on the pattern and the text alone.
/// A pattern that does not compile leaves the text as it is.
#[verifier::external_body]
fn remove_matches(pattern: &str, text: &str) -> (r: String)
    ensures
        r@ == matches_removed(pattern@, text@),
{
    match regex::Regex::new(pattern) {
        Ok(re) => re.replace_all(text, "").into_owned(),
        Err(_) => text.to_string(),
    }
}

/// Head of the description: a link to the event's page.
pub open spec fn description_prefix(url: Seq<char>) -> Seq<char> {
    "[See on TruckersMP](https://truckersmp.com"@ + url + ")\n\n"@
}

/// Tail of the description: a blank line and the marker.
pub open spec fn description_suffix(id: u64) -> Seq<char> {
    "\n\n"@ + marker(id)
}

/// The source text without carriage returns and markdown images.
pub open spec fn cleaned_body(text: Seq<char>) -> Seq<char> {
    matches_removed(MARKDOWN_IMAGE_PATTERN@, without_cr(text))
}

/// Bytes left for the body once head and tail are paid, none when they
/// alone exceed the limit.
pub open spec fn body_budget(prefix: Seq<char>, suffix: Seq<char>) -> nat {
    if utf8_len(prefix) + utf8_len(suffix) <= DESCRIPTION_LIMIT {
        (DESCRIPTION_LIMIT - utf8_len(prefix) - utf8_len(suffix)) as nat
    } else {
        0
    }
}

/// Head, body cut to the budget on a character boundary, tail.
pub open spec fn assembled(prefix: Seq<char>, body: Seq<char>, suffix: Seq<char>) -> Seq<char> {
    prefix + fit_bytes(body, body_budget(prefix, suffix)) + suffix
}

/// The description published for a source event.
pub open spec fn description_of(e: EventIndex) -> Seq<char> {
    assembled(
        description_prefix(e.url@),
        cleaned_body(e.description@),
        description_suffix(e.id),
    )
}

/// Joins head, body and tail, cutting the body from its end so that the
/// whole stays within the limit where head and tail allow it.
pub fn assemble_description(prefix: &str, body: &str, suffix: &str) -> (r: String)
    ensures
        r@ == assembled(prefix@, body@, suffix@),
{
    let pc = chars_of(prefix);
    let sc = chars_of(suffix);
    let bc = chars_of(body);
    let after_prefix = bytes_left(DESCRIPTION_LIMIT, &pc);
    let budget = bytes_left(after_prefix, &sc);
    assert(budget == body_budget(prefix@, suffix@));
    let k = fitting_prefix_len(&bc, budget);
    let mut r = String::from_str(prefix);
    r.append(body.substring_char(0, k));
    r.append(suffix);
    assert(body@.subrange(0, k as int) =~= body@.take(k as int));
    r
}

/// Head of the description for the event page `url`.
pub fn make_prefix(url: &str) -> (r: String)
    ensures
        r@ == description_prefix(url@),
{
    let mut r = String::from_str("[See on TruckersMP](https://truckersmp.com");
    r.append(url);
    r.append(")\n\n");
    assert(r@ =~= description_prefix(url@));
    r
}

/// Tail of the description for the source event `id`.
pub fn make_suffix(id: u64) -> (r: String)
    ensures
        r@ == description_suffix(id),
{
    let mut r = String::from_str("\n\n");
    let m = marker_text(id);
    r.append(m.as_str());
    r
}

/// The source text without carriage returns and markdown images.
pub fn clean_body(text: &str) -> (r: String)
    ensures
        r@ == cleaned_body(text@),
{
    let no_cr = strip_carriage_returns(text);
    remove_matches(MARKDOWN_IMAGE_PATTERN, no_cr.as_str())
}

/// The description published for a source event.
pub fn event_description(e: &EventIndex) -> (r: String)
    ensures
        r@ == description_of(*e),
{
    let prefix = make_prefix(e.url.as_str());
    let suffix = make_suffix(e.id);
    let body = clean_body(e.description.as_str());
    assemble_description(prefix.as_str(), body.as_str(), suffix.as_str())
}

/// Where head and tail leave room, the description fits the limit in bytes;
/// its body is a prefix of whole characters of the given body, so the cut
/// falls on a character boundary of the body's encoding; the body is kept
/// whole when it fits, and one character more would not fit.
pub proof fn lemma_description_within_limit(prefix: Seq<char>, body: Seq<char>, suffix: Seq<char>)
    requires
        utf8_len(prefix) + utf8_len(suffix) <= DESCRIPTION_LIMIT,
    ensures
        ({
            let kept = fit_bytes(body, body_budget(prefix, suffix));
            &&& assembled(prefix, body, suffix) == prefix + kept + suffix
            &&& utf8_len(assembled(prefix, body, suffix)) <= DESCRIPTION_LIMIT
            &&& encode_utf8(assembled(prefix, body, suffix)).len() <= DESCRIPTION_LIMIT
            &&& kept == body.take(kept.len() as int)
            &&& is_char_boundary(encode_utf8(body), encode_utf8(kept).len() as int)
            &&& utf8_len(prefix + body + suffix) <= DESCRIPTION_LIMIT ==> kept == body
            &&& kept.len() < body.len() ==> utf8_len(
                prefix + body.take(kept.len() + 1int) + suffix,
            ) > DESCRIPTION_LIMIT
        }),
{
    let budget = body_budget(prefix, suffix);
    let kept = fit_bytes(body, budget);
    lemma_fit_bytes_bounds(body, budget);
    lemma_utf8_len_is_encoded_len(assembled(prefix, body, suffix));
    lemma_prefix_ends_on_boundary(body, kept.len() as int);
    lemma_utf8_len_concat(prefix, kept);
    lemma_utf8_len_concat(prefix + kept, suffix);
    lemma_utf8_len_concat(prefix, body);
    lemma_utf8_len_concat(prefix + body, suffix);
    if kept.len() < body.len() {
        let longer = body.take(kept.len() + 1int);
        lemma_utf8_len_concat(prefix, longer);
        lemma_utf8_len_concat(prefix + longer, suffix);
    }
}

} // verus!
