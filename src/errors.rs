//! Turning a provider's wrapped error text into a short message for people.
use vstd::prelude::*;
use crate::text::{find_seq, find_vec, from_chars, slice_vec, to_chars, trim_seq, trim_vec};

verus! {

/// What `serde_json` finds at `outer.inner` of the JSON document `text`:
/// `None` where the text is no JSON, or the field is missing or no string.
pub uninterp spec fn json_str_at_of(text: Seq<char>, outer: Seq<char>, inner: Seq<char>) -> Option<Seq<char>>;

/// Relies on `serde_json::from_str` and `Value::get` / `Value::as_str`: parses
/// `text` and reads the string at `outer.inner`.
#[verifier::external_body]
fn json_str_at(text: &str, outer: &str, inner: &str) -> (r: Option<String>)
    ensures
        json_str_at_of(text@, outer@, inner@) == (match r {
            Some(m) => Some(m@),
            None => None::<Seq<char>>,
        }),
{
    let v: serde_json::Value = serde_json::from_str(text).ok()?;
    let m = v.get(outer)?.get(inner)?.as_str()?;
    Some(m.to_string())
}

/// `s` cut before the first `marker` and trimmed; `s` itself where no marker stands.
pub open spec fn cut_before(s: Seq<char>, marker: Seq<char>) -> Seq<char> {
    match find_seq(s, marker) {
        Some(i) => trim_seq(s.subrange(0, i)),
        None => s,
    }
}

/// `s` without its trailing full stops.
pub open spec fn strip_trailing_dots(s: Seq<char>) -> Seq<char>
    decreases s.len(),
{
    if s.len() > 0 && s.last() == '.' {
        strip_trailing_dots(s.drop_last())
    } else {
        s
    }
}

/// A provider message without the "for more information" boilerplate, links
/// and trailing full stops.
pub open spec fn clean_message(m: Seq<char>) -> Seq<char> {
    let a = cut_before(trim_seq(m), "For more information"@);
    let b = cut_before(a, "for more information"@);
    let c = cut_before(b, "http://"@);
    let d = cut_before(c, "https://"@);
    trim_seq(strip_trailing_dots(d))
}

/// The marker that precedes the JSON payload in a wrapped provider error.
pub open spec fn payload_marker() -> Seq<char> {
    "with message:"@
}

/// The JSON text that follows the marker in `err`, from its first `{` on.
pub open spec fn error_payload(err: Seq<char>) -> Option<Seq<char>> {
    match find_seq(err, payload_marker()) {
        None => None,
        Some(i) => {
            let part = trim_seq(err.subrange(i + payload_marker().len(), err.len() as int));
            match find_seq(part, "{"@) {
                None => None,
                Some(j) => Some(trim_seq(part.subrange(j, part.len() as int))),
            }
        },
    }
}

/// The cleaned message, where it is not empty.
pub open spec fn cleaned_nonempty(m: Option<Seq<char>>) -> Option<Seq<char>> {
    match m {
        None => None,
        Some(m) => if clean_message(m).len() == 0 {
            None
        } else {
            Some(clean_message(m))
        },
    }
}

/// The message that the sanitiser extracts from `err`, if any.
pub open spec fn extracted_message(err: Seq<char>) -> Option<Seq<char>> {
    match error_payload(err) {
        None => None,
        Some(t) => cleaned_nonempty(json_str_at_of(t, "error"@, "message"@)),
    }
}

/// What the sanitiser shows for `err`.
pub open spec fn sanitized(err: Seq<char>) -> Seq<char> {
    match extracted_message(err) {
        Some(m) => m,
        None => err,
    }
}

pub open spec fn opt_view(o: Option<String>) -> Option<Seq<char>> {
    match o {
        Some(s) => Some(s@),
        None => None,
    }
}

/// `v` cut before the first `marker` and trimmed.
fn cut_before_vec(v: Vec<char>, marker: &str) -> (r: Vec<char>)
    ensures
        r@ == cut_before(v@, marker@),
{
    let m = to_chars(marker);
    match find_vec(&v, &m) {
        Some(i) => {
            let head = slice_vec(&v, 0, i);
            trim_vec(&head)
        },
        None => v,
    }
}

/// Cleans a provider's error message: trims it, cuts it before any "For more
/// information" boilerplate or link, and drops trailing full stops.
pub fn clean_provider_message(msg: &str) -> (r: String)
    ensures
        r@ == clean_message(msg@),
{
    let v = to_chars(msg);
    let a = cut_before_vec(trim_vec(&v), "For more information");
    let b = cut_before_vec(a, "for more information");
    let c = cut_before_vec(b, "http://");
    let d = cut_before_vec(c, "https://");
    let mut n = d.len();
    assert(d@.subrange(0, d@.len() as int) == d@);
    while n > 0 && d[n - 1] == '.'
        invariant
            n <= d@.len(),
            strip_trailing_dots(d@) == strip_trailing_dots(d@.subrange(0, n as int)),
        decreases n,
    {
        assert(d@.subrange(0, n as int).drop_last() == d@.subrange(0, n - 1));
        n = n - 1;
    }
    let e = slice_vec(&d, 0, n);
    from_chars(&trim_vec(&e))
}

/// Finds the JSON payload in a wrapped provider error: the text after the
/// first "with message:", from its first `{` on, trimmed.
pub fn locate_error_payload(err: &str) -> (r: Option<String>)
    ensures
        opt_view(r) == error_payload(err@),
{
    let v = to_chars(err);
    let marker = to_chars("with message:");
    let i = match find_vec(&v, &marker) {
        Some(i) => i,
        None => return None,
    };
    let vl = v.len();
    let part = trim_vec(&slice_vec(&v, i + marker.len(), vl));
    let brace = to_chars("{");
    let j = match find_vec(&part, &brace) {
        Some(j) => j,
        None => return None,
    };
    Some(from_chars(&trim_vec(&slice_vec(&part, j, part.len()))))
}

/// The cleaned form of a message read from an error payload, where it is not empty.
pub fn message_from_payload(m: Option<String>) -> (r: Option<String>)
    ensures
        opt_view(r) == cleaned_nonempty(opt_view(m)),
{
    match m {
        None => None,
        Some(m) => {
            let cleaned = clean_provider_message(m.as_str());
            if cleaned.as_str().is_empty() {
                None
            } else {
                Some(cleaned)
            }
        },
    }
}

/// The message carried in a wrapped provider error, if it has one.
pub fn try_extract_error_message_from_rig_error_text(err: &str) -> (r: Option<String>)
    ensures
        opt_view(r) == extracted_message(err@),
{
    match locate_error_payload(err) {
        None => None,
        Some(t) => message_from_payload(json_str_at(t.as_str(), "error", "message")),
    }
}

/// The text to show for a failed request: the provider's own message where
/// one can be extracted, the raw error otherwise.
pub fn sanitize_error(err: &str) -> (r: String)
    ensures
        r@ == sanitized(err@),
{
    match try_extract_error_message_from_rig_error_text(err) {
        Some(m) => m,
        None => from_chars(&to_chars(err)),
    }
}

} // verus!
