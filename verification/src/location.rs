//! Where an object lies, and which objects a JSON listing names.

use regex::Regex;
use vstd::prelude::*;

verus! {

/// The form of an S3 location: the bucket, then the object with its leading slash.
pub const S3_FORMAT: &'static str =
    r#"[sS]3://(?P<bucket>[A-Za-z0-9\-\._]+)(?P<object>[A-Za-z0-9\-\._/]*)"#;

/// The form of one entry of a JSON listing: the name of the object, then the rest of the entry.
pub const RESPONSE_FORMAT: &'static str = r#""Contents":\["([A-Za-z0-9\-\._]+?)"(.*?)\]"#;

/// A bucket and an object in it.
pub struct Location {
    /// The name of the bucket.
    pub bucket: String,
    /// The object with its leading slash, or nothing where the location names the bucket alone.
    pub object: String,
}

/// A character that the name of a bucket may hold.
pub open spec fn bucket_char(c: char) -> bool {
    ||| 'A' <= c <= 'Z'
    ||| 'a' <= c <= 'z'
    ||| '0' <= c <= '9'
    ||| c == '-'
    ||| c == '.'
    ||| c == '_'
}

/// A character that the name of an object may hold.
pub open spec fn object_char(c: char) -> bool {
    bucket_char(c) || c == '/'
}

/// The longest beginning of `text` whose characters all satisfy `p`.
pub open spec fn leading(text: Seq<char>, p: spec_fn(char) -> bool) -> Seq<char>
    decreases text.len(),
{
    if text.len() > 0 && p(text[0]) {
        seq![text[0]] + leading(text.skip(1), p)
    } else {
        Seq::empty()
    }
}

/// Whether an S3 location starts where `text` starts.
pub open spec fn starts_location(text: Seq<char>) -> bool {
    &&& text.len() > 5
    &&& text[0] == 's' || text[0] == 'S'
    &&& text.subrange(1, 5) == seq!['3', ':', '/', '/']
    &&& bucket_char(text[5])
}

/// The first S3 location in `text`, as the bucket and the object: each is as long as it can be.
pub open spec fn s3_location(text: Seq<char>) -> Option<(Seq<char>, Seq<char>)>
    decreases text.len(),
{
    if text.len() == 0 {
        None
    } else if starts_location(text) {
        let bucket = leading(text.skip(5), |c: char| bucket_char(c));
        let object = leading(text.skip((5 + bucket.len()) as int), |c: char| object_char(c));
        Some((bucket, object))
    } else {
        s3_location(text.skip(1))
    }
}

/// The first group pair that a pattern captures in a text, by `regex::Regex::captures`.
///
/// Of the pattern [`S3_FORMAT`] the claim is that its leftmost match is the first place where
/// `s3://` or `S3://` is followed by a character of a bucket's name, and that both groups, being
/// greedy, run as far as their characters do.
#[verifier::external_body]
fn first_captures(pattern: &str, text: &str) -> (r: Option<(String, String)>)
    requires
        pattern@ == S3_FORMAT@,
    ensures
        r.deep_view() == s3_location(text@),
{
    let found = Regex::new(pattern).unwrap();
    let groups = found.captures(text);
    groups.map(|c| (c[1].to_string(), c[2].to_string()))
}

/// Finds the S3 location that a text names.
pub fn locate(text: &str) -> (r: Option<Location>)
    ensures
        r is Some <==> s3_location(text@) is Some,
        r matches Some(at) ==> s3_location(text@) == Some((at.bucket@, at.object@)),
{
    match first_captures(S3_FORMAT, text) {
        Some((bucket, object)) => Some(Location { bucket, object }),
        None => None,
    }
}

/// The name that an entry of a JSON listing gives where `text` starts with such an entry, and the
/// number of characters of the entry.
pub open spec fn contents_entry(text: Seq<char>) -> Option<(Seq<char>, nat)> {
    let opening = "\"Contents\":[\""@;
    let name = leading(text.skip(opening.len() as int), |c: char| bucket_char(c));
    let rest = text.skip((opening.len() + name.len()) as int);
    let filler = leading(rest.skip(1), |c: char| c != ']' && c != '\n');
    let end = opening.len() + name.len() + 1 + filler.len();
    if opening.is_prefix_of(text) && name.len() > 0 && rest.len() > 0 && rest[0] == '"'
        && end < text.len() && text[end as int] == ']' {
        Some((name, end + 1))
    } else {
        None
    }
}

/// The names that the entries of a JSON listing give, in order: each entry is sought where the
/// one before it ended.
pub open spec fn contents_names(text: Seq<char>) -> Seq<Seq<char>>
    decreases text.len(),
{
    if text.len() == 0 {
        Seq::empty()
    } else {
        match contents_entry(text) {
            Some((name, end)) => seq![name] + contents_names(text.skip(end as int)),
            None => contents_names(text.skip(1)),
        }
    }
}

/// The first group of each match of a pattern in a text, by `regex::Regex::captures_iter`.
///
/// Of the pattern [`RESPONSE_FORMAT`] the claim is that its successive matches that do not overlap
/// are the entries of the listing: the opening, a name that runs up to the next quotation mark, and
/// what follows up to the next closing bracket on the same line.
#[verifier::external_body]
fn all_captures(pattern: &str, text: &str) -> (r: Vec<String>)
    requires
        pattern@ == RESPONSE_FORMAT@,
    ensures
        r.deep_view() == contents_names(text@),
{
    let found = Regex::new(pattern).unwrap();
    found.captures_iter(text).map(|c| c[1].to_string()).collect()
}

/// The names of the objects in a JSON listing of a bucket.
pub fn contents(text: &str) -> (r: Vec<String>)
    ensures
        r.deep_view() == contents_names(text@),
{
    all_captures(RESPONSE_FORMAT, text)
}

} // verus!
