//! What holds of texts: how they are compared, cut, found and written.

use crate::location::Location;
use vstd::prelude::*;

verus! {

/// The number that digits write.
pub open spec fn number_of(digits: Seq<char>) -> int
    decreases digits.len(),
{
    if digits.len() == 0 {
        0
    } else {
        number_of(digits.drop_last()) * 10 + (digits.last() as int - '0' as int)
    }
}

/// What writes a number in decimal reads back as the number. It is made of digits, and no zero leads.
pub proof fn law_decimal_reads_back(n: nat)
    ensures
        crate::text::decimal(n).len() > 0,
        number_of(crate::text::decimal(n)) == n,
        forall|i: int|
            0 <= i < crate::text::decimal(n).len() ==> '0' <= #[trigger] crate::text::decimal(n)[i]
                <= '9',
        n > 0 ==> crate::text::decimal(n)[0] != '0',
    decreases n,
{
    let digits = crate::text::decimal(n);
    if n < 10 {
        assert(digits.drop_last() =~= Seq::empty());
        assert(number_of(digits.drop_last()) == 0);
    } else {
        law_decimal_reads_back(n / 10);
        assert(digits.drop_last() =~= crate::text::decimal(n / 10));
    }
}

/// A number that is written reads back as it was. It is written in digits, without leading zeros.
pub proof fn law_number_reads_back(n: u64, r: String)
    requires
        call_ensures(crate::text::number, (n,), r),
    ensures
        number_of(r@) == n,
        r@.len() > 0,
        forall|i: int| 0 <= i < r@.len() ==> '0' <= #[trigger] r@[i] <= '9',
        r@[0] == '0' ==> n == 0 && r@.len() == 1,
{
    law_decimal_reads_back(n as nat);
}

/// Texts are the same where they hold the same characters.
pub proof fn law_same_texts(a: &str, b: &str, r: bool)
    requires
        call_ensures(crate::text::same, (a, b), r),
    ensures
        r <==> a@.len() == b@.len() && forall|i: int| 0 <= i < a@.len() ==> a@[i] == b@[i],
{
    if r {
    } else if a@.len() == b@.len() && forall|i: int| 0 <= i < a@.len() ==> a@[i] == b@[i] {
        assert(a@ =~= b@);
    }
}

/// A text starts with another one where something makes the other one into it.
pub proof fn law_text_starts(text: &str, prefix: &str, r: bool)
    requires
        call_ensures(crate::text::starts_with, (text, prefix), r),
    ensures
        r <==> exists|rest: Seq<char>| text@ == #[trigger] (prefix@ + rest),
{
    if r {
        assert(text@ =~= prefix@ + text@.skip(prefix@.len() as int));
    }
    if exists|rest: Seq<char>| text@ == #[trigger] (prefix@ + rest) {
        let rest = choose|rest: Seq<char>| text@ == #[trigger] (prefix@ + rest);
        assert(prefix@ =~= text@.subrange(0, prefix@.len() as int));
    }
}

/// A text ends with another one where something before it makes the other one into it.
pub proof fn law_text_ends(text: &str, suffix: &str, r: bool)
    requires
        call_ensures(crate::text::ends_with, (text, suffix), r),
    ensures
        r <==> exists|rest: Seq<char>| text@ == #[trigger] (rest + suffix@),
{
    if r {
        assert(text@ =~= text@.take(text@.len() - suffix@.len()) + suffix@);
    }
    if exists|rest: Seq<char>| text@ == #[trigger] (rest + suffix@) {
        let rest = choose|rest: Seq<char>| text@ == #[trigger] (rest + suffix@);
        assert(suffix@ =~= text@.subrange(text@.len() - suffix@.len(), text@.len() as int));
    }
}

/// Bytes are the encoding of the text that they are read as, where any text encodes them; otherwise
/// they are read as nothing.
pub proof fn law_bytes_are_text(body: Seq<u8>)
    ensures
        vstd::utf8::valid_utf8(body) ==> vstd::utf8::encode_utf8(crate::text::body_text(body))
            == body,
        !vstd::utf8::valid_utf8(body) ==> crate::text::body_text(body).len() == 0,
{
    if vstd::utf8::valid_utf8(body) {
        vstd::utf8::decode_utf8_encode_utf8(body);
    }
}

/// The text of a body encodes the body, where anything does; otherwise there is none.
pub proof fn law_body_is_text(body: Vec<u8>, r: &str)
    requires
        call_ensures(crate::text::text_of, (&body,), r),
    ensures
        vstd::utf8::valid_utf8(body@) ==> vstd::utf8::encode_utf8(r@) == body@,
        !vstd::utf8::valid_utf8(body@) ==> r@.len() == 0,
{
    law_bytes_are_text(body@);
}

/// Cutting a text loses nothing but the character that it is cut at, which what comes before is free
/// of.
pub proof fn law_cut_loses_nothing(text: Seq<char>, at: char)
    ensures
        crate::laws::free_of(crate::url::cut(text, at).0, at),
        match crate::url::cut(text, at).1 {
            Some(behind) => text == crate::url::cut(text, at).0 + seq![at] + behind,
            None => text == crate::url::cut(text, at).0,
        },
    decreases text.len(),
{
    if text.len() > 0 && text[0] != at {
        let rest = text.skip(1);
        law_cut_loses_nothing(rest, at);
        let (before, behind) = crate::url::cut(rest, at);
        let whole = seq![text[0]] + before;
        assert forall|i: int| 0 <= i < whole.len() implies whole[i] != at by {
            if i > 0 {
                assert(whole[i] == before[i - 1]);
            }
        }
        assert(text =~= seq![text[0]] + rest);
        match behind {
            Some(behind) => assert(text =~= whole + seq![at] + behind),
            None => assert(text =~= whole),
        }
    } else if text.len() > 0 {
        assert(text =~= Seq::empty() + seq![at] + text.skip(1));
    } else {
        assert(text =~= Seq::empty());
    }
}

/// A text is cut at the first place of a character, and nothing is lost but that character.
pub proof fn law_cut_is_at_the_first_place(text: &str, at: char, r: (&str, Option<&str>))
    requires
        call_ensures(crate::url::cut_at, (text, at), r),
    ensures
        crate::laws::free_of(r.0@, at),
        match r.1 {
            Some(behind) => text@ == r.0@ + seq![at] + behind@,
            None => text@ == r.0@,
        },
{
    law_cut_loses_nothing(text@, at);
    assert((r.0@, r.1.deep_view()) == crate::url::cut(text@, at));
}

/// A part of a query without an equals sign is a name without a value.
pub proof fn law_part_without_value(part: Seq<char>)
    requires
        crate::laws::free_of(part, '='),
    ensures
        crate::url::query_pair(part) == (part, Seq::<char>::empty()),
{
    crate::url::lemma_cut_none(part, '=');
}

/// The value of a part of a query ends at a second equals sign.
pub proof fn law_part_with_value(name: Seq<char>, value: Seq<char>, more: Seq<char>)
    requires
        crate::laws::free_of(name, '='),
        crate::laws::free_of(value, '='),
    ensures
        crate::url::query_pair(name + seq!['='] + value) == (name, value),
        crate::url::query_pair(name + seq!['='] + (value + seq!['='] + more)) == (name, value),
{
    crate::laws::lemma_query_pair_of(name, value);
    crate::laws::lemma_cut_of(name, '=', value + seq!['='] + more);
    crate::laws::lemma_cut_of(value, '=', more);
}

/// Every ampersand starts a further part of a query, and the parts keep their order.
pub proof fn law_parts_of_a_query(part: Seq<char>, rest: Seq<char>)
    requires
        crate::laws::free_of(part, '&'),
    ensures
        crate::url::query_pairs(part) == seq![crate::url::query_pair(part)],
        crate::url::query_pairs(part + seq!['&'] + rest) == seq![crate::url::query_pair(part)]
            + crate::url::query_pairs(rest),
{
    crate::url::lemma_cut_none(part, '&');
    crate::laws::lemma_cut_of(part, '&', rest);
}

/// What stands behind the first question mark of an address is its query, and what stands before it
/// its path.
pub proof fn law_address_parts(
    url: &str,
    r: (String, Vec<(String, String)>),
    path: Seq<char>,
    query: Seq<char>,
)
    requires
        call_ensures(crate::url::parts_of, (url,), r),
        crate::laws::free_of(path, '?'),
    ensures
        url@ == path + seq!['?'] + query ==> r.0@ == path && r.1.deep_view()
            == crate::url::query_pairs(query),
        url@ == path ==> r.0@ == path && r.1@.len() == 0,
{
    crate::laws::lemma_cut_of(path, '?', query);
    crate::url::lemma_cut_none(path, '?');
    assert((r.0@, r.1.deep_view()) == crate::url::split_url(url@));
    assert(r.1.deep_view().len() == r.1@.len());
}

/// The characters of the name of a bucket are the letters and digits of ASCII, hyphens, dots and
/// underscores; that of an object may hold slashes too.
pub proof fn law_characters_of_names(c: char)
    ensures
        crate::location::bucket_char(c) <==> 'a' <= c <= 'z' || 'A' <= c <= 'Z' || '0' <= c <= '9'
            || c == '-' || c == '.' || c == '_',
        crate::location::object_char(c) <==> crate::location::bucket_char(c) || c == '/',
{
}

/// The leading characters of a kind are those up to the first that is of another kind.
pub proof fn law_leading_characters(text: Seq<char>, p: spec_fn(char) -> bool, n: int)
    requires
        0 <= n <= text.len(),
        forall|i: int| 0 <= i < n ==> p(#[trigger] text[i]),
        n < text.len() ==> !p(text[n]),
    ensures
        crate::location::leading(text, p) == text.take(n),
{
    let run = text.take(n);
    let rest = text.skip(n);
    assert(text =~= run + rest);
    assert forall|i: int| 0 <= i < run.len() implies p(#[trigger] run[i]) by {
        assert(run[i] == text[i]);
    }
    crate::laws::lemma_leading_of(run, rest, p);
}

/// A location starts with `s3://` or `S3://` and a character of the name of a bucket.
pub proof fn law_location_starts(text: Seq<char>)
    ensures
        crate::location::starts_location(text) <==> text.len() >= 6 && (text[0] == 's' || text[0]
            == 'S') && text[1] == '3' && text[2] == ':' && text[3] == '/' && text[4] == '/'
            && crate::location::bucket_char(text[5]),
{
    let middle = text.subrange(1, 5);
    if crate::location::starts_location(text) {
        assert(middle[0] == '3' && middle[1] == ':' && middle[2] == '/' && middle[3] == '/');
        assert(middle[0] == text[1] && middle[1] == text[2] && middle[2] == text[3] && middle[3]
            == text[4]);
    } else if text.len() >= 6 && text[1] == '3' && text[2] == ':' && text[3] == '/' && text[4]
        == '/' {
        assert(middle =~= seq!['3', ':', '/', '/']);
    }
}

proof fn lemma_location_from(text: Seq<char>, i: int)
    requires
        0 <= i <= text.len(),
        forall|j: int| 0 <= j < i ==> !crate::location::starts_location(#[trigger] text.skip(j)),
    ensures
        crate::location::s3_location(text) == crate::location::s3_location(text.skip(i)),
    decreases i,
{
    if i == 0 {
        assert(text.skip(0) =~= text);
    } else {
        assert(text.skip(0) =~= text);
        assert(!crate::location::starts_location(text.skip(0)));
        let rest = text.skip(1);
        assert forall|j: int| 0 <= j < i - 1 implies !crate::location::starts_location(
            #[trigger] rest.skip(j),
        ) by {
            assert(rest.skip(j) =~= text.skip(j + 1));
        }
        lemma_location_from(rest, i - 1);
        assert(rest.skip(i - 1) =~= text.skip(i));
    }
}

/// The location that a text names is the first that starts in it, whatever stands before it. Bucket
/// and object run up to the first character that is none of theirs.
pub proof fn law_location_is_the_first(text: &str, r: Option<Location>, i: int, j: int, k: int)
    requires
        call_ensures(crate::location::locate, (text,), r),
        0 <= i && i + 5 <= j <= k <= text@.len(),
        forall|n: int|
            0 <= n < i ==> !crate::location::starts_location(#[trigger] text@.skip(n)),
        crate::location::starts_location(text@.skip(i)),
        forall|n: int| i + 5 <= n < j ==> crate::location::bucket_char(#[trigger] text@[n]),
        j < text@.len() ==> !crate::location::bucket_char(text@[j]),
        forall|n: int| j <= n < k ==> crate::location::object_char(#[trigger] text@[n]),
        k < text@.len() ==> !crate::location::object_char(text@[k]),
    ensures
        r matches Some(at) && at.bucket@ == text@.subrange(i + 5, j) && at.object@
            == text@.subrange(j, k),
{
    lemma_location_from(text@, i);
    let here = text@.skip(i);
    let named = |c: char| crate::location::bucket_char(c);
    let placed = |c: char| crate::location::object_char(c);
    let rest = here.skip(5);
    assert forall|n: int| 0 <= n < j - i - 5 implies named(#[trigger] rest[n]) by {
        assert(rest[n] == text@[n + i + 5]);
    }
    if j < text@.len() {
        assert(rest[j - i - 5] == text@[j]);
    }
    law_leading_characters(rest, named, j - i - 5);
    let bucket = crate::location::leading(rest, named);
    assert(bucket =~= text@.subrange(i + 5, j));
    let last = here.skip((5 + bucket.len()) as int);
    assert forall|n: int| 0 <= n < k - j implies placed(#[trigger] last[n]) by {
        assert(last[n] == text@[n + j]);
    }
    if k < text@.len() {
        assert(last[k - j] == text@[k]);
    }
    law_leading_characters(last, placed, k - j);
    assert(crate::location::leading(last, placed) =~= text@.subrange(j, k));
}

/// A text in which no location starts names none.
pub proof fn law_text_without_location(text: &str, r: Option<Location>)
    requires
        call_ensures(crate::location::locate, (text,), r),
        forall|n: int|
            0 <= n < text@.len() ==> !crate::location::starts_location(#[trigger] text@.skip(n)),
    ensures
        r is None,
{
    lemma_location_from(text@, text@.len() as int);
    assert(text@.skip(text@.len() as int) =~= Seq::empty());
}

/// An entry of a JSON listing, at the start of a text.
pub open spec fn json_entry(name: Seq<char>, filler: Seq<char>) -> Seq<char> {
    "\"Contents\":[\""@ + name + seq!['"'] + filler + seq![']']
}

/// Every entry of a JSON listing gives its name, and what stands behind the entry the names after
/// it.
pub proof fn law_json_entry_gives_its_name(name: Seq<char>, filler: Seq<char>, behind: Seq<char>)
    requires
        name.len() > 0,
        forall|i: int| 0 <= i < name.len() ==> crate::location::bucket_char(#[trigger] name[i]),
        crate::laws::free_of(filler, ']'),
        crate::laws::free_of(filler, '\n'),
    ensures
        crate::location::contents_names(json_entry(name, filler) + behind) == seq![name]
            + crate::location::contents_names(behind),
{
    let opening = "\"Contents\":[\""@;
    let entry = json_entry(name, filler);
    let text = entry + behind;
    let named = |c: char| crate::location::bucket_char(c);
    let between = |c: char| c != ']' && c != '\n';
    assert(opening =~= text.subrange(0, opening.len() as int));
    assert(text.skip(opening.len() as int) =~= name + (seq!['"'] + filler + seq![']'] + behind));
    crate::laws::lemma_leading_of(name, seq!['"'] + filler + seq![']'] + behind, named);
    let rest = text.skip((opening.len() + name.len()) as int);
    assert(rest =~= seq!['"'] + filler + seq![']'] + behind);
    assert(rest.skip(1) =~= filler + (seq![']'] + behind));
    crate::laws::lemma_leading_of(filler, seq![']'] + behind, between);
    assert(crate::location::contents_entry(text) == Some((name, entry.len())));
    assert(text.skip(entry.len() as int) =~= behind);
}

/// A text that starts with no entry of a JSON listing gives the names of the text behind its first
/// character.
pub proof fn law_json_entries_are_sought_on(text: Seq<char>)
    requires
        text.len() > 0,
        forall|name: Seq<char>, filler: Seq<char>|
            name.len() > 0 && (forall|i: int|
                0 <= i < name.len() ==> crate::location::bucket_char(#[trigger] name[i]))
                && crate::laws::free_of(filler, ']') && crate::laws::free_of(filler, '\n')
                ==> !(#[trigger] json_entry(name, filler)).is_prefix_of(text),
    ensures
        crate::location::contents_names(text) == crate::location::contents_names(text.skip(1)),
        crate::location::contents_names(Seq::<char>::empty()) == Seq::<Seq<char>>::empty(),
{
    if crate::location::contents_entry(text) is Some {
        let opening = "\"Contents\":[\""@;
        let named = |c: char| crate::location::bucket_char(c);
        let between = |c: char| c != ']' && c != '\n';
        let behind = text.skip(opening.len() as int);
        let name = crate::location::leading(behind, named);
        let rest = text.skip((opening.len() + name.len()) as int);
        let filler = crate::location::leading(rest.skip(1), between);
        crate::laws::lemma_leading_all(behind, named);
        crate::laws::lemma_leading_all(rest.skip(1), between);
        assert forall|i: int| 0 <= i < name.len() implies crate::location::bucket_char(
            #[trigger] name[i],
        ) by {
            assert(named(name[i]));
        }
        assert forall|i: int| 0 <= i < filler.len() implies filler[i] != ']' && filler[i]
            != '\n' by {
            assert(between(filler[i]));
        }
        let entry = json_entry(name, filler);
        assert(opening =~= text.subrange(0, opening.len() as int));
        assert(name =~= behind.subrange(0, name.len() as int));
        assert(filler =~= rest.skip(1).subrange(0, filler.len() as int));
        assert forall|i: int| 0 <= i < entry.len() implies entry[i] == text[i] by {
            if i < opening.len() {
                assert(opening[i] == text.subrange(0, opening.len() as int)[i]);
            } else if i < opening.len() + name.len() {
                assert(name[i - opening.len()] == behind[i - opening.len()]);
            } else if i > opening.len() + name.len() && i < entry.len() - 1 {
                let n = i - opening.len() - name.len() - 1;
                assert(filler[n] == rest.skip(1)[n]);
            }
        }
        assert(entry =~= text.subrange(0, entry.len() as int));
        assert(entry.is_prefix_of(text));
    }
}

/// The names that a JSON listing gives are those of its text.
pub proof fn law_json_listing(text: &str, r: Vec<String>)
    requires
        call_ensures(crate::location::contents, (text,), r),
    ensures
        r.deep_view() == crate::location::contents_names(text@),
{
}

/// What stands behind the last slash of a path holds none, and what stands before it ends in one.
pub proof fn law_last_segment(before: Seq<char>, segment: Seq<char>)
    requires
        crate::laws::free_of(segment, '/'),
        before.len() > 0 ==> before.last() == '/',
    ensures
        crate::path::last_segment(before + segment) == segment,
    decreases segment.len(),
{
    let path = before + segment;
    if segment.len() == 0 {
        assert(path =~= before);
    } else {
        assert(path.last() == segment.last());
        assert(path.drop_last() =~= before + segment.drop_last());
        law_last_segment(before, segment.drop_last());
        assert(segment.drop_last().push(segment.last()) =~= segment);
    }
}

/// The name that a path leads to is what stands behind its last slash. A slash or a slash and a dot
/// at the end change nothing; two dots there leave no name.
pub proof fn law_name_of_a_path(path: Seq<char>, segment: Seq<char>)
    requires
        segment.len() > 0,
        crate::laws::free_of(segment, '/'),
        segment != seq!['.'],
        segment != seq!['.', '.'],
    ensures
        crate::path::file_name(segment) == Some(segment),
        crate::path::file_name(path + seq!['/'] + segment) == Some(segment),
        crate::path::file_name(path + seq!['/']) == crate::path::file_name(path),
        crate::path::file_name(path + seq!['/'] + seq!['.']) == crate::path::file_name(path),
        crate::path::file_name(path + seq!['/'] + seq!['.', '.']) is None,
        crate::path::file_name(seq!['.']) is None,
        crate::path::file_name(seq!['.', '.']) is None,
        crate::path::file_name(Seq::<char>::empty()) is None,
{
    let base = path + seq!['/'];
    let dot = seq!['.'];
    let dots = seq!['.', '.'];
    let none = Seq::<char>::empty();
    law_last_segment(none, segment);
    law_last_segment(base, segment);
    law_last_segment(base, none);
    law_last_segment(base, dot);
    law_last_segment(base, dots);
    law_last_segment(none, dot);
    law_last_segment(none, dots);
    law_last_segment(none, none);
    assert(none + segment =~= segment);
    assert(none + dot =~= dot);
    assert(none + dots =~= dots);
    assert(none + none =~= none);
    assert(base + none =~= base);
    assert(base.take(base.len() - 1) =~= path);
    assert((base + dot).take((base + dot).len() - 2) =~= path);
    assert(dots.len() == 2 && dot.len() == 1);
}

/// The name that a system finds in a path of slashes, that starts with neither a drive nor two
/// slashes, is the one that the slashes leave.
pub proof fn law_name_in_a_path_of_slashes(path: Seq<char>, name: Option<Seq<char>>)
    requires
        crate::laws::free_of(path, '\\'),
        path.len() >= 2 ==> path[1] != ':' && !(path[0] == '/' && path[1] == '/'),
        crate::path::possible_name(path, name),
    ensures
        name == crate::path::file_name(path),
{
    assert(crate::path::slashed(path) =~= path);
}

/// The name that a system finds in a path that starts with neither a drive nor two slashes or
/// backslashes goes by the slashes, or by the slashes and backslashes alike.
pub proof fn law_name_in_a_plain_path(
    path: Seq<char>,
    even: Seq<char>,
    name: Option<Seq<char>>,
)
    requires
        even.len() == path.len(),
        forall|i: int| 0 <= i < path.len() ==> #[trigger] even[i] == if path[i] == '\\' {
            '/'
        } else {
            path[i]
        },
        even.len() >= 2 ==> !(even[0] == '/' && even[1] == '/'),
        crate::path::possible_name(path, name),
    ensures
        even.len() < 2 || even[1] != ':' ==> name == crate::path::file_name(path) || name
            == crate::path::file_name(even),
        even.len() >= 2 && even[1] == ':' ==> name == crate::path::file_name(path) || name
            == crate::path::file_name(even) || name == crate::path::file_name(even.skip(2)),
{
    assert(crate::path::slashed(path) =~= even);
    if path.len() >= 2 {
        assert(crate::path::slashed(path.skip(2)) =~= even.skip(2));
    }
}

} // verus!
