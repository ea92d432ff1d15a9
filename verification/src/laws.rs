//! What holds of the library as a whole.

use crate::handler::{AuthType, Format, UrlStyle};
use crate::request::Pairs;
use vstd::prelude::*;

pub mod calls;
pub mod replies;
pub mod requests;
pub mod texts;

verus! {

proof fn lemma_leading_all(text: Seq<char>, p: spec_fn(char) -> bool)
    ensures
        forall|i: int|
            0 <= i < crate::location::leading(text, p).len() ==> p(
                #[trigger] crate::location::leading(text, p)[i],
            ),
        crate::location::leading(text, p).is_prefix_of(text),
        crate::location::leading(text, p).len() < text.len() ==> !p(
            text[crate::location::leading(text, p).len() as int],
        ),
    decreases text.len(),
{
    if text.len() > 0 && p(text[0]) {
        let rest = text.skip(1);
        lemma_leading_all(rest, p);
        let tail = crate::location::leading(rest, p);
        let whole = crate::location::leading(text, p);
        assert(whole == seq![text[0]] + tail);
        assert forall|i: int| 0 <= i < whole.len() implies p(#[trigger] whole[i]) by {
            if i > 0 {
                assert(whole[i] == tail[i - 1]);
            }
        }
        assert(tail =~= rest.subrange(0, tail.len() as int));
        assert(whole =~= text.subrange(0, whole.len() as int));
        if whole.len() < text.len() {
            assert(text[whole.len() as int] == rest[tail.len() as int]);
        }
    } else {
        assert(crate::location::leading(text, p) =~= text.subrange(0, 0));
    }
}

proof fn lemma_leading_of(run: Seq<char>, rest: Seq<char>, p: spec_fn(char) -> bool)
    requires
        forall|i: int| 0 <= i < run.len() ==> p(#[trigger] run[i]),
        rest.len() > 0 ==> !p(rest[0]),
    ensures
        crate::location::leading(run + rest, p) == run,
    decreases run.len(),
{
    if run.len() > 0 {
        let tail = run.skip(1);
        assert forall|i: int| 0 <= i < tail.len() implies p(#[trigger] tail[i]) by {
            assert(tail[i] == run[i + 1]);
        }
        assert((run + rest).skip(1) =~= tail + rest);
        assert(p(run[0]));
        lemma_leading_of(tail, rest, p);
        assert(seq![run[0]] + tail =~= run);
    } else {
        assert(run + rest =~= rest);
        assert(run =~= Seq::empty());
    }
}

/// The name of a bucket, then the name of an object in it, is found again as it was written.
pub proof fn law_location_reads_back(mark: char, bucket: Seq<char>, object: Seq<char>)
    requires
        mark == 's' || mark == 'S',
        bucket.len() > 0,
        forall|i: int| 0 <= i < bucket.len() ==> crate::location::bucket_char(#[trigger] bucket[i]),
        forall|i: int| 0 <= i < object.len() ==> crate::location::object_char(#[trigger] object[i]),
        object.len() > 0 ==> object[0] == '/',
    ensures
        crate::location::s3_location(seq![mark, '3', ':', '/', '/'] + bucket + object) == Some(
            (bucket, object),
        ),
{
    let head = seq![mark, '3', ':', '/', '/'];
    let text = head + bucket + object;
    assert(text.subrange(1, 5) =~= seq!['3', ':', '/', '/']);
    assert(text[5] == bucket[0]);
    assert(crate::location::starts_location(text));
    assert(text.skip(5) =~= bucket + object);
    assert(text.skip((5 + bucket.len()) as int) =~= object);
    lemma_leading_of(bucket, object, |c: char| crate::location::bucket_char(c));
    assert(object + Seq::empty() =~= object);
    lemma_leading_of(object, Seq::empty(), |c: char| crate::location::object_char(c));
}

/// A location that is found has a bucket with a name, and an object that is nothing or starts with
/// a slash; both are made of the characters that such names may hold.
pub proof fn law_location_well_formed(text: Seq<char>)
    ensures
        crate::location::s3_location(text) matches Some((bucket, object)) ==> {
            &&& bucket.len() > 0
            &&& forall|i: int|
                0 <= i < bucket.len() ==> crate::location::bucket_char(#[trigger] bucket[i])
            &&& forall|i: int|
                0 <= i < object.len() ==> crate::location::object_char(#[trigger] object[i])
            &&& object.len() > 0 ==> object[0] == '/'
        },
    decreases text.len(),
{
    if text.len() > 0 {
        if crate::location::starts_location(text) {
            let named = |c: char| crate::location::bucket_char(c);
            let placed = |c: char| crate::location::object_char(c);
            let bucket = crate::location::leading(text.skip(5), named);
            let rest = text.skip((5 + bucket.len()) as int);
            let object = crate::location::leading(rest, placed);
            lemma_leading_all(text.skip(5), named);
            lemma_leading_all(rest, placed);
            assert(text.skip(5)[0] == text[5]);
            assert forall|i: int| 0 <= i < bucket.len() implies crate::location::bucket_char(
                #[trigger] bucket[i],
            ) by {
                assert(named(bucket[i]));
            }
            assert forall|i: int| 0 <= i < object.len() implies crate::location::object_char(
                #[trigger] object[i],
            ) by {
                assert(placed(object[i]));
            }
            if object.len() > 0 {
                assert(object[0] == rest[0]);
                assert(rest[0] == text.skip(5)[bucket.len() as int]);
                assert(!named(rest[0]));
                assert(placed(object[0]));
            }
        } else {
            law_location_well_formed(text.skip(1));
        }
    }
}

/// Both styles of address lead to the same object: the path of the one is the bucket and the path
/// of the other.
pub proof fn law_styles_agree(bucket: Seq<char>, object: Seq<char>)
    ensures
        crate::command::object_route(UrlStyle::PATH, bucket, object) == (
            None::<Seq<char>>,
            "/"@ + crate::command::object_route(UrlStyle::HOST, bucket, object).0->0
                + crate::command::object_route(UrlStyle::HOST, bucket, object).1,
        ),
{
}

/// Version 2 of the signature does not care for the style of addresses.
pub proof fn law_version_2_has_one_style(
    style: UrlStyle,
    at: (Seq<char>, Seq<char>),
    methods: (Seq<char>, Seq<char>),
    query: Pairs,
    headers: Pairs,
    payload: Seq<u8>,
)
    ensures
        crate::command::object_call(AuthType::AWS2, style, at, methods, query, headers, payload)
            == (crate::request::CallView {
            auth: AuthType::AWS2,
            method: methods.1,
            virtual_host: None,
            uri: crate::command::path_uri(at.0, at.1),
            query,
            headers,
            payload,
        }),
{
}

/// The value of the first header of a name.
pub open spec fn value_of(headers: Pairs, name: Seq<char>) -> Option<Seq<char>>
    decreases headers.len(),
{
    if headers.len() == 0 {
        None
    } else if headers[0].0 == name {
        Some(headers[0].1)
    } else {
        value_of(headers.skip(1), name)
    }
}

/// Whether no two headers have the same name.
pub open spec fn distinct_names(headers: Pairs) -> bool {
    forall|i: int, j: int|
        0 <= i < j < headers.len() ==> (#[trigger] headers[i]).0 != (#[trigger] headers[j]).0
}

/// Setting a header gives it its value and leaves all others as they are.
pub proof fn law_header_is_set(
    headers: Pairs,
    name: Seq<char>,
    value: Seq<char>,
    other: Seq<char>,
)
    ensures
        value_of(crate::request::with_header(headers, name, value), name) == Some(value),
        other != name ==> value_of(crate::request::with_header(headers, name, value), other)
            == value_of(headers, other),
    decreases headers.len(),
{
    let set = crate::request::with_header(headers, name, value);
    if headers.len() == 0 {
        assert(set.skip(1) =~= Seq::empty());
        assert(value_of(set.skip(1), other) is None);
    } else if headers[0].0 == name {
        assert(set.skip(1) =~= headers.skip(1));
    } else {
        assert(set.skip(1) =~= crate::request::with_header(headers.skip(1), name, value));
        law_header_is_set(headers.skip(1), name, value, other);
    }
}

proof fn lemma_with_header_names(headers: Pairs, name: Seq<char>, value: Seq<char>)
    ensures
        forall|i: int|
            0 <= i < crate::request::with_header(headers, name, value).len() ==> {
                let found = #[trigger] crate::request::with_header(headers, name, value)[i];
                found.0 == name || exists|j: int|
                    0 <= j < headers.len() && (#[trigger] headers[j]).0 == found.0
            },
    decreases headers.len(),
{
    let set = crate::request::with_header(headers, name, value);
    if headers.len() > 0 && headers[0].0 != name {
        let rest = headers.skip(1);
        lemma_with_header_names(rest, name, value);
        let tail = crate::request::with_header(rest, name, value);
        assert forall|i: int| 0 <= i < set.len() implies ({
            let found = #[trigger] set[i];
            found.0 == name || exists|j: int|
                0 <= j < headers.len() && (#[trigger] headers[j]).0 == found.0
        }) by {
            if i == 0 {
                assert(headers[0].0 == set[0].0);
            } else {
                assert(set[i] == tail[i - 1]);
                if tail[i - 1].0 != name {
                    let j = choose|j: int|
                        0 <= j < rest.len() && (#[trigger] rest[j]).0 == tail[i - 1].0;
                    assert(headers[j + 1] == rest[j]);
                }
            }
        }
    } else if headers.len() > 0 {
        assert forall|i: int| 0 <= i < set.len() implies ({
            let found = #[trigger] set[i];
            found.0 == name || exists|j: int|
                0 <= j < headers.len() && (#[trigger] headers[j]).0 == found.0
        }) by {
            if i > 0 {
                assert(set[i] == headers[i]);
            }
        }
    }
}

/// Setting a header keeps the names of the headers distinct.
pub proof fn law_header_names_stay_distinct(headers: Pairs, name: Seq<char>, value: Seq<char>)
    requires
        distinct_names(headers),
    ensures
        distinct_names(crate::request::with_header(headers, name, value)),
    decreases headers.len(),
{
    let set = crate::request::with_header(headers, name, value);
    if headers.len() > 0 {
        let rest = headers.skip(1);
        assert(distinct_names(rest)) by {
            assert forall|i: int, j: int| 0 <= i < j < rest.len() implies (#[trigger] rest[i]).0 != (
            #[trigger] rest[j]).0 by {
                assert(rest[i] == headers[i + 1] && rest[j] == headers[j + 1]);
            }
        }
        if headers[0].0 == name {
            assert forall|i: int, j: int| 0 <= i < j < set.len() implies (#[trigger] set[i]).0 != (
            #[trigger] set[j]).0 by {
                assert(set[j] == headers[j]);
                assert(i > 0 ==> set[i] == headers[i]);
                assert(headers[i].0 != headers[j].0);
            }
        } else {
            law_header_names_stay_distinct(rest, name, value);
            lemma_with_header_names(rest, name, value);
            let tail = crate::request::with_header(rest, name, value);
            assert forall|i: int, j: int| 0 <= i < j < set.len() implies (#[trigger] set[i]).0 != (
            #[trigger] set[j]).0 by {
                assert(set[j] == tail[j - 1]);
                if i > 0 {
                    assert(set[i] == tail[i - 1]);
                } else if tail[j - 1].0 != name {
                    let k = choose|k: int|
                        0 <= k < rest.len() && (#[trigger] rest[k]).0 == tail[j - 1].0;
                    assert(headers[k + 1] == rest[k]);
                    assert(headers[0].0 != headers[k + 1].0);
                }
            }
        }
    }
}

proof fn lemma_with_headers_distinct(headers: Pairs, more: Pairs)
    requires
        distinct_names(headers),
    ensures
        distinct_names(crate::request::with_headers(headers, more)),
    decreases more.len(),
{
    if more.len() > 0 {
        law_header_names_stay_distinct(headers, more[0].0, more[0].1);
        lemma_with_headers_distinct(
            crate::request::with_header(headers, more[0].0, more[0].1),
            more.skip(1),
        );
    }
}

proof fn lemma_with_headers_keeps(headers: Pairs, more: Pairs, name: Seq<char>)
    requires
        forall|j: int| 0 <= j < more.len() ==> (#[trigger] more[j]).0 != name,
    ensures
        value_of(crate::request::with_headers(headers, more), name) == value_of(headers, name),
    decreases more.len(),
{
    if more.len() > 0 {
        let rest = more.skip(1);
        assert forall|j: int| 0 <= j < rest.len() implies (#[trigger] rest[j]).0 != name by {
            assert(rest[j] == more[j + 1]);
        }
        assert(more[0].0 != name);
        law_header_is_set(headers, more[0].0, more[0].1, name);
        lemma_with_headers_keeps(
            crate::request::with_header(headers, more[0].0, more[0].1),
            rest,
            name,
        );
    }
}

proof fn lemma_with_headers_sets(headers: Pairs, more: Pairs, i: int)
    requires
        0 <= i < more.len(),
        forall|j: int| i < j < more.len() ==> (#[trigger] more[j]).0 != more[i].0,
    ensures
        value_of(crate::request::with_headers(headers, more), more[i].0) == Some(more[i].1),
    decreases more.len(),
{
    let next = crate::request::with_header(headers, more[0].0, more[0].1);
    let rest = more.skip(1);
    if i == 0 {
        assert forall|j: int| 0 <= j < rest.len() implies (#[trigger] rest[j]).0 != more[0].0 by {
            assert(rest[j] == more[j + 1]);
        }
        law_header_is_set(headers, more[0].0, more[0].1, more[0].0);
        lemma_with_headers_keeps(next, rest, more[0].0);
    } else {
        assert(rest[i - 1] == more[i]);
        assert forall|j: int| i - 1 < j < rest.len() implies (#[trigger] rest[j]).0 != rest[i
            - 1].0 by {
            assert(rest[j] == more[j + 1]);
        }
        lemma_with_headers_sets(next, rest, i - 1);
    }
}

proof fn lemma_sent_on_names(given: Pairs, name: Seq<char>, sent: Seq<char>)
    ensures
        forall|i: int|
            0 <= i < crate::request::sent_on(given, name, sent).len() ==> (
            #[trigger] crate::request::sent_on(given, name, sent)[i]).0 == sent,
    decreases given.len(),
{
    if given.len() > 0 {
        let rest = crate::request::sent_on(given.skip(1), name, sent);
        lemma_sent_on_names(given.skip(1), name, sent);
        if given[0].0 == name {
            let all = crate::request::sent_on(given, name, sent);
            assert forall|i: int| 0 <= i < all.len() implies (#[trigger] all[i]).0 == sent by {
                if i > 0 {
                    assert(all[i] == rest[i - 1]);
                }
            }
        }
    }
}

proof fn lemma_features_names(given: Pairs)
    ensures
        forall|i: int|
            0 <= i < crate::request::features(given).len() ==> (
            #[trigger] crate::request::features(given)[i]).0 != "authorization"@,
{
    let markers = crate::request::sent_on(given, "delete-marker"@, "x-amz-delete-marker"@);
    let deletes = crate::request::sent_on(given, "secure-delete"@, "x-amz-secure-delete"@);
    lemma_sent_on_names(given, "delete-marker"@, "x-amz-delete-marker"@);
    lemma_sent_on_names(given, "secure-delete"@, "x-amz-secure-delete"@);
    reveal_strlit("authorization");
    reveal_strlit("x-amz-delete-marker");
    reveal_strlit("x-amz-secure-delete");
    assert("authorization"@.len() != "x-amz-delete-marker"@.len());
    assert("authorization"@.len() != "x-amz-secure-delete"@.len());
    let all = crate::request::features(given);
    assert forall|i: int| 0 <= i < all.len() implies (#[trigger] all[i]).0 != "authorization"@ by {
        if i < markers.len() {
            assert(all[i] == markers[i]);
        } else {
            assert(all[i] == deletes[i - markers.len()]);
        }
    }
}

/// Every feature that is asked for is sent, by either version of the signature, and with the last of
/// the values that it is asked for with.
pub proof fn law_features_are_sent(
    date: Seq<char>,
    payload_hash: Seq<char>,
    given: Pairs,
    authorization: Seq<char>,
    i: int,
)
    requires
        0 <= i < crate::request::features(given).len(),
        forall|j: int|
            i < j < crate::request::features(given).len() ==> (#[trigger] crate::request::features(
                given,
            )[j]).0 != crate::request::features(given)[i].0,
    ensures
        ({
            let (name, value) = crate::request::features(given)[i];
            let v2 = crate::request::with_headers(
                seq![("date"@, date)],
                crate::request::features(given),
            );
            let v4 = crate::request::with_headers(
                seq![("x-amz-date"@, date), ("x-amz-content-sha256"@, payload_hash)],
                crate::request::features(given),
            );
            &&& value_of(
                crate::request::with_header(v2, "authorization"@, authorization),
                name,
            ) == Some(value)
            &&& value_of(
                crate::request::with_header(v4, "authorization"@, authorization),
                name,
            ) == Some(value)
        }),
{
    let features = crate::request::features(given);
    let name = features[i].0;
    let first_v2 = seq![("date"@, date)];
    let first_v4 = seq![("x-amz-date"@, date), ("x-amz-content-sha256"@, payload_hash)];
    lemma_with_headers_sets(first_v2, features, i);
    lemma_with_headers_sets(first_v4, features, i);
    lemma_features_names(given);
    let v2 = crate::request::with_headers(first_v2, features);
    let v4 = crate::request::with_headers(first_v4, features);
    law_header_is_set(v2, "authorization"@, authorization, name);
    law_header_is_set(v4, "authorization"@, authorization, name);
}

/// No header of a request is sent twice, by either version of the signature.
pub proof fn law_sent_headers_differ(
    date: Seq<char>,
    payload_hash: Seq<char>,
    given: Pairs,
    authorization: Seq<char>,
)
    ensures
        ({
            let v2 = crate::request::with_headers(
                seq![("date"@, date)],
                crate::request::features(given),
            );
            let v4 = crate::request::with_headers(
                seq![("x-amz-date"@, date), ("x-amz-content-sha256"@, payload_hash)],
                crate::request::features(given),
            );
            &&& distinct_names(
                crate::request::with_header(v2, "authorization"@, authorization),
            )
            &&& distinct_names(
                crate::request::with_header(v4, "authorization"@, authorization),
            )
        }),
{
    let features = crate::request::features(given);
    let first_v2 = seq![("date"@, date)];
    let first_v4 = seq![("x-amz-date"@, date), ("x-amz-content-sha256"@, payload_hash)];
    assert("x-amz-date"@ != "x-amz-content-sha256"@) by {
        reveal_strlit("x-amz-date");
        reveal_strlit("x-amz-content-sha256");
        assert("x-amz-date"@.len() != "x-amz-content-sha256"@.len());
    }
    lemma_with_headers_distinct(first_v2, features);
    lemma_with_headers_distinct(first_v4, features);
    let v2 = crate::request::with_headers(first_v2, features);
    let v4 = crate::request::with_headers(first_v4, features);
    law_header_names_stay_distinct(v2, "authorization"@, authorization);
    law_header_names_stay_distinct(v4, "authorization"@, authorization);
}

/// Features that nobody asks for are not sent: where no given header has one of the two names, no
/// header is added.
pub proof fn law_other_headers_are_not_sent(given: Pairs)
    requires
        forall|i: int|
            0 <= i < given.len() ==> (#[trigger] given[i]).0 != "delete-marker"@ && given[i].0
                != "secure-delete"@,
    ensures
        crate::request::features(given) == Seq::<(Seq<char>, Seq<char>)>::empty(),
{
    lemma_sent_on_none(given, "delete-marker"@, "x-amz-delete-marker"@);
    lemma_sent_on_none(given, "secure-delete"@, "x-amz-secure-delete"@);
    assert(crate::request::features(given) =~= Seq::empty());
}

proof fn lemma_sent_on_none(given: Pairs, name: Seq<char>, sent: Seq<char>)
    requires
        forall|i: int| 0 <= i < given.len() ==> (#[trigger] given[i]).0 != name,
    ensures
        crate::request::sent_on(given, name, sent) == Seq::<(Seq<char>, Seq<char>)>::empty(),
    decreases given.len(),
{
    if given.len() > 0 {
        let rest = given.skip(1);
        assert forall|i: int| 0 <= i < rest.len() implies (#[trigger] rest[i]).0 != name by {
            assert(rest[i] == given[i + 1]);
        }
        assert(given[0].0 != name);
        lemma_sent_on_none(rest, name, sent);
    }
}

/// A query as it is written in an address.
pub open spec fn written_query(pairs: Pairs) -> Seq<char>
    decreases pairs.len(),
{
    if pairs.len() == 0 {
        Seq::empty()
    } else {
        let first = pairs[0].0 + seq!['='] + pairs[0].1;
        if pairs.len() == 1 {
            first
        } else {
            first + seq!['&'] + written_query(pairs.skip(1))
        }
    }
}

/// Whether a text is free of a character.
pub open spec fn free_of(text: Seq<char>, c: char) -> bool {
    forall|i: int| 0 <= i < text.len() ==> text[i] != c
}

/// Whether the names and values of a query hold none of the characters that keep them apart.
pub open spec fn plain_query(pairs: Pairs) -> bool {
    forall|i: int|
        0 <= i < pairs.len() ==> {
            let (name, value) = #[trigger] pairs[i];
            free_of(name, '=') && free_of(name, '&') && free_of(value, '=') && free_of(value, '&')
        }
}

proof fn lemma_cut_of(before: Seq<char>, at: char, behind: Seq<char>)
    requires
        free_of(before, at),
    ensures
        crate::url::cut(before + seq![at] + behind, at) == (before, Some(behind)),
{
    let text = before + seq![at] + behind;
    assert(text[before.len() as int] == at);
    crate::url::lemma_cut_at(text, at, before.len() as int);
    assert(text.take(before.len() as int) =~= before);
    assert(text.skip(before.len() as int + 1) =~= behind);
}

proof fn lemma_query_pair_of(name: Seq<char>, value: Seq<char>)
    requires
        free_of(name, '='),
        free_of(value, '='),
    ensures
        crate::url::query_pair(name + seq!['='] + value) == (name, value),
{
    lemma_cut_of(name, '=', value);
    crate::url::lemma_cut_none(value, '=');
}

/// A query that is written down is read back as it was, where its names and values hold none of the
/// characters that keep them apart.
pub proof fn law_query_reads_back(pairs: Pairs)
    requires
        pairs.len() > 0,
        plain_query(pairs),
    ensures
        crate::url::query_pairs(written_query(pairs)) == pairs,
    decreases pairs.len(),
{
    let (name, value) = pairs[0];
    let first = name + seq!['='] + value;
    assert(free_of(first, '&')) by {
        assert forall|i: int| 0 <= i < first.len() implies first[i] != '&' by {
            if i < name.len() {
                assert(first[i] == name[i]);
            } else if i > name.len() {
                assert(first[i] == value[i - name.len() - 1]);
            }
        }
    }
    lemma_query_pair_of(name, value);
    if pairs.len() == 1 {
        crate::url::lemma_cut_none(first, '&');
        assert(seq![(name, value)] =~= pairs);
    } else {
        let rest = pairs.skip(1);
        assert(plain_query(rest)) by {
            assert forall|i: int| 0 <= i < rest.len() implies ({
                let (name, value) = #[trigger] rest[i];
                free_of(name, '=') && free_of(name, '&') && free_of(value, '=') && free_of(
                    value,
                    '&',
                )
            }) by {
                assert(rest[i] == pairs[i + 1]);
            }
        }
        law_query_reads_back(rest);
        lemma_cut_of(first, '&', written_query(rest));
        assert(seq![(name, value)] + rest =~= pairs);
    }
}

/// An address that is written down is read back as it was: its path, where that holds no question
/// mark, and its query.
pub proof fn law_address_reads_back(uri: Seq<char>, pairs: Pairs)
    requires
        free_of(uri, '?'),
        pairs.len() > 0,
        plain_query(pairs),
    ensures
        crate::url::split_url(uri + seq!['?'] + written_query(pairs)) == (uri, pairs),
{
    lemma_cut_of(uri, '?', written_query(pairs));
    law_query_reads_back(pairs);
}

/// An address without a question mark is a path without a query.
pub proof fn law_address_without_query(uri: Seq<char>)
    requires
        free_of(uri, '?'),
    ensures
        crate::url::split_url(uri) == (uri, Seq::<(Seq<char>, Seq<char>)>::empty()),
{
    crate::url::lemma_cut_none(uri, '?');
}

/// What a tour shows from a bucket on, where the replies on the buckets are these.
pub open spec fn tour_shown(
    format: Format,
    buckets: Seq<Seq<char>>,
    bodies: Seq<Seq<u8>>,
    at: nat,
) -> Seq<Seq<char>>
    decreases buckets.len() - at,
{
    if at < buckets.len() {
        let here = crate::listing::tour_lines(format, buckets[at as int], bodies[at as int]);
        if crate::listing::tour_goes_on(format, buckets.len(), at, bodies[at as int]) {
            here + tour_shown(format, buckets, bodies, at + 1)
        } else {
            here
        }
    } else {
        Seq::empty()
    }
}

/// The buckets that a tour asks for from a bucket on, where the replies on the buckets are these.
pub open spec fn tour_asks(
    format: Format,
    buckets: Seq<Seq<char>>,
    bodies: Seq<Seq<u8>>,
    at: nat,
) -> Seq<Seq<char>>
    decreases buckets.len() - at,
{
    if at < buckets.len() {
        if crate::listing::tour_goes_on(format, buckets.len(), at, bodies[at as int]) {
            seq![buckets[at as int]] + tour_asks(format, buckets, bodies, at + 1)
        } else {
            seq![buckets[at as int]]
        }
    } else {
        Seq::empty()
    }
}

/// The lines that replies on buckets hold, bucket after bucket.
pub open spec fn all_lines(format: Format, buckets: Seq<Seq<char>>, bodies: Seq<Seq<u8>>) -> Seq<
    Seq<char>,
>
    decreases buckets.len(),
{
    if buckets.len() == 0 {
        Seq::empty()
    } else {
        crate::listing::tour_lines(format, buckets[0], bodies[0]) + all_lines(
            format,
            buckets.skip(1),
            bodies.skip(1),
        )
    }
}

/// Where every reply can be read, a tour asks for every bucket once and in order, and shows the
/// objects of all of them.
pub proof fn law_tour_is_complete(
    format: Format,
    buckets: Seq<Seq<char>>,
    bodies: Seq<Seq<u8>>,
    at: nat,
)
    requires
        at <= buckets.len() == bodies.len(),
        forall|i: int|
            0 <= i < bodies.len() ==> (#[trigger] crate::listing::found_objects(
                format,
                bodies[i],
            )).1,
    ensures
        tour_asks(format, buckets, bodies, at) == buckets.skip(at as int),
        tour_shown(format, buckets, bodies, at) == all_lines(
            format,
            buckets.skip(at as int),
            bodies.skip(at as int),
        ),
    decreases buckets.len() - at,
{
    if at < buckets.len() {
        assert(crate::listing::found_objects(format, bodies[at as int]).1);
        law_tour_is_complete(format, buckets, bodies, at + 1);
        let rest = buckets.skip(at as int);
        assert(rest.skip(1) =~= buckets.skip(at as int + 1));
        assert(bodies.skip(at as int).skip(1) =~= bodies.skip(at as int + 1));
        assert(seq![buckets[at as int]] + buckets.skip(at as int + 1) =~= rest);
        if at + 1 == buckets.len() {
            assert(buckets.skip(at as int + 1) =~= Seq::empty());
            assert(seq![buckets[at as int]] =~= rest);
            let here = crate::listing::tour_lines(format, buckets[at as int], bodies[at as int]);
            assert(here + Seq::empty() =~= here);
        }
    } else {
        assert(buckets.skip(at as int) =~= Seq::empty());
    }
}

/// The parts of a file cover it, and no part lies behind its end.
pub proof fn law_parts_cover_the_file(size: int)
    requires
        size > 0,
    ensures
        crate::upload::parts_needed(size) * crate::upload::PART_SIZE >= size,
        (crate::upload::parts_needed(size) - 1) * crate::upload::PART_SIZE < size,
{
}

/// The parts of a file follow on one another from its first byte on, each starts in the file, and the
/// last one reaches its end.
pub proof fn law_part_ranges_cover_the_file(size: int, before: nat)
    requires
        size > 0,
        before < crate::upload::parts_needed(size),
    ensures
        crate::upload::part_start(0) == 0,
        crate::upload::part_start(before + 1) == crate::upload::part_start(before)
            + crate::upload::PART_SIZE,
        crate::upload::part_start(before) < size,
        before + 1 == crate::upload::parts_needed(size) ==> crate::upload::part_start(before)
            + crate::upload::PART_SIZE >= size,
{
}

/// Every byte of a file is carried by the part that it lies in, at its place there, and what a part
/// carries behind the end of the file is zero.
pub proof fn law_parts_carry_the_file(file: Seq<u8>, before: nat, i: int)
    requires
        before < crate::upload::parts_needed(file.len() as int),
        0 <= i < crate::upload::PART_SIZE,
    ensures
        crate::upload::part_of(file, before).len() <= crate::upload::PART_SIZE,
        crate::upload::filled(crate::upload::part_of(file, before)).len()
            == crate::upload::PART_SIZE,
        crate::upload::filled(crate::upload::part_of(file, before))[i] == {
            let at = crate::upload::part_start(before) + i;
            if at < file.len() {
                file[at]
            } else {
                0
            }
        },
{
}

/// Every byte of a file lies in one of its parts.
pub proof fn law_every_byte_lies_in_a_part(size: int, at: int)
    requires
        0 <= at < size,
    ensures
        exists|before: nat|
            before < crate::upload::parts_needed(size) && #[trigger] crate::upload::part_start(
                before,
            ) <= at < crate::upload::part_start(before) + crate::upload::PART_SIZE,
{
    let before = (at / crate::upload::PART_SIZE as int) as nat;
    assert(crate::upload::part_start(before) <= at);
}

/// A file is stored in parts only where it takes at least two of them.
pub proof fn law_parts_are_several(upload: &crate::upload::Upload, exists: bool, size: u64)
    requires
        upload.plan_of(exists, size) == crate::upload::Plan::Parts,
    ensures
        crate::upload::parts_needed(size as int) >= 2,
{
}

proof fn lemma_digit_char_injective(a: nat, b: nat)
    requires
        a < 10,
        b < 10,
        crate::text::digit_char(a) == crate::text::digit_char(b),
    ensures
        a == b,
{
}

/// Parts with different numbers are called by different names.
pub proof fn law_part_numbers_differ(a: nat, b: nat)
    requires
        a != b,
    ensures
        crate::text::decimal(a) != crate::text::decimal(b),
    decreases a + b,
{
    let x = crate::text::decimal(a);
    let y = crate::text::decimal(b);
    lemma_decimal_len(a);
    lemma_decimal_len(b);
    if x == y {
        assert(x.last() == y.last());
        if a >= 10 && b >= 10 {
            lemma_digit_char_injective(a % 10, b % 10);
            assert(x.drop_last() =~= crate::text::decimal(a / 10));
            assert(y.drop_last() =~= crate::text::decimal(b / 10));
            assert(a / 10 != b / 10);
            law_part_numbers_differ(a / 10, b / 10);
        } else if a < 10 && b < 10 {
            assert(x[0] == y[0]);
            lemma_digit_char_injective(a, b);
        } else {
            assert(x.len() != y.len());
        }
    }
}

proof fn lemma_decimal_len(n: nat)
    ensures
        crate::text::decimal(n).len() >= 1,
        n >= 10 ==> crate::text::decimal(n).len() >= 2,
    decreases n,
{
    if n >= 10 {
        lemma_decimal_len(n / 10);
    }
}

proof fn lemma_part_entries_grow(tags: Seq<Seq<char>>, i: int)
    requires
        0 <= i <= tags.len(),
    ensures
        crate::upload::part_entries(tags.take(i)).is_prefix_of(crate::upload::part_entries(tags)),
    decreases tags.len() - i,
{
    if i == tags.len() {
        assert(tags.take(i) =~= tags);
        let whole = crate::upload::part_entries(tags);
        assert(whole =~= whole.subrange(0, whole.len() as int));
    } else {
        lemma_part_entries_grow(tags, i + 1);
        assert(tags.take(i + 1).drop_last() =~= tags.take(i));
        let before = crate::upload::part_entries(tags.take(i));
        let next = crate::upload::part_entries(tags.take(i + 1));
        assert(before =~= next.subrange(0, before.len() as int));
        assert(before =~= crate::upload::part_entries(tags).subrange(0, before.len() as int));
    }
}

/// The document that puts parts together lists every part with its number and its tag, in order.
pub proof fn law_document_lists_every_part(tags: Seq<Seq<char>>, i: int)
    requires
        0 <= i < tags.len(),
    ensures
        (crate::upload::part_entries(tags.take(i)) + "<Part><PartNumber>"@ + crate::text::decimal(
            (i + 1) as nat,
        ) + "</PartNumber><ETag>"@ + tags[i] + "</ETag></Part>"@).is_prefix_of(
            crate::upload::part_document(tags),
        ),
{
    lemma_part_entries_grow(tags, i + 1);
    assert(tags.take(i + 1).drop_last() =~= tags.take(i));
    let listed = crate::upload::part_entries(tags.take(i + 1));
    assert(listed =~= crate::upload::part_document(tags).subrange(0, listed.len() as int));
}

proof fn lemma_tag_entries_grow(tags: Pairs, i: int)
    requires
        0 <= i <= tags.len(),
    ensures
        crate::command::tag_entries(tags.take(i)).is_prefix_of(crate::command::tag_entries(tags)),
    decreases tags.len() - i,
{
    if i == tags.len() {
        assert(tags.take(i) =~= tags);
        let whole = crate::command::tag_entries(tags);
        assert(whole =~= whole.subrange(0, whole.len() as int));
    } else {
        lemma_tag_entries_grow(tags, i + 1);
        assert(tags.take(i + 1).drop_last() =~= tags.take(i));
        let before = crate::command::tag_entries(tags.take(i));
        let next = crate::command::tag_entries(tags.take(i + 1));
        assert(before =~= next.subrange(0, before.len() as int));
        assert(before =~= crate::command::tag_entries(tags).subrange(0, before.len() as int));
    }
}

/// The document that sets the tags of an object holds every tag with its value, in order.
pub proof fn law_document_holds_every_tag(tags: Pairs, i: int)
    requires
        0 <= i < tags.len(),
    ensures
        (crate::command::tag_entries(tags.take(i)) + "<Tag><Key>"@ + tags[i].0
            + "</Key><Value>"@ + tags[i].1 + "</Value></Tag>"@).is_prefix_of(
            crate::command::tag_document(tags),
        ),
{
    lemma_tag_entries_grow(tags, i + 1);
    assert(tags.take(i + 1).drop_last() =~= tags.take(i));
    let listed = crate::command::tag_entries(tags.take(i + 1));
    assert(listed =~= crate::command::tag_document(tags).subrange(0, listed.len() as int));
}

/// A command that names a kind of service sets the same ways as a configuration that names it.
pub proof fn law_command_and_configuration_agree(name: String)
    requires
        name@ == "aws"@ || name@ == "ceph"@,
    ensures
        crate::handler::service_ways(name@) == Some(crate::handler::configured_ways(Some(name))),
{
    reveal_strlit("aws");
    reveal_strlit("ceph");
    assert("aws"@.len() == 3);
    assert("ceph"@.len() == 4);
    if name@ == "aws"@ {
        assert("aws"@ =~= name@.subrange(0, 3));
    } else {
        assert("ceph"@ =~= name@.subrange(0, 4));
        let end = name@.subrange(1, 4);
        assert(end[0] == 'e');
        assert("aws"@[0] == 'a');
        assert("ceph"@ != "aws"@);
    }
}

/// The name of a file is a single segment, and neither the directory itself nor its parent.
pub proof fn law_file_name_is_a_name(path: Seq<char>)
    ensures
        crate::path::file_name(path) matches Some(name) ==> {
            &&& name.len() > 0
            &&& free_of(name, '/')
            &&& name != seq!['.']
            &&& name != seq!['.', '.']
        },
    decreases path.len(),
{
    let segment = crate::path::last_segment(path);
    lemma_last_segment_free(path);
    if segment.len() == 0 || segment == seq!['.'] {
        if path.len() > segment.len() {
            law_file_name_is_a_name(path.take(path.len() - segment.len() - 1));
        }
    }
}

proof fn lemma_last_segment_free(path: Seq<char>)
    ensures
        free_of(crate::path::last_segment(path), '/'),
        crate::path::last_segment(path).len() <= path.len(),
    decreases path.len(),
{
    if path.len() > 0 && path.last() != '/' {
        lemma_last_segment_free(path.drop_last());
    }
}

/// Every system finds the same name in a path that is portable.
pub proof fn law_portable_paths_have_one_name(path: Seq<char>, name: Option<Seq<char>>)
    requires
        crate::path::portable(path),
        crate::path::possible_name(path, name),
    ensures
        name == crate::path::file_name(path),
{
    assert(crate::path::slashed(path) =~= path);
}

proof fn lemma_slashed_segment(path: Seq<char>)
    ensures
        crate::path::last_segment(crate::path::slashed(path)).is_suffix_of(
            crate::path::last_segment(path),
        ),
    decreases path.len(),
{
    let even = crate::path::slashed(path);
    let short = crate::path::last_segment(even);
    let long = crate::path::last_segment(path);
    if path.len() == 0 || even.last() == '/' {
        assert(short =~= long.subrange(long.len() as int, long.len() as int));
    } else {
        assert(even.last() == path.last());
        assert(even.drop_last() =~= crate::path::slashed(path.drop_last()));
        lemma_slashed_segment(path.drop_last());
        let rest = crate::path::last_segment(path.drop_last());
        let tail = crate::path::last_segment(even.drop_last());
        assert(tail =~= rest.subrange(rest.len() - tail.len(), rest.len() as int));
        assert(short =~= long.subrange(long.len() - short.len(), long.len() as int));
    }
}

/// A path that starts neither with a drive nor with a share, and behind whose last slash or backslash
/// something stands other than one or two dots, leads to a name on every system: to that, or to what
/// stands behind the last slash.
pub proof fn law_plain_paths_have_a_name(path: Seq<char>, name: Option<Seq<char>>)
    requires
        !crate::path::has_drive(path),
        !crate::path::has_share(path),
        crate::path::last_segment(crate::path::slashed(path)).len() > 0,
        crate::path::last_segment(crate::path::slashed(path)) != seq!['.'],
        crate::path::last_segment(crate::path::slashed(path)) != seq!['.', '.'],
        crate::path::possible_name(path, name),
    ensures
        name == Some(crate::path::last_segment(path)) || name == Some(
            crate::path::last_segment(crate::path::slashed(path)),
        ),
{
    lemma_slashed_segment(path);
    let short = crate::path::last_segment(crate::path::slashed(path));
    let long = crate::path::last_segment(path);
    assert(short =~= long.subrange(long.len() - short.len(), long.len() as int));
    if long == seq!['.'] {
        assert(short =~= seq!['.']);
    } else if long == seq!['.', '.'] {
        if short.len() == 1 {
            assert(short =~= seq!['.']);
        } else {
            assert(short =~= seq!['.', '.']);
        }
    }
}

/// Every name that a JSON listing gives is a name, made of the characters that it may hold.
pub proof fn law_listed_names_are_names(text: Seq<char>, i: int, j: int)
    requires
        0 <= i < crate::location::contents_names(text).len(),
        0 <= j < crate::location::contents_names(text)[i].len(),
    ensures
        crate::location::bucket_char(crate::location::contents_names(text)[i][j]),
    decreases text.len(),
{
    match crate::location::contents_entry(text) {
        Some((name, end)) => {
            let rest = crate::location::contents_names(text.skip(end as int));
            assert(crate::location::contents_names(text) == seq![name] + rest);
            if i == 0 {
                let named = |c: char| crate::location::bucket_char(c);
                lemma_leading_all(text.skip("\"Contents\":[\""@.len() as int), named);
                assert(named(name[j]));
            } else {
                assert(crate::location::contents_names(text)[i] == rest[i - 1]);
                law_listed_names_are_names(text.skip(end as int), i - 1, j);
            }
        },
        None => law_listed_names_are_names(text.skip(1), i, j),
    }
}

/// A text that is sent as a body is read from it as it was.
pub proof fn law_body_reads_back(text: Seq<char>)
    ensures
        crate::text::body_text(vstd::utf8::encode_utf8(text)) == text,
{
    vstd::utf8::encode_utf8_valid_utf8(text);
    vstd::utf8::encode_utf8_decode_utf8(text);
}

/// No text is found in a document that never opens the tag.
pub proof fn law_only_tagged_texts_are_found(events: Seq<crate::xml::XmlToken>, tag: Seq<u8>)
    requires
        forall|i: int|
            0 <= i < events.len() ==> (#[trigger] events[i]) != crate::xml::XmlToken::Start(tag),
    ensures
        crate::xml::texts_inside(events, tag, false) == Seq::<Seq<u8>>::empty(),
    decreases events.len(),
{
    if events.len() > 0 {
        let rest = events.skip(1);
        assert forall|i: int| 0 <= i < rest.len() implies (#[trigger] rest[i])
            != crate::xml::XmlToken::Start(tag) by {
            assert(rest[i] == events[i + 1]);
        }
        assert(events[0] != crate::xml::XmlToken::Start(tag));
        law_only_tagged_texts_are_found(rest, tag);
    }
}

/// A text between an opening tag and its closing tag is found, and comes before those that are
/// found behind the closing tag.
pub proof fn law_tagged_text_is_found(
    raw: Seq<u8>,
    tag: Seq<u8>,
    behind: Seq<crate::xml::XmlToken>,
)
    ensures
        crate::xml::texts_inside(
            seq![
                crate::xml::XmlToken::Start(tag),
                crate::xml::XmlToken::Text(raw),
                crate::xml::XmlToken::End(tag),
            ] + behind,
            tag,
            false,
        ) == seq![raw] + crate::xml::texts_inside(behind, tag, false),
{
    let events = seq![
        crate::xml::XmlToken::Start(tag),
        crate::xml::XmlToken::Text(raw),
        crate::xml::XmlToken::End(tag),
    ] + behind;
    assert(events.skip(1).skip(1).skip(1) =~= behind);
    reveal_with_fuel(crate::xml::texts_inside, 4);
    assert(events.skip(1)[0] == crate::xml::XmlToken::Text(raw));
    assert(events.skip(1).skip(1)[0] == crate::xml::XmlToken::End(tag));
}

/// Naming a kind of service a second time changes nothing more, and naming none changes nothing.
pub proof fn law_service_stays(ways: (AuthType, Format, UrlStyle), command: Seq<char>)
    ensures
        crate::handler::ways_after(crate::handler::ways_after(ways, command), command)
            == crate::handler::ways_after(ways, command),
        crate::handler::service_ways(command) is None ==> crate::handler::ways_after(ways, command)
            == ways,
{
}

/// The host that version 4 of the signature signs is the host that is called.
pub proof fn law_signed_host_is_called(
    moment: Seq<char>,
    hostname: Seq<char>,
    given: Pairs,
    uri: Seq<char>,
    canonical: Seq<char>,
)
    ensures
        value_of(
            seq![("X-AMZ-Date"@, moment), ("Host"@, hostname)] + crate::request::features(given),
            "Host"@,
        ) == Some(hostname),
        ("http://"@ + hostname).is_prefix_of(crate::request::url_of(hostname, uri, canonical)),
{
    let signed = seq![("X-AMZ-Date"@, moment), ("Host"@, hostname)] + crate::request::features(
        given,
    );
    reveal_strlit("X-AMZ-Date");
    reveal_strlit("Host");
    assert("X-AMZ-Date"@.len() != "Host"@.len());
    assert(signed.skip(1)[0] == ("Host"@, hostname));
    reveal_with_fuel(value_of, 2);
    let url = crate::request::url_of(hostname, uri, canonical);
    let start = "http://"@ + hostname;
    assert(start =~= url.subrange(0, start.len() as int));
}

/// A redirected call goes to the endpoint that it was sent to, whatever host the bucket was sought
/// at.
pub proof fn law_redirection_is_followed(
    host: Seq<char>,
    virtual_host: Option<Seq<char>>,
    endpoint: Seq<char>,
)
    ensures
        crate::request::hostname_of(host, virtual_host, Some(endpoint)) == endpoint,
{
}

/// A file that is stored in a bucket without a name for the object is found again by its own name,
/// where that can be the name of an object: the path that it is stored under is the path that a read
/// of `s3://bucket/name` asks for.
pub proof fn law_stored_file_is_found(bucket: Seq<char>, name: Seq<char>, slash: bool)
    requires
        bucket.len() > 0,
        forall|i: int| 0 <= i < bucket.len() ==> crate::location::bucket_char(#[trigger] bucket[i]),
        forall|i: int| 0 <= i < name.len() ==> crate::location::object_char(#[trigger] name[i]),
    ensures
        ({
            let place = seq!['s', '3', ':', '/', '/'] + bucket;
            let dest = place + if slash {
                seq!['/']
            } else {
                Seq::empty()
            };
            let object = seq!['/'] + name;
            &&& crate::upload::open_name(dest)
            &&& crate::location::s3_location(place + object) == Some((bucket, object))
            &&& crate::upload::put_uri(dest, name) == crate::command::object_route(
                UrlStyle::PATH,
                bucket,
                object,
            ).1
        }),
{
    let place = seq!['s', '3', ':', '/', '/'] + bucket;
    let end = if slash {
        seq!['/']
    } else {
        Seq::empty()
    };
    let object = seq!['/'] + name;
    assert forall|i: int| 0 <= i < object.len() implies crate::location::object_char(
        #[trigger] object[i],
    ) by {
        if i > 0 {
            assert(object[i] == name[i - 1]);
        }
    }
    law_location_reads_back('s', bucket, end);
    law_location_reads_back('s', bucket, object);
    reveal_strlit("/");
    assert("/"@ =~= seq!['/']);
    assert("/"@ + bucket + "/"@ + name =~= crate::command::path_uri(bucket, object));
}

/// A file that is stored under a name is found again by that name, whatever its own name is: the path
/// that it is stored under is the path that a read of the same place asks for.
pub proof fn law_named_file_is_found(dest: Seq<char>, name: Seq<char>)
    requires
        crate::location::s3_location(dest) is Some,
        !crate::upload::open_name(dest),
    ensures
        crate::location::s3_location(dest) matches Some((bucket, object))
            && crate::upload::put_uri(dest, name) == crate::command::object_route(
            UrlStyle::PATH,
            bucket,
            object,
        ).1,
{
}

} // verus!
