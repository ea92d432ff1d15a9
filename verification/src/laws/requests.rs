//! What holds of requests: what is signed, what is sent, and where to.

use crate::handler::{Format, Handler};
use crate::request::{ApiCall, DraftV2, DraftV4, HttpRequest, Pairs, Route, Verb};
use vstd::prelude::*;

verus! {

/// A call is seen as what it holds, field by field.
pub proof fn law_call_is_seen_whole(call: ApiCall)
    ensures
        call@.auth == call.auth,
        call@.method == call.method@,
        call@.virtual_host == call.virtual_host.deep_view(),
        call@.uri == call.uri@,
        call@.query == call.query.deep_view(),
        call@.headers == call.headers.deep_view(),
        call@.payload == call.payload@,
{
}

/// Every method has its verb, and one that is not known is sent as `GET`.
pub proof fn law_verbs(method: &str, r: Verb)
    requires
        call_ensures(crate::request::verb, (method,), r),
    ensures
        r == Verb::Put <==> method@ == "PUT"@,
        r == Verb::Delete <==> method@ == "DELETE"@,
        r == Verb::Post <==> method@ == "POST"@,
        r == Verb::Get <==> method@ != "PUT"@ && method@ != "DELETE"@ && method@ != "POST"@,
{
    reveal_strlit("PUT");
    reveal_strlit("DELETE");
    reveal_strlit("POST");
    assert("PUT"@.len() == 3 && "DELETE"@.len() == 6 && "POST"@.len() == 4);
}

/// Whether a query asks for the format of a handler and then for what a call asks for, in order.
pub open spec fn asks_in_format(
    format: Format,
    query: Seq<(String, String)>,
    asked: Seq<(String, String)>,
) -> bool {
    match format {
        Format::JSON => {
            &&& query.len() == asked.len() + 1
            &&& query[0].0@ == "format"@ && query[0].1@ == "json"@
            &&& forall|i: int|
                0 <= i < asked.len() ==> query[i + 1].0@ == (#[trigger] asked[i]).0@ && query[i
                    + 1].1@ == asked[i].1@
        },
        Format::XML => {
            &&& query.len() == asked.len()
            &&& forall|i: int|
                0 <= i < asked.len() ==> query[i].0@ == (#[trigger] asked[i]).0@ && query[i].1@
                    == asked[i].1@
        },
    }
}

proof fn lemma_asks_in_format(
    format: Format,
    query: Vec<(String, String)>,
    asked: Vec<(String, String)>,
)
    requires
        query.deep_view() == crate::request::full_query(format, asked.deep_view()),
    ensures
        asks_in_format(format, query@, asked@),
{
    let all = query.deep_view();
    let given = asked.deep_view();
    assert(all.len() == query@.len());
    assert(given.len() == asked@.len());
    match format {
        Format::JSON => {
            assert(all[0] == (query@[0].0@, query@[0].1@));
            assert(all[0] == ("format"@, "json"@));
            assert forall|i: int| 0 <= i < asked@.len() implies query@[i + 1].0@ == (
            #[trigger] asked@[i]).0@ && query@[i + 1].1@ == asked@[i].1@ by {
                assert(all[i + 1] == (query@[i + 1].0@, query@[i + 1].1@));
                assert(given[i] == (asked@[i].0@, asked@[i].1@));
                assert(all[i + 1] == given[i]);
            }
        },
        Format::XML => {
            assert forall|i: int| 0 <= i < asked@.len() implies query@[i].0@ == (
            #[trigger] asked@[i]).0@ && query@[i].1@ == asked@[i].1@ by {
                assert(all[i] == (query@[i].0@, query@[i].1@));
                assert(given[i] == (asked@[i].0@, asked@[i].1@));
            }
        },
    }
}

/// Whether a header is the one by which a feature is sent.
pub open spec fn is_feature(name: Seq<char>, sent: Seq<char>) -> bool {
    ||| name == "delete-marker"@ && sent == "x-amz-delete-marker"@
    ||| name == "secure-delete"@ && sent == "x-amz-secure-delete"@
}

proof fn lemma_feature_names()
    ensures
        "delete-marker"@ != "secure-delete"@,
        "x-amz-delete-marker"@ != "x-amz-secure-delete"@,
{
    reveal_strlit("delete-marker");
    reveal_strlit("secure-delete");
    reveal_strlit("x-amz-delete-marker");
    reveal_strlit("x-amz-secure-delete");
    assert("delete-marker"@[0] == 'd' && "secure-delete"@[0] == 's');
    assert("x-amz-delete-marker"@[6] == 'd' && "x-amz-secure-delete"@[6] == 's');
}

proof fn lemma_sent_on_grows(
    given: Pairs,
    pair: (Seq<char>, Seq<char>),
    name: Seq<char>,
    sent: Seq<char>,
)
    ensures
        crate::request::sent_on(given.push(pair), name, sent) == if pair.0 == name {
            crate::request::sent_on(given, name, sent).push((sent, pair.1))
        } else {
            crate::request::sent_on(given, name, sent)
        },
    decreases given.len(),
{
    let all = given.push(pair);
    if given.len() == 0 {
        assert(all.skip(1) =~= Seq::empty());
        reveal_with_fuel(crate::request::sent_on, 2);
        assert(all[0] == pair);
        let found = crate::request::sent_on(all, name, sent);
        if pair.0 == name {
            assert(found =~= seq![(sent, pair.1)]);
            assert(found =~= crate::request::sent_on(given, name, sent).push((sent, pair.1)));
        }
    } else {
        assert(all.skip(1) =~= given.skip(1).push(pair));
        assert(all[0] == given[0]);
        lemma_sent_on_grows(given.skip(1), pair, name, sent);
        if given[0].0 == name {
            let tail = crate::request::sent_on(given.skip(1), name, sent);
            assert(seq![(sent, given[0].1)] + tail.push((sent, pair.1)) =~= (seq![
                (sent, given[0].1),
            ] + tail).push((sent, pair.1)));
        }
    }
}

proof fn lemma_sent_on_has(given: Pairs, name: Seq<char>, sent: Seq<char>, i: int)
    requires
        0 <= i < given.len(),
        given[i].0 == name,
    ensures
        crate::request::sent_on(given, name, sent).contains((sent, given[i].1)),
        (forall|j: int| i < j < given.len() ==> (#[trigger] given[j]).0 != name)
            ==> crate::request::sent_on(given, name, sent).last() == (sent, given[i].1),
    decreases given.len(),
{
    let before = given.drop_last();
    let pair = given.last();
    assert(before.push(pair) =~= given);
    lemma_sent_on_grows(before, pair, name, sent);
    let all = crate::request::sent_on(given, name, sent);
    if i == given.len() - 1 {
        assert(all[all.len() - 1] == (sent, given[i].1));
    } else {
        assert(before[i] == given[i]);
        lemma_sent_on_has(before, name, sent, i);
        let some = crate::request::sent_on(before, name, sent);
        let k = choose|k: int| 0 <= k < some.len() && some[k] == (sent, given[i].1);
        assert(all[k] == (sent, given[i].1));
        if forall|j: int| i < j < given.len() ==> (#[trigger] given[j]).0 != name {
            assert(given[given.len() - 1].0 != name);
            assert forall|j: int| i < j < before.len() implies (#[trigger] before[j]).0 != name by {
                assert(before[j] == given[j]);
            }
        }
    }
}

/// One more thing that a caller gives is one more feature where it asks for one, and changes nothing
/// otherwise: no feature waits for another.
pub proof fn law_features_are_apart(given: Pairs, pair: (Seq<char>, Seq<char>))
    ensures
        crate::request::features(Seq::empty()) == Seq::<(Seq<char>, Seq<char>)>::empty(),
        crate::request::features(given.push(pair)).to_multiset()
            == crate::request::features(given).to_multiset().add(
            if pair.0 == "delete-marker"@ {
                vstd::multiset::Multiset::singleton(("x-amz-delete-marker"@, pair.1))
            } else if pair.0 == "secure-delete"@ {
                vstd::multiset::Multiset::singleton(("x-amz-secure-delete"@, pair.1))
            } else {
                vstd::multiset::Multiset::empty()
            },
        ),
{
    broadcast use vstd::seq_lib::group_to_multiset_ensures;

    lemma_feature_names();
    lemma_sent_on_grows(given, pair, "delete-marker"@, "x-amz-delete-marker"@);
    lemma_sent_on_grows(given, pair, "secure-delete"@, "x-amz-secure-delete"@);
    let markers = crate::request::sent_on(given, "delete-marker"@, "x-amz-delete-marker"@);
    let deletes = crate::request::sent_on(given, "secure-delete"@, "x-amz-secure-delete"@);
    let none = Seq::<(Seq<char>, Seq<char>)>::empty();
    assert(crate::request::features(none) =~= none);
    vstd::seq_lib::lemma_multiset_commutative(markers, deletes);
    if pair.0 == "delete-marker"@ {
        let more = markers.push(("x-amz-delete-marker"@, pair.1));
        vstd::seq_lib::lemma_multiset_commutative(more, deletes);
        assert(crate::request::features(given.push(pair)) == more + deletes);
        assert(more.to_multiset() =~= markers.to_multiset().insert(
            ("x-amz-delete-marker"@, pair.1),
        ));
    } else if pair.0 == "secure-delete"@ {
        let more = deletes.push(("x-amz-secure-delete"@, pair.1));
        vstd::seq_lib::lemma_multiset_commutative(markers, more);
        assert(crate::request::features(given.push(pair)) == markers + more);
        assert(more.to_multiset() =~= deletes.to_multiset().insert(
            ("x-amz-secure-delete"@, pair.1),
        ));
    }
    assert(crate::request::features(given.push(pair)).to_multiset()
        =~= crate::request::features(given).to_multiset().add(
        if pair.0 == "delete-marker"@ {
            vstd::multiset::Multiset::singleton(("x-amz-delete-marker"@, pair.1))
        } else if pair.0 == "secure-delete"@ {
            vstd::multiset::Multiset::singleton(("x-amz-secure-delete"@, pair.1))
        } else {
            vstd::multiset::Multiset::empty()
        },
    ));
}

/// The features that a caller gives keep their order: delete markers come first, then secure deletes,
/// and one more of a kind stands behind those of its kind.
pub proof fn law_features_keep_their_order(given: Pairs, pair: (Seq<char>, Seq<char>))
    ensures
        exists|markers: Pairs, deletes: Pairs| #[trigger]
            (markers + deletes) == crate::request::features(given) && (forall|i: int|
                0 <= i < markers.len() ==> (#[trigger] markers[i]).0 == "x-amz-delete-marker"@) && (
            forall|i: int|
                0 <= i < deletes.len() ==> (#[trigger] deletes[i]).0 == "x-amz-secure-delete"@)
                && crate::request::features(given.push(pair)) == if pair.0 == "delete-marker"@ {
                markers.push(("x-amz-delete-marker"@, pair.1)) + deletes
            } else if pair.0 == "secure-delete"@ {
                markers + deletes.push(("x-amz-secure-delete"@, pair.1))
            } else {
                markers + deletes
            },
{
    lemma_feature_names();
    lemma_sent_on_grows(given, pair, "delete-marker"@, "x-amz-delete-marker"@);
    lemma_sent_on_grows(given, pair, "secure-delete"@, "x-amz-secure-delete"@);
    crate::laws::lemma_sent_on_names(given, "delete-marker"@, "x-amz-delete-marker"@);
    crate::laws::lemma_sent_on_names(given, "secure-delete"@, "x-amz-secure-delete"@);
    let markers = crate::request::sent_on(given, "delete-marker"@, "x-amz-delete-marker"@);
    let deletes = crate::request::sent_on(given, "secure-delete"@, "x-amz-secure-delete"@);
    assert(markers + deletes == crate::request::features(given));
}

proof fn lemma_given_feature(given: Pairs, i: int, sent: Seq<char>, first: Pairs)
    requires
        0 <= i < given.len(),
        is_feature(given[i].0, sent),
    ensures
        crate::request::features(given).contains((sent, given[i].1)),
        (forall|j: int| i < j < given.len() ==> (#[trigger] given[j]).0 != given[i].0)
            ==> crate::laws::value_of(
            crate::request::with_headers(first, crate::request::features(given)),
            sent,
        ) == Some(given[i].1),
{
    lemma_feature_names();
    let markers = crate::request::sent_on(given, "delete-marker"@, "x-amz-delete-marker"@);
    let deletes = crate::request::sent_on(given, "secure-delete"@, "x-amz-secure-delete"@);
    let all = crate::request::features(given);
    crate::laws::lemma_sent_on_names(given, "delete-marker"@, "x-amz-delete-marker"@);
    crate::laws::lemma_sent_on_names(given, "secure-delete"@, "x-amz-secure-delete"@);
    lemma_sent_on_has(given, given[i].0, sent, i);
    let pair = (sent, given[i].1);
    if given[i].0 == "delete-marker"@ {
        let k = choose|k: int| 0 <= k < markers.len() && markers[k] == pair;
        assert(all[k] == pair);
        if forall|j: int| i < j < given.len() ==> (#[trigger] given[j]).0 != given[i].0 {
            let last = markers.len() - 1;
            assert(markers[last] == pair);
            assert(all[last] == pair);
            assert forall|j: int| last < j < all.len() implies (#[trigger] all[j]).0
                != all[last].0 by {
                assert(all[j] == deletes[j - markers.len()]);
            }
            crate::laws::lemma_with_headers_sets(first, all, last);
        }
    } else {
        let k = choose|k: int| 0 <= k < deletes.len() && deletes[k] == pair;
        assert(all[markers.len() + k] == pair);
        if forall|j: int| i < j < given.len() ==> (#[trigger] given[j]).0 != given[i].0 {
            let last = all.len() - 1;
            assert(deletes[deletes.len() - 1] == pair);
            assert(all[last] == pair);
            crate::laws::lemma_with_headers_sets(first, all, last);
        }
    }
}

proof fn lemma_other_header(given: Pairs, name: Seq<char>, first: Pairs)
    requires
        name != "x-amz-delete-marker"@,
        name != "x-amz-secure-delete"@,
    ensures
        crate::laws::value_of(
            crate::request::with_headers(first, crate::request::features(given)),
            name,
        ) == crate::laws::value_of(first, name),
{
    let markers = crate::request::sent_on(given, "delete-marker"@, "x-amz-delete-marker"@);
    let deletes = crate::request::sent_on(given, "secure-delete"@, "x-amz-secure-delete"@);
    let all = crate::request::features(given);
    crate::laws::lemma_sent_on_names(given, "delete-marker"@, "x-amz-delete-marker"@);
    crate::laws::lemma_sent_on_names(given, "secure-delete"@, "x-amz-secure-delete"@);
    assert forall|j: int| 0 <= j < all.len() implies (#[trigger] all[j]).0 != name by {
        if j < markers.len() {
            assert(all[j] == markers[j]);
        } else {
            assert(all[j] == deletes[j - markers.len()]);
        }
    }
    crate::laws::lemma_with_headers_keeps(first, all, name);
}

proof fn lemma_unasked_feature(given: Pairs, name: Seq<char>, sent: Seq<char>, first: Pairs)
    requires
        is_feature(name, sent),
        forall|j: int| 0 <= j < given.len() ==> (#[trigger] given[j]).0 != name,
    ensures
        crate::laws::value_of(
            crate::request::with_headers(first, crate::request::features(given)),
            sent,
        ) == crate::laws::value_of(first, sent),
{
    lemma_feature_names();
    let markers = crate::request::sent_on(given, "delete-marker"@, "x-amz-delete-marker"@);
    let deletes = crate::request::sent_on(given, "secure-delete"@, "x-amz-secure-delete"@);
    let all = crate::request::features(given);
    crate::laws::lemma_sent_on_names(given, "delete-marker"@, "x-amz-delete-marker"@);
    crate::laws::lemma_sent_on_names(given, "secure-delete"@, "x-amz-secure-delete"@);
    crate::laws::lemma_sent_on_none(given, name, sent);
    assert forall|j: int| 0 <= j < all.len() implies (#[trigger] all[j]).0 != sent by {
        if j < markers.len() {
            assert(all[j] == markers[j]);
        } else {
            assert(all[j] == deletes[j - markers.len()]);
        }
    }
    crate::laws::lemma_with_headers_keeps(first, all, sent);
}

/// Under version 2 the query asks for the format and then for what the call asks for, and the date is
/// signed first and sent.
pub proof fn law_draft_of_version_2(h: &Handler<'_>, call: &ApiCall, now: i64, r: DraftV2)
    requires
        call_ensures(Handler::aws_v2_draft, (h, call, now), r),
    ensures
        asks_in_format(h.format, r.query@, call.query@),
        r.signed_headers@.len() > 0,
        r.signed_headers@[0].0@ == "Date"@,
        r.signed_headers@[0].1@ == crate::clock::rfc2822_text(now as int),
        r.signed_headers.deep_view().skip(1) == crate::request::features(call@.headers),
        crate::laws::value_of(r.headers.deep_view(), "date"@) == Some(
            crate::clock::rfc2822_text(now as int),
        ),
{
    lemma_asks_in_format(h.format, r.query, call.query);
    let signed = r.signed_headers.deep_view();
    assert(signed.len() == r.signed_headers@.len());
    assert(signed[0] == (r.signed_headers@[0].0@, r.signed_headers@[0].1@));
    assert(signed.skip(1) =~= crate::request::features(call@.headers));
    assert("date"@ != "x-amz-delete-marker"@ && "date"@ != "x-amz-secure-delete"@) by {
        reveal_strlit("date");
        reveal_strlit("x-amz-delete-marker");
        reveal_strlit("x-amz-secure-delete");
        assert("date"@.len() == 4);
        assert("x-amz-delete-marker"@.len() == 19);
        assert("x-amz-secure-delete"@.len() == 19);
    }
    let first = seq![("date"@, crate::clock::rfc2822_text(now as int))];
    lemma_other_header(call@.headers, "date"@, first);
    assert(first[0].0 == "date"@);
}

/// Under version 4 the query asks for the format and then for what the call asks for. The moment and
/// the host are signed first; the moment and the hash of the payload are sent.
pub proof fn law_draft_of_version_4(
    h: &Handler<'_>,
    call: &ApiCall,
    route: &Route,
    now: i64,
    payload_hash: &str,
    r: DraftV4,
)
    requires
        call_ensures(Handler::aws_v4_draft, (h, call, route, now, payload_hash), r),
    ensures
        asks_in_format(h.format, r.query@, call.query@),
        match (route.endpoint, route.virtual_host) {
            (Some(endpoint), _) => r.hostname@ == endpoint@,
            (None, Some(bucket)) => r.hostname@ == bucket@ + "."@ + h.host@,
            (None, None) => r.hostname@ == h.host@,
        },
        r.moment@ == crate::clock::utc_text(now as int, "%Y%m%dT%H%M%SZ"@),
        r.day@ == crate::clock::utc_text(now as int, "%Y%m%d"@),
        r.region.deep_view() == route.region.deep_view(),
        r.signed_headers@.len() > 1,
        r.signed_headers@[0].0@ == "X-AMZ-Date"@,
        r.signed_headers@[0].1@ == r.moment@,
        r.signed_headers@[1].0@ == "Host"@,
        r.signed_headers@[1].1@ == r.hostname@,
        r.signed_headers.deep_view().skip(2) == crate::request::features(call@.headers),
        crate::laws::value_of(r.headers.deep_view(), "x-amz-date"@) == Some(r.moment@),
        crate::laws::value_of(r.headers.deep_view(), "x-amz-content-sha256"@) == Some(
            payload_hash@,
        ),
{
    lemma_asks_in_format(h.format, r.query, call.query);
    let signed = r.signed_headers.deep_view();
    assert(signed.len() == r.signed_headers@.len());
    assert(signed[0] == (r.signed_headers@[0].0@, r.signed_headers@[0].1@));
    assert(signed[1] == (r.signed_headers@[1].0@, r.signed_headers@[1].1@));
    assert(signed.skip(2) =~= crate::request::features(call@.headers));
    reveal_strlit("x-amz-date");
    reveal_strlit("x-amz-content-sha256");
    reveal_strlit("x-amz-delete-marker");
    reveal_strlit("x-amz-secure-delete");
    assert("x-amz-date"@.len() == 10);
    assert("x-amz-content-sha256"@.len() == 20);
    assert("x-amz-delete-marker"@.len() == 19);
    assert("x-amz-secure-delete"@.len() == 19);
    let first = seq![("x-amz-date"@, r.moment@), ("x-amz-content-sha256"@, payload_hash@)];
    lemma_other_header(call@.headers, "x-amz-date"@, first);
    lemma_other_header(call@.headers, "x-amz-content-sha256"@, first);
    assert(first.skip(1)[0] == ("x-amz-content-sha256"@, payload_hash@));
    reveal_with_fuel(crate::laws::value_of, 2);
}

/// Every delete marker and every secure delete that a caller gives is signed, by either version of the
/// signature, whatever else is given; and the last of each is sent.
pub proof fn law_given_features_are_signed_and_sent(
    h: &Handler<'_>,
    call: &ApiCall,
    route: &Route,
    now: i64,
    payload_hash: &str,
    v2: DraftV2,
    v4: DraftV4,
    i: int,
    sent: Seq<char>,
)
    requires
        call_ensures(Handler::aws_v2_draft, (h, call, now), v2),
        call_ensures(Handler::aws_v4_draft, (h, call, route, now, payload_hash), v4),
        0 <= i < call.headers@.len(),
        is_feature(call.headers@[i].0@, sent),
    ensures
        v2.signed_headers.deep_view().contains((sent, call.headers@[i].1@)),
        v4.signed_headers.deep_view().contains((sent, call.headers@[i].1@)),
        (forall|j: int|
            i < j < call.headers@.len() ==> (#[trigger] call.headers@[j]).0@
                != call.headers@[i].0@) ==> crate::laws::value_of(v2.headers.deep_view(), sent)
            == Some(call.headers@[i].1@) && crate::laws::value_of(v4.headers.deep_view(), sent)
            == Some(call.headers@[i].1@),
{
    let given = call.headers.deep_view();
    assert(given.len() == call.headers@.len());
    assert forall|j: int| 0 <= j < given.len() implies given[j] == (
        (#[trigger] call.headers@[j]).0@,
        call.headers@[j].1@,
    ) by {}
    let pair = (sent, given[i].1);
    let features = crate::request::features(given);
    let first_v2 = seq![("date"@, crate::clock::rfc2822_text(now as int))];
    let first_v4 = seq![("x-amz-date"@, v4.moment@), ("x-amz-content-sha256"@, payload_hash@)];
    lemma_given_feature(given, i, sent, first_v2);
    lemma_given_feature(given, i, sent, first_v4);
    let k = choose|k: int| 0 <= k < features.len() && features[k] == pair;
    assert(v2.signed_headers.deep_view()[k + 1] == pair);
    assert(v4.signed_headers.deep_view()[k + 2] == pair);
    if forall|j: int|
        i < j < call.headers@.len() ==> (#[trigger] call.headers@[j]).0@ != call.headers@[i].0@ {
        assert forall|j: int| i < j < given.len() implies (#[trigger] given[j]).0 != given[i].0 by {
            assert(call.headers@[j].0@ != call.headers@[i].0@);
        }
    }
}

/// Nothing is sent but the headers of a request, and of the features those that a caller gives.
pub proof fn law_nothing_else_is_sent(
    h: &Handler<'_>,
    call: &ApiCall,
    route: &Route,
    now: i64,
    payload_hash: &str,
    v2: DraftV2,
    v4: DraftV4,
    name: Seq<char>,
)
    requires
        call_ensures(Handler::aws_v2_draft, (h, call, now), v2),
        call_ensures(Handler::aws_v4_draft, (h, call, route, now, payload_hash), v4),
        name == "x-amz-delete-marker"@ ==> forall|j: int|
            0 <= j < call.headers@.len() ==> (#[trigger] call.headers@[j]).0@ != "delete-marker"@,
        name == "x-amz-secure-delete"@ ==> forall|j: int|
            0 <= j < call.headers@.len() ==> (#[trigger] call.headers@[j]).0@ != "secure-delete"@,
    ensures
        name != "date"@ ==> crate::laws::value_of(v2.headers.deep_view(), name) is None,
        name != "x-amz-date"@ && name != "x-amz-content-sha256"@ ==> crate::laws::value_of(
            v4.headers.deep_view(),
            name,
        ) is None,
{
    let given = call.headers.deep_view();
    assert(given.len() == call.headers@.len());
    assert forall|j: int| 0 <= j < given.len() implies given[j] == (
        (#[trigger] call.headers@[j]).0@,
        call.headers@[j].1@,
    ) by {}
    let first_v2 = seq![("date"@, crate::clock::rfc2822_text(now as int))];
    let first_v4 = seq![("x-amz-date"@, v4.moment@), ("x-amz-content-sha256"@, payload_hash@)];
    if name == "x-amz-delete-marker"@ {
        assert forall|j: int| 0 <= j < given.len() implies (#[trigger] given[j]).0
            != "delete-marker"@ by {
            assert(call.headers@[j].0@ != "delete-marker"@);
        }
        lemma_unasked_feature(given, "delete-marker"@, name, first_v2);
        lemma_unasked_feature(given, "delete-marker"@, name, first_v4);
    } else if name == "x-amz-secure-delete"@ {
        assert forall|j: int| 0 <= j < given.len() implies (#[trigger] given[j]).0
            != "secure-delete"@ by {
            assert(call.headers@[j].0@ != "secure-delete"@);
        }
        lemma_unasked_feature(given, "secure-delete"@, name, first_v2);
        lemma_unasked_feature(given, "secure-delete"@, name, first_v4);
    } else {
        lemma_other_header(given, name, first_v2);
        lemma_other_header(given, name, first_v4);
    }
    reveal_with_fuel(crate::laws::value_of, 3);
    assert(first_v2.skip(1) =~= Seq::empty());
    assert(first_v4.skip(1)[0] == ("x-amz-content-sha256"@, payload_hash@));
    assert(first_v4.skip(1).skip(1) =~= Seq::empty());
}

/// A request of version 2 goes to the host with the path of its call, carries the payload, and adds to
/// the headers of the draft who sends it.
pub proof fn law_request_of_version_2(
    h: &Handler<'_>,
    call: &ApiCall,
    draft: DraftV2,
    canonical: &str,
    signature: &str,
    r: HttpRequest,
    name: Seq<char>,
)
    requires
        call_ensures(Handler::aws_v2_request, (h, call, draft, canonical, signature), r),
    ensures
        r.url@ == "http://"@ + h.host@ + call.uri@ + "?"@ + canonical@,
        r.body@ == call.payload@,
        r.verb == crate::request::verb_of(call.method@),
        crate::laws::value_of(r.headers.deep_view(), "authorization"@) == Some(
            "AWS "@ + h.access_key@ + ":"@ + signature@,
        ),
        name != "authorization"@ ==> crate::laws::value_of(r.headers.deep_view(), name)
            == crate::laws::value_of(draft.headers.deep_view(), name),
{
    crate::laws::law_header_is_set(
        draft.headers.deep_view(),
        "authorization"@,
        "AWS "@ + h.access_key@ + ":"@ + signature@,
        name,
    );
}

/// A request of version 4 goes to the host of its draft with the path of its call, carries the payload,
/// and adds to the headers of the draft who sends it, for which day and region.
pub proof fn law_request_of_version_4(
    h: &Handler<'_>,
    call: &ApiCall,
    draft: DraftV4,
    canonical: &str,
    names: &str,
    signature: &str,
    r: HttpRequest,
    name: Seq<char>,
)
    requires
        call_ensures(Handler::aws_v4_request, (h, call, draft, canonical, names, signature), r),
    ensures
        r.url@ == "http://"@ + draft.hostname@ + call.uri@ + "?"@ + canonical@,
        r.body@ == call.payload@,
        r.verb == crate::request::verb_of(call.method@),
        ({
            let region = match draft.region {
                Some(region) => region@,
                None => "us-east-1"@,
            };
            crate::laws::value_of(r.headers.deep_view(), "authorization"@) == Some(
                "AWS4-HMAC-SHA256 Credential="@ + h.access_key@ + "/"@ + draft.day@ + "/"@
                    + region + "/s3/aws4_request, SignedHeaders="@ + names@ + ", Signature="@
                    + signature@,
            )
        }),
        name != "authorization"@ ==> crate::laws::value_of(r.headers.deep_view(), name)
            == crate::laws::value_of(draft.headers.deep_view(), name),
{
    crate::laws::law_header_is_set(
        draft.headers.deep_view(),
        "authorization"@,
        crate::request::v4_authorization(
            h.access_key@,
            draft.day@,
            draft.region.deep_view(),
            names@,
            signature@,
        ),
        name,
    );
}

/// A call takes its own part of the host and the region of the handler at first, and no endpoint.
pub proof fn law_first_route(h: &Handler<'_>, call: &ApiCall, r: Route)
    requires
        call_ensures(Handler::first_route, (h, call), r),
    ensures
        r.virtual_host.deep_view() == call.virtual_host.deep_view(),
        r.region.deep_view() == h.region.deep_view(),
        r.endpoint is None,
{
}

} // verus!
