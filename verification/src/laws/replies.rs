//! What holds of replies: what is read out of them and what is shown.

use crate::command::{Download, End, Outcome};
use crate::handler::{AuthType, Format, Handler, UrlStyle};
use crate::json::Json;
use crate::listing::{Source, Step, Tour, Turn};
use crate::request::{Answer, ApiCall, Fault, Reply};
use crate::xml::{XmlEvent, XmlToken};
use serde_json::Value;
use vstd::prelude::*;

verus! {

/// Whether a place among events lies inside a tag: the tag was opened before it, and not closed since.
pub open spec fn inside_at(events: Seq<XmlToken>, tag: Seq<u8>, at: int) -> bool {
    exists|j: int|
        0 <= j < at && #[trigger] events[j] == XmlToken::Start(tag) && forall|k: int|
            j < k < at ==> #[trigger] events[k] != XmlToken::End(tag)
}

spec fn stays_inside(events: Seq<XmlToken>, tag: Seq<u8>, inside: bool) -> bool
    decreases events.len(),
{
    if events.len() == 0 {
        inside
    } else if events[0] == XmlToken::Start(tag) {
        stays_inside(events.skip(1), tag, true)
    } else if events[0] == XmlToken::End(tag) {
        stays_inside(events.skip(1), tag, false)
    } else {
        stays_inside(events.skip(1), tag, inside)
    }
}

proof fn lemma_stays_inside(events: Seq<XmlToken>, tag: Seq<u8>, inside: bool)
    ensures
        stays_inside(events, tag, inside) <==> inside_at(events, tag, events.len() as int) || (
        inside && forall|k: int|
            0 <= k < events.len() ==> #[trigger] events[k] != XmlToken::End(tag)),
    decreases events.len(),
{
    if events.len() > 0 {
        let rest = events.skip(1);
        let n = events.len() as int;
        let next = if events[0] == XmlToken::Start(tag) {
            true
        } else if events[0] == XmlToken::End(tag) {
            false
        } else {
            inside
        };
        lemma_stays_inside(rest, tag, next);
        let closed_none = forall|k: int|
            0 <= k < n ==> #[trigger] events[k] != XmlToken::End(tag);
        let rest_none = forall|k: int|
            0 <= k < n - 1 ==> #[trigger] rest[k] != XmlToken::End(tag);
        if rest_none {
            assert forall|k: int| 1 <= k < n implies #[trigger] events[k] != XmlToken::End(
                tag,
            ) by {
                assert(rest[k - 1] == events[k]);
            }
        }
        if closed_none {
            assert forall|k: int| 0 <= k < n - 1 implies #[trigger] rest[k] != XmlToken::End(
                tag,
            ) by {
                assert(rest[k] == events[k + 1]);
            }
        }
        if inside_at(rest, tag, n - 1) {
            let j = choose|j: int|
                0 <= j < n - 1 && #[trigger] rest[j] == XmlToken::Start(tag) && forall|k: int|
                    j < k < n - 1 ==> #[trigger] rest[k] != XmlToken::End(tag);
            assert(events[j + 1] == XmlToken::Start(tag));
            assert forall|k: int| j + 1 < k < n implies #[trigger] events[k] != XmlToken::End(
                tag,
            ) by {
                assert(rest[k - 1] == events[k]);
            }
        }
        if inside_at(events, tag, n) {
            let j = choose|j: int|
                0 <= j < n && #[trigger] events[j] == XmlToken::Start(tag) && forall|k: int|
                    j < k < n ==> #[trigger] events[k] != XmlToken::End(tag);
            if j > 0 {
                assert(rest[j - 1] == XmlToken::Start(tag));
                assert forall|k: int| j - 1 < k < n - 1 implies #[trigger] rest[k]
                    != XmlToken::End(tag) by {
                    assert(rest[k] == events[k + 1]);
                }
            } else {
                assert forall|k: int| 0 <= k < n - 1 implies #[trigger] rest[k] != XmlToken::End(
                    tag,
                ) by {
                    assert(rest[k] == events[k + 1]);
                }
            }
        }
        if events[0] == XmlToken::Start(tag) && rest_none {
            assert(inside_at(events, tag, n));
        }
    }
}

proof fn lemma_texts_grow(events: Seq<XmlToken>, event: XmlToken, tag: Seq<u8>, inside: bool)
    ensures
        crate::xml::texts_inside(events.push(event), tag, inside) == crate::xml::texts_inside(
            events,
            tag,
            inside,
        ) + match event {
            XmlToken::Text(raw) => if stays_inside(events, tag, inside) {
                seq![raw]
            } else {
                Seq::empty()
            },
            _ => Seq::empty(),
        },
    decreases events.len(),
{
    let all = events.push(event);
    if events.len() == 0 {
        assert(all.skip(1) =~= Seq::empty());
        assert(all[0] == event);
        let found = crate::xml::texts_inside(all, tag, inside);
        assert(crate::xml::texts_inside(events, tag, inside) =~= Seq::empty());
        reveal_with_fuel(crate::xml::texts_inside, 2);
        match event {
            XmlToken::Text(raw) => {
                if inside {
                    assert(found =~= seq![raw]);
                } else {
                    assert(found =~= Seq::empty());
                }
            },
            _ => {
                assert(found =~= Seq::empty());
            },
        }
    } else {
        let rest = events.skip(1);
        assert(all.skip(1) =~= rest.push(event));
        assert(all[0] == events[0]);
        let more = match event {
            XmlToken::Text(raw) => if stays_inside(events, tag, inside) {
                seq![raw]
            } else {
                Seq::empty()
            },
            _ => Seq::empty(),
        };
        match events[0] {
            XmlToken::Start(name) => {
                lemma_texts_grow(rest, event, tag, inside || name == tag);
            },
            XmlToken::End(name) => {
                lemma_texts_grow(rest, event, tag, inside && name != tag);
            },
            XmlToken::Text(raw) => {
                lemma_texts_grow(rest, event, tag, inside);
                let tail = crate::xml::texts_inside(rest, tag, inside);
                assert(seq![raw] + (tail + more) =~= (seq![raw] + tail) + more);
            },
            _ => {
                lemma_texts_grow(rest, event, tag, inside);
            },
        }
        assert(crate::xml::texts_inside(all, tag, inside) =~= crate::xml::texts_inside(
            events,
            tag,
            inside,
        ) + more);
    }
}

/// The texts inside a tag are those events of a document that are texts and lie inside the tag, in
/// their order: one more event adds itself where it is such a text, and nothing otherwise.
pub proof fn law_texts_are_those_inside(events: Seq<XmlToken>, event: XmlToken, tag: Seq<u8>)
    ensures
        crate::xml::texts_inside(Seq::empty(), tag, false) == Seq::<Seq<u8>>::empty(),
        (event matches XmlToken::Text(raw) && inside_at(events, tag, events.len() as int)) ==> {
            crate::xml::texts_inside(events.push(event), tag, false) == crate::xml::texts_inside(
                events,
                tag,
                false,
            ).push(event->Text_0)
        },
        !(event is Text && inside_at(events, tag, events.len() as int)) ==> {
            crate::xml::texts_inside(events.push(event), tag, false) == crate::xml::texts_inside(
                events,
                tag,
                false,
            )
        },
{
    lemma_texts_grow(events, event, tag, false);
    lemma_stays_inside(events, tag, false);
    let found = crate::xml::texts_inside(events, tag, false);
    assert(found + Seq::empty() =~= found);
    if event is Text {
        assert(found + seq![event->Text_0] =~= found.push(event->Text_0));
    }
}

/// An event that is neither a tag nor a text changes nothing, wherever it stands.
pub proof fn law_other_events_change_nothing(
    before: Seq<XmlToken>,
    behind: Seq<XmlToken>,
    tag: Seq<u8>,
    inside: bool,
)
    ensures
        crate::xml::texts_inside(before + seq![XmlToken::Other] + behind, tag, inside)
            == crate::xml::texts_inside(before + behind, tag, inside),
    decreases before.len(),
{
    let all = before + seq![XmlToken::Other] + behind;
    if before.len() == 0 {
        assert(all.skip(1) =~= behind);
        assert(before + behind =~= behind);
        assert(all[0] == XmlToken::Other);
    } else {
        let rest = before.skip(1);
        assert(all.skip(1) =~= rest + seq![XmlToken::Other] + behind);
        assert((before + behind).skip(1) =~= rest + behind);
        assert(all[0] == before[0]);
        assert((before + behind)[0] == before[0]);
        match before[0] {
            XmlToken::Start(name) => law_other_events_change_nothing(
                rest,
                behind,
                tag,
                inside || name == tag,
            ),
            XmlToken::End(name) => law_other_events_change_nothing(
                rest,
                behind,
                tag,
                inside && name != tag,
            ),
            _ => law_other_events_change_nothing(rest, behind, tag, inside),
        }
    }
}

/// Whether an event opens a tag.
pub open spec fn opens(event: XmlEvent, tag: Seq<u8>) -> bool {
    event matches XmlEvent::Start(name) && name@ == tag
}

/// Whether an event closes a tag.
pub open spec fn closes(event: XmlEvent, tag: Seq<u8>) -> bool {
    event matches XmlEvent::End(name) && name@ == tag
}

/// Picking the texts inside a tag out of one event more finds that event too, where it is a text and
/// the tag was opened before it and not closed since, and finds nothing more otherwise. The document
/// could be read to its end where that event is the end.
pub proof fn law_picked_texts(
    events: Vec<XmlEvent>,
    more: Vec<XmlEvent>,
    event: XmlEvent,
    tag: &[u8],
    r: (Vec<Vec<u8>>, bool),
    s: (Vec<Vec<u8>>, bool),
)
    requires
        call_ensures(crate::xml::pick_texts, (&events, tag), r),
        call_ensures(crate::xml::pick_texts, (&more, tag), s),
        more@ == events@.push(event),
    ensures
        events@.len() == 0 ==> r.0@.len() == 0 && !r.1,
        s.1 <==> event is Eof,
        match event {
            XmlEvent::Text(raw) => {
                let inside = exists|j: int|
                    0 <= j < events@.len() && #[trigger] opens(events@[j], tag@) && forall|k: int|
                        j < k < events@.len() ==> !#[trigger] closes(events@[k], tag@);
                s.0.deep_view() == if inside {
                    r.0.deep_view().push(raw@)
                } else {
                    r.0.deep_view()
                }
            },
            _ => s.0.deep_view() == r.0.deep_view(),
        },
{
    let tokens = events@.map_values(|e: XmlEvent| e@);
    assert(more@.map_values(|e: XmlEvent| e@) =~= tokens.push(event@));
    law_texts_are_those_inside(tokens, event@, tag@);
    if events@.len() == 0 {
        assert(tokens =~= Seq::empty());
        assert(r.0.deep_view().len() == r.0@.len());
    }
    assert(more@.last() == event);
    assert forall|j: int| 0 <= j < events@.len() implies opens(#[trigger] events@[j], tag@) == (
    tokens[j] == XmlToken::Start(tag@)) && closes(events@[j], tag@) == (tokens[j]
        == XmlToken::End(tag@)) by {
        assert(tokens[j] == events@[j]@);
    }
    let n = events@.len() as int;
    if inside_at(tokens, tag@, n) {
        let j = choose|j: int|
            0 <= j < n && #[trigger] tokens[j] == XmlToken::Start(tag@) && forall|k: int|
                j < k < n ==> #[trigger] tokens[k] != XmlToken::End(tag@);
        assert(opens(events@[j], tag@));
        assert forall|k: int| j < k < n implies !#[trigger] closes(events@[k], tag@) by {
            assert(tokens[k] != XmlToken::End(tag@));
        }
    }
    if exists|j: int|
        0 <= j < n && #[trigger] opens(events@[j], tag@) && forall|k: int|
            j < k < n ==> !#[trigger] closes(events@[k], tag@) {
        let j = choose|j: int|
            0 <= j < n && #[trigger] opens(events@[j], tag@) && forall|k: int|
                j < k < n ==> !#[trigger] closes(events@[k], tag@);
        assert(tokens[j] == XmlToken::Start(tag@));
        assert forall|k: int| j < k < n implies #[trigger] tokens[k] != XmlToken::End(tag@) by {
            assert(!closes(events@[k], tag@));
        }
        assert(inside_at(tokens, tag@, n));
    }
}

/// Texts lose their escapes one by one, up to the first of which they cannot be resolved.
pub proof fn law_escapes_are_resolved(raws: Seq<Seq<u8>>)
    ensures
        crate::xml::readable(raws).len() <= raws.len(),
        forall|i: int|
            0 <= i < crate::xml::readable(raws).len() ==> crate::xml::unescaped(raws[i]) == Some(
                #[trigger] crate::xml::readable(raws)[i],
            ),
        crate::xml::readable(raws).len() < raws.len() ==> crate::xml::unescaped(
            raws[crate::xml::readable(raws).len() as int],
        ) is None,
    decreases raws.len(),
{
    if raws.len() > 0 && crate::xml::unescaped(raws[0]) is Some {
        let rest = raws.skip(1);
        law_escapes_are_resolved(rest);
        let all = crate::xml::readable(raws);
        let tail = crate::xml::readable(rest);
        assert forall|i: int| 0 <= i < all.len() implies crate::xml::unescaped(raws[i]) == Some(
            #[trigger] all[i],
        ) by {
            if i > 0 {
                assert(all[i] == tail[i - 1]);
                assert(rest[i - 1] == raws[i]);
            }
        }
        if all.len() < raws.len() {
            assert(rest[tail.len() as int] == raws[all.len() as int]);
        }
    }
}

/// What is read out of a document is every text inside the tag without its escapes, and all of it
/// could be read where every escape could be resolved and the document came to its end.
pub proof fn law_tag_texts(text: Seq<char>, tag: Seq<char>)
    ensures
        ({
            let raws = crate::xml::texts_inside(
                crate::xml::document(text),
                vstd::utf8::encode_utf8(tag),
                false,
            );
            let (texts, whole) = crate::xml::tag_texts(text, tag);
            &&& texts.len() <= raws.len()
            &&& forall|i: int|
                0 <= i < texts.len() ==> crate::xml::unescaped(raws[i]) == Some(#[trigger] texts[i])
            &&& texts.len() < raws.len() ==> crate::xml::unescaped(raws[texts.len() as int]) is None
            &&& whole <==> texts.len() == raws.len() && crate::xml::document(text).last() is Eof
        }),
{
    law_escapes_are_resolved(
        crate::xml::texts_inside(
            crate::xml::document(text),
            vstd::utf8::encode_utf8(tag),
            false,
        ),
    );
}

/// Reading the texts inside a tag gives those that the document holds there.
pub proof fn law_texts_of_a_document(text: &str, tag: &str, r: (Vec<String>, bool))
    requires
        call_ensures(crate::xml::texts_of, (text, tag), r),
    ensures
        ({
            let raws = crate::xml::texts_inside(
                crate::xml::document(text@),
                vstd::utf8::encode_utf8(tag@),
                false,
            );
            &&& forall|i: int|
                0 <= i < r.0@.len() ==> crate::xml::unescaped(raws[i]) == Some(
                    (#[trigger] r.0@[i])@,
                )
            &&& r.0@.len() < raws.len() ==> crate::xml::unescaped(raws[r.0@.len() as int]) is None
            &&& r.1 <==> r.0@.len() == raws.len() && crate::xml::document(text@).last() is Eof
        }),
{
    law_tag_texts(text@, tag@);
    let texts = r.0.deep_view();
    assert(texts == crate::xml::tag_texts(text@, tag@).0);
    assert(texts.len() == r.0@.len());
    assert forall|i: int| 0 <= i < r.0@.len() implies texts[i] == (#[trigger] r.0@[i])@ by {}
}

/// The buckets in a list of buckets: those of its second item, where that is an array.
pub open spec fn buckets_in(list: Json) -> Seq<Json> {
    if list is Array && list->Array_0.len() > 1 && list->Array_0[1] is Array {
        list->Array_0[1]->Array_0
    } else {
        Seq::empty()
    }
}

/// Whether a bucket has a name, and this one.
pub open spec fn is_named(bucket: Json, name: Seq<char>) -> bool {
    &&& bucket is Object
    &&& bucket->Object_0.dom().contains("Name"@)
    &&& bucket->Object_0["Name"@] == Json::Text(name)
}

proof fn lemma_names(buckets: Seq<Json>)
    ensures
        crate::json::names(buckets).len() <= buckets.len(),
        forall|i: int|
            0 <= i < crate::json::names(buckets).len() ==> is_named(
                buckets[i],
                #[trigger] crate::json::names(buckets)[i],
            ),
        crate::json::names(buckets).len() < buckets.len() ==> forall|name: Seq<char>|
            !#[trigger] is_named(buckets[crate::json::names(buckets).len() as int], name),
    decreases buckets.len(),
{
    if buckets.len() > 0 && buckets[0].field("Name"@) is Text {
        let rest = buckets.skip(1);
        lemma_names(rest);
        let all = crate::json::names(buckets);
        let tail = crate::json::names(rest);
        assert forall|i: int| 0 <= i < all.len() implies is_named(
            buckets[i],
            #[trigger] all[i],
        ) by {
            if i > 0 {
                assert(all[i] == tail[i - 1]);
                assert(rest[i - 1] == buckets[i]);
            }
        }
        if all.len() < buckets.len() {
            assert(rest[tail.len() as int] == buckets[all.len() as int]);
        }
    }
}

/// The names of buckets are those of the second item of a list, one by one, up to the first bucket
/// that has none.
pub proof fn law_names_of_buckets(list: Json)
    ensures
        ({
            let buckets = buckets_in(list);
            let (names, whole) = crate::json::bucket_names(list);
            &&& names.len() <= buckets.len()
            &&& forall|i: int|
                0 <= i < names.len() ==> is_named(buckets[i], #[trigger] names[i])
            &&& names.len() < buckets.len() ==> forall|name: Seq<char>|
                !#[trigger] is_named(buckets[names.len() as int], name)
            &&& whole <==> names.len() == buckets.len()
        }),
{
    lemma_names(buckets_in(list));
    assert(crate::json::listed_buckets(list) == buckets_in(list));
}

/// A text that is no JSON names no bucket and is not whole; another one names those of its list.
pub proof fn law_names_of_a_json_text(text: Seq<char>)
    ensures
        crate::json::parsed(text) is None ==> crate::json::json_bucket_names(text) == (
            Seq::<Seq<char>>::empty(),
            false,
        ),
        crate::json::parsed(text) matches Some(list) ==> crate::json::json_bucket_names(text)
            == crate::json::bucket_names(list),
{
}

/// Reading the names of buckets, out of a value or out of a text, gives those of its list, in order.
pub proof fn law_buckets_are_read(
    value: &Value,
    r: (Vec<String>, bool),
    text: &str,
    s: (Vec<String>, bool),
)
    requires
        call_ensures(crate::json::names_in, (value,), r),
        call_ensures(crate::json::names_of, (text,), s),
    ensures
        r.0.deep_view() == crate::json::bucket_names(crate::json::tree(*value)).0,
        r.1 == crate::json::bucket_names(crate::json::tree(*value)).1,
        crate::json::parsed(text@) is None ==> s.0@.len() == 0 && !s.1,
        crate::json::parsed(text@) matches Some(list) ==> s.0.deep_view()
            == crate::json::bucket_names(list).0 && s.1 == crate::json::bucket_names(list).1,
{
    assert((r.0.deep_view(), r.1) == crate::json::bucket_names(crate::json::tree(*value)));
    assert((s.0.deep_view(), s.1) == crate::json::json_bucket_names(text@));
    assert(s.0.deep_view().len() == s.0@.len());
}

/// The usage in a text is shown where the text is JSON, and as that of the value that it writes down.
pub proof fn law_usage_of_a_text(text: &str, r: Option<String>, value: &Value, shown: String)
    requires
        call_ensures(crate::json::usage_of, (text,), r),
        call_ensures(crate::json::usage_in, (value,), shown),
    ensures
        r is Some <==> crate::json::parsed(text@) is Some,
        crate::json::parsed(text@) == Some(crate::json::tree(*value)) ==> r.deep_view() == Some(
            shown@,
        ),
{
}

/// Reading a document gives its events, one by one and in order.
pub proof fn law_document_is_read(text: &str, r: Vec<XmlEvent>)
    requires
        call_ensures(crate::xml::read_document, (text,), r),
    ensures
        r@.len() == crate::xml::document(text@).len(),
        forall|i: int|
            0 <= i < r@.len() ==> match #[trigger] r@[i] {
                XmlEvent::Start(name) => crate::xml::document(text@)[i] == XmlToken::Start(name@),
                XmlEvent::End(name) => crate::xml::document(text@)[i] == XmlToken::End(name@),
                XmlEvent::Text(raw) => crate::xml::document(text@)[i] == XmlToken::Text(raw@),
                XmlEvent::Other => crate::xml::document(text@)[i] == XmlToken::Other,
                XmlEvent::Eof => crate::xml::document(text@)[i] == XmlToken::Eof,
                XmlEvent::Broken => crate::xml::document(text@)[i] == XmlToken::Broken,
            },
{
    let events = r@.map_values(|e: XmlEvent| e@);
    assert(events == crate::xml::document(text@));
    assert forall|i: int| 0 <= i < r@.len() implies events[i] == (#[trigger] r@[i])@ by {}
}

/// The usage in a reply is its field of that name, written over several lines: that of null where it
/// has none.
pub proof fn law_usage_is_shown(value: &Value, r: String)
    requires
        call_ensures(crate::json::usage_in, (value,), r),
    ensures
        ({
            let reply = crate::json::tree(*value);
            let usage = if reply is Object && reply->Object_0.dom().contains("usage"@) {
                reply->Object_0["usage"@]
            } else {
                Json::Null
            };
            match crate::json::pretty(usage) {
                Some(text) => r@ == text,
                None => r@.len() == 0,
            }
        }),
{
    reveal_strlit("");
}

/// Whether lines are names with something before and something behind each.
pub open spec fn are_lines(
    shown: Seq<String>,
    before: Seq<char>,
    names: Seq<Seq<char>>,
    behind: Seq<char>,
) -> bool {
    &&& shown.len() == names.len()
    &&& forall|i: int|
        0 <= i < shown.len() ==> (#[trigger] shown[i])@ == before + names[i] + behind
}

proof fn lemma_lines(
    shown: Vec<String>,
    before: Seq<char>,
    names: Seq<Seq<char>>,
    behind: Seq<char>,
)
    requires
        shown.deep_view() == crate::listing::lines(before, names, behind),
    ensures
        are_lines(shown@, before, names, behind),
{
    let texts = shown.deep_view();
    assert(texts.len() == shown@.len());
    assert forall|i: int| 0 <= i < shown@.len() implies (#[trigger] shown@[i])@ == before + names[i]
        + behind by {
        assert(texts[i] == shown@[i]@);
    }
}

/// The body of a reply is shown as its text, on one line; without a reply nothing is shown, and the
/// error is that of a call that was not sent.
pub proof fn law_body_is_shown(reply: Option<Reply>, r: Outcome)
    requires
        call_ensures(crate::command::show_body, (reply,), r),
    ensures
        match reply {
            Some(reply) => {
                &&& r.shown@.len() == 1
                &&& r.shown@[0]@ == crate::text::body_text(reply.body@)
                &&& r.end == End::Return(Ok(()))
            },
            None => {
                &&& r.shown@.len() == 0
                &&& r.end matches End::Return(Err(e))
                &&& e@ == "Reqwest Error"@
            },
        },
{
    let texts = r.shown.deep_view();
    assert(texts.len() == r.shown@.len());
    if r.shown@.len() > 0 {
        assert(texts[0] == r.shown@[0]@);
    }
}

/// The usage that a JSON reply holds is shown on one line; one that is no JSON cannot be gone on with,
/// and one in XML is not looked into.
pub proof fn law_usage_reply(h: &Handler<'_>, reply: Option<Reply>, r: Outcome)
    requires
        call_ensures(Handler::usage_reply, (h, reply), r),
    ensures
        match reply {
            None => {
                &&& r.shown@.len() == 0
                &&& r.end matches End::Return(Err(e))
                &&& e@ == "Reqwest Error"@
            },
            Some(reply) => match h.format {
                Format::XML => r.shown@.len() == 0 && r.end == End::Return(Ok(())),
                Format::JSON => match crate::json::parsed(crate::text::body_text(reply.body@)) {
                    None => r.shown@.len() == 0 && r.end == End::Fail(Fault::Json),
                    Some(json) => {
                        let usage = if json is Object && json->Object_0.dom().contains("usage"@) {
                            json->Object_0["usage"@]
                        } else {
                            Json::Null
                        };
                        &&& r.shown@.len() == 1
                        &&& r.end == End::Return(Ok(()))
                        &&& match crate::json::pretty(usage) {
                            Some(text) => r.shown@[0]@ == text,
                            None => r.shown@[0]@.len() == 0,
                        }
                    },
                },
            },
        },
{
    reveal_strlit("");
    let texts = r.shown.deep_view();
    assert(texts.len() == r.shown@.len());
    if r.shown@.len() > 0 {
        assert(texts[0] == r.shown@[0]@);
    }
}

/// A list shows every name that the reply holds, in order, in its place; where the reply could not be
/// read to its end it shows those before, and cannot be gone on with.
pub proof fn law_list_is_shown(
    h: &Handler<'_>,
    source: &Source,
    reply: Option<Reply>,
    r: Outcome,
)
    requires
        call_ensures(Handler::ls_reply, (h, source, reply), r),
    ensures
        match reply {
            None => {
                &&& r.shown@.len() == 0
                &&& r.end matches End::Return(Err(e))
                &&& e@ == "Reqwest Error"@
            },
            Some(reply) => {
                let text = crate::text::body_text(reply.body@);
                match (h.format, source) {
                    (Format::XML, Source::Buckets) => {
                        let (names, whole) = crate::xml::tag_texts(text, "Name"@);
                        &&& are_lines(r.shown@, "s3://"@, names, " "@)
                        &&& whole ==> r.end == End::Return(Ok(()))
                        &&& !whole ==> r.end == End::Fail(Fault::Xml)
                    },
                    (Format::JSON, Source::Buckets) => {
                        let (names, whole) = crate::json::json_bucket_names(text);
                        &&& are_lines(r.shown@, "s3://"@, names, " "@)
                        &&& whole ==> r.end == End::Return(Ok(()))
                        &&& !whole ==> r.end == End::Fail(Fault::Json)
                    },
                    (Format::XML, Source::Objects { uri, virtual_host }) => {
                        let (names, whole) = crate::xml::tag_texts(text, "Key"@);
                        let place = match virtual_host {
                            Some(host) => host@,
                            None => uri@,
                        };
                        &&& are_lines(r.shown@, "s3://"@ + place + "/"@, names, " "@)
                        &&& whole ==> r.end == End::Return(Ok(()))
                        &&& !whole ==> r.end == End::Fail(Fault::Xml)
                    },
                    (Format::JSON, Source::Objects { uri, virtual_host }) => {
                        let names = crate::location::contents_names(text);
                        &&& are_lines(r.shown@, "s3:/"@ + uri@ + "/"@, names, Seq::empty())
                        &&& r.end == End::Return(Ok(()))
                    },
                }
            },
        },
{
    assert(r.shown.deep_view().len() == r.shown@.len());
    reveal_strlit("");
    assert(""@ =~= Seq::<char>::empty());
    if reply is Some {
        let text = crate::text::body_text(reply->0.body@);
        match (h.format, source) {
            (Format::XML, Source::Buckets) => {
                lemma_lines(r.shown, "s3://"@, crate::xml::tag_texts(text, "Name"@).0, " "@);
            },
            (Format::JSON, Source::Buckets) => {
                lemma_lines(r.shown, "s3://"@, crate::json::json_bucket_names(text).0, " "@);
            },
            (Format::XML, Source::Objects { uri, virtual_host }) => {
                let place = match virtual_host {
                    Some(host) => host@,
                    None => uri@,
                };
                lemma_lines(
                    r.shown,
                    "s3://"@ + place + "/"@,
                    crate::xml::tag_texts(text, "Key"@).0,
                    " "@,
                );
            },
            (Format::JSON, Source::Objects { uri, virtual_host }) => {
                lemma_lines(
                    r.shown,
                    "s3:/"@ + uri@ + "/"@,
                    crate::location::contents_names(text),
                    Seq::empty(),
                );
            },
        }
    }
}

/// Whether a call asks for the objects of a bucket in the style of a handler: without a query, headers
/// or a payload.
pub open spec fn asks_for_bucket(h: &Handler<'_>, call: &ApiCall, bucket: Seq<char>) -> bool {
    &&& call.auth == h.auth_type
    &&& call.method@ == "GET"@
    &&& call.query@.len() == 0
    &&& call.headers@.len() == 0
    &&& call.payload@.len() == 0
    &&& if h.auth_type == AuthType::AWS4 && h.url_style == UrlStyle::HOST {
        call.virtual_host.deep_view() == Some(bucket) && call.uri@ == "/"@
    } else {
        call.virtual_host is None && call.uri@ == "/"@ + bucket
    }
}

proof fn lemma_asks_for_bucket(h: &Handler<'_>, call: &ApiCall, bucket: Seq<char>)
    requires
        call@ == crate::listing::tour_call(h.auth_type, h.url_style, bucket),
    ensures
        asks_for_bucket(h, call, bucket),
{
    assert(call@.query.len() == call.query@.len());
    assert(call@.headers.len() == call.headers@.len());
}

/// A tour starts at the first bucket of the reply; it is over at once where there is none or where
/// the reply could not be read.
pub proof fn law_tour_starts(h: &Handler<'_>, reply: Option<Reply>, r: Step)
    requires
        call_ensures(Handler::la_buckets, (h, reply), r),
    ensures
        r.shown@.len() == 0,
        match reply {
            None => r.turn matches Turn::Over(End::Return(Err(e))) && e@ == "Reqwest Error"@,
            Some(reply) => {
                let text = crate::text::body_text(reply.body@);
                let (names, whole) = match h.format {
                    Format::XML => crate::xml::tag_texts(text, "Name"@),
                    Format::JSON => crate::json::json_bucket_names(text),
                };
                if !whole {
                    r.turn == Turn::Over(
                        End::Fail(
                            match h.format {
                                Format::XML => Fault::Xml,
                                Format::JSON => Fault::Json,
                            },
                        ),
                    )
                } else if names.len() == 0 {
                    r.turn == Turn::Over(End::Return(Ok(())))
                } else {
                    &&& r.turn matches Turn::Ask(call, tour)
                    &&& asks_for_bucket(h, &call, names[0])
                    &&& tour.at == 0
                    &&& tour.buckets.deep_view() == names
                }
            },
        },
{
    assert(r.shown.deep_view().len() == r.shown@.len());
    if r.turn is Ask {
        let text = crate::text::body_text(reply->0.body@);
        let names = match h.format {
            Format::XML => crate::xml::tag_texts(text, "Name"@).0,
            Format::JSON => crate::json::json_bucket_names(text).0,
        };
        match r.turn {
            Turn::Ask(call, tour) => lemma_asks_for_bucket(h, &call, names[0]),
            _ => {},
        }
    }
}

/// A tour shows every object of the bucket that it has come to, in order, and goes on to the next
/// bucket until there is none; it ends where a reply is missing or could not be read.
pub proof fn law_tour_goes_on(h: &Handler<'_>, tour: Tour, reply: Option<Reply>, r: Step)
    requires
        tour.at < tour.buckets@.len(),
        call_ensures(Handler::la_objects, (h, tour, reply), r),
    ensures
        match reply {
            None => {
                &&& r.shown@.len() == 0
                &&& r.turn matches Turn::Over(End::Return(Err(e)))
                &&& e@ == "Reqwest Error"@
            },
            Some(reply) => {
                let text = crate::text::body_text(reply.body@);
                let bucket = tour.buckets@[tour.at as int]@;
                let (names, whole) = match h.format {
                    Format::XML => crate::xml::tag_texts(text, "Key"@),
                    Format::JSON => (crate::location::contents_names(text), true),
                };
                &&& are_lines(r.shown@, "s3://"@ + bucket + "/"@, names, Seq::empty())
                &&& if !whole {
                    r.turn == Turn::Over(End::Fail(Fault::Xml))
                } else if tour.at + 1 == tour.buckets@.len() {
                    r.turn == Turn::Over(End::Return(Ok(())))
                } else {
                    &&& r.turn matches Turn::Ask(call, next)
                    &&& asks_for_bucket(h, &call, tour.buckets@[tour.at + 1]@)
                    &&& next.at == tour.at + 1
                    &&& next.buckets == tour.buckets
                }
            },
        },
{
    assert(r.shown.deep_view().len() == r.shown@.len());
    if reply is Some {
        let text = crate::text::body_text(reply->0.body@);
        let bucket = tour.buckets@[tour.at as int]@;
        let names = match h.format {
            Format::XML => crate::xml::tag_texts(text, "Key"@).0,
            Format::JSON => crate::location::contents_names(text),
        };
        lemma_lines(r.shown, "s3://"@ + bucket + "/"@, names, Seq::empty());
        match r.turn {
            Turn::Ask(call, next) => lemma_asks_for_bucket(
                h,
                &call,
                tour.buckets@[tour.at + 1]@,
            ),
            _ => {},
        }
    }
}

proof fn lemma_first_named(headers: Seq<(Seq<char>, Option<Seq<char>>)>, name: Seq<char>)
    ensures
        match crate::request::first_named(headers, name) {
            None => forall|i: int| 0 <= i < headers.len() ==> (#[trigger] headers[i]).0 != name,
            Some(value) => exists|i: int|
                0 <= i < headers.len() && #[trigger] headers[i] == (name, value) && forall|j: int|
                    0 <= j < i ==> (#[trigger] headers[j]).0 != name,
        },
    decreases headers.len(),
{
    if headers.len() > 0 {
        if headers[0].0 == name {
            assert(headers[0] == (name, headers[0].1));
        } else {
            let rest = headers.skip(1);
            lemma_first_named(rest, name);
            match crate::request::first_named(rest, name) {
                None => {
                    assert forall|i: int| 0 <= i < headers.len() implies (
                    #[trigger] headers[i]).0 != name by {
                        if i > 0 {
                            assert(rest[i - 1] == headers[i]);
                        }
                    }
                },
                Some(value) => {
                    let i = choose|i: int|
                        0 <= i < rest.len() && #[trigger] rest[i] == (name, value) && forall|j: int|
                            0 <= j < i ==> (#[trigger] rest[j]).0 != name;
                    assert(headers[i + 1] == (name, value));
                    assert forall|j: int| 0 <= j < i + 1 implies (#[trigger] headers[j]).0
                        != name by {
                        if j > 0 {
                            assert(rest[j - 1] == headers[j]);
                        }
                    }
                },
            }
        }
    }
}

/// The header that is found is the first of its name, and none is found where none has the name.
pub proof fn law_header_is_found(reply: &Reply, name: Seq<char>)
    ensures
        match reply.header(name) {
            None => forall|i: int|
                0 <= i < reply.headers@.len() ==> (#[trigger] reply.headers@[i]).0@ != name,
            Some(value) => exists|i: int|
                0 <= i < reply.headers@.len() && (#[trigger] reply.headers@[i]).0@ == name
                    && reply.headers@[i].1.deep_view() == value && forall|j: int|
                    0 <= j < i ==> (#[trigger] reply.headers@[j]).0@ != name,
        },
{
    let all = reply.headers.deep_view();
    lemma_first_named(all, name);
    assert(all.len() == reply.headers@.len());
    assert forall|i: int| 0 <= i < all.len() implies all[i] == (
        (#[trigger] reply.headers@[i]).0@,
        reply.headers@[i].1.deep_view(),
    ) by {}
    match reply.header(name) {
        None => {
            assert forall|i: int| 0 <= i < reply.headers@.len() implies (
            #[trigger] reply.headers@[i]).0@ != name by {
                assert(all[i].0 != name);
            }
        },
        Some(value) => {
            let i = choose|i: int|
                0 <= i < all.len() && #[trigger] all[i] == (name, value) && forall|j: int|
                    0 <= j < i ==> (#[trigger] all[j]).0 != name;
            assert(reply.headers@[i].0@ == name);
            assert forall|j: int| 0 <= j < i implies (#[trigger] reply.headers@[j]).0@ != name by {
                assert(all[j].0 != name);
            }
        },
    }
}

/// Looking a header up gives the first of its name.
pub proof fn law_looking_a_header_up(reply: &Reply, name: &str, r: Option<Option<String>>)
    requires
        call_ensures(Reply::find_header, (reply, name), r),
    ensures
        r.deep_view() == reply.header(name@),
{
}

/// An answer outside the redirections ends a call as it is; a redirection that can be read and names
/// its region is followed there, to the last endpoint in its body and with no bucket before the
/// host.
pub proof fn law_answer_is_taken(h: &Handler<'_>, reply: Option<Reply>, r: Answer)
    requires
        call_ensures(Handler::aws_v4_reply, (h, reply), r),
    ensures
        match reply {
            None => r matches Answer::Done(Err(e)) && e@ == "Reqwest Error"@,
            Some(reply) => {
                let (endpoints, whole) = match h.format {
                    Format::JSON => (Seq::empty(), true),
                    Format::XML => crate::xml::tag_texts(
                        crate::text::body_text(reply.body@),
                        "Endpoint"@,
                    ),
                };
                if reply.status < 300 || reply.status > 399 {
                    r == Answer::Done(Ok::<Reply, &'static str>(reply))
                } else if !whole {
                    r == Answer::Fail(Fault::Xml)
                } else {
                    match reply.header("x-amz-bucket-region"@) {
                        None => r == Answer::Fail(Fault::Region),
                        Some(region) => {
                            &&& r matches Answer::Again(route)
                            &&& route.virtual_host is None
                            &&& route.region matches Some(name) && match region {
                                Some(text) => name@ == text,
                                None => name@.len() == 0,
                            }
                            &&& route.endpoint matches Some(endpoint) && if endpoints.len() == 0 {
                                endpoint@.len() == 0
                            } else {
                                endpoint@ == endpoints[endpoints.len() - 1]
                            }
                        },
                    }
                }
            },
        },
{
}

/// What is received is the reply, or else the error of a call that was not sent.
pub proof fn law_reply_is_received(reply: Option<Reply>, r: Result<Reply, &'static str>)
    requires
        call_ensures(crate::request::received, (reply,), r),
    ensures
        match reply {
            Some(reply) => r == Ok::<Reply, &'static str>(reply),
            None => r matches Err(e) && e@ == "Reqwest Error"@,
        },
{
}

/// A download writes the whole body of the reply to its file.
pub proof fn law_download_is_written(
    download: Download,
    reply: Option<Reply>,
    r: Result<(String, Vec<u8>), &'static str>,
)
    requires
        call_ensures(Download::received, (download, reply), r),
    ensures
        match reply {
            Some(reply) => r matches Ok((file, content)) && file == download.file && content
                == reply.body,
            None => r matches Err(e) && e@ == "Reqwest Error"@,
        },
{
}

/// The last of some texts is taken, and nothing where there are none.
pub proof fn law_last_text_is_taken(texts: Vec<String>, r: String)
    requires
        call_ensures(crate::request::take_last, (&texts,), r),
    ensures
        texts@.len() == 0 ==> r@.len() == 0,
        texts@.len() > 0 ==> r@ == texts@[texts@.len() - 1]@,
{
    let all = texts.deep_view();
    assert(all.len() == texts@.len());
    if texts@.len() > 0 {
        assert(all[texts@.len() - 1] == texts@[texts@.len() - 1]@);
    }
}

} // verus!
