//! The texts that an XML reply holds between the tags of one name.

use quick_xml::events::{BytesText, Event};
use quick_xml::Reader;
use vstd::prelude::*;
use vstd::string::*;

verus! {

/// A reader of `quick_xml`, which hands out the events of a document one by one. What it has yet to
/// hand out is [`pending`].
#[verifier::external_body]
pub struct XmlReader<'t> {
    reader: Reader<&'t [u8]>,
}

/// What one reading of a document yields.
pub enum XmlEvent {
    /// An opening tag, by its name.
    Start(Vec<u8>),
    /// A closing tag, by its name.
    End(Vec<u8>),
    /// The characters between two tags, still escaped.
    Text(Vec<u8>),
    /// Anything else that a document may hold.
    Other,
    /// The document has ended.
    Eof,
    /// The document cannot be read further.
    Broken,
}

/// An event in terms of the bytes that it carries.
pub enum XmlToken {
    Start(Seq<u8>),
    End(Seq<u8>),
    Text(Seq<u8>),
    Other,
    Eof,
    Broken,
}

impl View for XmlEvent {
    type V = XmlToken;

    open spec fn view(&self) -> XmlToken {
        match self {
            XmlEvent::Start(name) => XmlToken::Start(name@),
            XmlEvent::End(name) => XmlToken::End(name@),
            XmlEvent::Text(raw) => XmlToken::Text(raw@),
            XmlEvent::Other => XmlToken::Other,
            XmlEvent::Eof => XmlToken::Eof,
            XmlEvent::Broken => XmlToken::Broken,
        }
    }
}

impl XmlToken {
    /// Whether nothing is read after this.
    pub open spec fn last(self) -> bool {
        self is Eof || self is Broken
    }
}

/// The events that a reader has yet to hand out, up to the first that is the last one.
pub uninterp spec fn pending(reader: XmlReader<'_>) -> Seq<XmlToken>;

/// The events of a document, up to the first that is the last one.
pub uninterp spec fn document(text: Seq<char>) -> Seq<XmlToken>;

/// A reader at the start of a text, by `quick_xml::Reader::from_str`.
///
/// The claim is that the text alone decides which events the reader hands out, and that there is at
/// least one: that of the end.
#[verifier::external_body]
fn open<'t>(text: &'t str) -> (r: XmlReader<'t>)
    ensures
        pending(r) == document(text@),
        pending(r).len() > 0,
{
    XmlReader { reader: Reader::from_str(text) }
}

/// The next event of a document, by `quick_xml::Reader::read_event`.
///
/// The claim is that each call takes the first of the pending events off, and that more are pending
/// unless that event is the end of the document or a failure to read it: every other event uses up
/// some of the text. An element that is opened and closed by one tag, a comment, a declaration and
/// the like are not told apart.
#[verifier::external_body]
fn next_event<'t>(reader: &mut XmlReader<'t>) -> (r: XmlEvent)
    requires
        pending(*old(reader)).len() > 0,
    ensures
        r@ == pending(*old(reader))[0],
        r@.last() ==> pending(*old(reader)).len() == 1,
        !r@.last() ==> pending(*final(reader)) == pending(*old(reader)).skip(1) && pending(
            *final(reader),
        ).len() > 0,
{
    match reader.reader.read_event(&mut Vec::new()) {
        Ok(Event::Start(tag)) => XmlEvent::Start(tag.name().to_vec()),
        Ok(Event::End(tag)) => XmlEvent::End(tag.name().to_vec()),
        Ok(Event::Text(text)) => XmlEvent::Text(text.escaped().to_vec()),
        Ok(Event::Eof) => XmlEvent::Eof,
        Ok(_) => XmlEvent::Other,
        Err(_) => XmlEvent::Broken,
    }
}

/// The events of a document, in order.
pub fn read_document(text: &str) -> (r: Vec<XmlEvent>)
    ensures
        r@.map_values(|e: XmlEvent| e@) == document(text@),
        r@.len() > 0,
{
    let mut reader = open(text);
    let mut events: Vec<XmlEvent> = Vec::new();
    let ghost whole = document(text@);
    assert(whole.skip(0) == whole);
    loop
        invariant
            whole == document(text@),
            pending(reader).len() > 0,
            events@.len() + pending(reader).len() == whole.len(),
            pending(reader) == whole.skip(events@.len() as int),
            forall|i: int| 0 <= i < events@.len() ==> (#[trigger] events@[i])@ == whole[i],
        decreases pending(reader).len(),
    {
        let event = next_event(&mut reader);
        let last = match event {
            XmlEvent::Eof => true,
            XmlEvent::Broken => true,
            _ => false,
        };
        events.push(event);
        if last {
            return events;
        }
    }
}

/// The texts that stand inside a tag of the given name: a text is inside from an opening tag of
/// that name to the next closing tag of that name. `inside` says how the reading starts.
pub open spec fn texts_inside(events: Seq<XmlToken>, tag: Seq<u8>, inside: bool) -> Seq<Seq<u8>>
    decreases events.len(),
{
    if events.len() == 0 {
        Seq::empty()
    } else {
        let rest = events.skip(1);
        match events[0] {
            XmlToken::Start(name) => texts_inside(rest, tag, inside || name == tag),
            XmlToken::End(name) => texts_inside(rest, tag, inside && name != tag),
            XmlToken::Text(raw) => if inside {
                seq![raw] + texts_inside(rest, tag, inside)
            } else {
                texts_inside(rest, tag, inside)
            },
            _ => texts_inside(rest, tag, inside),
        }
    }
}

fn same_bytes(a: &Vec<u8>, b: &[u8]) -> (r: bool)
    ensures
        r == (a@ == b@),
{
    if a.len() != b.len() {
        return false;
    }
    let mut i: usize = 0;
    while i < a.len()
        invariant
            i <= a@.len() == b@.len(),
            forall|j: int| 0 <= j < i ==> a@[j] == b@[j],
        decreases a@.len() - i,
    {
        if a[i] != b[i] {
            return false;
        }
        i += 1;
    }
    assert(a@ =~= b@);
    true
}

/// Picks out of the events of a document the texts that stand inside a tag of the given name, and
/// says whether the document could be read to its end.
pub fn pick_texts(events: &Vec<XmlEvent>, tag: &[u8]) -> (r: (Vec<Vec<u8>>, bool))
    ensures
        r.0.deep_view() == texts_inside(events@.map_values(|e: XmlEvent| e@), tag@, false),
        r.1 == (events@.len() > 0 && events@.last()@ is Eof),
{
    let mut texts: Vec<Vec<u8>> = Vec::new();
    let mut inside = false;
    let mut i: usize = 0;
    let ghost tokens = events@.map_values(|e: XmlEvent| e@);
    proof {
        assert(tokens.skip(0) == tokens);
        assert(texts.deep_view() + texts_inside(tokens, tag@, false) == texts_inside(
            tokens,
            tag@,
            false,
        ));
    }
    while i < events.len()
        invariant
            i <= events@.len(),
            tokens == events@.map_values(|e: XmlEvent| e@),
            texts.deep_view() + texts_inside(tokens.skip(i as int), tag@, inside) == texts_inside(
                tokens,
                tag@,
                false,
            ),
        decreases events@.len() - i,
    {
        let ghost before = texts.deep_view();
        let ghost rest = tokens.skip(i as int);
        proof {
            assert(rest[0] == events@[i as int]@);
            assert(rest.skip(1) == tokens.skip(i + 1));
        }
        match &events[i] {
            XmlEvent::Start(name) => {
                if same_bytes(name, tag) {
                    inside = true;
                }
            },
            XmlEvent::End(name) => {
                if same_bytes(name, tag) {
                    inside = false;
                }
            },
            XmlEvent::Text(raw) => {
                if inside {
                    let kept = raw.clone();
                    assert(kept.deep_view() == raw@);
                    texts.push(kept);
                    proof {
                        assert(texts.deep_view() == before.push(raw@));
                        assert(before.push(raw@) + texts_inside(tokens.skip(i + 1), tag@, true)
                            == before + (seq![raw@] + texts_inside(tokens.skip(i + 1), tag@, true)));
                    }
                }
            },
            _ => {},
        }
        i += 1;
    }
    assert(texts.deep_view() + texts_inside(tokens.skip(i as int), tag@, inside)
        == texts.deep_view());
    let complete = events.len() > 0 && match events[events.len() - 1] {
        XmlEvent::Eof => true,
        _ => false,
    };
    (texts, complete)
}

/// What the escaped characters of an XML text stand for; nothing where an escape is malformed.
pub uninterp spec fn unescaped(raw: Seq<u8>) -> Option<Seq<char>>;

/// The text without its escapes, by `quick_xml::events::BytesText::unescape_and_decode`.
///
/// The claim is that the result depends on the bytes of the text alone: a reader decodes as UTF-8
/// whatever it has read before.
#[verifier::external_body]
fn unescape(raw: &Vec<u8>) -> (r: Option<String>)
    ensures
        r.deep_view() == unescaped(raw@),
{
    let text = BytesText::from_escaped(raw.as_slice());
    text.unescape_and_decode(&Reader::from_str("")).ok()
}

/// The texts of which the escapes could be resolved, up to the first of which they could not.
pub open spec fn readable(raws: Seq<Seq<u8>>) -> Seq<Seq<char>>
    decreases raws.len(),
{
    if raws.len() > 0 && unescaped(raws[0]) is Some {
        seq![unescaped(raws[0])->0] + readable(raws.skip(1))
    } else {
        Seq::empty()
    }
}

/// The texts inside a tag of the given name, and whether all of them and the whole document could
/// be read. Where they could not, the texts are those that come before the failure.
pub open spec fn tag_texts(text: Seq<char>, tag: Seq<char>) -> (Seq<Seq<char>>, bool) {
    let raws = texts_inside(document(text), vstd::utf8::encode_utf8(tag), false);
    (readable(raws), readable(raws).len() == raws.len() && document(text).last() is Eof)
}

/// Resolves the escapes of texts, up to the first that cannot be resolved.
fn unescape_all(raws: &Vec<Vec<u8>>) -> (r: Vec<String>)
    ensures
        r.deep_view() == readable(raws.deep_view()),
        r@.len() <= raws@.len(),
{
    let mut texts: Vec<String> = Vec::new();
    let mut i: usize = 0;
    let ghost all = raws.deep_view();
    proof {
        assert(all.skip(0) == all);
        assert(texts.deep_view() + readable(all) == readable(all));
    }
    while i < raws.len()
        invariant
            i <= raws@.len(),
            texts@.len() == i,
            all == raws.deep_view(),
            texts.deep_view() + readable(all.skip(i as int)) == readable(all),
        decreases raws@.len() - i,
    {
        let ghost before = texts.deep_view();
        let ghost rest = all.skip(i as int);
        assert(rest[0] == raws@[i as int]@);
        assert(rest.skip(1) == all.skip(i + 1));
        match unescape(&raws[i]) {
            Some(text) => {
                texts.push(text);
                proof {
                    assert(texts.deep_view() == before.push(text@));
                    assert(before.push(text@) + readable(all.skip(i + 1)) == before + (seq![text@]
                        + readable(all.skip(i + 1))));
                }
            },
            None => {
                assert(readable(rest) == Seq::<Seq<char>>::empty());
                assert(texts.deep_view() + readable(rest) == texts.deep_view());
                return texts;
            },
        }
        i += 1;
    }
    assert(texts.deep_view() + readable(all.skip(i as int)) == texts.deep_view());
    texts
}

/// Reads the texts inside a tag of the given name out of a document.
pub fn texts_of(text: &str, tag: &str) -> (r: (Vec<String>, bool))
    ensures
        (r.0.deep_view(), r.1) == tag_texts(text@, tag@),
{
    let events = read_document(text);
    let (raws, complete) = pick_texts(&events, tag.as_bytes());
    let texts = unescape_all(&raws);
    let whole = texts.len() == raws.len();
    (texts, whole && complete)
}

} // verus!
