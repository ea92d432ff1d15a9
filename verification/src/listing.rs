//! The commands that list buckets and objects.

use crate::command::{no_pairs, End, Outcome};
use crate::handler::{AuthType, Format, Handler, UrlStyle};
use crate::json::names_of;
use crate::location::{contents, locate};
use crate::request::{received, ApiCall, CallView, Fault, Reply};
use crate::text::{starts_with, text_of};
use crate::xml::texts_of;
use vstd::prelude::*;
use vstd::string::*;

verus! {

/// What a listing lists.
pub enum Source {
    /// All buckets.
    Buckets,
    /// The objects of one bucket, by the path and the part of the host that name it.
    Objects { uri: String, virtual_host: Option<String> },
}

/// A listing that is asked for.
pub struct Listing {
    pub call: ApiCall,
    pub source: Source,
}

/// Buckets whose objects are listed one bucket after the other.
pub struct Tour {
    pub buckets: Vec<String>,
    /// The place of the bucket whose objects have been asked for.
    pub at: usize,
}

/// What comes next in a tour.
pub enum Turn {
    /// The objects of one more bucket are asked for.
    Ask(ApiCall, Tour),
    /// The tour is over.
    Over(End),
}

/// The lines that a step of a tour shows, and what comes next.
pub struct Step {
    pub shown: Vec<String>,
    pub turn: Turn,
}

/// What is wrong with a reply that cannot be read.
pub open spec fn unreadable(format: Format) -> Fault {
    match format {
        Format::JSON => Fault::Json,
        Format::XML => Fault::Xml,
    }
}

/// The names of the buckets in a reply, and whether all of it could be read.
pub open spec fn found_buckets(format: Format, body: Seq<u8>) -> (Seq<Seq<char>>, bool) {
    let text = crate::text::body_text(body);
    match format {
        Format::JSON => crate::json::json_bucket_names(text),
        Format::XML => crate::xml::tag_texts(text, "Name"@),
    }
}

/// The names of the objects in a reply, and whether all of it could be read.
pub open spec fn found_objects(format: Format, body: Seq<u8>) -> (Seq<Seq<char>>, bool) {
    let text = crate::text::body_text(body);
    match format {
        Format::JSON => (crate::location::contents_names(text), true),
        Format::XML => crate::xml::tag_texts(text, "Key"@),
    }
}

/// Names with something before and something behind each.
pub open spec fn lines(before: Seq<char>, names: Seq<Seq<char>>, behind: Seq<char>) -> Seq<
    Seq<char>,
> {
    Seq::new(names.len(), |i: int| before + names[i] + behind)
}

/// What a listing shows before each name.
pub open spec fn listed_before(
    format: Format,
    uri: Seq<char>,
    virtual_host: Option<Seq<char>>,
) -> Seq<char> {
    match format {
        Format::JSON => "s3:/"@ + uri + "/"@,
        Format::XML => "s3://"@ + match virtual_host {
            Some(name) => name,
            None => uri,
        } + "/"@,
    }
}

/// What a listing shows behind the name of an object.
pub open spec fn listed_behind(format: Format) -> Seq<char> {
    match format {
        Format::JSON => ""@,
        Format::XML => " "@,
    }
}

/// A call for the list of all buckets.
pub open spec fn buckets_call(auth: AuthType) -> CallView {
    crate::command::plain_call(auth, "GET"@, "/"@, Seq::empty())
}

/// A call for the objects of a bucket in a tour.
pub open spec fn tour_call(auth: AuthType, style: UrlStyle, bucket: Seq<char>) -> CallView {
    if auth == AuthType::AWS4 && style == UrlStyle::HOST {
        CallView { virtual_host: Some(bucket), ..buckets_call(auth) }
    } else {
        crate::command::plain_call(auth, "GET"@, "/"@ + bucket, Seq::empty())
    }
}

/// The lines that a tour shows at a bucket.
pub open spec fn tour_lines(format: Format, bucket: Seq<char>, body: Seq<u8>) -> Seq<Seq<char>> {
    lines("s3://"@ + bucket + "/"@, found_objects(format, body).0, Seq::empty())
}

/// Whether a tour goes on behind a bucket: there are more, and the reply could be read.
pub open spec fn tour_goes_on(format: Format, count: nat, at: nat, body: Seq<u8>) -> bool {
    found_objects(format, body).1 && at + 1 < count
}

/// Whether a text is marked as an S3 location by its beginning.
pub open spec fn marked(name: Seq<char>) -> bool {
    "s3://"@.is_prefix_of(name) || "S3://"@.is_prefix_of(name)
}

/// The part of the host and the path that name the bucket of a listing.
pub open spec fn listed_bucket(style: UrlStyle, name: Seq<char>) -> (Option<Seq<char>>, Seq<char>) {
    if marked(name) {
        let (bucket, object) = crate::location::s3_location(name)->0;
        match style {
            UrlStyle::PATH => (None, "/"@ + bucket),
            UrlStyle::HOST => (Some(bucket), "/"@),
        }
    } else {
        (None, "/"@ + name)
    }
}

/// A call for the objects of a bucket. Version 2 of the signature has no part of the host to name
/// the bucket.
pub open spec fn listed_call(auth: AuthType, style: UrlStyle, name: Seq<char>) -> CallView {
    let (virtual_host, uri) = listed_bucket(style, name);
    CallView {
        virtual_host: match auth {
            AuthType::AWS4 => virtual_host,
            AuthType::AWS2 => None,
        },
        ..crate::command::plain_call(auth, "GET"@, uri, Seq::empty())
    }
}

fn write_lines(before: &str, names: &Vec<String>, behind: &str) -> (r: Vec<String>)
    ensures
        r.deep_view() == lines(before@, names.deep_view(), behind@),
{
    let mut r: Vec<String> = Vec::new();
    let ghost whole = lines(before@, names.deep_view(), behind@);
    let mut i: usize = 0;
    while i < names.len()
        invariant
            i <= names@.len(),
            whole == lines(before@, names.deep_view(), behind@),
            r.deep_view() == whole.take(i as int),
        decreases names@.len() - i,
    {
        let ghost now = r.deep_view();
        let line = before.to_owned().concat(names[i].as_str()).concat(behind);
        r.push(line);
        assert(r.deep_view() =~= now.push(line@));
        assert(r.deep_view() =~= whole.take(i + 1));
        i += 1;
    }
    assert(whole.take(i as int) =~= whole);
    r
}

impl<'a> Handler<'a> {
    fn fault(&self) -> (r: Fault)
        ensures
            r == unreadable(self.format),
    {
        match self.format {
            Format::JSON => Fault::Json,
            Format::XML => Fault::Xml,
        }
    }

    fn end(&self, whole: bool) -> (r: End)
        ensures
            r == if whole {
                End::Return(Ok(()))
            } else {
                End::Fail(unreadable(self.format))
            },
    {
        if whole {
            End::Return(Ok(()))
        } else {
            End::Fail(self.fault())
        }
    }

    fn find_buckets(&self, body: &Vec<u8>) -> (r: (Vec<String>, bool))
        ensures
            (r.0.deep_view(), r.1) == found_buckets(self.format, body@),
    {
        match self.format {
            Format::JSON => names_of(text_of(body)),
            Format::XML => texts_of(text_of(body), "Name"),
        }
    }

    fn find_objects(&self, body: &Vec<u8>) -> (r: (Vec<String>, bool))
        ensures
            (r.0.deep_view(), r.1) == found_objects(self.format, body@),
    {
        match self.format {
            Format::JSON => (contents(text_of(body)), true),
            Format::XML => texts_of(text_of(body), "Key"),
        }
    }

    fn tour_call(&self, bucket: &String) -> (r: ApiCall)
        ensures
            r@ == tour_call(self.auth_type, self.url_style, bucket@),
    {
        match (self.auth_type, self.url_style) {
            (AuthType::AWS4, UrlStyle::HOST) => {
                let call = self.plain_call("GET", "/".to_owned(), no_pairs());
                ApiCall { virtual_host: Some(bucket.clone()), ..call }
            },
            _ => self.plain_call("GET", "/".to_owned().concat(bucket.as_str()), no_pairs()),
        }
    }

    /// Asks for all buckets, whose objects are to be listed.
    pub fn la(&self) -> (r: ApiCall)
        ensures
            r@ == buckets_call(self.auth_type),
    {
        self.plain_call("GET", "/".to_owned(), no_pairs())
    }

    /// Starts on a tour of the buckets in a reply.
    pub fn la_buckets(&self, reply: Option<Reply>) -> (r: Step)
        ensures
            r.shown.deep_view() == Seq::<Seq<char>>::empty(),
            match reply {
                None => r.turn matches Turn::Over(End::Return(Err(e))) && e@
                    == crate::request::not_sent(),
                Some(reply) => {
                    let (names, whole) = found_buckets(self.format, reply.body@);
                    if whole && names.len() > 0 {
                        &&& r.turn matches Turn::Ask(call, tour)
                        &&& call@ == tour_call(self.auth_type, self.url_style, names[0])
                        &&& tour.buckets.deep_view() == names
                        &&& tour.at == 0
                    } else {
                        r.turn == Turn::Over(
                            if whole {
                                End::Return(Ok(()))
                            } else {
                                End::Fail(unreadable(self.format))
                            },
                        )
                    }
                },
            },
    {
        let shown: Vec<String> = Vec::new();
        assert(shown.deep_view() =~= Seq::empty());
        let reply = match received(reply) {
            Ok(reply) => reply,
            Err(e) => return Step { shown, turn: Turn::Over(End::Return(Err(e))) },
        };
        let (buckets, whole) = self.find_buckets(&reply.body);
        if whole && buckets.len() > 0 {
            assert(buckets.deep_view()[0] == buckets@[0]@);
            let call = self.tour_call(&buckets[0]);
            Step { shown, turn: Turn::Ask(call, Tour { buckets, at: 0 }) }
        } else {
            Step { shown, turn: Turn::Over(self.end(whole)) }
        }
    }

    /// Shows the objects of the bucket that a tour has come to, and goes on to the next bucket.
    pub fn la_objects(&self, tour: Tour, reply: Option<Reply>) -> (r: Step)
        requires
            tour.at < tour.buckets@.len(),
        ensures
            match reply {
                None => {
                    &&& r.shown.deep_view() == Seq::<Seq<char>>::empty()
                    &&& r.turn matches Turn::Over(End::Return(Err(e)))
                    &&& e@ == crate::request::not_sent()
                },
                Some(reply) => {
                    let bucket = tour.buckets@[tour.at as int]@;
                    let whole = found_objects(self.format, reply.body@).1;
                    &&& r.shown.deep_view() == tour_lines(self.format, bucket, reply.body@)
                    &&& if tour_goes_on(
                        self.format,
                        tour.buckets@.len(),
                        tour.at as nat,
                        reply.body@,
                    ) {
                        &&& r.turn matches Turn::Ask(call, next)
                        &&& call@ == tour_call(
                            self.auth_type,
                            self.url_style,
                            tour.buckets@[tour.at + 1]@,
                        )
                        &&& next.buckets == tour.buckets
                        &&& next.at == tour.at + 1
                    } else {
                        r.turn == Turn::Over(
                            if whole {
                                End::Return(Ok(()))
                            } else {
                                End::Fail(unreadable(self.format))
                            },
                        )
                    }
                },
            },
    {
        let reply = match received(reply) {
            Ok(reply) => reply,
            Err(e) => {
                let shown: Vec<String> = Vec::new();
                assert(shown.deep_view() =~= Seq::empty());
                return Step { shown, turn: Turn::Over(End::Return(Err(e))) };
            },
        };
        let (names, whole) = self.find_objects(&reply.body);
        let before = "s3://".to_owned().concat(tour.buckets[tour.at].as_str()).concat("/");
        let shown = write_lines(before.as_str(), &names, "");
        proof {
            reveal_strlit("");
            assert(""@ =~= Seq::empty());
        }
        if whole && tour.at < tour.buckets.len() - 1 {
            let call = self.tour_call(&tour.buckets[tour.at + 1]);
            Step { shown, turn: Turn::Ask(call, Tour { buckets: tour.buckets, at: tour.at + 1 }) }
        } else {
            Step { shown, turn: Turn::Over(self.end(whole)) }
        }
    }

    /// Asks for a list: of the objects of a bucket, or of all buckets where none is named.
    pub fn ls(&self, bucket: Option<&str>) -> (r: Listing)
        requires
            bucket matches Some(name) ==> marked(name@) ==> crate::location::s3_location(
                name@,
            ) is Some,
        ensures
            match bucket {
                None => r.call@ == buckets_call(self.auth_type) && r.source is Buckets,
                Some(name) => {
                    let (host, path) = listed_bucket(self.url_style, name@);
                    &&& r.call@ == listed_call(self.auth_type, self.url_style, name@)
                    &&& r.source matches Source::Objects { uri, virtual_host }
                    &&& uri@ == path
                    &&& virtual_host.deep_view() == host
                },
            },
    {
        let name = match bucket {
            Some(name) => name,
            None => {
                let call = self.plain_call("GET", "/".to_owned(), no_pairs());
                return Listing { call, source: Source::Buckets };
            },
        };
        let mut virtual_host: Option<String> = None;
        let mut uri = "/".to_owned();
        if starts_with(name, "s3://") || starts_with(name, "S3://") {
            let at = locate(name).unwrap();
            match self.url_style {
                UrlStyle::PATH => {
                    uri.append(at.bucket.as_str());
                },
                UrlStyle::HOST => {
                    virtual_host = Some(at.bucket);
                },
            }
        } else {
            uri.append(name);
        }
        let call = self.plain_call("GET", uri.clone(), no_pairs());
        let call = match self.auth_type {
            AuthType::AWS4 => ApiCall { virtual_host: virtual_host.clone(), ..call },
            AuthType::AWS2 => call,
        };
        Listing { call, source: Source::Objects { uri, virtual_host } }
    }

    /// Shows the list that was asked for.
    pub fn ls_reply(&self, source: &Source, reply: Option<Reply>) -> (r: Outcome)
        ensures
            match reply {
                None => r.errs(crate::request::not_sent()),
                Some(reply) => {
                    let (found, before, behind) = match source {
                        Source::Buckets => (
                            found_buckets(self.format, reply.body@),
                            "s3://"@,
                            " "@,
                        ),
                        Source::Objects { uri, virtual_host } => (
                            found_objects(self.format, reply.body@),
                            listed_before(self.format, uri@, virtual_host.deep_view()),
                            listed_behind(self.format),
                        ),
                    };
                    if found.1 {
                        r.succeeds(lines(before, found.0, behind))
                    } else {
                        r.fails(lines(before, found.0, behind), unreadable(self.format))
                    }
                },
            },
    {
        let reply = match received(reply) {
            Ok(reply) => reply,
            Err(e) => {
                let shown: Vec<String> = Vec::new();
                assert(shown.deep_view() =~= Seq::empty());
                return Outcome { shown, end: End::Return(Err(e)) };
            },
        };
        match source {
            Source::Buckets => {
                let (names, whole) = self.find_buckets(&reply.body);
                Outcome { shown: write_lines("s3://", &names, " "), end: self.end(whole) }
            },
            Source::Objects { uri, virtual_host } => {
                let (names, whole) = self.find_objects(&reply.body);
                let shown = match self.format {
                    Format::JSON => {
                        let before = "s3:/".to_owned().concat(uri.as_str()).concat("/");
                        write_lines(before.as_str(), &names, "")
                    },
                    Format::XML => {
                        let place = match virtual_host {
                            Some(name) => name,
                            None => uri,
                        };
                        let before = "s3://".to_owned().concat(place.as_str()).concat("/");
                        write_lines(before.as_str(), &names, " ")
                    },
                };
                Outcome { shown, end: self.end(whole) }
            },
        }
    }
}

} // verus!
