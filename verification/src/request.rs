//! What is asked of the service, and how it is put into an HTTP request.

use crate::clock::{rfc2822, utc, DAY_FORMAT, MOMENT_FORMAT};
use crate::handler::{AuthType, Format, Handler};
use crate::text::{same, text_of};
use crate::xml::texts_of;
use vstd::prelude::*;
use vstd::string::*;

verus! {

/// Names with their values, in order.
pub type Pairs = Seq<(Seq<char>, Seq<char>)>;

/// One thing that a command asks of the service.
pub struct ApiCall {
    /// How the request is signed.
    pub auth: AuthType,
    pub method: &'static str,
    /// What stands before the host, where the host names the bucket.
    pub virtual_host: Option<String>,
    pub uri: String,
    pub query: Vec<(String, String)>,
    /// Features that the caller asks for: `delete-marker` and `secure-delete` are sent on.
    pub headers: Vec<(String, String)>,
    pub payload: Vec<u8>,
}

/// A call in terms of its characters and bytes.
pub struct CallView {
    pub auth: AuthType,
    pub method: Seq<char>,
    pub virtual_host: Option<Seq<char>>,
    pub uri: Seq<char>,
    pub query: Pairs,
    pub headers: Pairs,
    pub payload: Seq<u8>,
}

impl View for ApiCall {
    type V = CallView;

    open spec fn view(&self) -> CallView {
        CallView {
            auth: self.auth,
            method: self.method@,
            virtual_host: self.virtual_host.deep_view(),
            uri: self.uri@,
            query: self.query.deep_view(),
            headers: self.headers.deep_view(),
            payload: self.payload@,
        }
    }
}

/// The way that a call signed by version 4 takes. A redirection changes it.
pub struct Route {
    pub virtual_host: Option<String>,
    pub region: Option<String>,
    pub endpoint: Option<String>,
}

/// What is known of a request before it is signed by version 2.
pub struct DraftV2 {
    /// The headers that are sent.
    pub headers: Vec<(String, String)>,
    /// The headers that are signed.
    pub signed_headers: Vec<(String, String)>,
    /// The query, not yet in its canonical form.
    pub query: Vec<(String, String)>,
}

/// What is known of a request before it is signed by version 4.
pub struct DraftV4 {
    /// The host that the request goes to.
    pub hostname: String,
    /// The moment of the request.
    pub moment: String,
    /// The day of the request.
    pub day: String,
    /// The region that the signature is for.
    pub region: Option<String>,
    /// The headers that are sent.
    pub headers: Vec<(String, String)>,
    /// The headers that are signed.
    pub signed_headers: Vec<(String, String)>,
    /// The query, not yet in its canonical form.
    pub query: Vec<(String, String)>,
}

/// The verbs of HTTP that are used.
#[derive(Debug, Clone, Copy, PartialEq, Eq, Structural)]
pub enum Verb {
    Get,
    Put,
    Delete,
    Post,
}

/// A request that is ready to be sent.
pub struct HttpRequest {
    pub verb: Verb,
    pub url: String,
    pub headers: Vec<(String, String)>,
    pub body: Vec<u8>,
}

/// What came back. A header whose value is not text has none.
pub struct Reply {
    pub status: u16,
    pub headers: Vec<(String, Option<String>)>,
    pub body: Vec<u8>,
}

/// Why a command cannot go on: the service has answered what the client cannot make sense of, or a
/// path has no name to go by.
#[derive(Debug, Clone, Copy, PartialEq, Eq, Structural)]
pub enum Fault {
    /// The reply is not the XML that it ought to be.
    Xml,
    /// The reply is not the JSON that it ought to be.
    Json,
    /// A redirection does not say to which region.
    Region,
    /// An uploaded part has no tag.
    Tag,
    /// A path that a name is to be taken from leads to none.
    Name,
}

/// What becomes of a call signed by version 4 once an answer is there.
pub enum Answer {
    /// The call is done.
    Done(Result<Reply, &'static str>),
    /// The call has to be made again on another way.
    Again(Route),
    /// The answer makes no sense.
    Fail(Fault),
}

/// The verb that a method stands for. One that is not known is sent as `GET`.
pub open spec fn verb_of(method: Seq<char>) -> Verb {
    if method == "PUT"@ {
        Verb::Put
    } else if method == "DELETE"@ {
        Verb::Delete
    } else if method == "POST"@ {
        Verb::Post
    } else {
        Verb::Get
    }
}

/// Finds the verb that a method stands for.
pub fn verb(method: &str) -> (r: Verb)
    ensures
        r == verb_of(method@),
{
    if same(method, "PUT") {
        Verb::Put
    } else if same(method, "DELETE") {
        Verb::Delete
    } else if same(method, "POST") {
        Verb::Post
    } else {
        Verb::Get
    }
}

/// Headers with one of them set: it takes the place of one of the same name.
pub open spec fn with_header(headers: Pairs, name: Seq<char>, value: Seq<char>) -> Pairs
    decreases headers.len(),
{
    if headers.len() == 0 {
        seq![(name, value)]
    } else if headers[0].0 == name {
        seq![(name, value)] + headers.skip(1)
    } else {
        seq![headers[0]] + with_header(headers.skip(1), name, value)
    }
}

/// Headers with others set one after the other.
pub open spec fn with_headers(headers: Pairs, more: Pairs) -> Pairs
    decreases more.len(),
{
    if more.len() == 0 {
        headers
    } else {
        with_headers(with_header(headers, more[0].0, more[0].1), more.skip(1))
    }
}

/// The values that are given under one name, under the name by which they are sent on.
pub open spec fn sent_on(given: Pairs, name: Seq<char>, sent: Seq<char>) -> Pairs
    decreases given.len(),
{
    if given.len() == 0 {
        Seq::empty()
    } else if given[0].0 == name {
        seq![(sent, given[0].1)] + sent_on(given.skip(1), name, sent)
    } else {
        sent_on(given.skip(1), name, sent)
    }
}

/// The features that the caller asks for, as headers: those for delete markers come first.
pub open spec fn features(given: Pairs) -> Pairs {
    sent_on(given, "delete-marker"@, "x-amz-delete-marker"@) + sent_on(
        given,
        "secure-delete"@,
        "x-amz-secure-delete"@,
    )
}

/// The query of a call, with the format of the reply where it is not the usual one.
pub open spec fn full_query(format: Format, query: Pairs) -> Pairs {
    match format {
        Format::JSON => seq![("format"@, "json"@)] + query,
        Format::XML => query,
    }
}

/// The host that a call goes to on its way: where a redirection has named an endpoint, there.
pub open spec fn hostname_of(
    host: Seq<char>,
    virtual_host: Option<Seq<char>>,
    endpoint: Option<Seq<char>>,
) -> Seq<char> {
    match endpoint {
        Some(endpoint) => endpoint,
        None => match virtual_host {
            Some(name) => name + "."@ + host,
            None => host,
        },
    }
}

/// The address of a request.
pub open spec fn url_of(hostname: Seq<char>, uri: Seq<char>, canonical: Seq<char>) -> Seq<char> {
    "http://"@ + hostname + uri + "?"@ + canonical
}

/// The region that a signature names.
pub open spec fn signed_region(region: Option<Seq<char>>) -> Seq<char> {
    match region {
        Some(region) => region,
        None => "us-east-1"@,
    }
}

/// How a request signed by version 2 proves who sends it.
pub open spec fn v2_authorization(access_key: Seq<char>, signature: Seq<char>) -> Seq<char> {
    "AWS "@ + access_key + ":"@ + signature
}

/// How a request signed by version 4 proves who sends it.
pub open spec fn v4_authorization(
    access_key: Seq<char>,
    day: Seq<char>,
    region: Option<Seq<char>>,
    names: Seq<char>,
    signature: Seq<char>,
) -> Seq<char> {
    "AWS4-HMAC-SHA256 Credential="@ + access_key + "/"@ + day + "/"@ + signed_region(region)
        + "/s3/aws4_request, SignedHeaders="@ + names + ", Signature="@ + signature
}

proof fn lemma_with_header_at(headers: Pairs, name: Seq<char>, value: Seq<char>, i: int)
    requires
        0 <= i < headers.len(),
        headers[i].0 == name,
        forall|j: int| 0 <= j < i ==> (#[trigger] headers[j]).0 != name,
    ensures
        with_header(headers, name, value) == headers.update(i, (name, value)),
    decreases headers.len(),
{
    if i > 0 {
        let rest = headers.skip(1);
        assert(rest[i - 1] == headers[i]);
        assert forall|j: int| 0 <= j < i - 1 implies (#[trigger] rest[j]).0 != name by {
            assert(rest[j] == headers[j + 1]);
        }
        lemma_with_header_at(rest, name, value, i - 1);
        assert(seq![headers[0]] + rest.update(i - 1, (name, value)) =~= headers.update(
            i,
            (name, value),
        ));
    } else {
        assert(seq![(name, value)] + headers.skip(1) =~= headers.update(0, (name, value)));
    }
}

proof fn lemma_with_header_new(headers: Pairs, name: Seq<char>, value: Seq<char>)
    requires
        forall|j: int| 0 <= j < headers.len() ==> (#[trigger] headers[j]).0 != name,
    ensures
        with_header(headers, name, value) == headers.push((name, value)),
    decreases headers.len(),
{
    if headers.len() > 0 {
        let rest = headers.skip(1);
        assert forall|j: int| 0 <= j < rest.len() implies (#[trigger] rest[j]).0 != name by {
            assert(rest[j] == headers[j + 1]);
        }
        assert(headers[0].0 != name);
        lemma_with_header_new(rest, name, value);
        assert(seq![headers[0]] + rest.push((name, value)) =~= headers.push((name, value)));
    } else {
        assert(seq![(name, value)] =~= headers.push((name, value)));
    }
}

fn set_header(headers: &mut Vec<(String, String)>, name: &str, value: &str)
    ensures
        final(headers).deep_view() == with_header(old(headers).deep_view(), name@, value@),
{
    let ghost before = headers.deep_view();
    let mut i: usize = 0;
    while i < headers.len()
        invariant
            i <= headers@.len(),
            headers.deep_view() == before,
            before == old(headers).deep_view(),
            forall|j: int| 0 <= j < i ==> (#[trigger] before[j]).0 != name@,
        decreases headers@.len() - i,
    {
        if same(headers[i].0.as_str(), name) {
            headers.set(i, (name.to_owned(), value.to_owned()));
            proof {
                lemma_with_header_at(before, name@, value@, i as int);
                assert(headers.deep_view() =~= before.update(i as int, (name@, value@)));
            }
            return;
        }
        assert(before[i as int].0 != name@);
        i += 1;
    }
    headers.push((name.to_owned(), value.to_owned()));
    proof {
        lemma_with_header_new(before, name@, value@);
        assert(headers.deep_view() =~= before.push((name@, value@)));
    }
}

proof fn lemma_with_headers_add(headers: Pairs, first: Pairs, second: Pairs)
    ensures
        with_headers(headers, first + second) == with_headers(with_headers(headers, first), second),
    decreases first.len(),
{
    if first.len() == 0 {
        assert(first + second =~= second);
    } else {
        assert((first + second).skip(1) =~= first.skip(1) + second);
        lemma_with_headers_add(
            with_header(headers, first[0].0, first[0].1),
            first.skip(1),
            second,
        );
    }
}

/// Sends on the values that are given under one name.
fn send_on(
    given: &Vec<(String, String)>,
    name: &str,
    sent: &str,
    headers: &mut Vec<(String, String)>,
    signed: &mut Vec<(String, String)>,
)
    ensures
        final(headers).deep_view() == with_headers(
            old(headers).deep_view(),
            sent_on(given.deep_view(), name@, sent@),
        ),
        final(signed).deep_view() == old(signed).deep_view() + sent_on(
            given.deep_view(),
            name@,
            sent@,
        ),
{
    let ghost all = given.deep_view();
    let ghost headers_before = headers.deep_view();
    let ghost signed_before = signed.deep_view();
    let mut i: usize = 0;
    assert(all.skip(0) == all);
    while i < given.len()
        invariant
            i <= given@.len(),
            all == given.deep_view(),
            with_headers(headers.deep_view(), sent_on(all.skip(i as int), name@, sent@))
                == with_headers(headers_before, sent_on(all, name@, sent@)),
            signed.deep_view() + sent_on(all.skip(i as int), name@, sent@) == signed_before
                + sent_on(all, name@, sent@),
        decreases given@.len() - i,
    {
        let ghost rest = all.skip(i as int);
        assert(rest[0] == (given@[i as int].0@, given@[i as int].1@));
        assert(rest.skip(1) == all.skip(i + 1));
        let entry = &given[i];
        if same(entry.0.as_str(), name) {
            let ghost signed_now = signed.deep_view();
            set_header(headers, sent, entry.1.as_str());
            signed.push((sent.to_owned(), entry.1.clone()));
            proof {
                let more = sent_on(all.skip(i + 1), name@, sent@);
                let whole = seq![(sent@, entry.1@)] + more;
                assert(sent_on(rest, name@, sent@) == whole);
                assert(whole.skip(1) =~= more);
                assert(signed.deep_view() =~= signed_now.push((sent@, entry.1@)));
                assert(signed_now.push((sent@, entry.1@)) + more =~= signed_now + whole);
            }
        }
        i += 1;
    }
    proof {
        assert(sent_on(all.skip(i as int), name@, sent@) =~= Seq::empty());
        assert(signed.deep_view() + sent_on(all.skip(i as int), name@, sent@)
            =~= signed.deep_view());
    }
}

/// Adds to the headers of a request the features that the caller asks for.
fn add_features(
    given: &Vec<(String, String)>,
    headers: &mut Vec<(String, String)>,
    signed: &mut Vec<(String, String)>,
)
    ensures
        final(headers).deep_view() == with_headers(
            old(headers).deep_view(),
            features(given.deep_view()),
        ),
        final(signed).deep_view() == old(signed).deep_view() + features(given.deep_view()),
{
    proof {
        lemma_with_headers_add(
            headers.deep_view(),
            sent_on(given.deep_view(), "delete-marker"@, "x-amz-delete-marker"@),
            sent_on(given.deep_view(), "secure-delete"@, "x-amz-secure-delete"@),
        );
    }
    send_on(given, "delete-marker", "x-amz-delete-marker", headers, signed);
    send_on(given, "secure-delete", "x-amz-secure-delete", headers, signed);
}

/// A copy of names with their values.
pub fn copy_pairs(pairs: &Vec<(String, String)>) -> (r: Vec<(String, String)>)
    ensures
        r.deep_view() == pairs.deep_view(),
{
    let mut r: Vec<(String, String)> = Vec::new();
    let mut i: usize = 0;
    while i < pairs.len()
        invariant
            i <= pairs@.len(),
            r.deep_view() == pairs.deep_view().take(i as int),
        decreases pairs@.len() - i,
    {
        let ghost before = r.deep_view();
        r.push((pairs[i].0.clone(), pairs[i].1.clone()));
        assert(r.deep_view() =~= before.push(pairs.deep_view()[i as int]));
        assert(r.deep_view() =~= pairs.deep_view().take(i + 1));
        i += 1;
    }
    assert(pairs.deep_view().take(i as int) =~= pairs.deep_view());
    r
}

impl<'a> Handler<'a> {
    fn query_with_format(&self, query: &Vec<(String, String)>) -> (r: Vec<(String, String)>)
        ensures
            r.deep_view() == full_query(self.format, query.deep_view()),
    {
        let mut r: Vec<(String, String)> = Vec::new();
        match self.format {
            Format::JSON => {
                r.push(("format".to_owned(), "json".to_owned()));
                assert(r.deep_view() =~= seq![("format"@, "json"@)]);
            },
            Format::XML => {
                assert(r.deep_view() =~= Seq::empty());
            },
        }
        let ghost first = r.deep_view();
        let mut copy = copy_pairs(query);
        r.append(&mut copy);
        assert(r.deep_view() =~= first + query.deep_view());
        assert(r.deep_view() =~= full_query(self.format, query.deep_view()));
        r
    }

    /// What a request signed by version 2 holds before it is signed.
    pub fn aws_v2_draft(&self, call: &ApiCall, now: i64) -> (r: DraftV2)
        requires
            crate::clock::four_digit_year(now as int),
        ensures
            r.headers.deep_view() == with_headers(
                seq![("date"@, crate::clock::rfc2822_text(now as int))],
                features(call@.headers),
            ),
            r.signed_headers.deep_view() == seq![
                ("Date"@, crate::clock::rfc2822_text(now as int)),
            ] + features(call@.headers),
            r.query.deep_view() == full_query(self.format, call@.query),
    {
        let date = rfc2822(now);
        let mut headers: Vec<(String, String)> = Vec::new();
        let mut signed_headers: Vec<(String, String)> = Vec::new();
        headers.push(("date".to_owned(), date.clone()));
        signed_headers.push(("Date".to_owned(), date));
        proof {
            assert(headers.deep_view() =~= seq![
                ("date"@, crate::clock::rfc2822_text(now as int)),
            ]);
            assert(signed_headers.deep_view() =~= seq![
                ("Date"@, crate::clock::rfc2822_text(now as int)),
            ]);
        }
        add_features(&call.headers, &mut headers, &mut signed_headers);
        let query = self.query_with_format(&call.query);
        DraftV2 { headers, signed_headers, query }
    }

    /// The request that a call signed by version 2 becomes, with the canonical form of its query
    /// and its signature.
    pub fn aws_v2_request(
        &self,
        call: &ApiCall,
        draft: DraftV2,
        canonical: &str,
        signature: &str,
    ) -> (r: HttpRequest)
        ensures
            r.verb == verb_of(call@.method),
            r.url@ == url_of(self.host@, call@.uri, canonical@),
            r.headers.deep_view() == with_header(
                draft.headers.deep_view(),
                "authorization"@,
                v2_authorization(self.access_key@, signature@),
            ),
            r.body@ == call@.payload,
    {
        let mut headers = draft.headers;
        let authorization = "AWS ".to_owned().concat(self.access_key).concat(":").concat(signature);
        set_header(&mut headers, "authorization", authorization.as_str());
        HttpRequest {
            verb: verb(call.method),
            url: self.url(self.host, call.uri.as_str(), canonical),
            headers,
            body: call.payload.clone(),
        }
    }

    fn url(&self, hostname: &str, uri: &str, canonical: &str) -> (r: String)
        ensures
            r@ == url_of(hostname@, uri@, canonical@),
    {
        "http://".to_owned().concat(hostname).concat(uri).concat("?").concat(canonical)
    }

    /// The way that a call signed by version 4 takes at first.
    pub fn first_route(&self, call: &ApiCall) -> (r: Route)
        ensures
            r.virtual_host == call.virtual_host,
            r.region == self.region,
            r.endpoint is None,
    {
        Route {
            virtual_host: call.virtual_host.clone(),
            region: self.region.clone(),
            endpoint: None,
        }
    }

    /// What a request signed by version 4 holds before it is signed, with the hash of its payload.
    pub fn aws_v4_draft(&self, call: &ApiCall, route: &Route, now: i64, payload_hash: &str) -> (r:
        DraftV4)
        requires
            crate::clock::on_calendar(now as int),
        ensures
            r.hostname@ == hostname_of(
                self.host@,
                route.virtual_host.deep_view(),
                route.endpoint.deep_view(),
            ),
            r.moment@ == crate::clock::utc_text(now as int, MOMENT_FORMAT@),
            r.day@ == crate::clock::utc_text(now as int, DAY_FORMAT@),
            r.region == route.region,
            r.headers.deep_view() == with_headers(
                seq![("x-amz-date"@, r.moment@), ("x-amz-content-sha256"@, payload_hash@)],
                features(call@.headers),
            ),
            r.signed_headers.deep_view() == seq![("X-AMZ-Date"@, r.moment@), ("Host"@, r.hostname@)]
                + features(call@.headers),
            r.query.deep_view() == full_query(self.format, call@.query),
    {
        let moment = utc(now, MOMENT_FORMAT);
        let hostname = match &route.endpoint {
            Some(endpoint) => endpoint.clone(),
            None => match &route.virtual_host {
                Some(name) => name.clone().concat(".").concat(self.host),
                None => self.host.to_owned(),
            },
        };
        let mut headers: Vec<(String, String)> = Vec::new();
        let mut signed_headers: Vec<(String, String)> = Vec::new();
        headers.push(("x-amz-date".to_owned(), moment.clone()));
        headers.push(("x-amz-content-sha256".to_owned(), payload_hash.to_owned()));
        signed_headers.push(("X-AMZ-Date".to_owned(), moment.clone()));
        signed_headers.push(("Host".to_owned(), hostname.clone()));
        proof {
            assert(headers.deep_view() =~= seq![
                ("x-amz-date"@, moment@),
                ("x-amz-content-sha256"@, payload_hash@),
            ]);
            assert(signed_headers.deep_view() =~= seq![
                ("X-AMZ-Date"@, moment@),
                ("Host"@, hostname@),
            ]);
        }
        add_features(&call.headers, &mut headers, &mut signed_headers);
        DraftV4 {
            hostname,
            moment,
            day: utc(now, DAY_FORMAT),
            region: route.region.clone(),
            headers,
            signed_headers,
            query: self.query_with_format(&call.query),
        }
    }

    /// The request that a call signed by version 4 becomes, with the canonical form of its query,
    /// the names of its signed headers and its signature.
    pub fn aws_v4_request(
        &self,
        call: &ApiCall,
        draft: DraftV4,
        canonical: &str,
        names: &str,
        signature: &str,
    ) -> (r: HttpRequest)
        ensures
            r.verb == verb_of(call@.method),
            r.url@ == url_of(draft.hostname@, call@.uri, canonical@),
            r.headers.deep_view() == with_header(
                draft.headers.deep_view(),
                "authorization"@,
                v4_authorization(
                    self.access_key@,
                    draft.day@,
                    draft.region.deep_view(),
                    names@,
                    signature@,
                ),
            ),
            r.body@ == call@.payload,
    {
        let region = match &draft.region {
            Some(region) => region.clone(),
            None => "us-east-1".to_owned(),
        };
        let authorization = "AWS4-HMAC-SHA256 Credential=".to_owned().concat(
            self.access_key,
        ).concat("/").concat(draft.day.as_str()).concat("/").concat(region.as_str()).concat(
            "/s3/aws4_request, SignedHeaders=",
        ).concat(names).concat(", Signature=").concat(signature);
        let mut headers = draft.headers;
        set_header(&mut headers, "authorization", authorization.as_str());
        HttpRequest {
            verb: verb(call.method),
            url: self.url(draft.hostname.as_str(), call.uri.as_str(), canonical),
            headers,
            body: call.payload.clone(),
        }
    }
}

/// Where a header stands first in a reply.
pub open spec fn first_named(headers: Seq<(Seq<char>, Option<Seq<char>>)>, name: Seq<char>) -> Option<
    Option<Seq<char>>,
>
    decreases headers.len(),
{
    if headers.len() == 0 {
        None
    } else if headers[0].0 == name {
        Some(headers[0].1)
    } else {
        first_named(headers.skip(1), name)
    }
}

impl Reply {
    /// The first header of a name; within it nothing where its value is not text.
    pub open spec fn header(&self, name: Seq<char>) -> Option<Option<Seq<char>>> {
        first_named(self.headers.deep_view(), name)
    }

    /// Whether the reply sends the request elsewhere.
    pub open spec fn redirects(&self) -> bool {
        300 <= self.status < 400
    }

    /// Finds the first header of a name.
    pub fn find_header(&self, name: &str) -> (r: Option<Option<String>>)
        ensures
            r.deep_view() == self.header(name@),
    {
        let ghost all = self.headers.deep_view();
        let mut i: usize = 0;
        assert(all.skip(0) == all);
        while i < self.headers.len()
            invariant
                i <= self.headers@.len(),
                all == self.headers.deep_view(),
                first_named(all.skip(i as int), name@) == first_named(all, name@),
            decreases self.headers@.len() - i,
        {
            let ghost rest = all.skip(i as int);
            assert(rest[0] == (self.headers@[i as int].0@, self.headers@[i as int].1.deep_view()));
            assert(rest.skip(1) == all.skip(i + 1));
            if same(self.headers[i].0.as_str(), name) {
                return Some(self.headers[i].1.clone());
            }
            i += 1;
        }
        None
    }
}

/// The last of some texts, and nothing where there are none.
pub open spec fn last_text(texts: Seq<Seq<char>>) -> Seq<char> {
    if texts.len() == 0 {
        Seq::empty()
    } else {
        texts.last()
    }
}

/// Takes the last of some texts.
pub fn take_last(texts: &Vec<String>) -> (r: String)
    ensures
        r@ == last_text(texts.deep_view()),
{
    if texts.len() == 0 {
        String::new()
    } else {
        assert(texts.deep_view().last() == texts@.last()@);
        texts[texts.len() - 1].clone()
    }
}

/// What a call comes back with where it could not be sent.
pub open spec fn not_sent() -> Seq<char> {
    "Reqwest Error"@
}

/// The reply to a call: the error where there is none.
pub fn received(reply: Option<Reply>) -> (r: Result<Reply, &'static str>)
    ensures
        match reply {
            Some(reply) => r == Ok::<Reply, &'static str>(reply),
            None => r matches Err(e) && e@ == not_sent(),
        },
{
    match reply {
        Some(reply) => Ok(reply),
        None => Err("Reqwest Error"),
    }
}

/// The endpoint that the body of a redirection names, and whether it could be read. JSON is not
/// looked into.
pub open spec fn redirected_to(format: Format, body: Seq<u8>) -> (Seq<char>, bool) {
    match format {
        Format::JSON => (Seq::empty(), true),
        Format::XML => {
            let (texts, whole) = crate::xml::tag_texts(
                crate::text::body_text(body),
                "Endpoint"@,
            );
            (last_text(texts), whole)
        },
    }
}

impl<'a> Handler<'a> {
    /// Decides what becomes of a call signed by version 4 once an answer is there.
    ///
    /// A redirection that names its region is followed: to the endpoint in its body, without the
    /// part of the host that named the bucket.
    pub fn aws_v4_reply(&self, reply: Option<Reply>) -> (r: Answer)
        ensures
            match reply {
                None => r matches Answer::Done(Err(e)) && e@ == not_sent(),
                Some(reply) => if !reply.redirects() {
                    r == Answer::Done(Ok::<Reply, &'static str>(reply))
                } else if !redirected_to(self.format, reply.body@).1 {
                    r == Answer::Fail(Fault::Xml)
                } else {
                    match reply.header("x-amz-bucket-region"@) {
                        None => r == Answer::Fail(Fault::Region),
                        Some(region) => {
                            &&& r matches Answer::Again(route)
                            &&& route.virtual_host is None
                            &&& route.region.deep_view() == Some(
                                match region {
                                    Some(name) => name,
                                    None => Seq::empty(),
                                },
                            )
                            &&& route.endpoint.deep_view() == Some(
                                redirected_to(self.format, reply.body@).0,
                            )
                        },
                    }
                },
            },
    {
        let reply = match received(reply) {
            Ok(reply) => reply,
            Err(e) => return Answer::Done(Err(e)),
        };
        if reply.status < 300 || reply.status >= 400 {
            return Answer::Done(Ok(reply));
        }
        let endpoint = match self.format {
            Format::JSON => String::new(),
            Format::XML => {
                let (texts, whole) = texts_of(text_of(&reply.body), "Endpoint");
                if !whole {
                    return Answer::Fail(Fault::Xml);
                }
                take_last(&texts)
            },
        };
        match reply.find_header("x-amz-bucket-region") {
            None => Answer::Fail(Fault::Region),
            Some(region) => {
                let region = match region {
                    Some(name) => name,
                    None => String::new(),
                };
                Answer::Again(
                    Route { virtual_host: None, region: Some(region), endpoint: Some(endpoint) },
                )
            },
        }
    }
}

} // verus!
