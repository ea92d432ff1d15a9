//! The commands that ask the service one thing.

use crate::handler::{AuthType, Format, Handler, UrlStyle};
use crate::json::usage_of;
use crate::location::{locate, Location};
use crate::path::name_of;
use crate::request::{received, ApiCall, CallView, Fault, Pairs, Reply};
use crate::text::text_of;
use crate::url::parts_of;
use vstd::prelude::*;
use vstd::string::*;

verus! {

/// How a command ends.
pub enum End {
    /// It returns.
    Return(Result<(), &'static str>),
    /// It cannot go on.
    Fail(Fault),
}

/// The lines that a command shows, and how it ends.
pub struct Outcome {
    pub shown: Vec<String>,
    pub end: End,
}

impl Outcome {
    /// Whether the command shows these lines and succeeds.
    pub open spec fn succeeds(&self, lines: Seq<Seq<char>>) -> bool {
        &&& self.shown.deep_view() == lines
        &&& self.end == End::Return(Ok(()))
    }

    /// Whether the command shows nothing and returns this error.
    pub open spec fn errs(&self, error: Seq<char>) -> bool {
        &&& self.shown.deep_view() == Seq::<Seq<char>>::empty()
        &&& self.end matches End::Return(Err(e))
        &&& e@ == error
    }

    /// Whether the command shows these lines and then cannot go on.
    pub open spec fn fails(&self, lines: Seq<Seq<char>>, fault: Fault) -> bool {
        &&& self.shown.deep_view() == lines
        &&& self.end == End::Fail(fault)
    }
}

/// An object that is fetched, and the file that it is written to.
pub struct Download {
    pub call: ApiCall,
    pub file: String,
}

/// The path to an object whose bucket is named in the path.
pub open spec fn path_uri(bucket: Seq<char>, object: Seq<char>) -> Seq<char> {
    "/"@ + bucket + object
}

/// What a call for an object says before its host, and its path.
pub open spec fn object_route(style: UrlStyle, bucket: Seq<char>, object: Seq<char>) -> (Option<
    Seq<char>,
>, Seq<char>) {
    match style {
        UrlStyle::PATH => (None, path_uri(bucket, object)),
        UrlStyle::HOST => (Some(bucket), object),
    }
}

/// A call for an object. Version 2 of the signature always names the bucket in the path, and may go
/// by a method of its own.
pub open spec fn object_call(
    auth: AuthType,
    style: UrlStyle,
    at: (Seq<char>, Seq<char>),
    methods: (Seq<char>, Seq<char>),
    query: Pairs,
    headers: Pairs,
    payload: Seq<u8>,
) -> CallView {
    let (virtual_host, uri) = object_route(style, at.0, at.1);
    match auth {
        AuthType::AWS4 => CallView {
            auth,
            method: methods.0,
            virtual_host,
            uri,
            query,
            headers,
            payload,
        },
        AuthType::AWS2 => CallView {
            auth,
            method: methods.1,
            virtual_host: None,
            uri: path_uri(at.0, at.1),
            query,
            headers,
            payload,
        },
    }
}

/// A call that is the same by either version of the signature.
pub open spec fn plain_call(
    auth: AuthType,
    method: Seq<char>,
    uri: Seq<char>,
    query: Pairs,
) -> CallView {
    CallView {
        auth,
        method,
        virtual_host: None,
        uri,
        query,
        headers: Seq::empty(),
        payload: Seq::empty(),
    }
}

/// What is wrong with the name of an object; `missing` is said where there is no name.
pub open spec fn object_error(name: Seq<char>, missing: Seq<char>) -> Option<Seq<char>> {
    if name.len() == 0 {
        Some(missing)
    } else {
        match crate::location::s3_location(name) {
            None => Some("S3 object format error."@),
            Some((bucket, object)) => if object.len() == 0 {
                Some("Please specific the object"@)
            } else {
                None
            },
        }
    }
}

/// The query that asks for the tags of an object.
pub open spec fn tagging() -> Pairs {
    seq![("tagging"@, ""@)]
}

/// The document that sets the tags of an object, up to its end.
pub open spec fn tag_entries(tags: Pairs) -> Seq<char>
    decreases tags.len(),
{
    if tags.len() == 0 {
        "<Tagging><TagSet>"@
    } else {
        let (key, value) = tags.last();
        tag_entries(tags.drop_last()) + "<Tag><Key>"@ + key + "</Key><Value>"@ + value
            + "</Value></Tag>"@
    }
}

/// The document that sets the tags of an object.
pub open spec fn tag_document(tags: Pairs) -> Seq<char> {
    tag_entries(tags) + "</TagSet></Tagging>"@
}

/// Names with their values as texts of their own.
pub fn own_pairs(pairs: &Vec<(&str, &str)>) -> (r: Vec<(String, String)>)
    ensures
        r.deep_view() == pairs.deep_view(),
{
    let mut r: Vec<(String, String)> = Vec::new();
    let mut i: usize = 0;
    while i < pairs.len()
        invariant
            i <= pairs@.len(),
            r.deep_view() == pairs.deep_view().take(i as int),
        decreases pairs@.len() - i,
    {
        let ghost before = r.deep_view();
        r.push((pairs[i].0.to_owned(), pairs[i].1.to_owned()));
        assert(r.deep_view() =~= before.push(pairs.deep_view()[i as int]));
        assert(r.deep_view() =~= pairs.deep_view().take(i + 1));
        i += 1;
    }
    assert(pairs.deep_view().take(i as int) =~= pairs.deep_view());
    r
}

/// No names at all.
pub fn no_pairs() -> (r: Vec<(String, String)>)
    ensures
        r.deep_view() == Seq::<(Seq<char>, Seq<char>)>::empty(),
{
    let r: Vec<(String, String)> = Vec::new();
    assert(r.deep_view() =~= Seq::empty());
    r
}

/// One name with its value.
pub fn one_pair(name: &str, value: &str) -> (r: Vec<(String, String)>)
    ensures
        r.deep_view() == seq![(name@, value@)],
{
    let mut r: Vec<(String, String)> = Vec::new();
    r.push((name.to_owned(), value.to_owned()));
    assert(r.deep_view() =~= seq![(name@, value@)]);
    r
}

fn uri_in_path(at: &Location) -> (r: String)
    ensures
        r@ == path_uri(at.bucket@, at.object@),
{
    "/".to_owned().concat(at.bucket.as_str()).concat(at.object.as_str())
}

/// Finds the object that a name stands for, or what is wrong with the name.
fn object_at(name: &str, missing: &'static str) -> (r: Result<Location, &'static str>)
    ensures
        match object_error(name@, missing@) {
            Some(error) => r matches Err(e) && e@ == error,
            None => r matches Ok(at) && crate::location::s3_location(name@) == Some(
                (at.bucket@, at.object@),
            ),
        },
{
    if name.is_empty() {
        return Err(missing);
    }
    match locate(name) {
        None => Err("S3 object format error."),
        Some(at) => {
            if at.object.as_str().is_empty() {
                Err("Please specific the object")
            } else {
                Ok(at)
            }
        },
    }
}

/// An outcome that shows one line.
fn shows(line: String) -> (r: Outcome)
    ensures
        r.succeeds(seq![line@]),
{
    let mut shown: Vec<String> = Vec::new();
    shown.push(line);
    assert(shown.deep_view() =~= seq![line@]);
    Outcome { shown, end: End::Return(Ok(())) }
}

/// An outcome that shows nothing.
fn silent(end: End) -> (r: Outcome)
    ensures
        r.shown.deep_view() == Seq::<Seq<char>>::empty(),
        r.end == end,
{
    let shown: Vec<String> = Vec::new();
    assert(shown.deep_view() =~= Seq::empty());
    Outcome { shown, end }
}

/// Shows the body of a reply: this is how `cat`, `list_tag` and `url_command` end.
pub fn show_body(reply: Option<Reply>) -> (r: Outcome)
    ensures
        match reply {
            Some(reply) => r.succeeds(seq![crate::text::body_text(reply.body@)]),
            None => r.errs(crate::request::not_sent()),
        },
{
    match received(reply) {
        Ok(reply) => shows(text_of(&reply.body).to_owned()),
        Err(e) => silent(End::Return(Err(e))),
    }
}

impl<'a> Handler<'a> {
    /// Whether a download fetches the object at a location into a file of this name.
    pub open spec fn fetches(&self, download: &Download, src: Seq<char>, file: Seq<char>) -> bool {
        &&& download.call@ == object_call(
            self.auth_type,
            self.url_style,
            crate::location::s3_location(src)->0,
            ("GET"@, "GET"@),
            Seq::empty(),
            Seq::empty(),
            Seq::empty(),
        )
        &&& download.file@ == file
    }

    /// Whether this comes of asking for an object that is to be written to a file of this name.
    pub open spec fn got(
        &self,
        r: Result<Download, End>,
        src: Seq<char>,
        file: Seq<char>,
    ) -> bool {
        match object_error(src, "Please specify the object"@) {
            Some(error) => r matches Err(End::Return(Err(e))) && e@ == error,
            None => r matches Ok(download) && self.fetches(&download, src, file),
        }
    }

    fn object_call(
        &self,
        at: &Location,
        method: &'static str,
        method_v2: &'static str,
        query: Vec<(String, String)>,
        headers: Vec<(String, String)>,
        payload: Vec<u8>,
    ) -> (r: ApiCall)
        ensures
            r@ == object_call(
                self.auth_type,
                self.url_style,
                (at.bucket@, at.object@),
                (method@, method_v2@),
                query.deep_view(),
                headers.deep_view(),
                payload@,
            ),
    {
        match self.auth_type {
            AuthType::AWS4 => {
                let (virtual_host, uri) = match self.url_style {
                    UrlStyle::PATH => (None, uri_in_path(at)),
                    UrlStyle::HOST => (Some(at.bucket.clone()), at.object.clone()),
                };
                ApiCall { auth: AuthType::AWS4, method, virtual_host, uri, query, headers, payload }
            },
            AuthType::AWS2 => ApiCall {
                auth: AuthType::AWS2,
                method: method_v2,
                virtual_host: None,
                uri: uri_in_path(at),
                query,
                headers,
                payload,
            },
        }
    }

    /// A call that is the same by either version of the signature.
    pub fn plain_call(&self, method: &'static str, uri: String, query: Vec<(String, String)>) -> (r:
        ApiCall)
        ensures
            r@ == plain_call(self.auth_type, method@, uri@, query.deep_view()),
    {
        let payload: Vec<u8> = Vec::new();
        ApiCall {
            auth: self.auth_type,
            method,
            virtual_host: None,
            uri,
            query,
            headers: no_pairs(),
            payload,
        }
    }

    /// Asks for an object that is to be written to a file of this name.
    pub fn get_as(&self, src: &str, file: String) -> (r: Result<Download, &'static str>)
        ensures
            match object_error(src@, "Please specify the object"@) {
                Some(error) => r matches Err(e) && e@ == error,
                None => r matches Ok(download) && self.fetches(&download, src@, file@),
            },
    {
        let at = match object_at(src, "Please specify the object") {
            Ok(at) => at,
            Err(e) => return Err(e),
        };
        let payload: Vec<u8> = Vec::new();
        let call = self.object_call(&at, "GET", "GET", no_pairs(), no_pairs(), payload);
        Ok(Download { call, file })
    }

    /// Asks for an object that is to be written to a file: the one that is given, or else one with
    /// the name of the object, as the system finds it in the location. Where the location leads to
    /// no name, the command cannot go on.
    pub fn get(&self, src: &str, file: Option<&str>) -> (r: Result<Download, End>)
        ensures
            match file {
                Some(name) => self.got(r, src@, name@),
                None => if crate::location::s3_location(src@) is None {
                    self.got(r, src@, Seq::empty())
                } else {
                    exists|name: Option<Seq<char>>|
                        #![trigger crate::path::possible_name(src@, name)]
                        crate::path::possible_name(src@, name) && match name {
                            Some(name) => self.got(r, src@, name),
                            None => r == Err::<Download, End>(End::Fail(Fault::Name)),
                        }
                },
            },
    {
        let file = match file {
            Some(name) => name.to_owned(),
            None => {
                let name = name_of(src);
                assert(crate::path::possible_name(src@, name.deep_view()));
                match name {
                    Some(name) => name,
                    None => {
                        if locate(src).is_some() {
                            return Err(End::Fail(Fault::Name));
                        }
                        String::new()
                    },
                }
            },
        };
        match self.get_as(src, file) {
            Ok(download) => Ok(download),
            Err(e) => Err(End::Return(Err(e))),
        }
    }

    /// Asks for an object that is to be shown.
    pub fn cat(&self, src: &str) -> (r: Result<ApiCall, &'static str>)
        ensures
            match object_error(src@, "please specific the object"@) {
                Some(error) => r matches Err(e) && e@ == error,
                None => r matches Ok(call) && call@ == object_call(
                    self.auth_type,
                    self.url_style,
                    crate::location::s3_location(src@)->0,
                    ("GET"@, "GET"@),
                    Seq::empty(),
                    Seq::empty(),
                    Seq::empty(),
                ),
            },
    {
        let at = match object_at(src, "please specific the object") {
            Ok(at) => at,
            Err(e) => return Err(e),
        };
        let payload: Vec<u8> = Vec::new();
        Ok(self.object_call(&at, "GET", "GET", no_pairs(), no_pairs(), payload))
    }

    /// Asks for an object to be deleted, with the features that the headers name. Whatever is
    /// answered, the command has succeeded.
    pub fn del_with_flag(&self, src: &str, headers: &Vec<(&str, &str)>) -> (r: Result<
        ApiCall,
        &'static str,
    >)
        ensures
            match object_error(src@, "please specific the object"@) {
                Some(error) => r matches Err(e) && e@ == error,
                None => r matches Ok(call) && call@ == object_call(
                    self.auth_type,
                    self.url_style,
                    crate::location::s3_location(src@)->0,
                    ("DELETE"@, "GET"@),
                    Seq::empty(),
                    headers.deep_view(),
                    Seq::empty(),
                ),
            },
    {
        let at = match object_at(src, "please specific the object") {
            Ok(at) => at,
            Err(e) => return Err(e),
        };
        let payload: Vec<u8> = Vec::new();
        Ok(self.object_call(&at, "DELETE", "GET", no_pairs(), own_pairs(headers), payload))
    }

    /// Asks for an object to be deleted. Whatever is answered, the command has succeeded.
    pub fn del(&self, src: &str) -> (r: Result<ApiCall, &'static str>)
        ensures
            match object_error(src@, "please specific the object"@) {
                Some(error) => r matches Err(e) && e@ == error,
                None => r matches Ok(call) && call@ == object_call(
                    self.auth_type,
                    self.url_style,
                    crate::location::s3_location(src@)->0,
                    ("DELETE"@, "GET"@),
                    Seq::empty(),
                    Seq::empty(),
                    Seq::empty(),
                ),
            },
    {
        let none: Vec<(&str, &str)> = Vec::new();
        assert(none.deep_view() =~= Seq::empty());
        self.del_with_flag(src, &none)
    }

    /// Asks for a bucket to be made. Whatever is answered, the command has succeeded.
    pub fn mb(&self, bucket: &str) -> (r: Result<ApiCall, &'static str>)
        ensures
            if bucket@.len() == 0 {
                r matches Err(e) && e@ == "please specific the bucket name"@
            } else {
                r matches Ok(call) && call@ == plain_call(
                    self.auth_type,
                    "PUT"@,
                    "/"@ + bucket@,
                    Seq::empty(),
                )
            },
    {
        if bucket.is_empty() {
            return Err("please specific the bucket name");
        }
        Ok(self.plain_call("PUT", "/".to_owned().concat(bucket), no_pairs()))
    }

    /// Asks for a bucket to be removed. Whatever is answered, the command has succeeded.
    pub fn rb(&self, bucket: &str) -> (r: Result<ApiCall, &'static str>)
        ensures
            if bucket@.len() == 0 {
                r matches Err(e) && e@ == "please specific the bucket name"@
            } else {
                r matches Ok(call) && call@ == plain_call(
                    self.auth_type,
                    "DELETE"@,
                    "/"@ + bucket@,
                    Seq::empty(),
                )
            },
    {
        if bucket.is_empty() {
            return Err("please specific the bucket name");
        }
        Ok(self.plain_call("DELETE", "/".to_owned().concat(bucket), no_pairs()))
    }

    /// Asks for the tags of an object, which are to be shown.
    pub fn list_tag(&self, target: &str) -> (r: Result<ApiCall, &'static str>)
        ensures
            match object_error(target@, "please specific the object"@) {
                Some(error) => r matches Err(e) && e@ == error,
                None => r matches Ok(call) && call@ == object_call(
                    self.auth_type,
                    self.url_style,
                    crate::location::s3_location(target@)->0,
                    ("GET"@, "GET"@),
                    tagging(),
                    Seq::empty(),
                    Seq::empty(),
                ),
            },
    {
        let at = match object_at(target, "please specific the object") {
            Ok(at) => at,
            Err(e) => return Err(e),
        };
        let payload: Vec<u8> = Vec::new();
        Ok(self.object_call(&at, "GET", "GET", one_pair("tagging", ""), no_pairs(), payload))
    }

    /// Asks for the tags of an object to be set. Whatever is answered, the command has succeeded.
    pub fn add_tag(&self, target: &str, tags: &Vec<(&str, &str)>) -> (r: Result<
        ApiCall,
        &'static str,
    >)
        ensures
            match object_error(target@, "please specific the object"@) {
                Some(error) => r matches Err(e) && e@ == error,
                None => r matches Ok(call) && call@ == object_call(
                    self.auth_type,
                    self.url_style,
                    crate::location::s3_location(target@)->0,
                    ("PUT"@, "PUT"@),
                    tagging(),
                    Seq::empty(),
                    vstd::utf8::encode_utf8(tag_document(tags.deep_view())),
                ),
            },
    {
        let at = match object_at(target, "please specific the object") {
            Ok(at) => at,
            Err(e) => return Err(e),
        };
        let ghost all = tags.deep_view();
        let mut content = "<Tagging><TagSet>".to_owned();
        let mut i: usize = 0;
        assert(all.take(0) =~= Seq::empty());
        while i < tags.len()
            invariant
                i <= tags@.len(),
                all == tags.deep_view(),
                content@ == tag_entries(all.take(i as int)),
            decreases tags@.len() - i,
        {
            content.append("<Tag><Key>");
            content.append(tags[i].0);
            content.append("</Key><Value>");
            content.append(tags[i].1);
            content.append("</Value></Tag>");
            assert(all.take(i + 1).drop_last() =~= all.take(i as int));
            i += 1;
        }
        assert(all.take(i as int) =~= all);
        content.append("</TagSet></Tagging>");
        let payload = content.as_str().as_bytes_vec();
        Ok(self.object_call(&at, "PUT", "PUT", one_pair("tagging", ""), no_pairs(), payload))
    }

    /// Asks for the tags of an object to be removed. Whatever is answered, the command has
    /// succeeded.
    pub fn del_tag(&self, target: &str) -> (r: Result<ApiCall, &'static str>)
        ensures
            match object_error(target@, "please specific the object"@) {
                Some(error) => r matches Err(e) && e@ == error,
                None => r matches Ok(call) && call@ == object_call(
                    self.auth_type,
                    self.url_style,
                    crate::location::s3_location(target@)->0,
                    ("DELETE"@, "DELETE"@),
                    tagging(),
                    Seq::empty(),
                    Seq::empty(),
                ),
            },
    {
        let at = match object_at(target, "please specific the object") {
            Ok(at) => at,
            Err(e) => return Err(e),
        };
        let payload: Vec<u8> = Vec::new();
        Ok(self.object_call(&at, "DELETE", "DELETE", one_pair("tagging", ""), no_pairs(), payload))
    }

    /// Asks how much of a bucket is used.
    pub fn usage(&self, target: &str, options: &Vec<(&str, &str)>) -> (r: Result<
        ApiCall,
        &'static str,
    >)
        ensures
            match crate::location::s3_location(target@) {
                None => r matches Err(e) && e@ == "S3 format error."@,
                Some((bucket, object)) => r matches Ok(call) && call@ == plain_call(
                    self.auth_type,
                    "GET"@,
                    "/admin/bucket"@,
                    options.deep_view().push(("bucket"@, bucket)),
                ),
            },
    {
        let at = match locate(target) {
            Some(at) => at,
            None => return Err("S3 format error."),
        };
        let mut query = own_pairs(options);
        let ghost before = query.deep_view();
        query.push(("bucket".to_owned(), at.bucket));
        assert(query.deep_view() =~= before.push(("bucket"@, at.bucket@)));
        Ok(self.plain_call("GET", "/admin/bucket".to_owned(), query))
    }

    /// Shows how much of a bucket is used. A reply in XML is not looked into.
    pub fn usage_reply(&self, reply: Option<Reply>) -> (r: Outcome)
        ensures
            match reply {
                None => r.errs(crate::request::not_sent()),
                Some(reply) => match self.format {
                    Format::XML => r.succeeds(Seq::empty()),
                    Format::JSON => match crate::json::parsed(
                        crate::text::body_text(reply.body@),
                    ) {
                        Some(json) => r.succeeds(seq![crate::json::usage_shown(json)]),
                        None => r.fails(Seq::empty(), Fault::Json),
                    },
                },
            },
    {
        let reply = match received(reply) {
            Ok(reply) => reply,
            Err(e) => return silent(End::Return(Err(e))),
        };
        match self.format {
            Format::XML => silent(End::Return(Ok(()))),
            Format::JSON => match usage_of(text_of(&reply.body)) {
                Some(text) => shows(text),
                None => silent(End::Fail(Fault::Json)),
            },
        }
    }

    /// Asks for an address of the service, with its query, whose reply is to be shown.
    pub fn url_command(&self, url: &str) -> (r: ApiCall)
        ensures
            r@ == plain_call(
                self.auth_type,
                "GET"@,
                crate::url::split_url(url@).0,
                crate::url::split_url(url@).1,
            ),
    {
        let (uri, query) = parts_of(url);
        self.plain_call("GET", uri, query)
    }
}

impl Download {
    /// What is written to the file once the object is there.
    pub fn received(self, reply: Option<Reply>) -> (r: Result<(String, Vec<u8>), &'static str>)
        ensures
            match reply {
                Some(reply) => r == Ok::<(String, Vec<u8>), &'static str>((self.file, reply.body)),
                None => r matches Err(e) && e@ == crate::request::not_sent(),
            },
    {
        match received(reply) {
            Ok(reply) => Ok((self.file, reply.body)),
            Err(e) => Err(e),
        }
    }

    /// How the command ends once the file has been written, or could not be.
    pub fn written(done: bool) -> (r: Result<(), &'static str>)
        ensures
            done ==> r == Ok::<(), &'static str>(()),
            !done ==> (r matches Err(e) && e@ == "write file error"@),
    {
        if done {
            Ok(())
        } else {
            Err("write file error")
        }
    }
}

} // verus!
