//! The command that stores a file: whole, or in parts where it is large.

use crate::command::{no_pairs, one_pair, own_pairs, End};
use crate::handler::{AuthType, Format, Handler};
use crate::location::locate;
use crate::path::name_of;
use crate::request::{copy_pairs, received, take_last, ApiCall, CallView, Fault, Pairs, Reply};
use crate::text::{number, same, text_of};
use crate::xml::texts_of;
use vstd::prelude::*;
use vstd::string::*;

verus! {

/// The size of a part, and the size up to which a file is stored whole.
pub const PART_SIZE: u64 = 5242880;

/// A file that is to be stored.
pub struct Upload {
    pub file: String,
    /// The path to the object that the file becomes.
    pub uri: String,
    /// Features that version 2 of the signature asks for.
    pub headers: Vec<(String, String)>,
}

/// How a file is stored.
#[derive(Debug, Clone, Copy, PartialEq, Eq, Structural)]
pub enum Plan {
    /// Nothing is stored.
    Nothing,
    /// The file is stored by one call.
    Whole,
    /// The file is stored in parts.
    Parts,
}

/// A file that is being stored in parts.
pub struct Multipart {
    pub upload: Upload,
    /// The name that the service has given to the upload.
    pub id: String,
    pub size: u64,
    /// The tags of the parts that have been stored, in order.
    pub tags: Vec<String>,
}

/// What comes next once a part has been stored.
pub enum PartTurn {
    /// One more part is to be stored.
    More(Multipart),
    /// All parts have been stored, and this puts them together. Whatever is answered, the command
    /// has succeeded.
    Complete(ApiCall),
    /// The command is over.
    Over(End),
}

/// What is wrong with the names of a file and of the place where it is to be stored.
pub open spec fn put_error(file: Seq<char>, dest: Seq<char>) -> Option<Seq<char>> {
    if file.len() == 0 || dest.len() == 0 {
        Some("please specify the file and the destiney"@)
    } else if crate::location::s3_location(dest) is None {
        Some("S3 object format error."@)
    } else {
        None
    }
}

/// Whether a place names a bucket and leaves the name of the object open.
pub open spec fn open_name(dest: Seq<char>) -> bool {
    crate::location::s3_location(dest) matches Some((bucket, object)) && (object.len() == 0
        || object == "/"@)
}

/// The path to the object that a file becomes: it takes the name of the file where none is given.
pub open spec fn put_uri(dest: Seq<char>, name: Seq<char>) -> Seq<char> {
    let (bucket, object) = crate::location::s3_location(dest)->0;
    if open_name(dest) {
        "/"@ + bucket + "/"@ + name
    } else {
        crate::command::path_uri(bucket, object)
    }
}

/// A call that stores something of a file. Only version 2 of the signature asks for features.
pub open spec fn store_call(
    auth: AuthType,
    method: Seq<char>,
    uri: Seq<char>,
    query: Pairs,
    headers: Pairs,
    payload: Seq<u8>,
) -> CallView {
    CallView {
        headers: match auth {
            AuthType::AWS4 => Seq::empty(),
            AuthType::AWS2 => headers,
        },
        payload,
        ..crate::command::plain_call(auth, method, uri, query)
    }
}

/// The name that a reply gives to an upload, and whether the reply could be read. JSON is not
/// looked into.
pub open spec fn upload_id(format: Format, body: Seq<u8>) -> (Seq<char>, bool) {
    match format {
        Format::JSON => (Seq::empty(), true),
        Format::XML => {
            let (texts, whole) = crate::xml::tag_texts(
                crate::text::body_text(body),
                "UploadId"@,
            );
            (crate::request::last_text(texts), whole)
        },
    }
}

/// The document that puts parts together, up to its end. Parts are numbered from one on.
pub open spec fn part_entries(tags: Seq<Seq<char>>) -> Seq<char>
    decreases tags.len(),
{
    if tags.len() == 0 {
        "<CompleteMultipartUpload>"@
    } else {
        part_entries(tags.drop_last()) + "<Part><PartNumber>"@ + crate::text::decimal(tags.len())
            + "</PartNumber><ETag>"@ + tags.last() + "</ETag></Part>"@
    }
}

/// The document that puts parts together.
pub open spec fn part_document(tags: Seq<Seq<char>>) -> Seq<char> {
    part_entries(tags) + "</CompleteMultipartUpload>"@
}

/// The number of parts that a size takes.
pub open spec fn parts_needed(size: int) -> int {
    (size + PART_SIZE - 1) / PART_SIZE as int
}

/// Headers that are added where there are any.
pub open spec fn added(add_headers: Option<&Vec<(&str, &str)>>) -> Pairs {
    match add_headers {
        Some(headers) => headers.deep_view(),
        None => Seq::empty(),
    }
}

/// The first byte of a part, by the number of the parts before it.
pub open spec fn part_start(before: nat) -> int {
    before * PART_SIZE
}

/// A part of which these bytes could be read: zeros follow up to its size.
pub open spec fn filled(read: Seq<u8>) -> Seq<u8> {
    Seq::new(
        PART_SIZE as nat,
        |i: int|
            if i < read.len() {
                read[i]
            } else {
                0
            },
    )
}

/// The bytes of a file that can be read for a part, by the number of the parts before it.
pub open spec fn part_of(file: Seq<u8>, before: nat) -> Seq<u8> {
    let start = part_start(before);
    let end = start + PART_SIZE;
    file.subrange(
        start,
        if end < file.len() {
            end
        } else {
            file.len() as int
        },
    )
}

impl Upload {
    /// Whether this file is to be stored at this path with these features.
    pub open spec fn stores(&self, file: Seq<char>, uri: Seq<char>, headers: Pairs) -> bool {
        &&& self.file@ == file
        &&& self.uri@ == uri
        &&& self.headers.deep_view() == headers
    }

    /// How the file is stored: one that does not exist is not, where its name is `test`.
    pub open spec fn plan_of(&self, exists: bool, size: u64) -> Plan {
        if !exists && self.file@ == "test"@ {
            Plan::Nothing
        } else if size > PART_SIZE {
            Plan::Parts
        } else {
            Plan::Whole
        }
    }

    /// Decides how the file is stored, by whether it exists and by its size.
    pub fn plan(&self, exists: bool, size: u64) -> (r: Plan)
        ensures
            r == self.plan_of(exists, size),
    {
        if !exists && same(self.file.as_str(), "test") {
            Plan::Nothing
        } else if size > PART_SIZE {
            Plan::Parts
        } else {
            Plan::Whole
        }
    }
}

impl Multipart {
    /// No more parts have been stored than the file takes.
    pub open spec fn well_formed(&self) -> bool {
        &&& PART_SIZE < self.size <= u64::MAX - PART_SIZE
        &&& self.tags@.len() <= parts_needed(self.size as int)
    }

    /// Whether all parts have been stored.
    pub open spec fn complete(&self) -> bool {
        self.tags@.len() == parts_needed(self.size as int)
    }

    /// Says whether all parts have been stored.
    fn is_complete(&self) -> (r: bool)
        requires
            self.well_formed(),
        ensures
            r == self.complete(),
    {
        let parts: u64 = self.tags.len() as u64;
        parts * PART_SIZE >= self.size
    }

    /// The place of the next part in the file: its first byte, and its size.
    pub fn next_range(&self) -> (r: (u64, u64))
        requires
            self.well_formed(),
            !self.complete(),
        ensures
            r.0 == part_start(self.tags@.len()),
            r.1 == PART_SIZE,
            r.0 < self.size,
    {
        (self.tags.len() as u64 * PART_SIZE, PART_SIZE)
    }
}

/// What a part carries of which these bytes could be read: zeros stand behind the end of the file.
pub fn fill_part(read: Vec<u8>) -> (r: Vec<u8>)
    requires
        read@.len() <= PART_SIZE,
    ensures
        r@ == filled(read@),
{
    let mut content = read;
    content.resize(PART_SIZE as usize, 0);
    proof {
        assert forall|i: int| 0 <= i < read@.len() implies content@[i] == read@[i] by {
            assert(content@.subrange(0, read@.len() as int)[i] == content@[i]);
        }
        assert(content@ =~= filled(read@));
    }
    content
}

/// Says whether a place leaves the name of the object open.
fn leaves_open(dest: &str) -> (r: bool)
    ensures
        r == open_name(dest@),
{
    match locate(dest) {
        Some(at) => at.object.as_str().is_empty() || same(at.object.as_str(), "/"),
        None => false,
    }
}

/// How a command goes on once its file has been opened, or could not be.
pub fn opened(done: bool) -> (r: Result<(), &'static str>)
    ensures
        done ==> r == Ok::<(), &'static str>(()),
        !done ==> (r matches Err(e) && e@ == "input file open error"@),
{
    if done {
        Ok(())
    } else {
        Err("input file open error")
    }
}

impl<'a> Handler<'a> {
    fn store_call(
        &self,
        upload: &Upload,
        method: &'static str,
        query: Vec<(String, String)>,
        payload: Vec<u8>,
    ) -> (r: ApiCall)
        ensures
            r@ == store_call(
                self.auth_type,
                method@,
                upload.uri@,
                query.deep_view(),
                upload.headers.deep_view(),
                payload@,
            ),
    {
        let call = self.plain_call(method, upload.uri.clone(), query);
        let headers = match self.auth_type {
            AuthType::AWS4 => no_pairs(),
            AuthType::AWS2 => copy_pairs(&upload.headers),
        };
        ApiCall { headers, payload, ..call }
    }

    /// Finds out where a file is to be stored that has this name.
    pub fn put_named(
        &self,
        file: &str,
        dest: &str,
        add_headers: Option<&Vec<(&str, &str)>>,
        name: Option<String>,
    ) -> (r: Result<Upload, &'static str>)
        requires
            file@.len() > 0 && open_name(dest@) ==> name is Some,
        ensures
            match put_error(file@, dest@) {
                Some(error) => r matches Err(e) && e@ == error,
                None => r matches Ok(upload) && upload.stores(
                    file@,
                    put_uri(dest@, name.deep_view()->0),
                    added(add_headers),
                ),
            },
    {
        if file.is_empty() || dest.is_empty() {
            return Err("please specify the file and the destiney");
        }
        let at = match locate(dest) {
            Some(at) => at,
            None => return Err("S3 object format error."),
        };
        let headers = match add_headers {
            Some(headers) => own_pairs(headers),
            None => no_pairs(),
        };
        let mut uri = "/".to_owned().concat(at.bucket.as_str());
        if at.object.as_str().is_empty() || same(at.object.as_str(), "/") {
            uri.append("/");
            uri.append(name.unwrap().as_str());
        } else {
            uri.append(at.object.as_str());
        }
        Ok(Upload { file: file.to_owned(), uri, headers })
    }

    /// Finds out where a file is to be stored. Where the place leaves the name of the object open,
    /// it is the name of the file, as the system finds it in the path; where the path leads to none,
    /// the command cannot go on.
    pub fn put(&self, file: &str, dest: &str, add_headers: Option<&Vec<(&str, &str)>>) -> (r:
        Result<Upload, End>)
        ensures
            match put_error(file@, dest@) {
                Some(error) => r matches Err(End::Return(Err(e))) && e@ == error,
                None => if open_name(dest@) {
                    exists|name: Option<Seq<char>>|
                        #![trigger crate::path::possible_name(file@, name)]
                        crate::path::possible_name(file@, name) && match name {
                            Some(name) => r matches Ok(upload) && upload.stores(
                                file@,
                                put_uri(dest@, name),
                                added(add_headers),
                            ),
                            None => r == Err::<Upload, End>(End::Fail(Fault::Name)),
                        }
                } else {
                    r matches Ok(upload) && upload.stores(
                        file@,
                        put_uri(dest@, Seq::empty()),
                        added(add_headers),
                    )
                },
            },
    {
        let name = name_of(file);
        assert(crate::path::possible_name(file@, name.deep_view()));
        if name.is_none() && !file.is_empty() && leaves_open(dest) {
            return Err(End::Fail(Fault::Name));
        }
        match self.put_named(file, dest, add_headers, name) {
            Ok(upload) => Ok(upload),
            Err(e) => Err(End::Return(Err(e))),
        }
    }

    /// Stores a file whole, once it has been read. Whatever is answered, the command has succeeded.
    pub fn put_whole(&self, upload: &Upload, content: Option<Vec<u8>>) -> (r: Result<
        ApiCall,
        &'static str,
    >)
        ensures
            match content {
                None => r matches Err(e) && e@ == "input file open error"@,
                Some(content) => r matches Ok(call) && call@ == store_call(
                    self.auth_type,
                    "PUT"@,
                    upload.uri@,
                    Seq::empty(),
                    upload.headers.deep_view(),
                    content@,
                ),
            },
    {
        match content {
            Some(content) => Ok(self.store_call(upload, "PUT", no_pairs(), content)),
            None => Err("input file open error"),
        }
    }

    /// Asks for an upload in parts.
    pub fn put_parts(&self, upload: &Upload) -> (r: ApiCall)
        ensures
            r@ == store_call(
                self.auth_type,
                "POST"@,
                upload.uri@,
                seq![("uploads"@, ""@)],
                upload.headers.deep_view(),
                Seq::empty(),
            ),
    {
        let payload: Vec<u8> = Vec::new();
        self.store_call(upload, "POST", one_pair("uploads", ""), payload)
    }

    /// Starts on an upload in parts, by the name that the service gives to it.
    pub fn put_started(&self, upload: Upload, size: u64, reply: Option<Reply>) -> (r: Result<
        Multipart,
        End,
    >)
        requires
            PART_SIZE < size <= u64::MAX - PART_SIZE,
        ensures
            match reply {
                None => r matches Err(End::Return(Err(e))) && e@ == crate::request::not_sent(),
                Some(reply) => if upload_id(self.format, reply.body@).1 {
                    &&& r matches Ok(parts)
                    &&& parts.well_formed()
                    &&& parts.upload == upload
                    &&& parts.id@ == upload_id(self.format, reply.body@).0
                    &&& parts.size == size
                    &&& parts.tags@.len() == 0
                    &&& !parts.complete()
                } else {
                    r == Err::<Multipart, End>(End::Fail(Fault::Xml))
                },
            },
    {
        let reply = match received(reply) {
            Ok(reply) => reply,
            Err(e) => return Err(End::Return(Err(e))),
        };
        let id = match self.format {
            Format::JSON => String::new(),
            Format::XML => {
                let (texts, whole) = texts_of(text_of(&reply.body), "UploadId");
                if !whole {
                    return Err(End::Fail(Fault::Xml));
                }
                take_last(&texts)
            },
        };
        let tags: Vec<String> = Vec::new();
        Ok(Multipart { upload, id, size, tags })
    }

    /// Stores the next part of a file.
    pub fn put_part(&self, parts: &Multipart, content: Vec<u8>) -> (r: ApiCall)
        requires
            parts.well_formed(),
            !parts.complete(),
        ensures
            r@ == store_call(
                self.auth_type,
                "PUT"@,
                parts.upload.uri@,
                seq![
                    ("uploadId"@, parts.id@),
                    ("partNumber"@, crate::text::decimal(parts.tags@.len() + 1)),
                ],
                parts.upload.headers.deep_view(),
                content@,
            ),
    {
        let part: u64 = parts.tags.len() as u64 + 1;
        let mut query = one_pair("uploadId", parts.id.as_str());
        let value = number(part);
        let ghost before = query.deep_view();
        query.push(("partNumber".to_owned(), value));
        assert(query.deep_view() =~= before.push(("partNumber"@, value@)));
        assert(before.push(("partNumber"@, value@)) =~= seq![
            ("uploadId"@, parts.id@),
            ("partNumber"@, crate::text::decimal(parts.tags@.len() + 1)),
        ]);
        self.store_call(&parts.upload, "PUT", query, content)
    }

    /// Takes down the tag of a part that has been stored, and goes on to the next part or puts the
    /// parts together.
    pub fn put_part_reply(&self, parts: Multipart, reply: Option<Reply>) -> (r: PartTurn)
        requires
            parts.well_formed(),
            !parts.complete(),
        ensures
            match reply {
                None => r matches PartTurn::Over(End::Return(Err(e))) && e@
                    == crate::request::not_sent(),
                Some(reply) => match reply.header("etag"@) {
                    Some(Some(tag)) => {
                        let tags = parts.tags.deep_view().push(tag);
                        if tags.len() == parts_needed(parts.size as int) {
                            r matches PartTurn::Complete(call) && call@ == store_call(
                                self.auth_type,
                                "POST"@,
                                parts.upload.uri@,
                                seq![("uploadId"@, parts.id@)],
                                parts.upload.headers.deep_view(),
                                vstd::utf8::encode_utf8(part_document(tags)),
                            )
                        } else {
                            &&& r matches PartTurn::More(next)
                            &&& next.well_formed()
                            &&& !next.complete()
                            &&& next.upload == parts.upload
                            &&& next.id == parts.id
                            &&& next.size == parts.size
                            &&& next.tags.deep_view() == tags
                        }
                    },
                    _ => r == PartTurn::Over(End::Fail(Fault::Tag)),
                },
            },
    {
        let reply = match received(reply) {
            Ok(reply) => reply,
            Err(e) => return PartTurn::Over(End::Return(Err(e))),
        };
        match reply.find_header("etag") {
            Some(Some(tag)) => {
                let mut tags = parts.tags;
                tags.push(tag);
                assert(tags.deep_view() =~= parts.tags.deep_view().push(tag@));
                let next = Multipart { upload: parts.upload, id: parts.id, size: parts.size, tags };
                if next.is_complete() {
                    PartTurn::Complete(self.put_complete(&next))
                } else {
                    PartTurn::More(next)
                }
            },
            _ => PartTurn::Over(End::Fail(Fault::Tag)),
        }
    }

    /// Puts the parts together once all of them have been stored.
    fn put_complete(&self, parts: &Multipart) -> (r: ApiCall)
        requires
            parts.well_formed(),
            parts.complete(),
        ensures
            r@ == store_call(
                self.auth_type,
                "POST"@,
                parts.upload.uri@,
                seq![("uploadId"@, parts.id@)],
                parts.upload.headers.deep_view(),
                vstd::utf8::encode_utf8(part_document(parts.tags.deep_view())),
            ),
    {
        let ghost all = parts.tags.deep_view();
        let mut content = "<CompleteMultipartUpload>".to_owned();
        let mut i: usize = 0;
        assert(all.take(0) =~= Seq::empty());
        while i < parts.tags.len()
            invariant
                i <= parts.tags@.len(),
                all == parts.tags.deep_view(),
                content@ == part_entries(all.take(i as int)),
            decreases parts.tags@.len() - i,
        {
            let part = number(i as u64 + 1);
            content.append("<Part><PartNumber>");
            content.append(part.as_str());
            content.append("</PartNumber><ETag>");
            content.append(parts.tags[i].as_str());
            content.append("</ETag></Part>");
            assert(all.take(i + 1).drop_last() =~= all.take(i as int));
            i += 1;
        }
        assert(all.take(i as int) =~= all);
        content.append("</CompleteMultipartUpload>");
        let payload = content.as_str().as_bytes_vec();
        self.store_call(
            &parts.upload,
            "POST",
            one_pair("uploadId", parts.id.as_str()),
            payload,
        )
    }
}

} // verus!
