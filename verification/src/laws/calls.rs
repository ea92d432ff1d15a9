//! What holds of commands: what each asks of the service, and what it refuses.

use crate::command::{Download, End};
use crate::handler::{AuthType, CredentialConfig, Format, Handler, UrlStyle};
use crate::listing::{Listing, Source};
use crate::request::{ApiCall, Fault, Pairs, Reply};
use crate::upload::{Multipart, PartTurn, Plan, Upload};
use vstd::prelude::*;

verus! {

/// Whether a call carries these things, signed as a handler signs.
pub open spec fn carries(
    h: &Handler<'_>,
    call: &ApiCall,
    method: Seq<char>,
    query: Pairs,
    headers: Pairs,
    payload: Seq<u8>,
) -> bool {
    &&& call.auth == h.auth_type
    &&& call.method@ == method
    &&& call.query.deep_view() == query
    &&& call.headers.deep_view() == headers
    &&& call.payload@ == payload
}

/// Whether a call goes to an object in the style of a handler: the bucket stands before the host under
/// version 4 and the style of hosts, and in the path otherwise.
pub open spec fn goes_to(
    h: &Handler<'_>,
    call: &ApiCall,
    bucket: Seq<char>,
    object: Seq<char>,
) -> bool {
    if h.auth_type == AuthType::AWS4 && h.url_style == UrlStyle::HOST {
        call.virtual_host.deep_view() == Some(bucket) && call.uri@ == object
    } else {
        call.virtual_host is None && call.uri@ == "/"@ + bucket + object
    }
}

/// Whether a call goes to this path, with no bucket before the host.
pub open spec fn goes_by_path(call: &ApiCall, uri: Seq<char>) -> bool {
    call.virtual_host is None && call.uri@ == uri
}

/// Whether a command that is about an object answers as it ought to: it refuses a name that is missing,
/// that is no location, or that has no object, and otherwise goes to the object with these things.
pub open spec fn asks_about_object(
    h: &Handler<'_>,
    name: Seq<char>,
    r: Result<ApiCall, &'static str>,
    method: Seq<char>,
    query: Pairs,
    headers: Pairs,
    payload: Seq<u8>,
) -> bool {
    if name.len() == 0 {
        r matches Err(e) && e@ == "please specific the object"@
    } else {
        match crate::location::s3_location(name) {
            None => r matches Err(e) && e@ == "S3 object format error."@,
            Some((bucket, object)) => if object.len() == 0 {
                r matches Err(e) && e@ == "Please specific the object"@
            } else {
                &&& r matches Ok(call)
                &&& carries(h, &call, method, query, headers, payload)
                &&& goes_to(h, &call, bucket, object)
            },
        }
    }
}

/// A call for an object carries the query, the headers and the payload that its command gives it, by
/// either version of the signature and in either style. Version 2 names the bucket in the path.
pub proof fn law_object_call_carries_what_it_is_given(
    auth: AuthType,
    style: UrlStyle,
    at: (Seq<char>, Seq<char>),
    methods: (Seq<char>, Seq<char>),
    query: Pairs,
    headers: Pairs,
    payload: Seq<u8>,
)
    ensures
        ({
            let call = crate::command::object_call(
                auth,
                style,
                at,
                methods,
                query,
                headers,
                payload,
            );
            &&& call.auth == auth
            &&& call.query == query
            &&& call.headers == headers
            &&& call.payload == payload
            &&& auth == AuthType::AWS4 ==> call.method == methods.0
            &&& auth == AuthType::AWS2 ==> call.method == methods.1
            &&& auth == AuthType::AWS4 && style == UrlStyle::HOST ==> call.virtual_host == Some(
                at.0,
            ) && call.uri == at.1
            &&& auth == AuthType::AWS2 || style == UrlStyle::PATH ==> call.virtual_host is None
                && call.uri == "/"@ + at.0 + at.1
        }),
{
}

/// A call by path is signed as the handler signs, and carries the query alone.
pub proof fn law_plain_call(
    h: &Handler<'_>,
    method: &'static str,
    uri: String,
    query: Vec<(String, String)>,
    r: ApiCall,
)
    requires
        call_ensures(Handler::plain_call, (h, method, uri, query), r),
    ensures
        carries(h, &r, method@, query.deep_view(), Seq::empty(), Seq::empty()),
        goes_by_path(&r, uri@),
{
}

/// To show an object is to ask for it.
pub proof fn law_cat(h: &Handler<'_>, src: &str, r: Result<ApiCall, &'static str>)
    requires
        call_ensures(Handler::cat, (h, src), r),
    ensures
        asks_about_object(h, src@, r, "GET"@, Seq::empty(), Seq::empty(), Seq::empty()),
{
}

/// To delete an object with features is to ask for that with those headers; version 2 asks by `GET`.
pub proof fn law_del_with_flag(
    h: &Handler<'_>,
    src: &str,
    headers: Vec<(&str, &str)>,
    r: Result<ApiCall, &'static str>,
)
    requires
        call_ensures(Handler::del_with_flag, (h, src, &headers), r),
    ensures
        h.auth_type == AuthType::AWS4 ==> asks_about_object(
            h,
            src@,
            r,
            "DELETE"@,
            Seq::empty(),
            headers.deep_view(),
            Seq::empty(),
        ),
        h.auth_type == AuthType::AWS2 ==> asks_about_object(
            h,
            src@,
            r,
            "GET"@,
            Seq::empty(),
            headers.deep_view(),
            Seq::empty(),
        ),
{
}

/// To delete an object is to delete it without features.
pub proof fn law_del(
    h: &Handler<'_>,
    src: &str,
    none: Vec<(&str, &str)>,
    r: Result<ApiCall, &'static str>,
    s: Result<ApiCall, &'static str>,
)
    requires
        none@.len() == 0,
        call_ensures(Handler::del, (h, src), r),
        call_ensures(Handler::del_with_flag, (h, src, &none), s),
    ensures
        match (r, s) {
            (Ok(call), Ok(other)) => call@ == other@ && call.headers@.len() == 0,
            (Err(e), Err(other)) => e@ == other@,
            _ => false,
        },
        h.auth_type == AuthType::AWS4 ==> asks_about_object(
            h,
            src@,
            r,
            "DELETE"@,
            Seq::empty(),
            Seq::empty(),
            Seq::empty(),
        ),
{
    assert(none.deep_view() =~= Seq::empty());
    if r is Ok {
        assert(r->Ok_0.headers.deep_view().len() == r->Ok_0.headers@.len());
    }
}

/// To list the tags of an object is to ask for them, and not for the object.
pub proof fn law_list_tag(h: &Handler<'_>, target: &str, r: Result<ApiCall, &'static str>)
    requires
        call_ensures(Handler::list_tag, (h, target), r),
    ensures
        asks_about_object(
            h,
            target@,
            r,
            "GET"@,
            seq![("tagging"@, ""@)],
            Seq::empty(),
            Seq::empty(),
        ),
{
}

/// To set the tags of an object is to send a document of them.
pub proof fn law_add_tag(
    h: &Handler<'_>,
    target: &str,
    tags: Vec<(&str, &str)>,
    r: Result<ApiCall, &'static str>,
)
    requires
        call_ensures(Handler::add_tag, (h, target, &tags), r),
    ensures
        asks_about_object(
            h,
            target@,
            r,
            "PUT"@,
            seq![("tagging"@, ""@)],
            Seq::empty(),
            vstd::utf8::encode_utf8(crate::command::tag_document(tags.deep_view())),
        ),
{
}

/// To remove the tags of an object is to delete them, and not the object.
pub proof fn law_del_tag(h: &Handler<'_>, target: &str, r: Result<ApiCall, &'static str>)
    requires
        call_ensures(Handler::del_tag, (h, target), r),
    ensures
        asks_about_object(
            h,
            target@,
            r,
            "DELETE"@,
            seq![("tagging"@, ""@)],
            Seq::empty(),
            Seq::empty(),
        ),
{
}

/// The document of tags opens and closes once, and each further tag stands behind those before it.
pub proof fn law_tag_document(tags: Pairs, key: Seq<char>, value: Seq<char>)
    ensures
        crate::command::tag_document(Seq::empty()) == "<Tagging><TagSet>"@
            + "</TagSet></Tagging>"@,
        exists|entries: Seq<char>| #[trigger]
            (entries + "</TagSet></Tagging>"@) == crate::command::tag_document(tags)
                && crate::command::tag_document(tags.push((key, value))) == entries
                + "<Tag><Key>"@ + key + "</Key><Value>"@ + value + "</Value></Tag>"@
                + "</TagSet></Tagging>"@,
{
    let entries = crate::command::tag_entries(tags);
    let more = tags.push((key, value));
    assert(more.drop_last() =~= tags);
    assert(more.last() == (key, value));
    assert(entries + "</TagSet></Tagging>"@ == crate::command::tag_document(tags));
}

/// Whether a download is of the object at a location, into a file of this name, or else refused.
pub open spec fn downloads(
    h: &Handler<'_>,
    src: Seq<char>,
    file: Seq<char>,
    r: Result<Download, &'static str>,
) -> bool {
    if src.len() == 0 {
        r matches Err(e) && e@ == "Please specify the object"@
    } else {
        match crate::location::s3_location(src) {
            None => r matches Err(e) && e@ == "S3 object format error."@,
            Some((bucket, object)) => if object.len() == 0 {
                r matches Err(e) && e@ == "Please specific the object"@
            } else {
                &&& r matches Ok(download)
                &&& carries(
                    h,
                    &download.call,
                    "GET"@,
                    Seq::empty(),
                    Seq::empty(),
                    Seq::empty(),
                )
                &&& goes_to(h, &download.call, bucket, object)
                &&& download.file@ == file
            },
        }
    }
}

/// To fetch an object into a file is to ask for it.
pub proof fn law_get_as(
    h: &Handler<'_>,
    src: &str,
    file: String,
    r: Result<Download, &'static str>,
)
    requires
        call_ensures(Handler::get_as, (h, src, file), r),
    ensures
        downloads(h, src@, file@, r),
{
}

/// The refusal of a command as its end.
pub open spec fn ended<T>(r: Result<T, End>) -> Option<Result<T, &'static str>> {
    match r {
        Ok(value) => Some(Ok(value)),
        Err(End::Return(Err(e))) => Some(Err(e)),
        _ => None,
    }
}

/// An object is fetched into the file that is given, or else into one with a name that the system
/// finds in its location; the command cannot go on where the system finds none.
pub proof fn law_get(h: &Handler<'_>, src: &str, file: Option<&str>, r: Result<Download, End>)
    requires
        call_ensures(Handler::get, (h, src, file), r),
    ensures
        match file {
            Some(name) => ended(r) is Some && downloads(h, src@, name@, ended(r)->0),
            None => {
                &&& crate::location::s3_location(src@) is None ==> ended(r) is Some && downloads(
                    h,
                    src@,
                    Seq::empty(),
                    ended(r)->0,
                )
                &&& crate::location::s3_location(src@) is Some ==> exists|
                    name: Option<Seq<char>>,
                | #[trigger]
                    crate::path::possible_name(src@, name) && match name {
                        Some(name) => ended(r) is Some && downloads(h, src@, name, ended(r)->0),
                        None => r matches Err(End::Fail(fault)) && fault == Fault::Name,
                    }
            },
        },
{
    if file is None && crate::location::s3_location(src@) is Some {
        let name = choose|name: Option<Seq<char>>| #[trigger]
            crate::path::possible_name(src@, name) && match name {
                Some(name) => h.got(r, src@, name),
                None => r == Err::<Download, End>(End::Fail(Fault::Name)),
            };
        assert(crate::path::possible_name(src@, name));
    }
}

/// A bucket is made and removed by its path, and only where it has a name.
pub proof fn law_mb_and_rb(
    h: &Handler<'_>,
    bucket: &str,
    made: Result<ApiCall, &'static str>,
    removed: Result<ApiCall, &'static str>,
)
    requires
        call_ensures(Handler::mb, (h, bucket), made),
        call_ensures(Handler::rb, (h, bucket), removed),
    ensures
        bucket@.len() == 0 ==> (made matches Err(e) && e@ == "please specific the bucket name"@),
        bucket@.len() == 0 ==> (removed matches Err(e) && e@ == "please specific the bucket name"@),
        bucket@.len() > 0 ==> (made matches Ok(call) && carries(
            h,
            &call,
            "PUT"@,
            Seq::empty(),
            Seq::empty(),
            Seq::empty(),
        ) && goes_by_path(&call, "/"@ + bucket@)),
        bucket@.len() > 0 ==> (removed matches Ok(call) && carries(
            h,
            &call,
            "DELETE"@,
            Seq::empty(),
            Seq::empty(),
            Seq::empty(),
        ) && goes_by_path(&call, "/"@ + bucket@)),
{
}

/// The usage of a bucket is asked for with all options, and the bucket behind them.
pub proof fn law_usage(
    h: &Handler<'_>,
    target: &str,
    options: Vec<(&str, &str)>,
    r: Result<ApiCall, &'static str>,
)
    requires
        call_ensures(Handler::usage, (h, target, &options), r),
    ensures
        match crate::location::s3_location(target@) {
            None => r matches Err(e) && e@ == "S3 format error."@,
            Some((bucket, object)) => {
                &&& r matches Ok(call)
                &&& carries(
                    h,
                    &call,
                    "GET"@,
                    options.deep_view() + seq![("bucket"@, bucket)],
                    Seq::empty(),
                    Seq::empty(),
                )
                &&& goes_by_path(&call, "/admin/bucket"@)
            },
        },
{
    if crate::location::s3_location(target@) is Some {
        let (bucket, object) = crate::location::s3_location(target@)->0;
        assert(options.deep_view().push(("bucket"@, bucket)) =~= options.deep_view() + seq![
            ("bucket"@, bucket),
        ]);
    }
}

/// An address is asked for by its path, with the parts of its query.
pub proof fn law_url_command(
    h: &Handler<'_>,
    url: &str,
    r: ApiCall,
    path: Seq<char>,
    query: Seq<char>,
)
    requires
        call_ensures(Handler::url_command, (h, url), r),
        crate::laws::free_of(path, '?'),
    ensures
        url@ == path + seq!['?'] + query ==> goes_by_path(&r, path) && carries(
            h,
            &r,
            "GET"@,
            crate::url::query_pairs(query),
            Seq::empty(),
            Seq::empty(),
        ),
        url@ == path ==> goes_by_path(&r, path) && carries(
            h,
            &r,
            "GET"@,
            Seq::empty(),
            Seq::empty(),
            Seq::empty(),
        ),
{
    crate::laws::lemma_cut_of(path, '?', query);
    crate::url::lemma_cut_none(path, '?');
}

/// A tour asks for all buckets first.
pub proof fn law_la(h: &Handler<'_>, r: ApiCall)
    requires
        call_ensures(Handler::la, (h,), r),
    ensures
        carries(h, &r, "GET"@, Seq::empty(), Seq::empty(), Seq::empty()),
        goes_by_path(&r, "/"@),
{
}

/// A list is of all buckets where none is named, of the bucket of a location, or of a bucket that is
/// named plainly; its reply is shown under the same path and part of the host.
pub proof fn law_ls(h: &Handler<'_>, bucket: Option<&str>, r: Listing)
    requires
        call_ensures(Handler::ls, (h, bucket), r),
    ensures
        carries(h, &r.call, "GET"@, Seq::empty(), Seq::empty(), Seq::empty()),
        match bucket {
            None => r.source is Buckets && goes_by_path(&r.call, "/"@),
            Some(name) => {
                &&& r.source matches Source::Objects { uri, virtual_host }
                &&& r.call.uri@ == uri@
                &&& h.auth_type == AuthType::AWS2 ==> r.call.virtual_host is None
                &&& h.auth_type == AuthType::AWS4 ==> r.call.virtual_host.deep_view()
                    == virtual_host.deep_view()
                &&& if "s3://"@.is_prefix_of(name@) || "S3://"@.is_prefix_of(name@) {
                    match (crate::location::s3_location(name@), h.url_style) {
                        (Some((bucket, object)), UrlStyle::PATH) => virtual_host is None && uri@
                            == "/"@ + bucket,
                        (Some((bucket, object)), UrlStyle::HOST) => virtual_host.deep_view()
                            == Some(bucket) && uri@ == "/"@,
                        (None, _) => true,
                    }
                } else {
                    virtual_host is None && uri@ == "/"@ + name@
                }
            },
        },
{
}

/// Whether a file goes to a place with these headers: under the name that the place gives, or under its
/// own where the place gives none.
pub open spec fn is_placed(
    upload: &Upload,
    file: Seq<char>,
    dest: Seq<char>,
    add_headers: Option<&Vec<(&str, &str)>>,
    name: Seq<char>,
) -> bool {
    &&& upload.file@ == file
    &&& crate::location::s3_location(dest) matches Some((bucket, object)) && if object.len() == 0
        || object == "/"@ {
        upload.uri@ == "/"@ + bucket + "/"@ + name
    } else {
        upload.uri@ == "/"@ + bucket + object
    }
    &&& match add_headers {
        Some(headers) => upload.headers.deep_view() == headers.deep_view(),
        None => upload.headers@.len() == 0,
    }
}

/// What a place of storage leaves open: the name of the object.
pub open spec fn gives_no_name(dest: Seq<char>) -> bool {
    crate::location::s3_location(dest) matches Some((bucket, object)) && (object.len() == 0
        || object == "/"@)
}

/// A file is stored where its place says, under its name where the place gives none. It is refused
/// where it or its place is not named, or where the place is no location.
pub proof fn law_put_named(
    h: &Handler<'_>,
    file: &str,
    dest: &str,
    add_headers: Option<&Vec<(&str, &str)>>,
    name: Option<String>,
    r: Result<Upload, &'static str>,
)
    requires
        file@.len() > 0 && gives_no_name(dest@) ==> name is Some,
        call_ensures(Handler::put_named, (h, file, dest, add_headers, name), r),
    ensures
        if file@.len() == 0 || dest@.len() == 0 {
            r matches Err(e) && e@ == "please specify the file and the destiney"@
        } else if crate::location::s3_location(dest@) is None {
            r matches Err(e) && e@ == "S3 object format error."@
        } else {
            r matches Ok(upload) && is_placed(
                &upload,
                file@,
                dest@,
                add_headers,
                name.deep_view()->0,
            )
        },
{
    if r is Ok {
        assert(r->Ok_0.headers.deep_view().len() == r->Ok_0.headers@.len());
    }
}

/// A file is stored under a name that the system finds in its path, where the place gives none; the
/// command cannot go on where the system finds none.
pub proof fn law_put(
    h: &Handler<'_>,
    file: &str,
    dest: &str,
    add_headers: Option<&Vec<(&str, &str)>>,
    r: Result<Upload, End>,
)
    requires
        call_ensures(Handler::put, (h, file, dest, add_headers), r),
    ensures
        if file@.len() == 0 || dest@.len() == 0 {
            r matches Err(End::Return(Err(e))) && e@ == "please specify the file and the destiney"@
        } else if crate::location::s3_location(dest@) is None {
            r matches Err(End::Return(Err(e))) && e@ == "S3 object format error."@
        } else if gives_no_name(dest@) {
            exists|name: Option<Seq<char>>| #[trigger]
                crate::path::possible_name(file@, name) && match name {
                    Some(name) => r matches Ok(upload) && is_placed(
                        &upload,
                        file@,
                        dest@,
                        add_headers,
                        name,
                    ),
                    None => r matches Err(End::Fail(fault)) && fault == Fault::Name,
                }
        } else {
            r matches Ok(upload) && is_placed(&upload, file@, dest@, add_headers, Seq::empty())
        },
{
    if r is Ok {
        assert(r->Ok_0.headers.deep_view().len() == r->Ok_0.headers@.len());
    }
    if file@.len() > 0 && dest@.len() > 0 && gives_no_name(dest@) {
        assert(crate::upload::open_name(dest@));
        let name = choose|name: Option<Seq<char>>| #[trigger]
            crate::path::possible_name(file@, name) && match name {
                Some(name) => r matches Ok(upload) && upload.stores(
                    file@,
                    crate::upload::put_uri(dest@, name),
                    crate::upload::added(add_headers),
                ),
                None => r == Err::<Upload, End>(End::Fail(Fault::Name)),
            };
        assert(crate::path::possible_name(file@, name));
    }
}

/// A file of more than five mebibytes is stored in parts, another one whole; one that does not exist
/// is not stored where its name is `test`.
pub proof fn law_plan(upload: &Upload, found: bool, size: u64, r: Plan)
    requires
        call_ensures(Upload::plan, (upload, found, size), r),
    ensures
        r == Plan::Nothing <==> !found && upload.file@ == "test"@,
        r == Plan::Parts <==> size > 5242880 && (found || upload.file@ != "test"@),
{
}

/// Whether a call stores something of a file: at its path, with no bucket before the host, and with its
/// features under version 2 alone.
pub open spec fn stores_at(
    h: &Handler<'_>,
    upload: &Upload,
    call: &ApiCall,
    method: Seq<char>,
    query: Pairs,
    payload: Seq<u8>,
) -> bool {
    &&& goes_by_path(call, upload.uri@)
    &&& carries(
        h,
        call,
        method,
        query,
        if h.auth_type == AuthType::AWS2 {
            upload.headers.deep_view()
        } else {
            Seq::empty()
        },
        payload,
    )
}

/// A file that is stored whole is sent as it is.
pub proof fn law_put_whole(
    h: &Handler<'_>,
    upload: &Upload,
    content: Option<Vec<u8>>,
    r: Result<ApiCall, &'static str>,
)
    requires
        call_ensures(Handler::put_whole, (h, upload, content), r),
    ensures
        match content {
            None => r matches Err(e) && e@ == "input file open error"@,
            Some(content) => r matches Ok(call) && stores_at(
                h,
                upload,
                &call,
                "PUT"@,
                Seq::empty(),
                content@,
            ),
        },
{
}

/// An upload in parts is asked for before any of them is sent.
pub proof fn law_put_parts(h: &Handler<'_>, upload: &Upload, r: ApiCall)
    requires
        call_ensures(Handler::put_parts, (h, upload), r),
    ensures
        stores_at(h, upload, &r, "POST"@, seq![("uploads"@, ""@)], Seq::empty()),
{
}

/// An upload in parts goes by the last name that an XML reply gives to it, by none under JSON, and
/// starts with no part stored.
pub proof fn law_put_started(
    h: &Handler<'_>,
    upload: Upload,
    size: u64,
    reply: Option<Reply>,
    r: Result<Multipart, End>,
)
    requires
        call_ensures(Handler::put_started, (h, upload, size, reply), r),
    ensures
        match reply {
            None => r matches Err(End::Return(Err(e))) && e@ == "Reqwest Error"@,
            Some(reply) => {
                let (ids, whole) = match h.format {
                    Format::JSON => (Seq::empty(), true),
                    Format::XML => crate::xml::tag_texts(
                        crate::text::body_text(reply.body@),
                        "UploadId"@,
                    ),
                };
                if !whole {
                    r matches Err(End::Fail(fault)) && fault == Fault::Xml
                } else {
                    &&& r matches Ok(parts)
                    &&& parts.upload == upload
                    &&& parts.size == size
                    &&& parts.tags@.len() == 0
                    &&& ids.len() == 0 ==> parts.id@.len() == 0
                    &&& ids.len() > 0 ==> parts.id@ == ids[ids.len() - 1]
                }
            },
        },
{
}

/// The call that stores a part carries the bytes of that part, all of them and nothing else, by either
/// version of the signature; it names the upload, and the part by the number of those before it and
/// one.
pub proof fn law_put_part(h: &Handler<'_>, parts: &Multipart, content: Vec<u8>, r: ApiCall)
    requires
        call_ensures(Handler::put_part, (h, parts, content), r),
    ensures
        r.payload@ == content@,
        r.query@.len() == 2,
        r.query@[0].0@ == "uploadId"@,
        r.query@[0].1@ == parts.id@,
        r.query@[1].0@ == "partNumber"@,
        crate::laws::texts::number_of(r.query@[1].1@) == parts.tags@.len() + 1,
        r.query@[1].1@[0] != '0',
        stores_at(h, &parts.upload, &r, "PUT"@, r.query.deep_view(), content@),
{
    let query = r.query.deep_view();
    assert(query.len() == r.query@.len());
    assert(query[0] == (r.query@[0].0@, r.query@[0].1@));
    assert(query[1] == (r.query@[1].0@, r.query@[1].1@));
    crate::laws::texts::law_decimal_reads_back(parts.tags@.len() + 1);
}

/// A part that has been stored is taken down by its tag. Once the parts reach the end of the file, the
/// call that puts them together carries the document of all tags, and nothing else; before that, the
/// next part is to come.
pub proof fn law_put_part_reply(
    h: &Handler<'_>,
    parts: Multipart,
    reply: Option<Reply>,
    r: PartTurn,
)
    requires
        parts.tags@.len() * 5242880 < parts.size,
        call_ensures(Handler::put_part_reply, (h, parts, reply), r),
    ensures
        match reply {
            None => r matches PartTurn::Over(End::Return(Err(e))) && e@ == "Reqwest Error"@,
            Some(reply) => match reply.header("etag"@) {
                Some(Some(tag)) => {
                    let tags = parts.tags.deep_view().push(tag);
                    if tags.len() * 5242880 >= parts.size {
                        &&& r matches PartTurn::Complete(call)
                        &&& call.payload@ == vstd::utf8::encode_utf8(
                            crate::upload::part_document(tags),
                        )
                        &&& stores_at(
                            h,
                            &parts.upload,
                            &call,
                            "POST"@,
                            seq![("uploadId"@, parts.id@)],
                            vstd::utf8::encode_utf8(crate::upload::part_document(tags)),
                        )
                    } else {
                        &&& r matches PartTurn::More(next)
                        &&& next.upload == parts.upload
                        &&& next.id == parts.id
                        &&& next.size == parts.size
                        &&& next.tags.deep_view() == tags
                    }
                },
                _ => r matches PartTurn::Over(End::Fail(fault)) && fault == Fault::Tag,
            },
        },
{
    assert(parts.tags.deep_view().len() == parts.tags@.len());
}

/// An upload in parts has parts left to store where those that are stored do not reach the end of the
/// file, and none where they do.
pub proof fn law_parts_are_left(parts: &Multipart)
    ensures
        parts.well_formed() && !parts.complete() <==> 5242880 < parts.size <= u64::MAX - 5242880
            && parts.tags@.len() * 5242880 < parts.size,
        parts.well_formed() && parts.complete() ==> parts.tags@.len() * 5242880 >= parts.size,
{
}

/// The document of parts opens and closes once, and each further part stands behind those before it,
/// with its number and its tag.
pub proof fn law_part_document(tags: Seq<Seq<char>>, tag: Seq<char>)
    ensures
        crate::upload::part_document(Seq::empty()) == "<CompleteMultipartUpload>"@
            + "</CompleteMultipartUpload>"@,
        exists|entries: Seq<char>| #[trigger]
            (entries + "</CompleteMultipartUpload>"@) == crate::upload::part_document(tags)
                && crate::upload::part_document(tags.push(tag)) == entries
                + "<Part><PartNumber>"@ + crate::text::decimal(tags.len() + 1)
                + "</PartNumber><ETag>"@ + tag + "</ETag></Part>"@
                + "</CompleteMultipartUpload>"@,
{
    let entries = crate::upload::part_entries(tags);
    let more = tags.push(tag);
    assert(more.drop_last() =~= tags);
    assert(more.last() == tag);
    assert(entries + "</CompleteMultipartUpload>"@ == crate::upload::part_document(tags));
}

/// The next part starts where those before it end, and is as long as they are.
pub proof fn law_next_range(parts: &Multipart, r: (u64, u64))
    requires
        call_ensures(Multipart::next_range, (parts,), r),
    ensures
        r.0 == parts.tags@.len() * 5242880,
        r.1 == 5242880,
{
}

/// A part is what was read of it, and zeros up to its size.
pub proof fn law_fill_part(read: Vec<u8>, r: Vec<u8>)
    requires
        call_ensures(crate::upload::fill_part, (read,), r),
    ensures
        r@.len() == 5242880,
        forall|i: int|
            0 <= i < 5242880 ==> #[trigger] r@[i] == if i < read@.len() {
                read@[i]
            } else {
                0
            },
{
}

/// A file that could not be opened ends the command, and one that could not be written too.
pub proof fn law_files(
    done: bool,
    opened: Result<(), &'static str>,
    written: Result<(), &'static str>,
)
    requires
        call_ensures(crate::upload::opened, (done,), opened),
        call_ensures(Download::written, (done,), written),
    ensures
        done ==> opened is Ok && written is Ok,
        !done ==> (opened matches Err(e) && e@ == "input file open error"@),
        !done ==> (written matches Err(e) && e@ == "write file error"@),
{
}

/// Names with their values are copied as they are.
pub proof fn law_pairs_are_kept(
    given: Vec<(&str, &str)>,
    own: Vec<(String, String)>,
    held: Vec<(String, String)>,
    copy: Vec<(String, String)>,
    name: &str,
    value: &str,
    one: Vec<(String, String)>,
    none: Vec<(String, String)>,
)
    requires
        call_ensures(crate::command::own_pairs, (&given,), own),
        call_ensures(crate::request::copy_pairs, (&held,), copy),
        call_ensures(crate::command::one_pair, (name, value), one),
        call_ensures(crate::command::no_pairs, (), none),
    ensures
        own@.len() == given@.len(),
        forall|i: int|
            0 <= i < given@.len() ==> (#[trigger] own@[i]).0@ == given@[i].0@ && own@[i].1@
                == given@[i].1@,
        copy@.len() == held@.len(),
        forall|i: int|
            0 <= i < held@.len() ==> (#[trigger] copy@[i]).0@ == held@[i].0@ && copy@[i].1@
                == held@[i].1@,
        one@.len() == 1,
        one@[0].0@ == name@,
        one@[0].1@ == value@,
        none@.len() == 0,
{
    assert(own.deep_view().len() == own@.len());
    assert(given.deep_view().len() == given@.len());
    assert(copy.deep_view().len() == copy@.len());
    assert(held.deep_view().len() == held@.len());
    assert(one.deep_view().len() == one@.len());
    assert(none.deep_view().len() == none@.len());
    assert forall|i: int| 0 <= i < given@.len() implies (#[trigger] own@[i]).0@ == given@[i].0@
        && own@[i].1@ == given@[i].1@ by {
        assert(own.deep_view()[i] == (own@[i].0@, own@[i].1@));
        assert(given.deep_view()[i] == (given@[i].0@, given@[i].1@));
    }
    assert forall|i: int| 0 <= i < held@.len() implies (#[trigger] copy@[i]).0@ == held@[i].0@
        && copy@[i].1@ == held@[i].1@ by {
        assert(copy.deep_view()[i] == (copy@[i].0@, copy@[i].1@));
        assert(held.deep_view()[i] == (held@[i].0@, held@[i].1@));
    }
    assert(one.deep_view()[0] == (one@[0].0@, one@[0].1@));
}

/// A handler speaks for the account that is configured, in the ways of its kind of service: version 4
/// always, JSON for `ceph` alone, and the style of hosts for `aws` alone.
pub proof fn law_configured_handler<'a>(credential: &'a CredentialConfig, r: Handler<'a>)
    requires
        call_ensures(Handler::init_from_config, (credential,), r),
    ensures
        r.host@ == credential.host@,
        r.access_key@ == credential.access_key@,
        r.secret_key@ == credential.secret_key@,
        r.region.deep_view() == credential.region.deep_view(),
        r.auth_type == AuthType::AWS4,
        r.format == Format::JSON <==> credential.s3_type.deep_view() == Some("ceph"@),
        r.url_style == UrlStyle::HOST <==> credential.s3_type.deep_view() == Some("aws"@),
{
    reveal_strlit("aws");
    reveal_strlit("ceph");
    assert("aws"@.len() != "ceph"@.len());
}

/// A command that ends with a kind of service takes up its ways; one that ends with none changes
/// nothing. The account stays.
pub proof fn law_change_s3_type(h: &mut Handler<'_>, command: &str, shown: Vec<String>)
    requires
        call_ensures(Handler::change_s3_type, (h, command), shown),
    ensures
        final(h).host == old(h).host,
        final(h).access_key == old(h).access_key,
        final(h).secret_key == old(h).secret_key,
        final(h).region == old(h).region,
        shown@.len() == 2,
        shown@[0]@ == "set up s3 type as "@ + command@,
        if "aws"@.is_suffix_of(command@) {
            &&& final(h).auth_type == AuthType::AWS4
            &&& final(h).format == Format::XML
            &&& final(h).url_style == UrlStyle::HOST
            &&& shown@[1]@ == "using aws verion 4 signature, xml format, and host style url"@
        } else if "ceph"@.is_suffix_of(command@) {
            &&& final(h).auth_type == AuthType::AWS4
            &&& final(h).format == Format::JSON
            &&& final(h).url_style == UrlStyle::PATH
            &&& shown@[1]@ == "using aws verion 4 signature, json format, and path style url"@
        } else {
            &&& final(h).auth_type == old(h).auth_type
            &&& final(h).format == old(h).format
            &&& final(h).url_style == old(h).url_style
            &&& shown@[1]@ == "usage: s3_type [aws/ceph]"@
        },
{
    let texts = shown.deep_view();
    assert(texts.len() == shown@.len());
    assert(texts[0] == shown@[0]@);
    assert(texts[1] == shown@[1]@);
}

/// A command that ends with a signature takes it up; everything else stays.
pub proof fn law_change_auth_type(h: &mut Handler<'_>, command: &str, shown: String)
    requires
        call_ensures(Handler::change_auth_type, (h, command), shown),
    ensures
        final(h).host == old(h).host,
        final(h).access_key == old(h).access_key,
        final(h).secret_key == old(h).secret_key,
        final(h).region == old(h).region,
        final(h).format == old(h).format,
        final(h).url_style == old(h).url_style,
        if "aws2"@.is_suffix_of(command@) {
            final(h).auth_type == AuthType::AWS2 && shown@ == "using aws version 2 signature"@
        } else if "aws4"@.is_suffix_of(command@) || "aws"@.is_suffix_of(command@) {
            final(h).auth_type == AuthType::AWS4 && shown@ == "using aws verion 4 signature"@
        } else {
            final(h).auth_type == old(h).auth_type && shown@ == "usage: auth_type [aws4/aws2]"@
        },
{
}

/// A command that ends with a format takes it up; everything else stays.
pub proof fn law_change_format_type(h: &mut Handler<'_>, command: &str, shown: String)
    requires
        call_ensures(Handler::change_format_type, (h, command), shown),
    ensures
        final(h).host == old(h).host,
        final(h).access_key == old(h).access_key,
        final(h).secret_key == old(h).secret_key,
        final(h).region == old(h).region,
        final(h).auth_type == old(h).auth_type,
        final(h).url_style == old(h).url_style,
        if "xml"@.is_suffix_of(command@) {
            final(h).format == Format::XML && shown@ == "using xml format"@
        } else if "json"@.is_suffix_of(command@) {
            final(h).format == Format::JSON && shown@ == "using json format"@
        } else {
            final(h).format == old(h).format && shown@ == "usage: format_type [xml/json]"@
        },
{
}

/// A command that ends with a style takes it up; everything else stays.
pub proof fn law_change_url_style(h: &mut Handler<'_>, command: &str, shown: String)
    requires
        call_ensures(Handler::change_url_style, (h, command), shown),
    ensures
        final(h).host == old(h).host,
        final(h).access_key == old(h).access_key,
        final(h).secret_key == old(h).secret_key,
        final(h).region == old(h).region,
        final(h).auth_type == old(h).auth_type,
        final(h).format == old(h).format,
        if "path"@.is_suffix_of(command@) {
            final(h).url_style == UrlStyle::PATH && shown@ == "using path style url"@
        } else if "host"@.is_suffix_of(command@) {
            final(h).url_style == UrlStyle::HOST && shown@ == "using host style url"@
        } else {
            final(h).url_style == old(h).url_style && shown@ == "usage: url_style [path/host]"@
        },
{
}

} // verus!
