use s3handler::command::{no_pairs, one_pair, own_pairs, show_body, Download, End, Outcome};
use s3handler::request::{ApiCall, Fault, Reply};
use s3handler::{AuthType, Format, Handler, UrlStyle};

fn handler(auth_type: AuthType, format: Format, url_style: UrlStyle) -> Handler<'static> {
    Handler {
        host: "s3.example.com",
        access_key: "ACCESS",
        secret_key: "SECRET",
        auth_type,
        format,
        url_style,
        region: None,
    }
}

fn path_style() -> Handler<'static> {
    handler(AuthType::AWS4, Format::XML, UrlStyle::PATH)
}

fn host_style() -> Handler<'static> {
    handler(AuthType::AWS4, Format::XML, UrlStyle::HOST)
}

fn version_2() -> Handler<'static> {
    handler(AuthType::AWS2, Format::XML, UrlStyle::HOST)
}

fn pairs(given: &[(&str, &str)]) -> Vec<(String, String)> {
    given.iter().map(|(a, b)| (a.to_string(), b.to_string())).collect()
}

fn asks(call: &ApiCall, method: &str, virtual_host: Option<&str>, uri: &str) {
    assert_eq!(call.method, method);
    assert_eq!(call.virtual_host.as_deref(), virtual_host);
    assert_eq!(call.uri, uri);
}

fn reply(body: &[u8]) -> Option<Reply> {
    Some(Reply { status: 200, headers: vec![], body: body.to_vec() })
}

fn ends(outcome: &Outcome) -> Result<(), String> {
    match outcome.end {
        End::Return(r) => r.map_err(|e| e.to_string()),
        End::Fail(fault) => Err(format!("{:?}", fault)),
    }
}

#[test]
fn an_object_is_asked_for_in_the_style_of_the_service() {
    let call = path_style().cat("s3://b/dir/k").unwrap();
    asks(&call, "GET", None, "/b/dir/k");
    assert_eq!(call.auth, AuthType::AWS4);
    assert!(call.query.is_empty() && call.headers.is_empty() && call.payload.is_empty());
    asks(&host_style().cat("S3://b/dir/k").unwrap(), "GET", Some("b"), "/dir/k");
    let call = version_2().cat("s3://b/dir/k").unwrap();
    asks(&call, "GET", None, "/b/dir/k");
    assert_eq!(call.auth, AuthType::AWS2);
}

#[test]
fn styles_lead_to_the_same_object() {
    let by_path = path_style().cat("s3://b/k").unwrap();
    let by_host = host_style().cat("s3://b/k").unwrap();
    let bucket = by_host.virtual_host.unwrap();
    assert_eq!(by_path.uri, format!("/{}{}", bucket, by_host.uri));
    let one = handler(AuthType::AWS2, Format::XML, UrlStyle::PATH).cat("s3://b/k").unwrap();
    let other = version_2().cat("s3://b/k").unwrap();
    assert_eq!((one.virtual_host, one.uri), (other.virtual_host, other.uri));
}

#[test]
fn an_object_has_to_be_named() {
    let missing = Some("please specific the object");
    let open = Some("Please specific the object");
    let wrong = Some("S3 object format error.");
    let h = path_style();
    for (name, error) in [("", missing), ("b/k", wrong), ("s3://b", open)] {
        assert_eq!(h.cat(name).err(), error);
        assert_eq!(h.del(name).err(), error);
        assert_eq!(h.del_with_flag(name, &vec![("delete-marker", "x")]).err(), error);
        assert_eq!(h.list_tag(name).err(), error);
        assert_eq!(h.add_tag(name, &vec![]).err(), error);
        assert_eq!(h.del_tag(name).err(), error);
    }
    assert!(h.cat("s3://b/").is_ok());
}

#[test]
fn a_body_is_shown_as_text() {
    let outcome = show_body(reply(b"hello"));
    assert_eq!(outcome.shown, vec!["hello"]);
    assert_eq!(ends(&outcome), Ok(()));
    let outcome = show_body(reply(&[104, 255]));
    assert_eq!(outcome.shown, vec![""]);
    assert_eq!(ends(&outcome), Ok(()));
    let outcome = show_body(None);
    assert!(outcome.shown.is_empty());
    assert_eq!(ends(&outcome), Err("Reqwest Error".to_string()));
}

#[test]
fn a_download_has_its_file() {
    let download = path_style().get("s3://b/dir/k.txt", None).ok().unwrap();
    asks(&download.call, "GET", None, "/b/dir/k.txt");
    assert_eq!(download.file, "k.txt");
    let download = host_style().get("s3://b/dir/k.txt", Some("here")).ok().unwrap();
    asks(&download.call, "GET", Some("b"), "/dir/k.txt");
    assert_eq!(download.file, "here");
}

#[test]
fn a_download_has_to_be_named() {
    let h = path_style();
    for (src, error) in [
        ("", "Please specify the object"),
        ("b/k", "S3 object format error."),
        ("..", "S3 object format error."),
        ("s3://b", "Please specific the object"),
    ] {
        for file in [None, Some("f")] {
            match h.get(src, file) {
                Err(End::Return(Err(e))) => assert_eq!(e, error),
                _ => panic!("not refused"),
            }
        }
        assert_eq!(h.get_as(src, "f".to_string()).err(), Some(error));
    }
}

#[test]
fn a_download_without_a_name_cannot_go_on() {
    let h = path_style();
    for src in ["s3://b/..", "s3://.."] {
        assert!(matches!(h.get(src, None), Err(End::Fail(Fault::Name))));
    }
    assert_eq!(h.get("s3://b/..", Some("f")).ok().unwrap().file, "f");
    assert!(matches!(h.get("s3://..", Some("f")), Err(End::Return(Err(_)))));
    assert_eq!(h.get("s3://b/dir/.", None).ok().unwrap().file, "dir");
    let download = h.get_as("s3://b/k", "f".to_string()).unwrap();
    asks(&download.call, "GET", None, "/b/k");
    assert_eq!(download.file, "f");
}

#[test]
fn a_download_is_written() {
    let download = path_style().get("s3://b/k", None).ok().unwrap();
    assert_eq!(download.received(reply(&[1, 255])), Ok(("k".to_string(), vec![1, 255])));
    let download = path_style().get("s3://b/k", None).ok().unwrap();
    assert_eq!(download.received(None), Err("Reqwest Error"));
    assert_eq!(Download::written(true), Ok(()));
    assert_eq!(Download::written(false), Err("write file error"));
}

#[test]
fn an_object_is_deleted() {
    let call = path_style().del("s3://b/k").unwrap();
    asks(&call, "DELETE", None, "/b/k");
    assert!(call.headers.is_empty());
    let call = host_style().del_with_flag("s3://b/k", &vec![("delete-marker", "x")]).unwrap();
    asks(&call, "DELETE", Some("b"), "/k");
    assert_eq!(call.headers, pairs(&[("delete-marker", "x")]));
    asks(&version_2().del("s3://b/k").unwrap(), "GET", None, "/b/k");
}

#[test]
fn a_bucket_is_made_and_removed() {
    let h = host_style();
    asks(&h.mb("new").unwrap(), "PUT", None, "/new");
    asks(&h.rb("old").unwrap(), "DELETE", None, "/old");
    assert_eq!(h.mb("").err(), Some("please specific the bucket name"));
    assert_eq!(h.rb("").err(), Some("please specific the bucket name"));
}

#[test]
fn tags_are_asked_for() {
    let tagging = pairs(&[("tagging", "")]);
    let call = host_style().list_tag("s3://b/k").unwrap();
    asks(&call, "GET", Some("b"), "/k");
    assert_eq!(call.query, tagging);
    let call = version_2().del_tag("s3://b/k").unwrap();
    asks(&call, "DELETE", None, "/b/k");
    assert_eq!(call.query, tagging);
}

#[test]
fn tags_are_written_down() {
    let call = path_style().add_tag("s3://b/k", &vec![("a", "1"), ("\u{e9}", "")]).unwrap();
    asks(&call, "PUT", None, "/b/k");
    assert_eq!(call.query, pairs(&[("tagging", "")]));
    assert_eq!(
        String::from_utf8(call.payload).unwrap(),
        "<Tagging><TagSet><Tag><Key>a</Key><Value>1</Value></Tag>\
         <Tag><Key>\u{e9}</Key><Value></Value></Tag></TagSet></Tagging>"
    );
    let none = version_2().add_tag("s3://b/k", &vec![]).unwrap();
    assert_eq!(none.payload, b"<Tagging><TagSet></TagSet></Tagging>".to_vec());
}

#[test]
fn usage_is_asked_for() {
    let call = host_style().usage("s3://b/ignored", &vec![("stats", "true")]).unwrap();
    asks(&call, "GET", None, "/admin/bucket");
    assert_eq!(call.query, pairs(&[("stats", "true"), ("bucket", "b")]));
    assert_eq!(host_style().usage("b", &vec![]).err(), Some("S3 format error."));
    assert_eq!(host_style().usage("", &vec![]).err(), Some("S3 format error."));
}

#[test]
fn usage_is_shown() {
    let h = handler(AuthType::AWS4, Format::JSON, UrlStyle::PATH);
    let outcome = h.usage_reply(reply(br#"{"usage":{"size":3}}"#));
    assert_eq!(outcome.shown, vec!["{\n  \"size\": 3\n}"]);
    assert_eq!(ends(&outcome), Ok(()));
    let outcome = h.usage_reply(reply(b"<x/>"));
    assert!(outcome.shown.is_empty());
    assert!(matches!(outcome.end, End::Fail(Fault::Json)));
    let outcome = h.usage_reply(None);
    assert_eq!(ends(&outcome), Err("Reqwest Error".to_string()));
    let outcome = path_style().usage_reply(reply(b"anything"));
    assert!(outcome.shown.is_empty());
    assert_eq!(ends(&outcome), Ok(()));
}

#[test]
fn an_address_is_asked_for() {
    let call = host_style().url_command("/b/k?acl&max=2");
    asks(&call, "GET", None, "/b/k");
    assert_eq!(call.query, pairs(&[("acl", ""), ("max", "2")]));
    asks(&version_2().url_command("/"), "GET", None, "/");
}

#[test]
fn pairs_are_made() {
    assert_eq!(own_pairs(&vec![("a", "1"), ("b", "2")]), pairs(&[("a", "1"), ("b", "2")]));
    assert_eq!(one_pair("a", "1"), pairs(&[("a", "1")]));
    assert!(no_pairs().is_empty());
}
