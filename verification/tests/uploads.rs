use s3handler::command::End;
use s3handler::request::{ApiCall, Fault, Reply};
use s3handler::upload::{fill_part, opened, Multipart, PartTurn, Plan, Upload, PART_SIZE};
use s3handler::{AuthType, Format, Handler, UrlStyle};

fn handler(auth_type: AuthType, format: Format) -> Handler<'static> {
    Handler {
        host: "s3.example.com",
        access_key: "ACCESS",
        secret_key: "SECRET",
        auth_type,
        format,
        url_style: UrlStyle::HOST,
        region: None,
    }
}

fn version_4() -> Handler<'static> {
    handler(AuthType::AWS4, Format::XML)
}

fn version_2() -> Handler<'static> {
    handler(AuthType::AWS2, Format::XML)
}

fn pairs(given: &[(&str, &str)]) -> Vec<(String, String)> {
    given.iter().map(|(a, b)| (a.to_string(), b.to_string())).collect()
}

fn upload(handler: &Handler) -> Upload {
    handler.put("dir/f.bin", "s3://b/k", Some(&vec![("secure-delete", "x")])).ok().unwrap()
}

fn named(id: &str) -> Option<Reply> {
    let body = format!("<R><UploadId>{}</UploadId></R>", id).into_bytes();
    Some(Reply { status: 200, headers: vec![], body })
}

fn tagged(tag: Option<&str>) -> Option<Reply> {
    let headers = vec![("etag".to_string(), tag.map(|t| t.to_string()))];
    Some(Reply { status: 200, headers, body: vec![] })
}

fn started(handler: &Handler, size: u64) -> Multipart {
    match handler.put_started(upload(handler), size, named("ID")) {
        Ok(parts) => parts,
        Err(_) => panic!("not started"),
    }
}

fn asks(call: &ApiCall, method: &str, query: &[(&str, &str)]) {
    assert_eq!(call.method, method);
    assert_eq!(call.virtual_host, None);
    assert_eq!(call.uri, "/b/k");
    assert_eq!(call.query, pairs(query));
}

/// The number of parts that are stored of a file.
fn parts_of(size: u64) -> usize {
    let handler = version_4();
    let mut parts = started(&handler, size);
    let mut count = 0;
    loop {
        count += 1;
        assert_eq!(parts.next_range(), ((count as u64 - 1) * PART_SIZE, PART_SIZE));
        let call = handler.put_part(&parts, vec![]);
        assert_eq!(call.query[1], ("partNumber".to_string(), count.to_string()));
        match handler.put_part_reply(parts, tagged(Some("t"))) {
            PartTurn::More(next) => parts = next,
            PartTurn::Complete(_) => return count,
            PartTurn::Over(_) => panic!("over"),
        }
    }
}

#[test]
fn a_file_takes_the_name_that_it_is_given() {
    let upload = version_4().put("dir/f.bin", "s3://b/new/k", None).ok().unwrap();
    assert_eq!(upload.file, "dir/f.bin");
    assert_eq!(upload.uri, "/b/new/k");
    assert!(upload.headers.is_empty());
}

#[test]
fn a_file_keeps_its_name_where_none_is_given() {
    for dest in ["s3://b", "s3://b/"] {
        let upload = version_4().put("dir/f.bin", dest, None).ok().unwrap();
        assert_eq!(upload.uri, "/b/f.bin");
    }
    let upload = version_4().put("f.bin", "s3://b//", None).ok().unwrap();
    assert_eq!(upload.uri, "/b//");
}

#[test]
fn a_stored_file_is_found_by_its_name() {
    let mut handler = version_4();
    handler.url_style = UrlStyle::PATH;
    let stored = handler.put("dir/f.bin", "s3://b", None).ok().unwrap();
    assert_eq!(stored.uri, handler.cat("s3://b/f.bin").ok().unwrap().uri);
    let stored = handler.put("dir/f.bin", "s3://b/x/y", None).ok().unwrap();
    assert_eq!(stored.uri, handler.cat("s3://b/x/y").ok().unwrap().uri);
}

#[test]
fn a_file_and_a_place_have_to_be_named() {
    let missing = "please specify the file and the destiney";
    for (file, dest, error) in [
        ("", "s3://b/k", missing),
        ("", "s3://b", missing),
        ("f", "", missing),
        ("..", "", missing),
        ("f", "b/k", "S3 object format error."),
        ("..", "b/k", "S3 object format error."),
    ] {
        match version_4().put(file, dest, None) {
            Err(End::Return(Err(e))) => assert_eq!(e, error),
            _ => panic!("not refused"),
        }
        assert_eq!(version_4().put_named(file, dest, None, None).err(), Some(error));
    }
}

#[test]
fn a_file_without_a_name_cannot_go_on() {
    for dest in ["s3://b", "s3://b/"] {
        assert!(matches!(version_4().put("dir/..", dest, None), Err(End::Fail(Fault::Name))));
    }
    assert_eq!(version_4().put("dir/..", "s3://b/k", None).ok().unwrap().uri, "/b/k");
}

#[test]
fn a_file_takes_the_name_that_the_system_finds() {
    let h = version_4();
    let name = || Some("f.bin".to_string());
    let upload = h.put_named("c:\\dir\\f.bin", "s3://b/", None, name()).unwrap();
    assert_eq!((upload.file.as_str(), upload.uri.as_str()), ("c:\\dir\\f.bin", "/b/f.bin"));
    let upload = h.put_named("f.bin", "s3://b/k", Some(&vec![("a", "1")]), name()).unwrap();
    assert_eq!(upload.uri, "/b/k");
    assert_eq!(upload.headers, pairs(&[("a", "1")]));
}

#[test]
fn a_plan_depends_on_the_size() {
    let large = upload(&version_4());
    assert_eq!(large.plan(true, 0), Plan::Whole);
    assert_eq!(large.plan(true, 5242880), Plan::Whole);
    assert_eq!(large.plan(true, 5242881), Plan::Parts);
    assert_eq!(large.plan(false, 0), Plan::Whole);
    let test = version_4().put("test", "s3://b/k", None).ok().unwrap();
    assert_eq!(test.plan(false, 0), Plan::Nothing);
    assert_eq!(test.plan(true, 0), Plan::Whole);
    assert_eq!(test.plan(true, 5242881), Plan::Parts);
}

#[test]
fn a_small_file_is_stored_whole() {
    let handler = version_4();
    let call = handler.put_whole(&upload(&handler), Some(vec![7, 8])).ok().unwrap();
    asks(&call, "PUT", &[]);
    assert_eq!(call.payload, vec![7, 8]);
    assert!(call.headers.is_empty());
    let handler = version_2();
    let call = handler.put_whole(&upload(&handler), Some(vec![])).ok().unwrap();
    assert_eq!(call.auth, AuthType::AWS2);
    assert_eq!(call.headers, pairs(&[("secure-delete", "x")]));
    assert_eq!(handler.put_whole(&upload(&handler), None).err(), Some("input file open error"));
}

#[test]
fn an_upload_in_parts_is_asked_for() {
    let handler = version_4();
    let call = handler.put_parts(&upload(&handler));
    asks(&call, "POST", &[("uploads", "")]);
    assert!(call.headers.is_empty() && call.payload.is_empty());
    let handler = version_2();
    let call = handler.put_parts(&upload(&handler));
    assert_eq!(call.headers, pairs(&[("secure-delete", "x")]));
}

#[test]
fn an_upload_in_parts_is_named() {
    let parts = started(&version_4(), 6000000);
    assert_eq!(parts.id, "ID");
    assert_eq!(parts.size, 6000000);
    assert!(parts.tags.is_empty());
    let json = handler(AuthType::AWS4, Format::JSON);
    assert_eq!(started(&json, 6000000).id, "");
}

#[test]
fn an_upload_in_parts_may_not_start() {
    let handler = version_4();
    match handler.put_started(upload(&handler), 6000000, None) {
        Err(End::Return(Err(e))) => assert_eq!(e, "Reqwest Error"),
        _ => panic!("started"),
    }
    let broken = Some(Reply { status: 200, headers: vec![], body: b"<a></b>".to_vec() });
    match handler.put_started(upload(&handler), 6000000, broken) {
        Err(End::Fail(fault)) => assert_eq!(fault, Fault::Xml),
        _ => panic!("started"),
    }
    assert_eq!(opened(true), Ok(()));
    assert_eq!(opened(false), Err("input file open error"));
}

#[test]
fn parts_are_stored_and_put_together() {
    let handler = version_2();
    let parts = started(&handler, 6000000);
    let call = handler.put_part(&parts, vec![1]);
    asks(&call, "PUT", &[("uploadId", "ID"), ("partNumber", "1")]);
    assert_eq!(call.payload, vec![1]);
    assert_eq!(call.headers, pairs(&[("secure-delete", "x")]));
    let parts = match handler.put_part_reply(parts, tagged(Some("\"t1\""))) {
        PartTurn::More(next) => next,
        _ => panic!("no more parts"),
    };
    let call = handler.put_part(&parts, vec![2]);
    asks(&call, "PUT", &[("uploadId", "ID"), ("partNumber", "2")]);
    let call = match handler.put_part_reply(parts, tagged(Some("\"t2\""))) {
        PartTurn::Complete(call) => call,
        _ => panic!("not complete"),
    };
    asks(&call, "POST", &[("uploadId", "ID")]);
    assert_eq!(
        String::from_utf8(call.payload).unwrap(),
        "<CompleteMultipartUpload>\
         <Part><PartNumber>1</PartNumber><ETag>\"t1\"</ETag></Part>\
         <Part><PartNumber>2</PartNumber><ETag>\"t2\"</ETag></Part>\
         </CompleteMultipartUpload>"
    );
}

#[test]
fn parts_cover_the_file() {
    for (size, count) in [
        (PART_SIZE + 1, 2),
        (2 * PART_SIZE, 2),
        (2 * PART_SIZE + 1, 3),
        (10 * PART_SIZE - 1, 10),
        (12 * PART_SIZE, 12),
    ] {
        assert_eq!(parts_of(size), count);
    }
}

#[test]
fn a_part_is_filled_with_zeros() {
    let part = fill_part(vec![1, 2, 3]);
    assert_eq!(part.len(), 5242880);
    assert_eq!(part[..4], [1, 2, 3, 0]);
    assert!(part[3..].iter().all(|b| *b == 0));
    assert!(fill_part(vec![]).iter().all(|b| *b == 0));
    assert_eq!(fill_part(vec![7; 5242880]), vec![7; 5242880]);
}

#[test]
fn parts_carry_the_file() {
    let file: Vec<u8> = (0..5242880u32 + 1000).map(|i| (i % 251) as u8 + 1).collect();
    let handler = version_4();
    let parts = started(&handler, file.len() as u64);
    assert_eq!(parts.next_range(), (0, 5242880));
    let first = fill_part(file[..5242880].to_vec());
    let parts = match handler.put_part_reply(parts, tagged(Some("t"))) {
        PartTurn::More(next) => next,
        _ => panic!("no more parts"),
    };
    assert_eq!(parts.next_range(), (5242880, 5242880));
    let second = fill_part(file[5242880..].to_vec());
    let stored = [first, second].concat();
    assert_eq!(stored[..file.len()], file[..]);
    assert!(stored[file.len()..].iter().all(|b| *b == 0));
}

#[test]
fn a_part_without_a_tag_fails() {
    let handler = version_4();
    for reply in [tagged(None), named("ID")] {
        match handler.put_part_reply(started(&handler, 6000000), reply) {
            PartTurn::Over(End::Fail(fault)) => assert_eq!(fault, Fault::Tag),
            _ => panic!("not failed"),
        }
    }
    match handler.put_part_reply(started(&handler, 6000000), None) {
        PartTurn::Over(End::Return(Err(e))) => assert_eq!(e, "Reqwest Error"),
        _ => panic!("not over"),
    }
}
