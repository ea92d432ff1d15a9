use s3handler::request::{
    copy_pairs, received, take_last, verb, Answer, ApiCall, DraftV2, DraftV4, Fault, Reply, Route,
    Verb,
};
use s3handler::url::parts_of;
use s3handler::{AuthType, Format, Handler, UrlStyle};

fn handler(format: Format) -> Handler<'static> {
    Handler {
        host: "s3.example.com",
        access_key: "ACCESS",
        secret_key: "SECRET",
        auth_type: AuthType::AWS4,
        format,
        url_style: UrlStyle::PATH,
        region: None,
    }
}

fn pairs(given: &[(&str, &str)]) -> Vec<(String, String)> {
    given.iter().map(|(a, b)| (a.to_string(), b.to_string())).collect()
}

fn call(method: &'static str, headers: &[(&str, &str)]) -> ApiCall {
    ApiCall {
        auth: AuthType::AWS4,
        method,
        virtual_host: None,
        uri: "/b/k".to_string(),
        query: pairs(&[("x", "1")]),
        headers: pairs(headers),
        payload: vec![1, 2, 3],
    }
}

fn route(virtual_host: Option<&str>, region: Option<&str>, endpoint: Option<&str>) -> Route {
    Route {
        virtual_host: virtual_host.map(|t| t.to_string()),
        region: region.map(|t| t.to_string()),
        endpoint: endpoint.map(|t| t.to_string()),
    }
}

fn reply(status: u16, headers: &[(&str, Option<&str>)], body: &str) -> Reply {
    Reply {
        status,
        headers: headers.iter().map(|(n, v)| (n.to_string(), v.map(|t| t.to_string()))).collect(),
        body: body.as_bytes().to_vec(),
    }
}

const NOON: i64 = 1546430400;

#[test]
fn a_method_has_its_verb() {
    assert_eq!(verb("GET"), Verb::Get);
    assert_eq!(verb("PUT"), Verb::Put);
    assert_eq!(verb("DELETE"), Verb::Delete);
    assert_eq!(verb("POST"), Verb::Post);
    assert_eq!(verb("HEAD"), Verb::Get);
    assert_eq!(verb("put"), Verb::Get);
}

#[test]
fn a_draft_of_version_2_is_dated() {
    let draft: DraftV2 = handler(Format::XML).aws_v2_draft(&call("GET", &[]), NOON);
    let date = "Wed, 2 Jan 2019 12:00:00 +0000";
    assert_eq!(draft.headers, pairs(&[("date", date)]));
    assert_eq!(draft.signed_headers, pairs(&[("Date", date)]));
    assert_eq!(draft.query, pairs(&[("x", "1")]));
}

#[test]
fn a_draft_of_version_2_is_dated_in_every_year_of_four_digits() {
    let first = handler(Format::XML).aws_v2_draft(&call("GET", &[]), -62167219200);
    assert_eq!(first.headers[0].1, "Sat, 1 Jan 0000 00:00:00 +0000");
    let last = handler(Format::XML).aws_v2_draft(&call("GET", &[]), 253402300799);
    assert_eq!(last.headers[0].1, "Fri, 31 Dec 9999 23:59:59 +0000");
}

#[test]
fn json_is_asked_for_first() {
    let draft = handler(Format::JSON).aws_v2_draft(&call("GET", &[]), NOON);
    assert_eq!(draft.query, pairs(&[("format", "json"), ("x", "1")]));
    let way = route(None, None, None);
    let draft = handler(Format::JSON).aws_v4_draft(&call("GET", &[]), &way, NOON, "hash");
    assert_eq!(draft.query, pairs(&[("format", "json"), ("x", "1")]));
}

#[test]
fn features_are_sent_on_and_signed() {
    let given = [
        ("secure-delete", "yes"),
        ("delete-marker", "first"),
        ("x-other", "no"),
        ("delete-marker", "second"),
    ];
    let way = route(None, None, None);
    let draft = handler(Format::XML).aws_v4_draft(&call("DELETE", &given), &way, 0, "hash");
    assert_eq!(
        draft.headers,
        pairs(&[
            ("x-amz-date", "19700101T000000Z"),
            ("x-amz-content-sha256", "hash"),
            ("x-amz-delete-marker", "second"),
            ("x-amz-secure-delete", "yes"),
        ])
    );
    assert_eq!(
        draft.signed_headers,
        pairs(&[
            ("X-AMZ-Date", "19700101T000000Z"),
            ("Host", "s3.example.com"),
            ("x-amz-delete-marker", "first"),
            ("x-amz-delete-marker", "second"),
            ("x-amz-secure-delete", "yes"),
        ])
    );
}

#[test]
fn features_are_sent_on_by_version_2_too() {
    let given = [("secure-delete", "yes"), ("x-other", "no"), ("delete-marker", "on")];
    let draft = handler(Format::XML).aws_v2_draft(&call("GET", &given), 0);
    let sent = [("x-amz-delete-marker", "on"), ("x-amz-secure-delete", "yes")];
    assert_eq!(draft.headers[1..], pairs(&sent)[..]);
    assert_eq!(draft.signed_headers[1..], pairs(&sent)[..]);
}

#[test]
fn a_request_of_version_2_is_authorized() {
    let handler = handler(Format::XML);
    let call = call("PUT", &[]);
    let draft = handler.aws_v2_draft(&call, 0);
    let request = handler.aws_v2_request(&call, draft, "x=1", "SIGNED=");
    assert_eq!(request.verb, Verb::Put);
    assert_eq!(request.url, "http://s3.example.com/b/k?x=1");
    assert_eq!(
        request.headers,
        pairs(&[
            ("date", "Thu, 1 Jan 1970 00:00:00 +0000"),
            ("authorization", "AWS ACCESS:SIGNED="),
        ])
    );
    assert_eq!(request.body, vec![1, 2, 3]);
}

#[test]
fn a_header_takes_the_place_of_its_namesake() {
    let handler = handler(Format::XML);
    let draft = DraftV2 {
        headers: pairs(&[("authorization", "old"), ("date", "now")]),
        signed_headers: vec![],
        query: vec![],
    };
    let request = handler.aws_v2_request(&call("GET", &[]), draft, "", "S");
    assert_eq!(request.headers, pairs(&[("authorization", "AWS ACCESS:S"), ("date", "now")]));
}

#[test]
fn a_first_route_has_no_endpoint() {
    let mut handler = handler(Format::XML);
    handler.region = Some("eu".to_string());
    let mut call = call("GET", &[]);
    call.virtual_host = Some("b".to_string());
    let way = handler.first_route(&call);
    assert_eq!(way.virtual_host, Some("b".to_string()));
    assert_eq!(way.region, Some("eu".to_string()));
    assert_eq!(way.endpoint, None);
}

#[test]
fn a_draft_of_version_4_knows_its_host() {
    let handler = handler(Format::XML);
    let call = call("GET", &[]);
    let plain = handler.aws_v4_draft(&call, &route(None, None, None), 0, "h");
    assert_eq!(plain.hostname, "s3.example.com");
    let bucket = handler.aws_v4_draft(&call, &route(Some("b"), None, None), 0, "h");
    assert_eq!(bucket.hostname, "b.s3.example.com");
    let sent = handler.aws_v4_draft(&call, &route(Some("b"), None, Some("there")), 0, "h");
    assert_eq!(sent.hostname, "there");
}

#[test]
fn a_draft_of_version_4_knows_its_moment() {
    let handler = handler(Format::XML);
    let draft = handler.aws_v4_draft(&call("GET", &[]), &route(None, Some("eu"), None), NOON, "h");
    assert_eq!(draft.moment, "20190102T120000Z");
    assert_eq!(draft.day, "20190102");
    assert_eq!(draft.region, Some("eu".to_string()));
}

#[test]
fn a_draft_of_version_4_knows_every_moment_of_the_calendar() {
    let handler = handler(Format::XML);
    let way = route(None, None, None);
    let first = handler.aws_v4_draft(&call("GET", &[]), &way, -8334601228800, "h");
    assert_eq!(first.moment, "-2621430101T000000Z");
    let last = handler.aws_v4_draft(&call("GET", &[]), &way, 8210266876799, "h");
    assert_eq!(last.moment, "+2621421231T235959Z");
}

#[test]
fn the_signed_host_is_the_host_that_is_called() {
    let handler = handler(Format::XML);
    let call = call("GET", &[]);
    for way in [route(None, None, None), route(Some("b"), None, None), route(None, None, Some("e"))] {
        let draft = handler.aws_v4_draft(&call, &way, 0, "h");
        let host = draft.signed_headers[1].1.clone();
        let request = handler.aws_v4_request(&call, draft, "x=1", "names", "S");
        assert_eq!(request.url, format!("http://{}/b/k?x=1", host));
    }
}

#[test]
fn a_request_of_version_4_is_authorized() {
    let handler = handler(Format::XML);
    let call = call("POST", &[]);
    let draft: DraftV4 = handler.aws_v4_draft(&call, &route(None, None, None), NOON, "h");
    let request = handler.aws_v4_request(&call, draft, "", "host;x-amz-date", "SIGNED");
    assert_eq!(request.verb, Verb::Post);
    assert_eq!(request.url, "http://s3.example.com/b/k?");
    assert_eq!(
        request.headers,
        pairs(&[
            ("x-amz-date", "20190102T120000Z"),
            ("x-amz-content-sha256", "h"),
            (
                "authorization",
                "AWS4-HMAC-SHA256 Credential=ACCESS/20190102/us-east-1/s3/aws4_request, \
                 SignedHeaders=host;x-amz-date, Signature=SIGNED",
            ),
        ])
    );
    assert_eq!(request.body, vec![1, 2, 3]);
}

#[test]
fn a_request_of_version_4_names_its_region() {
    let handler = handler(Format::XML);
    let call = call("GET", &[]);
    let draft = handler.aws_v4_draft(&call, &route(None, Some("eu"), None), NOON, "h");
    let request = handler.aws_v4_request(&call, draft, "", "n", "S");
    assert_eq!(
        request.headers[2].1,
        "AWS4-HMAC-SHA256 Credential=ACCESS/20190102/eu/s3/aws4_request, \
         SignedHeaders=n, Signature=S"
    );
}

#[test]
fn the_address_of_a_request_reads_back() {
    let handler = handler(Format::XML);
    let call = call("GET", &[]);
    let draft = handler.aws_v2_draft(&call, 0);
    let request = handler.aws_v2_request(&call, draft, "x=1&y=", "S");
    let (path, query) = parts_of(&request.url);
    assert_eq!(path, "http://s3.example.com/b/k");
    assert_eq!(query, pairs(&[("x", "1"), ("y", "")]));
}

#[test]
fn a_reply_that_stays_is_the_answer() {
    for status in [100, 200, 299, 400, 404, 500] {
        match handler(Format::XML).aws_v4_reply(Some(reply(status, &[], "body"))) {
            Answer::Done(Ok(reply)) => assert_eq!(reply.body, b"body".to_vec()),
            _ => panic!("not done"),
        }
    }
}

#[test]
fn a_call_that_was_not_sent_is_an_error() {
    match handler(Format::XML).aws_v4_reply(None) {
        Answer::Done(Err(e)) => assert_eq!(e, "Reqwest Error"),
        _ => panic!("not done"),
    }
    assert_eq!(received(None).err(), Some("Reqwest Error"));
    assert_eq!(received(Some(reply(200, &[], "x"))).unwrap().body, b"x".to_vec());
}

#[test]
fn a_redirection_is_followed() {
    let headers = [("x-other", Some("no")), ("x-amz-bucket-region", Some("eu-west-1"))];
    let body = "<Error><Endpoint>b.s3-eu.example.com</Endpoint></Error>";
    for status in [300, 301, 307, 399] {
        match handler(Format::XML).aws_v4_reply(Some(reply(status, &headers, body))) {
            Answer::Again(way) => {
                assert_eq!(way.virtual_host, None);
                assert_eq!(way.region, Some("eu-west-1".to_string()));
                assert_eq!(way.endpoint, Some("b.s3-eu.example.com".to_string()));
                let draft = handler(Format::XML).aws_v4_draft(&call("GET", &[]), &way, 0, "h");
                assert_eq!(draft.hostname, "b.s3-eu.example.com");
                assert_eq!(draft.region, Some("eu-west-1".to_string()));
            }
            _ => panic!("not followed"),
        }
    }
}

#[test]
fn a_redirection_goes_to_its_last_endpoint() {
    let headers = [("x-amz-bucket-region", None)];
    let body = "<Endpoint>one</Endpoint><Endpoint>two</Endpoint>";
    match handler(Format::XML).aws_v4_reply(Some(reply(301, &headers, body))) {
        Answer::Again(way) => {
            assert_eq!(way.endpoint, Some("two".to_string()));
            assert_eq!(way.region, Some("".to_string()));
        }
        _ => panic!("not followed"),
    }
    match handler(Format::JSON).aws_v4_reply(Some(reply(301, &headers, body))) {
        Answer::Again(way) => assert_eq!(way.endpoint, Some("".to_string())),
        _ => panic!("not followed"),
    }
}

#[test]
fn a_redirection_without_a_region_fails() {
    match handler(Format::XML).aws_v4_reply(Some(reply(301, &[], ""))) {
        Answer::Fail(fault) => assert_eq!(fault, Fault::Region),
        _ => panic!("not failed"),
    }
}

#[test]
fn a_redirection_that_cannot_be_read_fails() {
    let headers = [("x-amz-bucket-region", Some("eu"))];
    match handler(Format::XML).aws_v4_reply(Some(reply(301, &headers, "<a></b>"))) {
        Answer::Fail(fault) => assert_eq!(fault, Fault::Xml),
        _ => panic!("not failed"),
    }
}

#[test]
fn a_header_is_found_by_its_name() {
    let reply = reply(200, &[("a", Some("1")), ("b", None), ("a", Some("2"))], "");
    assert_eq!(reply.find_header("a"), Some(Some("1".to_string())));
    assert_eq!(reply.find_header("b"), Some(None));
    assert_eq!(reply.find_header("c"), None);
}

#[test]
fn pairs_are_copied_and_the_last_text_is_taken() {
    let given = pairs(&[("a", "1"), ("b", "2")]);
    assert_eq!(copy_pairs(&given), given);
    assert_eq!(take_last(&vec!["a".to_string(), "b".to_string()]), "b");
    assert_eq!(take_last(&vec![]), "");
}
