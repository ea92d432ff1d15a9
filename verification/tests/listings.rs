use s3handler::command::End;
use s3handler::listing::{Source, Step, Turn};
use s3handler::request::{Fault, Reply};
use s3handler::{AuthType, Format, Handler, UrlStyle};

fn handler(auth_type: AuthType, format: Format, url_style: UrlStyle) -> Handler<'static> {
    Handler {
        host: "s3.example.com",
        access_key: "ACCESS",
        secret_key: "SECRET",
        auth_type,
        format,
        url_style,
        region: None,
    }
}

fn xml(url_style: UrlStyle) -> Handler<'static> {
    handler(AuthType::AWS4, Format::XML, url_style)
}

fn json(url_style: UrlStyle) -> Handler<'static> {
    handler(AuthType::AWS4, Format::JSON, url_style)
}

fn reply(body: &str) -> Option<Reply> {
    Some(Reply { status: 200, headers: vec![], body: body.as_bytes().to_vec() })
}

/// The paths that a tour asks for, the lines that it shows, and how it ends.
fn tour(
    handler: &Handler,
    first: Option<Reply>,
    bodies: Vec<Option<Reply>>,
) -> (Vec<String>, Vec<String>, Result<(), String>) {
    let mut asked = Vec::new();
    let mut shown = Vec::new();
    let mut bodies = bodies.into_iter();
    let mut step: Step = handler.la_buckets(first);
    loop {
        shown.append(&mut step.shown);
        match step.turn {
            Turn::Ask(call, at) => {
                asked.push(format!("{}{}", call.virtual_host.unwrap_or_default(), call.uri));
                step = handler.la_objects(at, bodies.next().unwrap());
            }
            Turn::Over(End::Return(end)) => {
                return (asked, shown, end.map_err(|e| e.to_string()));
            }
            Turn::Over(End::Fail(fault)) => return (asked, shown, Err(format!("{:?}", fault))),
        }
    }
}

fn texts(given: &[&str]) -> Vec<String> {
    given.iter().map(|t| t.to_string()).collect()
}

const BUCKETS: &str = "<B><Name>one</Name></B><B><Name>two</Name></B>";
const JSON_BUCKETS: &str = r#"[{},[{"Name":"one"},{"Name":"two"}]]"#;
const OBJECTS: &str = "<Key>a</Key><Key>b&amp;c</Key>";
const JSON_OBJECTS: &str = r#"[{"Contents":["a",{}]},{"Contents":["b",{}]}]"#;

#[test]
fn all_buckets_are_asked_for() {
    let call = xml(UrlStyle::HOST).la();
    assert_eq!((call.method, call.uri.as_str()), ("GET", "/"));
    assert_eq!(call.virtual_host, None);
    let listing = xml(UrlStyle::HOST).ls(None);
    assert_eq!((listing.call.method, listing.call.uri.as_str()), ("GET", "/"));
    assert!(matches!(listing.source, Source::Buckets));
}

#[test]
fn a_tour_shows_the_objects_of_every_bucket() {
    let bodies = vec![reply(OBJECTS), reply("<Key>d</Key>")];
    let (asked, shown, end) = tour(&xml(UrlStyle::PATH), reply(BUCKETS), bodies);
    assert_eq!(asked, texts(&["/one", "/two"]));
    assert_eq!(shown, texts(&["s3://one/a", "s3://one/b&c", "s3://two/d"]));
    assert_eq!(end, Ok(()));
}

#[test]
fn a_tour_names_buckets_in_the_style_of_the_service() {
    let bodies = || vec![reply(OBJECTS), reply("")];
    let (asked, shown, _) = tour(&xml(UrlStyle::HOST), reply(BUCKETS), bodies());
    assert_eq!(asked, texts(&["one/", "two/"]));
    assert_eq!(shown, texts(&["s3://one/a", "s3://one/b&c"]));
    let version_2 = handler(AuthType::AWS2, Format::XML, UrlStyle::HOST);
    let (asked, _, _) = tour(&version_2, reply(BUCKETS), bodies());
    assert_eq!(asked, texts(&["/one", "/two"]));
}

#[test]
fn a_tour_reads_json() {
    let bodies = vec![reply(JSON_OBJECTS), reply("nothing")];
    let (asked, shown, end) = tour(&json(UrlStyle::PATH), reply(JSON_BUCKETS), bodies);
    assert_eq!(asked, texts(&["/one", "/two"]));
    assert_eq!(shown, texts(&["s3://one/a", "s3://one/b"]));
    assert_eq!(end, Ok(()));
}

#[test]
fn a_tour_of_no_buckets_is_over_at_once() {
    assert_eq!(tour(&xml(UrlStyle::PATH), reply(""), vec![]), (vec![], vec![], Ok(())));
    assert_eq!(tour(&json(UrlStyle::PATH), reply("[]"), vec![]), (vec![], vec![], Ok(())));
}

#[test]
fn a_tour_ends_where_a_reply_is_missing() {
    let error = Err("Reqwest Error".to_string());
    assert_eq!(tour(&xml(UrlStyle::PATH), None, vec![]), (vec![], vec![], error.clone()));
    let (asked, shown, end) = tour(&xml(UrlStyle::PATH), reply(BUCKETS), vec![reply(OBJECTS), None]);
    assert_eq!(asked.len(), 2);
    assert_eq!(shown, texts(&["s3://one/a", "s3://one/b&c"]));
    assert_eq!(end, error);
}

#[test]
fn a_tour_ends_where_a_reply_cannot_be_read() {
    let (asked, shown, end) =
        tour(&xml(UrlStyle::PATH), reply(BUCKETS), vec![reply("<Key>a</Key><x></y>")]);
    assert_eq!(asked, texts(&["/one"]));
    assert_eq!(shown, texts(&["s3://one/a"]));
    assert_eq!(end, Err("Xml".to_string()));
    assert_eq!(
        tour(&json(UrlStyle::PATH), reply("<x/>"), vec![]),
        (vec![], vec![], Err("Json".to_string()))
    );
    assert_eq!(
        tour(&json(UrlStyle::PATH), reply(r#"[1,[{"Name":"a"},{}]]"#), vec![]),
        (vec![], vec![], Err("Json".to_string()))
    );
}

#[test]
fn a_listing_names_its_bucket() {
    for (handler, name, virtual_host, uri) in [
        (xml(UrlStyle::PATH), "s3://b/k", None, "/b"),
        (xml(UrlStyle::HOST), "S3://b/k", Some("b"), "/"),
        (xml(UrlStyle::PATH), "b", None, "/b"),
        (xml(UrlStyle::HOST), "b", None, "/b"),
        (xml(UrlStyle::HOST), "x s3://b", None, "/x s3://b"),
    ] {
        let listing = handler.ls(Some(name));
        assert_eq!(listing.call.method, "GET");
        assert_eq!(listing.call.virtual_host.as_deref(), virtual_host);
        assert_eq!(listing.call.uri, uri);
    }
    let version_2 = handler(AuthType::AWS2, Format::XML, UrlStyle::HOST);
    let listing = version_2.ls(Some("s3://b"));
    assert_eq!((listing.call.virtual_host, listing.call.uri), (None, "/".to_string()));
}

#[test]
fn a_listing_shows_buckets() {
    let listing = xml(UrlStyle::PATH).ls(None);
    let outcome = xml(UrlStyle::PATH).ls_reply(&listing.source, reply(BUCKETS));
    assert_eq!(outcome.shown, texts(&["s3://one ", "s3://two "]));
    assert!(matches!(outcome.end, End::Return(Ok(()))));
    let outcome = json(UrlStyle::PATH).ls_reply(&listing.source, reply(JSON_BUCKETS));
    assert_eq!(outcome.shown, texts(&["s3://one ", "s3://two "]));
    let outcome = json(UrlStyle::PATH).ls_reply(&listing.source, reply(r#"[1,[{"Name":"a"},1]]"#));
    assert_eq!(outcome.shown, texts(&["s3://a "]));
    assert!(matches!(outcome.end, End::Fail(Fault::Json)));
}

#[test]
fn a_listing_shows_objects() {
    let by_path = xml(UrlStyle::PATH);
    let listing = by_path.ls(Some("s3://one"));
    let outcome = by_path.ls_reply(&listing.source, reply(OBJECTS));
    assert_eq!(outcome.shown, texts(&["s3:///one/a ", "s3:///one/b&c "]));
    let by_host = xml(UrlStyle::HOST);
    let listing = by_host.ls(Some("s3://one"));
    let outcome = by_host.ls_reply(&listing.source, reply(OBJECTS));
    assert_eq!(outcome.shown, texts(&["s3://one/a ", "s3://one/b&c "]));
    let in_json = json(UrlStyle::PATH);
    let listing = in_json.ls(Some("s3://one"));
    let outcome = in_json.ls_reply(&listing.source, reply(JSON_OBJECTS));
    assert_eq!(outcome.shown, texts(&["s3://one/a", "s3://one/b"]));
}

#[test]
fn a_listing_fails_where_the_reply_does() {
    let handler = xml(UrlStyle::PATH);
    let listing = handler.ls(Some("one"));
    let outcome = handler.ls_reply(&listing.source, reply("<Key>a</Key></z>"));
    assert_eq!(outcome.shown, texts(&["s3:///one/a "]));
    assert!(matches!(outcome.end, End::Fail(Fault::Xml)));
    let outcome = handler.ls_reply(&listing.source, None);
    assert!(outcome.shown.is_empty());
    assert!(matches!(outcome.end, End::Return(Err("Reqwest Error"))));
}
