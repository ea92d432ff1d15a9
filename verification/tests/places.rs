use s3handler::location::{contents, locate};
use s3handler::command::End;
use s3handler::request::Fault;
use s3handler::text::{ends_with, number, same, starts_with, text_of};
use s3handler::url::{cut_at, parts_of};
use s3handler::{AuthType, Format, Handler, UrlStyle};
use std::path::Path;

fn located(text: &str) -> Option<(String, String)> {
    locate(text).map(|at| (at.bucket, at.object))
}

/// The name that a file takes where it is stored in a bucket under its own name.
fn name_of(path: &str) -> Option<String> {
    let handler = Handler {
        host: "s3.example.com",
        access_key: "ACCESS",
        secret_key: "SECRET",
        auth_type: AuthType::AWS4,
        format: Format::XML,
        url_style: UrlStyle::PATH,
        region: None,
    };
    match handler.put(path, "s3://b", None) {
        Ok(upload) => Some(upload.uri["/b/".len()..].to_string()),
        Err(End::Fail(fault)) => {
            assert_eq!(fault, Fault::Name);
            None
        }
        Err(End::Return(_)) => panic!("refused"),
    }
}

fn pair(a: &str, b: &str) -> (String, String) {
    (a.to_string(), b.to_string())
}

#[test]
fn a_location_names_its_bucket_and_its_object() {
    assert_eq!(located("s3://bucket/dir/file.txt"), Some(pair("bucket", "/dir/file.txt")));
    assert_eq!(located("S3://My-Bucket_1.x/a"), Some(pair("My-Bucket_1.x", "/a")));
    assert_eq!(located("s3://bucket"), Some(pair("bucket", "")));
    assert_eq!(located("s3://bucket/"), Some(pair("bucket", "/")));
}

#[test]
fn a_location_is_found_anywhere_in_a_text() {
    assert_eq!(located("get s3://b/k please"), Some(pair("b", "/k")));
    assert_eq!(located("s3:/// s3://s3://b/k"), Some(pair("s3", "")));
    assert_eq!(located("s3://!s3://b/k"), Some(pair("b", "/k")));
}

#[test]
fn a_location_ends_at_the_first_foreign_character() {
    assert_eq!(located("s3://b/k?x=1"), Some(pair("b", "/k")));
    assert_eq!(located("s3://b\u{e9}/k"), Some(pair("b", "")));
    assert_eq!(located("s3://b//k"), Some(pair("b", "//k")));
}

#[test]
fn what_is_no_location_is_not_found() {
    assert_eq!(located(""), None);
    assert_eq!(located("bucket/key"), None);
    assert_eq!(located("s3://"), None);
    assert_eq!(located("s3:///key"), None);
    assert_eq!(located("s4://bucket/key"), None);
    assert_eq!(located("s3:/bucket/key"), None);
}

#[test]
fn a_location_reads_back() {
    for (bucket, object) in [("b", ""), ("b-1", "/"), ("B_.9", "/x/y/z"), ("a", "/-._")] {
        for mark in ["s3://", "S3://"] {
            let text = format!("{}{}{}", mark, bucket, object);
            assert_eq!(located(&text), Some(pair(bucket, object)));
        }
    }
}

#[test]
fn a_json_listing_names_its_objects() {
    let text = r#"[{"Contents":["a.txt",{"Size":1}]},{"Contents":["b-2",{"Size":2}]}]"#;
    assert_eq!(contents(text), vec!["a.txt", "b-2"]);
    assert_eq!(contents(r#""Contents":["a"]"#), vec!["a"]);
    assert!(contents("").is_empty());
}

#[test]
fn a_json_entry_ends_at_its_bracket() {
    assert!(contents(r#""Contents":["a""#).is_empty());
    assert!(contents(r#""Contents":[""]"#).is_empty());
    assert!(contents(r#""Contents":["a/b"]"#).is_empty());
    assert!(contents("\"Contents\":[\"a\"\n]").is_empty());
    assert_eq!(contents(r#""Contents":["a","Contents":["b"]]"#), vec!["a"]);
    assert_eq!(contents("\"Contents\":[\"a\"\n\"Contents\":[\"b\"]"), vec!["b"]);
}

#[test]
fn a_file_name_is_the_last_part_of_a_path() {
    assert_eq!(name_of("a/b/c.txt"), Some("c.txt".to_string()));
    assert_eq!(name_of("s3://b/k"), Some("k".to_string()));
    assert_eq!(name_of("dir/"), Some("dir".to_string()));
    assert_eq!(name_of("dir/."), Some("dir".to_string()));
    assert_eq!(name_of("dir/.."), None);
    assert_eq!(name_of("/"), None);
    assert_eq!(name_of("."), None);
}

#[test]
fn a_file_name_is_the_one_that_the_system_sees() {
    let parts = ["", ".", "..", "a", "b.c", "...", "\u{e9}", " "];
    for x in parts {
        for y in parts {
            for z in parts {
                for path in [
                    format!("{}/{}/{}", x, y, z),
                    format!("/{}//{}/{}/", x, y, z),
                    format!("{}{}/{}", x, y, z),
                    format!("{}{}{}", x, y, z),
                    format!("{}\\{}:{}", x, y, z),
                    format!("c:{}\\{}/{}", x, y, z),
                    format!("//{}/{}{}", x, y, z),
                ] {
                    if path.is_empty() {
                        continue;
                    }
                    let seen = Path::new(&path).file_name();
                    assert_eq!(name_of(&path), seen.map(|n| n.to_str().unwrap().to_string()));
                }
            }
        }
    }
}

#[test]
fn an_address_splits_into_path_and_query() {
    assert_eq!(parts_of("/b/k"), ("/b/k".to_string(), vec![]));
    assert_eq!(
        parts_of("/b?x=1&y=2"),
        ("/b".to_string(), vec![pair("x", "1"), pair("y", "2")])
    );
    assert_eq!(parts_of("/b?acl"), ("/b".to_string(), vec![pair("acl", "")]));
    assert_eq!(parts_of("/b?"), ("/b".to_string(), vec![pair("", "")]));
    assert_eq!(
        parts_of("/b?x=1=2&&=z?"),
        ("/b".to_string(), vec![pair("x", "1"), pair("", ""), pair("", "z?")])
    );
    assert_eq!(parts_of(""), ("".to_string(), vec![]));
}

#[test]
fn a_plain_query_reads_back() {
    let query = vec![pair("format", "json"), pair("uploads", ""), pair("n", "10")];
    let written = "/b/k?format=json&uploads=&n=10";
    assert_eq!(parts_of(written), ("/b/k".to_string(), query));
}

#[test]
fn a_text_is_cut_at_the_first_place() {
    assert_eq!(cut_at("a=b=c", '='), ("a", Some("b=c")));
    assert_eq!(cut_at("\u{e9}\u{e8}=\u{ea}", '='), ("\u{e9}\u{e8}", Some("\u{ea}")));
    assert_eq!(cut_at("abc", '='), ("abc", None));
    assert_eq!(cut_at("", '='), ("", None));
}

#[test]
fn texts_are_compared_by_their_characters() {
    assert!(same("a\u{e9}", "a\u{e9}"));
    assert!(!same("a", "A"));
    assert!(starts_with("s3://b", "s3://"));
    assert!(!starts_with("s3", "s3://"));
    assert!(starts_with("", ""));
    assert!(ends_with("\u{e9}aws", "aws"));
    assert!(!ends_with("aws4", "aws"));
    assert!(!ends_with("w", "aws"));
}

#[test]
fn a_number_is_written_in_decimal() {
    for n in [0u64, 1, 9, 10, 99, 100, 105, 10000, 123456789, u64::MAX] {
        assert_eq!(number(n), n.to_string());
    }
}

#[test]
fn a_body_is_text_only_where_it_is_utf8() {
    assert_eq!(text_of(&"caf\u{e9}".as_bytes().to_vec()), "caf\u{e9}");
    assert_eq!(text_of(&vec![104, 105, 255]), "");
    assert_eq!(text_of(&vec![237, 160, 128]), "");
    assert_eq!(text_of(&vec![]), "");
}

#[test]
fn a_name_is_found_in_every_plain_path() {
    for (path, long, short) in [
        ("a\\b", "a\\b", "b"),
        ("d/a\\b.c", "a\\b.c", "b.c"),
        ("\\a", "\\a", "a"),
        ("d\\..\\x", "d\\..\\x", "x"),
        ("d/x", "x", "x"),
    ] {
        let name = name_of(path).unwrap();
        assert!(name == long || name == short);
    }
    let name = name_of("c:f").unwrap();
    assert!(name == "c:f" || name == "f");
}
