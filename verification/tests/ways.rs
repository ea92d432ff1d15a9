use s3handler::{AuthType, CredentialConfig, Format, Handler, UrlStyle};

fn config(s3_type: Option<&str>) -> CredentialConfig {
    CredentialConfig {
        host: "s3.example.com".to_string(),
        user: Some("someone".to_string()),
        access_key: "ACCESS".to_string(),
        secret_key: "SECRET".to_string(),
        region: Some("eu-west-1".to_string()),
        s3_type: s3_type.map(|t| t.to_string()),
    }
}

fn ways(handler: &Handler) -> (AuthType, Format, UrlStyle) {
    (handler.auth_type, handler.format, handler.url_style)
}

const AWS: (AuthType, Format, UrlStyle) = (AuthType::AWS4, Format::XML, UrlStyle::HOST);
const CEPH: (AuthType, Format, UrlStyle) = (AuthType::AWS4, Format::JSON, UrlStyle::PATH);
const USUAL: (AuthType, Format, UrlStyle) = (AuthType::AWS4, Format::XML, UrlStyle::PATH);

#[test]
fn a_configuration_gives_the_account() {
    let config = config(None);
    let handler = Handler::init_from_config(&config);
    assert_eq!(handler.host, "s3.example.com");
    assert_eq!(handler.access_key, "ACCESS");
    assert_eq!(handler.secret_key, "SECRET");
    assert_eq!(handler.region, Some("eu-west-1".to_string()));
}

#[test]
fn a_configuration_gives_the_ways() {
    for (s3_type, expected) in [
        (Some("aws"), AWS),
        (Some("ceph"), CEPH),
        (Some("other"), USUAL),
        (Some("my aws"), USUAL),
        (Some(""), USUAL),
        (None, USUAL),
    ] {
        assert_eq!(ways(&Handler::init_from_config(&config(s3_type))), expected);
    }
}

#[test]
fn a_command_names_a_kind_of_service() {
    let config = config(None);
    let mut handler = Handler::init_from_config(&config);
    let shown = handler.change_s3_type("s3_type ceph");
    assert_eq!(ways(&handler), CEPH);
    assert_eq!(
        shown,
        vec![
            "set up s3 type as s3_type ceph",
            "using aws verion 4 signature, json format, and path style url",
        ]
    );
    handler.auth_type = AuthType::AWS2;
    let shown = handler.change_s3_type("s3_type aws");
    assert_eq!(ways(&handler), AWS);
    assert_eq!(
        shown,
        vec![
            "set up s3 type as s3_type aws",
            "using aws verion 4 signature, xml format, and host style url",
        ]
    );
    let shown = handler.change_s3_type("s3_type gcs");
    assert_eq!(ways(&handler), AWS);
    assert_eq!(shown, vec!["set up s3 type as s3_type gcs", "usage: s3_type [aws/ceph]"]);
}

#[test]
fn command_and_configuration_agree() {
    for name in ["aws", "ceph"] {
        let plain = config(None);
        let named = config(Some(name));
        let mut handler = Handler::init_from_config(&plain);
        handler.change_s3_type(name);
        assert_eq!(ways(&handler), ways(&Handler::init_from_config(&named)));
    }
}

#[test]
fn a_service_stays_when_named_again() {
    let config = config(Some("ceph"));
    let mut handler = Handler::init_from_config(&config);
    handler.change_s3_type("aws");
    let once = ways(&handler);
    handler.change_s3_type("aws");
    assert_eq!(ways(&handler), once);
    assert_eq!(handler.region, Some("eu-west-1".to_string()));
}

#[test]
fn a_command_names_a_signature() {
    let config = config(None);
    let mut handler = Handler::init_from_config(&config);
    assert_eq!(handler.change_auth_type("auth_type aws2"), "using aws version 2 signature");
    assert_eq!(ways(&handler), (AuthType::AWS2, Format::XML, UrlStyle::PATH));
    assert_eq!(handler.change_auth_type("auth_type x"), "usage: auth_type [aws4/aws2]");
    assert_eq!(handler.auth_type, AuthType::AWS2);
    assert_eq!(handler.change_auth_type("auth_type aws4"), "using aws verion 4 signature");
    assert_eq!(handler.auth_type, AuthType::AWS4);
    handler.auth_type = AuthType::AWS2;
    assert_eq!(handler.change_auth_type("aws"), "using aws verion 4 signature");
    assert_eq!(ways(&handler), USUAL);
}

#[test]
fn a_command_names_a_format() {
    let config = config(None);
    let mut handler = Handler::init_from_config(&config);
    assert_eq!(handler.change_format_type("format_type json"), "using json format");
    assert_eq!(ways(&handler), CEPH);
    assert_eq!(handler.change_format_type("format_type"), "usage: format_type [xml/json]");
    assert_eq!(handler.format, Format::JSON);
    assert_eq!(handler.change_format_type("format_type xml"), "using xml format");
    assert_eq!(ways(&handler), USUAL);
}

#[test]
fn a_command_names_a_style() {
    let config = config(None);
    let mut handler = Handler::init_from_config(&config);
    assert_eq!(handler.change_url_style("url_style host"), "using host style url");
    assert_eq!(ways(&handler), AWS);
    assert_eq!(handler.change_url_style("url_style"), "usage: url_style [path/host]");
    assert_eq!(handler.url_style, UrlStyle::HOST);
    assert_eq!(handler.change_url_style("url_style path"), "using path style url");
    assert_eq!(ways(&handler), USUAL);
}
