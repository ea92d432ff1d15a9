//! Whom the client talks to, and how.

use crate::text::{ends_with, same};
use vstd::prelude::*;
use vstd::string::*;

verus! {

/// What a configuration says of one account.
#[derive(Debug, Clone)]
pub struct CredentialConfig {
    pub host: String,
    pub user: Option<String>,
    pub access_key: String,
    pub secret_key: String,
    pub region: Option<String>,
    pub s3_type: Option<String>,
}

/// How requests are signed.
#[derive(Debug, Clone, Copy, PartialEq, Eq, Structural)]
pub enum AuthType {
    AWS4,
    AWS2,
}

/// How replies are written.
#[derive(Debug, Clone, Copy, PartialEq, Eq, Structural)]
pub enum Format {
    JSON,
    XML,
}

/// Where a request names its bucket: in the path, or as a part of the host.
#[derive(Debug, Clone, Copy, PartialEq, Eq, Structural)]
pub enum UrlStyle {
    PATH,
    HOST,
}

/// An account of a storage service and the ways in which the service is spoken to.
pub struct Handler<'a> {
    pub host: &'a str,
    pub access_key: &'a str,
    pub secret_key: &'a str,
    pub auth_type: AuthType,
    pub format: Format,
    pub url_style: UrlStyle,
    pub region: Option<String>,
}

/// The three ways that belong to a kind of service, which its name ends with.
pub open spec fn service_ways(command: Seq<char>) -> Option<(AuthType, Format, UrlStyle)> {
    if "aws"@.is_suffix_of(command) {
        Some((AuthType::AWS4, Format::XML, UrlStyle::HOST))
    } else if "ceph"@.is_suffix_of(command) {
        Some((AuthType::AWS4, Format::JSON, UrlStyle::PATH))
    } else {
        None
    }
}

/// The ways after a command that may name a kind of service: those of the kind, or the old ones.
pub open spec fn ways_after(ways: (AuthType, Format, UrlStyle), command: Seq<char>) -> (
    AuthType,
    Format,
    UrlStyle,
) {
    match service_ways(command) {
        Some(ways) => ways,
        None => ways,
    }
}

/// What is said when the ways of a kind of service have been taken up.
pub open spec fn service_message(command: Seq<char>) -> Seq<char> {
    if "aws"@.is_suffix_of(command) {
        "using aws verion 4 signature, xml format, and host style url"@
    } else if "ceph"@.is_suffix_of(command) {
        "using aws verion 4 signature, json format, and path style url"@
    } else {
        "usage: s3_type [aws/ceph]"@
    }
}

/// The signature that a command names by its end.
pub open spec fn named_auth_type(command: Seq<char>) -> Option<AuthType> {
    if "aws2"@.is_suffix_of(command) {
        Some(AuthType::AWS2)
    } else if "aws4"@.is_suffix_of(command) || "aws"@.is_suffix_of(command) {
        Some(AuthType::AWS4)
    } else {
        None
    }
}

/// The format that a command names by its end.
pub open spec fn named_format(command: Seq<char>) -> Option<Format> {
    if "xml"@.is_suffix_of(command) {
        Some(Format::XML)
    } else if "json"@.is_suffix_of(command) {
        Some(Format::JSON)
    } else {
        None
    }
}

/// The style that a command names by its end.
pub open spec fn named_url_style(command: Seq<char>) -> Option<UrlStyle> {
    if "path"@.is_suffix_of(command) {
        Some(UrlStyle::PATH)
    } else if "host"@.is_suffix_of(command) {
        Some(UrlStyle::HOST)
    } else {
        None
    }
}

/// The three ways that a configuration calls for.
pub open spec fn configured_ways(s3_type: Option<String>) -> (AuthType, Format, UrlStyle) {
    match s3_type {
        Some(name) => if name@ == "aws"@ {
            (AuthType::AWS4, Format::XML, UrlStyle::HOST)
        } else if name@ == "ceph"@ {
            (AuthType::AWS4, Format::JSON, UrlStyle::PATH)
        } else {
            (AuthType::AWS4, Format::XML, UrlStyle::PATH)
        },
        None => (AuthType::AWS4, Format::XML, UrlStyle::PATH),
    }
}

impl<'a> Handler<'a> {
    /// The three ways in which the service is spoken to.
    pub open spec fn ways(&self) -> (AuthType, Format, UrlStyle) {
        (self.auth_type, self.format, self.url_style)
    }

    /// Whether two handlers speak for the same account.
    pub open spec fn same_account(&self, other: &Handler<'a>) -> bool {
        &&& self.host == other.host
        &&& self.access_key == other.access_key
        &&& self.secret_key == other.secret_key
        &&& self.region == other.region
    }

    /// Takes up the ways of the kind of service that the command ends with, and leaves everything
    /// as it is where it ends with none. Gives the lines to show.
    pub fn change_s3_type(&mut self, command: &str) -> (shown: Vec<String>)
        ensures
            final(self).same_account(old(self)),
            final(self).ways() == ways_after(old(self).ways(), command@),
            shown.deep_view() == seq!["set up s3 type as "@ + command@, service_message(command@)],
    {
        let mut shown: Vec<String> = Vec::new();
        shown.push("set up s3 type as ".to_owned().concat(command));
        if ends_with(command, "aws") {
            self.auth_type = AuthType::AWS4;
            self.format = Format::XML;
            self.url_style = UrlStyle::HOST;
            shown.push("using aws verion 4 signature, xml format, and host style url".to_owned());
        } else if ends_with(command, "ceph") {
            self.auth_type = AuthType::AWS4;
            self.format = Format::JSON;
            self.url_style = UrlStyle::PATH;
            shown.push("using aws verion 4 signature, json format, and path style url".to_owned());
        } else {
            shown.push("usage: s3_type [aws/ceph]".to_owned());
        }
        assert(shown.deep_view() =~= seq![
            "set up s3 type as "@ + command@,
            service_message(command@),
        ]);
        shown
    }

    /// Takes up the signature that the command ends with. Gives the line to show.
    pub fn change_auth_type(&mut self, command: &str) -> (shown: String)
        ensures
            final(self).same_account(old(self)),
            final(self).format == old(self).format,
            final(self).url_style == old(self).url_style,
            match named_auth_type(command@) {
                Some(AuthType::AWS2) => final(self).auth_type == AuthType::AWS2 && shown@
                    == "using aws version 2 signature"@,
                Some(AuthType::AWS4) => final(self).auth_type == AuthType::AWS4 && shown@
                    == "using aws verion 4 signature"@,
                None => final(self).auth_type == old(self).auth_type && shown@
                    == "usage: auth_type [aws4/aws2]"@,
            },
    {
        if ends_with(command, "aws2") {
            self.auth_type = AuthType::AWS2;
            "using aws version 2 signature".to_owned()
        } else if ends_with(command, "aws4") || ends_with(command, "aws") {
            self.auth_type = AuthType::AWS4;
            "using aws verion 4 signature".to_owned()
        } else {
            "usage: auth_type [aws4/aws2]".to_owned()
        }
    }

    /// Takes up the format that the command ends with. Gives the line to show.
    pub fn change_format_type(&mut self, command: &str) -> (shown: String)
        ensures
            final(self).same_account(old(self)),
            final(self).auth_type == old(self).auth_type,
            final(self).url_style == old(self).url_style,
            match named_format(command@) {
                Some(Format::XML) => final(self).format == Format::XML && shown@
                    == "using xml format"@,
                Some(Format::JSON) => final(self).format == Format::JSON && shown@
                    == "using json format"@,
                None => final(self).format == old(self).format && shown@
                    == "usage: format_type [xml/json]"@,
            },
    {
        if ends_with(command, "xml") {
            self.format = Format::XML;
            "using xml format".to_owned()
        } else if ends_with(command, "json") {
            self.format = Format::JSON;
            "using json format".to_owned()
        } else {
            "usage: format_type [xml/json]".to_owned()
        }
    }

    /// Takes up the style that the command ends with. Gives the line to show.
    pub fn change_url_style(&mut self, command: &str) -> (shown: String)
        ensures
            final(self).same_account(old(self)),
            final(self).auth_type == old(self).auth_type,
            final(self).format == old(self).format,
            match named_url_style(command@) {
                Some(UrlStyle::PATH) => final(self).url_style == UrlStyle::PATH && shown@
                    == "using path style url"@,
                Some(UrlStyle::HOST) => final(self).url_style == UrlStyle::HOST && shown@
                    == "using host style url"@,
                None => final(self).url_style == old(self).url_style && shown@
                    == "usage: url_style [path/host]"@,
            },
    {
        if ends_with(command, "path") {
            self.url_style = UrlStyle::PATH;
            "using path style url".to_owned()
        } else if ends_with(command, "host") {
            self.url_style = UrlStyle::HOST;
            "using host style url".to_owned()
        } else {
            "usage: url_style [path/host]".to_owned()
        }
    }

    /// A handler for a configured account.
    pub fn init_from_config(credential: &'a CredentialConfig) -> (r: Self)
        ensures
            r.host@ == credential.host@,
            r.access_key@ == credential.access_key@,
            r.secret_key@ == credential.secret_key@,
            r.region == credential.region,
            r.ways() == configured_ways(credential.s3_type),
    {
        let mut r = Handler {
            host: credential.host.as_str(),
            access_key: credential.access_key.as_str(),
            secret_key: credential.secret_key.as_str(),
            auth_type: AuthType::AWS4,
            format: Format::XML,
            url_style: UrlStyle::PATH,
            region: credential.region.clone(),
        };
        match &credential.s3_type {
            Some(name) => {
                if same(name.as_str(), "aws") {
                    r.url_style = UrlStyle::HOST;
                } else if same(name.as_str(), "ceph") {
                    r.format = Format::JSON;
                }
            },
            None => {},
        }
        r
    }
}

} // verus!
