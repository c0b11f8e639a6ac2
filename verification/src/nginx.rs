//! Configuration layout of the proxy controller: where a rule's file lives
//! under the configuration directory, by the kind of rule it carries.

use vstd::prelude::*;

use crate::err::{ApiError, ErrorKind};
use crate::generic::str_eq;

verus! {

/// Kind of a proxy configuration file: an HTTP site, or a stream.
#[derive(Clone, Copy, Debug, PartialEq, Eq, Structural)]
pub enum NginxConfKind {
    Site,
    Stream,
}

impl NginxConfKind {
    /// Display form of the kind.
    pub fn to_text(&self) -> (r: &'static str)
        ensures
            self is Site ==> r@ == "Site"@,
            self is Stream ==> r@ == "Stream"@,
    {
        match self {
            NginxConfKind::Site => "Site",
            NginxConfKind::Stream => "Stream",
        }
    }

    /// Parse the kind from its text, either capitalised or lower case;
    /// anything else is a validation error.
    pub fn from_str(s: &str) -> (r: Result<NginxConfKind, ApiError>)
        ensures
            s@ == "Site"@ || s@ == "site"@ ==> r == Result::<
                NginxConfKind,
                ApiError,
            >::Ok(NginxConfKind::Site),
            s@ == "Stream"@ || s@ == "stream"@ ==> r == Result::<
                NginxConfKind,
                ApiError,
            >::Ok(NginxConfKind::Stream),
            s@ != "Site"@ && s@ != "site"@ && s@ != "Stream"@ && s@ != "stream"@ ==> r is Err
                && r->Err_0.kind == ErrorKind::Validation,
    {
        proof {
            reveal_strlit("Site");
            reveal_strlit("site");
            reveal_strlit("Stream");
            reveal_strlit("stream");
            assert("Site"@.len() == 4);
            assert("site"@[0] == 's');
            assert("Site"@[0] == 'S');
            assert("Stream"@.len() == 6);
            assert("stream"@.len() == 6);
            assert("Stream"@[0] == 'S');
            assert("stream"@[0] == 's');
            assert("Stream"@[1] == 't');
            assert("Site"@[1] == 'i');
        }
        if str_eq(s, "Site") || str_eq(s, "site") {
            Ok(NginxConfKind::Site)
        } else if str_eq(s, "Stream") || str_eq(s, "stream") {
            Ok(NginxConfKind::Stream)
        } else {
            Err(
                ApiError::new(
                    ErrorKind::Validation,
                    String::from_str("expected | Site | site | Stream | stream"),
                ),
            )
        }
    }
}

/// The proxy configuration tree, rooted at its directory.
#[derive(Debug)]
pub struct Nginx {
    /// Directory the configuration lives under.
    pub conf_dir: String,
}

/// The path of a rule's configuration file: sites and streams live in
/// sibling directories under the root, each rule in a file named after it.
pub open spec fn spec_conf_path(
    conf_dir: Seq<char>,
    name: Seq<char>,
    kind: NginxConfKind,
) -> Seq<char> {
    match kind {
        NginxConfKind::Site => conf_dir + "/sites-enabled/"@ + name + ".conf"@,
        NginxConfKind::Stream => conf_dir + "/streams-enabled/"@ + name + ".conf"@,
    }
}

impl Nginx {
    /// A configuration tree under the directory.
    pub fn new(conf_dir: &str) -> (r: Nginx)
        ensures
            r.conf_dir@ == conf_dir@,
    {
        Nginx { conf_dir: conf_dir.to_owned() }
    }

    /// The path of a rule's configuration file.
    pub fn gen_conf_path(&self, name: &str, kind: &NginxConfKind) -> (r: String)
        ensures
            r@ == spec_conf_path(self.conf_dir@, name@, *kind),
    {
        let mut s = self.conf_dir.clone();
        match kind {
            NginxConfKind::Site => {
                s.append("/sites-enabled/");
            },
            NginxConfKind::Stream => {
                s.append("/streams-enabled/");
            },
        }
        s.append(name);
        s.append(".conf");
        s
    }

    /// The default site served until a rule takes a name over.
    pub fn default_conf_text(&self) -> (r: String)
        ensures
            r@ == spec_default_conf(),
    {
        String::from_str(
            "server {\n  listen 80 default_server;\n  listen [::]:80 default_server ipv6only=on;\n  server_name _ default_server;\n\n  root /usr/share/nginx/html;\n  try_files $uri $uri/ /index.html;\n  error_page 502 /502.html;\n  error_page 403 /403.html;\n}",
        )
    }
}

/// The text of the default site configuration.
pub open spec fn spec_default_conf() -> Seq<char> {
    "server {\n  listen 80 default_server;\n  listen [::]:80 default_server ipv6only=on;\n  server_name _ default_server;\n\n  root /usr/share/nginx/html;\n  try_files $uri $uri/ /index.html;\n  error_page 502 /502.html;\n  error_page 403 /403.html;\n}"@
}

/// Create a new configuration tree under the directory.
pub fn new(config_path: &str) -> (r: Nginx)
    ensures
        r.conf_dir@ == config_path@,
{
    Nginx::new(config_path)
}

} // verus!
