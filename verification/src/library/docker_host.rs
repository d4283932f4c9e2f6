//! The engine that commands are sent to: where it listens, and how to reach
//! it when that is over SSH.

use vstd::prelude::*;
use vstd::string::StringExecFns;

verus! {

/// `url::ParseError`, which tells why a text is no URL.
#[verifier::external_type_specification]
#[verifier::external_body]
pub struct ExParseError(url::ParseError);

/// The engine that commands are sent to.
#[derive(Clone, Debug, PartialEq, Eq)]
pub struct Host {
    /// How to reach the engine over SSH, where its address asks for that.
    pub ssh: Option<Ssh>,
    /// The address of the engine.
    pub url: String,
}

/// How to reach a host over SSH.
#[derive(Clone, Debug, PartialEq, Eq)]
pub struct Ssh {
    pub hostname: String,
    pub port: Option<u16>,
    pub user: Option<String>,
}

/// How to reach a host over SSH, as contracts speak of it.
pub struct Reach {
    pub hostname: Seq<char>,
    pub port: Option<u16>,
    pub user: Option<Seq<char>>,
}

/// An engine, as contracts speak of it.
pub struct Engine {
    pub ssh: Option<Reach>,
    pub url: Seq<char>,
}

impl View for Ssh {
    type V = Reach;

    open spec fn view(&self) -> Reach {
        Reach {
            hostname: self.hostname@,
            port: self.port,
            user: match self.user {
                Some(user) => Some(user@),
                None => None,
            },
        }
    }
}

impl View for Host {
    type V = Engine;

    open spec fn view(&self) -> Engine {
        Engine {
            ssh: match self.ssh {
                Some(ssh) => Some(ssh@),
                None => None,
            },
            url: self.url@,
        }
    }
}

/// What the environment holds under `DOCKER_HOST`.
#[derive(Clone, Debug, PartialEq, Eq)]
pub enum Variable {
    /// The variable is not set.
    NotPresent,
    /// The variable holds what is not Unicode; `shown` is how to show it.
    NotUnicode { shown: String },
    /// The variable holds this text.
    Present(String),
}

/// Why the engine's address could not be had.
#[derive(Clone, Debug, PartialEq, Eq)]
pub enum HostError {
    /// The environment variable holds what is not Unicode.
    NotUnicode { shown: String },
    /// The address is no URL; `reason` tells what is amiss.
    InvalidUrl { url: String, reason: String },
}

/// What the address of an engine holds, as far as it is read here.
#[derive(Clone, Debug, PartialEq, Eq)]
pub struct UrlParts {
    pub scheme: String,
    pub username: String,
    pub host: Option<String>,
    pub port: Option<u16>,
}

/// The address at which the engine listens unless another is given.
pub open spec fn default_url() -> Seq<char> {
    "unix:///var/run/docker.sock"@
}

/// The address to use: the one that was asked for, else the one in the
/// environment, else the default one.
pub open spec fn effective_url(url_override: Option<String>, environment: Variable) -> Option<
    Seq<char>,
> {
    match url_override {
        Some(url) => Some(url@),
        None => match environment {
            Variable::NotPresent => Some(default_url()),
            Variable::NotUnicode { .. } => None,
            Variable::Present(url) => Some(url@),
        },
    }
}

/// The address to use: the one that was asked for, else the one in the
/// environment, else the default one. Fails where the environment is to
/// decide and holds what is not Unicode.
pub fn get_effective_url(url_override: Option<String>, environment: Variable) -> (outcome: Result<
    String,
    HostError,
>)
    ensures
        match effective_url(url_override, environment) {
            Some(url) => outcome is Ok && outcome->Ok_0@ == url,
            None => outcome is Err && outcome->Err_0 == (HostError::NotUnicode {
                shown: environment->NotUnicode_shown,
            }),
        },
{
    match url_override {
        Some(url) => Ok(url),
        None => match environment {
            Variable::NotPresent => Ok(String::from_str("unix:///var/run/docker.sock")),
            Variable::NotUnicode { shown } => Err(HostError::NotUnicode { shown }),
            Variable::Present(url) => Ok(url),
        },
    }
}

/// Whether `url::Url::parse` takes `text` for an absolute URL.
pub uninterp spec fn is_url(text: Seq<char>) -> bool;

/// What `url::Url::scheme` gives for the URL `text`.
pub uninterp spec fn url_scheme(text: Seq<char>) -> Seq<char>;

/// What `url::Url::username` gives for the URL `text`.
pub uninterp spec fn url_username(text: Seq<char>) -> Seq<char>;

/// What `url::Url::host_str` gives for the URL `text`.
pub uninterp spec fn url_host(text: Seq<char>) -> Option<Seq<char>>;

/// What `url::Url::port` gives for the URL `text`.
pub uninterp spec fn url_port(text: Seq<char>) -> Option<u16>;

/// `url::Url::parse` reads `text` as an absolute URL or tells why it cannot;
/// of a URL, `scheme`, `username`, `host_str` and `port` give the parts.
/// Whether it is a URL, and each part, depends on `text` alone.
#[verifier::external_body]
fn parse_url(text: &str) -> (parsed: Result<UrlParts, url::ParseError>)
    ensures
        parsed is Ok <==> is_url(text@),
        parsed is Ok ==> parsed->Ok_0.scheme@ == url_scheme(text@),
        parsed is Ok ==> parsed->Ok_0.username@ == url_username(text@),
        parsed is Ok ==> parsed->Ok_0.host.deep_view() == url_host(text@),
        parsed is Ok ==> parsed->Ok_0.port == url_port(text@),
{
    let url = url::Url::parse(text)?;
    Ok(
        UrlParts {
            scheme: url.scheme().to_owned(),
            username: url.username().to_owned(),
            host: url.host_str().map(str::to_owned),
            port: url.port(),
        },
    )
}

/// `to_string` of a `url::ParseError` tells in words why a text is no URL.
/// Nothing is claimed of the words.
#[verifier::external_body]
fn explain(error: &url::ParseError) -> String {
    error.to_string()
}

/// The engine at the address `url`, which has the given parts: it is
/// reached over SSH exactly if the scheme is `ssh`, then at the host of the
/// address, or at none if the address names none, at its port, and as its
/// user if it names one.
pub open spec fn engine_at(
    url: Seq<char>,
    scheme: Seq<char>,
    username: Seq<char>,
    host: Option<Seq<char>>,
    port: Option<u16>,
) -> Engine {
    Engine {
        ssh: if scheme == "ssh"@ {
            Some(
                Reach {
                    hostname: match host {
                        Some(name) => name,
                        None => Seq::empty(),
                    },
                    port,
                    user: if username.len() == 0 {
                        None
                    } else {
                        Some(username)
                    },
                },
            )
        } else {
            None
        },
        url,
    }
}

/// The engine at the address `url`, of which `parts` are the parts.
pub fn host_of(url: String, parts: UrlParts) -> (host: Host)
    ensures
        host@ == engine_at(
            url@,
            parts.scheme@,
            parts.username@,
            parts.host.deep_view(),
            parts.port,
        ),
{
    let ssh = if parts.scheme == String::from_str("ssh") {
        let user = if parts.username.as_str().is_empty() {
            None
        } else {
            Some(parts.username)
        };
        let hostname = match parts.host {
            Some(name) => name,
            None => String::new(),
        };
        Some(Ssh { hostname, port: parts.port, user })
    } else {
        None
    };
    Host { ssh, url }
}

/// What `get` gives for the address `url`, if one is to be used.
pub open spec fn got(url: Option<Seq<char>>, outcome: Result<Host, HostError>) -> bool {
    match url {
        None => outcome is Err && outcome->Err_0 is NotUnicode,
        Some(url) => if is_url(url) {
            outcome is Ok && outcome->Ok_0@ == engine_at(
                url,
                url_scheme(url),
                url_username(url),
                url_host(url),
                url_port(url),
            )
        } else {
            &&& outcome is Err
            &&& outcome->Err_0 is InvalidUrl
            &&& outcome->Err_0->InvalidUrl_url@ == url
        },
    }
}

/// The engine to send commands to: the one at the address that was asked
/// for, else at the one in the environment, else at the default one. Fails
/// where the address cannot be had or is no URL.
pub fn get(url_override: Option<String>, environment: Variable) -> (outcome: Result<Host, HostError>)
    ensures
        got(effective_url(url_override, environment), outcome),
{
    match get_effective_url(url_override, environment) {
        Err(error) => Err(error),
        Ok(url) => match parse_url(url.as_str()) {
            Ok(parts) => Ok(host_of(url, parts)),
            Err(error) => Err(HostError::InvalidUrl { url, reason: explain(&error) }),
        },
    }
}

} // verus!
