//! Where to connect, from the command line: a saved session, a
//! `user@host[:port]` destination, or explicit options; otherwise the
//! connection dialog decides.

use vstd::prelude::*;
use crate::config::{opt_view, spec_find, SessionManager};
use crate::gui::{ConnectRequest, ConnectionView};
use crate::text::{
    copy_text, find_first, find_last, first_index_of, last_index_of, parse_u16_checked,
    spec_parse_u16, spec_parse_u16_error, IntErrorKind,
};
use crate::config::copy_opt_text;
use vstd::string::StrSliceExecFns;

verus! {

/// The command-line options.
pub struct Cli {
    /// Remote host name or address.
    pub host: Option<String>,
    /// SSH port.
    pub port: u16,
    /// User name for authentication.
    pub username: Option<String>,
    /// Password.
    pub password: Option<String>,
    /// Path of a private key file.
    pub key_file: Option<String>,
    /// Name of a saved session to use.
    pub session: Option<String>,
    /// `user@host[:port]`.
    pub destination: Option<String>,
}

/// The mathematical form of the command-line options.
pub struct CliView {
    pub host: Option<Seq<char>>,
    pub port: u16,
    pub username: Option<Seq<char>>,
    pub password: Option<Seq<char>>,
    pub key_file: Option<Seq<char>>,
    pub session: Option<Seq<char>>,
    pub destination: Option<Seq<char>>,
}

impl View for Cli {
    type V = CliView;

    open spec fn view(&self) -> CliView {
        CliView {
            host: opt_view(self.host),
            port: self.port,
            username: opt_view(self.username),
            password: opt_view(self.password),
            key_file: opt_view(self.key_file),
            session: opt_view(self.session),
            destination: opt_view(self.destination),
        }
    }
}

/// Why the command line names no usable connection.
#[derive(Debug, Clone)]
pub enum ResolveError {
    /// No saved session has this name.
    SessionNotFound(String),
    /// The port of the destination is not a number from 0 to 65535.
    InvalidPort(IntErrorKind),
}

/// The mathematical form of a resolution error.
pub enum ResolveErrorView {
    SessionNotFound(Seq<char>),
    InvalidPort(IntErrorKind),
}

impl ResolveError {
    /// The mathematical form of this error.
    pub open spec fn view(&self) -> ResolveErrorView {
        match self {
            ResolveError::SessionNotFound(n) => ResolveErrorView::SessionNotFound(n@),
            ResolveError::InvalidPort(k) => ResolveErrorView::InvalidPort(*k),
        }
    }

    /// The message the client prints for this error.
    pub fn message(&self) -> (res: String)
        ensures
            res@ == match self@ {
                ResolveErrorView::SessionNotFound(n) => "Session '"@ + n + "' not found"@,
                ResolveErrorView::InvalidPort(IntErrorKind::Empty) =>
                    "cannot parse integer from empty string"@,
                ResolveErrorView::InvalidPort(IntErrorKind::InvalidDigit) =>
                    "invalid digit found in string"@,
                ResolveErrorView::InvalidPort(IntErrorKind::PosOverflow) =>
                    "number too large to fit in target type"@,
            },
    {
        match self {
            ResolveError::SessionNotFound(n) => crate::text::concat3(
                "Session '",
                n.as_str(),
                "' not found",
            ),
            ResolveError::InvalidPort(k) => k.message().to_owned(),
        }
    }
}

/// Where the command line says to connect: explicit arguments (a
/// `user@host[:port]` destination, then `--host`) come before a saved
/// session (`--session`); `Ok(None)` when none is given, and the connection
/// dialog must ask. `default_user` is the name of the local user, for when
/// no user name is given.
pub open spec fn spec_resolve(
    cli: CliView,
    sessions: Seq<crate::config::SessionConfig>,
    default_user: Seq<char>,
) -> Result<Option<ConnectionView>, ResolveErrorView> {
    if cli.destination is Some {
        let dest = cli.destination->0;
        let colon = last_index_of(dest, ':');
        let user_host = match colon {
            Some(i) => dest.take(i),
            None => dest,
        };
        let port_text = match colon {
            Some(i) => dest.skip(i + 1),
            None => Seq::empty(),
        };
        if colon is Some && spec_parse_u16(port_text) is None {
            Err(ResolveErrorView::InvalidPort(spec_parse_u16_error(port_text)))
        } else {
            let at = first_index_of(user_host, '@');
            let user = match at {
                Some(j) => user_host.take(j),
                None => match cli.username {
                    Some(u) => u,
                    None => default_user,
                },
            };
            let host = match at {
                Some(j) => user_host.skip(j + 1),
                None => user_host,
            };
            let port = match colon {
                Some(_) => spec_parse_u16(port_text)->0,
                None => if cli.port != 22 {
                    cli.port
                } else {
                    22
                },
            };
            Ok(
                Some(
                    ConnectionView {
                        host,
                        port,
                        username: match cli.username {
                            Some(u) => u,
                            None => user,
                        },
                        password: cli.password,
                        key_file: cli.key_file,
                    },
                ),
            )
        }
    } else if cli.host is Some {
        Ok(
            Some(
                ConnectionView {
                    host: cli.host->0,
                    port: cli.port,
                    username: match cli.username {
                        Some(u) => u,
                        None => default_user,
                    },
                    password: cli.password,
                    key_file: cli.key_file,
                },
            ),
        )
    } else if cli.session is Some {
        let name = cli.session->0;
        match spec_find(sessions, name) {
            Some(c) => Ok(
                Some(
                    ConnectionView {
                        host: c.host@,
                        port: c.port,
                        username: c.username@,
                        password: None,
                        key_file: opt_view(c.key_file),
                    },
                ),
            ),
            None => Err(ResolveErrorView::SessionNotFound(name)),
        }
    } else {
        Ok(None)
    }
}

/// Explicit connection arguments come before a saved session: with a
/// destination or a host given, the saved sessions are not consulted, and a
/// given host is the one connected to.
pub proof fn lemma_explicit_arguments_win(
    cli: CliView,
    s1: Seq<crate::config::SessionConfig>,
    s2: Seq<crate::config::SessionConfig>,
    user: Seq<char>,
)
    requires
        cli.destination is Some || cli.host is Some,
    ensures
        spec_resolve(cli, s1, user) == spec_resolve(cli, s2, user),
        cli.destination is None ==> (spec_resolve(cli, s1, user) matches Ok(Some(v)) && v.host
            == cli.host->0),
{
}

/// Options given on the command line are kept when it names a destination
/// or a host: the connection uses the given key file and password, and the
/// given user name when there is one. Only a bad destination port is an
/// error there.
pub proof fn lemma_options_carried(
    cli: CliView,
    sessions: Seq<crate::config::SessionConfig>,
    user: Seq<char>,
)
    requires
        cli.destination is Some || cli.host is Some,
    ensures
        spec_resolve(cli, sessions, user) is Err ==> cli.destination is Some
            && spec_resolve(cli, sessions, user)->Err_0 is InvalidPort,
        spec_resolve(cli, sessions, user) is Ok ==> (spec_resolve(cli, sessions, user)
            matches Ok(Some(v)) && v.key_file == cli.key_file && v.password == cli.password
            && (cli.username matches Some(u) ==> v.username == u)),
{
}

/// The view of a resolution.
pub open spec fn resolution_view(r: Result<Option<ConnectRequest>, ResolveError>) -> Result<
    Option<ConnectionView>,
    ResolveErrorView,
> {
    match r {
        Ok(Some(c)) => Ok(Some(c@)),
        Ok(None) => Ok(None),
        Err(e) => Err(e@),
    }
}

/// `whoami::username`: the name of the user running the client. It depends
/// on the environment; nothing is claimed of it.
#[verifier::external_body]
fn current_username() -> (res: String) {
    whoami::username()
}

/// Resolves where to connect, with `default_user` as the local user name:
/// a `user@host[:port]` destination first, then `--host`, then a saved
/// session (`--session`).
pub fn resolve_with_default_user(cli: &Cli, sessions: &SessionManager, default_user: &str) -> (res:
    Result<Option<ConnectRequest>, ResolveError>)
    ensures
        resolution_view(res) == spec_resolve(cli@, sessions.entries(), default_user@),
{
    if let Some(dest) = &cli.destination {
        let d = dest.as_str();
        let n = d.unicode_len();
        let colon = find_last(d, ':');
        let (user_host, dest_port) = match colon {
            Some(i) => {
                let port_text = d.substring_char(i + 1, n);
                match parse_u16_checked(port_text) {
                    Ok(p) => (d.substring_char(0, i), Some(p)),
                    Err(e) => {
                        return Err(ResolveError::InvalidPort(e));
                    },
                }
            },
            None => (d, None),
        };
        let m = user_host.unicode_len();
        let (user, host) = match find_first(user_host, '@') {
            Some(j) => (copy_text(user_host.substring_char(0, j)), copy_text(
                user_host.substring_char(j + 1, m),
            )),
            None => (
                match &cli.username {
                    Some(u) => u.clone(),
                    None => copy_text(default_user),
                },
                copy_text(user_host),
            ),
        };
        let port = match dest_port {
            Some(p) => p,
            None => if cli.port != 22 {
                cli.port
            } else {
                22
            },
        };
        let username = match &cli.username {
            Some(u) => u.clone(),
            None => user,
        };
        let res = ConnectRequest {
            host,
            port,
            username,
            password: copy_opt_text(&cli.password),
            key_file: copy_opt_text(&cli.key_file),
        };
        proof {
            if colon is Some {
                assert(d@.take(colon->0 as int) =~= d@.subrange(0, colon->0 as int));
                assert(d@.skip(colon->0 + 1) =~= d@.subrange(colon->0 + 1, n as int));
            }
            if first_index_of(user_host@, '@') is Some {
                let j = first_index_of(user_host@, '@')->0;
                assert(user_host@.take(j) =~= user_host@.subrange(0, j));
                assert(user_host@.skip(j + 1) =~= user_host@.subrange(j + 1, m as int));
            }
        }
        return Ok(Some(res));
    }
    if let Some(host) = &cli.host {
        let username = match &cli.username {
            Some(u) => u.clone(),
            None => copy_text(default_user),
        };
        return Ok(
            Some(
                ConnectRequest {
                    host: host.clone(),
                    port: cli.port,
                    username,
                    password: copy_opt_text(&cli.password),
                    key_file: copy_opt_text(&cli.key_file),
                },
            ),
        );
    }
    if let Some(name) = &cli.session {
        return match sessions.find(name.as_str()) {
            Some(c) => Ok(
                Some(
                    ConnectRequest {
                        host: c.host.clone(),
                        port: c.port,
                        username: c.username.clone(),
                        password: None,
                        key_file: copy_opt_text(&c.key_file),
                    },
                ),
            ),
            None => Err(ResolveError::SessionNotFound(name.clone())),
        };
    }
    Ok(None)
}

/// Resolves where to connect, taking the local user name from the system
/// when no user name is given.
pub fn resolve_connection_params(cli: &Cli, sessions: &SessionManager) -> (res: Result<
    Option<ConnectRequest>,
    ResolveError,
>)
    ensures
        exists|user: Seq<char>|
            resolution_view(res) == #[trigger] spec_resolve(cli@, sessions.entries(), user),
{
    let user = current_username();
    resolve_with_default_user(cli, sessions, user.as_str())
}

} // verus!
