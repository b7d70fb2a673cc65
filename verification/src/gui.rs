//! Connection state of the graphical client: the form, connecting and
//! disconnecting, the remote session's events, automatic reconnection, and
//! the saved sessions it offers.

use vstd::prelude::*;
use crate::config::{
    copy_config, copy_opt_text, copy_sessions, first_index, has_name, is_first_named,
    lemma_first_named, opt_view, spec_delete, spec_upsert, SessionConfig, SessionManager,
};
use crate::crypto::{can_seal, sealed_text, NONCE_LEN};
use crate::ssh::SshEvent;
use crate::text::{
    append_decimal, concat3, copy_text, decimal_string, lemma_parse_decimal, parse_u16, same_text,
    spec_decimal,
};
use crate::tui::spec_port;
use vstd::string::{StrSliceExecFns, StringExecFns};
use vstd::utf8::encode_utf8;

verus! {

/// The state of the connection.
#[derive(Debug, Clone, Copy, PartialEq, Eq, Structural)]
pub enum ConnState {
    Disconnected,
    Connecting,
    Connected,
}

/// The connection form.
pub struct ConnectionForm {
    pub host: String,
    pub port: String,
    pub username: String,
    pub password: String,
    pub key_file: String,
    pub status: String,
    pub status_error: bool,
}

/// The mathematical form of the connection form.
#[verifier::ext_equal]
pub struct FormView {
    pub host: Seq<char>,
    pub port: Seq<char>,
    pub username: Seq<char>,
    pub password: Seq<char>,
    pub key_file: Seq<char>,
    pub status: Seq<char>,
    pub status_error: bool,
}

impl View for ConnectionForm {
    type V = FormView;

    open spec fn view(&self) -> FormView {
        FormView {
            host: self.host@,
            port: self.port@,
            username: self.username@,
            password: self.password@,
            key_file: self.key_file@,
            status: self.status@,
            status_error: self.status_error,
        }
    }
}

impl Default for ConnectionForm {
    /// An empty form with port 22.
    fn default() -> (res: Self)
        ensures
            res@ == (FormView {
                host: Seq::empty(),
                port: "22"@,
                username: Seq::empty(),
                password: Seq::empty(),
                key_file: Seq::empty(),
                status: Seq::empty(),
                status_error: false,
            }),
    {
        ConnectionForm {
            host: String::new(),
            port: "22".to_owned(),
            username: String::new(),
            password: String::new(),
            key_file: String::new(),
            status: String::new(),
            status_error: false,
        }
    }
}

impl ConnectionForm {
    /// The port in the form, or 22 when it does not parse.
    pub fn port_u16(&self) -> (res: u16)
        ensures
            res == spec_port(self.port@),
    {
        match parse_u16(self.port.as_str()) {
            Some(p) => p,
            None => 22,
        }
    }
}

/// What to connect to.
#[derive(Debug, Clone)]
pub struct ConnectRequest {
    pub host: String,
    pub port: u16,
    pub username: String,
    pub password: Option<String>,
    pub key_file: Option<String>,
}

/// The mathematical form of a connection request.
#[verifier::ext_equal]
pub struct ConnectionView {
    pub host: Seq<char>,
    pub port: u16,
    pub username: Seq<char>,
    pub password: Option<Seq<char>>,
    pub key_file: Option<Seq<char>>,
}

impl View for ConnectRequest {
    type V = ConnectionView;

    open spec fn view(&self) -> ConnectionView {
        ConnectionView {
            host: self.host@,
            port: self.port,
            username: self.username@,
            password: opt_view(self.password),
            key_file: opt_view(self.key_file),
        }
    }
}

/// `None` for an empty text.
pub open spec fn nonempty(s: Seq<char>) -> Option<Seq<char>> {
    if s.len() == 0 {
        None
    } else {
        Some(s)
    }
}

/// The connection the form describes.
pub open spec fn request_of(f: FormView) -> ConnectionView {
    ConnectionView {
        host: f.host,
        port: spec_port(f.port),
        username: f.username,
        password: nonempty(f.password),
        key_file: nonempty(f.key_file),
    }
}

/// The main state of the graphical client.
pub struct RuttyApp {
    pub form: ConnectionForm,
    pub should_close: bool,
    /// Current connection state.
    pub conn_state: ConnState,
    /// Blinking cursor state.
    pub cursor_visible: bool,
    /// The last connection asked for, for reconnecting.
    pub saved_conn: Option<ConnectRequest>,
    pub reconnect_count: u32,
    pub reconnect_max: u32,
    /// "Save session?" prompt.
    pub show_save_prompt: bool,
    pub save_session_name: String,
    pub show_sidebar: bool,
    pub auto_reconnect: bool,
    pub auto_scroll: bool,
    /// New data arrived: scroll to the bottom once.
    pub needs_scroll: bool,
    /// Saved sessions, most recently used first.
    pub saved_sessions: Vec<SessionConfig>,
    /// Currently selected saved session name.
    pub selected_session: String,
    /// The form fields as a saved session filled them in.
    pub loaded_snapshot: Option<(String, String, String, String, String)>,
    /// "Login data changed, save?" prompt.
    pub show_modify_prompt: bool,
}

/// The mathematical form of the client state.
#[verifier::ext_equal]
pub struct GuiView {
    pub form: FormView,
    pub should_close: bool,
    pub conn_state: ConnState,
    pub cursor_visible: bool,
    pub saved_conn: Option<ConnectionView>,
    pub reconnect_count: u32,
    pub reconnect_max: u32,
    pub show_save_prompt: bool,
    pub save_session_name: Seq<char>,
    pub show_sidebar: bool,
    pub auto_reconnect: bool,
    pub auto_scroll: bool,
    pub needs_scroll: bool,
    pub saved_sessions: Seq<SessionConfig>,
    pub selected_session: Seq<char>,
    pub loaded_snapshot: Option<(Seq<char>, Seq<char>, Seq<char>, Seq<char>, Seq<char>)>,
    pub show_modify_prompt: bool,
}

impl View for RuttyApp {
    type V = GuiView;

    open spec fn view(&self) -> GuiView {
        GuiView {
            form: self.form@,
            should_close: self.should_close,
            conn_state: self.conn_state,
            cursor_visible: self.cursor_visible,
            saved_conn: match self.saved_conn {
                Some(c) => Some(c@),
                None => None,
            },
            reconnect_count: self.reconnect_count,
            reconnect_max: self.reconnect_max,
            show_save_prompt: self.show_save_prompt,
            save_session_name: self.save_session_name@,
            show_sidebar: self.show_sidebar,
            auto_reconnect: self.auto_reconnect,
            auto_scroll: self.auto_scroll,
            needs_scroll: self.needs_scroll,
            saved_sessions: self.saved_sessions@,
            selected_session: self.selected_session@,
            loaded_snapshot: match self.loaded_snapshot {
                Some((h, p, u, pw, k)) => Some((h@, p@, u@, pw@, k@)),
                None => None,
            },
            show_modify_prompt: self.show_modify_prompt,
        }
    }
}

/// `g` with the form's status line set.
pub open spec fn with_form_status(g: GuiView, msg: Seq<char>, is_error: bool) -> GuiView {
    GuiView { form: FormView { status: msg, status_error: is_error, ..g.form }, ..g }
}

/// The key file of a saved session as the form shows it.
pub open spec fn key_file_text(c: SessionConfig) -> Seq<char> {
    match opt_view(c.key_file) {
        Some(k) => k,
        None => Seq::empty(),
    }
}

/// The password of a saved session as the form shows it.
pub open spec fn password_text(c: SessionConfig) -> Seq<char> {
    match c.password_view() {
        Some(p) => p,
        None => Seq::empty(),
    }
}

/// `f` filled in from saved session `c`.
pub open spec fn form_from_session(f: FormView, c: SessionConfig) -> FormView {
    FormView {
        host: c.host@,
        port: spec_decimal(c.port as nat),
        username: c.username@,
        key_file: key_file_text(c),
        password: password_text(c),
        ..f
    }
}

/// `s` with `x` placed after every session used at the same time or later.
pub open spec fn insert_by_recency(s: Seq<SessionConfig>, x: SessionConfig) -> Seq<SessionConfig>
    decreases s.len(),
{
    if s.len() == 0 {
        seq![x]
    } else if s.last().last_used >= x.last_used {
        s.push(x)
    } else {
        insert_by_recency(s.drop_last(), x).push(s.last())
    }
}

/// `s` sorted by time of last use, most recent first, keeping the order of
/// sessions used at the same time.
pub open spec fn sort_by_recency(s: Seq<SessionConfig>) -> Seq<SessionConfig>
    decreases s.len(),
{
    if s.len() == 0 {
        s
    } else {
        insert_by_recency(sort_by_recency(s.drop_last()), s.last())
    }
}

/// The message shown while connecting.
pub open spec fn connecting_message(r: ConnectionView) -> Seq<char> {
    "Connecting to "@ + r.username + "@"@ + r.host + ":"@ + spec_decimal(r.port as nat) + "..."@
}

/// Starting a connection with `count` attempts counted: refused without
/// host or username; otherwise the request is remembered for reconnecting
/// and the client is connecting.
pub open spec fn start_step(a: GuiView, b: GuiView, res: Option<ConnectionView>, count: u32) -> bool {
    if a.form.host.len() == 0 || a.form.username.len() == 0 {
        b == with_form_status(a, "Host and username are required"@, true) && res is None
    } else {
        let r = request_of(a.form);
        &&& b == with_form_status(
            GuiView {
                saved_conn: Some(r),
                reconnect_count: count,
                conn_state: ConnState::Connecting,
                ..a
            },
            connecting_message(r),
            false,
        )
        &&& res == Some(r)
    }
}

/// Asking to connect: as `start_step`, with no reconnection attempts
/// counted.
pub open spec fn connect_step(a: GuiView, b: GuiView, res: Option<ConnectionView>) -> bool {
    start_step(a, b, res, 0)
}

/// The status after the connection ended while connecting.
pub open spec fn failed_message(count: u32) -> Seq<char> {
    if count > 0 {
        "Connection failed"@ + " (attempt "@ + spec_decimal(count as nat) + ")"@ + "."@
    } else {
        "Connection failed"@ + "."@
    }
}

/// An event of the remote session. The first data while connecting means
/// the connection is up; the client then offers to save a connection that
/// was not saved yet (`already_saved`), unless it is reconnecting or the
/// offer is already shown. The end of the output or an exit status ends
/// the connection.
pub open spec fn event_step(a: GuiView, event: SshEvent, already_saved: bool, b: GuiView, ended: bool) -> bool {
    match event {
        SshEvent::Data(_) => {
            let up = if a.conn_state == ConnState::Connecting {
                let c = with_form_status(
                    GuiView { conn_state: ConnState::Connected, ..a },
                    "Connected."@,
                    false,
                );
                if a.reconnect_count == 0 && !a.show_save_prompt && !already_saved {
                    GuiView {
                        show_save_prompt: true,
                        save_session_name: a.form.username + "@"@ + a.form.host,
                        ..c
                    }
                } else {
                    c
                }
            } else {
                a
            };
            b == GuiView { needs_scroll: true, ..up } && !ended
        },
        _ => {
            let msg = if a.conn_state == ConnState::Connecting {
                failed_message(a.reconnect_count)
            } else {
                "Connection closed."@
            };
            let err = a.conn_state == ConnState::Connecting;
            b == with_form_status(GuiView { conn_state: ConnState::Disconnected, ..a }, msg, err)
                && ended
        },
    }
}

/// A reconnection is due: enabled, disconnected, a connection to return to,
/// and attempts left.
pub open spec fn spec_reconnect_ready(a: GuiView) -> bool {
    &&& a.auto_reconnect
    &&& a.conn_state == ConnState::Disconnected
    &&& a.saved_conn is Some
    &&& a.reconnect_count < a.reconnect_max
}

/// The attempt number and limit of the automatic reconnection pending in
/// `a`: disconnected, with a connection to return to and attempts left.
pub open spec fn pending_attempt(a: GuiView) -> Option<(u32, u32)> {
    if a.conn_state == ConnState::Disconnected && a.saved_conn is Some && a.reconnect_count
        < a.reconnect_max {
        Some(((a.reconnect_count + 1) as u32, a.reconnect_max))
    } else {
        None
    }
}

/// The client after disconnecting: nothing to return to, no attempts
/// counted, the sidebar hidden, and the status line saying so.
pub open spec fn disconnected(a: GuiView) -> GuiView {
    with_form_status(
        GuiView {
            saved_conn: None,
            conn_state: ConnState::Disconnected,
            reconnect_count: 0,
            show_sidebar: false,
            ..a
        },
        "Disconnected."@,
        false,
    )
}

/// Disconnecting stops automatic reconnection: afterwards none is due and
/// none is pending, and Connect can be used again.
pub proof fn lemma_disconnect_stops_reconnect(a: GuiView)
    ensures
        !spec_reconnect_ready(disconnected(a)),
        pending_attempt(disconnected(a)) is None,
        disconnected(a).conn_state == ConnState::Disconnected,
{
}

/// The next automatic reconnection attempt: nothing when none is due;
/// otherwise the attempt count goes up by one, the form is refilled from
/// the remembered connection, the status announces attempt `n` of the
/// limit, and connecting starts with the count kept.
pub open spec fn reconnect_step(a: GuiView, b: GuiView, res: Option<ConnectionView>) -> bool {
    if !spec_reconnect_ready(a) {
        b == a && res is None
    } else {
        let r = a.saved_conn->0;
        let n = (a.reconnect_count + 1) as u32;
        let mid = with_form_status(
            GuiView { reconnect_count: n, form: form_from_request(a.form, r), ..a },
            "Reconnecting (attempt "@ + spec_decimal(n as nat) + "/"@ + spec_decimal(
                a.reconnect_max as nat,
            ) + ")..."@,
            false,
        );
        start_step(mid, b, res, n)
    }
}

/// Automatic reconnection counts its attempts: attempt `k` leaves the count
/// at `k`, never above the limit, and once the limit is reached no further
/// attempt is due or pending.
pub proof fn lemma_reconnect_counts_attempts(a: GuiView, b: GuiView, res: Option<ConnectionView>)
    requires
        spec_reconnect_ready(a),
        reconnect_step(a, b, res),
    ensures
        b.reconnect_count == a.reconnect_count + 1,
        b.reconnect_count <= b.reconnect_max,
        b.reconnect_max == a.reconnect_max,
        b.reconnect_count == b.reconnect_max ==> !spec_reconnect_ready(b) && pending_attempt(b)
            is None,
{
}

/// Events of the remote session leave the attempt count and its limit
/// alone, so a failed attempt does not give back the attempts used.
pub proof fn lemma_event_keeps_attempts(
    a: GuiView,
    event: SshEvent,
    already_saved: bool,
    b: GuiView,
    ended: bool,
)
    requires
        event_step(a, event, already_saved, b, ended),
    ensures
        b.reconnect_count == a.reconnect_count,
        b.reconnect_max == a.reconnect_max,
        b.saved_conn == a.saved_conn,
        b.auto_reconnect == a.auto_reconnect,
{
}

/// Connecting remembers exactly the request it opens, with host and user
/// name present and no empty password or key file.
pub proof fn lemma_connect_remembers_request(a: GuiView, b: GuiView, res: Option<ConnectionView>)
    requires
        connect_step(a, b, res),
    ensures
        res matches Some(r) ==> {
            &&& b.saved_conn == Some(r)
            &&& r.host == a.form.host && r.username == a.form.username
            &&& r.host.len() > 0 && r.username.len() > 0
            &&& r.password == (if a.form.password.len() == 0 {
                None
            } else {
                Some(a.form.password)
            })
            &&& r.key_file == (if a.form.key_file.len() == 0 {
                None
            } else {
                Some(a.form.key_file)
            })
        },
        res is None ==> b.saved_conn == a.saved_conn,
{
}

/// An automatic reconnection opens the remembered connection: the same
/// host, port, user name, password and key file, and it stays remembered.
pub proof fn lemma_reconnect_reopens_remembered(a: GuiView, b: GuiView, res: Option<ConnectionView>)
    requires
        spec_reconnect_ready(a),
        reconnect_step(a, b, res),
        a.saved_conn matches Some(r) && r.host.len() > 0 && r.username.len() > 0 && !(
        r.password == Some(Seq::<char>::empty())) && !(r.key_file == Some(Seq::<char>::empty())),
    ensures
        res == a.saved_conn,
        b.saved_conn == a.saved_conn,
        b.form.key_file == (match a.saved_conn->0.key_file {
            Some(k) => k,
            None => Seq::<char>::empty(),
        }),
{
    let r = a.saved_conn->0;
    lemma_parse_decimal(r.port);
    let f = form_from_request(a.form, r);
    if let Some(p) = r.password {
        if p.len() == 0 {
            assert(p =~= Seq::<char>::empty());
        }
    }
    if let Some(k) = r.key_file {
        if k.len() == 0 {
            assert(k =~= Seq::<char>::empty());
        }
    }
    assert(request_of(f).password == r.password);
    assert(request_of(f).key_file == r.key_file);
    assert(request_of(f) == r);
}

/// The form refilled from the connection to return to.
pub open spec fn form_from_request(f: FormView, r: ConnectionView) -> FormView {
    FormView {
        host: r.host,
        port: spec_decimal(r.port as nat),
        username: r.username,
        password: match r.password {
            Some(p) => p,
            None => Seq::empty(),
        },
        key_file: match r.key_file {
            Some(k) => k,
            None => Seq::empty(),
        },
        ..f
    }
}

/// `cfg` is the session the form of `a` saves under `a.save_session_name`:
/// its password sealed when there is one and `sealed` says sealing
/// succeeded, and no password otherwise.
pub open spec fn save_config(a: GuiView, cfg: SessionConfig, sealed: bool) -> bool {
    &&& cfg.name@ == a.save_session_name
    &&& cfg.host@ == a.form.host
    &&& cfg.port == spec_port(a.form.port)
    &&& cfg.username@ == a.form.username
    &&& opt_view(cfg.key_file) == nonempty(a.form.key_file)
    &&& cfg.last_used == 0
    &&& if a.form.password.len() == 0 || !sealed {
        cfg.encrypted_password is None
    } else {
        &&& cfg.encrypted_password matches Some(e) && (exists|nonce: Seq<u8>|
            nonce.len() == NONCE_LEN && e@ == #[trigger] sealed_text(
                nonce,
                encode_utf8(a.form.password),
            ))
        &&& cfg.password_view() == Some(a.form.password)
    }
}

/// What the status bar shows.
#[derive(Debug, Clone, PartialEq, Eq)]
pub enum StatusLine {
    /// The countdown to automatic reconnection attempt `.0` of `.1`.
    Reconnecting(u32, u32),
    /// An error message.
    Error(String),
    /// A plain message.
    Info(String),
}

/// What saving the form did.
#[derive(Debug, Clone, Copy, PartialEq, Eq, Structural)]
pub enum SaveRequest {
    /// No session name was given; nothing was saved.
    Unnamed,
    /// The session (with its password sealed, if it has one) was put into
    /// the store, which the caller writes to disk.
    Stored,
    /// The password could not be sealed, so the session was put into the
    /// store without it; the caller writes the store to disk.
    StoredWithoutPassword,
}

fn copy_request(r: &ConnectRequest) -> (res: ConnectRequest)
    ensures
        res@ == r@,
{
    ConnectRequest {
        host: r.host.clone(),
        port: r.port,
        username: r.username.clone(),
        password: copy_opt_text(&r.password),
        key_file: copy_opt_text(&r.key_file),
    }
}

fn text_or_empty(s: &Option<String>) -> (res: String)
    ensures
        res@ == match opt_view(*s) {
            Some(t) => t,
            None => Seq::<char>::empty(),
        },
{
    match s {
        Some(t) => t.clone(),
        None => String::new(),
    }
}

fn nonempty_text(s: &String) -> (res: Option<String>)
    ensures
        opt_view(res) == nonempty(s@),
{
    if s.as_str().unicode_len() == 0 {
        None
    } else {
        Some(s.clone())
    }
}

/// Proof that inserting at the position found from the end is what
/// `insert_by_recency` describes.
proof fn lemma_insert_at(s: Seq<SessionConfig>, x: SessionConfig, j: int)
    requires
        0 <= j <= s.len(),
        forall|k: int| j <= k < s.len() ==> (#[trigger] s[k]).last_used < x.last_used,
        j == 0 || s[j - 1].last_used >= x.last_used,
    ensures
        insert_by_recency(s, x) == s.take(j).push(x) + s.skip(j),
    decreases s.len(),
{
    if s.len() == 0 {
        assert(s.take(j).push(x) + s.skip(j) =~= seq![x]);
    } else if j == s.len() {
        assert(s.take(j).push(x) + s.skip(j) =~= s.push(x));
    } else {
        let t = s.drop_last();
        assert forall|k: int| j <= k < t.len() implies (#[trigger] t[k]).last_used < x.last_used by {
            assert(t[k] == s[k]);
        }
        if j > 0 {
            assert(t[j - 1] == s[j - 1]);
        }
        lemma_insert_at(t, x, j);
        assert((t.take(j).push(x) + t.skip(j)).push(s.last()) =~= s.take(j).push(x) + s.skip(j));
    }
}

/// Sorts saved sessions, most recently used first (stable).
fn sort_sessions(sessions: Vec<SessionConfig>) -> (res: Vec<SessionConfig>)
    ensures
        res@ == sort_by_recency(sessions@),
{
    let mut res: Vec<SessionConfig> = Vec::new();
    let mut rest = sessions;
    let ghost all = rest@;
    let n = rest.len();
    let mut taken: usize = 0;
    while rest.len() > 0
        invariant
            n == all.len(),
            taken + rest@.len() == all.len(),
            rest@ == all.skip(taken as int),
            res@ == sort_by_recency(all.take(taken as int)),
        decreases rest@.len(),
    {
        let x = rest.remove(0);
        let mut j = res.len();
        while j > 0 && res[j - 1].last_used < x.last_used
            invariant
                j <= res@.len(),
                forall|k: int| j <= k < res@.len() ==> (#[trigger] res@[k]).last_used < x.last_used,
            decreases j,
        {
            j = j - 1;
        }
        proof {
            lemma_insert_at(res@, x, j as int);
            assert(all.take(taken + 1).drop_last() =~= all.take(taken as int));
            assert(all.take(taken + 1).last() == x);
        }
        res.insert(j, x);
        assert(res@ =~= sort_by_recency(all.take(taken + 1)));
        taken = taken + 1;
        assert(rest@ =~= all.skip(taken as int));
    }
    assert(all.take(all.len() as int) =~= all);
    res
}

impl RuttyApp {
    /// The client at start: disconnected, the saved sessions sorted most
    /// recently used first, and the form filled from the first of them.
    pub fn new(sessions: Vec<SessionConfig>) -> (res: Self)
        ensures
            res@.saved_sessions == sort_by_recency(sessions@),
            res@.conn_state == ConnState::Disconnected,
            res@.saved_conn is None,
            res@.reconnect_count == 0,
            res@.reconnect_max == 5,
            res@.cursor_visible,
            res@.auto_reconnect,
            res@.auto_scroll,
            !res@.should_close && !res@.show_save_prompt && !res@.show_sidebar,
            !res@.needs_scroll && !res@.show_modify_prompt,
            res@.save_session_name == Seq::<char>::empty(),
            res@.loaded_snapshot is None,
            res@.form.status == Seq::<char>::empty(),
            !res@.form.status_error,
            sort_by_recency(sessions@).len() == 0 ==> {
                &&& res@.form.host == Seq::<char>::empty()
                &&& res@.form.port == "22"@
                &&& res@.form.username == Seq::<char>::empty()
                &&& res@.form.password == Seq::<char>::empty()
                &&& res@.form.key_file == Seq::<char>::empty()
                &&& res@.selected_session == Seq::<char>::empty()
            },
            sort_by_recency(sessions@).len() > 0 ==> {
                let c = sort_by_recency(sessions@)[0];
                &&& res@.form == form_from_session(res@.form, c)
                &&& res@.selected_session == c.name@
            },
    {
        let sorted = sort_sessions(sessions);
        let mut app = RuttyApp {
            form: ConnectionForm::default(),
            should_close: false,
            conn_state: ConnState::Disconnected,
            cursor_visible: true,
            saved_conn: None,
            reconnect_count: 0,
            reconnect_max: 5,
            show_save_prompt: false,
            save_session_name: String::new(),
            show_sidebar: false,
            auto_reconnect: true,
            auto_scroll: true,
            needs_scroll: false,
            saved_sessions: sorted,
            selected_session: String::new(),
            loaded_snapshot: None,
            show_modify_prompt: false,
        };
        if app.saved_sessions.len() > 0 {
            let cfg = copy_config(&app.saved_sessions[0]);
            app.form.host = cfg.host.clone();
            app.form.port = decimal_string(cfg.port as u64);
            app.form.username = cfg.username.clone();
            app.form.key_file = text_or_empty(&cfg.key_file);
            app.form.password = text_or_empty(&cfg.password());
            app.selected_session = cfg.name.clone();
        }
        app
    }

    /// Whether Connect can be used now.
    pub fn can_connect(&self) -> (res: bool)
        ensures
            res == (self@.conn_state == ConnState::Disconnected),
    {
        matches!(self.conn_state, ConnState::Disconnected)
    }

    /// Whether Disconnect can be used now.
    pub fn can_disconnect(&self) -> (res: bool)
        ensures
            res == (self@.conn_state != ConnState::Disconnected),
    {
        matches!(self.conn_state, ConnState::Connected | ConnState::Connecting)
    }

    /// Fills the form from the first saved session named `name`, selects it,
    /// and remembers the filled-in fields; nothing changes when there is no
    /// such session.
    pub fn apply_session(&mut self, name: &str)
        ensures
            !has_name(old(self)@.saved_sessions, name@) ==> final(self)@ == old(self)@,
            has_name(old(self)@.saved_sessions, name@) ==> {
                let c = old(self)@.saved_sessions[first_index(old(self)@.saved_sessions, name@)];
                let f = form_from_session(old(self)@.form, c);
                final(self)@ == GuiView {
                    form: f,
                    selected_session: name@,
                    loaded_snapshot: Some((f.host, f.port, f.username, f.password, f.key_file)),
                    ..old(self)@
                }
            },
    {
        proof {
            lemma_first_named(self@.saved_sessions, name@);
        }
        let mut i: usize = 0;
        let mut found = false;
        while i < self.saved_sessions.len()
            invariant
                i <= self.saved_sessions@.len(),
                forall|j: int| 0 <= j < i ==> (#[trigger] self.saved_sessions@[j]).name@ != name@,
                found ==> i < self.saved_sessions@.len() && self.saved_sessions@[i as int].name@
                    == name@,
            ensures
                i <= self.saved_sessions@.len(),
                forall|j: int| 0 <= j < i ==> (#[trigger] self.saved_sessions@[j]).name@ != name@,
                found ==> i < self.saved_sessions@.len() && self.saved_sessions@[i as int].name@
                    == name@,
                !found ==> i == self.saved_sessions@.len(),
            decreases self.saved_sessions@.len() - i, (if found { 0int } else { 1int }),
        {
            if same_text(self.saved_sessions[i].name.as_str(), name) {
                found = true;
                break;
            }
            i = i + 1;
        }
        if !found {
            return ;
        }
        assert(is_first_named(self@.saved_sessions, name@, i as int));
        let cfg = copy_config(&self.saved_sessions[i]);
        self.form.host = cfg.host.clone();
        self.form.port = decimal_string(cfg.port as u64);
        self.form.username = cfg.username.clone();
        self.form.key_file = text_or_empty(&cfg.key_file);
        self.form.password = text_or_empty(&cfg.password());
        self.selected_session = copy_text(name);
        self.loaded_snapshot = Some(
            (
                self.form.host.clone(),
                self.form.port.clone(),
                self.form.username.clone(),
                self.form.password.clone(),
                self.form.key_file.clone(),
            ),
        );
        assert(self@ =~= GuiView {
            form: form_from_session(old(self)@.form, cfg),
            selected_session: name@,
            loaded_snapshot: self@.loaded_snapshot,
            ..old(self)@
        });
    }

    /// Whether the form differs from the fields a saved session filled in.
    pub fn is_form_modified(&self) -> (res: bool)
        ensures
            res == match self@.loaded_snapshot {
                Some((h, p, u, pw, k)) => self@.form.host != h || self@.form.port != p
                    || self@.form.username != u || self@.form.password != pw
                    || self@.form.key_file != k,
                None => false,
            },
    {
        match &self.loaded_snapshot {
            Some((h, p, u, pw, k)) => {
                !same_text(self.form.host.as_str(), h.as_str()) || !same_text(
                    self.form.port.as_str(),
                    p.as_str(),
                ) || !same_text(self.form.username.as_str(), u.as_str()) || !same_text(
                    self.form.password.as_str(),
                    pw.as_str(),
                ) || !same_text(self.form.key_file.as_str(), k.as_str())
            },
            None => false,
        }
    }

    /// Deletes the saved sessions named `name` from `mgr` (which the caller
    /// then writes to disk), forgetting it as the last used, shows what
    /// remains, and clears the form when the deleted session was the
    /// selected one.
    pub fn delete_session(&mut self, name: &str, mgr: &mut SessionManager)
        ensures
            final(mgr).entries() == spec_delete(old(mgr).entries(), name@),
            final(mgr).last() == (if opt_view(old(mgr).last()) == Some(name@) {
                None
            } else {
                old(mgr).last()
            }),
            final(self)@ == (if old(self)@.selected_session == name@ {
                GuiView {
                    saved_sessions: final(mgr).entries(),
                    selected_session: Seq::empty(),
                    form: FormView {
                        host: Seq::empty(),
                        port: "22"@,
                        username: Seq::empty(),
                        password: Seq::empty(),
                        key_file: Seq::empty(),
                        ..old(self)@.form
                    },
                    ..old(self)@
                }
            } else {
                GuiView { saved_sessions: final(mgr).entries(), ..old(self)@ }
            }),
    {
        mgr.delete(name);
        self.saved_sessions = copy_sessions(mgr.sessions());
        if same_text(self.selected_session.as_str(), name) {
            self.selected_session = String::new();
            self.form.host = String::new();
            self.form.port = "22".to_owned();
            self.form.username = String::new();
            self.form.password = String::new();
            self.form.key_file = String::new();
        }
        assert(self@ =~= (if old(self)@.selected_session == name@ {
            GuiView {
                saved_sessions: mgr.entries(),
                selected_session: Seq::empty(),
                form: FormView {
                    host: Seq::empty(),
                    port: "22"@,
                    username: Seq::empty(),
                    password: Seq::empty(),
                    key_file: Seq::empty(),
                    ..old(self)@.form
                },
                ..old(self)@
            }
        } else {
            GuiView { saved_sessions: mgr.entries(), ..old(self)@ }
        }));
    }

    /// Starts connecting with the form's parameters, with `count`
    /// reconnection attempts counted.
    fn start_connection(&mut self, count: u32) -> (res: Option<ConnectRequest>)
        ensures
            start_step(
                old(self)@,
                final(self)@,
                match res {
                    Some(r) => Some(r@),
                    None => None,
                },
                count,
            ),
    {
        let host = self.form.host.clone();
        let port = self.form.port_u16();
        let username = self.form.username.clone();
        let password = nonempty_text(&self.form.password);
        let key_file = nonempty_text(&self.form.key_file);
        if host.as_str().unicode_len() == 0 || username.as_str().unicode_len() == 0 {
            self.form.status = "Host and username are required".to_owned();
            self.form.status_error = true;
            assert(self@ =~= with_form_status(old(self)@, "Host and username are required"@, true));
            return None;
        }
        let request = ConnectRequest { host, port, username, password, key_file };
        self.saved_conn = Some(copy_request(&request));
        self.reconnect_count = count;
        let mut msg = concat3("Connecting to ", request.username.as_str(), "@");
        msg.append(request.host.as_str());
        msg.append(":");
        append_decimal(port as u64, &mut msg);
        msg.append("...");
        self.form.status = msg;
        self.form.status_error = false;
        self.conn_state = ConnState::Connecting;
        assert(self@ =~= with_form_status(
            GuiView {
                saved_conn: Some(request_of(old(self)@.form)),
                reconnect_count: count,
                conn_state: ConnState::Connecting,
                ..old(self)@
            },
            connecting_message(request_of(old(self)@.form)),
            false,
        ));
        Some(request)
    }

    /// Asks to connect with the form's parameters; on success the caller
    /// opens the connection described by the result.
    pub fn connect(&mut self) -> (res: Option<ConnectRequest>)
        ensures
            connect_step(
                old(self)@,
                final(self)@,
                match res {
                    Some(r) => Some(r@),
                    None => None,
                },
            ),
    {
        self.start_connection(0)
    }

    /// Disconnects and stops reconnecting; the caller drops the session.
    pub fn disconnect(&mut self)
        ensures
            final(self)@ == disconnected(old(self)@),
    {
        self.saved_conn = None;
        self.conn_state = ConnState::Disconnected;
        self.reconnect_count = 0;
        self.show_sidebar = false;
        self.form.status = "Disconnected.".to_owned();
        self.form.status_error = false;
        assert(self@ =~= with_form_status(
            GuiView {
                saved_conn: None,
                conn_state: ConnState::Disconnected,
                reconnect_count: 0,
                show_sidebar: false,
                ..old(self)@
            },
            "Disconnected."@,
            false,
        ));
    }

    /// Whether the next data event would offer to save the connection, so
    /// that the caller must tell whether it is saved already.
    pub fn needs_saved_check(&self) -> (res: bool)
        ensures
            res == (self@.conn_state == ConnState::Connecting && self@.reconnect_count == 0
                && !self@.show_save_prompt),
    {
        matches!(self.conn_state, ConnState::Connecting) && self.reconnect_count == 0
            && !self.show_save_prompt
    }

    /// Takes an event of the remote session (the caller keeps the data for
    /// the terminal). Returns whether the connection ended.
    pub fn on_ssh_event(&mut self, event: &SshEvent, already_saved: bool) -> (ended: bool)
        ensures
            event_step(old(self)@, *event, already_saved, final(self)@, ended),
    {
        match event {
            SshEvent::Data(_) => {
                if matches!(self.conn_state, ConnState::Connecting) {
                    self.conn_state = ConnState::Connected;
                    self.form.status = "Connected.".to_owned();
                    self.form.status_error = false;
                    if self.reconnect_count == 0 && !self.show_save_prompt && !already_saved {
                        self.show_save_prompt = true;
                        self.save_session_name = concat3(
                            self.form.username.as_str(),
                            "@",
                            self.form.host.as_str(),
                        );
                    }
                }
                self.needs_scroll = true;
                proof {
                    let a = old(self)@;
                    if a.conn_state == ConnState::Connecting {
                        let c = with_form_status(
                            GuiView { conn_state: ConnState::Connected, ..a },
                            "Connected."@,
                            false,
                        );
                        if a.reconnect_count == 0 && !a.show_save_prompt && !already_saved {
                            assert(self@ =~= GuiView {
                                needs_scroll: true,
                                ..GuiView {
                                    show_save_prompt: true,
                                    save_session_name: a.form.username + "@"@ + a.form.host,
                                    ..c
                                }
                            });
                        } else {
                            assert(self@ =~= GuiView { needs_scroll: true, ..c });
                        }
                    } else {
                        assert(self@ =~= GuiView { needs_scroll: true, ..a });
                    }
                }
                false
            },
            _ => {
                if matches!(self.conn_state, ConnState::Connecting) {
                    let mut msg = "Connection failed".to_owned();
                    if self.reconnect_count > 0 {
                        msg.append(" (attempt ");
                        append_decimal(self.reconnect_count as u64, &mut msg);
                        msg.append(")");
                    }
                    msg.append(".");
                    self.form.status = msg;
                    self.form.status_error = true;
                } else {
                    self.form.status = "Connection closed.".to_owned();
                    self.form.status_error = false;
                }
                let ghost a = old(self)@;
                self.conn_state = ConnState::Disconnected;
                assert(self@ =~= with_form_status(
                    GuiView { conn_state: ConnState::Disconnected, ..a },
                    if a.conn_state == ConnState::Connecting {
                        failed_message(a.reconnect_count)
                    } else {
                        "Connection closed."@
                    },
                    a.conn_state == ConnState::Connecting,
                ));
                true
            },
        }
    }

    /// Whether an automatic reconnection is due (once its delay ran out).
    pub fn reconnect_ready(&self) -> (res: bool)
        ensures
            res == spec_reconnect_ready(self@),
    {
        self.auto_reconnect && matches!(self.conn_state, ConnState::Disconnected)
            && self.saved_conn.is_some() && self.reconnect_count < self.reconnect_max
    }

    /// Starts the next automatic reconnection attempt when one is due: the
    /// form is refilled from the remembered connection and connecting
    /// starts again. Nothing changes when none is due.
    pub fn begin_reconnect(&mut self) -> (res: Option<ConnectRequest>)
        ensures
            reconnect_step(
                old(self)@,
                final(self)@,
                match res {
                    Some(q) => Some(q@),
                    None => None,
                },
            ),
    {
        if !self.reconnect_ready() {
            return None;
        }
        let sc = match &self.saved_conn {
            Some(c) => copy_request(c),
            None => {
                return None;
            },
        };
        self.reconnect_count = self.reconnect_count + 1;
        self.form.host = sc.host.clone();
        self.form.port = decimal_string(sc.port as u64);
        self.form.username = sc.username.clone();
        self.form.password = text_or_empty(&sc.password);
        self.form.key_file = text_or_empty(&sc.key_file);
        let mut msg = "Reconnecting (attempt ".to_owned();
        append_decimal(self.reconnect_count as u64, &mut msg);
        msg.append("/");
        append_decimal(self.reconnect_max as u64, &mut msg);
        msg.append(")...");
        self.form.status = msg;
        self.form.status_error = false;
        proof {
            let r = old(self)@.saved_conn->0;
            let n = (old(self)@.reconnect_count + 1) as u32;
            assert(self@ =~= with_form_status(
                GuiView {
                    reconnect_count: n,
                    form: form_from_request(old(self)@.form, r),
                    ..old(self)@
                },
                "Reconnecting (attempt "@ + spec_decimal(n as nat) + "/"@ + spec_decimal(
                    old(self)@.reconnect_max as nat,
                ) + ")..."@,
                false,
            ));
        }
        self.start_connection(self.reconnect_count)
    }

    /// The attempt number and the attempt limit of the next automatic
    /// reconnection, while one is pending.
    pub fn reconnect_attempt(&self) -> (res: Option<(u32, u32)>)
        ensures
            res == pending_attempt(self@),
    {
        if matches!(self.conn_state, ConnState::Disconnected) && self.saved_conn.is_some()
            && self.reconnect_count < self.reconnect_max {
            Some((self.reconnect_count + 1, self.reconnect_max))
        } else {
            None
        }
    }

    /// What the status bar shows: a pending automatic reconnection first,
    /// then the form's status (as an error when flagged so), else `Ready`.
    pub fn status_line(&self) -> (res: StatusLine)
        ensures
            match pending_attempt(self@) {
                Some((k, m)) => res == StatusLine::Reconnecting(k, m),
                None => if self@.form.status.len() == 0 {
                    res matches StatusLine::Info(t) && t@ == "Ready"@
                } else if self@.form.status_error {
                    res matches StatusLine::Error(t) && t@ == self@.form.status
                } else {
                    res matches StatusLine::Info(t) && t@ == self@.form.status
                },
            },
    {
        match self.reconnect_attempt() {
            Some((k, m)) => StatusLine::Reconnecting(k, m),
            None => {
                if self.form.status.as_str().unicode_len() == 0 {
                    StatusLine::Info("Ready".to_owned())
                } else if self.form.status_error {
                    StatusLine::Error(self.form.status.clone())
                } else {
                    StatusLine::Info(self.form.status.clone())
                }
            },
        }
    }

    /// Connects, unless a selected saved session was modified in the form:
    /// then it asks whether to save the changes first.
    pub fn try_connect(&mut self) -> (res: Option<ConnectRequest>)
        ensures
            ({
                let a = old(self)@;
                let modified = match a.loaded_snapshot {
                    Some((h, p, u, pw, k)) => a.form.host != h || a.form.port != p
                        || a.form.username != u || a.form.password != pw || a.form.key_file != k,
                    None => false,
                };
                if a.selected_session.len() > 0 && modified {
                    final(self)@ == GuiView { show_modify_prompt: true, ..a } && res is None
                } else {
                    connect_step(
                        a,
                        final(self)@,
                        match res {
                            Some(r) => Some(r@),
                            None => None,
                        },
                    )
                }
            }),
    {
        if self.selected_session.as_str().unicode_len() > 0 && self.is_form_modified() {
            self.show_modify_prompt = true;
            assert(self@ =~= GuiView { show_modify_prompt: true, ..old(self)@ });
            None
        } else {
            self.connect()
        }
    }

    /// Puts the form into `mgr` as a saved session named
    /// `save_session_name`, with its password sealed when there is one.
    /// When the password cannot be sealed (no random nonce, or too long to
    /// seal) the session is stored without it. Nothing changes when no name
    /// is given; otherwise the caller writes `mgr` to disk and reports with
    /// `finish_save_session`.
    pub fn save_session(&mut self, mgr: &mut SessionManager) -> (res: SaveRequest)
        ensures
            final(self)@ == old(self)@,
            (res == SaveRequest::Unnamed) == (old(self)@.save_session_name.len() == 0),
            res == SaveRequest::Unnamed ==> final(mgr).entries() == old(mgr).entries(),
            res == SaveRequest::StoredWithoutPassword ==> old(self)@.form.password.len() > 0,
            res == SaveRequest::Stored ==> exists|cfg: SessionConfig|
                #[trigger] save_config(old(self)@, cfg, true) && final(mgr).entries()
                    == spec_upsert(old(mgr).entries(), cfg),
            res == SaveRequest::StoredWithoutPassword ==> exists|cfg: SessionConfig|
                #[trigger] save_config(old(self)@, cfg, false) && final(mgr).entries()
                    == spec_upsert(old(mgr).entries(), cfg),
            final(mgr).last() == old(mgr).last(),
    {
        if self.save_session_name.as_str().unicode_len() == 0 {
            return SaveRequest::Unnamed;
        }
        let mut cfg = SessionConfig {
            name: self.save_session_name.clone(),
            host: self.form.host.clone(),
            port: self.form.port_u16(),
            username: self.form.username.clone(),
            key_file: nonempty_text(&self.form.key_file),
            encrypted_password: None,
            last_used: 0,
        };
        let mut sealed = true;
        if self.form.password.as_str().unicode_len() > 0 {
            let plain = self.form.password.as_str();
            if can_seal(plain.as_bytes().len()) {
                sealed = cfg.set_password(plain);
            } else {
                sealed = false;
            }
        }
        let ghost g = cfg;
        assert(save_config(old(self)@, g, sealed));
        mgr.upsert(cfg);
        if sealed {
            SaveRequest::Stored
        } else {
            SaveRequest::StoredWithoutPassword
        }
    }

    /// Reports how writing the saved sessions went: on success the list of
    /// saved sessions is refreshed from `mgr` and the new one selected. The
    /// save prompt closes either way.
    pub fn finish_save_session(&mut self, mgr: &SessionManager, outcome: Result<(), String>)
        ensures
            final(self)@ == (match outcome {
                Ok(()) => with_form_status(
                    GuiView {
                        saved_sessions: mgr.entries(),
                        selected_session: old(self)@.save_session_name,
                        show_save_prompt: false,
                        ..old(self)@
                    },
                    "Session '"@ + old(self)@.save_session_name + "' saved."@,
                    false,
                ),
                Err(e) => with_form_status(
                    GuiView { show_save_prompt: false, ..old(self)@ },
                    "Save failed: "@ + e@ + ""@,
                    true,
                ),
            }),
    {
        match outcome {
            Ok(()) => {
                self.form.status = concat3("Session '", self.save_session_name.as_str(), "' saved.");
                self.form.status_error = false;
                self.saved_sessions = copy_sessions(mgr.sessions());
                self.selected_session = self.save_session_name.clone();
            },
            Err(e) => {
                self.form.status = concat3("Save failed: ", e.as_str(), "");
                self.form.status_error = true;
            },
        }
        self.show_save_prompt = false;
        assert(self@ =~= (match outcome {
            Ok(()) => with_form_status(
                GuiView {
                    saved_sessions: mgr.entries(),
                    selected_session: old(self)@.save_session_name,
                    show_save_prompt: false,
                    ..old(self)@
                },
                "Session '"@ + old(self)@.save_session_name + "' saved."@,
                false,
            ),
            Err(e) => with_form_status(
                GuiView { show_save_prompt: false, ..old(self)@ },
                "Save failed: "@ + e@ + ""@,
                true,
            ),
        }));
    }

    /// Reports that the saved sessions could not be read.
    pub fn report_load_failure(&mut self, err: &str)
        ensures
            final(self)@ == with_form_status(old(self)@, "Failed to load sessions: "@ + err@ + ""@, true),
    {
        self.form.status = concat3("Failed to load sessions: ", err, "");
        self.form.status_error = true;
        assert(self@ =~= with_form_status(
            old(self)@,
            "Failed to load sessions: "@ + err@ + ""@,
            true,
        ));
    }
}

} // verus!
