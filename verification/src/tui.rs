//! State of the terminal connection dialog and its key handling.

use vstd::prelude::*;
use crate::config::{
    first_index, has_name, lemma_delete_unique_len, lemma_first_named, lemma_upsert_then_find,
    names_unique, opt_view, spec_delete, spec_find, spec_upsert, SessionConfig, SessionManager,
};
use crate::keys::{KeyCode, KeyEvent, KeyEventKind};
use crate::text::{
    all_digits, concat3, copy_text, decimal_string, is_digit, lemma_decimal_digits,
    lemma_parse_decimal, parse_u16, pop_char, push_char, spec_decimal, spec_parse_u16,
};
use vstd::utf8::encode_utf8;

verus! {

/// Which screen the dialog shows.
#[derive(Debug, Clone, Copy, PartialEq, Eq, Structural)]
pub enum Screen {
    ConnectionDialog,
    SessionList,
}

/// The editable fields of the connection dialog.
#[derive(Debug, Clone, Copy, PartialEq, Eq, Structural)]
pub enum Field {
    Host,
    Port,
    Username,
    Password,
    KeyFile,
    SessionName,
}

/// Outcome of the dialog.
#[derive(Debug, Clone)]
pub enum DialogResult {
    /// Connect with these parameters.
    Connect {
        host: String,
        port: u16,
        username: String,
        password: String,
        key_file: Option<String>,
    },
    /// Quit without connecting.
    Quit,
}

/// The mathematical form of a dialog outcome.
pub enum DialogResultView {
    Connect {
        host: Seq<char>,
        port: u16,
        username: Seq<char>,
        password: Seq<char>,
        key_file: Option<Seq<char>>,
    },
    Quit,
}

impl View for DialogResult {
    type V = DialogResultView;

    open spec fn view(&self) -> DialogResultView {
        match self {
            DialogResult::Connect { host, port, username, password, key_file } =>
                DialogResultView::Connect {
                host: host@,
                port: *port,
                username: username@,
                password: password@,
                key_file: opt_view(*key_file),
            },
            DialogResult::Quit => DialogResultView::Quit,
        }
    }
}

/// A change of the saved sessions that the caller must write to disk.
#[derive(Debug, Clone)]
pub enum Persist {
    /// The current form was stored under its session name.
    SaveSession,
    /// The named session was removed.
    DeleteSession(String),
}

/// What a key press asks of the caller.
#[derive(Debug, Clone)]
pub enum KeyOutcome {
    /// Keep running the dialog.
    Continue,
    /// Leave the dialog; `result` says how.
    Exit,
    /// Write the saved sessions to disk, then report with `finish_persist`.
    Persist(Persist),
}

/// State of the connection dialog.
pub struct App {
    pub screen: Screen,
    pub field: Field,
    pub host: String,
    pub port_str: String,
    pub username: String,
    pub password: String,
    pub key_file: String,
    pub session_name: String,
    pub sessions: SessionManager,
    pub session_list_index: usize,
    pub status_msg: String,
    pub status_is_error: bool,
    pub result: Option<DialogResult>,
}

/// The mathematical form of the dialog state.
#[verifier::ext_equal]
pub struct AppView {
    pub screen: Screen,
    pub field: Field,
    pub host: Seq<char>,
    pub port_str: Seq<char>,
    pub username: Seq<char>,
    pub password: Seq<char>,
    pub key_file: Seq<char>,
    pub session_name: Seq<char>,
    pub sessions: Seq<SessionConfig>,
    pub last_session: Option<Seq<char>>,
    pub session_list_index: usize,
    pub status_msg: Seq<char>,
    pub status_is_error: bool,
    pub result: Option<DialogResultView>,
}

impl View for App {
    type V = AppView;

    open spec fn view(&self) -> AppView {
        AppView {
            screen: self.screen,
            field: self.field,
            host: self.host@,
            port_str: self.port_str@,
            username: self.username@,
            password: self.password@,
            key_file: self.key_file@,
            session_name: self.session_name@,
            sessions: self.sessions.entries(),
            last_session: opt_view(self.sessions.last()),
            session_list_index: self.session_list_index,
            status_msg: self.status_msg@,
            status_is_error: self.status_is_error,
            result: match self.result {
                Some(r) => Some(r@),
                None => None,
            },
        }
    }
}

/// The field after `f` in the focus order.
pub open spec fn next_of(f: Field) -> Field {
    match f {
        Field::Host => Field::Port,
        Field::Port => Field::Username,
        Field::Username => Field::Password,
        Field::Password => Field::KeyFile,
        Field::KeyFile => Field::SessionName,
        Field::SessionName => Field::Host,
    }
}

/// The field before `f` in the focus order.
pub open spec fn prev_of(f: Field) -> Field {
    match f {
        Field::Host => Field::SessionName,
        Field::SessionName => Field::KeyFile,
        Field::KeyFile => Field::Password,
        Field::Password => Field::Username,
        Field::Username => Field::Port,
        Field::Port => Field::Host,
    }
}

/// The text of field `f`.
pub open spec fn field_text(a: AppView, f: Field) -> Seq<char> {
    match f {
        Field::Host => a.host,
        Field::Port => a.port_str,
        Field::Username => a.username,
        Field::Password => a.password,
        Field::KeyFile => a.key_file,
        Field::SessionName => a.session_name,
    }
}

/// `a` with the text of field `f` replaced by `t`.
pub open spec fn with_field_text(a: AppView, f: Field, t: Seq<char>) -> AppView {
    match f {
        Field::Host => AppView { host: t, ..a },
        Field::Port => AppView { port_str: t, ..a },
        Field::Username => AppView { username: t, ..a },
        Field::Password => AppView { password: t, ..a },
        Field::KeyFile => AppView { key_file: t, ..a },
        Field::SessionName => AppView { session_name: t, ..a },
    }
}

/// `t` without its last character, if it has one.
pub open spec fn drop_last_char(t: Seq<char>) -> Seq<char> {
    if t.len() > 0 {
        t.drop_last()
    } else {
        t
    }
}

/// The port the form holds: its text parsed, or 22 when that fails.
pub open spec fn spec_port(port_str: Seq<char>) -> u16 {
    match spec_parse_u16(port_str) {
        Some(p) => p,
        None => 22,
    }
}

/// The optional key file the form holds: none when the field is empty.
pub open spec fn key_file_opt(key_file: Seq<char>) -> Option<Seq<char>> {
    if key_file.len() == 0 {
        None
    } else {
        Some(key_file)
    }
}

/// `a` with the status line cleared (the error flag stays as it was).
pub open spec fn cleared(a: AppView) -> AppView {
    AppView { status_msg: Seq::empty(), ..a }
}

/// `a` with the status line set.
pub open spec fn with_status(a: AppView, msg: Seq<char>, is_error: bool) -> AppView {
    AppView { status_msg: msg, status_is_error: is_error, ..a }
}

/// `cfg` is the session that the form of `a` describes.
pub open spec fn form_config(a: AppView, cfg: SessionConfig) -> bool {
    &&& cfg.name@ == a.session_name
    &&& cfg.host@ == a.host
    &&& cfg.port == spec_port(a.port_str)
    &&& cfg.username@ == a.username
    &&& opt_view(cfg.key_file) == key_file_opt(a.key_file)
    &&& cfg.encrypted_password is None
    &&& cfg.last_used == 0
}

/// Saving the form: refused without a session name, otherwise the form is
/// stored under its name and must be written to disk.
pub open spec fn save_step(a: AppView, b: AppView, out: KeyOutcome) -> bool {
    if a.session_name.len() == 0 {
        b == with_status(a, "Session name is required to save"@, true) && out is Continue
    } else {
        &&& exists|cfg: SessionConfig|
            #[trigger] form_config(a, cfg) && b == AppView {
                sessions: spec_upsert(a.sessions, cfg),
                ..a
            }
        &&& out matches KeyOutcome::Persist(Persist::SaveSession)
    }
}

/// Loading saved session `i` into the form, when there is one.
pub open spec fn load_step(a: AppView, i: int, b: AppView) -> bool {
    if 0 <= i < a.sessions.len() {
        let s = a.sessions[i];
        b == AppView {
            host: s.host@,
            port_str: spec_decimal(s.port as nat),
            username: s.username@,
            key_file: match s.key_file {
                Some(k) => k@,
                None => Seq::empty(),
            },
            session_name: s.name@,
            screen: Screen::ConnectionDialog,
            status_msg: "Loaded session '"@ + s.name@ + "'"@,
            status_is_error: false,
            ..a
        }
    } else {
        b == a
    }
}

/// Removing the selected session, when there is one; it must then be
/// written to disk.
pub open spec fn delete_step(a: AppView, b: AppView, out: KeyOutcome) -> bool {
    if a.session_list_index < a.sessions.len() {
        let name = a.sessions[a.session_list_index as int].name@;
        &&& b == AppView {
            sessions: spec_delete(a.sessions, name),
            last_session: if a.last_session == Some(name) {
                None
            } else {
                a.last_session
            },
            ..a
        }
        &&& out matches KeyOutcome::Persist(Persist::DeleteSession(n)) && n@ == name
    } else {
        b == a && out is Continue
    }
}

/// The selection once a removal is written: moved back by one when it fell
/// off the end of a list of `len` sessions.
pub open spec fn index_after_delete(i: usize, len: nat) -> usize {
    if i >= len && i > 0 {
        (i - 1) as usize
    } else {
        i
    }
}

/// A key press on the connection form.
pub open spec fn connection_key_step(a: AppView, key: KeyEvent, b: AppView, out: KeyOutcome) -> bool {
    let c = cleared(a);
    match key.code {
        KeyCode::Esc => b == AppView { result: Some(DialogResultView::Quit), ..c } && out is Exit,
        KeyCode::Tab => b == AppView { field: next_of(a.field), ..c } && out is Continue,
        KeyCode::BackTab => b == AppView { field: prev_of(a.field), ..c } && out is Continue,
        KeyCode::Enter => if a.host.len() == 0 {
            b == with_status(c, "Hostname is required"@, true) && out is Continue
        } else if a.username.len() == 0 {
            b == with_status(c, "Username is required"@, true) && out is Continue
        } else {
            &&& b == AppView {
                result: Some(
                    DialogResultView::Connect {
                        host: a.host,
                        port: spec_port(a.port_str),
                        username: a.username,
                        password: a.password,
                        key_file: key_file_opt(a.key_file),
                    },
                ),
                ..c
            }
            &&& out is Exit
        },
        KeyCode::Backspace => b == with_field_text(c, a.field, drop_last_char(field_text(a, a.field)))
            && out is Continue,
        KeyCode::Char(ch) => if ch == 's' && key.modifiers.control {
            save_step(c, b, out)
        } else if ch == 'l' && key.modifiers.control {
            b == AppView { screen: Screen::SessionList, ..c } && out is Continue
        } else if a.field == Field::Port && !('0' <= ch && ch <= '9') {
            b == c && out is Continue
        } else {
            b == with_field_text(c, a.field, field_text(a, a.field).push(ch)) && out is Continue
        },
        _ => b == c && out is Continue,
    }
}

/// A key press on the list of saved sessions.
pub open spec fn session_list_key_step(a: AppView, key: KeyEvent, b: AppView, out: KeyOutcome) -> bool {
    let c = cleared(a);
    let count = a.sessions.len();
    let i = a.session_list_index;
    if key.code == KeyCode::Esc {
        b == AppView { screen: Screen::ConnectionDialog, ..c } && out is Continue
    } else if key.code == KeyCode::Up || key.code == KeyCode::Char('k') {
        &&& b == (if count > 0 {
            AppView { session_list_index: if i > 0 { (i - 1) as usize } else { 0 }, ..c }
        } else {
            c
        })
        &&& out is Continue
    } else if key.code == KeyCode::Down || key.code == KeyCode::Char('j') {
        &&& b == (if count > 0 {
            AppView {
                session_list_index: if i + 1 < count - 1 { (i + 1) as usize } else { (count - 1) as usize },
                ..c
            }
        } else {
            c
        })
        &&& out is Continue
    } else if key.code == KeyCode::Enter {
        load_step(c, i as int, b) && out is Continue
    } else if key.code == KeyCode::Delete || key.code == KeyCode::Char('d') {
        if count > 0 {
            delete_step(c, b, out)
        } else {
            b == c && out is Continue
        }
    } else {
        b == c && out is Continue
    }
}

/// A key press in the dialog: releases change nothing; otherwise the key
/// acts on the screen shown.
pub open spec fn key_step(a: AppView, key: KeyEvent, b: AppView, out: KeyOutcome) -> bool {
    if key.kind == KeyEventKind::Release {
        b == a && out is Continue
    } else if a.screen == Screen::ConnectionDialog {
        connection_key_step(a, key, b, out)
    } else {
        session_list_key_step(a, key, b, out)
    }
}

/// The text a form field shows: its value followed by a cursor mark when
/// focused, a space otherwise; `(empty)` for an empty field without focus.
pub open spec fn spec_field_display(value: Seq<char>, focused: bool) -> Seq<char> {
    if value.len() == 0 && !focused {
        "(empty)"@
    } else if focused {
        value.push('\u{258c}')
    } else {
        value.push(' ')
    }
}

/// A password masked for display: one `*` per byte of its UTF-8 encoding.
pub open spec fn spec_mask(s: Seq<char>) -> Seq<char> {
    Seq::new(encode_utf8(s).len(), |i: int| '*')
}

/// The text shown for a form field.
pub fn field_display(value: &str, focused: bool) -> (res: String)
    ensures
        res@ == spec_field_display(value@, focused),
{
    if value.unicode_len() == 0 && !focused {
        return "(empty)".to_owned();
    }
    let mut s = copy_text(value);
    if focused {
        push_char(&mut s, '\u{258c}');
    } else {
        push_char(&mut s, ' ');
    }
    s
}

/// Masks a password string for display.
pub fn mask_str(s: &str) -> (res: String)
    ensures
        res@ == spec_mask(s@),
{
    let n = s.as_bytes().len();
    let mut out = String::new();
    let mut i: usize = 0;
    while i < n
        invariant
            i <= n,
            n == encode_utf8(s@).len(),
            out@ =~= Seq::new(i as nat, |k: int| '*'),
        decreases n - i,
    {
        push_char(&mut out, '*');
        i = i + 1;
    }
    out
}

impl App {
    /// A dialog on the empty form, with `sessions` as the saved sessions.
    pub fn new(sessions: SessionManager) -> (res: Self)
        ensures
            res@ == (AppView {
                screen: Screen::ConnectionDialog,
                field: Field::Host,
                host: Seq::empty(),
                port_str: "22"@,
                username: Seq::empty(),
                password: Seq::empty(),
                key_file: Seq::empty(),
                session_name: Seq::empty(),
                sessions: sessions.entries(),
                last_session: opt_view(sessions.last()),
                session_list_index: 0,
                status_msg: Seq::empty(),
                status_is_error: false,
                result: None,
            }),
    {
        App {
            screen: Screen::ConnectionDialog,
            field: Field::Host,
            host: String::new(),
            port_str: "22".to_owned(),
            username: String::new(),
            password: String::new(),
            key_file: String::new(),
            session_name: String::new(),
            sessions,
            session_list_index: 0,
            status_msg: String::new(),
            status_is_error: false,
            result: None,
        }
    }

    /// The port in the form, or 22 when it does not parse.
    pub fn port(&self) -> (res: u16)
        ensures
            res == spec_port(self.port_str@),
    {
        match parse_u16(self.port_str.as_str()) {
            Some(p) => p,
            None => 22,
        }
    }

    /// Sets the status line.
    pub fn set_status(&mut self, msg: &str, is_error: bool)
        ensures
            final(self)@ == with_status(old(self)@, msg@, is_error),
    {
        self.status_msg = copy_text(msg);
        self.status_is_error = is_error;
        assert(self@ =~= with_status(old(self)@, msg@, is_error));
    }

    /// Clears the status line.
    pub fn clear_status(&mut self)
        ensures
            final(self)@ == cleared(old(self)@),
    {
        self.status_msg = String::new();
        assert(self@ =~= cleared(old(self)@));
    }

    /// Moves focus to the next field.
    pub fn next_field(&mut self)
        ensures
            final(self)@ == (AppView { field: next_of(old(self).field), ..old(self)@ }),
    {
        self.field = match self.field {
            Field::Host => Field::Port,
            Field::Port => Field::Username,
            Field::Username => Field::Password,
            Field::Password => Field::KeyFile,
            Field::KeyFile => Field::SessionName,
            Field::SessionName => Field::Host,
        };
        assert(self@ =~= AppView { field: next_of(old(self).field), ..old(self)@ });
    }

    /// Moves focus to the previous field.
    pub fn prev_field(&mut self)
        ensures
            final(self)@ == (AppView { field: prev_of(old(self).field), ..old(self)@ }),
    {
        self.field = match self.field {
            Field::Host => Field::SessionName,
            Field::SessionName => Field::KeyFile,
            Field::KeyFile => Field::Password,
            Field::Password => Field::Username,
            Field::Username => Field::Port,
            Field::Port => Field::Host,
        };
        assert(self@ =~= AppView { field: prev_of(old(self).field), ..old(self)@ });
    }

    /// Fills the form from saved session `index`, when there is one.
    pub fn load_session(&mut self, index: usize)
        ensures
            load_step(old(self)@, index as int, final(self)@),
    {
        if index < self.sessions.sessions().len() {
            let s = &self.sessions.sessions()[index];
            let host = s.host.clone();
            let port_str = decimal_string(s.port as u64);
            let username = s.username.clone();
            let key_file = match &s.key_file {
                Some(k) => k.clone(),
                None => String::new(),
            };
            let name = s.name.clone();
            let msg = concat3("Loaded session '", name.as_str(), "'");
            self.host = host;
            self.port_str = port_str;
            self.username = username;
            self.key_file = key_file;
            self.session_name = name;
            self.screen = Screen::ConnectionDialog;
            self.status_msg = msg;
            self.status_is_error = false;
            assert(self@ =~= AppView {
                host: self@.host,
                port_str: self@.port_str,
                username: self@.username,
                key_file: self@.key_file,
                session_name: self@.session_name,
                screen: Screen::ConnectionDialog,
                status_msg: self@.status_msg,
                status_is_error: false,
                ..old(self)@
            });
        }
    }

    /// Stores the form as a saved session under its session name; the
    /// store must then be written to disk. Without a session name only the
    /// status line changes and nothing is to be written.
    pub fn save_current_session(&mut self) -> (res: KeyOutcome)
        ensures
            save_step(old(self)@, final(self)@, res),
    {
        if self.session_name.as_str().unicode_len() == 0 {
            self.set_status("Session name is required to save", true);
            return KeyOutcome::Continue;
        }
        let key_file = if self.key_file.as_str().unicode_len() == 0 {
            None
        } else {
            Some(self.key_file.clone())
        };
        let cfg = SessionConfig {
            name: self.session_name.clone(),
            host: self.host.clone(),
            port: self.port(),
            username: self.username.clone(),
            key_file,
            encrypted_password: None,
            last_used: 0,
        };
        let ghost g = cfg;
        assert(form_config(old(self)@, g));
        self.sessions.upsert(cfg);
        assert(self@ =~= AppView { sessions: spec_upsert(old(self)@.sessions, g), ..old(self)@ });
        KeyOutcome::Persist(Persist::SaveSession)
    }

    /// Removes the selected saved session, when there is one; the store must
    /// then be written to disk.
    pub fn delete_selected_session(&mut self) -> (res: KeyOutcome)
        ensures
            delete_step(old(self)@, final(self)@, res),
    {
        if self.session_list_index < self.sessions.sessions().len() {
            let name = self.sessions.sessions()[self.session_list_index].name.clone();
            self.sessions.delete(name.as_str());
            assert(self@ =~= AppView {
                sessions: spec_delete(old(self)@.sessions, name@),
                last_session: if old(self)@.last_session == Some(name@) {
                    None
                } else {
                    old(self)@.last_session
                },
                ..old(self)@
            });
            KeyOutcome::Persist(Persist::DeleteSession(name))
        } else {
            KeyOutcome::Continue
        }
    }

    /// Reports how writing the saved sessions to disk went, on the status
    /// line; after a removal the selection moves back when it fell off the
    /// end of the list.
    pub fn finish_persist(&mut self, change: &Persist, outcome: Result<(), String>)
        ensures
            match (change, outcome) {
                (Persist::SaveSession, Ok(())) => final(self)@ == with_status(
                    old(self)@,
                    "Session '"@ + old(self)@.session_name + "' saved"@,
                    false,
                ),
                (Persist::SaveSession, Err(e)) => final(self)@ == with_status(
                    old(self)@,
                    "Save failed: "@ + e@ + ""@,
                    true,
                ),
                (Persist::DeleteSession(_), Err(e)) => final(self)@ == with_status(
                    old(self)@,
                    "Delete failed: "@ + e@ + ""@,
                    true,
                ),
                (Persist::DeleteSession(name), Ok(())) => final(self)@ == with_status(
                    AppView {
                        session_list_index: index_after_delete(
                            old(self).session_list_index,
                            old(self)@.sessions.len(),
                        ),
                        ..old(self)@
                    },
                    "Deleted session '"@ + name@ + "'"@,
                    false,
                ),
            },
    {
        match change {
            Persist::SaveSession => match outcome {
                Ok(()) => {
                    let msg = concat3("Session '", self.session_name.as_str(), "' saved");
                    self.set_status(msg.as_str(), false);
                },
                Err(e) => {
                    let msg = concat3("Save failed: ", e.as_str(), "");
                    self.set_status(msg.as_str(), true);
                },
            },
            Persist::DeleteSession(name) => match outcome {
                Err(e) => {
                    let msg = concat3("Delete failed: ", e.as_str(), "");
                    self.set_status(msg.as_str(), true);
                },
                Ok(()) => {
                    if self.session_list_index >= self.sessions.sessions().len() {
                        self.session_list_index = if self.session_list_index > 0 {
                            self.session_list_index - 1
                        } else {
                            0
                        };
                    }
                    let msg = concat3("Deleted session '", name.as_str(), "'");
                    self.set_status(msg.as_str(), false);
                },
            },
        }
    }

    /// The text of the focused field with its last character removed.
    fn pop_focused(&mut self)
        ensures
            final(self)@ == with_field_text(
                old(self)@,
                old(self).field,
                drop_last_char(field_text(old(self)@, old(self).field)),
            ),
    {
        match self.field {
            Field::Host => pop_char(&mut self.host),
            Field::Port => pop_char(&mut self.port_str),
            Field::Username => pop_char(&mut self.username),
            Field::Password => pop_char(&mut self.password),
            Field::KeyFile => pop_char(&mut self.key_file),
            Field::SessionName => pop_char(&mut self.session_name),
        }
        assert(self@ =~= with_field_text(
            old(self)@,
            old(self).field,
            drop_last_char(field_text(old(self)@, old(self).field)),
        ));
    }

    /// Appends a character to the focused field.
    fn push_focused(&mut self, c: char)
        ensures
            final(self)@ == with_field_text(
                old(self)@,
                old(self).field,
                field_text(old(self)@, old(self).field).push(c),
            ),
    {
        match self.field {
            Field::Host => push_char(&mut self.host, c),
            Field::Port => push_char(&mut self.port_str, c),
            Field::Username => push_char(&mut self.username, c),
            Field::Password => push_char(&mut self.password, c),
            Field::KeyFile => push_char(&mut self.key_file, c),
            Field::SessionName => push_char(&mut self.session_name, c),
        }
        assert(self@ =~= with_field_text(
            old(self)@,
            old(self).field,
            field_text(old(self)@, old(self).field).push(c),
        ));
    }
}

/// Handles a key press in the dialog: key releases do nothing; otherwise
/// the key acts on the screen shown.
pub fn handle_key(app: &mut App, key: KeyEvent) -> (res: KeyOutcome)
    ensures
        key_step(old(app)@, key, final(app)@, res),
{
    if matches!(key.kind, KeyEventKind::Release) {
        return KeyOutcome::Continue;
    }
    match app.screen {
        Screen::ConnectionDialog => handle_connection_key(app, key),
        Screen::SessionList => handle_session_list_key(app, key),
    }
}

fn handle_connection_key(app: &mut App, key: KeyEvent) -> (res: KeyOutcome)
    ensures
        connection_key_step(old(app)@, key, final(app)@, res),
{
    app.clear_status();
    let ghost c = app@;
    match key.code {
        KeyCode::Esc => {
            app.result = Some(DialogResult::Quit);
            assert(app@ =~= AppView { result: Some(DialogResultView::Quit), ..c });
            return KeyOutcome::Exit;
        },
        KeyCode::Tab => app.next_field(),
        KeyCode::BackTab => app.prev_field(),
        KeyCode::Enter => {
            if app.host.as_str().unicode_len() == 0 {
                app.set_status("Hostname is required", true);
            } else if app.username.as_str().unicode_len() == 0 {
                app.set_status("Username is required", true);
            } else {
                let key_file = if app.key_file.as_str().unicode_len() == 0 {
                    None
                } else {
                    Some(app.key_file.clone())
                };
                let port = app.port();
                app.result = Some(
                    DialogResult::Connect {
                        host: app.host.clone(),
                        port,
                        username: app.username.clone(),
                        password: app.password.clone(),
                        key_file,
                    },
                );
                assert(app@ =~= AppView {
                    result: Some(
                        DialogResultView::Connect {
                            host: c.host,
                            port: spec_port(c.port_str),
                            username: c.username,
                            password: c.password,
                            key_file: key_file_opt(c.key_file),
                        },
                    ),
                    ..c
                });
                return KeyOutcome::Exit;
            }
        },
        KeyCode::Backspace => app.pop_focused(),
        KeyCode::Char(ch) => {
            if ch == 's' && key.modifiers.control {
                return app.save_current_session();
            } else if ch == 'l' && key.modifiers.control {
                app.screen = Screen::SessionList;
                assert(app@ =~= AppView { screen: Screen::SessionList, ..c });
            } else if matches!(app.field, Field::Port) && !('0' <= ch && ch <= '9') {
                return KeyOutcome::Continue;
            } else {
                app.push_focused(ch);
            }
        },
        _ => {},
    }
    KeyOutcome::Continue
}

fn handle_session_list_key(app: &mut App, key: KeyEvent) -> (res: KeyOutcome)
    ensures
        session_list_key_step(old(app)@, key, final(app)@, res),
{
    app.clear_status();
    let ghost c = app@;
    let count = app.sessions.sessions().len();
    match key.code {
        KeyCode::Esc => {
            app.screen = Screen::ConnectionDialog;
            assert(app@ =~= AppView { screen: Screen::ConnectionDialog, ..c });
        },
        KeyCode::Up | KeyCode::Char('k') => {
            if count > 0 {
                app.session_list_index = if app.session_list_index > 0 {
                    app.session_list_index - 1
                } else {
                    0
                };
                assert(app@ =~= AppView { session_list_index: app.session_list_index, ..c });
            }
        },
        KeyCode::Down | KeyCode::Char('j') => {
            if count > 0 {
                app.session_list_index = if app.session_list_index < count - 1 {
                    app.session_list_index + 1
                } else {
                    count - 1
                };
                assert(app@ =~= AppView { session_list_index: app.session_list_index, ..c });
            }
        },
        KeyCode::Enter => {
            let i = app.session_list_index;
            app.load_session(i);
        },
        KeyCode::Delete | KeyCode::Char('d') => {
            if count > 0 {
                return app.delete_selected_session();
            }
        },
        _ => {},
    }
    KeyOutcome::Continue
}

/// Moving focus forward then back (or back then forward) returns to the
/// same field, and six moves forward visit every field and come back.
pub proof fn lemma_field_cycle(f: Field)
    ensures
        prev_of(next_of(f)) == f,
        next_of(prev_of(f)) == f,
        next_of(next_of(next_of(next_of(next_of(next_of(f)))))) == f,
{
}

/// The port field holds only digits: it starts as `22`, and no key press
/// puts anything else into it.
pub proof fn lemma_port_stays_digits(a: AppView, key: KeyEvent, b: AppView, out: KeyOutcome)
    requires
        all_digits(a.port_str),
        key_step(a, key, b, out),
    ensures
        all_digits(b.port_str),
        all_digits("22"@),
{
    reveal_strlit("22");
    assert(is_digit("22"@[0]) && is_digit("22"@[1]));
    if key.kind != KeyEventKind::Release {
        if a.screen == Screen::ConnectionDialog {
            match key.code {
                KeyCode::Backspace => {
                    if a.field == Field::Port && a.port_str.len() > 0 {
                        let t = a.port_str.drop_last();
                        assert forall|i: int| 0 <= i < t.len() implies is_digit(#[trigger] t[i]) by {
                            assert(t[i] == a.port_str[i]);
                        }
                    }
                },
                KeyCode::Char(ch) => {
                    if a.field == Field::Port && '0' <= ch && ch <= '9' {
                        let t = a.port_str.push(ch);
                        assert forall|i: int| 0 <= i < t.len() implies is_digit(#[trigger] t[i]) by {
                            if i < a.port_str.len() {
                                assert(t[i] == a.port_str[i]);
                            }
                        }
                    }
                },
                _ => {},
            }
        } else {
            let i = a.session_list_index as int;
            if key.code == KeyCode::Enter && 0 <= i < a.sessions.len() {
                lemma_decimal_digits(a.sessions[i].port as nat);
            }
        }
    }
}

/// With distinct session names, removing the selected session and writing
/// the store leaves the selection inside the list (or the list empty).
pub proof fn lemma_delete_keeps_selection(a: AppView, b: AppView, out: KeyOutcome)
    requires
        names_unique(a.sessions),
        a.session_list_index < a.sessions.len(),
        delete_step(a, b, out),
    ensures
        b.sessions.len() == a.sessions.len() - 1,
        b.session_list_index == a.session_list_index,
        b.sessions.len() == 0 || index_after_delete(b.session_list_index, b.sessions.len())
            < b.sessions.len(),
{
    let name = a.sessions[a.session_list_index as int].name@;
    assert(has_name(a.sessions, name));
    lemma_delete_unique_len(a.sessions, name);
}

/// With distinct session names, a key press on the session list keeps the
/// selection inside the list: at once, or, after a removal, once the store
/// is written (`finish_persist`).
pub proof fn lemma_session_list_keeps_selection(a: AppView, key: KeyEvent, b: AppView, out: KeyOutcome)
    requires
        names_unique(a.sessions),
        a.sessions.len() == 0 || a.session_list_index < a.sessions.len(),
        session_list_key_step(a, key, b, out),
    ensures
        out matches KeyOutcome::Persist(Persist::DeleteSession(_)) ==> (b.sessions.len() == 0
            || index_after_delete(b.session_list_index, b.sessions.len()) < b.sessions.len()),
        !(out is Persist) ==> (b.sessions.len() == 0 || b.session_list_index < b.sessions.len()),
{
    let c = cleared(a);
    if (key.code == KeyCode::Delete || key.code == KeyCode::Char('d')) && a.sessions.len() > 0 {
        lemma_delete_keeps_selection(c, b, out);
    }
}

/// Enter on the connection form with a host and a user name leaves the
/// dialog asking to connect with what the form holds: its host, user name
/// and password, its port when that parses (22 otherwise), and its key file exactly when
/// the key-file field is not empty.
pub proof fn lemma_enter_connects_with_form(a: AppView, key: KeyEvent, b: AppView, out: KeyOutcome)
    requires
        key_step(a, key, b, out),
        key.kind != KeyEventKind::Release,
        a.screen == Screen::ConnectionDialog,
        key.code == KeyCode::Enter,
        a.host.len() > 0,
        a.username.len() > 0,
    ensures
        out is Exit,
        b.result matches Some(DialogResultView::Connect { host, port, username, password, key_file })
            && host == a.host && username == a.username && password == a.password && (
        spec_parse_u16(a.port_str) matches Some(p) ==> port == p) && (spec_parse_u16(a.port_str)
            is None ==> port == 22) && (a.key_file.len() > 0
            ==> key_file == Some(a.key_file)) && (a.key_file.len() == 0 ==> key_file is None),
{
}

/// Loading a saved session puts its port in the form: the port field then
/// parses to that port.
pub proof fn lemma_load_restores_port(a: AppView, i: int, b: AppView)
    requires
        0 <= i < a.sessions.len(),
        load_step(a, i, b),
    ensures
        spec_port(b.port_str) == a.sessions[i].port,
{
    lemma_parse_decimal(a.sessions[i].port);
}

/// Saving the form under its session name and then loading that session
/// gives back the same host, port, username, key file and session name.
pub proof fn lemma_save_then_load(a: AppView, b: AppView, out: KeyOutcome, d: AppView)
    requires
        a.session_name.len() > 0,
        save_step(a, b, out),
        load_step(b, first_index(b.sessions, a.session_name), d),
    ensures
        d.host == a.host,
        d.username == a.username,
        d.key_file == a.key_file,
        d.session_name == a.session_name,
        spec_port(d.port_str) == spec_port(a.port_str),
{
    let cfg = choose|cfg: SessionConfig|
        #[trigger] form_config(a, cfg) && b == AppView { sessions: spec_upsert(a.sessions, cfg), ..a };
    lemma_upsert_then_find(a.sessions, cfg);
    lemma_first_named(b.sessions, a.session_name);
    let k = first_index(b.sessions, a.session_name);
    assert(spec_find(b.sessions, a.session_name) == Some(cfg));
    assert(b.sessions[k] == cfg);
    lemma_parse_decimal(cfg.port);
    if a.key_file.len() == 0 {
        assert(d.key_file =~= a.key_file);
    }
}

/// What the dialog's outcome asks for: the connection to open (with the
/// typed password), or none when the user quit.
pub fn dialog_connection(result: &Option<DialogResult>) -> (res: Option<crate::gui::ConnectRequest>)
    ensures
        match result {
            Some(DialogResult::Connect { host, port, username, password, key_file }) => res
                matches Some(r) && r@ == (crate::gui::ConnectionView {
                host: host@,
                port: *port,
                username: username@,
                password: Some(password@),
                key_file: opt_view(*key_file),
            }),
            _ => res is None,
        },
{
    match result {
        Some(DialogResult::Connect { host, port, username, password, key_file }) => Some(
            crate::gui::ConnectRequest {
                host: host.clone(),
                port: *port,
                username: username.clone(),
                password: Some(password.clone()),
                key_file: crate::config::copy_opt_text(key_file),
            },
        ),
        _ => None,
    }
}

} // verus!
