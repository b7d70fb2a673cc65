//! Saved sessions: their settings, the sealed password, and the in-memory
//! store of sessions keyed by name.

use vstd::prelude::*;
use crate::crypto::{
    base64_len, encrypt, open_sealed, open_text, sealable, sealed_text, NONCE_LEN, PLAINTEXT_MAX,
    TAG_LEN,
};
use crate::text::{copy_text, same_text};
use vstd::utf8::{decode_utf8, encode_utf8, valid_utf8};

verus! {

broadcast use {vstd::utf8::encode_utf8_decode_utf8, vstd::utf8::encode_utf8_valid_utf8};

/// A saved SSH session; the password is stored sealed.
#[derive(Debug, Clone)]
pub struct SessionConfig {
    pub name: String,
    pub host: String,
    pub port: u16,
    pub username: String,
    /// Sealed password (or None).
    pub encrypted_password: Option<String>,
    /// Path to a private key (or None).
    pub key_file: Option<String>,
    /// Time of last use, in seconds since the Unix epoch.
    pub last_used: u64,
}

/// `String::from_utf8`: the contract claims what its documentation says:
/// the bytes are accepted exactly when they are valid UTF-8, and the string
/// holds the characters they encode.
#[verifier::external_body]
fn string_from_utf8(bytes: Vec<u8>) -> (res: Option<String>)
    ensures
        res is Some <==> valid_utf8(bytes@),
        res matches Some(s) ==> s@ == decode_utf8(bytes@),
{
    String::from_utf8(bytes).ok()
}

/// The password that a sealed text yields: it opens, and the bytes are
/// UTF-8.
pub open spec fn unsealed_password(sealed: Option<Seq<char>>) -> Option<Seq<char>> {
    match sealed {
        None => None,
        Some(text) => match open_text(text) {
            None => None,
            Some(bytes) => if valid_utf8(bytes) {
                Some(decode_utf8(bytes))
            } else {
                None
            },
        },
    }
}

/// The view of an optional string.
pub open spec fn opt_view(s: Option<String>) -> Option<Seq<char>> {
    match s {
        None => None,
        Some(t) => Some(t@),
    }
}

impl SessionConfig {
    /// The password this session yields when unsealed.
    pub open spec fn password_view(&self) -> Option<Seq<char>> {
        unsealed_password(opt_view(self.encrypted_password))
    }

    /// `other` equals `self` except maybe for the sealed password.
    pub open spec fn same_but_password(&self, other: &SessionConfig) -> bool {
        &&& self.name == other.name
        &&& self.host == other.host
        &&& self.port == other.port
        &&& self.username == other.username
        &&& self.key_file == other.key_file
        &&& self.last_used == other.last_used
    }

    /// Unseals and returns the stored password, if any.
    pub fn password(&self) -> (res: Option<String>)
        ensures
            opt_view(res) == self.password_view(),
    {
        match &self.encrypted_password {
            None => None,
            Some(enc) => match open_sealed(enc.as_str()) {
                Err(_) => None,
                Ok(bytes) => string_from_utf8(bytes),
            },
        }
    }

    /// Seals and stores the password, and tells whether it did. Sealing
    /// fails only when no random nonce could be had or the plaintext is
    /// too long for AES-GCM; the session is then left unchanged.
    pub fn set_password(&mut self, plain: &str) -> (sealed: bool)
        requires
            sealable(encode_utf8(plain@).len()),
        ensures
            final(self).same_but_password(old(self)),
            sealed ==> (final(self).encrypted_password matches Some(e) && (exists|nonce: Seq<u8>|
                nonce.len() == NONCE_LEN && e@ == #[trigger] sealed_text(
                    nonce,
                    encode_utf8(plain@),
                ))),
            sealed ==> final(self).password_view() == Some(plain@),
            sealed ==> (final(self).encrypted_password matches Some(e) && e@.len() == base64_len(
                (encode_utf8(plain@).len() + NONCE_LEN + TAG_LEN) as nat,
            ) && e@.len() > encode_utf8(plain@).len()),
            !sealed ==> final(self).encrypted_password == old(self).encrypted_password,
            encode_utf8(plain@).len() > PLAINTEXT_MAX ==> !sealed,
    {
        match encrypt(plain.as_bytes()) {
            Some(enc) => {
                self.encrypted_password = Some(enc);
                true
            },
            None => false,
        }
    }
}

/// A copy of an optional string.
pub fn copy_opt_text(s: &Option<String>) -> (res: Option<String>)
    ensures
        res == *s,
{
    match s {
        Some(t) => Some(t.clone()),
        None => None,
    }
}

/// A copy of a saved session.
pub fn copy_config(c: &SessionConfig) -> (res: SessionConfig)
    ensures
        res == *c,
{
    SessionConfig {
        name: c.name.clone(),
        host: c.host.clone(),
        port: c.port,
        username: c.username.clone(),
        encrypted_password: copy_opt_text(&c.encrypted_password),
        key_file: copy_opt_text(&c.key_file),
        last_used: c.last_used,
    }
}

/// A copy of a list of saved sessions.
pub fn copy_sessions(s: &[SessionConfig]) -> (res: Vec<SessionConfig>)
    ensures
        res@ == s@,
{
    let mut res: Vec<SessionConfig> = Vec::new();
    let mut i: usize = 0;
    while i < s.len()
        invariant
            i <= s@.len(),
            res@ == s@.take(i as int),
        decreases s@.len() - i,
    {
        res.push(copy_config(&s[i]));
        i = i + 1;
        assert(res@ =~= s@.take(i as int));
    }
    assert(s@.take(s@.len() as int) =~= s@);
    res
}

/// `s[i]` is the first session in `s` named `name`.
pub open spec fn is_first_named(s: Seq<SessionConfig>, name: Seq<char>, i: int) -> bool {
    &&& 0 <= i < s.len()
    &&& s[i].name@ == name
    &&& forall|j: int| 0 <= j < i ==> (#[trigger] s[j]).name@ != name
}

/// Some session in `s` is named `name`.
pub open spec fn has_name(s: Seq<SessionConfig>, name: Seq<char>) -> bool {
    exists|i: int| 0 <= i < s.len() && (#[trigger] s[i]).name@ == name
}

/// The index of the first session named `name` (meaningful when there is one).
pub open spec fn first_index(s: Seq<SessionConfig>, name: Seq<char>) -> int {
    choose|i: int| is_first_named(s, name, i)
}

/// The first session named `name`, if any.
pub open spec fn spec_find(s: Seq<SessionConfig>, name: Seq<char>) -> Option<SessionConfig> {
    if has_name(s, name) {
        Some(s[first_index(s, name)])
    } else {
        None
    }
}

/// `s` with the first session named like `c` replaced by `c`, or with `c`
/// appended when there is none.
pub open spec fn spec_upsert(s: Seq<SessionConfig>, c: SessionConfig) -> Seq<SessionConfig> {
    if has_name(s, c.name@) {
        s.update(first_index(s, c.name@), c)
    } else {
        s.push(c)
    }
}

/// `s` without the sessions named `name`, the others in their order.
pub open spec fn spec_delete(s: Seq<SessionConfig>, name: Seq<char>) -> Seq<SessionConfig>
    decreases s.len(),
{
    if s.len() == 0 {
        s
    } else {
        let rest = spec_delete(s.drop_last(), name);
        if s.last().name@ == name {
            rest
        } else {
            rest.push(s.last())
        }
    }
}

/// `c` with its time of last use set to `now`.
pub open spec fn with_last_used(c: SessionConfig, now: u64) -> SessionConfig {
    SessionConfig {
        name: c.name,
        host: c.host,
        port: c.port,
        username: c.username,
        encrypted_password: c.encrypted_password,
        key_file: c.key_file,
        last_used: now,
    }
}

/// `s` with the first session named `name`, if any, marked as used at `now`.
pub open spec fn spec_touch(s: Seq<SessionConfig>, name: Seq<char>, now: u64) -> Seq<
    SessionConfig,
> {
    if has_name(s, name) {
        s.update(first_index(s, name), with_last_used(s[first_index(s, name)], now))
    } else {
        s
    }
}

/// Some session in `s` connects to `host` as `username`.
pub open spec fn login_saved(s: Seq<SessionConfig>, host: Seq<char>, username: Seq<char>) -> bool {
    exists|i: int|
        0 <= i < s.len() && (#[trigger] s[i]).host@ == host && s[i].username@ == username
}

/// No two sessions in `s` share a name.
pub open spec fn names_unique(s: Seq<SessionConfig>) -> bool {
    forall|i: int, j: int|
        0 <= i < s.len() && 0 <= j < s.len() && i != j ==> (#[trigger] s[i]).name@ != (
        #[trigger] s[j]).name@
}

/// A first session of a name exists when one of that name does, and it is
/// the only index that is first.
pub proof fn lemma_first_named(s: Seq<SessionConfig>, name: Seq<char>)
    ensures
        has_name(s, name) ==> is_first_named(s, name, first_index(s, name)),
        forall|i: int| #[trigger] is_first_named(s, name, i) ==> i == first_index(s, name),
    decreases s.len(),
{
    if has_name(s, name) {
        let t = s.drop_last();
        if has_name(t, name) {
            lemma_first_named(t, name);
            let k = first_index(t, name);
            assert(s[k] == t[k]);
            assert forall|j: int| 0 <= j < k implies (#[trigger] s[j]).name@ != name by {
                assert(s[j] == t[j]);
                assert(t[j].name@ != name);
            }
            assert(is_first_named(s, name, k));
        } else {
            let k = s.len() - 1;
            assert forall|j: int| 0 <= j < k implies (#[trigger] s[j]).name@ != name by {
                assert(s[j] == t[j]);
            }
            assert(is_first_named(s, name, k));
        }
    }
    assert forall|i: int| #[trigger] is_first_named(s, name, i) implies i == first_index(s, name) by {
        let k = first_index(s, name);
        assert(is_first_named(s, name, k));
        if i < k {
            assert(s[i].name@ != name);
        } else if k < i {
            assert(s[k].name@ != name);
        }
    }
}

/// The in-memory store of saved sessions and of the session used last.
pub struct SessionManager {
    sessions: Vec<SessionConfig>,
    /// Name of the last-used session.
    pub last_session: Option<String>,
}

impl SessionManager {
    /// The saved sessions, in order.
    pub closed spec fn entries(&self) -> Seq<SessionConfig> {
        self.sessions@
    }

    /// The session used last, as stored.
    pub closed spec fn last(&self) -> Option<String> {
        self.last_session
    }

    /// A store holding `sessions`, with `last_session` as the one used last.
    pub fn new(sessions: Vec<SessionConfig>, last_session: Option<String>) -> (res: Self)
        ensures
            res.entries() == sessions@,
            res.last() == last_session,
    {
        SessionManager { sessions, last_session }
    }

    /// An empty store.
    pub fn empty() -> (res: Self)
        ensures
            res.entries() == Seq::<SessionConfig>::empty(),
            res.last() is None,
    {
        SessionManager { sessions: Vec::new(), last_session: None }
    }

    /// The saved sessions.
    pub fn sessions(&self) -> (res: &[SessionConfig])
        ensures
            res@ == self.entries(),
    {
        self.sessions.as_slice()
    }

    /// The index of the first session named `name`, if any.
    fn position(&self, name: &str) -> (res: Option<usize>)
        ensures
            match res {
                Some(i) => is_first_named(self.entries(), name@, i as int),
                None => !has_name(self.entries(), name@),
            },
    {
        let mut i: usize = 0;
        while i < self.sessions.len()
            invariant
                i <= self.sessions@.len(),
                forall|j: int| 0 <= j < i ==> (#[trigger] self.sessions@[j]).name@ != name@,
            decreases self.sessions@.len() - i,
        {
            if same_text(self.sessions[i].name.as_str(), name) {
                return Some(i);
            }
            i = i + 1;
        }
        None
    }

    /// The first session named `name`, if any.
    pub fn find(&self, name: &str) -> (res: Option<&SessionConfig>)
        ensures
            match res {
                Some(c) => spec_find(self.entries(), name@) == Some(*c),
                None => spec_find(self.entries(), name@) is None,
            },
    {
        proof {
            lemma_first_named(self.entries(), name@);
        }
        match self.position(name) {
            Some(i) => Some(&self.sessions[i]),
            None => None,
        }
    }

    /// Whether some saved session connects to `host` as `username`.
    pub fn has_login(&self, host: &str, username: &str) -> (res: bool)
        ensures
            res == login_saved(self.entries(), host@, username@),
    {
        let mut i: usize = 0;
        while i < self.sessions.len()
            invariant
                i <= self.sessions@.len(),
                forall|j: int|
                    0 <= j < i ==> !((#[trigger] self.sessions@[j]).host@ == host@
                        && self.sessions@[j].username@ == username@),
            decreases self.sessions@.len() - i,
        {
            if same_text(self.sessions[i].host.as_str(), host) && same_text(
                self.sessions[i].username.as_str(),
                username,
            ) {
                return true;
            }
            i = i + 1;
        }
        false
    }

    /// Replaces the first session named like `config` by it, or appends
    /// `config` when there is none.
    pub fn upsert(&mut self, config: SessionConfig)
        ensures
            final(self).entries() == spec_upsert(old(self).entries(), config),
            final(self).last() == old(self).last(),
    {
        proof {
            lemma_first_named(self.entries(), config.name@);
        }
        match self.position(config.name.as_str()) {
            Some(i) => {
                self.sessions.set(i, config);
            },
            None => {
                self.sessions.push(config);
            },
        }
    }

    /// Removes every session named `name`, and forgets it as the last used.
    pub fn delete(&mut self, name: &str)
        ensures
            final(self).entries() == spec_delete(old(self).entries(), name@),
            final(self).last() == (if opt_view(old(self).last()) == Some(name@) {
                None
            } else {
                old(self).last()
            }),
    {
        let mut kept: Vec<SessionConfig> = Vec::new();
        let ghost all = self.sessions@;
        while self.sessions.len() > 0
            invariant
                self.sessions@.len() <= all.len(),
                self.last_session == old(self).last_session,
                self.sessions@ == all.skip(all.len() - self.sessions@.len()),
                kept@ == spec_delete(all.take(all.len() - self.sessions@.len()), name@),
            decreases self.sessions@.len(),
        {
            let ghost done = all.len() - self.sessions@.len();
            let c = self.sessions.remove(0);
            assert(all.take(done + 1).drop_last() =~= all.take(done));
            assert(all.take(done + 1).last() == c);
            if !same_text(c.name.as_str(), name) {
                kept.push(c);
            }
            assert(self.sessions@ =~= all.skip(done + 1));
        }
        assert(all.take(all.len() as int) =~= all);
        self.sessions = kept;
        let clear = match &self.last_session {
            Some(last) => same_text(last.as_str(), name),
            None => false,
        };
        assert(clear == (opt_view(old(self).last()) == Some(name@)));
        if clear {
            self.last_session = None;
        }
    }

    /// Marks `name` as the session used last, and the first session of that
    /// name, if any, as used at `now` (seconds since the Unix epoch).
    pub fn touch_last_used(&mut self, name: &str, now: u64)
        ensures
            final(self).entries() == spec_touch(old(self).entries(), name@, now),
            opt_view(final(self).last()) == Some(name@),
    {
        proof {
            lemma_first_named(self.entries(), name@);
        }
        self.last_session = Some(copy_text(name));
        match self.position(name) {
            Some(i) => {
                let mut c = self.sessions.remove(i);
                c.last_used = now;
                self.sessions.insert(i, c);
                assert(self.sessions@ =~= spec_touch(old(self).entries(), name@, now));
            },
            None => {},
        }
    }
}

} // verus!

verus! {

/// Finding a name in `s` with one session appended: the first match in
/// `s`, else the appended session if it carries the name.
pub proof fn lemma_find_push(s: Seq<SessionConfig>, x: SessionConfig, name: Seq<char>)
    ensures
        spec_find(s.push(x), name) == (if has_name(s, name) {
            spec_find(s, name)
        } else if x.name@ == name {
            Some(x)
        } else {
            None
        }),
{
    let u = s.push(x);
    lemma_first_named(s, name);
    lemma_first_named(u, name);
    if has_name(s, name) {
        let k = first_index(s, name);
        assert(u[k] == s[k]);
        assert forall|j: int| 0 <= j < k implies (#[trigger] u[j]).name@ != name by {
            assert(u[j] == s[j]);
        }
        assert(is_first_named(u, name, k));
    } else if x.name@ == name {
        let k = s.len() as int;
        assert forall|j: int| 0 <= j < k implies (#[trigger] u[j]).name@ != name by {
            assert(u[j] == s[j]);
        }
        assert(is_first_named(u, name, k));
    } else {
        assert forall|j: int| 0 <= j < u.len() implies (#[trigger] u[j]).name@ != name by {
            if j < s.len() {
                assert(u[j] == s[j]);
            }
        }
    }
}

/// After `upsert(c)`, finding `c`'s name gives `c`.
pub proof fn lemma_upsert_then_find(s: Seq<SessionConfig>, c: SessionConfig)
    ensures
        spec_find(spec_upsert(s, c), c.name@) == Some(c),
{
    let n = c.name@;
    lemma_first_named(s, n);
    if has_name(s, n) {
        let k = first_index(s, n);
        let u = s.update(k, c);
        assert forall|j: int| 0 <= j < k implies (#[trigger] u[j]).name@ != n by {
            assert(u[j] == s[j]);
        }
        assert(is_first_named(u, n, k));
        lemma_first_named(u, n);
    } else {
        lemma_find_push(s, c, n);
    }
}

/// `upsert(c)` leaves what every other name finds unchanged.
pub proof fn lemma_upsert_keeps_other_names(
    s: Seq<SessionConfig>,
    c: SessionConfig,
    name: Seq<char>,
)
    requires
        name != c.name@,
    ensures
        spec_find(spec_upsert(s, c), name) == spec_find(s, name),
{
    let n = c.name@;
    lemma_first_named(s, n);
    lemma_first_named(s, name);
    if has_name(s, n) {
        let k = first_index(s, n);
        let u = s.update(k, c);
        lemma_first_named(u, name);
        if has_name(s, name) {
            let i = first_index(s, name);
            assert(i != k);
            assert forall|j: int| 0 <= j < i implies (#[trigger] u[j]).name@ != name by {
                if j != k {
                    assert(u[j] == s[j]);
                }
            }
            assert(u[i] == s[i]);
            assert(is_first_named(u, name, i));
        } else {
            assert forall|j: int| 0 <= j < u.len() implies (#[trigger] u[j]).name@ != name by {
                if j != k {
                    assert(u[j] == s[j]);
                }
            }
        }
    } else {
        lemma_find_push(s, c, name);
    }
}

/// Upserting the same session twice is the same as upserting it once.
pub proof fn lemma_upsert_idempotent(s: Seq<SessionConfig>, c: SessionConfig)
    ensures
        spec_upsert(spec_upsert(s, c), c) == spec_upsert(s, c),
{
    let u = spec_upsert(s, c);
    lemma_upsert_then_find(s, c);
    lemma_first_named(u, c.name@);
    let k = first_index(u, c.name@);
    assert(u.update(k, c) =~= u);
}

/// After `delete(name)`, nothing is found under `name`.
pub proof fn lemma_delete_then_find(s: Seq<SessionConfig>, name: Seq<char>)
    ensures
        spec_find(spec_delete(s, name), name) is None,
    decreases s.len(),
{
    if s.len() > 0 {
        let t = s.drop_last();
        lemma_delete_then_find(t, name);
        lemma_find_push(spec_delete(t, name), s.last(), name);
    }
}

/// `delete(name)` leaves what every other name finds unchanged.
pub proof fn lemma_delete_keeps_other_names(
    s: Seq<SessionConfig>,
    name: Seq<char>,
    other: Seq<char>,
)
    requires
        other != name,
    ensures
        spec_find(spec_delete(s, name), other) == spec_find(s, other),
    decreases s.len(),
{
    if s.len() > 0 {
        let t = s.drop_last();
        assert(t.push(s.last()) =~= s);
        lemma_delete_keeps_other_names(t, name, other);
        lemma_find_push(t, s.last(), other);
        lemma_find_push(spec_delete(t, name), s.last(), other);
        lemma_first_named(t, other);
        lemma_first_named(spec_delete(t, name), other);
    } else {
        assert(!has_name(s, other));
    }
}

/// Every session kept by `delete` is one of the sessions it started from.
pub proof fn lemma_delete_keeps_members(s: Seq<SessionConfig>, name: Seq<char>)
    ensures
        forall|k: int|
            0 <= k < spec_delete(s, name).len() ==> exists|j: int|
                0 <= j < s.len() && #[trigger] spec_delete(s, name)[k] == s[j],
    decreases s.len(),
{
    if s.len() > 0 {
        let t = s.drop_last();
        lemma_delete_keeps_members(t, name);
        let d = spec_delete(t, name);
        assert forall|k: int| 0 <= k < spec_delete(s, name).len() implies exists|j: int|
            0 <= j < s.len() && #[trigger] spec_delete(s, name)[k] == s[j] by {
            if k < d.len() {
                let j = choose|j: int| 0 <= j < t.len() && d[k] == t[j];
                assert(s[j] == t[j]);
            } else {
                assert(spec_delete(s, name)[k] == s[s.len() - 1]);
            }
        }
    }
}

/// `upsert` keeps the names of the store distinct.
pub proof fn lemma_upsert_keeps_names_unique(s: Seq<SessionConfig>, c: SessionConfig)
    requires
        names_unique(s),
    ensures
        names_unique(spec_upsert(s, c)),
{
    let n = c.name@;
    lemma_first_named(s, n);
    let u = spec_upsert(s, c);
    if has_name(s, n) {
        let k = first_index(s, n);
        assert forall|i: int, j: int|
            0 <= i < u.len() && 0 <= j < u.len() && i != j implies (#[trigger] u[i]).name@ != (
            #[trigger] u[j]).name@ by {
            assert(s[k].name@ == n);
        }
    } else {
        assert forall|i: int, j: int|
            0 <= i < u.len() && 0 <= j < u.len() && i != j implies (#[trigger] u[i]).name@ != (
            #[trigger] u[j]).name@ by {
            if i < s.len() && j < s.len() {
                assert(u[i] == s[i] && u[j] == s[j]);
            } else if i < s.len() {
                assert(u[i] == s[i]);
            } else {
                assert(u[j] == s[j]);
            }
        }
    }
}

/// `delete` keeps the names of the store distinct.
pub proof fn lemma_delete_keeps_names_unique(s: Seq<SessionConfig>, name: Seq<char>)
    requires
        names_unique(s),
    ensures
        names_unique(spec_delete(s, name)),
    decreases s.len(),
{
    if s.len() > 0 {
        let t = s.drop_last();
        assert(names_unique(t)) by {
            assert forall|i: int, j: int|
                0 <= i < t.len() && 0 <= j < t.len() && i != j implies (#[trigger] t[i]).name@
                != (#[trigger] t[j]).name@ by {
                assert(t[i] == s[i] && t[j] == s[j]);
            }
        }
        lemma_delete_keeps_names_unique(t, name);
        lemma_delete_keeps_members(t, name);
        let d = spec_delete(t, name);
        let r = spec_delete(s, name);
        if s.last().name@ != name {
            assert forall|i: int, j: int|
                0 <= i < r.len() && 0 <= j < r.len() && i != j implies (#[trigger] r[i]).name@
                != (#[trigger] r[j]).name@ by {
                if i < d.len() && j < d.len() {
                    assert(r[i] == d[i] && r[j] == d[j]);
                } else if i < d.len() {
                    let a = choose|a: int| 0 <= a < t.len() && d[i] == t[a];
                    assert(s[a] == t[a]);
                    assert(s[s.len() - 1] == r[j]);
                } else {
                    let a = choose|a: int| 0 <= a < t.len() && d[j] == t[a];
                    assert(s[a] == t[a]);
                    assert(s[s.len() - 1] == r[i]);
                }
            }
        }
    }
}

/// With distinct names, `delete` removes exactly one session when the name
/// is present and none otherwise.
pub proof fn lemma_delete_unique_len(s: Seq<SessionConfig>, name: Seq<char>)
    requires
        names_unique(s),
    ensures
        spec_delete(s, name).len() == (if has_name(s, name) {
            s.len() - 1
        } else {
            s.len() as int
        }),
    decreases s.len(),
{
    if s.len() > 0 {
        let t = s.drop_last();
        assert(names_unique(t)) by {
            assert forall|i: int, j: int|
                0 <= i < t.len() && 0 <= j < t.len() && i != j implies (#[trigger] t[i]).name@
                != (#[trigger] t[j]).name@ by {
                assert(t[i] == s[i] && t[j] == s[j]);
            }
        }
        lemma_delete_unique_len(t, name);
        if s.last().name@ == name {
            assert(!has_name(t, name)) by {
                if has_name(t, name) {
                    let i = choose|i: int| 0 <= i < t.len() && (#[trigger] t[i]).name@ == name;
                    assert(s[i] == t[i]);
                    assert(s[s.len() - 1].name@ == name);
                }
            }
            assert(has_name(s, name)) by {
                assert(s[s.len() - 1].name@ == name);
            }
        } else {
            assert(has_name(s, name) == has_name(t, name)) by {
                if has_name(t, name) {
                    let i = choose|i: int| 0 <= i < t.len() && (#[trigger] t[i]).name@ == name;
                    assert(s[i] == t[i]);
                }
                if has_name(s, name) {
                    let i = choose|i: int| 0 <= i < s.len() && (#[trigger] s[i]).name@ == name;
                    assert(i < t.len());
                    assert(t[i] == s[i]);
                }
            }
        }
    } else {
        assert(!has_name(s, name));
    }
}

/// After `touch_last_used(name, now)`, the session found under `name` is
/// the one found before, marked as used at `now`.
pub proof fn lemma_touch_then_find(s: Seq<SessionConfig>, name: Seq<char>, now: u64)
    ensures
        spec_find(spec_touch(s, name, now), name) == (match spec_find(s, name) {
            Some(c) => Some(with_last_used(c, now)),
            None => None,
        }),
{
    lemma_first_named(s, name);
    if has_name(s, name) {
        let k = first_index(s, name);
        let u = spec_touch(s, name, now);
        assert forall|j: int| 0 <= j < k implies (#[trigger] u[j]).name@ != name by {
            assert(u[j] == s[j]);
        }
        assert(is_first_named(u, name, k));
        lemma_first_named(u, name);
    }
}

} // verus!
