use crate::store::{lemma_lookup_at, lookup, lookup_entry, KvStore};
use crate::value::Value;
use vstd::prelude::*;

verus! {

/// The authentication session that is persisted: tokens, expiry and user identity.
#[derive(Debug, Clone, PartialEq, Eq)]
pub struct AuthSession {
    pub access_token: String,
    pub refresh_token: String,
    /// Expiry, in seconds since the epoch.
    pub expires_at: i64,
    pub user_id: String,
}

/// What an `AuthSession` holds, field for field.
pub struct SessionView {
    pub access_token: Seq<char>,
    pub refresh_token: Seq<char>,
    pub expires_at: i64,
    pub user_id: Seq<char>,
}

impl View for AuthSession {
    type V = SessionView;

    open spec fn view(&self) -> SessionView {
        SessionView {
            access_token: self.access_token@,
            refresh_token: self.refresh_token@,
            expires_at: self.expires_at,
            user_id: self.user_id@,
        }
    }
}

/// Why a session operation failed.
#[derive(Debug, Clone, PartialEq, Eq)]
pub enum SessionError {
    /// The store handle has not been constructed, or cannot be reached.
    StoreUnavailable,
    /// A value could not be brought into its stored form.
    Serialization(String),
    /// The stored value does not have the shape of a session.
    Deserialization,
    /// Writing the mapping to disk failed; memory holds the change, the disk may not.
    Persistence(String),
    /// The backing file exists but could not be read as a mapping.
    CorruptStore(String),
}

/// The human-readable form of an error, as handed to the host shell.
pub open spec fn error_text(e: SessionError) -> Seq<char> {
    match e {
        SessionError::StoreUnavailable => "Store not initialized"@,
        SessionError::Serialization(m) => "Could not serialize the store: "@ + m@,
        SessionError::Deserialization => "Stored session has an unexpected shape"@,
        SessionError::Persistence(m) => "Could not write the store to disk: "@ + m@,
        SessionError::CorruptStore(m) => "Store file is corrupt: "@ + m@,
    }
}

impl SessionError {
    /// The error as one human-readable line.
    pub fn message(&self) -> (r: String)
        ensures
            r@ == error_text(*self),
    {
        match self {
            SessionError::StoreUnavailable => "Store not initialized".to_owned(),
            SessionError::Serialization(m) => {
                let mut t = "Could not serialize the store: ".to_owned();
                t.append(m.as_str());
                t
            },
            SessionError::Deserialization => "Stored session has an unexpected shape".to_owned(),
            SessionError::Persistence(m) => {
                let mut t = "Could not write the store to disk: ".to_owned();
                t.append(m.as_str());
                t
            },
            SessionError::CorruptStore(m) => {
                let mut t = "Store file is corrupt: ".to_owned();
                t.append(m.as_str());
                t
            },
        }
    }
}

/// The key under which the session is stored.
pub open spec fn session_key() -> Seq<char> {
    "auth_session"@
}

/// The text held in the field `name` of a record, if that field is text.
pub open spec fn text_field(fields: Seq<(String, Value)>, name: Seq<char>) -> Option<Seq<char>> {
    match lookup(fields, name) {
        Some(Value::Text(t)) => Some(t@),
        _ => None,
    }
}

/// The integer held in the field `name` of a record, if that field is an integer.
pub open spec fn int_field(fields: Seq<(String, Value)>, name: Seq<char>) -> Option<i64> {
    match lookup(fields, name) {
        Some(Value::Int(n)) => Some(n),
        _ => None,
    }
}

/// The session that a stored value describes: a record with the three text
/// fields and the integer field of a session. Other fields are ignored.
pub open spec fn session_of(v: Value) -> Option<SessionView> {
    match v {
        Value::Record(fields) => {
            let a = text_field(fields@, "access_token"@);
            let r = text_field(fields@, "refresh_token"@);
            let e = int_field(fields@, "expires_at"@);
            let u = text_field(fields@, "user_id"@);
            if a is Some && r is Some && e is Some && u is Some {
                Some(
                    SessionView {
                        access_token: a->0,
                        refresh_token: r->0,
                        expires_at: e->0,
                        user_id: u->0,
                    },
                )
            } else {
                None
            }
        },
        _ => None,
    }
}

/// `v` is the stored form of `s`: a record of exactly the four fields of a
/// session, in the order access token, refresh token, expiry, user id.
pub open spec fn is_stored_form(v: Value, s: SessionView) -> bool {
    match v {
        Value::Record(f) => f@.len() == 4 && f@[0].0@ == "access_token"@ && f@[1].0@
            == "refresh_token"@ && f@[2].0@ == "expires_at"@ && f@[3].0@ == "user_id"@
            && f@[2].1 == Value::Int(s.expires_at) && match (f@[0].1, f@[1].1, f@[3].1) {
            (Value::Text(a), Value::Text(r), Value::Text(u)) => a@ == s.access_token && r@
                == s.refresh_token && u@ == s.user_id,
            _ => false,
        },
        _ => false,
    }
}

/// The text of the field `name` of a record, if that field holds text.
fn text_in(fields: &Vec<(String, Value)>, name: &str) -> (r: Option<String>)
    ensures
        match r {
            Some(t) => text_field(fields@, name@) == Some(t@),
            None => text_field(fields@, name@) is None,
        },
{
    let key = name.to_owned();
    match lookup_entry(fields, &key) {
        Some(Value::Text(t)) => Some(t.clone()),
        _ => None,
    }
}

/// The integer of the field `name` of a record, if that field holds an integer.
fn int_in(fields: &Vec<(String, Value)>, name: &str) -> (r: Option<i64>)
    ensures
        r == int_field(fields@, name@),
{
    let key = name.to_owned();
    match lookup_entry(fields, &key) {
        Some(Value::Int(n)) => Some(*n),
        _ => None,
    }
}

/// The stored form of a session: a record of its four fields.
pub fn session_to_value(session: &AuthSession) -> (r: Value)
    ensures
        session_of(r) == Some(session@),
        is_stored_form(r, session@),
{
    let mut fields: Vec<(String, Value)> = Vec::new();
    fields.push(("access_token".to_owned(), Value::Text(session.access_token.clone())));
    fields.push(("refresh_token".to_owned(), Value::Text(session.refresh_token.clone())));
    fields.push(("expires_at".to_owned(), Value::Int(session.expires_at)));
    fields.push(("user_id".to_owned(), Value::Text(session.user_id.clone())));
    proof {
        reveal_strlit("access_token");
        reveal_strlit("refresh_token");
        reveal_strlit("expires_at");
        reveal_strlit("user_id");
        let f = fields@;
        assert("access_token"@.len() == 12);
        assert("refresh_token"@.len() == 13);
        assert("expires_at"@.len() == 10);
        assert("user_id"@.len() == 7);
        lemma_lookup_at(f, "access_token"@, 0);
        lemma_lookup_at(f, "refresh_token"@, 1);
        lemma_lookup_at(f, "expires_at"@, 2);
        lemma_lookup_at(f, "user_id"@, 3);
    }
    Value::Record(fields)
}

/// Reads a session back from its stored form; a value of another shape is a
/// `Deserialization` error.
pub fn session_from_value(v: &Value) -> (r: Result<AuthSession, SessionError>)
    ensures
        match session_of(*v) {
            Some(s) => r matches Ok(x) && x@ == s,
            None => r == Err::<AuthSession, SessionError>(SessionError::Deserialization),
        },
{
    match v {
        Value::Record(fields) => {
            let a = text_in(fields, "access_token");
            let r = text_in(fields, "refresh_token");
            let e = int_in(fields, "expires_at");
            let u = text_in(fields, "user_id");
            match (a, r, e, u) {
                (Some(a), Some(r), Some(e), Some(u)) => Ok(
                    AuthSession { access_token: a, refresh_token: r, expires_at: e, user_id: u },
                ),
                _ => Err(SessionError::Deserialization),
            }
        },
        _ => Err(SessionError::Deserialization),
    }
}

/// The key under which the session is stored, as a `String`.
fn session_key_string() -> (r: String)
    ensures
        r@ == session_key(),
{
    "auth_session".to_owned()
}

/// Every key of an initialized store is bound at most once.
pub open spec fn handle_wf(handle: Option<KvStore<Value>>) -> bool {
    handle matches Some(st) ==> st.wf()
}

/// What reading the session from `handle` reports.
pub open spec fn get_outcome(handle: Option<KvStore<Value>>) -> Result<Option<SessionView>, SessionError> {
    match handle {
        None => Err(SessionError::StoreUnavailable),
        Some(st) => match st.value_of(session_key()) {
            None => Ok(None),
            Some(v) => match session_of(v) {
                Some(s) => Ok(Some(s)),
                None => Err(SessionError::Deserialization),
            },
        },
    }
}

/// The outcome of a read, with the session seen through its view.
pub open spec fn outcome_view(r: Result<Option<AuthSession>, SessionError>) -> Result<Option<SessionView>, SessionError> {
    match r {
        Ok(Some(s)) => Ok(Some(s@)),
        Ok(None) => Ok(None),
        Err(e) => Err(e),
    }
}

/// Saving `s` took the handle from `before` to `after` and returned `r`: an
/// initialized store now holds the stored form of `s` under the session key
/// and is otherwise unchanged; an uninitialized one stays so and the save fails.
pub open spec fn saved(
    before: Option<KvStore<Value>>,
    after: Option<KvStore<Value>>,
    s: SessionView,
    r: Result<(), SessionError>,
) -> bool {
    match before {
        None => after is None && r == Err::<(), SessionError>(SessionError::StoreUnavailable),
        Some(b) => r is Ok && match after {
            None => false,
            Some(a) => a.wf() && match a.value_of(session_key()) {
                Some(v) => is_stored_form(v, s) && session_of(v) == Some(s),
                None => false,
            } && forall|k: Seq<char>|
                k != session_key() ==> #[trigger] a.value_of(k) == b.value_of(k),
        },
    }
}

/// Clearing took the handle from `before` to `after` and returned `r`: an
/// initialized store no longer binds the session key and is otherwise
/// unchanged; an uninitialized one stays so and the clear fails.
pub open spec fn cleared(
    before: Option<KvStore<Value>>,
    after: Option<KvStore<Value>>,
    r: Result<(), SessionError>,
) -> bool {
    match before {
        None => after is None && r == Err::<(), SessionError>(SessionError::StoreUnavailable),
        Some(b) => r is Ok && match after {
            None => false,
            Some(a) => a.wf() && a.value_of(session_key()) is None && forall|k: Seq<char>|
                k != session_key() ==> #[trigger] a.value_of(k) == b.value_of(k),
        },
    }
}

/// Stores `session` under the session key, replacing any earlier one.
///
/// Only the in-memory mapping changes; making it durable is the caller's next step.
pub fn save_auth_session(handle: &mut Option<KvStore<Value>>, session: AuthSession) -> (r: Result<(), SessionError>)
    requires
        handle_wf(*old(handle)),
    ensures
        saved(*old(handle), *final(handle), session@, r),
{
    match handle {
        Some(store) => {
            let v = session_to_value(&session);
            store.insert(session_key_string(), v);
            Ok(())
        },
        None => Err(SessionError::StoreUnavailable),
    }
}

/// The stored session, `None` where there is none.
pub fn get_auth_session(handle: &Option<KvStore<Value>>) -> (r: Result<Option<AuthSession>, SessionError>)
    ensures
        outcome_view(r) == get_outcome(*handle),
{
    match handle {
        Some(store) => {
            let key = session_key_string();
            match store.get(&key) {
                Some(v) => match session_from_value(v) {
                    Ok(s) => Ok(Some(s)),
                    Err(e) => Err(e),
                },
                None => Ok(None),
            }
        },
        None => Err(SessionError::StoreUnavailable),
    }
}

/// Removes the stored session; without one there is nothing to remove.
///
/// Only the in-memory mapping changes; making it durable is the caller's next step.
pub fn clear_auth_session(handle: &mut Option<KvStore<Value>>) -> (r: Result<(), SessionError>)
    requires
        handle_wf(*old(handle)),
    ensures
        cleared(*old(handle), *final(handle), r),
{
    match handle {
        Some(store) => {
            let key = session_key_string();
            let _ = store.delete(&key);
            Ok(())
        },
        None => Err(SessionError::StoreUnavailable),
    }
}

/// A session that was saved is read back field for field.
pub proof fn lemma_save_then_get(
    before: Option<KvStore<Value>>,
    after: Option<KvStore<Value>>,
    s: SessionView,
    r: Result<(), SessionError>,
)
    requires
        before is Some,
        saved(before, after, s, r),
    ensures
        r is Ok,
        get_outcome(after) == Ok::<Option<SessionView>, SessionError>(Some(s)),
{
}

/// A store in which no key is bound holds no session.
pub proof fn lemma_fresh_store_is_empty(st: KvStore<Value>)
    requires
        forall|k: Seq<char>| #[trigger] st.value_of(k) is None,
    ensures
        get_outcome(Some(st)) == Ok::<Option<SessionView>, SessionError>(None),
{
    assert(st.value_of(session_key()) is None);
}

/// Clearing twice in a row succeeds both times and leaves no session.
pub proof fn lemma_clear_twice(
    h0: Option<KvStore<Value>>,
    h1: Option<KvStore<Value>>,
    h2: Option<KvStore<Value>>,
    r1: Result<(), SessionError>,
    r2: Result<(), SessionError>,
)
    requires
        h0 is Some,
        cleared(h0, h1, r1),
        cleared(h1, h2, r2),
    ensures
        r1 is Ok,
        r2 is Ok,
        get_outcome(h2) == Ok::<Option<SessionView>, SessionError>(None),
{
}

/// After two saves the second session is read back, whole.
pub proof fn lemma_last_save_wins(
    h0: Option<KvStore<Value>>,
    h1: Option<KvStore<Value>>,
    h2: Option<KvStore<Value>>,
    s1: SessionView,
    s2: SessionView,
    r1: Result<(), SessionError>,
    r2: Result<(), SessionError>,
)
    requires
        h0 is Some,
        saved(h0, h1, s1, r1),
        saved(h1, h2, s2, r2),
    ensures
        get_outcome(h2) == Ok::<Option<SessionView>, SessionError>(Some(s2)),
{
}

/// Saves applied one after another, in the order they took the store, leave
/// exactly the session of the last one.
pub proof fn lemma_serialized_saves(
    hs: Seq<Option<KvStore<Value>>>,
    ss: Seq<SessionView>,
    rs: Seq<Result<(), SessionError>>,
)
    requires
        ss.len() > 0,
        hs.len() == ss.len() + 1,
        rs.len() == ss.len(),
        hs[0] is Some,
        forall|i: int| 0 <= i < ss.len() ==> saved(#[trigger] hs[i], hs[i + 1], ss[i], rs[i]),
    ensures
        get_outcome(hs.last()) == Ok::<Option<SessionView>, SessionError>(Some(ss.last())),
    decreases ss.len(),
{
    let n = ss.len() as int;
    if n > 1 {
        let (hp, sp, rp) = (hs.drop_last(), ss.drop_last(), rs.drop_last());
        assert forall|i: int| 0 <= i < sp.len() implies saved(#[trigger] hp[i], hp[i + 1], sp[i], rp[i]) by {
            assert(hp[i] == hs[i] && hp[i + 1] == hs[i + 1]);
        }
        lemma_serialized_saves(hp, sp, rp);
        assert(hp.last() == hs[n - 1]);
    }
    assert(saved(hs[n - 1], hs[n], ss[n - 1], rs[n - 1]));
}

/// Without a store handle every operation fails with `StoreUnavailable`.
pub proof fn lemma_uninitialized(
    after_save: Option<KvStore<Value>>,
    after_clear: Option<KvStore<Value>>,
    s: SessionView,
    r1: Result<(), SessionError>,
    r2: Result<(), SessionError>,
)
    requires
        saved(None, after_save, s, r1),
        cleared(None, after_clear, r2),
    ensures
        r1 == Err::<(), SessionError>(SessionError::StoreUnavailable),
        r2 == Err::<(), SessionError>(SessionError::StoreUnavailable),
        get_outcome(None) == Err::<Option<SessionView>, SessionError>(SessionError::StoreUnavailable),
{
}

} // verus!
