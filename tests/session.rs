use session_store::session::{
    clear_auth_session, get_auth_session, save_auth_session, session_from_value,
    session_to_value, AuthSession, SessionError,
};
use session_store::store::KvStore;
use session_store::value::Value;

fn session(a: &str, r: &str, e: i64, u: &str) -> AuthSession {
    AuthSession {
        access_token: a.to_string(),
        refresh_token: r.to_string(),
        expires_at: e,
        user_id: u.to_string(),
    }
}

fn fresh() -> Option<KvStore<Value>> {
    Some(KvStore::new())
}

#[test]
fn save_get_clear_scenario() {
    let mut h = fresh();
    let s = session("a1", "r1", 1700000000, "u1");
    assert_eq!(save_auth_session(&mut h, s.clone()), Ok(()));
    assert_eq!(get_auth_session(&h), Ok(Some(s)));
    assert_eq!(clear_auth_session(&mut h), Ok(()));
    assert_eq!(get_auth_session(&h), Ok(None));
}

#[test]
fn round_trip_keeps_every_field() {
    let mut h = fresh();
    let s = session("", "refresh with spaces", -42, "user-\u{e9}");
    assert_eq!(save_auth_session(&mut h, s.clone()), Ok(()));
    assert_eq!(get_auth_session(&h), Ok(Some(s)));
}

#[test]
fn round_trip_extreme_expiry() {
    for e in [i64::MIN, 0, i64::MAX] {
        let mut h = fresh();
        let s = session("a", "r", e, "u");
        save_auth_session(&mut h, s.clone()).unwrap();
        assert_eq!(get_auth_session(&h), Ok(Some(s)));
    }
}

#[test]
fn fresh_store_has_no_session() {
    let h = fresh();
    assert_eq!(get_auth_session(&h), Ok(None));
}

#[test]
fn clear_twice_succeeds() {
    let mut h = fresh();
    save_auth_session(&mut h, session("a", "r", 1, "u")).unwrap();
    assert_eq!(clear_auth_session(&mut h), Ok(()));
    assert_eq!(clear_auth_session(&mut h), Ok(()));
    assert_eq!(get_auth_session(&h), Ok(None));
}

#[test]
fn clear_on_fresh_store_succeeds() {
    let mut h = fresh();
    assert_eq!(clear_auth_session(&mut h), Ok(()));
    assert_eq!(get_auth_session(&h), Ok(None));
}

#[test]
fn last_write_wins() {
    let mut h = fresh();
    let s1 = session("a1", "r1", 1, "u1");
    let s2 = session("a2", "r2", 2, "u2");
    save_auth_session(&mut h, s1).unwrap();
    save_auth_session(&mut h, s2.clone()).unwrap();
    assert_eq!(get_auth_session(&h), Ok(Some(s2)));
}

#[test]
fn serialized_saves_leave_the_last() {
    let mut h = fresh();
    let mut last = None;
    for i in 0..10i64 {
        let s = session(&format!("a{}", i), &format!("r{}", i), i, &format!("u{}", i));
        save_auth_session(&mut h, s.clone()).unwrap();
        last = Some(s);
    }
    assert_eq!(get_auth_session(&h), Ok(last));
    assert_eq!(h.as_ref().unwrap().len(), 1);
}

#[test]
fn uninitialized_store_fails_every_operation() {
    let mut h: Option<KvStore<Value>> = None;
    assert_eq!(
        save_auth_session(&mut h, session("a", "r", 1, "u")),
        Err(SessionError::StoreUnavailable)
    );
    assert_eq!(get_auth_session(&h), Err(SessionError::StoreUnavailable));
    assert_eq!(clear_auth_session(&mut h), Err(SessionError::StoreUnavailable));
    assert!(h.is_none());
}

#[test]
fn other_keys_survive_save_and_clear() {
    let mut st = KvStore::new();
    st.insert("theme".to_string(), Value::Text("dark".to_string()));
    let mut h = Some(st);
    save_auth_session(&mut h, session("a", "r", 1, "u")).unwrap();
    clear_auth_session(&mut h).unwrap();
    let st = h.unwrap();
    assert_eq!(st.get(&"theme".to_string()), Some(&Value::Text("dark".to_string())));
    assert_eq!(st.len(), 1);
}

#[test]
fn stored_form_is_a_record_of_four_fields() {
    let v = session_to_value(&session("a1", "r1", 1700000000, "u1"));
    let expected = Value::Record(vec![
        ("access_token".to_string(), Value::Text("a1".to_string())),
        ("refresh_token".to_string(), Value::Text("r1".to_string())),
        ("expires_at".to_string(), Value::Int(1700000000)),
        ("user_id".to_string(), Value::Text("u1".to_string())),
    ]);
    assert_eq!(v, expected);
}

#[test]
fn decode_ignores_extra_fields_and_order() {
    let v = Value::Record(vec![
        ("user_id".to_string(), Value::Text("u".to_string())),
        ("extra".to_string(), Value::Null),
        ("expires_at".to_string(), Value::Int(5)),
        ("refresh_token".to_string(), Value::Text("r".to_string())),
        ("access_token".to_string(), Value::Text("a".to_string())),
    ]);
    assert_eq!(session_from_value(&v), Ok(session("a", "r", 5, "u")));
}

#[test]
fn decode_rejects_missing_field() {
    let v = Value::Record(vec![
        ("access_token".to_string(), Value::Text("a".to_string())),
        ("refresh_token".to_string(), Value::Text("r".to_string())),
        ("expires_at".to_string(), Value::Int(5)),
    ]);
    assert_eq!(session_from_value(&v), Err(SessionError::Deserialization));
}

#[test]
fn decode_rejects_wrong_field_type() {
    let v = Value::Record(vec![
        ("access_token".to_string(), Value::Text("a".to_string())),
        ("refresh_token".to_string(), Value::Text("r".to_string())),
        ("expires_at".to_string(), Value::Text("5".to_string())),
        ("user_id".to_string(), Value::Text("u".to_string())),
    ]);
    assert_eq!(session_from_value(&v), Err(SessionError::Deserialization));
}

#[test]
fn decode_rejects_non_record() {
    assert_eq!(session_from_value(&Value::Null), Err(SessionError::Deserialization));
    assert_eq!(
        session_from_value(&Value::Text("x".to_string())),
        Err(SessionError::Deserialization)
    );
}

#[test]
fn get_reports_stored_value_of_wrong_shape() {
    let mut st = KvStore::new();
    st.insert("auth_session".to_string(), Value::List(vec![Value::Int(1)]));
    let h = Some(st);
    assert_eq!(get_auth_session(&h), Err(SessionError::Deserialization));
}

#[test]
fn error_messages() {
    assert_eq!(SessionError::StoreUnavailable.message(), "Store not initialized");
    assert_eq!(
        SessionError::Deserialization.message(),
        "Stored session has an unexpected shape"
    );
    assert_eq!(
        SessionError::Serialization("bad".to_string()).message(),
        "Could not serialize the store: bad"
    );
    assert_eq!(
        SessionError::Persistence("disk full".to_string()).message(),
        "Could not write the store to disk: disk full"
    );
    assert_eq!(
        SessionError::CorruptStore("eof".to_string()).message(),
        "Store file is corrupt: eof"
    );
}
