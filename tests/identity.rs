use commerce::identity::{authenticate, decide_login, prepare_registration, LoginError, RegisterError, StoredCredentials};

fn s(v: &str) -> String {
    v.to_string()
}

#[test]
fn registration_needs_every_field() {
    assert_eq!(prepare_registration(s(""), s("a@b.c"), &s("pw")).unwrap_err(), RegisterError::MissingFields);
    assert_eq!(prepare_registration(s("ann"), s(""), &s("pw")).unwrap_err(), RegisterError::MissingFields);
    assert_eq!(prepare_registration(s("ann"), s("a@b.c"), &s("")).unwrap_err(), RegisterError::MissingFields);
}

#[test]
fn registered_password_logs_in() {
    let reg = prepare_registration(s("ann"), s("a@b.c"), &s("hunter2")).unwrap();
    assert_eq!(reg.username, "ann");
    assert_eq!(reg.password_hash.len(), 60);
    assert_ne!(reg.password_hash, "hunter2");
    let stored = || Some(StoredCredentials { user_id: s("u-1"), password_hash: reg.password_hash.clone() });
    assert_eq!(authenticate(stored(), &s("hunter2")), Ok(s("u-1")));
    assert_eq!(authenticate(stored(), &s("hunter3")), Err(LoginError::InvalidCredentials));
}

#[test]
fn unknown_user_and_unreadable_hash() {
    assert_eq!(authenticate(None, &s("pw")), Err(LoginError::InvalidCredentials));
    let bad = Some(StoredCredentials { user_id: s("u-2"), password_hash: s("not-a-hash") });
    assert_eq!(authenticate(bad, &s("pw")), Err(LoginError::VerificationFailed));
}

#[test]
fn login_verdicts() {
    assert_eq!(decide_login(s("u"), Some(true)), Ok(s("u")));
    assert_eq!(decide_login(s("u"), Some(false)), Err(LoginError::InvalidCredentials));
    assert_eq!(decide_login(s("u"), None), Err(LoginError::VerificationFailed));
}
