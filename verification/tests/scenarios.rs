use auth_service::auth::{
    AuthService, SignInRequest, SignOutRequest, SignUpRequest, StatusCode,
};
use auth_service::sessions::SessionsImpl;
use auth_service::users::UsersImpl;

fn fresh_service() -> AuthService<UsersImpl, SessionsImpl> {
    AuthService::new(UsersImpl::default(), SessionsImpl::default())
}

fn sign_up(
    auth: &mut AuthService<UsersImpl, SessionsImpl>,
    username: &str,
    password: &str,
) -> StatusCode {
    auth.sign_up(SignUpRequest {
        username: username.to_owned(),
        password: password.to_owned(),
    })
    .status_code
}

#[test]
fn second_sign_up_with_same_username_fails() {
    let mut auth = fresh_service();
    assert_eq!(sign_up(&mut auth, "alice", "p1"), StatusCode::Success);
    assert_eq!(sign_up(&mut auth, "alice", "p2"), StatusCode::Failure);
}

#[test]
fn sign_in_with_registered_pair_succeeds_and_wrong_password_fails() {
    let mut auth = fresh_service();
    assert_eq!(sign_up(&mut auth, "bob", "secret"), StatusCode::Success);

    let ok = auth.sign_in(SignInRequest {
        username: "bob".to_owned(),
        password: "secret".to_owned(),
    });
    assert_eq!(ok.status_code, StatusCode::Success);
    assert!(!ok.user_uuid.is_empty());
    assert!(!ok.session_token.is_empty());

    let bad = auth.sign_in(SignInRequest {
        username: "bob".to_owned(),
        password: "wrong".to_owned(),
    });
    assert_eq!(bad.status_code, StatusCode::Failure);
    assert!(bad.user_uuid.is_empty());
    assert!(bad.session_token.is_empty());
}

#[test]
fn sign_in_on_empty_store_fails_with_empty_ids() {
    let mut auth = fresh_service();
    let res = auth.sign_in(SignInRequest {
        username: "ghost".to_owned(),
        password: "x".to_owned(),
    });
    assert_eq!(res.status_code, StatusCode::Failure);
    assert!(res.user_uuid.is_empty());
    assert!(res.session_token.is_empty());
}

#[test]
fn sign_out_is_idempotent() {
    let mut auth = fresh_service();
    assert_eq!(sign_up(&mut auth, "carol", "pw"), StatusCode::Success);
    let res = auth.sign_in(SignInRequest {
        username: "carol".to_owned(),
        password: "pw".to_owned(),
    });
    assert_eq!(res.status_code, StatusCode::Success);

    let first = auth.sign_out(SignOutRequest {
        session_token: res.session_token.clone(),
    });
    assert_eq!(first.status_code, StatusCode::Success);

    let again = auth.sign_out(SignOutRequest {
        session_token: res.session_token,
    });
    assert_eq!(again.status_code, StatusCode::Success);
}

#[test]
fn sign_out_of_a_never_issued_token_succeeds() {
    let mut auth = fresh_service();
    let res = auth.sign_out(SignOutRequest {
        session_token: "never_issued".to_owned(),
    });
    assert_eq!(res.status_code, StatusCode::Success);
}

#[test]
fn duplicate_sign_ups_leave_one_success_and_one_failure() {
    let mut auth = fresh_service();
    let first = sign_up(&mut auth, "dave", "pw");
    let second = sign_up(&mut auth, "dave", "pw");
    assert_eq!(first, StatusCode::Success);
    assert_eq!(second, StatusCode::Failure);
}

#[test]
fn each_sign_in_mints_a_fresh_token() {
    let mut auth = fresh_service();
    assert_eq!(sign_up(&mut auth, "erin", "pw"), StatusCode::Success);

    let first = auth.sign_in(SignInRequest {
        username: "erin".to_owned(),
        password: "pw".to_owned(),
    });
    let second = auth.sign_in(SignInRequest {
        username: "erin".to_owned(),
        password: "pw".to_owned(),
    });
    assert_eq!(first.status_code, StatusCode::Success);
    assert_eq!(second.status_code, StatusCode::Success);
    assert_eq!(first.user_uuid, second.user_uuid);
    assert_ne!(first.session_token, second.session_token);
}
