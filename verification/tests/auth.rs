use auth_service::auth::{
    AuthService, SignInRequest, SignOutRequest, SignUpRequest, StatusCode,
};
use auth_service::sessions::{Sessions, SessionsImpl};
use auth_service::users::{Users, UsersImpl};

#[test]
fn sign_in_should_fail_if_user_not_found() {
    let users_service = UsersImpl::default();
    let session_service = SessionsImpl::default();

    let mut auth_service = AuthService::new(users_service, session_service);

    let req = SignInRequest {
        username: "123456".to_owned(),
        password: "654321".to_owned(),
    };

    let result = auth_service.sign_in(req);

    assert_eq!(result.status_code, StatusCode::Failure);
    assert!(result.user_uuid.is_empty());
    assert!(result.session_token.is_empty());
}

#[test]
fn sign_in_should_fail_if_incorrect_password() {
    let mut users_service = UsersImpl::default();
    let session_service = SessionsImpl::default();
    let username = "mateus".to_owned();
    users_service
        .create_user(username.clone(), "password".to_owned())
        .unwrap();

    let mut auth_service = AuthService::new(users_service, session_service);

    let req = SignInRequest {
        username,
        password: "wrong_pass".to_owned(),
    };

    let result = auth_service.sign_in(req);
    assert_eq!(result.status_code, StatusCode::Failure);
    assert!(result.session_token.is_empty());
    assert!(result.user_uuid.is_empty());
}

#[test]
fn sign_in_should_succeed() {
    let mut users_sevice = UsersImpl::default();
    let sessions_service = SessionsImpl::default();
    let username = "Mateus".to_owned();
    let password = "password".to_owned();
    users_sevice
        .create_user(username.clone(), password.clone())
        .unwrap();

    let mut auth_service = AuthService::new(users_sevice, sessions_service);

    let req = SignInRequest { username, password };
    let result = auth_service.sign_in(req);

    assert_eq!(result.status_code, StatusCode::Success);
    assert_eq!(result.session_token.is_empty(), false);
    assert_eq!(result.user_uuid.is_empty(), false);
}

#[test]
fn sign_up_should_fail_if_username_exists() {
    let mut users_service = UsersImpl::default();
    let sessions_service = SessionsImpl::default();
    let username = "Mateus".to_owned();
    let password = "password".to_owned();
    users_service
        .create_user(username.clone(), password.clone())
        .unwrap();

    let mut auth_service = AuthService::new(users_service, sessions_service);
    let req = SignUpRequest { username, password };
    let res = auth_service.sign_up(req);

    assert_eq!(res.status_code, StatusCode::Failure);
}

#[test]
fn sign_up_should_succeed() {
    let users_service = UsersImpl::default();
    let sessions_service = SessionsImpl::default();

    let mut auth_service = AuthService::new(users_service, sessions_service);
    let username = "Mateus".to_owned();
    let password = "password".to_owned();
    let req = SignUpRequest { username, password };
    let result = auth_service.sign_up(req);

    assert_eq!(result.status_code, StatusCode::Success);
}

#[test]
fn sign_out_should_succeed() {
    let users_service = UsersImpl::default();
    let mut sessions_service = SessionsImpl::default();
    let session_token = sessions_service.create_session("user_uuid");

    let mut auth_service = AuthService::new(users_service, sessions_service);
    let req = SignOutRequest { session_token };
    let res = auth_service.sign_out(req);

    assert_eq!(res.status_code, StatusCode::Success);
}
