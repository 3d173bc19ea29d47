use auth_service::users::{CreateUserError, Users, UsersImpl};

#[test]
fn should_create_user() {
    let mut user_service = UsersImpl::default();
    user_service
        .create_user("username".to_owned(), "password".to_owned())
        .expect("Should create user");

    assert_eq!(user_service.user_count(), 1);
}

#[test]
fn should_fail_creating_user_with_existing_username() {
    let mut user_service = UsersImpl::default();
    user_service
        .create_user("username".to_owned(), "password".to_owned())
        .expect("Should create user");

    let result = user_service.create_user("username".to_owned(), "password".to_owned());

    assert!(result.is_err());
    assert_eq!(result, Err(CreateUserError::DuplicateUsername));
}

#[test]
fn should_retrieve_user_uuid() {
    let mut user_service = UsersImpl::default();
    user_service
        .create_user("username".to_owned(), "password".to_owned())
        .expect("Should create user");

    assert!(user_service
        .get_user_uuid("username".to_owned(), "password".to_owned())
        .is_some())
}

#[test]
fn should_fail_to_retrieve_on_inesistent_user_or_incorrect_password() {
    let mut user_service = UsersImpl::default();
    assert!(user_service
        .get_user_uuid("username".to_owned(), "password".to_owned())
        .is_none());

    user_service
        .create_user("username".to_owned(), "password".to_owned())
        .expect("Should create user");

    assert!(user_service
        .get_user_uuid("username".to_owned(), "incorrect_password".to_owned())
        .is_none())
}

#[test]
fn should_delete_user() {
    let mut user_service = UsersImpl::default();

    user_service
        .create_user("username".to_owned(), "password".to_owned())
        .expect("Should create user");
    assert_eq!(user_service.user_count(), 1);

    let user_uuid = user_service
        .get_user_uuid("username".to_owned(), "password".to_owned())
        .expect("User not found");

    user_service.delete_user(user_uuid);
    assert_eq!(user_service.user_count(), 0);
}

#[test]
fn delete_user_is_idempotent_and_ignores_unknown_ids() {
    let mut user_service = UsersImpl::default();
    user_service
        .create_user("username".to_owned(), "password".to_owned())
        .expect("Should create user");

    user_service.delete_user("no_such_id".to_owned());
    assert_eq!(user_service.user_count(), 1);

    let user_uuid = user_service
        .get_user_uuid("username".to_owned(), "password".to_owned())
        .expect("User not found");
    user_service.delete_user(user_uuid.clone());
    user_service.delete_user(user_uuid);
    assert_eq!(user_service.user_count(), 0);
}

#[test]
fn duplicate_registration_leaves_exactly_one_account() {
    let mut user_service = UsersImpl::default();
    let first = user_service.create_user("username".to_owned(), "password".to_owned());
    let second = user_service.create_user("username".to_owned(), "another".to_owned());

    assert!(first.is_ok());
    assert_eq!(second, Err(CreateUserError::DuplicateUsername));
    assert_eq!(user_service.user_count(), 1);
}
