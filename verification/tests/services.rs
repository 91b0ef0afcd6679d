use proximiti_server::config::Config;
use proximiti_server::crypt::pwd::{hash_password, verify_password};
use proximiti_server::crypt::token::{create_token_at, verify_token, verify_token_at, TokenCodec};
use proximiti_server::services::user::error::Error;
use proximiti_server::services::user::{
    AuthUser, AuthenticatedUser, Lookup, NewUser, SignUp, StoreReply, User, UserService,
};

const T0: i64 = 1_700_000_000;
const SALT: &str = "c29tZXNhbHR2YWx1ZTEyMw";

fn codec() -> TokenCodec {
    TokenCodec::new(b"an example of a signing secret".to_vec(), 3600)
}

fn service() -> UserService {
    UserService::new(codec())
}

fn alice() -> User {
    User { username: "alice".to_string(), password: "hunter2".to_string() }
}

fn stored_alice() -> AuthUser {
    AuthUser {
        id: 42,
        password: hash_password(b"hunter2").unwrap(),
        username: "alice".to_string(),
        profile_picture_url: Some("https://example.org/a.png".to_string()),
    }
}

fn new_alice() -> NewUser {
    NewUser { id: 43, profile_picture_url: None, username: "alice".to_string() }
}

fn error_of(outcome: Result<AuthenticatedUser, Error>) -> Error {
    match outcome {
        Ok(_) => panic!("expected an error"),
        Err(e) => e,
    }
}

fn done(step: SignUp) -> Result<AuthenticatedUser, Error> {
    match step {
        SignUp::Done(outcome) => outcome,
        _ => panic!("expected the end"),
    }
}

#[test]
fn stored_user_becomes_authenticated_user() {
    let user = stored_alice().into_authenticated_user("a.token".to_string());
    assert_eq!(user.id, 42);
    assert_eq!(user.token, "a.token");
    assert_eq!(user.username, "alice");
    assert_eq!(user.profile_picture_url.as_deref(), Some("https://example.org/a.png"));
}

#[test]
fn login_with_the_right_password_gives_a_token() {
    let user = service().verify_password_at(&alice(), Lookup::Found(stored_alice()), T0).unwrap();
    assert_eq!(user.id, 42);
    assert_eq!(user.username, "alice");
    assert_eq!(user.profile_picture_url.as_deref(), Some("https://example.org/a.png"));
    assert_eq!(user.token, create_token_at(&codec(), 42, T0).unwrap());
    assert_eq!(verify_token_at(&codec(), &user.token, T0 + 10), Ok(42));
}

#[test]
fn login_with_a_wrong_password_or_an_unknown_name_is_one_error() {
    let wrong = User { username: "alice".to_string(), password: "hunter3".to_string() };
    let outcome = service().verify_password_at(&wrong, Lookup::Found(stored_alice()), T0);
    assert_eq!(error_of(outcome), Error::UsernamePasswordError);
    let outcome = service().verify_password_at(&alice(), Lookup::Missing, T0);
    assert_eq!(error_of(outcome), Error::UsernamePasswordError);
}

#[test]
fn login_against_a_failed_store_or_a_damaged_record_is_internal() {
    let outcome = service().verify_password_at(&alice(), Lookup::Failed, T0);
    assert_eq!(error_of(outcome), Error::InternalError);
    let mut damaged = stored_alice();
    damaged.password = "hunter2".to_string();
    let outcome = service().verify_password_at(&alice(), Lookup::Found(damaged), T0);
    assert_eq!(error_of(outcome), Error::InternalError);
}

#[test]
fn login_with_the_clock_gives_a_token_that_verifies() {
    let user = service().verify_password(&alice(), Lookup::Found(stored_alice())).unwrap();
    assert_eq!(user.id, 42);
    assert_eq!(verify_token(&codec(), &user.token), Ok(42));
    let outcome = service().verify_password(&alice(), Lookup::Missing);
    assert_eq!(error_of(outcome), Error::UsernamePasswordError);
}

#[test]
fn sign_up_hashes_first_and_asks_for_the_name() {
    match service().add_user_with_salt(alice(), SALT) {
        SignUp::CheckName { username, record } => {
            assert_eq!(username, "alice");
            assert_ne!(record, "hunter2");
            assert!(record.contains(SALT));
            assert_eq!(verify_password(b"hunter2", &record), Ok(()));
        }
        _ => panic!("expected the name check"),
    }
    match service().add_user(alice()) {
        SignUp::CheckName { username, record } => {
            assert_eq!(username, "alice");
            assert_eq!(verify_password(b"hunter2", &record), Ok(()));
        }
        _ => panic!("expected the name check"),
    }
}

#[test]
fn sign_up_with_a_refused_salt_ends_as_internal() {
    let step = service().add_user_with_salt(alice(), "bad salt");
    assert_eq!(error_of(done(step)), Error::InternalError);
}

#[test]
fn sign_up_with_a_taken_name_ends() {
    let step = service().add_user_with_salt(alice(), SALT);
    let step = service().resume_at(step, StoreReply::NameTaken(true), T0);
    assert_eq!(error_of(done(step)), Error::UsernameTaken);
}

#[test]
fn sign_up_with_a_free_name_goes_on_to_insert() {
    let first = service().add_user_with_salt(alice(), SALT);
    let expected = match &first {
        SignUp::CheckName { record, .. } => record.clone(),
        _ => panic!("expected the name check"),
    };
    match service().resume_at(first, StoreReply::NameTaken(false), T0) {
        SignUp::Insert { username, record } => {
            assert_eq!(username, "alice");
            assert_eq!(record, expected);
        }
        _ => panic!("expected the insert"),
    }
}

#[test]
fn sign_up_ends_with_a_token_for_the_new_user() {
    let step = service().add_user_with_salt(alice(), SALT);
    let step = service().resume_at(step, StoreReply::NameTaken(false), T0);
    let step = service().resume_at(step, StoreReply::Inserted(new_alice()), T0);
    let user = done(step).unwrap();
    assert_eq!(user.id, 43);
    assert_eq!(user.username, "alice");
    assert_eq!(user.profile_picture_url, None);
    assert_eq!(user.token, create_token_at(&codec(), 43, T0).unwrap());
    assert_eq!(verify_token_at(&codec(), &user.token, T0 + 3599), Ok(43));
}

#[test]
fn sign_up_with_the_clock_ends_with_a_token_that_verifies() {
    let step = service().add_user(alice());
    let step = service().resume(step, StoreReply::NameTaken(false));
    let step = service().resume(step, StoreReply::Inserted(new_alice()));
    let user = done(step).unwrap();
    assert_eq!(verify_token(&codec(), &user.token), Ok(43));
}

#[test]
fn sign_up_that_the_store_fails_ends_in_the_step_s_error() {
    let step = service().add_user_with_salt(alice(), SALT);
    let step = service().resume_at(step, StoreReply::Failed, T0);
    assert_eq!(error_of(done(step)), Error::InternalError);
    let step = service().add_user_with_salt(alice(), SALT);
    let step = service().resume_at(step, StoreReply::NameTaken(false), T0);
    let step = service().resume_at(step, StoreReply::Failed, T0);
    assert_eq!(error_of(done(step)), Error::UnableToCreateUser);
}

#[test]
fn sign_up_answers_out_of_turn_end_as_internal() {
    let step = service().add_user_with_salt(alice(), SALT);
    let step = service().resume_at(step, StoreReply::Inserted(new_alice()), T0);
    assert_eq!(error_of(done(step)), Error::InternalError);
    let step = service().add_user_with_salt(alice(), SALT);
    let step = service().resume_at(step, StoreReply::NameTaken(false), T0);
    let step = service().resume_at(step, StoreReply::NameTaken(false), T0);
    assert_eq!(error_of(done(step)), Error::InternalError);
}

#[test]
fn sign_up_that_is_done_stays_done() {
    let step = SignUp::Done(Err(Error::UsernameTaken));
    let step = service().resume_at(step, StoreReply::NameTaken(false), T0);
    assert_eq!(error_of(done(step)), Error::UsernameTaken);
    let step = service().add_user_with_salt(alice(), SALT);
    let step = service().resume_at(step, StoreReply::NameTaken(false), T0);
    let step = service().resume_at(step, StoreReply::Inserted(new_alice()), T0);
    let step = service().resume_at(step, StoreReply::Failed, T0 + 5);
    let user = done(step).unwrap();
    assert_eq!(user.token, create_token_at(&codec(), 43, T0).unwrap());
}

#[test]
fn search_pattern_matches_a_prefix() {
    assert_eq!(UserService::search_pattern("al".to_string()), "al%");
    assert_eq!(UserService::search_pattern(String::new()), "%");
}

#[test]
fn config_gives_the_codec_it_describes() {
    let config = Config::new(
        "postgres://db".to_string(),
        "s3".to_string(),
        "cache".to_string(),
        "unused".to_string(),
        3600,
        "web".to_string(),
        "an example of a signing secret".to_string(),
    );
    let _ = config.check();
    assert_eq!(config.token_duration_sec, 3600);
    let issued = create_token_at(&config.token_codec(), 42, T0).unwrap();
    assert_eq!(issued, create_token_at(&codec(), 42, T0).unwrap());
    assert_eq!(config.token_codec().ttl_seconds(), 3600);
    let service = UserService::new(config.token_codec());
    assert_eq!(service.token_codec().ttl_seconds(), 3600);
}
