use chat_relay::errors::CustomError;
use chat_relay::forms::{AuthData, InvitationData, MyParams};
use chat_relay::middleware::{login_redirect, CheckLogin, SayHi};
use chat_relay::rpc::ObjNetwork;

#[test]
fn rpc_counter() {
    let mut n = ObjNetwork::new();
    assert_eq!(n.get(), 0);
    n.inc();
    n.inc();
    assert_eq!(n.get(), 2);
    assert_eq!(n.ping(), "pong");
}

#[test]
fn custom_error_statuses() {
    assert_eq!(CustomError::CustomOne.status_code(), 403);
    assert_eq!(CustomError::CustomTwo.status_code(), 401);
    assert_eq!(CustomError::CustomThree.status_code(), 500);
    assert_eq!(CustomError::CustomFour.status_code(), 400);
}

#[test]
fn custom_error_from_index_and_text() {
    assert_eq!(CustomError::from_index(0), CustomError::CustomOne);
    assert_eq!(CustomError::from_index(1), CustomError::CustomTwo);
    assert_eq!(CustomError::from_index(2), CustomError::CustomThree);
    assert_eq!(CustomError::from_index(3), CustomError::CustomFour);
    assert_eq!(CustomError::from_index(77), CustomError::CustomFour);
    assert_eq!(CustomError::CustomThree.message(), "Custom Error 3");
}

#[test]
fn greeting_names_the_poster() {
    let p = MyParams { name: "John".to_string() };
    assert_eq!(p.greeting(), "Your name is John");
}

#[test]
fn payloads_hold_their_fields() {
    let a = AuthData { email: "a@b.c".to_string(), password: "pw".to_string() };
    let i = InvitationData { email: a.email.clone() };
    assert_eq!(i.email, "a@b.c");
    assert_eq!(a.password, "pw");
}

#[test]
fn login_check() {
    assert_eq!(login_redirect(false, "/"), Some("/login".to_string()));
    assert_eq!(login_redirect(false, "/login"), None);
    assert_eq!(login_redirect(true, "/"), None);
    let m = CheckLogin.create(5u8);
    assert_eq!(m.service, 5);
    let h = SayHi.create("next");
    assert_eq!(h.service, "next");
}
