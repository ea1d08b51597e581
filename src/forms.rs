//! Form and JSON payloads of the web examples.
use vstd::prelude::*;
use vstd::string::*;

verus! {

/// The form posted to the greeting handlers.
#[derive(Debug, Clone)]
pub struct MyParams {
    pub name: String,
}

impl MyParams {
    /// The plain-text answer to a posted form: "Your name is " and the name.
    pub fn greeting(&self) -> (r: String)
        ensures
            r@ == "Your name is "@ + self.name@,
    {
        let mut r = "Your name is ".to_owned();
        r.append(self.name.as_str());
        r
    }
}

/// Credentials posted to the login handler.
#[derive(Debug, Clone)]
pub struct AuthData {
    pub email: String,
    pub password: String,
}

/// The address an invitation is sent to.
#[derive(Debug, Clone)]
pub struct InvitationData {
    pub email: String,
}

} // verus!
