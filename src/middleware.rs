//! Middleware of the web examples: a greeter that wraps the next service, and
//! a login check that sends visitors who are not logged in to the login page.
use vstd::prelude::*;

verus! {

/// Factory of `SayHiMiddleware`.
pub struct SayHi;

/// Wraps the next service and greets each request.
pub struct SayHiMiddleware<S> {
    pub service: S,
}

impl SayHi {
    /// Wraps `service`.
    pub fn create<S>(&self, service: S) -> (r: SayHiMiddleware<S>)
        ensures
            r.service == service,
    {
        SayHiMiddleware { service }
    }
}

/// Factory of `CheckLoginMiddleware`.
pub struct CheckLogin;

/// Wraps the next service and lets through only logged-in visitors, and
/// anyone asking for the login page itself.
pub struct CheckLoginMiddleware<S> {
    pub service: S,
}

impl CheckLogin {
    /// Wraps `service`.
    pub fn create<S>(&self, service: S) -> (r: CheckLoginMiddleware<S>)
        ensures
            r.service == service,
    {
        CheckLoginMiddleware { service }
    }
}

/// Where a request for `path` is redirected: nowhere (it goes on to the
/// wrapped service) for a logged-in visitor or for the login page, else to
/// the login page.
pub fn login_redirect(is_logged_in: bool, path: &str) -> (r: Option<String>)
    ensures
        match r {
            None => is_logged_in || path@ == "/login"@,
            Some(target) => !is_logged_in && path@ != "/login"@ && target@ == "/login"@,
        },
{
    if is_logged_in || path.to_owned() == "/login".to_owned() {
        None
    } else {
        Some("/login".to_owned())
    }
}

} // verus!
