use vstd::prelude::*;

verus! {

/// The form of a subscription request.
pub struct FormData {
    pub name: String,
    pub email: String,
}

/// The query of a confirmation link.
pub struct Parameters {
    pub subscription_token: String,
}

/// The HTTP status of a success.
pub const OK: u16 = 200;

/// The HTTP status of a request with an unknown token.
pub const UNAUTHORIZED: u16 = 401;

/// The HTTP status of a fault on the server's side.
pub const INTERNAL_SERVER_ERROR: u16 = 500;

/// What to do after looking up the subscriber of a confirmation token.
#[derive(Debug, Clone, Copy, PartialEq, Eq, Structural)]
pub enum ConfirmStep {
    /// Answer with this status and stop.
    Respond(u16),
    /// Mark the subscriber with this identifier as confirmed.
    MarkConfirmed(u128),
}

/// Decides on the answer to a token lookup: a store fault is a server error,
/// an unknown token is refused, a known one leads to its subscriber.
pub fn after_token_lookup(lookup: Result<Option<u128>, String>) -> (r: ConfirmStep)
    ensures
        r == match lookup {
            Err(_) => ConfirmStep::Respond(INTERNAL_SERVER_ERROR),
            Ok(None) => ConfirmStep::Respond(UNAUTHORIZED),
            Ok(Some(id)) => ConfirmStep::MarkConfirmed(id),
        },
{
    match lookup {
        Err(_) => ConfirmStep::Respond(INTERNAL_SERVER_ERROR),
        Ok(None) => ConfirmStep::Respond(UNAUTHORIZED),
        Ok(Some(id)) => ConfirmStep::MarkConfirmed(id),
    }
}

/// The status that answers a confirmation once the subscriber was marked:
/// success, or a server error when the store refused the update.
pub fn after_confirmation(marked: Result<(), String>) -> (r: u16)
    ensures
        r == match marked {
            Ok(_) => OK,
            Err(_) => INTERNAL_SERVER_ERROR,
        },
{
    match marked {
        Ok(_) => OK,
        Err(_) => INTERNAL_SERVER_ERROR,
    }
}

/// The status that answers a subscription once it was stored: success, or a
/// server error when the store refused it.
pub fn after_subscription(stored: Result<(), String>) -> (r: u16)
    ensures
        r == match stored {
            Ok(_) => OK,
            Err(_) => INTERNAL_SERVER_ERROR,
        },
{
    match stored {
        Ok(_) => OK,
        Err(_) => INTERNAL_SERVER_ERROR,
    }
}

} // verus!
