use vstd::prelude::*;

verus! {

/// The base URL under which the application is reached, from which the links
/// that it sends out are made.
pub struct ApplicationBaseUrl(pub String);

} // verus!
