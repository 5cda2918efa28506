//! Small wrapper types that the application wiring hands to the handlers.

use vstd::prelude::*;

verus! {

/// The application's public base URL.  A dedicated wrapper type, so that
/// handlers can retrieve it from the application context by type without
/// clashing with other strings.
pub struct ApplicationBaseUrl(pub String);

/// The secret key that authenticates the login flow's error query string.
pub struct HmacSecret(pub String);

} // verus!
