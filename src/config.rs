//! The credentials of the booking system.
use vstd::prelude::*;

verus! {

/// The login and password of the booking system's account.
pub struct Config {
    pub cinegestion_login: String,
    pub cinegestion_password: String,
}

} // verus!
