//! Servers that ask for no sign-in.

use vstd::prelude::*;

verus! {

/// A user of whom nothing is known.
#[derive(Clone, Copy, Debug, PartialEq, Eq, Structural)]
pub struct NoneUserInfo;

impl NoneUserInfo {
    pub fn username(&self) -> (r: Option<String>)
        ensures
            r is None,
    {
        None
    }

    pub fn subject(&self) -> (r: Option<String>)
        ensures
            r is None,
    {
        None
    }

    pub fn email(&self) -> (r: Option<String>)
        ensures
            r is None,
    {
        None
    }

    /// The user never has to sign in again.
    pub fn is_valid(&self) -> (r: bool)
        ensures
            r,
    {
        true
    }

    pub fn bearer_token(&self) -> (r: Option<String>)
        ensures
            r is None,
    {
        None
    }
}

/// Signs in to servers that ask for no sign-in.
#[derive(Clone, Copy, Debug, PartialEq, Eq, Structural)]
pub struct NoneAuthenticator {}

impl NoneAuthenticator {
    pub fn new() -> (r: NoneAuthenticator)
        ensures
            r == (NoneAuthenticator {  }),
    {
        NoneAuthenticator {  }
    }

    /// The user, at once.
    pub fn interactive_authenticate(&self) -> (r: NoneUserInfo)
        ensures
            r == NoneUserInfo,
    {
        NoneUserInfo
    }

    /// The user, without any question asked.
    pub fn immediate_authenticate(&self) -> (r: Option<NoneUserInfo>)
        ensures
            r == Some(NoneUserInfo),
    {
        Some(NoneUserInfo)
    }

    /// The name of the way to sign in.
    pub fn provider(&self) -> (r: String)
        ensures
            r@ == "none"@,
    {
        "none".to_owned()
    }
}

} // verus!
