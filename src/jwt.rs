//! A JSON Web Token held as its compact text.
use vstd::prelude::*;

verus! {

/// A wrapper around a JSON Web Token.
pub struct Jwt(String);

impl View for Jwt {
    type V = Seq<char>;

    closed spec fn view(&self) -> Seq<char> {
        self.0@
    }
}

impl Jwt {
    /// Creates a new `Jwt`.
    pub fn new(jwt_string: String) -> (r: Self)
        ensures
            r@ == jwt_string@,
    {
        Jwt(jwt_string)
    }

    /// Returns a reference of the JWT string.
    pub fn as_string(&self) -> (r: &String)
        ensures
            r@ == self@,
    {
        &self.0
    }

    /// Hands back the JWT string.
    pub fn into_string(self) -> (r: String)
        ensures
            r@ == self@,
    {
        self.0
    }
}

impl From<String> for Jwt {
    fn from(jwt: String) -> (r: Self)
        ensures
            r@ == jwt@,
    {
        Jwt(jwt)
    }
}

impl vstd::std_specs::convert::FromSpecImpl<String> for Jwt {
    open spec fn obeys_from_spec() -> bool {
        true
    }

    closed spec fn from_spec(jwt: String) -> Jwt {
        Jwt(jwt)
    }
}

impl From<Jwt> for String {
    fn from(jwt: Jwt) -> (r: Self)
        ensures
            r@ == jwt@,
    {
        jwt.0
    }
}

impl vstd::std_specs::convert::FromSpecImpl<Jwt> for String {
    open spec fn obeys_from_spec() -> bool {
        true
    }

    closed spec fn from_spec(jwt: Jwt) -> String {
        jwt.0
    }
}

} // verus!
