//! Client configuration: which server a checkout talks to, and with which token.

use vstd::prelude::*;
use vstd::string::*;

verus! {

/// The settings of one checkout.
pub struct Configuration {
    pub server: String,
    pub auth_server: String,
    pub token: String,
    /// The project this checkout is linked to, once one was chosen.
    pub name: Option<String>,
}

/// The server a configuration points at when none was written down.
pub fn default_server() -> (r: String)
    ensures
        r@ == "https://stellular.org"@,
{
    String::from_str("https://stellular.org")
}

/// The identity server a configuration points at when none was written down.
pub fn default_auth_server() -> (r: String)
    ensures
        r@ == "https://orion.stellular.net"@,
{
    String::from_str("https://orion.stellular.net")
}

/// The token that stands for "no token was given".
pub fn default_token() -> (r: String)
    ensures
        r@ == "NO_TOKEN_PROVIDED"@,
{
    String::from_str("NO_TOKEN_PROVIDED")
}

impl Configuration {
    /// True when the configuration carries a token other than the default one.
    pub open spec fn spec_has_token(&self) -> bool {
        self.token@ != "NO_TOKEN_PROVIDED"@
    }

    /// Whether the configuration carries a token other than the default one.
    pub fn has_token(&self) -> (r: bool)
        ensures
            r == self.spec_has_token(),
    {
        let none = default_token();
        !(self.token == none)
    }
}

impl Default for Configuration {
    fn default() -> (r: Self)
        ensures
            r.server@ == "https://stellular.org"@,
            r.auth_server@ == "https://orion.stellular.net"@,
            r.token@ == "NO_TOKEN_PROVIDED"@,
            r.name is None,
    {
        Configuration {
            server: default_server(),
            auth_server: default_auth_server(),
            token: default_token(),
            name: None,
        }
    }
}

} // verus!
