//! The Maya payment provider.
use vstd::prelude::*;
use vstd::string::StringExecFns;

pub mod data_transfer_objects;

verus! {

pub const MAYA_PROVIDER_NAME: &'static str = "Maya";

pub const CHECKOUT_SESSIONS_PATH: &'static str = "v1/checkout_sessions";

/// How to reach the provider.
#[derive(Debug)]
pub struct MayaProvider {
    base_url: String,
    secret_base64: String,
}

impl MayaProvider {
    /// The address of the provider.
    pub closed spec fn base_url(&self) -> Seq<char> {
        self.base_url@
    }

    /// The secret that requests to the provider are signed with.
    pub closed spec fn secret_base64(&self) -> Seq<char> {
        self.secret_base64@
    }

    pub fn new(base_url: String, secret_base64: String, payment_method_types: Vec<String>) -> (r:
        Self)
        ensures
            r.base_url() == base_url@,
            r.secret_base64() == secret_base64@,
    {
        MayaProvider { base_url, secret_base64 }
    }

    pub fn get_name(&self) -> (r: String)
        ensures
            r@ == MAYA_PROVIDER_NAME@,
    {
        MAYA_PROVIDER_NAME.to_owned()
    }

    /// The address that checkouts are opened at.
    pub fn checkout_sessions_url(&self) -> (r: String)
        ensures
            r@ == self.base_url() + seq!['/'] + CHECKOUT_SESSIONS_PATH@,
    {
        proof {
            reveal_strlit("/");
        }
        let slash = "/";
        assert(slash@ =~= seq!['/']);
        self.base_url.clone().concat(slash).concat(CHECKOUT_SESSIONS_PATH)
    }

    /// The authorization header of a request to the provider.
    pub fn authorization(&self) -> (r: String)
        ensures
            r@ == "Basic "@ + self.secret_base64(),
    {
        "Basic ".to_owned().concat(self.secret_base64.as_str())
    }
}

} // verus!
