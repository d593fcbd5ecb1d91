//! What the service is started with.

use vstd::prelude::*;
use vstd::string::StringExecFns;

verus! {

/// The address under which clients reach the service, without a trailing
/// path: confirmation links start with it.
#[derive(Debug)]
pub struct ApplicationBaseUrl(pub String);

impl Clone for ApplicationBaseUrl {
    fn clone(&self) -> (c: Self)
        ensures
            c == *self,
    {
        ApplicationBaseUrl(self.0.clone())
    }
}

/// The text before the port in the address that the service listens on.
pub open spec fn listen_address_text(host: Seq<char>, port: Seq<char>) -> Seq<char> {
    host + ":"@ + port
}

/// The address that the service listens on: the host, a colon and the port,
/// where the port is `port_override` if there is one and `configured_port`
/// otherwise.
pub fn listen_address(host: &str, port_override: Option<String>, configured_port: &str) -> (address:
    String)
    ensures
        address@ == listen_address_text(
            host@,
            match port_override {
                Some(port) => port@,
                None => configured_port@,
            },
        ),
{
    let address = String::from_str(host).concat(":");
    match port_override {
        Some(port) => address.concat(port.as_str()),
        None => address.concat(configured_port),
    }
}

} // verus!
