//! The top-level routing configuration: gateways, where they listen,
//! whom they accept, and where they forward.

use vstd::prelude::*;
use vstd::string::StringExecFns;

verus! {

/// A listening address: host and port.
pub struct InetAddress {
    pub host: String,
    pub port: u16,
}

/// The decimal digits of `n`.
pub open spec fn decimal_spec(n: int) -> Seq<char>
    decreases n,
{
    if n < 10 {
        digit_spec(n)
    } else {
        decimal_spec(n / 10) + digit_spec(n % 10)
    }
}

/// One decimal digit as a character sequence.
pub open spec fn digit_spec(d: int) -> Seq<char> {
    if d == 0 {
        "0"@
    } else if d == 1 {
        "1"@
    } else if d == 2 {
        "2"@
    } else if d == 3 {
        "3"@
    } else if d == 4 {
        "4"@
    } else if d == 5 {
        "5"@
    } else if d == 6 {
        "6"@
    } else if d == 7 {
        "7"@
    } else if d == 8 {
        "8"@
    } else {
        "9"@
    }
}

fn digit_str(d: u16) -> (s: &'static str)
    requires
        d < 10,
    ensures
        s@ == digit_spec(d as int),
{
    match d {
        0 => "0",
        1 => "1",
        2 => "2",
        3 => "3",
        4 => "4",
        5 => "5",
        6 => "6",
        7 => "7",
        8 => "8",
        _ => "9",
    }
}

fn push_decimal(out: &mut String, n: u16)
    ensures
        final(out)@ == old(out)@ + decimal_spec(n as int),
    decreases n,
{
    if n < 10 {
        out.append(digit_str(n));
    } else {
        push_decimal(out, n / 10);
        out.append(digit_str(n % 10));
    }
}

impl InetAddress {
    /// The address as it is bound: `host:port`.
    pub fn get_formatted_address(&self) -> (r: String)
        ensures
            r@ == self.host@ + ":"@ + decimal_spec(self.port as int),
    {
        let mut out: String = self.host.as_str().to_owned();
        out.append(":");
        push_decimal(&mut out, self.port);
        out
    }
}

/// A client-facing host the gateway accepts requests for.
pub struct Downstream {
    pub host: String,
}

/// A backend the gateway can forward requests to.
pub struct Backend {
    pub name: String,
    pub address: InetAddress,
}

/// A forwarding rule: requests whose path starts with the prefix go to
/// the named backend.
pub struct Route {
    pub path_prefix: String,
    pub backend: String,
}

/// One gateway: where it listens, whom it accepts, where it forwards.
pub struct Gateway {
    pub bind_addresses: Vec<InetAddress>,
    pub downstreams: Vec<Downstream>,
    pub backends: Vec<Backend>,
    pub routes: Vec<Route>,
}

/// The whole routing configuration: every configured gateway.
pub struct Router {
    pub gateways: Vec<Gateway>,
}

} // verus!
