use vstd::prelude::*;
use core::time::Duration;
use crate::hex::{hex_digit, push_hex_digit};

verus! {

/// Decimal digits of `n`, most significant first, without leading zeros.
pub open spec fn decimal(n: nat) -> Seq<char>
    decreases n,
{
    if n < 10 {
        seq![hex_digit(n as int)]
    } else {
        decimal(n / 10).push(hex_digit((n % 10) as int))
    }
}

/// `host:port`, the value of the `Host` header.
pub open spec fn target_spec(host: Seq<char>, port: nat) -> Seq<char> {
    host + ":"@ + decimal(port)
}

/// The request for the bytes of the root resource from `start` on.
pub open spec fn request_spec(target: Seq<char>, start: nat) -> Seq<char> {
    "GET / HTTP/1.1\r\nHost: "@ + target + "\r\nRange: bytes="@ + decimal(start)
        + "-\r\nConnection: close\r\nUser-Agent: RustStdNetClient/1.0\r\n\r\n"@
}

fn push_decimal(s: &mut String, n: usize)
    ensures
        final(s)@ == old(s)@ + decimal(n as nat),
    decreases n,
{
    if n >= 10 {
        push_decimal(s, n / 10);
    }
    push_hex_digit(s, (n % 10) as u8);
    proof {
        if n < 10 {
            assert(old(s)@.push(hex_digit(n as int)) =~= old(s)@ + seq![hex_digit(n as int)]);
        } else {
            assert((old(s)@ + decimal((n / 10) as nat)).push(hex_digit((n % 10) as int))
                =~= old(s)@ + decimal((n / 10) as nat).push(hex_digit((n % 10) as int)));
        }
    }
}

/// The request line and headers asking for an open-ended range that
/// starts at `start_byte`.
pub fn build_request(target_host: &str, start_byte: usize) -> (r: String)
    ensures
        r@ == request_spec(target_host@, start_byte as nat),
{
    let mut r = String::from_str("GET / HTTP/1.1\r\nHost: ");
    r.append(target_host);
    r.append("\r\nRange: bytes=");
    push_decimal(&mut r, start_byte);
    r.append("-\r\nConnection: close\r\nUser-Agent: RustStdNetClient/1.0\r\n\r\n");
    assert(r@ =~= request_spec(target_host@, start_byte as nat));
    r
}

/// Where and how to connect for each ranged fetch.
pub struct HttpClient {
    host: String,
    port: u16,
    connect_timeout: Duration,
    read_write_timeout: Duration,
}

impl HttpClient {
    pub fn new(host: String, port: u16, connect_timeout: Duration, read_write_timeout: Duration) -> (r: HttpClient)
        ensures
            r.host_spec() == host@,
            r.port_spec() == port,
            r.connect_timeout_spec() == connect_timeout,
            r.read_write_timeout_spec() == read_write_timeout,
    {
        HttpClient { host, port, connect_timeout, read_write_timeout }
    }

    pub closed spec fn host_spec(&self) -> Seq<char> {
        self.host@
    }

    pub closed spec fn port_spec(&self) -> u16 {
        self.port
    }

    pub closed spec fn connect_timeout_spec(&self) -> Duration {
        self.connect_timeout
    }

    pub closed spec fn read_write_timeout_spec(&self) -> Duration {
        self.read_write_timeout
    }

    /// The `host:port` string, used both to resolve the address and as the
    /// `Host` header.
    pub fn target(&self) -> (r: String)
        ensures
            r@ == target_spec(self.host_spec(), self.port_spec() as nat),
    {
        let mut r = self.host.clone();
        r.append(":");
        push_decimal(&mut r, self.port as usize);
        assert(r@ =~= target_spec(self.host_spec(), self.port_spec() as nat));
        r
    }

    /// The request that asks for the resource from `start_byte` on.
    pub fn request(&self, start_byte: usize) -> (r: String)
        ensures
            r@ == request_spec(target_spec(self.host_spec(), self.port_spec() as nat), start_byte as nat),
    {
        let t = self.target();
        build_request(t.as_str(), start_byte)
    }

    pub fn connect_timeout(&self) -> (r: Duration)
        ensures
            r == self.connect_timeout_spec(),
    {
        self.connect_timeout
    }

    pub fn read_write_timeout(&self) -> (r: Duration)
        ensures
            r == self.read_write_timeout_spec(),
    {
        self.read_write_timeout
    }
}

} // verus!
