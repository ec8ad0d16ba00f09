//! WiFi station logic: the credentials the driver is configured with, which
//! ones a reconnect uses, and how addresses are written.  The driver itself
//! is run by the application.
use crate::bounded::{
    medium_as_str, medium_bytes, medium_new, medium_push_str, short_as_str, short_bytes,
    short_new, short_push_str,
};
use crate::text::{decimal, push_decimal};
use vstd::prelude::*;
use vstd::string::StringSliceAdditionalSpecFns;

verus! {

/// Most bytes an SSID can have.
pub const MAX_SSID_BYTES: usize = 32;

/// Most bytes a password can have.
pub const MAX_PASSWORD_BYTES: usize = 64;

/// Why credentials cannot be configured.
#[derive(Debug, Clone, Copy, PartialEq, Eq, Structural)]
pub enum WifiError {
    SsidTooLong,
    PasswordTooLong,
}

pub open spec fn wifi_error_text(e: WifiError) -> Seq<char> {
    match e {
        WifiError::SsidTooLong => "SSID too long"@,
        WifiError::PasswordTooLong => "Password too long"@,
    }
}

pub open spec fn wifi_error_limit_text(e: WifiError) -> Seq<char> {
    match e {
        WifiError::SsidTooLong => "SSID too long (max 32 chars)"@,
        WifiError::PasswordTooLong => "Password too long (max 64 chars)"@,
    }
}

impl WifiError {
    /// The error as a reconnect reports it.
    pub fn message(&self) -> (res: &'static str)
        ensures
            res@ == wifi_error_text(*self),
    {
        match self {
            WifiError::SsidTooLong => "SSID too long",
            WifiError::PasswordTooLong => "Password too long",
        }
    }

    /// The error as start-up reports it, with the limit.
    pub fn limit_message(&self) -> (res: &'static str)
        ensures
            res@ == wifi_error_limit_text(*self),
    {
        match self {
            WifiError::SsidTooLong => "SSID too long (max 32 chars)",
            WifiError::PasswordTooLong => "Password too long (max 64 chars)",
        }
    }
}

/// An SSID and a password in the fixed-size strings the driver takes.
pub struct WifiCredentials {
    pub ssid: heapless::String<32>,
    pub password: heapless::String<64>,
}

/// The SSID's and the password's bytes.
pub open spec fn credential_bytes(c: WifiCredentials) -> (Seq<u8>, Seq<u8>) {
    (short_bytes(c.ssid), medium_bytes(c.password))
}

/// Credentials from these bytes: the SSID must fit in 32 bytes, then the
/// password in 64.
pub open spec fn credentials_for(ssid: Seq<u8>, password: Seq<u8>) -> Result<
    (Seq<u8>, Seq<u8>),
    WifiError,
> {
    if ssid.len() > MAX_SSID_BYTES {
        Err(WifiError::SsidTooLong)
    } else if password.len() > MAX_PASSWORD_BYTES {
        Err(WifiError::PasswordTooLong)
    } else {
        Ok((ssid, password))
    }
}

pub open spec fn credentials_view(r: Result<WifiCredentials, WifiError>) -> Result<
    (Seq<u8>, Seq<u8>),
    WifiError,
> {
    match r {
        Ok(c) => Ok(credential_bytes(c)),
        Err(e) => Err(e),
    }
}

impl WifiCredentials {
    /// Credentials holding `ssid` and `password`, or the first of them
    /// that does not fit.
    pub fn new(ssid: &str, password: &str) -> (res: Result<Self, WifiError>)
        ensures
            credentials_view(res) == credentials_for(ssid.spec_bytes(), password.spec_bytes()),
    {
        let mut s = short_new();
        if short_push_str(&mut s, ssid).is_err() {
            return Err(WifiError::SsidTooLong);
        }
        let mut p = medium_new();
        if medium_push_str(&mut p, password).is_err() {
            return Err(WifiError::PasswordTooLong);
        }
        assert(short_bytes(s) =~= ssid.spec_bytes());
        assert(medium_bytes(p) =~= password.spec_bytes());
        Ok(WifiCredentials { ssid: s, password: p })
    }

    /// The credentials a reconnect configures: the SSID and the password
    /// given, each in place of the stored one.
    pub fn reconnect_with(&self, ssid: Option<&str>, password: Option<&str>) -> (res: Result<
        WifiCredentials,
        WifiError,
    >)
        ensures
            credentials_view(res) == credentials_for(
                match ssid {
                    Some(s) => s.spec_bytes(),
                    None => short_bytes(self.ssid),
                },
                match password {
                    Some(p) => p.spec_bytes(),
                    None => medium_bytes(self.password),
                },
            ),
            (ssid is None && password is None) ==> credentials_view(res) == Ok::<
                (Seq<u8>, Seq<u8>),
                WifiError,
            >(credential_bytes(*self)),
    {
        let use_ssid = match ssid {
            Some(s) => s,
            None => short_as_str(&self.ssid),
        };
        let use_password = match password {
            Some(p) => p,
            None => medium_as_str(&self.password),
        };
        WifiCredentials::new(use_ssid, use_password)
    }

    /// The SSID as text.
    pub fn ssid_str(&self) -> (res: &str)
        ensures
            res.spec_bytes() == short_bytes(self.ssid),
    {
        short_as_str(&self.ssid)
    }
}

/// The lower-case hexadecimal digit for `d < 16`.
pub open spec fn hex_digit(d: nat) -> char {
    if d < 10 {
        (48 + d) as char
    } else {
        (87 + d) as char
    }
}

/// A byte as two lower-case hexadecimal digits (`{:02x}`).
pub open spec fn hex_byte(b: u8) -> Seq<char> {
    seq![hex_digit((b / 16) as nat), hex_digit((b % 16) as nat)]
}

/// The bytes as hexadecimal pairs joined by colons.
pub open spec fn colon_hex(bytes: Seq<u8>) -> Seq<char>
    decreases bytes.len(),
{
    if bytes.len() == 0 {
        seq![]
    } else if bytes.len() == 1 {
        hex_byte(bytes[0])
    } else {
        colon_hex(bytes.drop_last()) + seq![':'] + hex_byte(bytes.last())
    }
}

/// The bytes in decimal joined by dots.
pub open spec fn dotted_decimal(bytes: Seq<u8>) -> Seq<char>
    decreases bytes.len(),
{
    if bytes.len() == 0 {
        seq![]
    } else if bytes.len() == 1 {
        decimal(bytes[0] as nat)
    } else {
        dotted_decimal(bytes.drop_last()) + seq!['.'] + decimal(bytes.last() as nat)
    }
}

fn push_hex_byte(out: &mut String, b: u8)
    ensures
        final(out)@ == old(out)@ + hex_byte(b),
{
    let hi = b / 16;
    let lo = b % 16;
    out.push(
        if hi < 10 {
            (48 + hi) as char
        } else {
            (87 + hi) as char
        },
    );
    out.push(
        if lo < 10 {
            (48 + lo) as char
        } else {
            (87 + lo) as char
        },
    );
    assert(out@ =~= old(out)@ + hex_byte(b));
}

/// A MAC address as six colon-separated pairs of lower-case hexadecimal
/// digits, such as `24:0a:c4:12:34:56`.
pub fn mac_text(mac: [u8; 6]) -> (res: String)
    ensures
        res@ == colon_hex(mac@),
{
    let mut res = String::new();
    let mut i: usize = 0;
    while i < 6
        invariant
            i <= 6,
            mac@.len() == 6,
            res@ == colon_hex(mac@.take(i as int)),
        decreases 6 - i,
    {
        if i > 0 {
            res.push(':');
        }
        push_hex_byte(&mut res, mac[i]);
        i = i + 1;
        assert(mac@.take(i as int).drop_last() =~= mac@.take(i - 1));
    }
    assert(mac@.take(6) =~= mac@);
    res
}

/// An IPv4 address in dotted decimal, such as `192.168.1.119`.
pub fn ipv4_text(ip: [u8; 4]) -> (res: String)
    ensures
        res@ == dotted_decimal(ip@),
{
    let mut res = String::new();
    let mut i: usize = 0;
    while i < 4
        invariant
            i <= 4,
            ip@.len() == 4,
            res@ == dotted_decimal(ip@.take(i as int)),
        decreases 4 - i,
    {
        if i > 0 {
            res.push('.');
        }
        push_decimal(&mut res, ip[i] as u64);
        i = i + 1;
        assert(ip@.take(i as int).drop_last() =~= ip@.take(i - 1));
    }
    assert(ip@.take(4) =~= ip@);
    res
}

/// What a scan reports of an access point.
pub struct AccessPoint {
    pub ssid: String,
    pub signal_strength: i8,
    pub channel: u8,
}

} // verus!
