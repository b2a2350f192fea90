//! The line with which the executor announces itself once it listens.

use crate::number::all_digits;
use crate::number::digits_value;
use crate::number::format_i32;
use crate::number::i32_of_text;
use crate::number::integer_text;
use crate::number::parse_i32;
use crate::number::parse_u64;
use vstd::prelude::*;
use vstd::string::StringExecFns;
use vstd::string::StringSliceAdditionalSpecFns;

verus! {

/// The port on which the executor listens where none is configured.
pub const DEFAULT_PORT: i32 = 2112;

/// The address on which the executor listens.
pub open spec fn address_text(port: int) -> Seq<char> {
    "127.0.0.1:"@ + integer_text(port)
}

/// The handshake line: the version of the core protocol, the version of the
/// application protocol, the kind of transport, the address, and the name of
/// the RPC protocol, with bars between them and a line feed at the end.
pub open spec fn handshake_text(port: int) -> Seq<char> {
    "1|1|tcp|"@ + address_text(port) + "|grpc\n"@
}

/// The port that the text of a setting names: a whole number of 32 bits in
/// decimal, with a sign or without.
pub open spec fn port_of_text(s: Seq<u8>) -> Option<i32> {
    if s.len() > 0 && s[0] == 0x2b {
        let rest = s.skip(1);
        if rest.len() > 0 && all_digits(rest) && digits_value(rest) <= i32::MAX {
            Some(digits_value(rest) as i32)
        } else {
            None
        }
    } else {
        i32_of_text(s)
    }
}

/// The port to listen on: the default where nothing is configured, else what
/// the setting names; nothing where the setting names no port.
pub open spec fn configured_port(setting: Option<Seq<u8>>) -> Option<i32> {
    match setting {
        None => Some(DEFAULT_PORT),
        Some(s) => port_of_text(s),
    }
}

/// The port to listen on, by the setting that overrides the default.
pub fn get_port(setting: Option<&str>) -> (r: Option<i32>)
    ensures
        r == configured_port(
            match setting {
                Some(s) => Some(s.spec_bytes()),
                None => None,
            },
        ),
{
    match setting {
        None => Some(DEFAULT_PORT),
        Some(text) => {
            let bytes = text.as_bytes();
            if bytes.len() > 0 && bytes[0] == 0x2b {
                let rest = vstd::slice::slice_subrange(bytes, 1, bytes.len());
                assert(rest@ =~= bytes@.skip(1));
                match parse_u64(rest) {
                    Some(n) => {
                        if n <= 0x7fff_ffff {
                            Some(n as i32)
                        } else {
                            None
                        }
                    },
                    None => None,
                }
            } else {
                parse_i32(bytes)
            }
        },
    }
}

/// The address on which the executor listens.
pub fn listen_address(port: i32) -> (s: String)
    ensures
        s@ == address_text(port as int),
{
    String::from_str("127.0.0.1:").concat(format_i32(port).as_str())
}

/// The handshake line for an executor that listens on `port`.
pub fn write_handshake(port: i32) -> (s: String)
    ensures
        s@ == handshake_text(port as int),
{
    let mut s = String::from_str("1|1|tcp|");
    s.append(listen_address(port).as_str());
    s.append("|grpc\n");
    assert(s@ =~= handshake_text(port as int));
    s
}

} // verus!
