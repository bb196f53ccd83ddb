//! Client-side half of the opening handshake: building the upgrade request
//! and validating the server's response against the key that was sent.

use vstd::prelude::*;
use vstd::string::StringSliceAdditionalSpecFns;
use crate::accept::{accept_key, accept_key_spec};
use crate::error::{ProtocolError, ProtocolErrorModel};
use crate::text::{
    append_bytes, bytes_eq, header_lookup, header_lookup_exec, lemma_split_nonempty, lower,
    lower_spec, seq_views, split_byte, split_byte_exec, tokens_exec, tokens_spec, trim, trim_spec,
};

verus! {

/// The upgrade request sent for `path` to a server at `host`, carrying the
/// fresh handshake key `key` and the fixed protocol token.
pub open spec fn handshake_request_spec(path: Seq<u8>, host: Seq<u8>, key: Seq<u8>) -> Seq<u8> {
    "GET ".spec_bytes() + path + " HTTP/1.1\r\nHost: ".spec_bytes() + host
        + "\r\nUpgrade: websocket\r\nConnection: Upgrade\r\nSec-WebSocket-Key: ".spec_bytes() + key
        + "\r\nSec-WebSocket-Protocol: rhubarb\r\nSec-WebSocket-Version: 13\r\n\r\n".spec_bytes()
}

/// Formats the HTTP GET upgrade request for `path`, addressed to `host`,
/// carrying the handshake key `key`.
pub fn create_handshake_http_request(path: &[u8], host: &[u8], key: &[u8]) -> (r: Vec<u8>)
    ensures
        r@ == handshake_request_spec(path@, host@, key@),
{
    let mut out: Vec<u8> = Vec::new();
    append_bytes(&mut out, "GET ".as_bytes());
    append_bytes(&mut out, path);
    append_bytes(&mut out, " HTTP/1.1\r\nHost: ".as_bytes());
    append_bytes(&mut out, host);
    append_bytes(
        &mut out,
        "\r\nUpgrade: websocket\r\nConnection: Upgrade\r\nSec-WebSocket-Key: ".as_bytes(),
    );
    append_bytes(&mut out, key);
    append_bytes(
        &mut out,
        "\r\nSec-WebSocket-Protocol: rhubarb\r\nSec-WebSocket-Version: 13\r\n\r\n".as_bytes(),
    );
    proof {
        assert(out@ =~= handshake_request_spec(path@, host@, key@));
    }
    out
}

/// What validating a server's handshake response against the key sent in
/// the request yields: acceptance, or the first failure in the fixed
/// validation order.
pub open spec fn validate_server_handshake_spec(resp: Seq<u8>, key: Seq<u8>) -> Result<
    (),
    ProtocolErrorModel,
> {
    let lines = split_byte(trim_spec(resp), 10);
    let toks = tokens_spec(lines[0]);
    if toks.len() < 2 {
        Err(ProtocolErrorModel::MissingResponseCode)
    } else if toks[1] != "101".spec_bytes() {
        Err(ProtocolErrorModel::InvalidResponseCode(toks[1]))
    } else {
        let hdrs = lines.subrange(1, lines.len() as int);
        match header_lookup(hdrs, "upgrade".spec_bytes()) {
            None => Err(ProtocolErrorModel::MissingUpgrade),
            Some(u) => if lower_spec(u) != "websocket".spec_bytes() {
                Err(ProtocolErrorModel::BadUpgrade)
            } else {
                match header_lookup(hdrs, "connection".spec_bytes()) {
                    None => Err(ProtocolErrorModel::MissingConnection),
                    Some(c) => if lower_spec(c) != "upgrade".spec_bytes() {
                        Err(ProtocolErrorModel::BadConnection)
                    } else {
                        match header_lookup(hdrs, "sec-websocket-accept".spec_bytes()) {
                            None => Err(ProtocolErrorModel::MissingAccept),
                            Some(a) => if trim_spec(a) != accept_key_spec(key) {
                                Err(ProtocolErrorModel::BadAccept)
                            } else {
                                Ok(())
                            },
                        }
                    },
                }
            },
        }
    }
}

/// Validates the server's raw handshake response against `key`, the
/// `Sec-WebSocket-Key` value this client sent.
pub fn validate_server_handshake(response: &[u8], key: &[u8]) -> (r: Result<(), ProtocolError>)
    ensures
        match r {
            Ok(u) => validate_server_handshake_spec(response@, key@) == Ok::<
                (),
                ProtocolErrorModel,
            >(()),
            Err(e) => validate_server_handshake_spec(response@, key@) == Err::<
                (),
                ProtocolErrorModel,
            >(e@),
        },
{
    let trimmed = trim(response);
    let lines = split_byte_exec(trimmed.as_slice(), 10);
    proof {
        lemma_split_nonempty(trim_spec(response@), 10);
        assert(lines@.len() == split_byte(trim_spec(response@), 10).len());
    }
    let toks = tokens_exec(lines[0].as_slice());
    let ghost stoks = tokens_spec(split_byte(trim_spec(response@), 10)[0]);
    proof {
        assert(lines@[0]@ == split_byte(trim_spec(response@), 10)[0]);
        assert(seq_views(toks@) == stoks);
    }
    if toks.len() < 2 {
        return Err(ProtocolError::MissingResponseCode);
    }
    proof {
        assert(toks@[1]@ == stoks[1]);
    }
    if !bytes_eq(toks[1].as_slice(), "101".as_bytes()) {
        let code = vstd::slice::slice_to_vec(toks[1].as_slice());
        return Err(ProtocolError::InvalidResponseCode(code));
    }
    let ghost shdrs = split_byte(trim_spec(response@), 10).subrange(
        1,
        split_byte(trim_spec(response@), 10).len() as int,
    );
    proof {
        assert(shdrs =~= seq_views(lines@).subrange(1, lines@.len() as int));
    }

    let upgrade_val = match header_lookup_exec(&lines, 1, "upgrade".as_bytes()) {
        Some(u) => u,
        None => {
            return Err(ProtocolError::MissingUpgrade);
        },
    };
    if !bytes_eq(lower(upgrade_val.as_slice()).as_slice(), "websocket".as_bytes()) {
        return Err(ProtocolError::BadUpgrade);
    }

    let conn_val = match header_lookup_exec(&lines, 1, "connection".as_bytes()) {
        Some(c) => c,
        None => {
            return Err(ProtocolError::MissingConnection);
        },
    };
    if !bytes_eq(lower(conn_val.as_slice()).as_slice(), "upgrade".as_bytes()) {
        return Err(ProtocolError::BadConnection);
    }

    let accept_val = match header_lookup_exec(&lines, 1, "sec-websocket-accept".as_bytes()) {
        Some(a) => a,
        None => {
            return Err(ProtocolError::MissingAccept);
        },
    };
    let accept_trimmed = trim(accept_val.as_slice());
    let expected = accept_key(key);
    if !bytes_eq(accept_trimmed.as_slice(), expected.as_slice()) {
        return Err(ProtocolError::BadAccept);
    }
    Ok(())
}

} // verus!
