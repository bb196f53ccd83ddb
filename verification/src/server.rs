//! Server-side validation of an inbound opening handshake.
//!
//! The request is split into a request line and header lines; the request
//! line and each required header are checked in a fixed order, each failure
//! with its own stable reason; on success the accept key derived from the
//! client's `Sec-WebSocket-Key` is returned.

use vstd::prelude::*;
use vstd::string::StringSliceAdditionalSpecFns;
use crate::accept::{accept_key, accept_key_spec};
use crate::error::{ProtocolError, ProtocolErrorModel};
use crate::text::{
    bytes_eq, header_lookup, header_lookup_exec, lemma_split_nonempty, lower, lower_spec,
    seq_views, split_byte, split_byte_exec, split_once_exec, split_once_spec, tokens_exec,
    tokens_spec, trim, trim_spec, utf8_char_count, utf8_char_count_exec,
};

verus! {

/// Whether a version token names HTTP 1.1 or higher: `HTTP/1.1`, `HTTP/2`
/// or `HTTP/3`.
pub open spec fn version_ok(v: Seq<u8>) -> bool {
    match split_once_spec(v, 47) {
        Some(hv) => hv.0 == "HTTP".spec_bytes() && (hv.1 == "1.1".spec_bytes() || hv.1
            == "2".spec_bytes() || hv.1 == "3".spec_bytes()),
        None => false,
    }
}

/// Whether a version token names HTTP 1.1 or higher.
pub fn version_ok_exec(v: &[u8]) -> (r: bool)
    ensures
        r == version_ok(v@),
{
    match split_once_exec(v, 47) {
        Some(hv) => bytes_eq(hv.0.as_slice(), "HTTP".as_bytes()) && (bytes_eq(
            hv.1.as_slice(),
            "1.1".as_bytes(),
        ) || bytes_eq(hv.1.as_slice(), "2".as_bytes()) || bytes_eq(
            hv.1.as_slice(),
            "3".as_bytes(),
        )),
        None => false,
    }
}

/// What validating a raw handshake request against `host` yields: the
/// accept key derived from the client's key, or the first failure in the
/// fixed validation order.
pub open spec fn validate_handshake_spec(req: Seq<u8>, host: Seq<u8>) -> Result<
    Seq<u8>,
    ProtocolErrorModel,
> {
    let lines = split_byte(trim_spec(req), 10);
    let toks = tokens_spec(lines[0]);
    if toks.len() == 0 || toks[0] != "GET".spec_bytes() {
        Err(ProtocolErrorModel::NotGet)
    } else if toks.len() < 2 {
        Err(ProtocolErrorModel::MissingUri)
    } else if toks.len() < 3 || !version_ok(toks[2]) {
        Err(ProtocolErrorModel::BadHttpVersion)
    } else {
        let hdrs = lines.subrange(1, lines.len() as int);
        match header_lookup(hdrs, "host".spec_bytes()) {
            None => Err(ProtocolErrorModel::MissingHost),
            Some(h) => if trim_spec(h) != host {
                Err(ProtocolErrorModel::BadHost)
            } else {
                match header_lookup(hdrs, "upgrade".spec_bytes()) {
                    None => Err(ProtocolErrorModel::MissingUpgrade),
                    Some(u) => if lower_spec(u) != "websocket".spec_bytes() {
                        Err(ProtocolErrorModel::BadUpgrade)
                    } else {
                        match header_lookup(hdrs, "connection".spec_bytes()) {
                            None => Err(ProtocolErrorModel::MissingConnection),
                            Some(c) => if lower_spec(c) != "upgrade".spec_bytes() {
                                Err(ProtocolErrorModel::BadConnection)
                            } else {
                                match header_lookup(hdrs, "sec-websocket-version".spec_bytes()) {
                                    None => Err(ProtocolErrorModel::MissingVersion),
                                    Some(v) => if v != "13".spec_bytes() {
                                        Err(ProtocolErrorModel::BadVersion)
                                    } else {
                                        match header_lookup(hdrs, "sec-websocket-key".spec_bytes()) {
                                            None => Err(ProtocolErrorModel::MissingKey),
                                            Some(k) => if utf8_char_count(trim_spec(k)) != 24 {
                                                Err(ProtocolErrorModel::BadKey)
                                            } else {
                                                Ok(accept_key_spec(trim_spec(k)))
                                            },
                                        }
                                    },
                                }
                            },
                        }
                    },
                }
            },
        }
    }
}

/// Validates a raw handshake request against this server's `hostname`,
/// returning the value for `Sec-WebSocket-Accept`, or the reason the
/// request is rejected.
pub fn validate_handshake(request: &[u8], hostname: &[u8]) -> (r: Result<Vec<u8>, ProtocolError>)
    ensures
        match r {
            Ok(k) => validate_handshake_spec(request@, hostname@) == Ok::<
                Seq<u8>,
                ProtocolErrorModel,
            >(k@),
            Err(e) => validate_handshake_spec(request@, hostname@) == Err::<
                Seq<u8>,
                ProtocolErrorModel,
            >(e@),
        },
{
    let trimmed = trim(request);
    let lines = split_byte_exec(trimmed.as_slice(), 10);
    proof {
        lemma_split_nonempty(trim_spec(request@), 10);
        assert(lines@.len() == split_byte(trim_spec(request@), 10).len());
    }
    let toks = tokens_exec(lines[0].as_slice());
    let ghost stoks = tokens_spec(split_byte(trim_spec(request@), 10)[0]);
    proof {
        assert(lines@[0]@ == split_byte(trim_spec(request@), 10)[0]);
        assert(seq_views(toks@) == stoks);
    }
    if toks.len() == 0 || !bytes_eq(toks[0].as_slice(), "GET".as_bytes()) {
        proof {
            assert(toks@.len() == 0 ==> stoks.len() == 0);
            assert(toks@.len() > 0 ==> toks@[0]@ == stoks[0]);
        }
        return Err(ProtocolError::NotGet);
    }
    if toks.len() < 2 {
        return Err(ProtocolError::MissingUri);
    }
    if toks.len() < 3 || !version_ok_exec(toks[2].as_slice()) {
        proof {
            assert(toks@.len() >= 3 ==> toks@[2]@ == stoks[2]);
        }
        return Err(ProtocolError::BadHttpVersion);
    }
    proof {
        assert(stoks.len() >= 3 && stoks[0] == "GET".spec_bytes() && version_ok(stoks[2]));
    }
    let ghost shdrs = split_byte(trim_spec(request@), 10).subrange(
        1,
        split_byte(trim_spec(request@), 10).len() as int,
    );
    proof {
        assert(shdrs =~= seq_views(lines@).subrange(1, lines@.len() as int));
    }

    let host_val = match header_lookup_exec(&lines, 1, "host".as_bytes()) {
        Some(h) => h,
        None => {
            return Err(ProtocolError::MissingHost);
        },
    };
    let host_trimmed = trim(host_val.as_slice());
    if !bytes_eq(host_trimmed.as_slice(), hostname) {
        return Err(ProtocolError::BadHost);
    }

    let upgrade_val = match header_lookup_exec(&lines, 1, "upgrade".as_bytes()) {
        Some(u) => u,
        None => {
            return Err(ProtocolError::MissingUpgrade);
        },
    };
    if !bytes_eq(lower(upgrade_val.as_slice()).as_slice(), "websocket".as_bytes()) {
        return Err(ProtocolError::BadUpgrade);
    }

    let conn_val = match header_lookup_exec(&lines, 1, "connection".as_bytes()) {
        Some(c) => c,
        None => {
            return Err(ProtocolError::MissingConnection);
        },
    };
    if !bytes_eq(lower(conn_val.as_slice()).as_slice(), "upgrade".as_bytes()) {
        return Err(ProtocolError::BadConnection);
    }

    let version_val = match header_lookup_exec(&lines, 1, "sec-websocket-version".as_bytes()) {
        Some(v) => v,
        None => {
            return Err(ProtocolError::MissingVersion);
        },
    };
    if !bytes_eq(version_val.as_slice(), "13".as_bytes()) {
        return Err(ProtocolError::BadVersion);
    }

    let key_val = match header_lookup_exec(&lines, 1, "sec-websocket-key".as_bytes()) {
        Some(k) => k,
        None => {
            return Err(ProtocolError::MissingKey);
        },
    };
    let key_trimmed = trim(key_val.as_slice());
    if utf8_char_count_exec(key_trimmed.as_slice()) != 24 {
        return Err(ProtocolError::BadKey);
    }
    Ok(accept_key(key_trimmed.as_slice()))
}

} // verus!
