//! Handshake validation failures. Every failure carries a specific, stable
//! reason; the reason text is what a rejecting server sends back as the body
//! of its response.

use vstd::prelude::*;
use vstd::string::StringSliceAdditionalSpecFns;

verus! {

/// A handshake validation failure, from either role's validation.
#[derive(Clone, Debug, PartialEq, Eq)]
pub enum ProtocolError {
    /// The request line's method is not `GET`.
    NotGet,
    /// The request line has no target URI token.
    MissingUri,
    /// The request line's HTTP version is missing, unparseable, or below 1.1.
    BadHttpVersion,
    /// No `Host` header.
    MissingHost,
    /// The `Host` header does not match the server's host.
    BadHost,
    /// No `Upgrade` header.
    MissingUpgrade,
    /// The `Upgrade` header is not `websocket`.
    BadUpgrade,
    /// No `Connection` header.
    MissingConnection,
    /// The `Connection` header is not `upgrade`.
    BadConnection,
    /// No `Sec-WebSocket-Version` header.
    MissingVersion,
    /// The `Sec-WebSocket-Version` header is not `13`.
    BadVersion,
    /// No `Sec-WebSocket-Key` header.
    MissingKey,
    /// The `Sec-WebSocket-Key` value is not exactly 24 characters.
    BadKey,
    /// The status line has no response code token.
    MissingResponseCode,
    /// The response code is not `101`; carries the offending code token.
    InvalidResponseCode(Vec<u8>),
    /// No `Sec-WebSocket-Accept` header.
    MissingAccept,
    /// The `Sec-WebSocket-Accept` value does not match the expected
    /// derivation for the key that was sent.
    BadAccept,
}

/// Mathematical model of a validation failure.
#[verifier::ext_equal]
pub enum ProtocolErrorModel {
    NotGet,
    MissingUri,
    BadHttpVersion,
    MissingHost,
    BadHost,
    MissingUpgrade,
    BadUpgrade,
    MissingConnection,
    BadConnection,
    MissingVersion,
    BadVersion,
    MissingKey,
    BadKey,
    MissingResponseCode,
    InvalidResponseCode(Seq<u8>),
    MissingAccept,
    BadAccept,
}

impl View for ProtocolError {
    type V = ProtocolErrorModel;

    open spec fn view(&self) -> ProtocolErrorModel {
        match self {
            ProtocolError::NotGet => ProtocolErrorModel::NotGet,
            ProtocolError::MissingUri => ProtocolErrorModel::MissingUri,
            ProtocolError::BadHttpVersion => ProtocolErrorModel::BadHttpVersion,
            ProtocolError::MissingHost => ProtocolErrorModel::MissingHost,
            ProtocolError::BadHost => ProtocolErrorModel::BadHost,
            ProtocolError::MissingUpgrade => ProtocolErrorModel::MissingUpgrade,
            ProtocolError::BadUpgrade => ProtocolErrorModel::BadUpgrade,
            ProtocolError::MissingConnection => ProtocolErrorModel::MissingConnection,
            ProtocolError::BadConnection => ProtocolErrorModel::BadConnection,
            ProtocolError::MissingVersion => ProtocolErrorModel::MissingVersion,
            ProtocolError::BadVersion => ProtocolErrorModel::BadVersion,
            ProtocolError::MissingKey => ProtocolErrorModel::MissingKey,
            ProtocolError::BadKey => ProtocolErrorModel::BadKey,
            ProtocolError::MissingResponseCode => ProtocolErrorModel::MissingResponseCode,
            ProtocolError::InvalidResponseCode(c) => ProtocolErrorModel::InvalidResponseCode(c@),
            ProtocolError::MissingAccept => ProtocolErrorModel::MissingAccept,
            ProtocolError::BadAccept => ProtocolErrorModel::BadAccept,
        }
    }
}

/// The stable reason text of a failure.
pub open spec fn message_spec(e: ProtocolErrorModel) -> Seq<u8> {
    match e {
        ProtocolErrorModel::NotGet => "Handshake is not a GET Request".spec_bytes(),
        ProtocolErrorModel::MissingUri => "Handshake contains invalid URI resource".spec_bytes(),
        ProtocolErrorModel::BadHttpVersion => "Handshake is using an invalid HTTP version, must be HTTP/1.1 or higher".spec_bytes(),
        ProtocolErrorModel::MissingHost => "Handshake missing Host header".spec_bytes(),
        ProtocolErrorModel::BadHost => "Invalid hostname".spec_bytes(),
        ProtocolErrorModel::MissingUpgrade => "Handshake missing Upgrade header".spec_bytes(),
        ProtocolErrorModel::BadUpgrade => "Requested Upgrade was not 'websocket'".spec_bytes(),
        ProtocolErrorModel::MissingConnection => "Handshake missing Connection header".spec_bytes(),
        ProtocolErrorModel::BadConnection => "Requested Connection was not 'upgrade'".spec_bytes(),
        ProtocolErrorModel::MissingVersion => "Handshake missing Sec-WebSocket-Version header".spec_bytes(),
        ProtocolErrorModel::BadVersion => "Requested Sec-WebSocket-Version was not '13'".spec_bytes(),
        ProtocolErrorModel::MissingKey => "Handshake missing Sec-WebSocket-Key header".spec_bytes(),
        ProtocolErrorModel::BadKey => "Invalid Sec-WebSocket-Key".spec_bytes(),
        ProtocolErrorModel::MissingResponseCode => "Missing response code".spec_bytes(),
        ProtocolErrorModel::InvalidResponseCode(c) => "Invalid response code ".spec_bytes() + c,
        ProtocolErrorModel::MissingAccept => "Handshake missing Sec-WebSocket-Accept header".spec_bytes(),
        ProtocolErrorModel::BadAccept => "Server key invalid".spec_bytes(),
    }
}

impl ProtocolError {
    /// The stable reason text of this failure.
    pub fn message_bytes(&self) -> (r: Vec<u8>)
        ensures
            r@ == message_spec(self@),
    {
        match self {
            ProtocolError::NotGet => vstd::slice::slice_to_vec(
                "Handshake is not a GET Request".as_bytes(),
            ),
            ProtocolError::MissingUri => vstd::slice::slice_to_vec(
                "Handshake contains invalid URI resource".as_bytes(),
            ),
            ProtocolError::BadHttpVersion => vstd::slice::slice_to_vec(
                "Handshake is using an invalid HTTP version, must be HTTP/1.1 or higher".as_bytes(),
            ),
            ProtocolError::MissingHost => vstd::slice::slice_to_vec(
                "Handshake missing Host header".as_bytes(),
            ),
            ProtocolError::BadHost => vstd::slice::slice_to_vec("Invalid hostname".as_bytes()),
            ProtocolError::MissingUpgrade => vstd::slice::slice_to_vec(
                "Handshake missing Upgrade header".as_bytes(),
            ),
            ProtocolError::BadUpgrade => vstd::slice::slice_to_vec(
                "Requested Upgrade was not 'websocket'".as_bytes(),
            ),
            ProtocolError::MissingConnection => vstd::slice::slice_to_vec(
                "Handshake missing Connection header".as_bytes(),
            ),
            ProtocolError::BadConnection => vstd::slice::slice_to_vec(
                "Requested Connection was not 'upgrade'".as_bytes(),
            ),
            ProtocolError::MissingVersion => vstd::slice::slice_to_vec(
                "Handshake missing Sec-WebSocket-Version header".as_bytes(),
            ),
            ProtocolError::BadVersion => vstd::slice::slice_to_vec(
                "Requested Sec-WebSocket-Version was not '13'".as_bytes(),
            ),
            ProtocolError::MissingKey => vstd::slice::slice_to_vec(
                "Handshake missing Sec-WebSocket-Key header".as_bytes(),
            ),
            ProtocolError::BadKey => vstd::slice::slice_to_vec(
                "Invalid Sec-WebSocket-Key".as_bytes(),
            ),
            ProtocolError::MissingResponseCode => vstd::slice::slice_to_vec(
                "Missing response code".as_bytes(),
            ),
            ProtocolError::InvalidResponseCode(c) => {
                let mut out = vstd::slice::slice_to_vec("Invalid response code ".as_bytes());
                crate::text::append_bytes(&mut out, c.as_slice());
                out
            },
            ProtocolError::MissingAccept => vstd::slice::slice_to_vec(
                "Handshake missing Sec-WebSocket-Accept header".as_bytes(),
            ),
            ProtocolError::BadAccept => vstd::slice::slice_to_vec("Server key invalid".as_bytes()),
        }
    }
}

} // verus!
