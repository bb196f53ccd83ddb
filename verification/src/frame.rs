//! The binary framing format: a structured frame and its wire encoding.
//!
//! Wire layout, most significant bit first: byte 0 is the fin bit, three
//! reserved bits (zero), and a 4-bit opcode; byte 1 is the mask bit and a
//! 7-bit length field; a length field of 126 or 127 is followed by a 2- or
//! 8-byte big-endian extended length; 4 mask-key bytes follow when the mask
//! bit is set; payload bytes follow, XOR-masked with the repeating mask key
//! when present. Encoders use the minimal length encoding; decoders accept
//! all three.

use vstd::prelude::*;

verus! {

/// The 4-bit tag identifying a frame's payload interpretation. All sixteen
/// nibble values decode: 0x3 through 0x7 and 0xB through 0xF collapse to
/// `Reserved`.
#[derive(Clone, Copy, Debug, PartialEq, Eq, Structural)]
pub enum WebSocketOpCode {
    Continuation,
    Text,
    Binary,
    Close,
    Ping,
    Pong,
    Reserved,
}

/// A malformed frame: fewer bytes available than the declared layout
/// requires at some stage.
#[derive(Clone, Copy, Debug, PartialEq, Eq, Structural)]
pub enum FrameError {
    Truncated,
}

/// One protocol frame, holding the unmasked logical payload. Masking is
/// applied on the wire only.
#[derive(Clone, Debug, PartialEq, Eq)]
pub struct WebSocketFrame {
    pub fin: bool,
    pub masked: bool,
    pub opcode: WebSocketOpCode,
    pub payload_len: u64,
    pub mask_key: Option<[u8; 4]>,
    pub data: Vec<u8>,
}

/// Mathematical model of a frame.
#[verifier::ext_equal]
pub struct FrameModel {
    pub fin: bool,
    pub masked: bool,
    pub opcode: WebSocketOpCode,
    pub payload_len: u64,
    pub mask_key: Option<Seq<u8>>,
    pub data: Seq<u8>,
}

impl View for WebSocketFrame {
    type V = FrameModel;

    open spec fn view(&self) -> FrameModel {
        FrameModel {
            fin: self.fin,
            masked: self.masked,
            opcode: self.opcode,
            payload_len: self.payload_len,
            mask_key: match self.mask_key {
                Some(k) => Some(k@),
                None => None,
            },
            data: self.data@,
        }
    }
}

impl FrameModel {
    /// A frame is well formed when the mask key is present exactly when the
    /// mask flag is set, the key has exactly 4 bytes, and the recorded
    /// payload length counts the payload bytes.
    pub open spec fn wf(self) -> bool {
        &&& self.masked == (self.mask_key is Some)
        &&& (self.mask_key matches Some(k) ==> k.len() == 4)
        &&& self.payload_len == self.data.len()
    }
}

impl WebSocketFrame {
    pub open spec fn wf(self) -> bool {
        self@.wf()
    }
}

/// The nibble that encodes an opcode. `Reserved` has no canonical nibble;
/// it encodes to 0x3, the lowest reserved value.
pub open spec fn opcode_nibble(op: WebSocketOpCode) -> u8 {
    match op {
        WebSocketOpCode::Continuation => 0,
        WebSocketOpCode::Text => 1,
        WebSocketOpCode::Binary => 2,
        WebSocketOpCode::Close => 8,
        WebSocketOpCode::Ping => 9,
        WebSocketOpCode::Pong => 10,
        WebSocketOpCode::Reserved => 3,
    }
}

/// The opcode a nibble decodes to; every unmapped value is `Reserved`.
pub open spec fn nibble_opcode(n: u8) -> WebSocketOpCode {
    if n == 0 {
        WebSocketOpCode::Continuation
    } else if n == 1 {
        WebSocketOpCode::Text
    } else if n == 2 {
        WebSocketOpCode::Binary
    } else if n == 8 {
        WebSocketOpCode::Close
    } else if n == 9 {
        WebSocketOpCode::Ping
    } else if n == 10 {
        WebSocketOpCode::Pong
    } else {
        WebSocketOpCode::Reserved
    }
}

/// Payload bytes XOR-combined with the repeating 4-byte mask key. Applying
/// it twice with the same key restores the unmasked bytes.
pub open spec fn xor_mask(data: Seq<u8>, key: Seq<u8>) -> Seq<u8>
    recommends
        key.len() == 4,
{
    Seq::new(data.len(), |i: int| data[i] ^ key[i % 4])
}

/// The two bytes of `n`'s low 16 bits, most significant first.
pub open spec fn be16_bytes(n: u64) -> Seq<u8> {
    seq![(n >> 8) as u8, n as u8]
}

/// The eight bytes of `n`, most significant first.
pub open spec fn be64_bytes(n: u64) -> Seq<u8> {
    seq![
        (n >> 56) as u8,
        (n >> 48) as u8,
        (n >> 40) as u8,
        (n >> 32) as u8,
        (n >> 24) as u8,
        (n >> 16) as u8,
        (n >> 8) as u8,
        n as u8,
    ]
}

/// The value of a 2-byte big-endian length extension.
pub open spec fn be16_val(b0: u8, b1: u8) -> u64 {
    ((b0 as u64) << 8) | (b1 as u64)
}

/// The value of an 8-byte big-endian length extension.
pub open spec fn be64_val(b: Seq<u8>) -> u64
    recommends
        b.len() == 8,
{
    ((b[0] as u64) << 56) | ((b[1] as u64) << 48) | ((b[2] as u64) << 40) | ((b[3] as u64) << 32)
        | ((b[4] as u64) << 24) | ((b[5] as u64) << 16) | ((b[6] as u64) << 8) | (b[7] as u64)
}

/// The 7-bit length field: the literal length when it fits, else the
/// escape values 126 and 127. Encoders must use the minimal encoding.
pub open spec fn len_field(n: u64) -> u8 {
    if n <= 125 {
        n as u8
    } else if n <= 65535 {
        126
    } else {
        127
    }
}

/// The extended length bytes that follow byte 1, empty for small lengths.
pub open spec fn len_ext_bytes(n: u64) -> Seq<u8> {
    if n <= 125 {
        Seq::empty()
    } else if n <= 65535 {
        be16_bytes(n)
    } else {
        be64_bytes(n)
    }
}

pub open spec fn frame_byte0(f: FrameModel) -> u8 {
    (if f.fin {
        128u8
    } else {
        0u8
    }) | opcode_nibble(f.opcode)
}

pub open spec fn frame_byte1(f: FrameModel) -> u8 {
    (if f.masked {
        128u8
    } else {
        0u8
    }) | len_field(f.payload_len)
}

pub open spec fn mask_key_bytes(f: FrameModel) -> Seq<u8> {
    match f.mask_key {
        Some(k) => k,
        None => Seq::empty(),
    }
}

/// The payload as it appears on the wire: masked when the frame is masked.
pub open spec fn wire_body(f: FrameModel) -> Seq<u8> {
    match f.mask_key {
        Some(k) => xor_mask(f.data, k),
        None => f.data,
    }
}

/// The full wire encoding of a frame.
pub open spec fn encode_spec(f: FrameModel) -> Seq<u8> {
    seq![frame_byte0(f), frame_byte1(f)] + len_ext_bytes(f.payload_len) + mask_key_bytes(f)
        + wire_body(f)
}

/// The declared payload length and the offset of the first byte after the
/// length field, or nothing if the extension bytes are missing.
pub open spec fn decode_len(s: Seq<u8>) -> Option<(u64, int)>
    recommends
        s.len() >= 2,
{
    let lf = s[1] & 0x7f;
    if lf <= 125 {
        Some(((lf as u64), 2))
    } else if lf == 126 {
        if s.len() >= 4 {
            Some((be16_val(s[2], s[3]), 4))
        } else {
            None
        }
    } else {
        if s.len() >= 10 {
            Some((be64_val(s.subrange(2, 10)), 10))
        } else {
            None
        }
    }
}

/// The frame a byte string decodes to, or nothing if it is truncated.
/// Bytes beyond the declared payload are ignored.
pub open spec fn decode_spec(s: Seq<u8>) -> Option<FrameModel> {
    if s.len() < 2 {
        None
    } else {
        let fin = s[0] >> 7 == 1;
        let opcode = nibble_opcode(s[0] & 0x0f);
        let masked = s[1] >> 7 == 1;
        match decode_len(s) {
            None => None,
            Some(lo) => {
                let plen = lo.0;
                let off = lo.1;
                if masked {
                    if off + 4 + plen <= s.len() {
                        let key = s.subrange(off, off + 4);
                        let raw = s.subrange(off + 4, off + 4 + plen);
                        Some(
                            FrameModel {
                                fin,
                                masked,
                                opcode,
                                payload_len: plen,
                                mask_key: Some(key),
                                data: xor_mask(raw, key),
                            },
                        )
                    } else {
                        None
                    }
                } else {
                    if off + plen <= s.len() {
                        let raw = s.subrange(off, off + plen);
                        Some(
                            FrameModel {
                                fin,
                                masked,
                                opcode,
                                payload_len: plen,
                                mask_key: None,
                                data: raw,
                            },
                        )
                    } else {
                        None
                    }
                }
            },
        }
    }
}

/// Every decoded frame is well formed.
pub proof fn lemma_decode_wf(s: Seq<u8>)
    ensures
        decode_spec(s) matches Some(m) ==> m.wf(),
{
}

/// The nibble an opcode encodes to.
pub fn opcode_nibble_exec(op: WebSocketOpCode) -> (r: u8)
    ensures
        r == opcode_nibble(op),
{
    match op {
        WebSocketOpCode::Continuation => 0,
        WebSocketOpCode::Text => 1,
        WebSocketOpCode::Binary => 2,
        WebSocketOpCode::Close => 8,
        WebSocketOpCode::Ping => 9,
        WebSocketOpCode::Pong => 10,
        WebSocketOpCode::Reserved => 3,
    }
}

/// The opcode a nibble decodes to.
pub fn nibble_opcode_exec(n: u8) -> (r: WebSocketOpCode)
    ensures
        r == nibble_opcode(n),
{
    if n == 0 {
        WebSocketOpCode::Continuation
    } else if n == 1 {
        WebSocketOpCode::Text
    } else if n == 2 {
        WebSocketOpCode::Binary
    } else if n == 8 {
        WebSocketOpCode::Close
    } else if n == 9 {
        WebSocketOpCode::Ping
    } else if n == 10 {
        WebSocketOpCode::Pong
    } else {
        WebSocketOpCode::Reserved
    }
}

impl WebSocketFrame {
    /// Parse a frame from raw bytes incoming on the wire. Fails with
    /// `FrameError::Truncated` when fewer bytes are available than the
    /// declared layout requires at any stage; trailing bytes are ignored.
    pub fn parse(raw: Vec<u8>) -> (r: Result<WebSocketFrame, FrameError>)
        ensures
            match decode_spec(raw@) {
                Some(m) => r matches Ok(f) && f@ == m && f.wf(),
                None => r == Err::<WebSocketFrame, FrameError>(FrameError::Truncated),
            },
    {
        let n = raw.len();
        if n < 2 {
            return Err(FrameError::Truncated);
        }
        let b0 = raw[0];
        let b1 = raw[1];
        let fin = (b0 >> 7) == 1;
        let opcode = nibble_opcode_exec(b0 & 0x0f);
        let masked = (b1 >> 7) == 1;
        let lf = b1 & 0x7f;

        let plen: u64;
        let off: usize;
        if lf <= 125 {
            plen = lf as u64;
            off = 2;
        } else if lf == 126 {
            if n < 4 {
                return Err(FrameError::Truncated);
            }
            plen = ((raw[2] as u64) << 8) | (raw[3] as u64);
            off = 4;
            proof {
                assert(decode_len(raw@) == Some((plen, 4int)));
            }
        } else {
            if n < 10 {
                return Err(FrameError::Truncated);
            }
            plen = ((raw[2] as u64) << 56) | ((raw[3] as u64) << 48) | ((raw[4] as u64) << 40) | (
            (raw[5] as u64) << 32) | ((raw[6] as u64) << 24) | ((raw[7] as u64) << 16) | ((raw[8]
                as u64) << 8) | (raw[9] as u64);
            off = 10;
            proof {
                let sub = raw@.subrange(2, 10);
                assert(sub[0] == raw@[2] && sub[1] == raw@[3] && sub[2] == raw@[4] && sub[3]
                    == raw@[5] && sub[4] == raw@[6] && sub[5] == raw@[7] && sub[6] == raw@[8]
                    && sub[7] == raw@[9]);
                assert(decode_len(raw@) == Some((plen, 10int)));
            }
        }

        let mask_key: Option<[u8; 4]>;
        let off2: usize;
        if masked {
            if n < off + 4 {
                return Err(FrameError::Truncated);
            }
            let k: [u8; 4] = [raw[off], raw[off + 1], raw[off + 2], raw[off + 3]];
            proof {
                assert(k@ =~= raw@.subrange(off as int, off + 4));
            }
            mask_key = Some(k);
            off2 = off + 4;
        } else {
            mask_key = None;
            off2 = off;
        }

        if plen > (n - off2) as u64 {
            return Err(FrameError::Truncated);
        }
        let plen_usize = plen as usize;

        let mut data: Vec<u8> = Vec::new();
        let mut i: usize = 0;
        match mask_key {
            Some(k) => {
                while i < plen_usize
                    invariant
                        0 <= i <= plen_usize,
                        n == raw@.len(),
                        off2 + plen_usize <= n,
                        k@.len() == 4,
                        data@.len() == i,
                        forall|j: int|
                            0 <= j < i ==> data@[j] == raw@[off2 + j] ^ k@[j % 4],
                    decreases plen_usize - i,
                {
                    data.push(raw[off2 + i] ^ k[i % 4]);
                    i = i + 1;
                }
                proof {
                    let raw_body = raw@.subrange(off2 as int, off2 + plen as int);
                    assert(data@ =~= xor_mask(raw_body, k@));
                }
            },
            None => {
                while i < plen_usize
                    invariant
                        0 <= i <= plen_usize,
                        n == raw@.len(),
                        off2 + plen_usize <= n,
                        data@.len() == i,
                        forall|j: int| 0 <= j < i ==> data@[j] == raw@[off2 + j],
                    decreases plen_usize - i,
                {
                    data.push(raw[off2 + i]);
                    i = i + 1;
                }
                proof {
                    assert(data@ =~= raw@.subrange(off2 as int, off2 + plen as int));
                }
            },
        }

        let frame = WebSocketFrame { fin, masked, opcode, payload_len: plen, mask_key, data };
        proof {
            assert(decode_spec(raw@) matches Some(m) && frame@ =~= m);
        }
        Ok(frame)
    }

    /// Encode a frame into its wire-format bytes, using the minimal length
    /// encoding and masking the payload when a mask key is present.
    pub fn encode(self) -> (r: Vec<u8>)
        requires
            self.wf(),
        ensures
            r@ == encode_spec(self@),
    {
        let mut out: Vec<u8> = Vec::new();
        let nib = opcode_nibble_exec(self.opcode);
        out.push((if self.fin { 128u8 } else { 0u8 }) | nib);
        let plen = self.payload_len;
        let lf: u8 = if plen <= 125 {
            plen as u8
        } else if plen <= 65535 {
            126
        } else {
            127
        };
        out.push((if self.masked { 128u8 } else { 0u8 }) | lf);
        if plen > 125 && plen <= 65535 {
            out.push((plen >> 8) as u8);
            out.push(plen as u8);
        } else if plen > 65535 {
            out.push((plen >> 56) as u8);
            out.push((plen >> 48) as u8);
            out.push((plen >> 40) as u8);
            out.push((plen >> 32) as u8);
            out.push((plen >> 24) as u8);
            out.push((plen >> 16) as u8);
            out.push((plen >> 8) as u8);
            out.push(plen as u8);
        }
        proof {
            assert(out@ =~= seq![frame_byte0(self@), frame_byte1(self@)] + len_ext_bytes(plen));
        }
        let ghost head = out@;
        match &self.mask_key {
            Some(k) => {
                out.push(k[0]);
                out.push(k[1]);
                out.push(k[2]);
                out.push(k[3]);
                proof {
                    assert(out@ =~= head + mask_key_bytes(self@));
                }
            },
            None => {
                proof {
                    assert(out@ =~= head + mask_key_bytes(self@));
                }
            },
        }
        let ghost head2 = out@;
        let count = self.data.len();
        let mut i: usize = 0;
        match &self.mask_key {
            Some(k) => {
                while i < count
                    invariant
                        0 <= i <= count,
                        count == self.data@.len(),
                        k@.len() == 4,
                        self.mask_key == Some(*k),
                        out@.len() == head2.len() + i,
                        out@.subrange(0, head2.len() as int) == head2,
                        forall|j: int|
                            0 <= j < i ==> out@[head2.len() + j] == self.data@[j] ^ k@[j % 4],
                    decreases count - i,
                {
                    out.push(self.data[i] ^ k[i % 4]);
                    proof {
                        assert(out@.subrange(0, head2.len() as int) =~= head2);
                    }
                    i = i + 1;
                }
                proof {
                    assert(out@ =~= head2 + xor_mask(self.data@, k@));
                }
            },
            None => {
                while i < count
                    invariant
                        0 <= i <= count,
                        count == self.data@.len(),
                        self.mask_key is None,
                        out@.len() == head2.len() + i,
                        out@.subrange(0, head2.len() as int) == head2,
                        forall|j: int| 0 <= j < i ==> out@[head2.len() + j] == self.data@[j],
                    decreases count - i,
                {
                    out.push(self.data[i]);
                    proof {
                        assert(out@.subrange(0, head2.len() as int) =~= head2);
                    }
                    i = i + 1;
                }
                proof {
                    assert(out@ =~= head2 + self.data@);
                }
            },
        }
        proof {
            assert(out@ =~= encode_spec(self@));
        }
        out
    }
}

proof fn lemma_xor_involution(data: Seq<u8>, key: Seq<u8>)
    requires
        key.len() == 4,
    ensures
        xor_mask(xor_mask(data, key), key) =~= data,
{
    assert forall|i: int| 0 <= i < data.len() implies xor_mask(xor_mask(data, key), key)[i]
        == data[i] by {
        let d = data[i];
        let k = key[i % 4];
        assert((d ^ k) ^ k == d) by (bit_vector);
    }
}

proof fn lemma_be16_roundtrip(n: u64)
    requires
        n <= 65535,
    ensures
        be16_val((n >> 8) as u8, n as u8) == n,
{
    assert((((n >> 8) as u8 as u64) << 8) | (n as u8 as u64) == n) by (bit_vector)
        requires
            n <= 65535,
    ;
}

proof fn lemma_be64_roundtrip(n: u64)
    ensures
        be64_val(be64_bytes(n)) == n,
{
    let b = be64_bytes(n);
    assert((((n >> 56) as u8 as u64) << 56) | (((n >> 48) as u8 as u64) << 48) | (((n >> 40) as u8
        as u64) << 40) | (((n >> 32) as u8 as u64) << 32) | (((n >> 24) as u8 as u64) << 24) | (((n
        >> 16) as u8 as u64) << 16) | (((n >> 8) as u8 as u64) << 8) | (n as u8 as u64) == n)
        by (bit_vector);
}

/// Round trip: decoding the encoding of any well-formed frame yields that
/// frame again, whatever its payload length or masking.
pub proof fn lemma_decode_encode(f: FrameModel)
    requires
        f.wf(),
    ensures
        decode_spec(encode_spec(f)) == Some(f),
{
    let s = encode_spec(f);
    let nib = opcode_nibble(f.opcode);
    let b0 = frame_byte0(f);
    let b1 = frame_byte1(f);
    let plen = f.payload_len;
    let lf = len_field(plen);
    let ext = len_ext_bytes(plen);
    let mk = mask_key_bytes(f);
    let body = wire_body(f);
    assert(s.len() == 2 + ext.len() + mk.len() + body.len());
    assert(s[0] == b0 && s[1] == b1);

    // byte 0: fin bit and opcode nibble
    assert(nib <= 10);
    if f.fin {
        assert((128u8 | nib) >> 7 == 1) by (bit_vector)
            requires
                nib <= 10,
        ;
        assert((128u8 | nib) & 0x0f == nib) by (bit_vector)
            requires
                nib <= 10,
        ;
    } else {
        assert((0u8 | nib) >> 7 == 0) by (bit_vector)
            requires
                nib <= 10,
        ;
        assert((0u8 | nib) & 0x0f == nib) by (bit_vector)
            requires
                nib <= 10,
        ;
    }
    assert(nibble_opcode(nib) == f.opcode);

    // byte 1: mask bit and length field
    assert(lf <= 127);
    if f.masked {
        assert((128u8 | lf) >> 7 == 1) by (bit_vector)
            requires
                lf <= 127,
        ;
        assert((128u8 | lf) & 0x7f == lf) by (bit_vector)
            requires
                lf <= 127,
        ;
    } else {
        assert((0u8 | lf) >> 7 == 0) by (bit_vector)
            requires
                lf <= 127,
        ;
        assert((0u8 | lf) & 0x7f == lf) by (bit_vector)
            requires
                lf <= 127,
        ;
    }

    // the length field decodes back to the payload length
    let off: int = if plen <= 125 {
        2
    } else if plen <= 65535 {
        4
    } else {
        10
    };
    if plen <= 125 {
        assert(ext.len() == 0);
        assert(plen as u8 as u64 == plen) by (bit_vector)
            requires
                plen <= 125,
        ;
        assert(decode_len(s) == Some((plen, 2int)));
    } else if plen <= 65535 {
        assert(lf == 126);
        assert(ext == be16_bytes(plen));
        assert(s[2] == ext[0] && s[3] == ext[1]);
        lemma_be16_roundtrip(plen);
        assert(decode_len(s) == Some((plen, 4int)));
    } else {
        assert(lf == 127);
        assert(ext == be64_bytes(plen));
        assert(s.len() >= 10);
        assert(s.subrange(2, 10) =~= ext);
        lemma_be64_roundtrip(plen);
        assert(decode_len(s) == Some((plen, 10int)));
    }
    assert(decode_len(s) == Some((plen, off)));
    assert(ext.len() == off - 2);

    if f.masked {
        let k = f.mask_key->Some_0;
        assert(mk == k && k.len() == 4);
        assert(body.len() == plen);
        assert(off + 4 + plen <= s.len());
        assert(s.subrange(off, off + 4) =~= k);
        assert(s.subrange(off + 4, off + 4 + plen as int) =~= body);
        lemma_xor_involution(f.data, k);
        assert(xor_mask(s.subrange(off + 4, off + 4 + plen as int), s.subrange(off, off + 4))
            =~= f.data);
        assert(decode_spec(s) matches Some(m) && m =~= f);
    } else {
        assert(mk.len() == 0);
        assert(body == f.data);
        assert(off + plen <= s.len());
        assert(s.subrange(off, off + plen as int) =~= f.data);
        assert(decode_spec(s) matches Some(m) && m =~= f);
    }
}

} // verus!
