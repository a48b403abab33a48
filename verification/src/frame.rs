use vstd::prelude::*;
use crate::errors::ProxyError;

verus! {

/// Whether a frame is judged as a command or as a reply.
///
/// Both kinds carry the same 8-byte length/id header; a reply additionally
/// carries a flags byte and a two-byte error code, so its declared length
/// must cover at least 11 bytes.
#[derive(Clone, Copy, Debug, PartialEq, Eq, Structural)]
pub enum FrameMode {
    Command,
    Reply,
}

/// The smallest length field a frame of the given kind may declare.
pub open spec fn min_frame_len(mode: FrameMode) -> nat {
    match mode {
        FrameMode::Command => 8,
        FrameMode::Reply => 11,
    }
}

/// A JDWP packet: the declared total length, the request id, and the
/// remainder bytes that follow the 8-byte length/id header.
///
/// For a reply the remainder starts with the flags byte and the error
/// code; the proxy passes those through untouched.
pub struct Packet {
    pub length: u32,
    pub id: u32,
    pub payload: Vec<u8>,
}

impl Packet {
    /// A well-formed frame: the length field is at least the header size
    /// for its kind and counts the header plus exactly the payload bytes.
    pub open spec fn wf(self, mode: FrameMode) -> bool {
        &&& min_frame_len(mode) <= self.length
        &&& self.payload@.len() == self.length - 8
    }
}

/// The value of four bytes read as one big-endian 32-bit integer.
pub open spec fn be_u32_of(s: Seq<u8>) -> nat
    recommends
        s.len() == 4,
{
    (s[0] as nat) * 0x100_0000 + (s[1] as nat) * 0x1_0000 + (s[2] as nat) * 0x100 + (s[3] as nat)
}

/// The four bytes of a 32-bit integer in big-endian order.
pub open spec fn be_bytes_of(x: u32) -> Seq<u8> {
    seq![
        (x / 0x100_0000) as u8,
        ((x / 0x1_0000) % 0x100) as u8,
        ((x / 0x100) % 0x100) as u8,
        (x % 0x100) as u8,
    ]
}

/// Encoding and decoding of big-endian 32-bit integers invert each other.
pub proof fn lemma_be_bytes_of_be_u32(x: u32)
    ensures
        be_bytes_of(x).len() == 4,
        be_u32_of(be_bytes_of(x)) == x,
{
    assert(x / 0x100_0000 < 0x100) by (bit_vector);
    assert((x / 0x100_0000) * 0x100_0000 + ((x / 0x1_0000) % 0x100) * 0x1_0000 + ((x / 0x100)
        % 0x100) * 0x100 + (x % 0x100) == x) by (bit_vector);
}

/// A four-byte sequence is recovered from the integer it encodes, and that
/// integer fits in 32 bits.
pub proof fn lemma_be_u32_of_bytes(s: Seq<u8>)
    requires
        s.len() == 4,
    ensures
        be_u32_of(s) < 0x1_0000_0000,
        be_bytes_of(be_u32_of(s) as u32) =~= s,
{
    let b0 = s[0];
    let b1 = s[1];
    let b2 = s[2];
    let b3 = s[3];
    assert((b0 as u32) * 0x100_0000 + (b1 as u32) * 0x1_0000 + (b2 as u32) * 0x100 + (b3 as u32)
        < 0x1_0000_0000) by (bit_vector);
    let v = ((b0 as u32) * 0x100_0000 + (b1 as u32) * 0x1_0000 + (b2 as u32) * 0x100 + (
    b3 as u32)) as u32;
    assert(v == (b0 as u32) * 0x100_0000 + (b1 as u32) * 0x1_0000 + (b2 as u32) * 0x100 + (
    b3 as u32) ==> v / 0x100_0000 == b0 as u32 && (v / 0x1_0000) % 0x100 == b1 as u32 && (v
        / 0x100) % 0x100 == b2 as u32 && v % 0x100 == b3 as u32) by (bit_vector);
    assert(be_u32_of(s) == v);
    assert(be_bytes_of(v)[0] == b0);
    assert(be_bytes_of(v)[1] == b1);
    assert(be_bytes_of(v)[2] == b2);
    assert(be_bytes_of(v)[3] == b3);
}

/// Relies on byteorder's `BigEndian::read_u32`: it returns the first four
/// bytes of the slice read as one big-endian 32-bit integer (and panics on
/// a slice shorter than four bytes, which the precondition rules out).
#[verifier::external_body]
pub(crate) fn read_be_u32_at(buf: &Vec<u8>, off: usize) -> (r: u32)
    requires
        off + 4 <= buf@.len(),
    ensures
        r as nat == be_u32_of(buf@.subrange(off as int, off as int + 4)),
{
    <byteorder::BigEndian as byteorder::ByteOrder>::read_u32(&buf[off..off + 4])
}

/// Relies on byteorder's `BigEndian::write_u32`: it fills the four-byte
/// slice with the big-endian representation of the value.
#[verifier::external_body]
pub(crate) fn be_u32_vec(x: u32) -> (r: Vec<u8>)
    ensures
        r@.len() == 4,
        be_u32_of(r@) == x as nat,
{
    let mut buf = vec![0u8; 4];
    <byteorder::BigEndian as byteorder::ByteOrder>::write_u32(&mut buf, x);
    buf
}

/// The byte encoding of a frame: big-endian length, big-endian id, then the
/// payload verbatim.
pub open spec fn frame_bytes(length: u32, id: u32, payload: Seq<u8>) -> Seq<u8> {
    be_bytes_of(length) + be_bytes_of(id) + payload
}

/// What reading one frame from the front of a byte stream yields.
///
/// The stream is modelled as the sequence of bytes available before end of
/// input. Reading fails with `ShortRead` when the input ends before the
/// length field or before the declared length is reached, and with
/// `MalformedLength` when the declared length is below the header size for
/// the mode.
pub open spec fn spec_read_frame(s: Seq<u8>, mode: FrameMode) -> Result<
    (u32, u32, Seq<u8>),
    ProxyError,
> {
    if s.len() < 4 {
        Err(ProxyError::ShortRead)
    } else {
        let length = be_u32_of(s.subrange(0, 4));
        if length < min_frame_len(mode) {
            Err(ProxyError::MalformedLength)
        } else if s.len() < length {
            Err(ProxyError::ShortRead)
        } else {
            Ok(
                (
                    length as u32,
                    be_u32_of(s.subrange(4, 8)) as u32,
                    s.subrange(8, length as int),
                ),
            )
        }
    }
}

/// Reads one frame from the front of `buf`, which models everything the
/// underlying stream has yielded up to end of input. On success returns
/// the packet and the number of bytes consumed, so that the caller can
/// continue with the remainder of the stream.
pub fn read_frame(buf: &Vec<u8>, mode: FrameMode) -> (r: Result<(Packet, usize), ProxyError>)
    ensures
        match r {
            Ok((p, n)) => {
                &&& spec_read_frame(buf@, mode) == Ok::<_, ProxyError>((p.length, p.id, p.payload@))
                &&& n == p.length
                &&& p.wf(mode)
            },
            Err(e) => spec_read_frame(buf@, mode) == Err::<(u32, u32, Seq<u8>), _>(e),
        },
{
    if buf.len() < 4 {
        return Err(ProxyError::ShortRead);
    }
    let length = read_be_u32_at(buf, 0);
    let min: u32 = match mode {
        FrameMode::Command => 8,
        FrameMode::Reply => 11,
    };
    if length < min {
        return Err(ProxyError::MalformedLength);
    }
    if (buf.len() as u64) < (length as u64) {
        return Err(ProxyError::ShortRead);
    }
    let id = read_be_u32_at(buf, 4);
    let end: usize = length as usize;
    let mut payload: Vec<u8> = Vec::new();
    let mut i: usize = 8;
    while i < end
        invariant
            8 <= i <= end,
            end <= buf@.len(),
            payload@ =~= buf@.subrange(8, i as int),
        decreases end - i,
    {
        payload.push(buf[i]);
        i += 1;
    }
    Ok((Packet { length, id, payload }, end))
}

/// Writes a well-formed frame as bytes: the encoding the peer will see on
/// the wire.
pub fn write_frame(p: &Packet, mode: FrameMode) -> (r: Vec<u8>)
    requires
        p.wf(mode),
    ensures
        r@ == frame_bytes(p.length, p.id, p.payload@),
{
    let mut out = be_u32_vec(p.length);
    let mut id_bytes = be_u32_vec(p.id);
    proof {
        lemma_be_u32_of_bytes(out@);
        lemma_be_u32_of_bytes(id_bytes@);
    }
    out.append(&mut id_bytes);
    let mut i: usize = 0;
    while i < p.payload.len()
        invariant
            i <= p.payload@.len(),
            out@ =~= be_bytes_of(p.length) + be_bytes_of(p.id) + p.payload@.subrange(0, i as int),
        decreases p.payload@.len() - i,
    {
        out.push(p.payload[i]);
        i += 1;
    }
    proof {
        assert(out@ =~= frame_bytes(p.length, p.id, p.payload@));
    }
    out
}

/// Law: reading back the encoding of a well-formed frame yields exactly
/// that frame, and consumes exactly its declared length.
pub proof fn lemma_frame_round_trip(length: u32, id: u32, payload: Seq<u8>, mode: FrameMode)
    requires
        min_frame_len(mode) <= length,
        payload.len() == length - 8,
    ensures
        spec_read_frame(frame_bytes(length, id, payload), mode) == Ok::<
            (u32, u32, Seq<u8>),
            ProxyError,
        >((length, id, payload)),
{
    let s = frame_bytes(length, id, payload);
    lemma_be_bytes_of_be_u32(length);
    lemma_be_bytes_of_be_u32(id);
    assert(s.len() == 8 + payload.len());
    assert(s.subrange(0, 4) =~= be_bytes_of(length));
    assert(s.subrange(4, 8) =~= be_bytes_of(id));
    assert(s.subrange(8, length as int) =~= payload);
}

/// Law: re-encoding a frame read from a byte stream reproduces exactly the
/// bytes that were consumed. Together with `lemma_frame_round_trip` this
/// says that writing and reading frames are inverse to each other.
pub proof fn lemma_frame_bytes_faithful(
    s: Seq<u8>,
    mode: FrameMode,
    length: u32,
    id: u32,
    payload: Seq<u8>,
)
    requires
        spec_read_frame(s, mode) == Ok::<(u32, u32, Seq<u8>), ProxyError>((length, id, payload)),
    ensures
        frame_bytes(length, id, payload) == s.take(length as int),
{
    assert(4 <= s.len());
    assert(length as nat == be_u32_of(s.subrange(0, 4)));
    assert(min_frame_len(mode) <= length && length as nat <= s.len());
    assert(id as nat == be_u32_of(s.subrange(4, 8)));
    assert(payload =~= s.subrange(8, length as int));
    lemma_be_u32_of_bytes(s.subrange(0, 4));
    lemma_be_u32_of_bytes(s.subrange(4, 8));
    assert(be_bytes_of(length) =~= s.subrange(0, 4));
    assert(be_bytes_of(id) =~= s.subrange(4, 8));
    assert(frame_bytes(length, id, payload) =~= s.take(length as int));
}

} // verus!
