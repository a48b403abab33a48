use vstd::prelude::*;
use crate::errors::ProxyError;
use crate::frame::FrameMode;
use crate::frame::Packet;
use crate::frame::be_bytes_of;
use crate::frame::be_u32_of;
use crate::frame::frame_bytes;
use crate::frame::lemma_be_u32_of_bytes;
use crate::frame::read_frame;
use crate::frame::spec_read_frame;
use crate::frame::write_frame;
use crate::frame::be_u32_vec;
use crate::frame::read_be_u32_at;

verus! {

/// The value of two bytes read as one big-endian 16-bit integer.
pub open spec fn be_u16_of(s: Seq<u8>) -> nat
    recommends
        s.len() == 2,
{
    (s[0] as nat) * 0x100 + (s[1] as nat)
}

/// The two bytes of a 16-bit integer in big-endian order.
pub open spec fn be_u16_bytes_of(x: u16) -> Seq<u8> {
    seq![(x / 0x100) as u8, (x % 0x100) as u8]
}

/// Encoding and decoding of big-endian 16-bit integers invert each other.
pub proof fn lemma_be_u16_bytes_of_be_u16(x: u16)
    ensures
        be_u16_bytes_of(x).len() == 2,
        be_u16_of(be_u16_bytes_of(x)) == x,
{
    assert(x / 0x100 < 0x100) by (bit_vector);
    assert((x / 0x100) * 0x100 + (x % 0x100) == x) by (bit_vector);
}

/// The sizes, in bytes, of the JVM's variably sized identifiers, as the
/// JVM reports them in its id-size reply.
#[derive(Clone, Copy, Debug, PartialEq, Eq, Structural)]
pub struct IdSizesReply {
    pub field_id_size: u32,
    pub method_id_size: u32,
    pub object_id_size: u32,
    pub reference_type_id_size: u32,
    pub frame_id_size: u32,
}

/// The version report of the JVM: two strings of description, the protocol
/// version pair, and two strings naming the VM. Strings are kept as their
/// wire bytes; presenting them as text is the embedding's concern.
pub struct VersionReply {
    pub description: Vec<u8>,
    pub jdwp_major: u32,
    pub jdwp_minor: u32,
    pub vm_version: Vec<u8>,
    pub vm_name: Vec<u8>,
}

/// One parsed reply frame of the direct command connection: the request id
/// it answers, the flags byte, the error code, and the data that follows
/// the 11-byte header.
pub struct CmdReply {
    pub id: u32,
    pub flags: u8,
    pub error_code: u16,
    pub data: Vec<u8>,
}

/// The state of one direct JDWP command connection: the next request id to
/// use and the identifier sizes the JVM reported. The socket itself lives
/// with the embedding; this state decides the bytes that cross it.
pub struct JdwpConnection {
    pub next_id: u32,
    pub field_id_size: u8,
    pub method_id_size: u8,
    pub object_id_size: u8,
    pub reference_type_id_size: u8,
    pub frame_id_size: u8,
}

impl JdwpConnection {
    /// Builds the connection state from the JVM's id-size report, with the
    /// request-id counter at zero. Each reported size must fit a byte, as
    /// every identifier size the protocol defines does.
    pub fn new(id_sizes: IdSizesReply) -> (c: JdwpConnection)
        requires
            id_sizes.field_id_size < 0x100,
            id_sizes.method_id_size < 0x100,
            id_sizes.object_id_size < 0x100,
            id_sizes.reference_type_id_size < 0x100,
            id_sizes.frame_id_size < 0x100,
        ensures
            c.next_id == 0,
            c.field_id_size == id_sizes.field_id_size,
            c.method_id_size == id_sizes.method_id_size,
            c.object_id_size == id_sizes.object_id_size,
            c.reference_type_id_size == id_sizes.reference_type_id_size,
            c.frame_id_size == id_sizes.frame_id_size,
    {
        JdwpConnection {
            next_id: 0,
            field_id_size: id_sizes.field_id_size as u8,
            method_id_size: id_sizes.method_id_size as u8,
            object_id_size: id_sizes.object_id_size as u8,
            reference_type_id_size: id_sizes.reference_type_id_size as u8,
            frame_id_size: id_sizes.frame_id_size as u8,
        }
    }

    /// Builds the bytes of one command frame: an 11-byte header carrying
    /// the next request id, a zero flags byte, the command set and command,
    /// then the argument data; and advances the request-id counter.
    pub fn encode_command(&mut self, command_set: u8, command: u8, data: &Vec<u8>) -> (r: Vec<u8>)
        requires
            old(self).next_id < u32::MAX,
            data@.len() + 11 <= u32::MAX,
        ensures
            r@ == frame_bytes(
                (data@.len() + 11) as u32,
                old(self).next_id,
                seq![0u8, command_set, command] + data@,
            ),
            final(self).next_id == old(self).next_id + 1,
            final(self).field_id_size == old(self).field_id_size,
            final(self).method_id_size == old(self).method_id_size,
            final(self).object_id_size == old(self).object_id_size,
            final(self).reference_type_id_size == old(self).reference_type_id_size,
            final(self).frame_id_size == old(self).frame_id_size,
    {
        let id = self.next_id;
        self.next_id = self.next_id + 1;
        let mut payload: Vec<u8> = Vec::new();
        payload.push(0);
        payload.push(command_set);
        payload.push(command);
        let mut i: usize = 0;
        while i < data.len()
            invariant
                i <= data@.len(),
                payload@ =~= seq![0u8, command_set, command] + data@.take(i as int),
            decreases data@.len() - i,
        {
            payload.push(data[i]);
            i += 1;
        }
        proof {
            assert(payload@ =~= seq![0u8, command_set, command] + data@);
        }
        let length: u32 = (data.len() + 11) as u32;
        let p = Packet { length, id, payload };
        write_frame(&p, FrameMode::Command)
    }
}

/// Parses one reply frame of the direct command connection out of the
/// bytes the stream has yielded: the 11-byte header and the data after it.
/// Returns the reply and the bytes consumed; fails exactly as reading a
/// reply-mode frame does.
pub fn parse_reply(buf: &Vec<u8>) -> (r: Result<(CmdReply, usize), ProxyError>)
    ensures
        match (r, spec_read_frame(buf@, FrameMode::Reply)) {
            (Ok((rep, n)), Ok((length, id, payload))) => {
                &&& rep.id == id
                &&& rep.flags == payload[0]
                &&& rep.error_code as nat == be_u16_of(payload.subrange(1, 3))
                &&& rep.data@ == payload.skip(3)
                &&& n == length
            },
            (Err(e1), Err(e2)) => e1 == e2,
            _ => false,
        },
{
    let (p, n) = match read_frame(buf, FrameMode::Reply) {
        Ok(pn) => pn,
        Err(e) => {
            return Err(e);
        },
    };
    let flags = p.payload[0];
    let error_code: u16 = (p.payload[1] as u16) * 0x100 + (p.payload[2] as u16);
    let mut data: Vec<u8> = Vec::new();
    let mut i: usize = 3;
    while i < p.payload.len()
        invariant
            3 <= i <= p.payload@.len(),
            data@ =~= p.payload@.subrange(3, i as int),
        decreases p.payload@.len() - i,
    {
        data.push(p.payload[i]);
        i += 1;
    }
    proof {
        assert(data@ =~= p.payload@.skip(3));
    }
    Ok((CmdReply { id: p.id, flags, error_code, data }, n))
}

/// Appends one unsigned byte as the wire format carries it.
pub fn serialize_u8(v: u8, out: &mut Vec<u8>)
    ensures
        final(out)@ == old(out)@ + seq![v],
{
    out.push(v);
    proof {
        assert(out@ =~= old(out)@ + seq![v]);
    }
}

/// Reads one unsigned byte at `pos`; fails when the input ends first.
pub fn deserialize_u8(buf: &Vec<u8>, pos: usize) -> (r: Result<(u8, usize), ProxyError>)
    ensures
        match r {
            Ok((v, n)) => pos < buf@.len() && v == buf@[pos as int] && n == 1,
            Err(e) => e == ProxyError::ShortRead && pos >= buf@.len(),
        },
{
    if pos < buf.len() {
        Ok((buf[pos], 1))
    } else {
        Err(ProxyError::ShortRead)
    }
}

/// Appends a 16-bit integer in big-endian order.
pub fn serialize_u16(v: u16, out: &mut Vec<u8>)
    ensures
        final(out)@ == old(out)@ + be_u16_bytes_of(v),
{
    out.push((v / 0x100) as u8);
    out.push((v % 0x100) as u8);
    proof {
        assert(out@ =~= old(out)@ + be_u16_bytes_of(v));
    }
}

/// Reads a big-endian 16-bit integer at `pos`; fails when fewer than two
/// bytes remain.
pub fn deserialize_u16(buf: &Vec<u8>, pos: usize) -> (r: Result<(u16, usize), ProxyError>)
    ensures
        match r {
            Ok((v, n)) => {
                &&& pos + 2 <= buf@.len()
                &&& v as nat == be_u16_of(buf@.subrange(pos as int, pos as int + 2))
                &&& n == 2
            },
            Err(e) => e == ProxyError::ShortRead && pos + 2 > buf@.len(),
        },
{
    if buf.len() >= 2 && pos <= buf.len() - 2 {
        let v: u16 = (buf[pos] as u16) * 0x100 + (buf[pos + 1] as u16);
        Ok((v, 2))
    } else {
        Err(ProxyError::ShortRead)
    }
}

/// Appends a 32-bit integer in big-endian order.
pub fn serialize_u32(v: u32, out: &mut Vec<u8>)
    ensures
        final(out)@ == old(out)@ + be_bytes_of(v),
{
    let mut b = be_u32_vec(v);
    proof {
        lemma_be_u32_of_bytes(b@);
    }
    out.append(&mut b);
}

/// Reads a big-endian 32-bit integer at `pos`; fails when fewer than four
/// bytes remain.
pub fn deserialize_u32(buf: &Vec<u8>, pos: usize) -> (r: Result<(u32, usize), ProxyError>)
    ensures
        match r {
            Ok((v, n)) => {
                &&& pos + 4 <= buf@.len()
                &&& v as nat == be_u32_of(buf@.subrange(pos as int, pos as int + 4))
                &&& n == 4
            },
            Err(e) => e == ProxyError::ShortRead && pos + 4 > buf@.len(),
        },
{
    if buf.len() >= 4 && pos <= buf.len() - 4 {
        let v = read_be_u32_at(buf, pos);
        Ok((v, 4))
    } else {
        Err(ProxyError::ShortRead)
    }
}

/// Appends a JDWP string: a big-endian 32-bit byte count, then the
/// string's UTF-8 bytes verbatim. The string travels as its bytes;
/// decoding them as text is the embedding's concern.
pub fn serialize_string(s: &Vec<u8>, out: &mut Vec<u8>)
    requires
        s@.len() <= u32::MAX,
    ensures
        final(out)@ == old(out)@ + be_bytes_of(s@.len() as u32) + s@,
{
    serialize_u32(s.len() as u32, out);
    let mut i: usize = 0;
    while i < s.len()
        invariant
            i <= s@.len(),
            out@ =~= old(out)@ + be_bytes_of(s@.len() as u32) + s@.take(i as int),
        decreases s@.len() - i,
    {
        out.push(s[i]);
        i += 1;
    }
    proof {
        assert(out@ =~= old(out)@ + be_bytes_of(s@.len() as u32) + s@);
    }
}

/// Reads a JDWP string at `pos`: a big-endian 32-bit byte count, then that
/// many bytes. Fails when the input ends before the count or before the
/// counted bytes.
pub fn deserialize_string(buf: &Vec<u8>, pos: usize) -> (r: Result<(Vec<u8>, usize), ProxyError>)
    ensures
        match r {
            Ok((v, n)) => {
                &&& pos + 4 <= buf@.len()
                &&& {
                    let count = be_u32_of(buf@.subrange(pos as int, pos as int + 4));
                    &&& pos + 4 + count <= buf@.len()
                    &&& v@ == buf@.subrange(pos as int + 4, pos as int + 4 + count)
                    &&& n == 4 + count
                }
            },
            Err(e) => {
                &&& e == ProxyError::ShortRead
                &&& (pos + 4 > buf@.len() || pos + 4 + be_u32_of(
                    buf@.subrange(pos as int, pos as int + 4),
                ) > buf@.len())
            },
        },
{
    let (count, _) = match deserialize_u32(buf, pos) {
        Ok(c) => c,
        Err(e) => {
            return Err(e);
        },
    };
    let _blen: usize = buf.len();
    let start = pos + 4;
    if ((buf.len() - start) as u64) < (count as u64) {
        return Err(ProxyError::ShortRead);
    }
    let end = start + count as usize;
    let mut v: Vec<u8> = Vec::new();
    let mut i: usize = start;
    while i < end
        invariant
            start <= i <= end,
            end <= buf@.len(),
            start == pos + 4,
            v@ =~= buf@.subrange(start as int, i as int),
        decreases end - i,
    {
        v.push(buf[i]);
        i += 1;
    }
    Ok((v, 4 + count as usize))
}

/// Parses the JVM's id-size reply data: five big-endian 32-bit sizes.
pub fn parse_id_sizes_reply(data: &Vec<u8>) -> (r: Result<IdSizesReply, ProxyError>)
    ensures
        match r {
            Ok(sizes) => {
                &&& data@.len() >= 20
                &&& sizes.field_id_size as nat == be_u32_of(data@.subrange(0, 4))
                &&& sizes.method_id_size as nat == be_u32_of(data@.subrange(4, 8))
                &&& sizes.object_id_size as nat == be_u32_of(data@.subrange(8, 12))
                &&& sizes.reference_type_id_size as nat == be_u32_of(data@.subrange(12, 16))
                &&& sizes.frame_id_size as nat == be_u32_of(data@.subrange(16, 20))
            },
            Err(e) => e == ProxyError::ShortRead && data@.len() < 20,
        },
{
    if data.len() < 20 {
        return Err(ProxyError::ShortRead);
    }
    let field_id_size = read_be_u32_at(data, 0);
    let method_id_size = read_be_u32_at(data, 4);
    let object_id_size = read_be_u32_at(data, 8);
    let reference_type_id_size = read_be_u32_at(data, 12);
    let frame_id_size = read_be_u32_at(data, 16);
    Ok(
        IdSizesReply {
            field_id_size,
            method_id_size,
            object_id_size,
            reference_type_id_size,
            frame_id_size,
        },
    )
}

/// Whether a length-prefixed string starting at byte `pos` lies wholly
/// inside `data`.
pub open spec fn string_fits(data: Seq<u8>, pos: int) -> bool {
    &&& 0 <= pos
    &&& pos + 4 <= data.len()
    &&& pos + 4 + be_u32_of(data.subrange(pos, pos + 4)) <= data.len()
}

/// The first byte after the length-prefixed string starting at `pos`.
pub open spec fn string_end(data: Seq<u8>, pos: int) -> int {
    pos + 4 + be_u32_of(data.subrange(pos, pos + 4))
}

/// The bytes of the length-prefixed string starting at `pos`.
pub open spec fn string_bytes(data: Seq<u8>, pos: int) -> Seq<u8> {
    data.subrange(pos + 4, string_end(data, pos))
}

/// Parses the JVM's version reply data: a description string, the two
/// protocol version numbers, and the VM version and name strings.
pub fn parse_version_reply(data: &Vec<u8>) -> (r: Result<VersionReply, ProxyError>)
    ensures
        ({
            let fits = {
                &&& string_fits(data@, 0)
                &&& string_end(data@, 0) + 8 <= data@.len()
                &&& string_fits(data@, string_end(data@, 0) + 8)
                &&& string_fits(data@, string_end(data@, string_end(data@, 0) + 8))
            };
            match r {
                Ok(v) => {
                    let e1 = string_end(data@, 0);
                    let e2 = string_end(data@, e1 + 8);
                    &&& fits
                    &&& v.description@ == string_bytes(data@, 0)
                    &&& v.jdwp_major as nat == be_u32_of(data@.subrange(e1, e1 + 4))
                    &&& v.jdwp_minor as nat == be_u32_of(data@.subrange(e1 + 4, e1 + 8))
                    &&& v.vm_version@ == string_bytes(data@, e1 + 8)
                    &&& v.vm_name@ == string_bytes(data@, e2)
                },
                Err(e) => e == ProxyError::ShortRead && !fits,
            }
        }),
{
    let (description, used1) = match deserialize_string(data, 0) {
        Ok(x) => x,
        Err(e) => {
            return Err(e);
        },
    };
    let _dlen: usize = data.len();
    let (jdwp_major, _) = match deserialize_u32(data, used1) {
        Ok(x) => x,
        Err(e) => {
            return Err(e);
        },
    };
    let p2 = used1 + 4;
    let (jdwp_minor, _) = match deserialize_u32(data, p2) {
        Ok(x) => x,
        Err(e) => {
            return Err(e);
        },
    };
    let p3 = p2 + 4;
    let (vm_version, used2) = match deserialize_string(data, p3) {
        Ok(x) => x,
        Err(e) => {
            return Err(e);
        },
    };
    let p4 = p3 + used2;
    let (vm_name, _) = match deserialize_string(data, p4) {
        Ok(x) => x,
        Err(e) => {
            return Err(e);
        },
    };
    Ok(VersionReply { description, jdwp_major, jdwp_minor, vm_version, vm_name })
}

} // verus!
