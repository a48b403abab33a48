use vstd::prelude::*;
use crate::errors::ProxyError;

verus! {

/// The fourteen ASCII bytes of `JDWP-Handshake`, which each side must send
/// and expect before any framed packet.
pub open spec fn handshake_spec() -> Seq<u8> {
    seq![
        0x4au8,
        0x44u8,
        0x57u8,
        0x50u8,
        0x2du8,
        0x48u8,
        0x61u8,
        0x6eu8,
        0x64u8,
        0x73u8,
        0x68u8,
        0x61u8,
        0x6bu8,
        0x65u8,
    ]
}

/// The handshake bytes to send to a peer.
pub fn handshake_bytes() -> (r: Vec<u8>)
    ensures
        r@ == handshake_spec(),
{
    let mut out: Vec<u8> = Vec::new();
    out.push(0x4a);
    out.push(0x44);
    out.push(0x57);
    out.push(0x50);
    out.push(0x2d);
    out.push(0x48);
    out.push(0x61);
    out.push(0x6e);
    out.push(0x64);
    out.push(0x73);
    out.push(0x68);
    out.push(0x61);
    out.push(0x6b);
    out.push(0x65);
    proof {
        assert(out@ =~= handshake_spec());
    }
    out
}

/// Checks that the bytes a peer sent are exactly the expected handshake.
/// A mismatch drops a downstream client, and is fatal on the upstream
/// side; which of the two is the caller's decision.
pub fn check_handshake(buf: &Vec<u8>) -> (r: Result<(), ProxyError>)
    ensures
        match r {
            Ok(()) => buf@ == handshake_spec(),
            Err(e) => e == ProxyError::HandshakeMismatch && buf@ != handshake_spec(),
        },
{
    let expected = handshake_bytes();
    if buf.len() != expected.len() {
        proof {
            assert(buf@ != handshake_spec());
        }
        return Err(ProxyError::HandshakeMismatch);
    }
    let mut i: usize = 0;
    while i < expected.len()
        invariant
            i <= expected@.len(),
            buf@.len() == expected@.len(),
            expected@ == handshake_spec(),
            forall|j: int| 0 <= j < i ==> buf@[j] == expected@[j],
        decreases expected@.len() - i,
    {
        if buf[i] != expected[i] {
            proof {
                assert(buf@ != handshake_spec());
            }
            return Err(ProxyError::HandshakeMismatch);
        }
        i += 1;
    }
    proof {
        assert(buf@ =~= handshake_spec());
    }
    Ok(())
}

} // verus!
