//! The fixed-size footer that locates the payload inside a packaged binary.
use vstd::prelude::*;
use crate::bytes::{be_value, copy_range, u64_from_bytes, u64_to_bytes, append_bytes};

verus! {

/// Marks a binary that carries a payload.
pub const MAGIC_TRAILER: [u8; 8] = [52u8, 115u8, 116u8, 114u8, 48u8, 100u8, 48u8, 110u8];

/// Length of the footer without a metadata offset.
pub const TRAILER_LEN_PLAIN: usize = 16;

/// Length of the footer with a metadata offset.
pub const TRAILER_LEN_WITH_METADATA: usize = 24;

/// The eight marker bytes, `4str0d0n` in ASCII.
pub open spec fn magic_seq() -> Seq<u8> {
    seq![52u8, 115u8, 116u8, 114u8, 48u8, 100u8, 48u8, 110u8]
}

pub open spec fn trailer_len(with_metadata: bool) -> nat {
    if with_metadata { 24 } else { 16 }
}

/// Where the archive and, in the metadata variant, the metadata start,
/// measured from the first byte of the file.
#[derive(Debug, Clone, Copy, PartialEq, Eq, Structural)]
pub struct Trailer {
    pub archive_offset: u64,
    pub metadata_offset: Option<u64>,
}

/// `t` is a footer that records `tr`: the marker, then each offset in
/// eight big-endian bytes.
pub open spec fn encodes(t: Seq<u8>, tr: Trailer) -> bool {
    &&& t.len() == trailer_len(tr.metadata_offset is Some)
    &&& t.subrange(0, 8) == magic_seq()
    &&& be_value(t.subrange(8, 16)) == tr.archive_offset as nat
    &&& tr.metadata_offset matches Some(m) ==> be_value(t.subrange(16, 24)) == m as nat
}

fn magic_vec() -> (r: Vec<u8>)
    ensures
        r@ == magic_seq(),
{
    let r: Vec<u8> = vec![52u8, 115u8, 116u8, 114u8, 48u8, 100u8, 48u8, 110u8];
    assert(r@ =~= magic_seq());
    r
}

/// Serialises a footer: 16 bytes, or 24 when it carries a metadata offset.
pub fn encode_trailer(tr: &Trailer) -> (r: Vec<u8>)
    ensures
        encodes(r@, *tr),
{
    let mut r = magic_vec();
    let a = u64_to_bytes(tr.archive_offset);
    append_bytes(&mut r, a.as_slice());
    assert(r@.subrange(0, 8) =~= magic_seq());
    assert(r@.subrange(8, 16) =~= a@);
    match tr.metadata_offset {
        Some(m) => {
            let b = u64_to_bytes(m);
            let ghost before = r@;
            append_bytes(&mut r, b.as_slice());
            assert(r@.subrange(0, 8) =~= before.subrange(0, 8));
            assert(r@.subrange(8, 16) =~= before.subrange(8, 16));
            assert(r@.subrange(16, 24) =~= b@);
        },
        None => {},
    }
    r
}

/// Reads a footer of the expected variant. `None` when the marker differs:
/// the binary carries no payload.
pub fn parse_trailer(t: &[u8], with_metadata: bool) -> (r: Option<Trailer>)
    requires
        t@.len() == trailer_len(with_metadata),
    ensures
        r is None <==> t@.subrange(0, 8) != magic_seq(),
        r matches Some(tr) ==> encodes(t@, tr) && (tr.metadata_offset is Some) == with_metadata,
{
    let mut i: usize = 0;
    while i < 8
        invariant
            i <= 8,
            t@.len() >= 16,
            forall|k: int| 0 <= k < i ==> t@[k] == magic_seq()[k],
        decreases 8 - i,
    {
        if t[i] != MAGIC_TRAILER[i] {
            assert(t@.subrange(0, 8)[i as int] != magic_seq()[i as int]);
            return None;
        }
        i = i + 1;
    }
    assert(t@.subrange(0, 8) =~= magic_seq());
    let a = copy_range(t, 8, 16);
    let archive_offset = match u64_from_bytes(a.as_slice()) {
        Ok(v) => v,
        Err(_) => 0,
    };
    let metadata_offset = if with_metadata {
        let b = copy_range(t, 16, 24);
        match u64_from_bytes(b.as_slice()) {
            Ok(v) => Some(v),
            Err(_) => None,
        }
    } else {
        None
    };
    Some(Trailer { archive_offset, metadata_offset })
}

} // verus!
