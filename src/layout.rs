//! The layout of a packaged binary: base binary, archive, optional metadata,
//! footer. Packaging writes it; extraction finds the pieces again.
use vstd::prelude::*;
use crate::bytes::{append_bytes, be_value, copy_range};
use crate::trailer::{
    encode_trailer, encodes, magic_seq, parse_trailer, trailer_len, Trailer,
    TRAILER_LEN_PLAIN, TRAILER_LEN_WITH_METADATA,
};

verus! {

/// What a packaged binary carries: the serialised archive and, in the
/// metadata variant, the serialised metadata.
#[derive(Debug, PartialEq, Eq)]
pub struct Payload {
    pub archive: Vec<u8>,
    pub metadata: Option<Vec<u8>>,
}

/// Why a binary that carries the marker could not be read.
#[derive(Debug, Clone, Copy, PartialEq, Eq, Structural)]
pub enum ExtractError {
    /// The file is shorter than a footer.
    Truncated,
    /// The footer's offsets are out of order or point past the footer.
    BadOffsets,
}

/// Why a binary could not be packaged.
#[derive(Debug, Clone, Copy, PartialEq, Eq, Structural)]
pub enum PackageError {
    /// The packaged binary would be too long for its offsets.
    TooLarge,
}

/// The packaged binary: `base`, then `archive`, then `metadata` if any, then
/// a footer whose offsets point at the archive and the metadata.
pub open spec fn is_packaged(r: Seq<u8>, base: Seq<u8>, archive: Seq<u8>, metadata: Option<Seq<u8>>) -> bool {
    let m = match metadata { Some(m) => m, None => Seq::<u8>::empty() };
    let body = base + archive + m;
    let tr = Trailer {
        archive_offset: base.len() as u64,
        metadata_offset: match metadata {
            Some(_) => Some((base.len() + archive.len()) as u64),
            None => None,
        },
    };
    &&& fits(base.len(), archive.len(), m.len())
    &&& r.len() == body.len() + trailer_len(metadata is Some)
    &&& r.subrange(0, body.len() as int) == body
    &&& encodes(r.subrange(body.len() as int, r.len() as int), tr)
}

/// The packaged binary fits: every offset and the total length fit in 64 bits.
pub open spec fn fits(base_len: nat, archive_len: nat, metadata_len: nat) -> bool {
    base_len + archive_len + metadata_len + 24 <= u64::MAX
}

/// Appends `archive`, the metadata block if any, and a footer to a copy of
/// `base`.
pub fn package_binary(base: &[u8], archive: &[u8], metadata: Option<&[u8]>) -> (r: Result<Vec<u8>, PackageError>)
    ensures
        r is Ok <==> fits(base@.len(), archive@.len(), match metadata { Some(m) => m@.len(), None => 0 }),
        r matches Ok(v) ==> is_packaged(v@, base@, archive@, match metadata { Some(m) => Some(m@), None => None }),
        r matches Err(e) ==> e == PackageError::TooLarge,
{
    let mlen: usize = match metadata { Some(m) => m.len(), None => 0 };
    if base.len() as u64 > u64::MAX - 24
        || archive.len() as u64 > u64::MAX - 24 - base.len() as u64
        || mlen as u64 > u64::MAX - 24 - base.len() as u64 - archive.len() as u64
    {
        return Err(PackageError::TooLarge);
    }
    let archive_offset = base.len() as u64;
    let metadata_offset = archive_offset + archive.len() as u64;
    let mut out: Vec<u8> = Vec::new();
    append_bytes(&mut out, base);
    append_bytes(&mut out, archive);
    let tr = match metadata {
        Some(m) => {
            append_bytes(&mut out, m);
            Trailer { archive_offset, metadata_offset: Some(metadata_offset) }
        },
        None => Trailer { archive_offset, metadata_offset: None },
    };
    let ghost body = out@;
    let t = encode_trailer(&tr);
    append_bytes(&mut out, t.as_slice());
    assert(out@.subrange(0, body.len() as int) =~= body);
    assert(out@.subrange(body.len() as int, out@.len() as int) =~= t@);
    let ghost mm = match metadata { Some(m) => m@, None => Seq::<u8>::empty() };
    assert(body =~= base@ + archive@ + mm);
    Ok(out)
}

/// What extraction yields from a file: `None` when the marker is missing,
/// else the payload pieces between the offsets, or the reason they cannot be
/// read.
pub open spec fn extraction(file: Seq<u8>, with_metadata: bool) -> Result<Option<(Seq<u8>, Option<Seq<u8>>)>, ExtractError> {
    let tl = trailer_len(with_metadata) as int;
    if file.len() < tl {
        Err(ExtractError::Truncated)
    } else {
        let pos = file.len() - tl;
        let t = file.subrange(pos, file.len() as int);
        if t.subrange(0, 8) != magic_seq() {
            Ok(None)
        } else {
            let a = be_value(t.subrange(8, 16));
            let m = if with_metadata { be_value(t.subrange(16, 24)) as int } else { pos };
            if a <= m && m <= pos {
                Ok(Some((
                    file.subrange(a as int, m),
                    if with_metadata { Some(file.subrange(m, pos)) } else { None },
                )))
            } else {
                Err(ExtractError::BadOffsets)
            }
        }
    }
}

/// The payload as the plain byte sequences it holds.
pub open spec fn payload_view(p: Payload) -> (Seq<u8>, Option<Seq<u8>>) {
    (p.archive@, match p.metadata { Some(m) => Some(m@), None => None })
}

/// Finds the payload in the bytes of a binary. The footer is read from the
/// end: 24 bytes in the metadata variant, else 16.
pub fn extract_payload(file: &[u8], with_metadata: bool) -> (r: Result<Option<Payload>, ExtractError>)
    ensures
        match (r, extraction(file@, with_metadata)) {
            (Ok(None), Ok(None)) => true,
            (Ok(Some(p)), Ok(Some(q))) => payload_view(p) == q,
            (Err(e), Err(f)) => e == f,
            _ => false,
        },
{
    let tl: usize = if with_metadata { TRAILER_LEN_WITH_METADATA } else { TRAILER_LEN_PLAIN };
    if file.len() < tl {
        return Err(ExtractError::Truncated);
    }
    let pos: usize = file.len() - tl;
    let t = copy_range(file, pos, file.len());
    let tr = match parse_trailer(t.as_slice(), with_metadata) {
        None => return Ok(None),
        Some(tr) => tr,
    };
    assert(t@.subrange(8, 16) =~= file@.subrange(pos as int, file@.len() as int).subrange(8, 16));
    assert(with_metadata ==> t@.subrange(16, 24) =~= file@.subrange(pos as int, file@.len() as int).subrange(16, 24));
    let a = tr.archive_offset;
    let m: u64 = match tr.metadata_offset {
        Some(m) => m,
        None => pos as u64,
    };
    if !(a <= m && m <= pos as u64) {
        return Err(ExtractError::BadOffsets);
    }
    let archive = copy_range(file, a as usize, m as usize);
    let metadata = if with_metadata {
        Some(copy_range(file, m as usize, pos))
    } else {
        None
    };
    Ok(Some(Payload { archive, metadata }))
}

/// Extracting from a packaged binary gives back exactly the archive and the
/// metadata that were packaged, whatever the base binary holds.
pub proof fn lemma_package_extract_round_trip(
    r: Seq<u8>,
    base: Seq<u8>,
    archive: Seq<u8>,
    metadata: Option<Seq<u8>>,
)
    requires
        is_packaged(r, base, archive, metadata),
    ensures
        extraction(r, metadata is Some) == Ok::<_, ExtractError>(Some((archive, metadata))),
{
    let m = match metadata { Some(m) => m, None => Seq::<u8>::empty() };
    let body = base + archive + m;
    let pos = body.len() as int;
    let t = r.subrange(pos, r.len() as int);
    assert(t.subrange(0, 8) == magic_seq());
    assert(be_value(t.subrange(8, 16)) == base.len());
    assert(r.subrange(base.len() as int, (base.len() + archive.len()) as int) =~= archive) by {
        assert(r.subrange(0, pos).subrange(base.len() as int, (base.len() + archive.len()) as int) =~= archive);
    }
    if metadata is Some {
        assert(r.subrange((base.len() + archive.len()) as int, pos) =~= m) by {
            assert(r.subrange(0, pos).subrange((base.len() + archive.len()) as int, pos) =~= m);
        }
    } else {
        assert(r.subrange(base.len() as int, pos) =~= archive) by {
            assert(r.subrange(0, pos).subrange(base.len() as int, pos) =~= archive);
        }
    }
}

/// A file whose footer lacks the marker yields no payload and no error.
pub proof fn lemma_missing_marker_is_no_payload(file: Seq<u8>, with_metadata: bool)
    requires
        file.len() >= trailer_len(with_metadata),
        file.subrange(file.len() - trailer_len(with_metadata), file.len() as int).subrange(0, 8) != magic_seq(),
    ensures
        extraction(file, with_metadata) == Ok::<_, ExtractError>(None::<(Seq<u8>, Option<Seq<u8>>)>),
{
}

} // verus!
