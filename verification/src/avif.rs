//! AVIF: follow the boxes meta > iprp > ipco > ispe; the image spatial extents
//! property holds width and height.
use vstd::prelude::*;

use crate::bytes::{be32, read_be32};
use crate::format::{ImError, ImFormat, ImInfo, ImResult};
use crate::preamble::{info, malformed};
use crate::protocol::{fetch, Source, Step, SEEK_LIMIT};
use crate::scanner::{ask, leads, room, view_bytes, Phase};

verus! {

/// The boxes searched for, outermost first.
#[derive(Debug, Clone, Copy, PartialEq, Eq, Structural)]
pub enum AvifBox {
    Meta,
    Iprp,
    Ipco,
    Ispe,
}

/// The four-character type of a box.
pub open spec fn box_type(b: AvifBox) -> Seq<u8> {
    match b {
        AvifBox::Meta => seq![0x6d, 0x65, 0x74, 0x61],
        AvifBox::Iprp => seq![0x69, 0x70, 0x72, 0x70],
        AvifBox::Ipco => seq![0x69, 0x70, 0x63, 0x6f],
        AvifBox::Ispe => seq![0x69, 0x73, 0x70, 0x65],
    }
}

/// After the `ftyp` box of `ftyp_size` bytes, look for `meta` among the top-level boxes.
pub open spec fn avif_top(src: Source, ftyp_size: int) -> ImResult<ImInfo> {
    if ftyp_size < 12 {
        malformed(ImFormat::AVIF)
    } else {
        avif_find(src, AvifBox::Meta, ftyp_size, u64::MAX as int, 0)
    }
}

/// Look for box `b` among the boxes from offset `pos` on; `offset` bytes of the
/// enclosing box were passed over so far, and the search gives up once that
/// exceeds `limit`.
pub open spec fn avif_find(src: Source, b: AvifBox, pos: int, limit: int, offset: int) -> ImResult<ImInfo>
    decreases room(pos), 2nat,
{
    if offset > limit {
        malformed(ImFormat::AVIF)
    } else {
        avif_find_then(src, b, pos, limit, offset, fetch(src, pos, 8))
    }
}

/// A box header (32-bit size, big endian, then type) was read at `pos`: a size
/// below 8 is an error, a matching type is found, anything else is skipped.
pub open spec fn avif_find_then(
    src: Source,
    b: AvifBox,
    pos: int,
    limit: int,
    offset: int,
    got: Option<Seq<u8>>,
) -> ImResult<ImInfo>
    decreases room(pos), 1nat,
{
    match got {
        Some(s) => {
            let size = be32(s, 0);
            if size < 8 || pos > SEEK_LIMIT {
                malformed(ImFormat::AVIF)
            } else if s.subrange(4, 8) == box_type(b) {
                avif_found(src, b, pos + 8, size)
            } else if pos + size > SEEK_LIMIT {
                malformed(ImFormat::AVIF)
            } else {
                avif_find(src, b, pos + size, limit, offset + size)
            }
        },
        None => malformed(ImFormat::AVIF),
    }
}

/// Box `b` of `size` bytes was found, its contents start at `pos`: search the next
/// box inside it (`meta` is a full box: skip its four version and flag bytes), or,
/// for `ispe`, read the size.
pub open spec fn avif_found(src: Source, b: AvifBox, pos: int, size: int) -> ImResult<ImInfo>
    decreases room(pos), 3nat,
{
    match b {
        AvifBox::Meta => if size < 12 || pos + 4 > SEEK_LIMIT {
            malformed(ImFormat::AVIF)
        } else {
            avif_find(src, AvifBox::Iprp, pos + 4, size - 12, 0)
        },
        AvifBox::Iprp => avif_find(src, AvifBox::Ipco, pos, size - 8, 0),
        AvifBox::Ipco => avif_find(src, AvifBox::Ispe, pos, size - 8, 0),
        AvifBox::Ispe => if size < 12 {
            malformed(ImFormat::AVIF)
        } else {
            avif_extent(src, pos)
        },
    }
}

/// The `ispe` contents: version and flags, then width and height, big endian.
pub open spec fn avif_extent(src: Source, pos: int) -> ImResult<ImInfo> {
    avif_extent_then(fetch(src, pos, 12))
}

pub open spec fn avif_extent_then(got: Option<Seq<u8>>) -> ImResult<ImInfo> {
    match got {
        Some(s) => info(ImFormat::AVIF, be32(s, 4), be32(s, 8)),
        None => malformed(ImFormat::AVIF),
    }
}

fn avif_error() -> (r: (Phase, Step))
    ensures
        r.0 is Finished,
        r.0.wf(),
        r.1 == Step::Done(malformed(ImFormat::AVIF)),
{
    (Phase::Finished, Step::Done(Err(ImError::ParserError(ImFormat::AVIF))))
}

pub(crate) fn top(ftyp_size: u32) -> (r: (Phase, Step))
    ensures
        r.0.wf(),
        forall|src: Source| leads(r.0, r.1, src, #[trigger] avif_top(src, ftyp_size as int)),
{
    if ftyp_size < 12 {
        avif_error()
    } else {
        let r = find(AvifBox::Meta, ftyp_size as u64, u64::MAX, 0);
        assert forall|src: Source| leads(r.0, r.1, src, #[trigger] avif_top(src, ftyp_size as int)) by {
            assert(leads(r.0, r.1, src, avif_find(src, AvifBox::Meta, ftyp_size as int, u64::MAX as int, 0)));
        }
        r
    }
}

fn find(b: AvifBox, pos: u64, limit: u64, offset: u64) -> (r: (Phase, Step))
    requires
        pos <= SEEK_LIMIT + 8,
        offset <= pos,
    ensures
        r.0.wf(),
        r.1 is Need ==> r.0.mark() >= pos,
        forall|src: Source|
            leads(r.0, r.1, src, #[trigger] avif_find(src, b, pos as int, limit as int, offset as int)),
{
    if offset > limit {
        avif_error()
    } else {
        let r = ask(Phase::AvifFind { b, pos, limit, offset }, pos, 8, ImFormat::AVIF);
        assert forall|src: Source|
            leads(r.0, r.1, src, #[trigger] avif_find(src, b, pos as int, limit as int, offset as int)) by {
        }
        r
    }
}

fn found(b: AvifBox, pos: u64, size: u64) -> (r: (Phase, Step))
    requires
        pos <= SEEK_LIMIT + 8,
        8 <= size <= u32::MAX,
    ensures
        r.0.wf(),
        r.1 is Need ==> r.0.mark() >= pos,
        forall|src: Source| leads(r.0, r.1, src, #[trigger] avif_found(src, b, pos as int, size as int)),
{
    let r = match b {
        AvifBox::Meta => if size < 12 || pos > SEEK_LIMIT - 4 {
            avif_error()
        } else {
            find(AvifBox::Iprp, pos + 4, size - 12, 0)
        },
        AvifBox::Iprp => find(AvifBox::Ipco, pos, size - 8, 0),
        AvifBox::Ipco => find(AvifBox::Ispe, pos, size - 8, 0),
        AvifBox::Ispe => if size < 12 {
            avif_error()
        } else {
            ask(Phase::AvifExtent { pos }, pos, 12, ImFormat::AVIF)
        },
    };
    assert forall|src: Source| leads(r.0, r.1, src, #[trigger] avif_found(src, b, pos as int, size as int)) by {
        match b {
            AvifBox::Meta => if !(size < 12 || pos > SEEK_LIMIT - 4) {
                assert(leads(r.0, r.1, src, avif_find(src, AvifBox::Iprp, pos + 4, size - 12, 0)));
            },
            AvifBox::Iprp => {
                assert(leads(r.0, r.1, src, avif_find(src, AvifBox::Ipco, pos as int, size - 8, 0)));
            },
            AvifBox::Ipco => {
                assert(leads(r.0, r.1, src, avif_find(src, AvifBox::Ispe, pos as int, size - 8, 0)));
            },
            AvifBox::Ispe => {},
        }
    }
    r
}

/// Whether the four bytes at `v[4..8]` are the type of box `b`.
fn is_box(v: &Vec<u8>, b: AvifBox) -> (r: bool)
    requires
        v@.len() == 8,
    ensures
        r == (v@.subrange(4, 8) == box_type(b)),
{
    let t: [u8; 4] = match b {
        AvifBox::Meta => [0x6d, 0x65, 0x74, 0x61],
        AvifBox::Iprp => [0x69, 0x70, 0x72, 0x70],
        AvifBox::Ipco => [0x69, 0x70, 0x63, 0x6f],
        AvifBox::Ispe => [0x69, 0x73, 0x70, 0x65],
    };
    let r = v[4] == t[0] && v[5] == t[1] && v[6] == t[2] && v[7] == t[3];
    assert(t@ == box_type(b));
    if r {
        assert(v@.subrange(4, 8) =~= box_type(b));
    } else {
        assert(v@.subrange(4, 8) != box_type(b)) by {
            if v@.subrange(4, 8) == box_type(b) {
                assert(v@.subrange(4, 8)[0] == v@[4]);
                assert(v@.subrange(4, 8)[1] == v@[5]);
                assert(v@.subrange(4, 8)[2] == v@[6]);
                assert(v@.subrange(4, 8)[3] == v@[7]);
            }
        }
    }
    r
}

/// Go on after the reply to an AVIF read.
pub(crate) fn resume(phase: Phase, got: Option<Vec<u8>>) -> (r: (Phase, Step))
    requires
        phase.wf(),
        phase is AvifFind || phase is AvifExtent,
        got matches Some(v) ==> v@.len() == phase.pending()->len,
    ensures
        r.0.wf(),
        r.1 is Need ==> r.0.mark() > phase.mark(),
        forall|src: Source| leads(r.0, r.1, src, #[trigger] phase.after_data(view_bytes(got), src)),
{
    let ghost g = view_bytes(got);
    match got {
        None => avif_error(),
        Some(v) => match phase {
            Phase::AvifFind { b, pos, limit, offset } => {
                let size = read_be32(v.as_slice(), 0) as u64;
                if size < 8 {
                    avif_error()
                } else if is_box(&v, b) {
                    let r = found(b, pos + 8, size);
                    assert forall|src: Source| leads(r.0, r.1, src, #[trigger] phase.after_data(g, src)) by {
                        assert(leads(r.0, r.1, src, avif_found(src, b, pos + 8, size as int)));
                    }
                    r
                } else if size > SEEK_LIMIT - pos {
                    avif_error()
                } else {
                    let r = find(b, pos + size, limit, offset + size);
                    assert forall|src: Source| leads(r.0, r.1, src, #[trigger] phase.after_data(g, src)) by {
                        assert(leads(
                            r.0,
                            r.1,
                            src,
                            avif_find(src, b, pos + size, limit as int, offset + size),
                        ));
                    }
                    r
                }
            },
            Phase::AvifExtent { pos } => {
                let w = read_be32(v.as_slice(), 4);
                let h = read_be32(v.as_slice(), 8);
                (
                    Phase::Finished,
                    Step::Done(Ok(ImInfo { format: ImFormat::AVIF, width: w as u64, height: h as u64 })),
                )
            },
            _ => avif_error(),
        },
    }
}

} // verus!
