//! JPEG: walk the marker segments until a start-of-frame segment gives the size.
use vstd::prelude::*;

use crate::bytes::{be16, read_be16};
use crate::format::{ImError, ImFormat, ImInfo, ImResult};
use crate::preamble::{info, malformed};
use crate::protocol::{fetch, Source, Step, SEEK_LIMIT};
use crate::scanner::{ask, leads, room, view_bytes, Phase};

verus! {

/// From offset `pos` on, with `b` the byte read last: stop at an SOS marker or a
/// zero byte, else look for the next marker.
pub open spec fn jpeg_top(src: Source, pos: int, b: u8) -> ImResult<ImInfo>
    decreases room(pos), 3nat,
{
    if b == 0xda || b == 0 {
        malformed(ImFormat::JPEG)
    } else if b != 0xff {
        jpeg_hunt(src, pos)
    } else {
        jpeg_fill(src, pos)
    }
}

/// Looking for the 0xff that opens a marker: read the byte at `pos`.
pub open spec fn jpeg_hunt(src: Source, pos: int) -> ImResult<ImInfo>
    decreases room(pos), 2nat,
{
    jpeg_hunt_then(src, pos, fetch(src, pos, 1))
}

pub open spec fn jpeg_hunt_then(src: Source, pos: int, got: Option<Seq<u8>>) -> ImResult<ImInfo>
    decreases room(pos), 1nat,
{
    match got {
        Some(s) => if pos > SEEK_LIMIT {
            malformed(ImFormat::JPEG)
        } else if s[0] != 0xff {
            jpeg_hunt(src, pos + 1)
        } else {
            jpeg_fill(src, pos + 1)
        },
        None => malformed(ImFormat::JPEG),
    }
}

/// Skipping 0xff fill bytes: read the byte at `pos`.
pub open spec fn jpeg_fill(src: Source, pos: int) -> ImResult<ImInfo>
    decreases room(pos), 2nat,
{
    jpeg_fill_then(src, pos, fetch(src, pos, 1))
}

pub open spec fn jpeg_fill_then(src: Source, pos: int, got: Option<Seq<u8>>) -> ImResult<ImInfo>
    decreases room(pos), 1nat,
{
    match got {
        Some(s) => if pos > SEEK_LIMIT {
            malformed(ImFormat::JPEG)
        } else if s[0] == 0xff {
            jpeg_fill(src, pos + 1)
        } else {
            jpeg_marker(src, pos + 1, s[0])
        },
        None => malformed(ImFormat::JPEG),
    }
}

/// Marker `m` was read, its segment starts at `pos`: SOF0..SOF3 hold the size,
/// any other segment is skipped by its length.
pub open spec fn jpeg_marker(src: Source, pos: int, m: u8) -> ImResult<ImInfo>
    decreases room(pos), 3nat,
{
    if 0xc0 <= m <= 0xc3 {
        jpeg_sof(src, pos + 3)
    } else {
        jpeg_seglen(src, pos)
    }
}

/// Frame header after the sample precision: height then width, big endian.
pub open spec fn jpeg_sof(src: Source, pos: int) -> ImResult<ImInfo> {
    jpeg_sof_then(fetch(src, pos, 4))
}

pub open spec fn jpeg_sof_then(got: Option<Seq<u8>>) -> ImResult<ImInfo> {
    match got {
        Some(s) => info(ImFormat::JPEG, be16(s, 2), be16(s, 0)),
        None => malformed(ImFormat::JPEG),
    }
}

/// Segment length at `pos` (it counts its own two bytes).
pub open spec fn jpeg_seglen(src: Source, pos: int) -> ImResult<ImInfo>
    decreases room(pos), 2nat,
{
    jpeg_seglen_then(src, pos, fetch(src, pos, 2))
}

pub open spec fn jpeg_seglen_then(src: Source, pos: int, got: Option<Seq<u8>>) -> ImResult<ImInfo>
    decreases room(pos), 1nat,
{
    match got {
        Some(s) => {
            let len = be16(s, 0);
            if len < 2 || pos > SEEK_LIMIT || pos + len > SEEK_LIMIT {
                malformed(ImFormat::JPEG)
            } else {
                jpeg_next(src, pos + len)
            }
        },
        None => malformed(ImFormat::JPEG),
    }
}

/// Past a segment: read the byte at `pos` and go on from there.
pub open spec fn jpeg_next(src: Source, pos: int) -> ImResult<ImInfo>
    decreases room(pos), 2nat,
{
    jpeg_next_then(src, pos, fetch(src, pos, 1))
}

pub open spec fn jpeg_next_then(src: Source, pos: int, got: Option<Seq<u8>>) -> ImResult<ImInfo>
    decreases room(pos), 1nat,
{
    match got {
        Some(s) => if pos > SEEK_LIMIT {
            malformed(ImFormat::JPEG)
        } else {
            jpeg_top(src, pos + 1, s[0])
        },
        None => malformed(ImFormat::JPEG),
    }
}

fn jpeg_error() -> (r: (Phase, Step))
    ensures
        r.0 is Finished,
        r.0.wf(),
        r.1 == Step::Done(malformed(ImFormat::JPEG)),
{
    (Phase::Finished, Step::Done(Err(ImError::ParserError(ImFormat::JPEG))))
}

pub(crate) fn top(pos: u64, b: u8) -> (r: (Phase, Step))
    requires
        pos <= SEEK_LIMIT + 1,
    ensures
        r.0.wf(),
        r.1 is Need ==> r.0.mark() >= pos,
        forall|src: Source| leads(r.0, r.1, src, #[trigger] jpeg_top(src, pos as int, b)),
{
    let r = if b == 0xda || b == 0 {
        jpeg_error()
    } else if b != 0xff {
        hunt(pos)
    } else {
        fill(pos)
    };
    assert forall|src: Source| leads(r.0, r.1, src, #[trigger] jpeg_top(src, pos as int, b)) by {
        if b != 0xda && b != 0 {
            if b != 0xff {
                assert(leads(r.0, r.1, src, jpeg_hunt(src, pos as int)));
            } else {
                assert(leads(r.0, r.1, src, jpeg_fill(src, pos as int)));
            }
        }
    }
    r
}

fn hunt(pos: u64) -> (r: (Phase, Step))
    requires
        pos <= SEEK_LIMIT + 1,
    ensures
        r.0.wf(),
        r.1 is Need ==> r.0.mark() >= pos,
        forall|src: Source| leads(r.0, r.1, src, #[trigger] jpeg_hunt(src, pos as int)),
{
    ask(Phase::JpegHunt { pos }, pos, 1, ImFormat::JPEG)
}

fn fill(pos: u64) -> (r: (Phase, Step))
    requires
        pos <= SEEK_LIMIT + 1,
    ensures
        r.0.wf(),
        r.1 is Need ==> r.0.mark() >= pos,
        forall|src: Source| leads(r.0, r.1, src, #[trigger] jpeg_fill(src, pos as int)),
{
    ask(Phase::JpegFill { pos }, pos, 1, ImFormat::JPEG)
}

fn marker(pos: u64, m: u8) -> (r: (Phase, Step))
    requires
        pos <= SEEK_LIMIT + 1,
    ensures
        r.0.wf(),
        r.1 is Need ==> r.0.mark() >= pos,
        forall|src: Source| leads(r.0, r.1, src, #[trigger] jpeg_marker(src, pos as int, m)),
{
    let r = if 0xc0 <= m && m <= 0xc3 {
        ask(Phase::JpegSof { pos: pos + 3 }, pos + 3, 4, ImFormat::JPEG)
    } else {
        ask(Phase::JpegSegLen { pos }, pos, 2, ImFormat::JPEG)
    };
    assert forall|src: Source| leads(r.0, r.1, src, #[trigger] jpeg_marker(src, pos as int, m)) by {
        if 0xc0 <= m && m <= 0xc3 {
            assert(jpeg_marker(src, pos as int, m) == jpeg_sof(src, pos + 3));
        } else {
            assert(jpeg_marker(src, pos as int, m) == jpeg_seglen(src, pos as int));
        }
    }
    r
}

/// Go on after the reply to a JPEG read, `got` holding the bytes read if it succeeded.
pub(crate) fn resume(phase: Phase, got: Option<Vec<u8>>) -> (r: (Phase, Step))
    requires
        phase.wf(),
        phase is JpegHunt || phase is JpegFill || phase is JpegSof || phase is JpegSegLen
            || phase is JpegNext,
        got matches Some(v) ==> v@.len() == phase.pending()->len,
    ensures
        r.0.wf(),
        r.1 is Need ==> r.0.mark() > phase.mark(),
        forall|src: Source|
            leads(r.0, r.1, src, #[trigger] phase.after_data(view_bytes(got), src)),
{
    let ghost g = view_bytes(got);
    match got {
        None => {
            let r = jpeg_error();
            assert forall|src: Source| leads(r.0, r.1, src, #[trigger] phase.after_data(g, src)) by {}
            r
        },
        Some(v) => match phase {
            Phase::JpegHunt { pos } => {
                let r = if v[0] != 0xff {
                    hunt(pos + 1)
                } else {
                    fill(pos + 1)
                };
                assert forall|src: Source| leads(r.0, r.1, src, #[trigger] phase.after_data(g, src)) by {
                    if v@[0] != 0xff {
                        assert(leads(r.0, r.1, src, jpeg_hunt(src, pos + 1)));
                    } else {
                        assert(leads(r.0, r.1, src, jpeg_fill(src, pos + 1)));
                    }
                }
                r
            },
            Phase::JpegFill { pos } => {
                let r = if v[0] == 0xff {
                    fill(pos + 1)
                } else {
                    marker(pos + 1, v[0])
                };
                assert forall|src: Source| leads(r.0, r.1, src, #[trigger] phase.after_data(g, src)) by {
                    if v@[0] == 0xff {
                        assert(leads(r.0, r.1, src, jpeg_fill(src, pos + 1)));
                    } else {
                        assert(leads(r.0, r.1, src, jpeg_marker(src, pos + 1, v@[0])));
                    }
                }
                r
            },
            Phase::JpegSof { pos } => {
                let h = read_be16(v.as_slice(), 0);
                let w = read_be16(v.as_slice(), 2);
                (
                    Phase::Finished,
                    Step::Done(Ok(ImInfo { format: ImFormat::JPEG, width: w as u64, height: h as u64 })),
                )
            },
            Phase::JpegSegLen { pos } => {
                let len = read_be16(v.as_slice(), 0);
                if len < 2 || len as u64 > SEEK_LIMIT - pos {
                    jpeg_error()
                } else {
                    let next = pos + len as u64;
                    let r = ask(Phase::JpegNext { pos: next }, next, 1, ImFormat::JPEG);
                    assert forall|src: Source| leads(r.0, r.1, src, #[trigger] phase.after_data(g, src)) by {
                        assert(phase.after_data(g, src) == jpeg_next(src, next as int));
                    }
                    r
                }
            },
            Phase::JpegNext { pos } => {
                let r = top(pos + 1, v[0]);
                assert forall|src: Source| leads(r.0, r.1, src, #[trigger] phase.after_data(g, src)) by {
                    assert(leads(r.0, r.1, src, jpeg_top(src, pos + 1, v@[0])));
                }
                r
            },
            _ => jpeg_error(),
        },
    }
}

} // verus!
