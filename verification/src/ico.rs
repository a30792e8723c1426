//! ICO: the largest image in the directory, 16-byte entries from offset 6 on.
use vstd::prelude::*;

use crate::format::{ImError, ImFormat, ImInfo, ImResult};
use crate::preamble::{info, malformed};
use crate::protocol::{fetch, Source, Step};
use crate::scanner::{ask, leads, view_bytes, Phase};

verus! {

/// Offset of directory entry `i`.
pub open spec fn ico_entry_pos(i: int) -> int {
    6 + 16 * i
}

/// Entries `i..count` still to visit; `(w, h)` is the largest size so far (an entry
/// replaces it when it is at least as wide and at least as high).
pub open spec fn ico_entries(src: Source, count: int, i: int, w: int, h: int) -> ImResult<ImInfo>
    decreases count - i, 1nat,
{
    if i >= count {
        info(ImFormat::ICO, w, h)
    } else {
        ico_entry_then(src, count, i, w, h, fetch(src, ico_entry_pos(i), 16))
    }
}

pub open spec fn ico_entry_then(
    src: Source,
    count: int,
    i: int,
    w: int,
    h: int,
    got: Option<Seq<u8>>,
) -> ImResult<ImInfo>
    decreases count - i, 0nat,
{
    match got {
        Some(s) => if i >= count {
            // never reached: entries are only read below `count`
            malformed(ImFormat::ICO)
        } else if s[0] >= w && s[1] >= h {
            ico_entries(src, count, i + 1, s[0] as int, s[1] as int)
        } else {
            ico_entries(src, count, i + 1, w, h)
        },
        None => malformed(ImFormat::ICO),
    }
}

pub(crate) fn entries(count: u64, i: u64, w: u64, h: u64) -> (r: (Phase, Step))
    requires
        count <= 0xffff,
        i <= count,
        w <= 0xff,
        h <= 0xff,
    ensures
        r.0.wf(),
        r.1 is Need ==> r.0.mark() == 6 + 16 * i,
        forall|src: Source|
            leads(r.0, r.1, src, #[trigger] ico_entries(src, count as int, i as int, w as int, h as int)),
{
    if i >= count {
        (Phase::Finished, Step::Done(Ok(ImInfo { format: ImFormat::ICO, width: w, height: h })))
    } else {
        let pos = 6 + 16 * i;
        let r = ask(Phase::Ico { count, i, w, h }, pos, 16, ImFormat::ICO);
        assert forall|src: Source|
            leads(r.0, r.1, src, #[trigger] ico_entries(src, count as int, i as int, w as int, h as int)) by {
        }
        r
    }
}

/// Go on after the reply to the read of a directory entry.
pub(crate) fn resume(phase: Phase, got: Option<Vec<u8>>) -> (r: (Phase, Step))
    requires
        phase.wf(),
        phase is Ico,
        got matches Some(v) ==> v@.len() == phase.pending()->len,
    ensures
        r.0.wf(),
        r.1 is Need ==> r.0.mark() > phase.mark(),
        forall|src: Source| leads(r.0, r.1, src, #[trigger] phase.after_data(view_bytes(got), src)),
{
    let ghost g = view_bytes(got);
    match got {
        None => (Phase::Finished, Step::Done(Err(ImError::ParserError(ImFormat::ICO)))),
        Some(v) => match phase {
            Phase::Ico { count, i, w, h } => {
                let bw = v[0] as u64;
                let bh = v[1] as u64;
                let r = if bw >= w && bh >= h {
                    entries(count, i + 1, bw, bh)
                } else {
                    entries(count, i + 1, w, h)
                };
                assert forall|src: Source| leads(r.0, r.1, src, #[trigger] phase.after_data(g, src)) by {
                    if bw >= w && bh >= h {
                        assert(leads(r.0, r.1, src, ico_entries(src, count as int, i + 1, bw as int, bh as int)));
                    } else {
                        assert(leads(r.0, r.1, src, ico_entries(src, count as int, i + 1, w as int, h as int)));
                    }
                }
                r
            },
            _ => (Phase::Finished, Step::Done(Err(ImError::ParserError(ImFormat::ICO)))),
        },
    }
}

} // verus!
