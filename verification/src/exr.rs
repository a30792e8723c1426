//! OpenEXR: walk the header attributes (name, type, size, value) until the
//! `displayWindow` box gives the size.
use vstd::prelude::*;

use crate::bytes::{le32, read_le32, signed32, wrap64};
use crate::format::{ImError, ImFormat, ImInfo, ImResult};
use crate::preamble::{info, malformed};
use crate::protocol::{fetch, Source, Step, SEEK_LIMIT};
use crate::scanner::{ask, leads, room, view_bytes, Phase};

verus! {

/// "displayWindow"
pub open spec fn attr_display_window() -> Seq<u8> {
    seq![0x64, 0x69, 0x73, 0x70, 0x6c, 0x61, 0x79, 0x57, 0x69, 0x6e, 0x64, 0x6f, 0x77]
}

/// "box2i"
pub open spec fn type_box2i() -> Seq<u8> {
    seq![0x62, 0x6f, 0x78, 0x32, 0x69]
}

/// Reading an attribute name at `pos`, `name` holding the bytes read so far; an
/// empty name ends the header.
pub open spec fn exr_name(src: Source, pos: int, name: Seq<u8>) -> ImResult<ImInfo>
    decreases room(pos), 2nat,
{
    exr_name_then(src, pos, name, fetch(src, pos, 1))
}

pub open spec fn exr_name_then(src: Source, pos: int, name: Seq<u8>, got: Option<Seq<u8>>) -> ImResult<
    ImInfo,
>
    decreases room(pos), 1nat,
{
    match got {
        Some(s) => if pos > SEEK_LIMIT {
            malformed(ImFormat::OpenEXR)
        } else if s[0] != 0 {
            exr_name(src, pos + 1, name.push(s[0]))
        } else if name.len() == 0 {
            malformed(ImFormat::OpenEXR)
        } else {
            exr_type(src, pos + 1, name, seq![])
        },
        None => malformed(ImFormat::OpenEXR),
    }
}

/// Reading the type name of attribute `name` at `pos`, `ty` holding the bytes read so far.
pub open spec fn exr_type(src: Source, pos: int, name: Seq<u8>, ty: Seq<u8>) -> ImResult<ImInfo>
    decreases room(pos), 2nat,
{
    exr_type_then(src, pos, name, ty, fetch(src, pos, 1))
}

pub open spec fn exr_type_then(
    src: Source,
    pos: int,
    name: Seq<u8>,
    ty: Seq<u8>,
    got: Option<Seq<u8>>,
) -> ImResult<ImInfo>
    decreases room(pos), 1nat,
{
    match got {
        Some(s) => if pos > SEEK_LIMIT {
            malformed(ImFormat::OpenEXR)
        } else if s[0] != 0 {
            exr_type(src, pos + 1, name, ty.push(s[0]))
        } else {
            exr_size(src, pos + 1, name, ty)
        },
        None => malformed(ImFormat::OpenEXR),
    }
}

/// Reading the value size (32 bits, little endian) at `pos`: the display window
/// must be a 16-byte `box2i`; any other attribute value is skipped.
pub open spec fn exr_size(src: Source, pos: int, name: Seq<u8>, ty: Seq<u8>) -> ImResult<ImInfo>
    decreases room(pos), 2nat,
{
    exr_size_then(src, pos, name, ty, fetch(src, pos, 4))
}

pub open spec fn exr_size_then(
    src: Source,
    pos: int,
    name: Seq<u8>,
    ty: Seq<u8>,
    got: Option<Seq<u8>>,
) -> ImResult<ImInfo>
    decreases room(pos), 1nat,
{
    match got {
        Some(s) => {
            let size = le32(s, 0);
            if pos > SEEK_LIMIT {
                malformed(ImFormat::OpenEXR)
            } else if name == attr_display_window() {
                if ty != type_box2i() || size != 16 {
                    malformed(ImFormat::OpenEXR)
                } else {
                    exr_box(src, pos + 4)
                }
            } else if pos + 4 + size > SEEK_LIMIT {
                malformed(ImFormat::OpenEXR)
            } else {
                exr_name(src, pos + 4 + size, seq![])
            }
        },
        None => malformed(ImFormat::OpenEXR),
    }
}

/// The display window at `pos`: xMin, yMin, xMax, yMax, signed 32-bit little endian.
/// An empty window still skips its 16 value bytes, and that seek can fail.
pub open spec fn exr_box(src: Source, pos: int) -> ImResult<ImInfo> {
    exr_box_then(pos, fetch(src, pos, 16))
}

pub open spec fn exr_box_then(pos: int, got: Option<Seq<u8>>) -> ImResult<ImInfo> {
    match got {
        Some(s) => {
            let w = signed32(le32(s, 8)) - signed32(le32(s, 0)) + 1;
            let h = signed32(le32(s, 12)) - signed32(le32(s, 4)) + 1;
            if (w <= 0 || h <= 0) && pos + 32 > SEEK_LIMIT {
                malformed(ImFormat::OpenEXR)
            } else {
                info(ImFormat::OpenEXR, wrap64(w), wrap64(h))
            }
        },
        None => malformed(ImFormat::OpenEXR),
    }
}

fn exr_error() -> (r: (Phase, Step))
    ensures
        r.0 is Finished,
        r.0.wf(),
        r.1 == Step::Done(malformed(ImFormat::OpenEXR)),
{
    (Phase::Finished, Step::Done(Err(ImError::ParserError(ImFormat::OpenEXR))))
}

/// Whether `a` and `b` hold the same bytes.
fn same_bytes(a: &[u8], b: &[u8]) -> (r: bool)
    ensures
        r == (a@ == b@),
{
    if a.len() != b.len() {
        return false;
    }
    let mut i: usize = 0;
    while i < a.len()
        invariant
            a@.len() == b@.len(),
            i <= a@.len(),
            forall|j: int| 0 <= j < i ==> a@[j] == b@[j],
        decreases a@.len() - i,
    {
        if a[i] != b[i] {
            return false;
        }
        i = i + 1;
    }
    assert(a@ =~= b@);
    true
}

pub(crate) fn top() -> (r: (Phase, Step))
    ensures
        r.0.wf(),
        forall|src: Source| leads(r.0, r.1, src, #[trigger] exr_name(src, 8, seq![])),
{
    let name: Vec<u8> = Vec::new();
    assert(name@ =~= Seq::<u8>::empty());
    ask(Phase::ExrName { pos: 8, name }, 8, 1, ImFormat::OpenEXR)
}

/// Signed value of a 32-bit pattern, widened.
fn signed(u: u32) -> (r: i64)
    ensures
        r == signed32(u as int),
{
    if u < 0x8000_0000 {
        u as i64
    } else {
        u as i64 - 0x1_0000_0000
    }
}

/// The 64-bit pattern of a difference of window bounds.
fn bits64(v: i64) -> (r: u64)
    requires
        -0x2_0000_0000 <= v <= 0x2_0000_0000,
    ensures
        r == wrap64(v as int),
{
    if v >= 0 {
        v as u64
    } else {
        (0xffff_ffff_ffff_ffffu64 - ((-(v + 1)) as u64))
    }
}

fn name_got(pos: u64, name: Vec<u8>, v: Vec<u8>) -> (r: (Phase, Step))
    requires
        pos <= SEEK_LIMIT,
        v@.len() == 1,
    ensures
        r.0.wf(),
        r.1 is Need ==> r.0.mark() > pos,
        forall|src: Source|
            leads(r.0, r.1, src, #[trigger] exr_name_then(src, pos as int, name@, Some(v@))),
{
    let ghost name0 = name@;
    let mut name = name;
    if v[0] != 0 {
        name.push(v[0]);
        let r = ask(Phase::ExrName { pos: pos + 1, name }, pos + 1, 1, ImFormat::OpenEXR);
        assert forall|src: Source|
            leads(r.0, r.1, src, #[trigger] exr_name_then(src, pos as int, name0, Some(v@))) by {
            assert(exr_name_then(src, pos as int, name0, Some(v@)) == exr_name(
                src,
                pos + 1,
                name0.push(v@[0]),
            ));
        }
        r
    } else if name.len() == 0 {
        exr_error()
    } else {
        let ty: Vec<u8> = Vec::new();
        assert(ty@ =~= Seq::<u8>::empty());
        let r = ask(Phase::ExrType { pos: pos + 1, name, ty }, pos + 1, 1, ImFormat::OpenEXR);
        assert forall|src: Source|
            leads(r.0, r.1, src, #[trigger] exr_name_then(src, pos as int, name0, Some(v@))) by {
            assert(exr_name_then(src, pos as int, name0, Some(v@)) == exr_type(
                src,
                pos + 1,
                name0,
                seq![],
            ));
        }
        r
    }
}

fn type_got(pos: u64, name: Vec<u8>, ty: Vec<u8>, v: Vec<u8>) -> (r: (Phase, Step))
    requires
        pos <= SEEK_LIMIT,
        v@.len() == 1,
    ensures
        r.0.wf(),
        r.1 is Need ==> r.0.mark() > pos,
        forall|src: Source|
            leads(r.0, r.1, src, #[trigger] exr_type_then(src, pos as int, name@, ty@, Some(v@))),
{
    let ghost name0 = name@;
    let ghost ty0 = ty@;
    let mut ty = ty;
    if v[0] != 0 {
        ty.push(v[0]);
        let r = ask(Phase::ExrType { pos: pos + 1, name, ty }, pos + 1, 1, ImFormat::OpenEXR);
        assert forall|src: Source|
            leads(r.0, r.1, src, #[trigger] exr_type_then(src, pos as int, name0, ty0, Some(v@))) by {
            assert(exr_type_then(src, pos as int, name0, ty0, Some(v@)) == exr_type(
                src,
                pos + 1,
                name0,
                ty0.push(v@[0]),
            ));
        }
        r
    } else {
        let r = ask(Phase::ExrSize { pos: pos + 1, name, ty }, pos + 1, 4, ImFormat::OpenEXR);
        assert forall|src: Source|
            leads(r.0, r.1, src, #[trigger] exr_type_then(src, pos as int, name0, ty0, Some(v@))) by {
            assert(exr_type_then(src, pos as int, name0, ty0, Some(v@)) == exr_size(
                src,
                pos + 1,
                name0,
                ty0,
            ));
        }
        r
    }
}

fn size_got(pos: u64, name: Vec<u8>, ty: Vec<u8>, v: Vec<u8>) -> (r: (Phase, Step))
    requires
        pos <= SEEK_LIMIT,
        v@.len() == 4,
    ensures
        r.0.wf(),
        r.1 is Need ==> r.0.mark() > pos,
        forall|src: Source|
            leads(r.0, r.1, src, #[trigger] exr_size_then(src, pos as int, name@, ty@, Some(v@))),
{
    let size = read_le32(v.as_slice(), 0);
    let display_window = [
        0x64u8,
        0x69,
        0x73,
        0x70,
        0x6c,
        0x61,
        0x79,
        0x57,
        0x69,
        0x6e,
        0x64,
        0x6f,
        0x77,
    ];
    let box2i = [0x62u8, 0x6f, 0x78, 0x32, 0x69];
    assert(display_window@ == attr_display_window());
    assert(box2i@ == type_box2i());
    if same_bytes(name.as_slice(), display_window.as_slice()) {
        if !same_bytes(ty.as_slice(), box2i.as_slice()) || size != 16 {
            exr_error()
        } else {
            let r = ask(Phase::ExrBox { pos: pos + 4 }, pos + 4, 16, ImFormat::OpenEXR);
            assert forall|src: Source|
                leads(r.0, r.1, src, #[trigger] exr_size_then(src, pos as int, name@, ty@, Some(v@))) by {
                assert(exr_size_then(src, pos as int, name@, ty@, Some(v@)) == exr_box(src, pos + 4));
            }
            r
        }
    } else if pos > SEEK_LIMIT - 4 || size as u64 > SEEK_LIMIT - 4 - pos {
        exr_error()
    } else {
        let next = pos + 4 + size as u64;
        let empty: Vec<u8> = Vec::new();
        assert(empty@ =~= Seq::<u8>::empty());
        let r = ask(Phase::ExrName { pos: next, name: empty }, next, 1, ImFormat::OpenEXR);
        assert forall|src: Source|
            leads(r.0, r.1, src, #[trigger] exr_size_then(src, pos as int, name@, ty@, Some(v@))) by {
            assert(exr_size_then(src, pos as int, name@, ty@, Some(v@)) == exr_name(
                src,
                next as int,
                seq![],
            ));
        }
        r
    }
}

fn box_got(pos: u64, v: Vec<u8>) -> (r: (Phase, Step))
    requires
        pos <= SEEK_LIMIT,
        v@.len() == 16,
    ensures
        r.0 is Finished,
        r.1 == Step::Done(exr_box_then(pos as int, Some(v@))),
{
    let x1 = signed(read_le32(v.as_slice(), 0));
    let y1 = signed(read_le32(v.as_slice(), 4));
    let x2 = signed(read_le32(v.as_slice(), 8));
    let y2 = signed(read_le32(v.as_slice(), 12));
    let w = x2 - x1 + 1;
    let h = y2 - y1 + 1;
    if (w <= 0 || h <= 0) && pos > SEEK_LIMIT - 32 {
        exr_error()
    } else {
        (
            Phase::Finished,
            Step::Done(Ok(ImInfo { format: ImFormat::OpenEXR, width: bits64(w), height: bits64(h) })),
        )
    }
}

/// Go on after the reply to an OpenEXR read.
pub(crate) fn resume(phase: Phase, got: Option<Vec<u8>>) -> (r: (Phase, Step))
    requires
        phase.wf(),
        phase is ExrName || phase is ExrType || phase is ExrSize || phase is ExrBox,
        got matches Some(v) ==> v@.len() == phase.pending()->len,
    ensures
        r.0.wf(),
        r.1 is Need ==> r.0.mark() > phase.mark(),
        forall|src: Source| leads(r.0, r.1, src, #[trigger] phase.after_data(view_bytes(got), src)),
{
    match got {
        None => exr_error(),
        Some(v) => match phase {
            Phase::ExrName { pos, name } => name_got(pos, name, v),
            Phase::ExrType { pos, name, ty } => type_got(pos, name, ty, v),
            Phase::ExrSize { pos, name, ty } => size_got(pos, name, ty, v),
            Phase::ExrBox { pos } => box_got(pos, v),
            _ => exr_error(),
        },
    }
}

} // verus!
