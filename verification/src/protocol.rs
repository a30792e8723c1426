//! What the scanner asks of the file it reads, what it gets back, and the model
//! of a file that the contracts speak of.
use vstd::prelude::*;

use crate::format::{ImInfo, ImResult};

verus! {

/// Largest offset that a seek can reach (`i64::MAX`); reading from beyond it fails.
pub const SEEK_LIMIT: u64 = 0x7fff_ffff_ffff_ffff;

/// An operation that the scanner needs done before it can go on.
#[derive(Debug, Clone, Copy, PartialEq, Eq, Structural)]
pub enum Request {
    /// Read exactly `len` bytes starting at offset `pos` from the start of the file.
    ReadAt { pos: u64, len: usize },
    /// Convert the IEEE-754 single-precision number with these bits to `u64` as `as` does.
    F32AsU64(u32),
    /// Convert the IEEE-754 double-precision number with these bits to `u64` as `as` does.
    F64AsU64(u64),
}

/// The outcome of a `Request`.
#[derive(Debug)]
pub enum Reply {
    /// The bytes read.
    Bytes(Vec<u8>),
    /// The seek or the read failed (end of file included).
    Failed,
    /// The converted number.
    Value(u64),
}

/// What the scanner does next: ask for one more operation, or give its answer.
#[derive(Debug)]
pub enum Step {
    Need(Request),
    Done(ImResult<ImInfo>),
}

/// A model of the file being read: `read(pos, len)` is what reading `len` bytes at
/// offset `pos` gives (`None` when the read fails), and the two conversions are
/// those the platform's `as` casts perform.
pub struct Source {
    pub read: spec_fn(int, nat) -> Option<Seq<u8>>,
    pub f32_as_u64: spec_fn(u32) -> u64,
    pub f64_as_u64: spec_fn(u64) -> u64,
}

/// The source whose reads are those of a plain file with contents `bytes`.
pub open spec fn file_source(
    bytes: Seq<u8>,
    f32_as_u64: spec_fn(u32) -> u64,
    f64_as_u64: spec_fn(u64) -> u64,
) -> Source {
    Source {
        read: |pos: int, len: nat|
            if 0 <= pos && pos + len <= bytes.len() {
                Some(bytes.subrange(pos, pos + len))
            } else {
                None
            },
        f32_as_u64,
        f64_as_u64,
    }
}

/// Reading `len` bytes at `pos`: fails beyond the seek limit, and when the source
/// fails or hands back a different number of bytes.
pub open spec fn fetch(src: Source, pos: int, len: nat) -> Option<Seq<u8>> {
    if 0 <= pos <= SEEK_LIMIT {
        match (src.read)(pos, len) {
            Some(s) => if s.len() == len { Some(s) } else { None },
            None => None,
        }
    } else {
        None
    }
}

/// The outcome of a request, as the model sees it.
pub enum Answer {
    Data(Seq<u8>),
    Missing,
    Number(u64),
}

/// How `src` answers `req`.
pub open spec fn answer(src: Source, req: Request) -> Answer {
    match req {
        Request::ReadAt { pos, len } => match fetch(src, pos as int, len as nat) {
            Some(s) => Answer::Data(s),
            None => Answer::Missing,
        },
        Request::F32AsU64(bits) => Answer::Number((src.f32_as_u64)(bits)),
        Request::F64AsU64(bits) => Answer::Number((src.f64_as_u64)(bits)),
    }
}

/// How a reply reads as the answer to `req`: bytes of another length than asked
/// for, or a reply of the wrong kind, count as a failure.
pub open spec fn reply_answer(reply: Reply, req: Request) -> Answer {
    match req {
        Request::ReadAt { pos, len } => match reply {
            Reply::Bytes(v) => if v@.len() == len { Answer::Data(v@) } else { Answer::Missing },
            _ => Answer::Missing,
        },
        _ => match reply {
            Reply::Value(x) => Answer::Number(x),
            _ => Answer::Missing,
        },
    }
}

/// `reply` is what `src` gives for `req`.
pub open spec fn answered(src: Source, req: Request, reply: Reply) -> bool {
    reply_answer(reply, req) == answer(src, req)
}

} // verus!
