//! The collection nesting depth of an EWKB envelope, found by following its
//! layout the way the geometry reader does: a header (byte-order byte, type
//! word, SRID when the type word's SRID bit is set), then a body by type.
//! Only nested collections make the reader recurse; every other part has a
//! fixed shape and is skipped by its counts.
use vstd::prelude::*;

verus! {

/// How many collections deep the geometry reader may be asked to recurse.
pub const MAX_GEOMETRY_NESTING: u32 = 256;

/// Items of a collection (or the envelope itself): full geometries.
pub const KIND_COLLECTION: u8 = 0;
/// Rings of a polygon: a count, then that many points.
pub const KIND_RINGS: u8 = 1;
/// Members of a multi-point: a header, then one point.
pub const KIND_POINTS: u8 = 2;
/// Members of a multi-line: a header, then a count and that many points.
pub const KIND_LINES: u8 = 3;
/// Members of a multi-polygon: a header, then a count of rings.
pub const KIND_POLYGONS: u8 = 4;

/// The scan is still going.
pub const SCAN_RUNNING: u8 = 0;
/// The envelope was read to its end.
pub const SCAN_DONE: u8 = 1;
/// The reader stops with an error here (bytes run out, unknown type).
pub const SCAN_FAILED: u8 = 2;
/// A collection would open deeper than `MAX_GEOMETRY_NESTING`.
pub const SCAN_TOO_DEEP: u8 = 3;

/// One open part of the envelope: `left` items of `kind` still to read;
/// for rings, the byte order and point size of their polygon; for a
/// collection, how many collections are open down to it.
#[derive(Clone, Copy, PartialEq, Eq, Structural)]
pub struct Frame {
    pub kind: u8,
    pub left: u32,
    pub be: bool,
    pub pt: u8,
    pub depth: u32,
}

/// The unsigned 32-bit integer at `p`, in the given byte order.
pub open spec fn u32_at(b: Seq<u8>, p: int, be: bool) -> int {
    if be {
        b[p] as int * 16777216 + b[p + 1] as int * 65536 + b[p + 2] as int * 256 + b[p + 3] as int
    } else {
        b[p + 3] as int * 16777216 + b[p + 2] as int * 65536 + b[p + 1] as int * 256 + b[p] as int
    }
}

/// The size of a point of type word `ty`: x and y, then z and m where the
/// type word's Z bit (31) and M bit (30) are set.
pub open spec fn pt_size(ty: int) -> int {
    16 + (if ty >= 0x8000_0000 {
        8int
    } else {
        0int
    }) + (if (ty / 0x4000_0000) % 2 == 1 {
        8int
    } else {
        0int
    })
}

/// The header at `p`: byte order, type word, and where the body starts.
pub open spec fn header_at(b: Seq<u8>, p: int) -> Option<(bool, int, int)> {
    if p + 5 > b.len() {
        None
    } else {
        let be = b[p] == 0;
        let ty = u32_at(b, p + 1, be);
        let q = if (ty / 0x2000_0000) % 2 == 1 {
            p + 9
        } else {
            p + 5
        };
        if q > b.len() {
            None
        } else {
            Some((be, ty, q))
        }
    }
}

/// A scan's state: position, open parts, status.
pub type ScanState = (int, Seq<Frame>, u8);

pub open spec fn skip_to(b: Seq<u8>, pos: int, p: int, fr: Seq<Frame>) -> ScanState {
    if p > b.len() {
        (pos, fr, SCAN_FAILED)
    } else {
        (p, fr, SCAN_RUNNING)
    }
}

pub open spec fn open_part(b: Seq<u8>, pos: int, p: int, be: bool, fr: Seq<Frame>, f: Frame) -> ScanState {
    if p + 4 > b.len() {
        (pos, fr, SCAN_FAILED)
    } else {
        (p + 4, fr.push(Frame { left: u32_at(b, p, be) as u32, ..f }), SCAN_RUNNING)
    }
}

/// One step of the scan: close a finished part, or read one item of the
/// innermost open part.
pub open spec fn scan_step(b: Seq<u8>, s: ScanState) -> ScanState {
    let (pos, frames, status) = s;
    if status != SCAN_RUNNING || frames.len() == 0 {
        s
    } else {
        let top = frames.last();
        if top.left == 0 {
            let rest = frames.drop_last();
            (pos, rest, if rest.len() == 0 {
                SCAN_DONE
            } else {
                SCAN_RUNNING
            })
        } else {
            let fr = frames.update(frames.len() - 1, Frame { left: (top.left - 1) as u32, ..top });
            let none = Frame { kind: 0, left: 0, be: false, pt: 0, depth: 0 };
            if top.kind == KIND_RINGS {
                if pos + 4 > b.len() {
                    (pos, fr, SCAN_FAILED)
                } else {
                    skip_to(b, pos, pos + 4 + u32_at(b, pos, top.be) * top.pt, fr)
                }
            } else {
                match header_at(b, pos) {
                    None => (pos, fr, SCAN_FAILED),
                    Some((be, ty, q)) => {
                        let pt = pt_size(ty);
                        let t = if top.kind == KIND_COLLECTION {
                            ty % 256
                        } else {
                            top.kind as int - 1
                        };
                        // t: 1 point, 2 line, 3 polygon, 4..6 multi, 7 collection.
                        if t == 1 {
                            skip_to(b, pos, q + pt, fr)
                        } else if t == 2 {
                            if q + 4 > b.len() {
                                (pos, fr, SCAN_FAILED)
                            } else {
                                skip_to(b, pos, q + 4 + u32_at(b, q, be) * pt, fr)
                            }
                        } else if t == 3 {
                            open_part(b, pos, q, be, fr, Frame { kind: KIND_RINGS, be, pt: pt as u8, ..none })
                        } else if t == 4 {
                            open_part(b, pos, q, be, fr, Frame { kind: KIND_POINTS, ..none })
                        } else if t == 5 {
                            open_part(b, pos, q, be, fr, Frame { kind: KIND_LINES, ..none })
                        } else if t == 6 {
                            open_part(b, pos, q, be, fr, Frame { kind: KIND_POLYGONS, ..none })
                        } else if t == 7 {
                            if top.depth >= MAX_GEOMETRY_NESTING {
                                (pos, fr, SCAN_TOO_DEEP)
                            } else {
                                open_part(
                                    b,
                                    pos,
                                    q,
                                    be,
                                    fr,
                                    Frame { kind: KIND_COLLECTION, depth: (top.depth + 1) as u32, ..none },
                                )
                            }
                        } else {
                            (pos, fr, SCAN_FAILED)
                        }
                    },
                }
            }
        }
    }
}

/// `fuel` steps of the scan, stopping early once it is no longer running.
pub open spec fn scan(b: Seq<u8>, s: ScanState, fuel: nat) -> ScanState
    decreases fuel,
{
    if fuel == 0 || s.2 != SCAN_RUNNING {
        s
    } else {
        scan(b, scan_step(b, s), (fuel - 1) as nat)
    }
}

/// The scan's start: the envelope itself is one geometry to read.
pub open spec fn scan_start() -> ScanState {
    (0, seq![Frame { kind: KIND_COLLECTION, left: 1, be: false, pt: 0, depth: 0 }], SCAN_RUNNING)
}

/// Whether the reader never recurses past `MAX_GEOMETRY_NESTING` collections
/// on `b`: the scan ends (read to the end, or stopped where the reader
/// fails) without opening a deeper collection. Every item read consumes at
/// least four bytes, so `b.len()` steps are always enough to end the scan.
pub open spec fn ewkb_depth_bounded(b: Seq<u8>) -> bool {
    let f = scan(b, scan_start(), b.len());
    f.2 == SCAN_DONE || f.2 == SCAN_FAILED
}

fn u32_at_exec(b: &Vec<u8>, p: usize, be: bool) -> (r: u64)
    requires
        p + 4 <= b@.len(),
    ensures
        r == u32_at(b@, p as int, be),
        r < 0x1_0000_0000,
{
    // Brings the bound on the vector's length into the proof.
    let _len = b.len();
    if be {
        b[p] as u64 * 16777216 + b[p + 1] as u64 * 65536 + b[p + 2] as u64 * 256 + b[p + 3] as u64
    } else {
        b[p + 3] as u64 * 16777216 + b[p + 2] as u64 * 65536 + b[p + 1] as u64 * 256 + b[p] as u64
    }
}

fn pt_size_exec(ty: u64) -> (r: u64)
    ensures
        r == pt_size(ty as int),
        16 <= r <= 32,
{
    16 + (if ty >= 0x8000_0000 {
        8u64
    } else {
        0u64
    }) + (if (ty / 0x4000_0000) % 2 == 1 {
        8u64
    } else {
        0u64
    })
}

fn header_exec(b: &Vec<u8>, p: usize) -> (r: Option<(bool, u64, usize)>)
    requires
        p <= b@.len(),
    ensures
        match header_at(b@, p as int) {
            None => r is None,
            Some((be, ty, q)) => match r {
                Some((rbe, rty, rq)) => rbe == be && rty as int == ty && rq as int == q && q <= b@.len(),
                None => false,
            },
        },
{
    if b.len() - p < 5 {
        return None;
    }
    let be = b[p] == 0;
    let ty = u32_at_exec(b, p + 1, be);
    let q = if (ty / 0x2000_0000) % 2 == 1 {
        if b.len() - p < 9 {
            return None;
        }
        p + 9
    } else {
        p + 5
    };
    Some((be, ty, q))
}

/// Skips `n` items of `size` bytes after a 4-byte count at `p`.
fn skip_counted(b: &Vec<u8>, pos: usize, p: usize, n: u64, size: u64) -> (r: (usize, u8))
    requires
        pos <= b@.len(),
        p + 4 <= b@.len(),
        n < 0x1_0000_0000,
        size < 256,
    ensures
        ({
            let s = skip_to(b@, pos as int, p + 4 + n * size, Seq::<Frame>::empty());
            r.0 == s.0 && r.1 == s.2
        }),
        r.0 <= b@.len(),
{
    // Brings the bound on the vector's length into the proof.
    let _len = b.len();
    assert(n * size <= 0x1_0000_0000 * 256) by (nonlinear_arith)
        requires
            n < 0x1_0000_0000,
            size < 256,
    ;
    let end: u128 = p as u128 + 4 + n as u128 * size as u128;
    if end > b.len() as u128 {
        (pos, SCAN_FAILED)
    } else {
        (end as usize, SCAN_RUNNING)
    }
}

fn open_part_exec(b: &Vec<u8>, pos: usize, p: usize, be: bool, frames: &mut Vec<Frame>, f: Frame) -> (r: (usize, u8))
    requires
        pos <= b@.len(),
        p <= b@.len(),
    ensures
        ({
            let s = open_part(b@, pos as int, p as int, be, old(frames)@, f);
            r.0 == s.0 && final(frames)@ == s.1 && r.1 == s.2
        }),
        r.0 <= b@.len(),
{
    if b.len() - p < 4 {
        return (pos, SCAN_FAILED);
    }
    let n = u32_at_exec(b, p, be);
    frames.push(Frame { left: n as u32, ..f });
    (p + 4, SCAN_RUNNING)
}

/// One step of the scan, as `scan_step` states it.
fn scan_step_exec(b: &Vec<u8>, pos: usize, frames: &mut Vec<Frame>) -> (r: (usize, u8))
    requires
        pos <= b@.len(),
        old(frames)@.len() > 0,
    ensures
        ({
            let s = scan_step(b@, (pos as int, old(frames)@, SCAN_RUNNING));
            r.0 == s.0 && final(frames)@ == s.1 && r.1 == s.2
        }),
        r.0 <= b@.len(),
{
    let ghost sp = scan_step(b@, (pos as int, old(frames)@, SCAN_RUNNING));
    let last = frames.len() - 1;
    let top = frames[last];
    if top.left == 0 {
        frames.pop();
        assert(frames@ =~= old(frames)@.drop_last());
        let status = if frames.len() == 0 {
            SCAN_DONE
        } else {
            SCAN_RUNNING
        };
        return (pos, status);
    }
    frames.set(last, Frame { left: top.left - 1, ..top });
    let ghost fr = frames@;
    assert(fr =~= old(frames)@.update(last as int, Frame { left: (top.left - 1) as u32, ..top }));
    assert(top == old(frames)@.last());
    let none = Frame { kind: 0, left: 0, be: false, pt: 0, depth: 0 };
    if top.kind == KIND_RINGS {
        if b.len() - pos < 4 {
            return (pos, SCAN_FAILED);
        }
        let n = u32_at_exec(b, pos, top.be);
        let r = skip_counted(b, pos, pos, n, top.pt as u64);
        assert(r.0 == sp.0 && r.1 == sp.2 && frames@ == sp.1);
        return r;
    }
    match header_exec(b, pos) {
        None => (pos, SCAN_FAILED),
        Some((be, ty, q)) => {
            let pt = pt_size_exec(ty);
            let t: u64 = if top.kind == KIND_COLLECTION {
                ty % 256
            } else {
                top.kind as u64 - 1
            };
            assert(header_at(b@, pos as int) == Some((be, ty as int, q as int)));
            if t == 1 {
                if b.len() - q < pt as usize {
                    (pos, SCAN_FAILED)
                } else {
                    (q + pt as usize, SCAN_RUNNING)
                }
            } else if t == 2 {
                if b.len() - q < 4 {
                    (pos, SCAN_FAILED)
                } else {
                    let n = u32_at_exec(b, q, be);
                    skip_counted(b, pos, q, n, pt)
                }
            } else if t == 3 {
                open_part_exec(b, pos, q, be, frames, Frame { kind: KIND_RINGS, be, pt: pt as u8, ..none })
            } else if t == 4 {
                open_part_exec(b, pos, q, be, frames, Frame { kind: KIND_POINTS, ..none })
            } else if t == 5 {
                open_part_exec(b, pos, q, be, frames, Frame { kind: KIND_LINES, ..none })
            } else if t == 6 {
                open_part_exec(b, pos, q, be, frames, Frame { kind: KIND_POLYGONS, ..none })
            } else if t == 7 {
                if top.depth >= MAX_GEOMETRY_NESTING {
                    (pos, SCAN_TOO_DEEP)
                } else {
                    open_part_exec(
                        b,
                        pos,
                        q,
                        be,
                        frames,
                        Frame { kind: KIND_COLLECTION, depth: top.depth + 1, ..none },
                    )
                }
            } else {
                (pos, SCAN_FAILED)
            }
        },
    }
}

/// Whether the geometry reader stays within `MAX_GEOMETRY_NESTING` nested
/// collections on `b`.
pub fn ewkb_depth_within_bound(b: &Vec<u8>) -> (r: bool)
    ensures
        r == ewkb_depth_bounded(b@),
{
    let mut frames: Vec<Frame> = Vec::new();
    frames.push(Frame { kind: KIND_COLLECTION, left: 1, be: false, pt: 0, depth: 0 });
    let mut pos: usize = 0;
    let mut status: u8 = SCAN_RUNNING;
    let mut fuel: usize = b.len();
    assert(frames@ =~= scan_start().1);
    while fuel > 0 && status == SCAN_RUNNING
        invariant
            pos <= b@.len(),
            status == SCAN_RUNNING ==> frames@.len() > 0,
            scan(b@, scan_start(), b@.len()) == scan(b@, (pos as int, frames@, status), fuel as nat),
        decreases fuel,
    {
        let (p, st) = scan_step_exec(b, pos, &mut frames);
        pos = p;
        status = st;
        fuel = fuel - 1;
    }
    status == SCAN_DONE || status == SCAN_FAILED
}

} // verus!
