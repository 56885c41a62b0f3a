//! What holds of the parser across calls and across buffers.
use vstd::prelude::*;

use crate::grammar::{body_spec, caller_ack_scan, name_list_spec, parse_spec};
use crate::protocol_defs::methods::REG_SERVICE;
use crate::parser::{FrameView, ParserState, ResultView};
use crate::protocol_defs::methods::{CALL, CALLRESP, REG_CALLER, REG_CALLER_ACK};
use crate::protocol_defs::START;
use crate::wire::{first_delim, lemma_first_delim_extends};

verus! {

/// `p` is the first `p.len()` bytes of `d`.
pub open spec fn is_prefix(p: Seq<u8>, d: Seq<u8>) -> bool {
    p.len() <= d.len() && p == d.subrange(0, p.len() as int)
}

/// The frame that an answer carries, whole or in part.
pub open spec fn frame_of(r: ResultView) -> Option<FrameView> {
    match r {
        ResultView::Frame(f) => Some(f),
        ResultView::IncompleteFrame(f) => Some(f),
        _ => None,
    }
}

/// The payload bounds of a frame, where it gives them, lie in order inside
/// a buffer of `len` bytes, and its size is their distance.
pub open spec fn bounds_inside(f: FrameView, len: int) -> bool {
    &&& f.consistent()
    &&& f.data matches Some(b) ==> b.1 < len
}

proof fn lemma_name_list_incomplete_keeps_state(
    s: ParserState,
    d: Seq<u8>,
    pos: int,
    names: Seq<Seq<char>>,
)
    requires
        name_list_spec(s, d, pos, names) matches Some(x) && x.1 is IncompleteFrame,
    ensures
        (name_list_spec(s, d, pos, names)->0).0 == s,
    decreases d.len() - pos,
{
    if 0 <= pos <= d.len() {
        if let Some(p) = first_delim(d.subrange(pos, d.len() as int), true) {
            if p >= 0 && crate::wire::all_text(d.subrange(pos, pos + p)) && d[pos + p]
                == crate::protocol_defs::ETX {
                lemma_name_list_incomplete_keeps_state(
                    s,
                    d,
                    pos + p + 1,
                    names.push(crate::wire::text_of(d.subrange(pos, pos + p))),
                );
            }
        }
    }
}

proof fn lemma_body_incomplete_resumes(s: ParserState, p: Seq<u8>, d: Seq<u8>)
    requires
        s.header_type is Some,
        s.parse_cursor is Some,
        is_prefix(p, d),
        body_spec(s, p) matches Some(x) && x.1 is IncompleteFrame,
    ensures
        (body_spec(s, p)->0).0.header_type == s.header_type,
        (body_spec(s, p)->0).0.parse_cursor is Some,
        body_spec((body_spec(s, p)->0).0, d) == body_spec(s, d),
{
    let s1 = (body_spec(s, p)->0).0;
    if s.data_bytes is None {
        let h = s.header_type->0;
        let c = s.parse_cursor->0 as int;
        assert forall|i: int| 0 <= i < p.len() implies p[i] == d[i] by {
            assert(p[i] == d.subrange(0, p.len() as int)[i]);
        }
        if h == REG_CALLER {
            lemma_name_list_incomplete_keeps_state(s, p, c, seq![]);
        } else if h == CALL || h == CALLRESP {
            let v = p.subrange(c, p.len() as int);
            if v.len() >= 3 {
                let tp = p.subrange(c + 2, p.len() as int);
                let td = d.subrange(c + 2, d.len() as int);
                assert(tp =~= td.subrange(0, tp.len() as int));
                if let Some(q) = first_delim(tp, false) {
                    lemma_first_delim_extends(tp, td, false);
                    assert(p.subrange(c + 2, c + 2 + q) =~= d.subrange(c + 2, c + 2 + q));
                }
                assert(d.subrange(c, d.len() as int)[0] == v[0]);
                assert(d.subrange(c, d.len() as int)[1] == v[1]);
            }
        }
    }
}

/// An `IncompleteFrame` answer leaves the parser ready for more of the same
/// frame: parsing any longer buffer that begins with the bytes it was given
/// then answers, and leaves the parser, exactly as parsing that longer buffer
/// would have from the state before the incomplete call.
pub proof fn law_incomplete_resumes(s: ParserState, p: Seq<u8>, d: Seq<u8>)
    requires
        s.wf(),
        is_prefix(p, d),
        parse_spec(s, p) matches Some(x) && x.1 is IncompleteFrame,
    ensures
        parse_spec((parse_spec(s, p)->0).0, d) == parse_spec(s, d),
{
    if s.header_type is Some {
        lemma_body_incomplete_resumes(s, p, d);
    } else {
        assert(p[0] == d.subrange(0, p.len() as int)[0]);
        if p.len() >= 2 {
            assert(p[1] == d.subrange(0, p.len() as int)[1]);
            let sh = ParserState { header_type: Some(p[1]), parse_cursor: Some(2), ..s };
            lemma_body_incomplete_resumes(sh, p, d);
        }
    }
}

proof fn lemma_scan_bounds(c: int, v: Seq<u8>, i: int)
    requires
        0 <= c,
        c + v.len() <= usize::MAX,
        v.len() >= 3,
    ensures
        caller_ack_scan(c, v, i) matches Some(r) ==> (frame_of(r) matches Some(f) && bounds_inside(
            f,
            c + v.len(),
        )),
    decreases v.len() - i,
{
    if 0 <= i && i + 1 < v.len() && !(v[i] == 0xFF && v[i + 1] == 0xFF) {
        lemma_scan_bounds(c, v, i + 2);
    } else if 0 <= i && i + 1 < v.len() && i + 2 < v.len() && v[i + 2]
        != crate::protocol_defs::CR {
        lemma_scan_bounds(c, v, i + 3);
    }
}

proof fn lemma_name_list_bounds(s: ParserState, d: Seq<u8>, pos: int, names: Seq<Seq<char>>)
    ensures
        name_list_spec(s, d, pos, names) matches Some(x) ==> (frame_of(x.1) matches Some(f)
            && f.data is None),
    decreases d.len() - pos,
{
    if 0 <= pos <= d.len() {
        if let Some(p) = first_delim(d.subrange(pos, d.len() as int), true) {
            if p >= 0 && crate::wire::all_text(d.subrange(pos, pos + p)) && d[pos + p]
                == crate::protocol_defs::ETX {
                lemma_name_list_bounds(
                    s,
                    d,
                    pos + p + 1,
                    names.push(crate::wire::text_of(d.subrange(pos, pos + p))),
                );
            }
        }
    }
}

proof fn lemma_body_bounds(s: ParserState, d: Seq<u8>)
    requires
        d.len() <= usize::MAX,
        s.header_type is Some,
        s.parse_cursor is Some,
    ensures
        body_spec(s, d) matches Some(x) ==> (frame_of(x.1) matches Some(f) ==> bounds_inside(
            f,
            d.len() as int,
        )),
{
    let h = s.header_type->0;
    let c = s.parse_cursor->0 as int;
    if s.data_bytes is None && c <= d.len() {
        if h == REG_CALLER {
            lemma_name_list_bounds(s, d, c, seq![]);
        } else if h == REG_CALLER_ACK && d.len() - c >= 3 {
            lemma_scan_bounds(c, d.subrange(c, d.len() as int), 2);
        }
    }
}

/// Payload bounds that the parser reports, in a whole frame or in part of
/// one, lie in order inside the buffer it was given, and the reported size
/// is their distance.
pub proof fn law_bounds_inside_buffer(s: ParserState, d: Seq<u8>)
    requires
        d.len() <= usize::MAX,
        s.wf(),
        parse_spec(s, d) is Some,
    ensures
        frame_of((parse_spec(s, d)->0).1) matches Some(f) ==> bounds_inside(f, d.len() as int),
{
    if s.header_type is Some {
        lemma_body_bounds(s, d);
    } else if d.len() >= 2 && d[0] == START {
        lemma_body_bounds(ParserState { header_type: Some(d[1]), parse_cursor: Some(2), ..s }, d);
    }
}

proof fn lemma_name_list_state(s: ParserState, d: Seq<u8>, pos: int, names: Seq<Seq<char>>)
    requires
        0 <= pos,
        d.len() <= usize::MAX,
    ensures
        name_list_spec(s, d, pos, names) matches Some(x) ==> {
            ||| x.0 == s
            ||| x.0 == (ParserState { parse_cursor: x.0.parse_cursor, ..s }) && (
            x.0.parse_cursor matches Some(q) && pos <= q)
        },
    decreases d.len() - pos,
{
    if 0 <= pos <= d.len() {
        if let Some(p) = first_delim(d.subrange(pos, d.len() as int), true) {
            assert(crate::wire::is_first_delim(d.subrange(pos, d.len() as int), p, true));
            if crate::wire::all_text(d.subrange(pos, pos + p)) && d[pos + p]
                == crate::protocol_defs::ETX {
                lemma_name_list_state(
                    s,
                    d,
                    pos + p + 1,
                    names.push(crate::wire::text_of(d.subrange(pos, pos + p))),
                );
            }
        }
    }
}

proof fn lemma_body_state(s: ParserState, d: Seq<u8>)
    requires
        s.reachable(),
        s.header_type is Some,
        d.len() <= usize::MAX,
    ensures
        body_spec(s, d) matches Some(x) ==> x.0.reachable() && s.followed_by(x.0),
{
    let h = s.header_type->0;
    let c = s.parse_cursor->0 as int;
    if s.data_bytes is None && c <= d.len() {
        if h == REG_CALLER {
            lemma_name_list_state(s, d, c, seq![]);
        } else if h == REG_SERVICE {
            if let Some(p) = first_delim(d.subrange(c, d.len() as int), false) {
                assert(crate::wire::is_first_delim(d.subrange(c, d.len() as int), p, false));
            }
        } else if h == CALL || h == CALLRESP {
            if let Some(p) = first_delim(d.subrange(c + 2, d.len() as int), false) {
                assert(crate::wire::is_first_delim(d.subrange(c + 2, d.len() as int), p, false));
            }
        }
    }
}

/// A parser that has seen nothing is in a state that parsers reach.
pub proof fn law_new_is_reachable()
    ensures
        ParserState::fresh().reachable(),
{
}

/// One call of `parse` from a state that parsers reach leads to another such
/// state; the method and the payload length, once known, are kept, and the
/// cursor, once set, never moves back.
pub proof fn law_parse_keeps_state(s: ParserState, d: Seq<u8>)
    requires
        s.reachable(),
        d.len() <= usize::MAX,
        parse_spec(s, d) is Some,
    ensures
        (parse_spec(s, d)->0).0.reachable(),
        s.followed_by((parse_spec(s, d)->0).0),
{
    if s.header_type is Some {
        lemma_body_state(s, d);
    } else if d.len() >= 2 && d[0] == START {
        lemma_body_state(ParserState { header_type: Some(d[1]), parse_cursor: Some(2), ..s }, d);
    }
}

/// Moving the cursor on, as `incr_parse_cursor`, `parse_textual` and
/// `parse_textual_etx_delim` do, leads from a state that parsers reach to
/// another, keeps the method and the payload length, and never moves the
/// cursor back.
pub proof fn law_cursor_moves_keep_state(s: ParserState, n: int)
    requires
        s.reachable(),
        0 <= n,
        s.can_advance(n),
    ensures
        s.advance(n).reachable(),
        s.followed_by(s.advance(n)),
{
}

} // verus!
