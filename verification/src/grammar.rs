//! The frame format, as what one call of `BBBParse::parse` does to the
//! parser's state and what it answers, for a given buffer.
//!
//! Each function returns `None` exactly where `BBBParse::parse` would panic
//! on that buffer in that state (a buffer that is shorter than what was
//! already parsed, a name byte that stands for no character, a length that is
//! no number, payload bounds that would run backwards); `parse` leaves those
//! inputs out. A `CALL` frame cut before its two status bytes is no such
//! input: it is answered `IncompleteFrame` with its method, as a cut
//! `CALLRESP` is.
use vstd::prelude::*;

use crate::parser::{FrameView, ParserState, ResultView};
use crate::protocol_defs::{CR, END, ETX, START};
use crate::protocol_defs::methods::{
    CALL, CALLRESP, ERR, REG_CALLER, REG_CALLER_ACK, REG_SERVICE, REG_SERVICE_ACK, STOP_CALLER,
    STOP_CALLER_ACK, STOP_SERVICE, STOP_SERVICE_ACK,
};
use crate::wire::{all_text, first_delim, parse_usize, text_of};

verus! {

/// One call of the parser on buffer `d` in state `s`: the state after it and
/// the answer.
pub open spec fn parse_spec(s: ParserState, d: Seq<u8>) -> Option<(ParserState, ResultView)> {
    if s.header_type is Some {
        body_spec(s, d)
    } else if d.len() == 0 {
        None
    } else if d[0] != START {
        Some((s, ResultView::ParseError("Incorrect packet header"@)))
    } else if d.len() < 2 {
        Some((s, ResultView::IncompleteFrame(FrameView::bare(ERR))))
    } else {
        body_spec(ParserState { header_type: Some(d[1]), parse_cursor: Some(2), ..s }, d)
    }
}

/// Once the method is known: the payload, where its length has been read,
/// else what follows the method byte.
pub open spec fn body_spec(s: ParserState, d: Seq<u8>) -> Option<(ParserState, ResultView)> {
    if s.data_bytes is Some {
        payload_spec(s, d)
    } else {
        method_spec(s, d)
    }
}

/// The methods whose frames carry more than the method byte.
pub open spec fn has_body(h: u8) -> bool {
    ||| h == REG_CALLER
    ||| h == REG_SERVICE
    ||| h == CALL
    ||| h == CALLRESP
    ||| h == REG_SERVICE_ACK
    ||| h == REG_CALLER_ACK
    ||| h == STOP_SERVICE_ACK
    ||| h == STOP_CALLER_ACK
}

/// What follows the method byte, read from the cursor on.
pub open spec fn method_spec(s: ParserState, d: Seq<u8>) -> Option<(ParserState, ResultView)> {
    let h = s.header_type->0;
    let c = s.parse_cursor->0 as int;
    if h == STOP_CALLER || h == STOP_SERVICE {
        Some((s, ResultView::Frame(FrameView::bare(h))))
    } else if !has_body(h) {
        Some((s, ResultView::ParseError("Incorrect method called"@)))
    } else if c > d.len() {
        None
    } else if h == REG_CALLER {
        name_list_spec(s, d, c, seq![])
    } else if h == REG_SERVICE {
        name_spec(s, d)
    } else if h == CALL || h == CALLRESP {
        call_spec(s, d)
    } else if h == REG_SERVICE_ACK {
        service_ack_spec(s, d)
    } else if h == REG_CALLER_ACK {
        caller_ack_spec(s, d)
    } else {
        stop_ack_spec(s, d)
    }
}

/// `REG_SERVICE`: one name, ended by `CR`. The cursor moves on to the `CR`.
pub open spec fn name_spec(s: ParserState, d: Seq<u8>) -> Option<(ParserState, ResultView)> {
    let c = s.parse_cursor->0 as int;
    match first_delim(d.subrange(c, d.len() as int), false) {
        None => Some((s, ResultView::IncompleteFrame(FrameView::bare(REG_SERVICE)))),
        Some(p) => if all_text(d.subrange(c, c + p)) {
            Some(
                (
                    s.advance(p),
                    ResultView::Frame(
                        FrameView::all_raw(
                            REG_SERVICE,
                            None,
                            None,
                            Some(seq![text_of(d.subrange(c, c + p))]),
                        ),
                    ),
                ),
            )
        } else {
            None
        },
    }
}

/// `REG_CALLER`: names ended by `ETX`, the last one by `CR`, read from `pos`
/// on; `names` are those read before `pos`. The cursor moves past the `CR`
/// once the list is whole, and stays where it was in `s` while it is not.
pub open spec fn name_list_spec(s: ParserState, d: Seq<u8>, pos: int, names: Seq<Seq<char>>) -> Option<
    (ParserState, ResultView),
>
    decreases d.len() - pos,
{
    if pos < 0 || pos > d.len() {
        None
    } else {
        match first_delim(d.subrange(pos, d.len() as int), true) {
            None => Some((s, ResultView::IncompleteFrame(FrameView::bare(REG_CALLER)))),
            Some(p) => if p < 0 || !all_text(d.subrange(pos, pos + p)) {
                None
            } else if d[pos + p] == ETX {
                name_list_spec(s, d, pos + p + 1, names.push(text_of(d.subrange(pos, pos + p))))
            } else {
                Some(
                    (
                        ParserState { parse_cursor: Some((pos + p + 1) as usize), ..s },
                        ResultView::Frame(
                            FrameView::all_raw(
                                REG_CALLER,
                                None,
                                None,
                                Some(names.push(text_of(d.subrange(pos, pos + p)))),
                            ),
                        ),
                    ),
                )
            },
        }
    }
}

/// `CALL` and `CALLRESP`: two status bytes, then the payload length written
/// in text and ended by `CR`, then the payload and `END`. A frame cut before
/// its length has been read is answered with what is known of it.
pub open spec fn call_spec(s: ParserState, d: Seq<u8>) -> Option<(ParserState, ResultView)> {
    let h = s.header_type->0;
    let c = s.parse_cursor->0 as int;
    let v = d.subrange(c, d.len() as int);
    if v.len() < 3 {
        Some((s, ResultView::IncompleteFrame(FrameView::bare(h))))
    } else {
        let st = (v[0], v[1]);
        let s2 = ParserState { status_bytes: Some(st), ..s };
        match first_delim(d.subrange(c + 2, d.len() as int), false) {
            None => Some(
                (s2, ResultView::IncompleteFrame(FrameView::all_raw(h, None, Some(st), None))),
            ),
            Some(p) => {
                let digits = d.subrange(c + 2, c + 2 + p);
                if !all_text(digits) {
                    None
                } else {
                    match parse_usize(text_of(digits)) {
                        None => None,
                        Some(n) => payload_spec(
                            ParserState {
                                data_bytes: Some(n),
                                parse_cursor: Some((c + p + 2) as usize),
                                ..s2
                            },
                            d,
                        ),
                    }
                }
            },
        }
    }
}

/// The payload of a `CALL` or `CALLRESP`: `data_bytes` bytes after the byte
/// at the cursor, then `END`.
pub open spec fn payload_spec(s: ParserState, d: Seq<u8>) -> Option<(ParserState, ResultView)> {
    let h = s.header_type->0;
    let c = s.parse_cursor->0 as int;
    let n = s.data_bytes->0 as int;
    if c + 1 > d.len() {
        None
    } else if c + 1 + n < d.len() {
        if d[c + 1 + n] == END {
            let bounds = ((c + 1) as usize, (c + 1 + n) as usize);
            Some(
                (
                    s,
                    ResultView::Frame(
                        match s.status_bytes {
                            Some(st) => FrameView::all_raw(h, Some(bounds), Some(st), None),
                            None => FrameView::all_raw(h, Some(bounds), None, None),
                        },
                    ),
                ),
            )
        } else {
            Some((s, ResultView::IncompleteFrame(FrameView::bare(ERR))))
        }
    } else {
        Some((s, ResultView::IncompleteFrame(FrameView { data_size: Some(n as usize), ..FrameView::bare(h) })))
    }
}

/// `REG_SERVICE_ACK`: two result bytes, a two-byte id, then `END`. The id's
/// bounds are reported as the payload.
pub open spec fn service_ack_spec(s: ParserState, d: Seq<u8>) -> Option<(ParserState, ResultView)> {
    let c = s.parse_cursor->0 as int;
    let v = d.subrange(c, d.len() as int);
    if v.len() < 5 {
        Some((s, ResultView::IncompleteFrame(FrameView::bare(REG_SERVICE_ACK))))
    } else if v[4] != END {
        Some((s, ResultView::ParseError("Incorrectly parsed REG_SERVICE_ACK"@)))
    } else {
        Some(
            (
                s,
                ResultView::Frame(
                    FrameView::all_raw(
                        REG_SERVICE_ACK,
                        Some(((c + 2) as usize, (c + 3) as usize)),
                        Some((v[0], v[1])),
                        None,
                    ),
                ),
            ),
        )
    }
}

/// `REG_CALLER_ACK`: two result bytes, then ids up to a pair `0xFF 0xFF`,
/// then `CR`.
pub open spec fn caller_ack_spec(s: ParserState, d: Seq<u8>) -> Option<(ParserState, ResultView)> {
    let c = s.parse_cursor->0 as int;
    let v = d.subrange(c, d.len() as int);
    if v.len() < 3 {
        Some((s, ResultView::IncompleteFrame(FrameView::bare(REG_SERVICE_ACK))))
    } else {
        match caller_ack_scan(c, v, 2) {
            Some(r) => Some((s, r)),
            None => None,
        }
    }
}

/// The ids of a `REG_CALLER_ACK` read as pairs from index `i` of `v` (the
/// buffer from the cursor `c` on). A pair `0xFF 0xFF` followed by a byte
/// other than `CR` does not end the list: the pairs go on after that byte.
/// A pair `0xFF 0xFF` right after the result bytes would report bounds that
/// run backwards, so a frame that would end there is left out.
pub open spec fn caller_ack_scan(c: int, v: Seq<u8>, i: int) -> Option<ResultView>
    decreases v.len() - i,
{
    let rt = (v[0], v[1]);
    if i < 0 || i + 1 >= v.len() {
        Some(ResultView::IncompleteFrame(FrameView::all_raw(REG_CALLER_ACK, None, Some(rt), None)))
    } else if v[i] == 0xFF && v[i + 1] == 0xFF {
        let bounds = ((c + 2) as usize, (c + i - 1) as usize);
        if i + 2 >= v.len() {
            if i < 3 {
                None
            } else {
                Some(
                    ResultView::IncompleteFrame(
                        FrameView::all_raw(REG_CALLER_ACK, Some(bounds), Some(rt), None),
                    ),
                )
            }
        } else if v[i + 2] == CR {
            if i < 3 {
                None
            } else {
                Some(
                    ResultView::Frame(
                        FrameView::all_raw(REG_CALLER_ACK, Some(bounds), Some(rt), None),
                    ),
                )
            }
        } else {
            caller_ack_scan(c, v, i + 3)
        }
    } else {
        caller_ack_scan(c, v, i + 2)
    }
}

/// `STOP_SERVICE_ACK` and `STOP_CALLER_ACK`: two result bytes, then `END`.
pub open spec fn stop_ack_spec(s: ParserState, d: Seq<u8>) -> Option<(ParserState, ResultView)> {
    let h = s.header_type->0;
    let c = s.parse_cursor->0 as int;
    let v = d.subrange(c, d.len() as int);
    if v.len() < 3 {
        Some((s, ResultView::IncompleteFrame(FrameView::bare(h))))
    } else if v[2] != END {
        Some(
            (
                s,
                ResultView::ParseError(
                    if h == STOP_SERVICE_ACK {
                        "Incorrectly parsed STOP_SERVICE_ACK"@
                    } else {
                        "Incorrectly parsed STOP_CALLER_ACK"@
                    },
                ),
            ),
        )
    } else {
        Some((s, ResultView::Frame(FrameView::all_raw(h, None, Some((v[0], v[1])), None))))
    }
}

} // verus!
