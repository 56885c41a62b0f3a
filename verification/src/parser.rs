//! The parser: what it hands back (`ParsedFrame`, `ParseResult`) and the
//! parser itself (`BBBParse`).
use vstd::prelude::*;

use crate::debug_text::{
    decimal, frame_text, opt_list_text, opt_number_text, push_decimal, push_opt_list, push_opt_number,
    push_some_pair, result_text, some_pair_text, frame_line, opt_list_line, opt_number_line,
    push_opt_list_line, push_opt_number_line, push_some_pair_line, some_pair_line,
};
use crate::grammar::{
    call_spec, caller_ack_scan, caller_ack_spec, name_list_spec, name_spec, parse_spec,
    payload_spec, service_ack_spec, stop_ack_spec,
};
use crate::protocol_defs::{CR, END, ETX, START};
use crate::protocol_defs::methods::{
    CALL, CALLRESP, ERR, REG_CALLER, REG_CALLER_ACK, REG_SERVICE, REG_SERVICE_ACK, STOP_CALLER,
    STOP_CALLER_ACK, STOP_SERVICE, STOP_SERVICE_ACK,
};
use crate::wire::{
    all_text, char_of, digits_value, first_delim, is_first_delim, is_text_byte, parse_usize,
    text_of,
};
use crate::wire::{lemma_digits_prefix_le, lemma_first_delim_is, lemma_first_delim_none};

verus! {

/// What a parsed (or partly parsed) frame says, as plain values.
pub struct FrameView {
    pub header: u8,
    pub data_size: Option<usize>,
    pub result_type: Option<(u8, u8)>,
    /// Bounds `(start, end)` of the payload in the buffer that was parsed.
    pub data: Option<(usize, usize)>,
    pub text: Option<Seq<Seq<char>>>,
}

impl FrameView {
    /// A frame that carries nothing but its header.
    pub open spec fn bare(header: u8) -> FrameView {
        FrameView { header, data_size: None, result_type: None, data: None, text: None }
    }

    /// The frame that `ParsedFrame::with_all_raw` builds.
    pub open spec fn all_raw(
        header: u8,
        data_bounds: Option<(usize, usize)>,
        result_type: Option<(u8, u8)>,
        text: Option<Seq<Seq<char>>>,
    ) -> FrameView {
        FrameView {
            header,
            data_size: match data_bounds {
                Some(b) => Some((b.1 - b.0) as usize),
                None => None,
            },
            result_type,
            data: data_bounds,
            text,
        }
    }

    /// Where the frame gives payload bounds, they are ordered and its size is
    /// their distance.
    pub open spec fn consistent(self) -> bool {
        match self.data {
            Some(b) => b.0 <= b.1 && self.data_size == Some((b.1 - b.0) as usize),
            None => true,
        }
    }
}

/// A frame, or the part of one that has been parsed so far.
#[derive(Debug, PartialEq, Eq)]
pub struct ParsedFrame {
    header: u8,
    data_size: Option<usize>,
    result_type: Option<(u8, u8)>,
    data: Option<(usize, usize)>,
    text: Option<Vec<String>>,
}

impl View for ParsedFrame {
    type V = FrameView;

    closed spec fn view(&self) -> FrameView {
        FrameView {
            header: self.header,
            data_size: self.data_size,
            result_type: self.result_type,
            data: self.data,
            text: match self.text {
                Some(v) => Some(v.deep_view()),
                None => None,
            },
        }
    }
}

impl Default for ParsedFrame {
    fn default() -> (frame: Self)
        ensures
            frame@ == FrameView::bare(0),
    {
        ParsedFrame { header: 0x00, data_size: None, result_type: None, data: None, text: None }
    }
}

impl ParsedFrame {
    /// A frame with a header and a single line of text.
    pub fn with_text_single(header: u8, text: String) -> (frame: Self)
        ensures
            frame@ == FrameView::all_raw(header, None, None, Some(seq![text@])),
    {
        let mut frame = Self::default();
        frame.text = Some(vec![text]);
        frame.header = header;
        proof {
            assert(frame.text.unwrap().deep_view() =~= seq![text@]);
        }
        frame
    }

    /// A frame with a header and a list of lines of text.
    pub fn with_text_list(header: u8, text_list: Vec<String>) -> (frame: Self)
        ensures
            frame@ == FrameView::all_raw(header, None, None, Some(text_list.deep_view())),
    {
        let mut frame = Self::default();
        frame.text = Some(text_list);
        frame.header = header;
        frame
    }

    /// A frame with a header and payload bounds; its size is their distance.
    pub fn with_data(header: u8, data_start: usize, data_end: usize) -> (frame: Self)
        requires
            data_start <= data_end,
        ensures
            frame@ == FrameView::all_raw(header, Some((data_start, data_end)), None, None),
    {
        let mut frame = Self::default();
        frame.header = header;
        frame.data_size = Some(data_end - data_start);
        frame.data = Some((data_start, data_end));
        frame
    }

    /// A frame with a header, payload bounds, result bytes and text.
    pub fn with_all(
        header: u8,
        data_start: usize,
        data_end: usize,
        result_type: (u8, u8),
        text: Option<Vec<String>>,
    ) -> (frame: Self)
        requires
            data_start <= data_end,
        ensures
            frame@ == FrameView::all_raw(
                header,
                Some((data_start, data_end)),
                Some(result_type),
                match text {
                    Some(v) => Some(v.deep_view()),
                    None => None,
                },
            ),
    {
        let mut frame = Self::default();
        frame.header = header;
        frame.data_size = Some(data_end - data_start);
        frame.data = Some((data_start, data_end));
        frame.text = text;
        frame.result_type = Some(result_type);
        frame
    }

    /// A frame with a header and, each where given, payload bounds, result
    /// bytes and text.
    pub fn with_all_raw(
        header: u8,
        data_bounds: Option<(usize, usize)>,
        result_type: Option<(u8, u8)>,
        text: Option<Vec<String>>,
    ) -> (frame: Self)
        requires
            data_bounds matches Some(b) ==> b.0 <= b.1,
        ensures
            frame@ == FrameView::all_raw(
                header,
                data_bounds,
                result_type,
                match text {
                    Some(v) => Some(v.deep_view()),
                    None => None,
                },
            ),
    {
        let mut frame = Self::default();
        frame.header = header;
        frame.data_size = if let Some(v) = data_bounds {
            Some(v.1 - v.0)
        } else {
            None
        };
        frame.data = data_bounds;
        frame.text = text;
        frame.result_type = result_type;
        frame
    }

    /// A frame that carries nothing but its header.
    pub fn with_header(header: u8) -> (frame: Self)
        ensures
            frame@ == FrameView::bare(header),
    {
        let mut frame = Self::default();
        frame.header = header;
        frame
    }

    /// A frame whose payload size is known but whose payload has not arrived.
    pub fn with_size(header: u8, size: usize) -> (frame: Self)
        ensures
            frame@ == (FrameView { data_size: Some(size), ..FrameView::bare(header) }),
    {
        let mut frame = Self::default();
        frame.header = header;
        frame.data_size = Some(size);
        frame
    }

    pub fn header(&self) -> (h: u8)
        ensures
            h == self@.header,
    {
        self.header
    }

    pub fn size(&self) -> (s: Option<usize>)
        ensures
            s == self@.data_size,
    {
        self.data_size
    }

    /// The first line of text, where the frame has one.
    pub fn text(&self) -> (line: Option<String>)
        ensures
            match self@.text {
                Some(t) => if t.len() > 0 {
                    line matches Some(l) && l@ == t[0]
                } else {
                    line is None
                },
                None => line is None,
            },
    {
        if let Some(v) = &self.text {
            if v.len() > 0 {
                return Some(v[0].clone());
            }
        }
        None
    }

    /// All lines of text, where the frame has them.
    pub fn text_list(&self) -> (lines: Option<&Vec<String>>)
        ensures
            match self@.text {
                Some(t) => lines matches Some(l) && l.deep_view() == t,
                None => lines is None,
            },
    {
        self.text.as_ref()
    }

    /// The two result bytes read as one number, the first byte the low one.
    pub fn result_as_usize(&self) -> (n: Option<usize>)
        ensures
            n == match self@.result_type {
                Some(m) => Some((m.0 + 256 * m.1) as usize),
                None => None,
            },
            n matches Some(x) ==> x <= 0xFFFF,
    {
        if let Some(m) = self.result_type {
            Some(m.0 as usize + (m.1 as usize) * 256)
        } else {
            None
        }
    }
}

/// What the parser hands back, as plain values.
pub enum ResultView {
    Frame(FrameView),
    IncompleteFrame(FrameView),
    ParseError(Seq<char>),
    DebugOk,
    Debug,
}

/// What one call of `BBBParse::parse` gives.
#[derive(Debug, PartialEq, Eq)]
pub enum ParseResult {
    /// A whole frame.
    Frame(ParsedFrame),
    /// What has been parsed of a frame whose bytes have not all arrived.
    IncompleteFrame(ParsedFrame),
    /// The bytes break the format.
    ParseError(&'static str),
    DebugOk,
    Debug,
}

impl View for ParseResult {
    type V = ResultView;

    open spec fn view(&self) -> ResultView {
        match self {
            ParseResult::Frame(f) => ResultView::Frame(f@),
            ParseResult::IncompleteFrame(f) => ResultView::IncompleteFrame(f@),
            ParseResult::ParseError(e) => ResultView::ParseError(e@),
            ParseResult::DebugOk => ResultView::DebugOk,
            ParseResult::Debug => ResultView::Debug,
        }
    }
}

/// The state that the parser keeps between calls, as plain values.
pub struct ParserState {
    /// Length of the payload, once it has been read.
    pub data_bytes: Option<usize>,
    /// The method byte of the frame, once it has been read.
    pub header_type: Option<u8>,
    /// Index in the buffer up to which the frame has been parsed.
    pub parse_cursor: Option<usize>,
    /// The two status bytes of a `CALL` or `CALLRESP`, once read.
    pub status_bytes: Option<(u8, u8)>,
}

impl ParserState {
    /// The state of a parser that has seen nothing.
    pub open spec fn fresh() -> ParserState {
        ParserState { data_bytes: None, header_type: None, parse_cursor: None, status_bytes: None }
    }

    /// A parser that knows the method of its frame also knows where it is in
    /// the buffer.
    pub open spec fn wf(self) -> bool {
        self.header_type is Some ==> self.parse_cursor is Some
    }

    /// The states that a parser reaches from `new`: it knows its method
    /// exactly when it knows where it is in the buffer, and it knows a
    /// payload length only together with the method and the status bytes.
    pub open spec fn reachable(self) -> bool {
        &&& (self.header_type is Some <==> self.parse_cursor is Some)
        &&& (self.data_bytes is Some ==> self.status_bytes is Some && self.header_type is Some)
    }

    /// `t` comes after `self`: a method or payload length, once known, is
    /// kept, and the cursor, once set, never moves back.
    pub open spec fn followed_by(self, t: ParserState) -> bool {
        &&& (self.header_type matches Some(h) ==> t.header_type == Some(h))
        &&& (self.data_bytes matches Some(n) ==> t.data_bytes == Some(n))
        &&& (self.parse_cursor matches Some(c) ==> (t.parse_cursor matches Some(c2) && c <= c2))
    }

    /// The state with its cursor, where it has one, moved on by `n` bytes.
    pub open spec fn advance(self, n: int) -> ParserState {
        ParserState {
            parse_cursor: match self.parse_cursor {
                Some(c) => Some((c + n) as usize),
                None => None,
            },
            ..self
        }
    }

    /// Moving the cursor on by `n` bytes does not overflow.
    pub open spec fn can_advance(self, n: int) -> bool {
        self.parse_cursor matches Some(c) ==> c + n <= usize::MAX
    }
}

/// An incremental parser of frames.
pub struct BBBParse {
    data_bytes: Option<usize>,
    header_type: Option<u8>,
    parse_cursor: Option<usize>,
    status_bytes: Option<(u8, u8)>,
}

impl View for BBBParse {
    type V = ParserState;

    closed spec fn view(&self) -> ParserState {
        ParserState {
            data_bytes: self.data_bytes,
            header_type: self.header_type,
            parse_cursor: self.parse_cursor,
            status_bytes: self.status_bytes,
        }
    }
}

/// `String::push`: appends one character to the string.
#[verifier::external_body]
pub(crate) fn push_char(s: &mut String, c: char)
    ensures
        final(s)@ == old(s)@.push(c),
{
    s.push(c);
}

/// The characters that the name bytes `bytes` stand for.
fn text_from(bytes: &[u8]) -> (s: String)
    requires
        all_text(bytes@),
    ensures
        s@ == text_of(bytes@),
{
    let mut s = String::new();
    let mut i: usize = 0;
    while i < bytes.len()
        invariant
            0 <= i <= bytes.len(),
            all_text(bytes@),
            s@ == text_of(bytes@.subrange(0, i as int)),
        decreases bytes.len() - i,
    {
        let c = BBBParse::u8_to_char(bytes[i]);
        push_char(&mut s, c);
        assert(text_of(bytes@.subrange(0, i + 1)) =~= text_of(bytes@.subrange(0, i as int)).push(c));
        i += 1;
    }
    assert(bytes@.subrange(0, i as int) =~= bytes@);
    s
}

/// Index of the first name-ending byte of `data`, if it has one.
fn find_delim(data: &[u8], with_etx: bool) -> (pos: Option<usize>)
    ensures
        match pos {
            Some(p) => first_delim(data@, with_etx) == Some(p as int),
            None => first_delim(data@, with_etx) is None,
        },
{
    let mut i: usize = 0;
    while i < data.len()
        invariant
            0 <= i <= data.len(),
            forall|j: int| 0 <= j < i ==> !crate::wire::is_delim(#[trigger] data@[j], with_etx),
        decreases data.len() - i,
    {
        if data[i] == CR || (with_etx && data[i] == ETX) {
            proof {
                assert(is_first_delim(data@, i as int, with_etx));
                lemma_first_delim_is(data@, i as int, with_etx);
            }
            return Some(i);
        }
        i += 1;
    }
    proof {
        lemma_first_delim_none(data@, with_etx);
    }
    None
}

/// What `str::parse::<usize>` gives for a name made of decimal digits.
fn usize_from_text(text: &String) -> (n: usize)
    requires
        parse_usize(text@) is Some,
    ensures
        n == parse_usize(text@)->0,
{
    let s = text.as_str();
    let len = s.unicode_len();
    let mut n: usize = 0;
    let mut i: usize = 0;
    while i < len
        invariant
            0 <= i <= len,
            len == text@.len(),
            s@ == text@,
            parse_usize(text@) is Some,
            n == digits_value(text@.subrange(0, i as int)),
        decreases len - i,
    {
        let c = s.get_char(i);
        proof {
            lemma_digits_prefix_le(text@, i + 1);
            assert(text@.subrange(0, i + 1).drop_last() =~= text@.subrange(0, i as int));
            assert(crate::wire::is_digit(text@[i as int]));
        }
        n = n * 10 + ((c as u32) - 48) as usize;
        i += 1;
    }
    assert(text@.subrange(0, len as int) =~= text@);
    n
}

impl BBBParse {
    /// A parser that has seen nothing.
    pub fn new() -> (p: Self)
        ensures
            p@ == ParserState::fresh(),
    {
        Self { data_bytes: None, parse_cursor: None, header_type: None, status_bytes: None }
    }

    /// Moves the cursor on by `len` bytes and gives its new place; an error
    /// where the cursor has not been set.
    pub fn incr_parse_cursor(&mut self, len: usize) -> (r: Result<usize, &'static str>)
        requires
            old(self)@.can_advance(len as int),
        ensures
            final(self)@ == old(self)@.advance(len as int),
            match old(self)@.parse_cursor {
                Some(c) => r == Ok::<usize, &'static str>((c + len) as usize),
                None => r matches Err(e) && e@ == "The cursor has not been initiliased"@,
            },
    {
        match self.parse_cursor {
            Some(c) => {
                self.parse_cursor = Some(c + len);
                Ok(c + len)
            },
            None => Err("The cursor has not been initiliased"),
        }
    }

    /// The character that a name byte stands for.
    pub fn u8_to_char(code: u8) -> (c: char)
        requires
            is_text_byte(code),
        ensures
            c == char_of(code),
    {
        if (0x30 <= code && code <= 0x39) || (0x41 <= code && code <= 0x5A) || (0x61 <= code
            && code <= 0x7A) {
            code as char
        } else {
            (code + 48) as char
        }
    }

    /// Reads the name that runs up to the first `CR` of `data`, and moves the
    /// cursor on to that `CR`.
    pub fn parse_textual(&mut self, data: &[u8]) -> (r: Result<String, &'static str>)
        requires
            first_delim(data@, false) matches Some(p) ==> {
                &&& all_text(data@.subrange(0, p))
                &&& old(self)@.can_advance(p)
            },
        ensures
            match first_delim(data@, false) {
                Some(p) => {
                    &&& r matches Ok(name) && name@ == text_of(data@.subrange(0, p))
                    &&& final(self)@ == old(self)@.advance(p)
                },
                None => {
                    &&& r matches Err(e) && e@ == "Text could not be parsed"@
                    &&& final(self)@ == old(self)@
                },
            },
    {
        if let Some(point) = find_delim(data, false) {
            let (m, _) = data.split_at(point);
            let name = text_from(m);
            let _ = self.incr_parse_cursor(point);
            return Ok(name);
        }
        Err("Text could not be parsed")
    }

    /// Reads the name that runs up to the first `ETX` or `CR` of `data`,
    /// moves the cursor past that byte, and says whether it was `ETX` (more
    /// names follow).
    pub fn parse_textual_etx_delim(&mut self, data: &[u8]) -> (r: Result<
        (String, bool),
        &'static str,
    >)
        requires
            first_delim(data@, true) matches Some(p) ==> {
                &&& all_text(data@.subrange(0, p))
                &&& old(self)@.can_advance(p + 1)
            },
        ensures
            match first_delim(data@, true) {
                Some(p) => {
                    &&& r matches Ok(res) && res.0@ == text_of(data@.subrange(0, p)) && res.1 == (
                    data@[p] == ETX)
                    &&& final(self)@ == old(self)@.advance(p + 1)
                },
                None => {
                    &&& r matches Err(e) && e@ == "Text could not be parsed"@
                    &&& final(self)@ == old(self)@
                },
            },
    {
        if let Some(point) = find_delim(data, true) {
            let (m, _) = data.split_at(point);
            let name = text_from(m);
            let _ = self.incr_parse_cursor(point + 1);
            if data[point] == ETX {
                return Ok((name, true));
            }
            return Ok((name, false));
        }
        Err("Text could not be parsed")
    }
}

impl BBBParse {
    /// Parses the buffer of one frame, as far as it has arrived. The parser
    /// remembers what it has read, so a caller may hand it the same buffer
    /// again once more of it has arrived.
    pub fn parse(&mut self, data: &[u8]) -> (r: ParseResult)
        requires
            old(self)@.wf(),
            parse_spec(old(self)@, data@) is Some,
        ensures
            final(self)@.wf(),
            parse_spec(old(self)@, data@) == Some((final(self)@, r@)),
    {
        if self.header_type.is_none() {
            if data[0] == START {
                if data.len() >= 2 {
                    self.header_type = Some(data[1]);
                } else {
                    return ParseResult::IncompleteFrame(ParsedFrame::with_header(ERR));
                }
                self.parse_cursor = Some(2);
            } else {
                return ParseResult::ParseError("Incorrect packet header");
            }
        }
        if self.data_bytes.is_none() {
            let h = self.header_type.unwrap();
            if h == REG_CALLER {
                return self.parse_name_list(data);
            } else if h == REG_SERVICE {
                return self.parse_name(data);
            } else if h == STOP_CALLER || h == STOP_SERVICE {
                return ParseResult::Frame(ParsedFrame::with_header(h));
            } else if h == CALL || h == CALLRESP {
                return self.parse_call(data);
            } else if h == REG_SERVICE_ACK {
                return self.parse_service_ack(data);
            } else if h == REG_CALLER_ACK {
                return self.parse_caller_ack(data);
            } else if h == STOP_SERVICE_ACK || h == STOP_CALLER_ACK {
                return self.parse_stop_ack(data);
            } else {
                return ParseResult::ParseError("Incorrect method called");
            }
        }
        self.parse_payload(data)
    }

    /// `REG_SERVICE`: one name up to `CR`.
    fn parse_name(&mut self, data: &[u8]) -> (r: ParseResult)
        requires
            old(self)@.parse_cursor matches Some(c) && c <= data.len(),
            name_spec(old(self)@, data@) is Some,
        ensures
            name_spec(old(self)@, data@) == Some((final(self)@, r@)),
    {
        let c = self.parse_cursor.unwrap();
        let (_, text_data) = data.split_at(c);
        proof {
            if let Some(p) = first_delim(text_data@, false) {
                assert(is_first_delim(text_data@, p, false));
                assert(text_data@.subrange(0, p) =~= data@.subrange(c as int, c + p));
            }
        }
        if let Ok(parsed) = self.parse_textual(text_data) {
            ParseResult::Frame(ParsedFrame::with_text_single(REG_SERVICE, parsed))
        } else {
            ParseResult::IncompleteFrame(ParsedFrame::with_header(REG_SERVICE))
        }
    }

    /// `REG_CALLER`: names up to `ETX`, the last up to `CR`.
    fn parse_name_list(&mut self, data: &[u8]) -> (r: ParseResult)
        requires
            old(self)@.wf(),
            old(self)@.parse_cursor matches Some(c) && c <= data.len()
                && name_list_spec(old(self)@, data@, c as int, seq![]) is Some,
        ensures
            final(self)@.wf(),
            name_list_spec(old(self)@, data@, old(self)@.parse_cursor->0 as int, seq![])
                == Some((final(self)@, r@)),
    {
        let ghost s0 = self@;
        let ghost c0 = s0.parse_cursor->0 as int;
        let init_parse_cursor = self.parse_cursor;
        let mut text_list: Vec<String> = Vec::new();
        assert(text_list.deep_view() =~= Seq::<Seq<char>>::empty());
        loop
            invariant
                s0 == old(self)@,
                s0.wf(),
                c0 == s0.parse_cursor->0 as int,
                self@ == (ParserState { parse_cursor: self@.parse_cursor, ..s0 }),
                self@.parse_cursor matches Some(pos) && pos <= data.len(),
                init_parse_cursor == s0.parse_cursor,
                name_list_spec(s0, data@, c0, seq![]) is Some,
                name_list_spec(s0, data@, c0, seq![]) == name_list_spec(
                    s0,
                    data@,
                    self@.parse_cursor->0 as int,
                    text_list.deep_view(),
                ),
            decreases data.len() - self@.parse_cursor->0,
        {
            let pos = self.parse_cursor.unwrap();
            let (_, rest) = data.split_at(pos);
            let ghost names = text_list.deep_view();
            proof {
                if let Some(p) = first_delim(rest@, true) {
                    assert(is_first_delim(rest@, p, true));
                    assert(rest@.subrange(0, p) =~= data@.subrange(pos as int, pos + p));
                }
            }
            match self.parse_textual_etx_delim(rest) {
                Ok(parsed) => {
                    let more = parsed.1;
                    text_list.push(parsed.0);
                    proof {
                        let p = first_delim(rest@, true)->0;
                        assert(text_list.deep_view() =~= names.push(
                            text_of(data@.subrange(pos as int, pos + p)),
                        ));
                    }
                    if !more {
                        return ParseResult::Frame(ParsedFrame::with_text_list(REG_CALLER, text_list));
                    }
                },
                Err(_) => {
                    self.parse_cursor = init_parse_cursor;
                    return ParseResult::IncompleteFrame(ParsedFrame::with_header(REG_CALLER));
                },
            }
        }
    }

    /// `CALL` and `CALLRESP`: status bytes, the payload length in text, then
    /// the payload.
    fn parse_call(&mut self, data: &[u8]) -> (r: ParseResult)
        requires
            old(self)@.wf(),
            old(self)@.data_bytes is None,
            old(self)@.header_type matches Some(h) && (h == CALL || h == CALLRESP),
            old(self)@.parse_cursor matches Some(c) && c <= data.len(),
            call_spec(old(self)@, data@) is Some,
        ensures
            final(self)@.wf(),
            call_spec(old(self)@, data@) == Some((final(self)@, r@)),
    {
        let h = self.header_type.unwrap();
        let c = self.parse_cursor.unwrap();
        let (_, valid_data) = data.split_at(c);
        if valid_data.len() > 2 {
            self.status_bytes = Some((valid_data[0], valid_data[1]));
            let (_, text_data) = valid_data.split_at(2);
            proof {
                assert(text_data@ =~= data@.subrange(c + 2, data@.len() as int));
                if let Some(p) = first_delim(text_data@, false) {
                    assert(is_first_delim(text_data@, p, false));
                    assert(text_data@.subrange(0, p) =~= data@.subrange(c + 2, c + 2 + p));
                }
            }
            if let Ok(parsed) = self.parse_textual(text_data) {
                self.data_bytes = Some(usize_from_text(&parsed));
                let _ = self.incr_parse_cursor(2);
            } else {
                return ParseResult::IncompleteFrame(
                    ParsedFrame::with_all_raw(h, None, self.status_bytes, None),
                );
            }
        } else {
            return ParseResult::IncompleteFrame(ParsedFrame::with_header(h));
        }
        self.parse_payload(data)
    }

    /// The payload of a `CALL` or `CALLRESP`, once its length is known.
    fn parse_payload(&self, data: &[u8]) -> (r: ParseResult)
        requires
            self@.header_type is Some,
            self@.parse_cursor is Some,
            self@.data_bytes is Some,
            payload_spec(self@, data@) is Some,
        ensures
            payload_spec(self@, data@) == Some((self@, r@)),
    {
        let h = self.header_type.unwrap();
        let c = self.parse_cursor.unwrap();
        let n = self.data_bytes.unwrap();
        assert(c + 1 <= data.len());
        let (_, relevant) = data.split_at(c + 1);
        if n < relevant.len() {
            if relevant[n] == END {
                let start = c + 1;
                let end = start + n;
                if let Some(v) = self.status_bytes {
                    ParseResult::Frame(ParsedFrame::with_all(h, start, end, v, None))
                } else {
                    ParseResult::Frame(ParsedFrame::with_data(h, start, end))
                }
            } else {
                ParseResult::IncompleteFrame(ParsedFrame::with_header(ERR))
            }
        } else {
            ParseResult::IncompleteFrame(ParsedFrame::with_size(h, n))
        }
    }

    /// `REG_SERVICE_ACK`: result bytes, a two-byte id, then `END`.
    fn parse_service_ack(&self, data: &[u8]) -> (r: ParseResult)
        requires
            self@.parse_cursor matches Some(c) && c <= data.len(),
            service_ack_spec(self@, data@) is Some,
        ensures
            service_ack_spec(self@, data@) == Some((self@, r@)),
    {
        let c = self.parse_cursor.unwrap();
        let (_, valid_data) = data.split_at(c);
        if valid_data.len() > 4 {
            if valid_data[4] == END {
                let result_type = (valid_data[0], valid_data[1]);
                let id_start = c + 2;
                let id_end = c + 3;
                ParseResult::Frame(
                    ParsedFrame::with_all(REG_SERVICE_ACK, id_start, id_end, result_type, None),
                )
            } else {
                ParseResult::ParseError("Incorrectly parsed REG_SERVICE_ACK")
            }
        } else {
            ParseResult::IncompleteFrame(ParsedFrame::with_header(REG_SERVICE_ACK))
        }
    }

    /// `REG_CALLER_ACK`: result bytes, ids up to `0xFF 0xFF`, then `CR`.
    fn parse_caller_ack(&self, data: &[u8]) -> (r: ParseResult)
        requires
            self@.parse_cursor matches Some(c) && c <= data.len(),
            caller_ack_spec(self@, data@) is Some,
        ensures
            caller_ack_spec(self@, data@) == Some((self@, r@)),
    {
        let c = self.parse_cursor.unwrap();
        let (_, valid_data) = data.split_at(c);
        if valid_data.len() <= 2 {
            return ParseResult::IncompleteFrame(ParsedFrame::with_header(REG_SERVICE_ACK));
        }
        let result_type = (valid_data[0], valid_data[1]);
        let mut i: usize = 2;
        loop
            invariant
                self@.parse_cursor == Some(c),
                caller_ack_spec(self@, data@) == (match caller_ack_scan(c as int, valid_data@, 2) {
                    Some(r) => Some((self@, r)),
                    None => None,
                }),
                2 <= i <= valid_data.len(),
                valid_data@ == data@.subrange(c as int, data@.len() as int),
                c + valid_data.len() == data.len(),
                result_type == (valid_data@[0], valid_data@[1]),
                caller_ack_scan(c as int, valid_data@, 2) is Some,
                caller_ack_scan(c as int, valid_data@, 2) == caller_ack_scan(
                    c as int,
                    valid_data@,
                    i as int,
                ),
            decreases valid_data.len() - i,
        {
            if valid_data.len() - i <= 1 {
                return ParseResult::IncompleteFrame(
                    ParsedFrame::with_all_raw(REG_CALLER_ACK, None, Some(result_type), None),
                );
            }
            if valid_data[i] == 0xFF && valid_data[i + 1] == 0xFF {
                let cursor_pos = c + (i + 1) - 2;
                let data_loc = (c + 2, cursor_pos);
                if i + 2 < valid_data.len() {
                    if valid_data[i + 2] == CR {
                        return ParseResult::Frame(
                            ParsedFrame::with_all_raw(
                                REG_CALLER_ACK,
                                Some(data_loc),
                                Some(result_type),
                                None,
                            ),
                        );
                    }
                    i = i + 3;
                } else {
                    return ParseResult::IncompleteFrame(
                        ParsedFrame::with_all_raw(
                            REG_CALLER_ACK,
                            Some(data_loc),
                            Some(result_type),
                            None,
                        ),
                    );
                }
            } else {
                i = i + 2;
            }
        }
    }

    /// `STOP_SERVICE_ACK` and `STOP_CALLER_ACK`: result bytes, then `END`.
    fn parse_stop_ack(&self, data: &[u8]) -> (r: ParseResult)
        requires
            self@.header_type matches Some(h) && (h == STOP_SERVICE_ACK || h == STOP_CALLER_ACK),
            self@.parse_cursor matches Some(c) && c <= data.len(),
            stop_ack_spec(self@, data@) is Some,
        ensures
            stop_ack_spec(self@, data@) == Some((self@, r@)),
    {
        let h = self.header_type.unwrap();
        let c = self.parse_cursor.unwrap();
        let (_, valid_data) = data.split_at(c);
        if valid_data.len() > 2 {
            if valid_data[2] == END {
                let result_type = (valid_data[0], valid_data[1]);
                ParseResult::Frame(ParsedFrame::with_all_raw(h, None, Some(result_type), None))
            } else if h == STOP_SERVICE_ACK {
                ParseResult::ParseError("Incorrectly parsed STOP_SERVICE_ACK")
            } else {
                ParseResult::ParseError("Incorrectly parsed STOP_CALLER_ACK")
            }
        } else {
            ParseResult::IncompleteFrame(ParsedFrame::with_header(h))
        }
    }
}

/// Appends the pretty-printed debug text of a frame.
fn push_frame_text(s: &mut String, f: &ParsedFrame)
    ensures
        final(s)@ == old(s)@ + frame_text(f@),
{
    let ghost start = s@;
    let ghost rt_text = match f@.result_type {
        None => "None"@,
        Some(p) => some_pair_text(p.0 as nat, p.1 as nat),
    };
    let ghost data_text = match f@.data {
        None => "None"@,
        Some(p) => some_pair_text(p.0 as nat, p.1 as nat),
    };
    s.append("ParsedFrame {\n    Header: ");
    push_decimal(s, f.header as usize);
    let ghost t1 = "ParsedFrame {\n    Header: "@ + decimal(f@.header as nat);
    assert(s@ =~= start + t1);
    s.append(",\n    Data_size: ");
    push_opt_number(s, f.data_size);
    let ghost t2 = t1 + ",\n    Data_size: "@ + opt_number_text(f@.data_size);
    assert(s@ =~= start + t2);
    s.append(",\n    Result_type: ");
    match f.result_type {
        None => s.append("None"),
        Some(p) => push_some_pair(s, p.0 as usize, p.1 as usize),
    }
    let ghost t3 = t2 + ",\n    Result_type: "@ + rt_text;
    assert(s@ =~= start + t3);
    s.append(",\n    Data: ");
    match f.data {
        None => s.append("None"),
        Some(p) => push_some_pair(s, p.0, p.1),
    }
    let ghost t4 = t3 + ",\n    Data: "@ + data_text;
    assert(s@ =~= start + t4);
    s.append(",\n    Text: ");
    push_opt_list(s, &f.text);
    let ghost t5 = t4 + ",\n    Text: "@ + opt_list_text(f@.text);
    assert(s@ =~= start + t5);
    s.append(",\n}");
    assert(s@ =~= start + (t5 + ",\n}"@));
    assert(t5 + ",\n}"@ == frame_text(f@));
}

/// Appends the one-line debug text of a frame.
fn push_frame_line(s: &mut String, f: &ParsedFrame)
    ensures
        final(s)@ == old(s)@ + frame_line(f@),
{
    let ghost start = s@;
    let ghost rt_text = match f@.result_type {
        None => "None"@,
        Some(p) => some_pair_line(p.0 as nat, p.1 as nat),
    };
    let ghost data_text = match f@.data {
        None => "None"@,
        Some(p) => some_pair_line(p.0 as nat, p.1 as nat),
    };
    s.append("ParsedFrame { Header: ");
    push_decimal(s, f.header as usize);
    let ghost t1 = "ParsedFrame { Header: "@ + decimal(f@.header as nat);
    assert(s@ =~= start + t1);
    s.append(", Data_size: ");
    push_opt_number_line(s, f.data_size);
    let ghost t2 = t1 + ", Data_size: "@ + opt_number_line(f@.data_size);
    assert(s@ =~= start + t2);
    s.append(", Result_type: ");
    match f.result_type {
        None => s.append("None"),
        Some(p) => push_some_pair_line(s, p.0 as usize, p.1 as usize),
    }
    let ghost t3 = t2 + ", Result_type: "@ + rt_text;
    assert(s@ =~= start + t3);
    s.append(", Data: ");
    match f.data {
        None => s.append("None"),
        Some(p) => push_some_pair_line(s, p.0, p.1),
    }
    let ghost t4 = t3 + ", Data: "@ + data_text;
    assert(s@ =~= start + t4);
    s.append(", Text: ");
    push_opt_list_line(s, &f.text);
    let ghost t5 = t4 + ", Text: "@ + opt_list_line(f@.text);
    assert(s@ =~= start + t5);
    s.append(" }");
    assert(s@ =~= start + (t5 + " }"@));
    assert(t5 + " }"@ == frame_line(f@));
}

impl ParsedFrame {
    /// The frame's debug text, with fields named `Header`, `Data_size`,
    /// `Result_type`, `Data` and `Text`: pretty-printed, each field on a
    /// line of its own, where `pretty` (as `{:#?}` prints it), else on one
    /// line (as `{:?}` prints it).
    pub fn debug_text(&self, pretty: bool) -> (t: String)
        ensures
            t@ == if pretty {
                frame_text(self@)
            } else {
                frame_line(self@)
            },
    {
        let mut s = String::new();
        if pretty {
            push_frame_text(&mut s, self);
        } else {
            push_frame_line(&mut s, self);
        }
        assert(s@ =~= if pretty {
            frame_text(self@)
        } else {
            frame_line(self@)
        });
        s
    }
}

impl ParseResult {
    /// The answer's debug text: `Frame(..)` or `IncompleteFrame:..` around
    /// the frame's pretty-printed text, `ParseError : ` before the message,
    /// and fixed words for the two debugging answers.
    pub fn debug_text(&self) -> (t: String)
        ensures
            t@ == result_text(self@),
    {
        let mut s = String::new();
        match self {
            ParseResult::Debug => s.append("IGNORE FOR DEBUG"),
            ParseResult::DebugOk => s.append("IGNORE FOR DEBUG BUT OK"),
            ParseResult::Frame(f) => {
                s.append("Frame(");
                push_frame_text(&mut s, f);
                s.append(")");
            },
            ParseResult::IncompleteFrame(f) => {
                s.append("IncompleteFrame:");
                push_frame_text(&mut s, f);
            },
            ParseResult::ParseError(e) => {
                s.append("ParseError : ");
                s.append(e);
            },
        }
        assert(s@ =~= result_text(self@));
        s
    }
}

} // verus!
