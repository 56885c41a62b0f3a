use lib::parser::{BBBParse, ParseResult, ParsedFrame};
use lib::protocol_defs::errors::OK_CODE;
use lib::protocol_defs::methods::{
    CALL, CALLRESP, ERR, OK, REG_CALLER, REG_CALLER_ACK, REG_SERVICE, REG_SERVICE_ACK,
    STOP_CALLER, STOP_CALLER_ACK, STOP_SERVICE, STOP_SERVICE_ACK,
};
use lib::protocol_defs::{CR, END, ETX, START};

fn parse_fresh(data: &[u8]) -> ParseResult {
    BBBParse::new().parse(data)
}

fn call_frame() -> Vec<u8> {
    vec![START, CALL, 0x20, 0x21, 4, CR, 0xDE, 0xAD, 0xBE, 0xEF, END, 0, 0]
}

#[test]
fn reg_service_frame_gives_its_name() {
    let data = [START, REG_SERVICE, b'T', b'E', b'S', b'T', CR, CR];
    let r = parse_fresh(&data);
    assert_eq!(r, ParseResult::Frame(ParsedFrame::with_text_single(REG_SERVICE, "TEST".to_string())));
    if let ParseResult::Frame(f) = r {
        assert_eq!(f.header(), REG_SERVICE);
        assert_eq!(f.text(), Some("TEST".to_string()));
        assert_eq!(f.size(), None);
    }
}

#[test]
fn reg_service_without_cr_is_incomplete() {
    let data = [START, REG_SERVICE, b'T', b'E'];
    assert_eq!(parse_fresh(&data), ParseResult::IncompleteFrame(ParsedFrame::with_header(REG_SERVICE)));
}

#[test]
fn raw_digit_bytes_read_as_digits() {
    let data = [START, REG_SERVICE, b'a', 7, b'Z', CR];
    assert_eq!(parse_fresh(&data), ParseResult::Frame(ParsedFrame::with_text_single(REG_SERVICE, "a7Z".to_string())));
}

#[test]
fn reg_caller_frame_gives_its_name_list() {
    let data = [START, REG_CALLER, b'A', b'B', ETX, b'C', CR, 0];
    let r = parse_fresh(&data);
    let names = vec!["AB".to_string(), "C".to_string()];
    assert_eq!(r, ParseResult::Frame(ParsedFrame::with_text_list(REG_CALLER, names.clone())));
    if let ParseResult::Frame(f) = r {
        assert_eq!(f.text_list(), Some(&names));
        assert_eq!(f.text(), Some("AB".to_string()));
    }
}

#[test]
fn reg_caller_list_without_cr_is_incomplete() {
    let mut p = BBBParse::new();
    let data = [START, REG_CALLER, b'A', ETX, b'B'];
    assert_eq!(p.parse(&data), ParseResult::IncompleteFrame(ParsedFrame::with_header(REG_CALLER)));
    let more = [START, REG_CALLER, b'A', ETX, b'B', CR];
    assert_eq!(
        p.parse(&more),
        ParseResult::Frame(ParsedFrame::with_text_list(REG_CALLER, vec!["A".to_string(), "B".to_string()]))
    );
}

#[test]
fn stop_frames_are_whole_after_their_method() {
    assert_eq!(parse_fresh(&[START, STOP_CALLER]), ParseResult::Frame(ParsedFrame::with_header(STOP_CALLER)));
    assert_eq!(parse_fresh(&[START, STOP_SERVICE, CR]), ParseResult::Frame(ParsedFrame::with_header(STOP_SERVICE)));
}

#[test]
fn call_frame_reports_payload_bounds() {
    let data = call_frame();
    let r = parse_fresh(&data);
    assert_eq!(r, ParseResult::Frame(ParsedFrame::with_all(CALL, 6, 10, (0x20, 0x21), None)));
    if let ParseResult::Frame(f) = r {
        assert_eq!(f.size(), Some(4));
        assert_eq!(f.result_as_usize(), Some(0x2120));
    }
}

#[test]
fn callresp_with_two_digit_length() {
    let mut data = vec![START, CALLRESP, OK, OK_CODE, b'1', 2, CR];
    data.extend_from_slice(&[9u8; 12]);
    data.push(END);
    let r = parse_fresh(&data);
    assert_eq!(r, ParseResult::Frame(ParsedFrame::with_all(CALLRESP, 7, 19, (OK, OK_CODE), None)));
}

#[test]
fn call_prefixes_are_incomplete_in_stages() {
    let data = call_frame();
    let mut p = BBBParse::new();
    assert_eq!(p.parse(&data[..1]), ParseResult::IncompleteFrame(ParsedFrame::with_header(ERR)));
    assert_eq!(p.parse(&data[..4]), ParseResult::IncompleteFrame(ParsedFrame::with_header(CALL)));
    assert_eq!(
        p.parse(&data[..5]),
        ParseResult::IncompleteFrame(ParsedFrame::with_all_raw(CALL, None, Some((0x20, 0x21)), None))
    );
    assert_eq!(p.parse(&data[..8]), ParseResult::IncompleteFrame(ParsedFrame::with_size(CALL, 4)));
}

#[test]
fn growing_buffer_ends_as_one_whole_parse() {
    let data = call_frame();
    let whole = parse_fresh(&data);
    let mut p = BBBParse::new();
    for m in 1..11 {
        let r = p.parse(&data[..m]);
        assert!(matches!(r, ParseResult::IncompleteFrame(_)));
    }
    assert_eq!(p.parse(&data), whole);
}

#[test]
fn callresp_growing_buffer_from_the_original_example() {
    let callresp: [u8; 14] = [START, CALLRESP, 0x20, 0x20, 4, CR, 0xDE, 0xAD, 0xBE, 0xEF, CR, CR, 0, 0];
    let mut p = BBBParse::new();
    for m in 1..11 {
        assert!(matches!(p.parse(&callresp[..m]), ParseResult::IncompleteFrame(_)));
    }
    assert_eq!(
        p.parse(&callresp[..11]),
        ParseResult::Frame(ParsedFrame::with_all(CALLRESP, 6, 10, (0x20, 0x20), None))
    );
}

#[test]
fn payload_not_followed_by_end_is_incomplete_err() {
    let mut data = call_frame();
    data[10] = 0x55;
    assert_eq!(parse_fresh(&data), ParseResult::IncompleteFrame(ParsedFrame::with_header(ERR)));
}

#[test]
fn reg_service_ack_reports_id_bounds() {
    let data = [START, REG_SERVICE_ACK, OK, OK_CODE, 0x00, 0x03, END, CR];
    let r = parse_fresh(&data);
    assert_eq!(r, ParseResult::Frame(ParsedFrame::with_all(REG_SERVICE_ACK, 4, 5, (OK, OK_CODE), None)));
    if let ParseResult::Frame(f) = r {
        assert_eq!(f.result_as_usize(), Some(OK as usize + 256 * OK_CODE as usize));
        assert_eq!(f.size(), Some(1));
    }
}

#[test]
fn reg_service_ack_without_end_is_an_error() {
    let data = [START, REG_SERVICE_ACK, OK, OK_CODE, 0x00, 0x03, 0x55];
    assert_eq!(parse_fresh(&data), ParseResult::ParseError("Incorrectly parsed REG_SERVICE_ACK"));
    let short = [START, REG_SERVICE_ACK, OK, OK_CODE];
    assert_eq!(parse_fresh(&short), ParseResult::IncompleteFrame(ParsedFrame::with_header(REG_SERVICE_ACK)));
}

#[test]
fn reg_caller_ack_reports_id_list() {
    let data = [START, REG_CALLER_ACK, OK, OK_CODE, 0x00, 0x02, 0x00, 0x03, 0xFF, 0xFF, CR];
    assert_eq!(
        parse_fresh(&data),
        ParseResult::Frame(ParsedFrame::with_all_raw(REG_CALLER_ACK, Some((4, 7)), Some((OK, OK_CODE)), None))
    );
    let open = [START, REG_CALLER_ACK, OK, OK_CODE, 0x00, 0x02, 0x00, 0x03, 0xFF, 0xFF];
    assert_eq!(
        parse_fresh(&open),
        ParseResult::IncompleteFrame(ParsedFrame::with_all_raw(REG_CALLER_ACK, Some((4, 7)), Some((OK, OK_CODE)), None))
    );
    let unpaired = [START, REG_CALLER_ACK, OK, OK_CODE, 0x00, 0x02, 0x00];
    assert_eq!(
        parse_fresh(&unpaired),
        ParseResult::IncompleteFrame(ParsedFrame::with_all_raw(REG_CALLER_ACK, None, Some((OK, OK_CODE)), None))
    );
    let short = [START, REG_CALLER_ACK, OK];
    assert_eq!(parse_fresh(&short), ParseResult::IncompleteFrame(ParsedFrame::with_header(REG_SERVICE_ACK)));
}

#[test]
fn reg_caller_ack_delimiter_needs_cr_after_it() {
    // 0xFF 0xFF followed by a byte other than CR: the ids go on after that byte.
    let data = [START, REG_CALLER_ACK, OK, OK_CODE, 0x01, 0x02, 0xFF, 0xFF, 0x07, 0xFF, 0xFF, CR];
    assert_eq!(
        parse_fresh(&data),
        ParseResult::Frame(ParsedFrame::with_all_raw(REG_CALLER_ACK, Some((4, 8)), Some((OK, OK_CODE)), None))
    );
}

#[test]
fn stop_acks_report_result_bytes() {
    assert_eq!(
        parse_fresh(&[START, STOP_SERVICE_ACK, OK, OK_CODE, END]),
        ParseResult::Frame(ParsedFrame::with_all_raw(STOP_SERVICE_ACK, None, Some((OK, OK_CODE)), None))
    );
    assert_eq!(
        parse_fresh(&[START, STOP_CALLER_ACK, ERR, 0x33, END]),
        ParseResult::Frame(ParsedFrame::with_all_raw(STOP_CALLER_ACK, None, Some((ERR, 0x33)), None))
    );
    assert_eq!(
        parse_fresh(&[START, STOP_SERVICE_ACK, OK, OK_CODE, 0x00]),
        ParseResult::ParseError("Incorrectly parsed STOP_SERVICE_ACK")
    );
    assert_eq!(
        parse_fresh(&[START, STOP_CALLER_ACK, OK, OK_CODE, 0x00]),
        ParseResult::ParseError("Incorrectly parsed STOP_CALLER_ACK")
    );
    assert_eq!(
        parse_fresh(&[START, STOP_CALLER_ACK, OK]),
        ParseResult::IncompleteFrame(ParsedFrame::with_header(STOP_CALLER_ACK))
    );
}

#[test]
fn bad_start_and_unknown_method_are_errors() {
    assert_eq!(parse_fresh(&[0x00, CALL]), ParseResult::ParseError("Incorrect packet header"));
    assert_eq!(parse_fresh(&[START, 0x7F, 1, 2, 3]), ParseResult::ParseError("Incorrect method called"));
    assert_eq!(parse_fresh(&[START]), ParseResult::IncompleteFrame(ParsedFrame::with_header(ERR)));
}

#[test]
fn reported_bounds_lie_inside_the_buffer() {
    let data = call_frame();
    assert_eq!(parse_fresh(&data), ParseResult::Frame(ParsedFrame::with_all(CALL, 6, 10, (0x20, 0x21), None)));
    assert!(6 <= 10 && 10 < data.len());
    assert_eq!(data[10], END);
    let ack = [START, REG_CALLER_ACK, OK, OK_CODE, 0x05, 0x06, 0xFF, 0xFF];
    assert_eq!(
        parse_fresh(&ack),
        ParseResult::IncompleteFrame(ParsedFrame::with_all_raw(REG_CALLER_ACK, Some((4, 5)), Some((OK, OK_CODE)), None))
    );
    assert!(4 <= 5 && 5 < ack.len());
}

#[test]
fn incr_parse_cursor_moves_only_a_set_cursor() {
    let mut p = BBBParse::new();
    assert_eq!(p.incr_parse_cursor(3), Err("The cursor has not been initiliased"));
    p.parse(&[START, CALL]);
    assert_eq!(p.incr_parse_cursor(3), Ok(5));
    assert_eq!(p.incr_parse_cursor(0), Ok(5));
}

#[test]
fn u8_to_char_reads_letters_digits_and_raw_values() {
    assert_eq!(BBBParse::u8_to_char(b'q'), 'q');
    assert_eq!(BBBParse::u8_to_char(b'Q'), 'Q');
    assert_eq!(BBBParse::u8_to_char(b'9'), '9');
    assert_eq!(BBBParse::u8_to_char(0), '0');
    assert_eq!(BBBParse::u8_to_char(9), '9');
}

#[test]
fn parse_textual_reads_up_to_cr() {
    let mut p = BBBParse::new();
    assert_eq!(p.parse_textual(&[b'a', b'b', 3, CR, b'x']), Ok("ab3".to_string()));
    assert_eq!(p.parse_textual(&[b'a', b'b']), Err("Text could not be parsed"));
    p.parse(&[START, CALL]);
    assert_eq!(p.parse_textual(&[b'a', b'b', CR]), Ok("ab".to_string()));
    assert_eq!(p.incr_parse_cursor(0), Ok(4));
}

#[test]
fn parse_textual_etx_delim_says_which_delimiter() {
    let mut p = BBBParse::new();
    p.parse(&[START, CALL]);
    assert_eq!(p.parse_textual_etx_delim(&[b'a', ETX, b'b', CR]), Ok(("a".to_string(), true)));
    assert_eq!(p.incr_parse_cursor(0), Ok(4));
    assert_eq!(p.parse_textual_etx_delim(&[b'b', CR]), Ok(("b".to_string(), false)));
    assert_eq!(p.incr_parse_cursor(0), Ok(6));
    assert_eq!(p.parse_textual_etx_delim(&[b'b']), Err("Text could not be parsed"));
}

#[test]
fn frame_builders_keep_size_and_bounds_together() {
    let f = ParsedFrame::with_data(0x01, 3, 10);
    assert_eq!(f.size(), Some(7));
    assert_eq!(f.result_as_usize(), None);
    let g = ParsedFrame::with_all_raw(0x01, Some((3, 10)), None, None);
    assert_eq!(f, g);
    let h = ParsedFrame::with_all_raw(0x02, None, Some((0xFF, 0xFF)), Some(vec!["x".to_string()]));
    assert_eq!(h.size(), None);
    assert_eq!(h.result_as_usize(), Some(0xFFFF));
    assert_eq!(h.text(), Some("x".to_string()));
    let e = ParsedFrame::with_text_list(0x03, vec![]);
    assert_eq!(e.text(), None);
    assert_eq!(e.text_list(), Some(&vec![]));
    let s = ParsedFrame::with_size(0x04, 12);
    assert_eq!(s.size(), Some(12));
    assert_eq!(s.header(), 0x04);
    assert_eq!(s.text_list(), None);
    let d = ParsedFrame::default();
    assert_eq!(d, ParsedFrame::with_header(0));
}

#[test]
fn call_cut_after_its_method_is_incomplete() {
    assert_eq!(parse_fresh(&[START, CALL]), ParseResult::IncompleteFrame(ParsedFrame::with_header(CALL)));
    assert_eq!(parse_fresh(&[START, CALL, 0x20]), ParseResult::IncompleteFrame(ParsedFrame::with_header(CALL)));
    let mut p = BBBParse::new();
    assert_eq!(p.parse(&[START, CALL]), ParseResult::IncompleteFrame(ParsedFrame::with_header(CALL)));
    let data = call_frame();
    assert_eq!(p.parse(&data), parse_fresh(&data));
}

#[test]
fn state_is_kept_and_cursor_never_moves_back() {
    let mut p = BBBParse::new();
    let data = [START, REG_SERVICE, b'A', b'B', CR, CR];
    assert_eq!(p.parse(&data[..3]), ParseResult::IncompleteFrame(ParsedFrame::with_header(REG_SERVICE)));
    assert_eq!(p.incr_parse_cursor(0), Ok(2));
    assert_eq!(p.parse(&data), ParseResult::Frame(ParsedFrame::with_text_single(REG_SERVICE, "AB".to_string())));
    assert_eq!(p.incr_parse_cursor(0), Ok(4));
    // The method stays REG_SERVICE, whatever the second byte now says.
    let other = [START, STOP_CALLER, b'A', b'B', b'C', b'D', CR];
    assert_eq!(p.parse(&other), ParseResult::Frame(ParsedFrame::with_text_single(REG_SERVICE, "CD".to_string())));
    assert_eq!(p.incr_parse_cursor(0), Ok(6));
}

// The debugging text as the hand-written `Debug` impls printed it.
struct FrameCopy {
    header: u8,
    data_size: Option<usize>,
    result_type: Option<(u8, u8)>,
    data: Option<(usize, usize)>,
    text: Option<Vec<String>>,
}

impl std::fmt::Debug for FrameCopy {
    fn fmt(&self, f: &mut std::fmt::Formatter<'_>) -> std::fmt::Result {
        f.debug_struct("ParsedFrame")
            .field("Header", &self.header)
            .field("Data_size", &self.data_size)
            .field("Result_type", &self.result_type)
            .field("Data", &self.data)
            .field("Text", &self.text)
            .finish()
    }
}

#[test]
fn frame_debug_text_is_the_pretty_printed_struct() {
    let cases: Vec<(ParsedFrame, FrameCopy)> = vec![
        (
            ParsedFrame::with_all(CALL, 6, 10, (0x20, 0x21), None),
            FrameCopy { header: CALL, data_size: Some(4), result_type: Some((0x20, 0x21)), data: Some((6, 10)), text: None },
        ),
        (
            ParsedFrame::with_header(ERR),
            FrameCopy { header: ERR, data_size: None, result_type: None, data: None, text: None },
        ),
        (
            ParsedFrame::with_size(255, 1234567),
            FrameCopy { header: 255, data_size: Some(1234567), result_type: None, data: None, text: None },
        ),
        (
            ParsedFrame::with_text_list(REG_CALLER, vec!["AB".to_string(), "q\"\n".to_string()]),
            FrameCopy {
                header: REG_CALLER,
                data_size: None,
                result_type: None,
                data: None,
                text: Some(vec!["AB".to_string(), "q\"\n".to_string()]),
            },
        ),
        (
            ParsedFrame::with_text_list(0, vec![]),
            FrameCopy { header: 0, data_size: None, result_type: None, data: None, text: Some(vec![]) },
        ),
        (
            ParsedFrame::with_all_raw(7, Some((0, 0)), Some((0, 255)), Some(vec!["x".to_string()])),
            FrameCopy {
                header: 7,
                data_size: Some(0),
                result_type: Some((0, 255)),
                data: Some((0, 0)),
                text: Some(vec!["x".to_string()]),
            },
        ),
    ];
    for (frame, copy) in cases {
        assert_eq!(frame.debug_text(true), format!("{:#?}", copy));
        assert_eq!(frame.debug_text(false), format!("{:?}", copy));
    }
}

#[test]
fn result_debug_text_names_the_answer() {
    assert_eq!(ParseResult::Debug.debug_text(), "IGNORE FOR DEBUG");
    assert_eq!(ParseResult::DebugOk.debug_text(), "IGNORE FOR DEBUG BUT OK");
    assert_eq!(ParseResult::ParseError("Incorrect method called").debug_text(), "ParseError : Incorrect method called");
    let copy = FrameCopy { header: STOP_CALLER, data_size: None, result_type: None, data: None, text: None };
    assert_eq!(
        ParseResult::Frame(ParsedFrame::with_header(STOP_CALLER)).debug_text(),
        format!("Frame({:#?})", copy)
    );
    assert_eq!(
        ParseResult::IncompleteFrame(ParsedFrame::with_header(STOP_CALLER)).debug_text(),
        format!("IncompleteFrame:{:#?}", copy)
    );
    assert!(ParseResult::Frame(ParsedFrame::with_header(STOP_CALLER)).debug_text().starts_with("Frame(ParsedFrame {\n    Header: 24,\n"));
}

#[test]
fn frame_debug_text_on_one_line() {
    assert_eq!(
        ParsedFrame::with_size(5, 3).debug_text(false),
        "ParsedFrame { Header: 5, Data_size: Some(3), Result_type: None, Data: None, Text: None }"
    );
    assert_eq!(
        ParsedFrame::with_all_raw(1, Some((2, 9)), Some((3, 4)), Some(vec!["a".to_string(), "b".to_string()]))
            .debug_text(false),
        "ParsedFrame { Header: 1, Data_size: Some(7), Result_type: Some((3, 4)), Data: Some((2, 9)), Text: Some([\"a\", \"b\"]) }"
    );
}

#[test]
fn reg_caller_ack_leading_delimiter_pair_is_skipped() {
    let data = [START, REG_CALLER_ACK, 0x20, 0x30, 0xFF, 0xFF, 0x00, 0xFF, 0xFF, CR];
    assert_eq!(
        parse_fresh(&data),
        ParseResult::Frame(ParsedFrame::with_all_raw(REG_CALLER_ACK, Some((4, 6)), Some((0x20, 0x30)), None))
    );
}
