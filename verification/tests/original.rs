use lib::protocol_defs;
use lib::protocol_defs::errors::{
    ALREADY_EXISTS_ERROR, DOES_NOT_EXIST_ERROR, FRAME_PARSE_ERROR, INCOMPLETE_FRAME_ERROR,
    NAME_INVALID_ERROR, OK_CODE, SERVICE_DOWN_ERROR,
};
use lib::protocol_defs::methods::{
    CALL, CALLRESP, ERR, OK, REG_CALLER, REG_CALLER_ACK, REG_SERVICE, REG_SERVICE_ACK,
    STOP_CALLER, STOP_SERVICE,
};
use lib::protocol_defs::CR;

const BD: u8 = 0x69;

#[test]
#[allow(unused_variables)]
pub fn test_bbb_parse() {
    let mut underlying_data = Vec::<u8>::with_capacity(4096);
    let mut bbb_parse = lib::parser::BBBParse::new();

    // Test with full data      --SUCCESS
    let register_service: [u8; 8] = [protocol_defs::START, REG_SERVICE, 'T' as u8, 'E' as u8, 'S' as u8, 'T' as u8, CR, CR];
    let register_caller: [u8; 10] = [protocol_defs::START, REG_CALLER, 'T' as u8, 'E' as u8, 'S' as u8, 'T' as u8, CR, CR, 0, 0];
    let callresp: [u8; 14] = [protocol_defs::START, CALLRESP, 0x20, 0x20, 4, CR, 0xDE, 0xAD, 0xBE, 0xEF, CR, CR, 0, 0];
    let call: [u8; 12] = [protocol_defs::START, CALL, 4, CR, 0xDE, 0xAD, 0xBE, 0xEF, CR, CR, 0, 0];
    let stop_service: [u8; 4] = [protocol_defs::START, STOP_SERVICE, CR, CR];
    let stop_caller: [u8; 4] = [protocol_defs::START, STOP_CALLER, CR, CR];
    for m in 1..12 {
        let output = bbb_parse.parse(&callresp[..m]);
        println!("{:#?}", output);
    }
}

#[test]
#[allow(unused_variables)]
pub fn test_parser() {
    //Service
    let register_service: [u8; 7] = [REG_SERVICE, 'T' as u8, 'E' as u8, 'S' as u8, 'T' as u8, CR, CR];
    let register_service_resp: [u8; 7] = [REG_SERVICE_ACK, OK, OK_CODE, 0x00, 0x03, CR, CR];

    let register_service_part_a = &register_service[0..3];
    let register_service_part_b = &register_service[3..5];
    let register_service_part_c = &register_service[5..7];

    let register_service_resp_err_ae: &[u8] = &[REG_SERVICE_ACK, ERR, ALREADY_EXISTS_ERROR, 0x00, 0x03, CR, CR];
    let register_service_resp_err_sd: &[u8] = &[REG_SERVICE_ACK, ERR, SERVICE_DOWN_ERROR, 0x00, 0x03, CR, CR];
    let register_service_resp_err_if: &[u8] = &[REG_SERVICE_ACK, ERR, SERVICE_DOWN_ERROR, 0x00, 0x03, CR, CR];
    let register_service_resp_err_ae: &[u8] = &[REG_SERVICE_ACK, ERR, NAME_INVALID_ERROR, 0x00, 0x03, CR, CR];

    let call_service: &[u8] = &[CALL, '5' as u8, CR, BD, BD, BD, BD, BD, CR, CR];
    let service_response: [u8; 11] = [CALLRESP, OK, OK_CODE, '5' as u8, BD, BD, BD, BD, BD, CR, CR];
    let service_response_a = &service_response[0..3];
    let service_response_a = &service_response[3..6];
    let service_response_a = &service_response[6..9];
    let service_response_a = &service_response[9..11];

    let service_response: &[u8] = &[CALLRESP, ERR, INCOMPLETE_FRAME_ERROR, '5' as u8, BD, BD, BD, BD, BD, CR, CR];
    let service_response: &[u8] = &[CALLRESP, ERR, SERVICE_DOWN_ERROR, '5' as u8, BD, BD, BD, BD, BD, CR, CR];
    let service_response: &[u8] = &[CALLRESP, ERR, FRAME_PARSE_ERROR, '5' as u8, BD, BD, BD, BD, BD, CR, CR];

    let register_caller: &[u8] = &[REG_CALLER, 'T' as u8, 'E' as u8, 'S' as u8, 'T' as u8, CR, CR];
    let register_caller_resp: &[u8] = &[REG_CALLER_ACK, ERR, FRAME_PARSE_ERROR, 0x0, 0x02, 0x0, 0x03, CR, CR];
    let register_caller_resp: &[u8] = &[REG_CALLER_ACK, ERR, DOES_NOT_EXIST_ERROR, 0x0, 0x02, 0x0, 0x03, CR, CR];
    let register_caller_resp: &[u8] = &[REG_CALLER_ACK, ERR, INCOMPLETE_FRAME_ERROR, 0x0, 0x02, 0x0, 0x03, CR, CR];
    let register_caller_resp: &[u8] = &[REG_CALLER_ACK, ERR, NAME_INVALID_ERROR, 0x0, 0x02, 0x0, 0x03, CR, CR];
}
