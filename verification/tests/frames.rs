use cia402_node::frame::{Frame, FrameError};
use cia402_node::nmt::{create_nmt_frame, new_nmt_state, NmtState};

#[test]
fn frames_hold_what_they_are_made_from() {
    let frame = Frame::new(0x7FF, &[1, 2, 3]).unwrap();
    assert_eq!(frame.id, 0x7FF);
    assert_eq!(frame.data, vec![1, 2, 3]);
    assert_eq!(Frame::new(0, &[]).unwrap(), Frame { id: 0, data: vec![] });
    assert_eq!(Frame::new(0x181, &[9; 8]).unwrap().data, vec![9; 8]);
}

#[test]
fn a_twelve_bit_identifier_is_refused() {
    assert_eq!(Frame::new(0x800, &[]), Err(FrameError::InvalidId));
    assert_eq!(Frame::new(0xFFFF, &[0; 9]), Err(FrameError::InvalidId));
}

#[test]
fn nine_bytes_are_refused() {
    assert_eq!(Frame::new(0x7FF, &[0; 9]), Err(FrameError::DataTooLong));
}

#[test]
fn requests_lead_to_states() {
    assert_eq!(new_nmt_state(0x01), Ok(NmtState::Operational));
    assert_eq!(new_nmt_state(0x02), Ok(NmtState::Stopped));
    assert_eq!(new_nmt_state(0x80), Ok(NmtState::PreOperational));
    assert_eq!(new_nmt_state(0x81), Ok(NmtState::Initializing));
    assert_eq!(new_nmt_state(0x82), Ok(NmtState::Initializing));
}

#[test]
fn unknown_requests_are_named_in_hexadecimal() {
    for requested in 0..=u8::MAX {
        if let Err(text) = new_nmt_state(requested) {
            assert_eq!(text, format!("Unexpected requested state: {:#X}", requested));
        } else {
            assert!(matches!(requested, 0x01 | 0x02 | 0x80 | 0x81 | 0x82));
        }
    }
    assert_eq!(new_nmt_state(0xAB).unwrap_err(), "Unexpected requested state: 0xAB");
    assert_eq!(new_nmt_state(0).unwrap_err(), "Unexpected requested state: 0x0");
}

#[test]
fn states_are_announced_by_their_codes() {
    let announced = |state| create_nmt_frame(0x0A, state);
    assert_eq!(announced(NmtState::Initializing), Frame { id: 0x70A, data: vec![0x00] });
    assert_eq!(announced(NmtState::Stopped), Frame { id: 0x70A, data: vec![0x04] });
    assert_eq!(announced(NmtState::Operational), Frame { id: 0x70A, data: vec![0x05] });
    assert_eq!(announced(NmtState::PreOperational), Frame { id: 0x70A, data: vec![0x7F] });
    assert_eq!(create_nmt_frame(0xFF, NmtState::Stopped).id, 0x7FF);
}
