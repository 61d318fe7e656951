use daly_bms::bus::{check_frame, check_second_answer, classify_first_answer, discovery_range, found_addresses, request_for, timeout_error, FirstAnswer};
use daly_bms::error::DalyError;
use daly_bms::protocol::{checksum, DataId, DATA_LEN, START_FLAG};

fn answer(addr: u8, cmd: u8) -> Vec<u8> {
    let mut v = vec![START_FLAG, addr, cmd, DATA_LEN, 1, 2, 3, 4, 5, 6, 7, 8];
    let c = checksum(&v);
    v.push(c);
    v
}

#[test]
fn read_requests_carry_zero_data() {
    let f = request_for(0x02, DataId::PackStatus, [9; 8]);
    assert_eq!(&f.bytes[4..12], &[0; 8]);
    let w = request_for(0x02, DataId::SetChargeMos, [1, 0, 0, 0, 0, 0, 0, 0]);
    assert_eq!(w.bytes[4], 1);
    assert_eq!(w.bytes[1], 0x41);
}

#[test]
fn first_answer_from_target_is_accepted() {
    match classify_first_answer(&answer(0x02, 0x90), 0x02, DataId::PackStatus) {
        FirstAnswer::Accepted(f) => assert_eq!(f.address(), 0x02),
        other => panic!("unexpected {:?}", other),
    }
}

#[test]
fn first_answer_from_master_asks_for_second() {
    match classify_first_answer(&answer(0x01, 0x90), 0x02, DataId::PackStatus) {
        FirstAnswer::TrySecond { actual } => assert_eq!(actual, 0x01),
        other => panic!("unexpected {:?}", other),
    }
    let second = answer(0x02, 0x90);
    assert!(check_second_answer(Some(&second), 0x02, DataId::PackStatus, 0x01).is_ok());
    assert!(matches!(
        check_second_answer(None, 0x02, DataId::PackStatus, 0x01),
        Err(DalyError::UnexpectedAddress { expected: 0x02, actual: 0x01 })
    ));
}

#[test]
fn first_answer_with_wrong_command_fails() {
    assert!(matches!(
        classify_first_answer(&answer(0x02, 0x91), 0x02, DataId::PackStatus),
        FirstAnswer::Failed(DalyError::UnexpectedDataId { expected: 0x90, actual: 0x91 })
    ));
    assert!(matches!(
        classify_first_answer(&[0xA5, 0x02], 0x02, DataId::PackStatus),
        FirstAnswer::Failed(DalyError::InvalidFrame { .. })
    ));
}

#[test]
fn multi_frame_check() {
    assert!(check_frame(&answer(0x01, 0x95), 0x01, DataId::CellVoltages1).is_ok());
    assert!(matches!(
        check_frame(&answer(0x03, 0x95), 0x01, DataId::CellVoltages1),
        Err(DalyError::UnexpectedAddress { expected: 0x01, actual: 0x03 })
    ));
}

#[test]
fn timeout_names_board_and_command() {
    assert!(matches!(timeout_error(0x28, DataId::MosStatus), DalyError::Timeout { bms_id: 0x28, cmd: 0x93 }));
}

#[test]
fn discovery_covers_range() {
    assert_eq!(discovery_range(1, 4), vec![1, 2, 3, 4]);
    assert_eq!(discovery_range(5, 5), vec![5]);
    assert!(discovery_range(6, 5).is_empty());
    assert_eq!(discovery_range(250, 255).len(), 6);
}

#[test]
fn discovery_keeps_the_boards_that_answered() {
    let probed = discovery_range(1, 6);
    let answered = vec![true, false, false, true, true, false];
    assert_eq!(found_addresses(&probed, &answered), vec![1, 4, 5]);
    assert_eq!(found_addresses(&probed, &vec![false; 6]), Vec::<u8>::new());
    assert_eq!(found_addresses(&Vec::new(), &Vec::new()), Vec::<u8>::new());
}
