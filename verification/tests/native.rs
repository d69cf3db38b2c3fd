use ptdecode::asid::Asid;
use ptdecode::block::Block;
use ptdecode::error::PtError;
use ptdecode::event::ExecMode;
use ptdecode::flags::{Status, IP_SUPPRESSED};
use ptdecode::native::{
    asid_of, block_of, branch_of, ensure_ok, extract, mode_of, on_success, status_of, time_of,
    with_status, ASID_UNSET,
};
use ptdecode::qry::CondBranch;

#[test]
fn error_codes_read_both_ways() {
    let kinds = vec![
        PtError::Internal,
        PtError::Invalid,
        PtError::Nosync,
        PtError::BadOpc,
        PtError::BadPacket,
        PtError::BadContext,
        PtError::Eos,
        PtError::BadQuery,
        PtError::Nomem,
        PtError::BadConfig,
        PtError::Noip,
        PtError::IpSuppressed,
        PtError::Nomap,
        PtError::BadInsn,
        PtError::NoTime { time: 0, lost_mtc: 0, lost_cyc: 0 },
        PtError::NoCbr,
        PtError::BadImage,
        PtError::BadLock,
        PtError::NotSupported,
        PtError::RetstackEmpty,
        PtError::BadRetcomp,
        PtError::BadStatusUpdate,
        PtError::NoEnable,
        PtError::EventIgnored,
        PtError::Overflow,
        PtError::BadFile,
        PtError::BadCpu,
    ];
    assert_eq!(kinds.len(), 27);
    for (i, kind) in kinds.iter().enumerate() {
        let code = -(i as i32) - 1;
        assert_eq!(kind.code(), code);
        assert_eq!(PtError::from_code(code), *kind);
    }
    assert_eq!(PtError::from_code(-28), PtError::Unknown { code: -28 });
    assert_eq!(PtError::from_code(i32::MIN), PtError::Unknown { code: i32::MIN });
    assert_eq!(PtError::from_code(0), PtError::Unknown { code: 0 });
    assert_eq!(PtError::from_code(3), PtError::Unknown { code: 3 });
    assert_eq!(PtError::Unknown { code: -40 }.code(), -40);
    assert_eq!(PtError::NoTime { time: 9, lost_mtc: 1, lost_cyc: 2 }.code(), -15);
}

#[test]
fn results_without_their_sign() {
    assert_eq!(extract(0), Ok(0));
    assert_eq!(extract(5), Ok(5));
    assert_eq!(extract(i32::MAX), Ok(i32::MAX as u32));
    assert_eq!(extract(-7), Err(PtError::Eos));
    assert_eq!(ensure_ok(0), Ok(()));
    assert_eq!(ensure_ok(4), Ok(()));
    assert_eq!(ensure_ok(-3), Err(PtError::Nosync));
    assert_eq!(on_success(0, 77u64), Ok(77));
    assert_eq!(on_success(-16, 77u32), Err(PtError::NoCbr));
}

#[test]
fn results_as_status() {
    assert_eq!(status_of(0), Ok(Status::new(false, false)));
    assert_eq!(status_of(1), Ok(Status::new(true, false)));
    assert_eq!(status_of(5), Ok(Status::new(true, true)));
    let suppressed = status_of(2).unwrap();
    assert!(suppressed.ip_suppressed());
    assert!(!suppressed.event_pending());
    assert_eq!(suppressed.bits(), IP_SUPPRESSED);
    assert_eq!(status_of(7).map(|s| s.bits()), Ok(7));
    assert_eq!(status_of(8), Err(PtError::Internal));
    assert_eq!(status_of(-8), Err(PtError::BadQuery));
    assert_eq!(with_status(4, 0x1234u64), Ok((0x1234, Status::new(false, true))));
    assert_eq!(with_status(16, 0x1234u64), Err(PtError::Internal));
    assert_eq!(with_status(-4, 0x1234u64), Err(PtError::BadOpc));
}

#[test]
fn branch_answers() {
    assert_eq!(branch_of(0, 1), Ok((CondBranch::Taken, Status::new(false, false))));
    assert_eq!(branch_of(1, 0), Ok((CondBranch::NotTaken, Status::new(true, false))));
    assert_eq!(branch_of(0, 2), Err(PtError::Internal));
    assert_eq!(branch_of(0, -1), Err(PtError::Internal));
    assert_eq!(branch_of(32, 1), Err(PtError::Internal));
    assert_eq!(branch_of(-8, 1), Err(PtError::BadQuery));
    assert_eq!(branch_of(-7, 5), Err(PtError::Eos));
}

#[test]
fn time_answers() {
    assert_eq!(time_of(0, 100, 1, 2), Ok((100, 1, 2)));
    assert_eq!(time_of(-15, 100, 1, 2), Err(PtError::NoTime { time: 100, lost_mtc: 1, lost_cyc: 2 }));
    assert_eq!(time_of(-3, 100, 1, 2), Err(PtError::Nosync));
    assert_eq!(time_of(-99, 0, 0, 0), Err(PtError::Unknown { code: -99 }));
}

#[test]
fn values_of_the_native_library() {
    assert_eq!(asid_of(ASID_UNSET, ASID_UNSET), Asid::new(None, None));
    assert_eq!(asid_of(0, ASID_UNSET), Asid::new(Some(0), None));
    assert_eq!(asid_of(ASID_UNSET, 0x4000), Asid::new(None, Some(0x4000)));
    assert_eq!(asid_of(1, 2), Asid::new(Some(1), Some(2)));
    assert_eq!(mode_of(0), ExecMode::Unknown);
    assert_eq!(mode_of(1), ExecMode::Bit16);
    assert_eq!(mode_of(2), ExecMode::Bit32);
    assert_eq!(mode_of(3), ExecMode::Bit64);
    assert_eq!(mode_of(4), ExecMode::Unknown);
    assert_eq!(mode_of(-1), ExecMode::Unknown);
    assert_eq!(
        block_of(0x10, 0x20, 5, 3, true, false, Asid::new(Some(1), None)),
        Block {
            ip: 0x10,
            end_ip: 0x20,
            ninsn: 5,
            mode: ExecMode::Bit64,
            speculative: true,
            truncated: false,
            asid: Asid::new(Some(1), None),
        }
    );
}
