use nullex::uspi::dwhci::{
    dwhci_core_hw_cfg2_num_host_channels, dwhci_core_hw_cfg3_dfifo_depth, dwhci_core_nper_tx_stat_queue_space_avl,
    dwhci_host_chan_character, dwhci_host_chan_int, dwhci_host_frm_num_number, dwhci_host_port_speed,
    ARM_USB_HOST_BASE,
};
use nullex::uspi::frame_scheduler::{
    TDWHCIFrameScheduler, TDWHCIFrameSchedulerNoSplit, TDWHCIFrameSchedulerNonPeriodic, TDWHCIFrameSchedulerPeriodic,
    TFrameSchedulerState, ACK, NAK, NYET, XFER_COMPLETE,
};
use nullex::uspi::model::RaspberryPiModel;
use nullex::uspi::register::TDWHCIRegister;
use nullex::uspi::synchronize::{
    uspi_clean_and_invalidate_data_cache_range, uspi_enter_critical, uspi_leave_critical, CriticalState,
};

#[test]
fn non_periodic_split_sequence() {
    let mut s = TDWHCIFrameSchedulerNonPeriodic::new();
    assert_eq!(s.state, TFrameSchedulerState::StateUnknown);
    s.start_split();
    assert_eq!(s.state, TFrameSchedulerState::StateStartSplit);
    assert_eq!(s.transaction_complete(ACK), 0);
    assert_eq!(s.state, TFrameSchedulerState::StateStartSplitComplete);
    assert_eq!(s.complete_split(), (true, 0));
    assert_eq!(s.tries, 3);
    s.state = TFrameSchedulerState::StateCompleteSplit;
    assert_eq!(s.transaction_complete(NYET), 0);
    assert_eq!(s.state, TFrameSchedulerState::StateCompleteRetry);
    assert_eq!(s.complete_split(), (true, 625));
    assert_eq!(s.transaction_complete(XFER_COMPLETE), 0);
    assert_eq!(s.state, TFrameSchedulerState::StateStartSplitComplete);
    assert_eq!(s.wait_for_frame(0x1234), None);
    assert!(!s.is_odd_frame());
}

#[test]
fn non_periodic_last_try_fails() {
    let mut s = TDWHCIFrameSchedulerNonPeriodic { state: TFrameSchedulerState::StateCompleteRetry, tries: 1 };
    assert_eq!(s.transaction_complete(NAK), 625);
    assert_eq!(s.state, TFrameSchedulerState::StateCompleteSplitFailed);
    assert_eq!(s.complete_split(), (false, 0));
}

#[test]
fn periodic_frames() {
    let mut s = TDWHCIFrameSchedulerPeriodic::new();
    assert_eq!(s.wait_for_frame(0x0005), Some(7));
    assert!(s.is_odd_frame());
    assert_eq!(s.wait_for_frame(0x0000), Some(7));
    s.start_split();
    assert_eq!(s.wait_for_frame(0x0002), Some(3));
    assert_eq!(s.transaction_complete(ACK), 0);
    assert_eq!(s.complete_split(), (true, 0));
    assert_eq!(s.tries, 3);
    assert_eq!(s.next_frame, 5);
    s.state = TFrameSchedulerState::StateCompleteSplit;
    assert_eq!(s.transaction_complete(NYET), 0);
    assert_eq!(s.state, TFrameSchedulerState::StateCompleteRetry);
    assert_eq!(s.tries, 2);
    assert_eq!(s.complete_split(), (true, 0));
    assert_eq!(s.next_frame, 6);
    assert_eq!(s.transaction_complete(NAK), 625);
    assert_eq!(s.state, TFrameSchedulerState::StateCompleteSplitFailed);
}

#[test]
fn periodic_start_split_complete_from_frame_five() {
    let mut s = TDWHCIFrameSchedulerPeriodic {
        state: TFrameSchedulerState::StateStartSplitComplete,
        tries: 0,
        next_frame: 5,
    };
    assert_eq!(s.complete_split(), (true, 0));
    assert_eq!(s.tries, 2);
    assert_eq!(s.next_frame, 7);
    let mut t = TDWHCIFrameSchedulerPeriodic { state: TFrameSchedulerState::StateCompleteRetry, tries: 0, next_frame: 1 };
    assert_eq!(t.transaction_complete(ACK), 1000);
    assert_eq!(t.state, TFrameSchedulerState::StateCompleteSplitFailed);
}

#[test]
fn no_split_frames() {
    let mut p = TDWHCIFrameSchedulerNoSplit::new(true);
    assert_eq!(p.wait_for_frame(0xABCD_0010), Some(0x11));
    assert!(p.is_odd_frame());
    assert_eq!(p.wait_for_frame(0xFFFF), Some(0));
    let mut n = TDWHCIFrameSchedulerNoSplit::new(false);
    assert_eq!(n.wait_for_frame(0x0001), None);
    assert_eq!(n.next_frame, 2);
    assert!(!n.is_odd_frame());
}

#[test]
fn cached_register() {
    let mut r = TDWHCIRegister::new(0x1000);
    assert!(!r.valid);
    r.set(0xF0);
    assert_eq!(r.get(), 0xF0);
    assert!(r.is_set(0x10));
    assert!(!r.is_set(0x01));
    r.or(0x01);
    r.and(0x11);
    assert_eq!(r.get(), 0x11);
    r.set_bit(8);
    r.clear_bit(0);
    assert_eq!(r.get(), 0x110);
    r.clear_all();
    assert_eq!(r.get(), 0);
    r.set_all();
    assert_eq!(r.get(), u32::MAX);
    r.invalidate();
    assert!(!r.valid);
    let w = TDWHCIRegister::with_value(0x2000, 7);
    assert!(w.valid);
    assert_eq!(w.buffer, 7);
}

#[test]
fn board_models() {
    assert_eq!(RaspberryPiModel::try_from(0u32), Ok(RaspberryPiModel::ModelA));
    assert_eq!(RaspberryPiModel::try_from(8u32), Ok(RaspberryPiModel::Pi3ModelB));
    assert!(RaspberryPiModel::try_from(99u32).is_err());
    assert!(RaspberryPiModel::ModelBPlus.is_rpi1());
    assert!(RaspberryPiModel::Pi2ModelA.is_rpi2());
    assert!(RaspberryPiModel::Pi3ModelBPlus.is_rpi3());
    assert!(RaspberryPiModel::PiZeroW.is_zero());
    assert!(RaspberryPiModel::ComputeModule3.is_compute_module());
    assert!(!RaspberryPiModel::PiZero.is_rpi1());
}

#[test]
fn register_fields() {
    assert_eq!(dwhci_core_nper_tx_stat_queue_space_avl(0x00AB_0000), 0xAB);
    assert_eq!(dwhci_core_hw_cfg2_num_host_channels(0x7 << 14), 8);
    assert_eq!(dwhci_core_hw_cfg3_dfifo_depth(0x1000_0000), 0x1000);
    assert_eq!(dwhci_host_frm_num_number(0xABCD_1234), 0x1234);
    assert_eq!(dwhci_host_port_speed(2 << 17), 2);
    assert_eq!(dwhci_host_chan_character(0), ARM_USB_HOST_BASE + 0x100);
    assert_eq!(dwhci_host_chan_int(1), ARM_USB_HOST_BASE + 0x108 + 0x20);
}

#[test]
fn nested_critical_sections() {
    let mut s = CriticalState::new();
    uspi_enter_critical(&mut s, 0x00);
    uspi_enter_critical(&mut s, 0x80);
    assert_eq!(s.level, 2);
    assert!(s.were_enabled);
    assert!(!uspi_leave_critical(&mut s));
    assert!(uspi_leave_critical(&mut s));
    assert_eq!(s.level, 0);
    uspi_enter_critical(&mut s, 0x80);
    assert!(!s.were_enabled);
    assert!(!uspi_leave_critical(&mut s));
}

#[test]
fn cache_line_walk() {
    assert_eq!(uspi_clean_and_invalidate_data_cache_range(0x1000, 100, 64), vec![0x1000, 0x1040]);
    assert_eq!(uspi_clean_and_invalidate_data_cache_range(0x1000, 128, 64), vec![0x1000, 0x1040, 0x1080]);
    assert_eq!(uspi_clean_and_invalidate_data_cache_range(0x2000, 0, 32), vec![0x2000]);
}
