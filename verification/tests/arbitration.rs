use nfc::HwAction;
use nfc::NfcDriver;
use nfc::Notification;
use nfc::ReturnCode;
use nfc::MAX_LENGTH;

fn fresh_driver() -> NfcDriver {
    NfcDriver::new(vec![0u8; MAX_LENGTH], vec![0u8; MAX_LENGTH])
}

#[test]
fn new_driver_is_idle() {
    let d = fresh_driver();
    assert!(!d.driver_selected);
    assert_eq!(d.tx_in_progress, None);
    assert_eq!(d.rx_in_progress, None);
    assert!(d.tx_buffer.is_some());
    assert!(d.rx_buffer.is_some());
}

#[test]
fn probe_always_succeeds() {
    let mut d = fresh_driver();
    let (code, action) = d.command(0, 0, 1);
    assert_eq!(code, ReturnCode::Success);
    assert_eq!(action, None);
}

#[test]
fn unknown_selectors_not_supported() {
    let mut d = fresh_driver();
    assert_eq!(d.allow(1, 0, None), ReturnCode::ENoSupport);
    assert_eq!(d.allow(1, 3, Some(vec![0u8; 8])), ReturnCode::ENoSupport);
    assert_eq!(d.subscribe(0, Some(1), 1), ReturnCode::ENoSupport);
    assert_eq!(d.subscribe(3, Some(1), 1), ReturnCode::ENoSupport);
    let (code, action) = d.command(5, 0, 1);
    assert_eq!(code, ReturnCode::ENoSupport);
    assert_eq!(action, None);
}

#[test]
fn tag_selected_relaxes_frame_delay() {
    let mut d = fresh_driver();
    let action = d.tag_selected();
    assert_eq!(action, HwAction::SetFrameDelayMax(0xfffff));
    assert!(d.driver_selected);
}

#[test]
fn allow_tx_accepts_up_to_max() {
    let mut d = fresh_driver();
    assert_eq!(d.allow(1, 1, Some(vec![1u8; MAX_LENGTH])), ReturnCode::Success);
    assert_eq!(d.allow(1, 1, Some(Vec::new())), ReturnCode::Success);
    assert_eq!(d.allow(1, 1, None), ReturnCode::Success);
}

#[test]
fn allow_tx_oversized_rejected_and_region_kept() {
    let mut d = fresh_driver();
    assert_eq!(d.allow(1, 1, Some(vec![7u8; 50])), ReturnCode::Success);
    // one byte over the limit
    assert_eq!(d.allow(1, 1, Some(vec![0u8; 257])), ReturnCode::EInval);
    // the earlier 50-byte region is still registered and is what gets sent
    d.tag_selected();
    let (code, action) = d.command(1, 50, 1);
    assert_eq!(code, ReturnCode::Success);
    match action {
        Some(HwAction::TransmitBuffer(buf, len)) => {
            assert_eq!(len, 50);
            assert_eq!(buf.len(), MAX_LENGTH);
            assert_eq!(&buf[..50], &[7u8; 50][..]);
        }
        other => panic!("expected a transmit submission, got {:?}", other),
    }
}

#[test]
fn allow_rx_wrong_size_rejected() {
    let mut d = fresh_driver();
    assert_eq!(d.allow(1, 2, Some(vec![0u8; 255])), ReturnCode::EInval);
    assert_eq!(d.allow(1, 2, Some(vec![0u8; 257])), ReturnCode::EInval);
    assert_eq!(d.allow(1, 2, Some(vec![0u8; 256])), ReturnCode::Success);
}

#[test]
fn transmit_while_not_selected_fails_off() {
    let mut d = fresh_driver();
    assert_eq!(d.allow(1, 1, Some(vec![9u8; 10])), ReturnCode::Success);
    let (code, action) = d.command(1, 10, 1);
    assert_eq!(code, ReturnCode::EOff);
    // no copy, no submission
    assert_eq!(action, None);
    assert_eq!(d.tx_in_progress, None);
}

#[test]
fn transmit_without_region_busy() {
    let mut d = fresh_driver();
    d.tag_selected();
    let (code, action) = d.command(1, 5, 1);
    assert_eq!(code, ReturnCode::EBusy);
    assert_eq!(action, None);
}

#[test]
fn field_lost_turns_interface_off() {
    let mut d = fresh_driver();
    d.tag_selected();
    d.field_lost();
    assert_eq!(d.allow(1, 1, Some(vec![9u8; 10])), ReturnCode::Success);
    let (code, _) = d.command(1, 10, 1);
    assert_eq!(code, ReturnCode::EOff);
}

#[test]
fn field_detected_is_a_pure_hook() {
    let d = fresh_driver();
    d.field_detected();
    assert!(!d.driver_selected);
}

#[test]
fn receive_while_not_selected_fails_off() {
    let mut d = fresh_driver();
    assert_eq!(d.allow(1, 2, Some(vec![0u8; 256])), ReturnCode::Success);
    let (code, action) = d.command(2, 256, 1);
    assert_eq!(code, ReturnCode::EOff);
    assert_eq!(action, None);
}

#[test]
fn receive_without_region_invalid() {
    let mut d = fresh_driver();
    d.tag_selected();
    let (code, action) = d.command(2, 256, 1);
    assert_eq!(code, ReturnCode::EInval);
    assert_eq!(action, None);
}

#[test]
fn receive_busy_while_in_flight() {
    let mut d = fresh_driver();
    d.tag_selected();
    assert_eq!(d.allow(1, 2, Some(vec![0u8; 256])), ReturnCode::Success);
    let (code, action) = d.command(2, 256, 1);
    assert_eq!(code, ReturnCode::Success);
    assert!(matches!(action, Some(HwAction::ReceiveBuffer(_))));
    assert_eq!(d.rx_in_progress, Some(1));
    // a second process cannot start a receive while one is in flight
    assert_eq!(d.allow(2, 2, Some(vec![0u8; 256])), ReturnCode::Success);
    let (code2, action2) = d.command(2, 256, 2);
    assert_eq!(code2, ReturnCode::EBusy);
    assert_eq!(action2, None);
    assert_eq!(d.rx_in_progress, Some(1));
}

#[test]
fn receive_truncates_long_frame() {
    let mut d = fresh_driver();
    d.tag_selected();
    assert_eq!(d.subscribe(2, Some(4), 1), ReturnCode::Success);
    assert_eq!(d.allow(1, 2, Some(vec![0u8; 256])), ReturnCode::Success);
    let (code, action) = d.command(2, 256, 1);
    assert_eq!(code, ReturnCode::Success);
    let hw = match action {
        Some(HwAction::ReceiveBuffer(buf)) => buf,
        other => panic!("expected a receive submission, got {:?}", other),
    };
    // the hardware reports more bytes than the process region holds:
    // exactly the region's 256 bytes are copied
    let n = d.frame_received(hw, 300, ReturnCode::Success);
    assert_eq!(
        n,
        Some(Notification {
            process: 1,
            callback: 4,
            result: ReturnCode::Success,
            arg2: 256,
            arg3: 0,
        })
    );
    assert_eq!(d.rx_in_progress, None);
    assert!(d.rx_buffer.is_some());
}

#[test]
fn receive_reports_short_frame_length() {
    let mut d = fresh_driver();
    d.tag_selected();
    assert_eq!(d.subscribe(2, Some(4), 1), ReturnCode::Success);
    assert_eq!(d.allow(1, 2, Some(vec![0u8; 256])), ReturnCode::Success);
    let (_, action) = d.command(2, 256, 1);
    let hw = match action {
        Some(HwAction::ReceiveBuffer(buf)) => buf,
        other => panic!("expected a receive submission, got {:?}", other),
    };
    let n = d.frame_received(hw, 10, ReturnCode::Success);
    assert_eq!(
        n,
        Some(Notification {
            process: 1,
            callback: 4,
            result: ReturnCode::Success,
            arg2: 10,
            arg3: 0,
        })
    );
}

#[test]
fn receive_completion_after_unregistering_region() {
    let mut d = fresh_driver();
    d.tag_selected();
    assert_eq!(d.subscribe(2, Some(4), 1), ReturnCode::Success);
    assert_eq!(d.allow(1, 2, Some(vec![0u8; 256])), ReturnCode::Success);
    let (_, action) = d.command(2, 256, 1);
    let hw = match action {
        Some(HwAction::ReceiveBuffer(buf)) => buf,
        other => panic!("expected a receive submission, got {:?}", other),
    };
    // the process withdraws its region while the receive is in flight:
    // the buffer still comes home and the slot clears, but nothing is
    // copied and no callback fires
    assert_eq!(d.allow(1, 2, None), ReturnCode::Success);
    let n = d.frame_received(hw, 10, ReturnCode::Success);
    assert_eq!(n, None);
    assert_eq!(d.rx_in_progress, None);
    assert!(d.rx_buffer.is_some());
}

#[test]
fn transmit_scenario_completes_once() {
    // process 1 registers a 50-byte transmit region and a callback, the
    // tag is selected, the transmit is issued and later completes: the
    // callback fires once with (ok, 0, 0) and the slot is empty afterwards
    let mut d = fresh_driver();
    assert_eq!(d.allow(1, 1, Some(vec![5u8; 50])), ReturnCode::Success);
    assert_eq!(d.subscribe(1, Some(9), 1), ReturnCode::Success);
    d.tag_selected();
    let (code, action) = d.command(1, 50, 1);
    assert_eq!(code, ReturnCode::Success);
    assert_eq!(d.tx_in_progress, Some(1));
    let (hw, len) = match action {
        Some(HwAction::TransmitBuffer(buf, len)) => (buf, len),
        other => panic!("expected a transmit submission, got {:?}", other),
    };
    assert_eq!(len, 50);
    assert_eq!(&hw[..50], &[5u8; 50][..]);
    let n = d.frame_transmitted(hw, ReturnCode::Success);
    assert_eq!(
        n,
        Some(Notification {
            process: 1,
            callback: 9,
            result: ReturnCode::Success,
            arg2: 0,
            arg3: 0,
        })
    );
    assert_eq!(d.tx_in_progress, None);
    assert!(d.tx_buffer.is_some());
}

#[test]
fn transmit_completion_without_callback_is_silent() {
    let mut d = fresh_driver();
    assert_eq!(d.allow(1, 1, Some(vec![5u8; 8])), ReturnCode::Success);
    d.tag_selected();
    let (_, action) = d.command(1, 8, 1);
    let hw = match action {
        Some(HwAction::TransmitBuffer(buf, _)) => buf,
        other => panic!("expected a transmit submission, got {:?}", other),
    };
    let n = d.frame_transmitted(hw, ReturnCode::Success);
    assert_eq!(n, None);
    assert_eq!(d.tx_in_progress, None);
}

#[test]
fn deferred_transmit_is_retained_for_retry() {
    let mut d = fresh_driver();
    d.tag_selected();
    assert_eq!(d.allow(1, 1, Some(vec![1u8; 4])), ReturnCode::Success);
    assert_eq!(d.subscribe(1, Some(2), 1), ReturnCode::Success);
    let (code, action) = d.command(1, 4, 1);
    assert_eq!(code, ReturnCode::Success);
    assert!(action.is_some());
    // process 2 asks while process 1's transmit is in flight: the syscall
    // still reports success, but nothing is submitted and the region is
    // retained on the record for a future attempt
    assert_eq!(d.allow(2, 1, Some(vec![3u8; 4])), ReturnCode::Success);
    assert_eq!(d.subscribe(1, Some(6), 2), ReturnCode::Success);
    let (code2, action2) = d.command(1, 4, 2);
    assert_eq!(code2, ReturnCode::Success);
    assert_eq!(action2, None);
    assert_eq!(d.tx_in_progress, Some(1));
    // after the first completion the retained region can really be sent
    let hw = match action {
        Some(HwAction::TransmitBuffer(buf, _)) => buf,
        other => panic!("expected a transmit submission, got {:?}", other),
    };
    // the completion goes to process 1, recorded at start time, although
    // process 2 also holds a transmit callback
    let n = d.frame_transmitted(hw, ReturnCode::Success);
    assert_eq!(
        n,
        Some(Notification {
            process: 1,
            callback: 2,
            result: ReturnCode::Success,
            arg2: 0,
            arg3: 0,
        })
    );
    let (code3, action3) = d.command(1, 4, 2);
    assert_eq!(code3, ReturnCode::Success);
    match action3 {
        Some(HwAction::TransmitBuffer(buf, len)) => {
            assert_eq!(len, 4);
            assert_eq!(&buf[..4], &[3u8; 4][..]);
        }
        other => panic!("expected a transmit submission, got {:?}", other),
    }
    assert_eq!(d.tx_in_progress, Some(2));
}

#[test]
fn transmit_region_consumed_by_submission() {
    let mut d = fresh_driver();
    d.tag_selected();
    assert_eq!(d.allow(1, 1, Some(vec![1u8; 4])), ReturnCode::Success);
    let (code, action) = d.command(1, 4, 1);
    assert_eq!(code, ReturnCode::Success);
    let hw = match action {
        Some(HwAction::TransmitBuffer(buf, _)) => buf,
        other => panic!("expected a transmit submission, got {:?}", other),
    };
    d.frame_transmitted(hw, ReturnCode::Success);
    // the region went out with the submission and was not re-registered
    let (code2, action2) = d.command(1, 4, 1);
    assert_eq!(code2, ReturnCode::EBusy);
    assert_eq!(action2, None);
}

#[test]
fn emulation_toggle_and_configuration() {
    let mut d = fresh_driver();
    let (code, action) = d.command(3, 0, 1);
    assert_eq!(code, ReturnCode::Success);
    assert_eq!(action, Some(HwAction::Deactivate));
    let (code, action) = d.command(3, 1, 1);
    assert_eq!(code, ReturnCode::Success);
    assert_eq!(action, Some(HwAction::Activate));
    // any non-zero argument enables emulation
    let (_, action) = d.command(3, 256, 1);
    assert_eq!(action, Some(HwAction::Activate));
    let (code, action) = d.command(4, 0x1ff, 1);
    assert_eq!(code, ReturnCode::Success);
    assert_eq!(action, Some(HwAction::Configure(0xff)));
}
