use lib::hil_can::{CanId, CanError, CanState, CanController, CanFilter, CanRequests, FilterParameters, Frame, raw_id, is_extended};
use lib::mcan::{encode_tx_element, decode_rx_element, lec_error, find_free_tx_buf, is_controller_state, MessageRam, Mcan, McanAction, MCAN1_BASE, init_wait, InitWait, INIT_POLLS};
use lib::virtual_can::{Subscription, covering_filter, MuxCan, MuxSubscriber, CanDevice, ClientCallback, Pending};
use lib::can_capsule::{CanCapsule, Subscribe, build_chunk, subscription_matches, App, Upcall, UPCALL_ENABLE, UPCALL_TRANSMISSION_ERROR, ERROR_TX, MAX_APP_SUBSCRIPTIONS, MIN_RX_BUFFER};
use lib::error::{CommandReturn, ErrorCode};

#[test]
fn identifiers() {
    assert_eq!(raw_id(CanId::Standard(0x123)), 0x123);
    assert_eq!(raw_id(CanId::Extended(0x1ABC_DEF0)), 0x1ABC_DEF0);
    assert!(is_extended(CanId::Extended(1)));
    assert!(!is_extended(CanId::Standard(1)));
}

#[test]
fn tx_element_layout() {
    let data: Frame = [1, 2, 3, 4, 5, 6, 7, 8];
    let w = encode_tx_element(CanId::Standard(0x123), &data, 3);
    assert_eq!(w, [0x123 << 18, 3 << 16, 0x0003_0201, 0]);
    let w = encode_tx_element(CanId::Extended(0x1ABC_DEF0), &data, 12);
    assert_eq!(w, [0x1ABC_DEF0 | (1 << 30), 8 << 16, 0x0403_0201, 0x0807_0605]);
}

#[test]
fn rx_element_decodes() {
    let (id, data, len) = decode_rx_element(&[0x123 << 18, 2 << 16, 0x0000_BBAA, 0]);
    assert_eq!(id, CanId::Standard(0x123));
    assert_eq!(len, 2);
    assert_eq!(&data[..2], &[0xAA, 0xBB]);
    let (id, _, len) = decode_rx_element(&[(1 << 30) | 0x1234_5678, 15 << 16, 0, 0]);
    assert_eq!(id, CanId::Extended(0x1234_5678));
    assert_eq!(len, 8);
}

#[test]
fn bus_error_codes() {
    assert_eq!(lec_error(1), CanError::Stuff);
    assert_eq!(lec_error(3), CanError::Ack);
    assert_eq!(lec_error(6), CanError::Crc);
    assert_eq!(lec_error(7), CanError::SetBySoftware);
    assert!(is_controller_state(CanError::BusOff));
    assert!(is_controller_state(CanError::Warning));
    assert!(!is_controller_state(CanError::Crc));
    assert_eq!(CanError::Passive.number(), 8);
}

#[test]
fn free_transmit_buffer() {
    assert_eq!(find_free_tx_buf(0), Some(0));
    assert_eq!(find_free_tx_buf(0b0111), Some(3));
    assert_eq!(find_free_tx_buf(0b1111), None);
    assert_eq!(find_free_tx_buf(0b1101), Some(1));
}

#[test]
fn mcan_starts_disabled() {
    let ram = MessageRam::new();
    assert_eq!(ram.words.len(), 60);
    assert_eq!(std::mem::size_of::<MessageRam>(), 240);
    let m = Mcan::new_mcan1(&ram, 0x2040_0100);
    assert_eq!(m.regs_base, MCAN1_BASE);
    assert_eq!(m.msg_ram_base, 0x2040_0100);
    assert!(m.get_bit_timing().is_err());
    assert_eq!(m.get_state(), Ok(CanState::Disabled));
}

#[test]
fn subscription_masks_select_identifiers() {
    let exact = Subscription { id: CanId::Standard(0x7E0), mask: 0xFFFF_FFFF };
    assert!(exact.matches(CanId::Standard(0x7E0)));
    assert!(!exact.matches(CanId::Standard(0x7E1)));
    assert!(!exact.matches(CanId::Extended(0x7E0)));
    let range = Subscription { id: CanId::Standard(0x700), mask: 0x700 };
    assert!(range.matches(CanId::Standard(0x7FF)));
    assert!(!range.matches(CanId::Standard(0x6FF)));
    let all = Subscription { id: CanId::Extended(0), mask: 0 };
    assert!(all.matches(CanId::Extended(0x1FFF_FFFF)));
    assert!(!all.matches(CanId::Standard(1)));
    assert!(subscription_matches(&range, CanId::Standard(0x701)));
}

#[test]
fn covering_filter_keeps_shared_bits() {
    let subs = [
        Subscription { id: CanId::Standard(0x7E0), mask: 0x7FF },
        Subscription { id: CanId::Standard(0x7E8), mask: 0x7FF },
    ];
    let c = covering_filter(&subs).unwrap();
    assert_eq!(c.mask, 0x7F7);
    assert!(c.matches(CanId::Standard(0x7E0)));
    assert!(c.matches(CanId::Standard(0x7E8)));
    assert!(covering_filter(&[]).is_none());
}

#[test]
fn chunk_layout() {
    let chunk = build_chunk(CanId::Extended(0x1234_5678), &[9, 8, 7, 6, 5, 4, 3, 2], 11);
    assert_eq!(chunk, [0x78, 0x56, 0x34, 0x12, 8, 1, 0, 0, 9, 8, 7, 6, 5, 4, 3, 2]);
    let chunk = build_chunk(CanId::Standard(0x123), &[0; 8], 2);
    assert_eq!(&chunk[..8], &[0x23, 0x01, 0, 0, 2, 0, 0, 0]);
}

/// A controller that accepts everything, with a number of filter slots.
#[derive(Debug)]
struct Bench {
    slots: usize,
    sent: Vec<(CanId, usize)>,
    filters: Vec<FilterParameters>,
    disabled: Vec<u32>,
    calls: Vec<&'static str>,
}

impl Bench {
    fn new(slots: usize) -> Bench {
        Bench { slots, sent: Vec::new(), filters: Vec::new(), disabled: Vec::new(), calls: Vec::new() }
    }
}

impl CanRequests for Bench {}

impl CanController for Bench {
    fn enable(&mut self) -> Result<(), ErrorCode> {
        Ok(())
    }

    fn disable(&mut self) -> Result<(), ErrorCode> {
        self.calls.push("disable");
        Ok(())
    }

    fn send(&mut self, id: CanId, _buffer: Frame, len: usize) -> Result<(), (ErrorCode, Frame)> {
        self.sent.push((id, len));
        Ok(())
    }

    fn start_receive_process(&mut self, _buffer: Frame) -> Result<(), (ErrorCode, Frame)> {
        self.calls.push("start_receive");
        Ok(())
    }

    fn stop_receive(&mut self) -> Result<(), ErrorCode> {
        self.calls.push("stop_receive");
        Ok(())
    }
}

impl CanFilter for Bench {
    fn enable_filter(&mut self, filter: FilterParameters) -> Result<(), ErrorCode> {
        self.filters.push(filter);
        Ok(())
    }

    fn disable_filter(&mut self, number: u32) -> Result<(), ErrorCode> {
        self.disabled.push(number);
        Ok(())
    }

    fn filter_count(&self) -> usize {
        self.slots
    }
}

#[test]
fn mux_delivers_only_to_subscribed_devices() {
    let mut mux = MuxCan::new(Bench::new(4), [0; 8]);
    let a = mux.add_device();
    let b = mux.add_device();
    mux.set_receive_client(a, true);
    mux.set_receive_client(b, true);
    assert_eq!(mux.subscribe(a, CanId::Standard(0x100), 0x7FF), Ok(()));
    assert!(mux.start_receive_process(a, [0; 8]).is_ok());
    assert!(mux.start_receive_process(b, [0; 8]).is_ok());
    mux.events.clear();
    mux.message_received(CanId::Standard(0x100), [1; 8], 8, Ok(()));
    assert_eq!(mux.events.len(), 1);
    assert_eq!(mux.events[0].device, a);
    assert!(matches!(mux.events[0].callback, ClientCallback::MessageReceived(CanId::Standard(0x100), _, 8, Ok(()))));
    mux.events.clear();
    mux.message_received(CanId::Standard(0x101), [1; 8], 8, Ok(()));
    assert!(mux.events.is_empty());
    assert!(mux.device_matches(a, CanId::Standard(0x100)));
    assert!(!mux.device_matches(b, CanId::Standard(0x100)));
}

#[test]
fn mux_subscriptions_are_bounded() {
    let mut mux = MuxCan::new(Bench::new(4), [0; 8]);
    let a = mux.add_device();
    for i in 0..4u16 {
        assert_eq!(mux.subscribe(a, CanId::Standard(i), 0x7FF), Ok(()));
    }
    assert_eq!(mux.subscribe(a, CanId::Standard(9), 0x7FF), Err(ErrorCode::NOMEM));
    mux.clear_subscriptions(a);
    assert!(!mux.device_matches(a, CanId::Standard(1)));
    let d = CanDevice::new();
    assert!(!d.matches(CanId::Standard(0)));
}

#[test]
fn mux_rotates_transmissions() {
    let mut mux = MuxCan::new(Bench::new(4), [0; 8]);
    let a = mux.add_device();
    let b = mux.add_device();
    mux.set_transmit_client(a, true);
    mux.set_transmit_client(b, true);
    assert!(mux.enable(a).is_ok());
    mux.enabled(Ok(()));
    assert!(mux.send(a, CanId::Standard(1), [0; 8], 1).is_ok());
    assert!(mux.send(b, CanId::Standard(2), [0; 8], 2).is_ok());
    assert_eq!(mux.can.sent, vec![(CanId::Standard(1), 1)]);
    mux.transmit_complete(Ok(()), [0; 8]);
    assert_eq!(mux.can.sent, vec![(CanId::Standard(1), 1), (CanId::Standard(2), 2)]);
}

/// A lower layer that remembers subscriptions.
struct Tracker {
    subs: Vec<(CanId, u32)>,
    capacity: usize,
}

impl Subscribe for Tracker {
    fn subscribe(&mut self, id: CanId, mask: u32) -> Result<(), ErrorCode> {
        self.subs.push((id, mask));
        Ok(())
    }

    fn clear_subscriptions(&mut self) {
        self.subs.clear();
    }

    fn subscription_capacity(&self) -> usize {
        self.capacity
    }
}

fn capsule() -> CanCapsule<Bench, Tracker> {
    CanCapsule::new(Bench::new(4), Some(Tracker { subs: Vec::new(), capacity: 4 }), [0; 8], [0; 8])
}

#[test]
fn capsule_commands_basics() {
    let mut c = capsule();
    let p = c.allocate_grant();
    assert_eq!(c.command(0, 0, 0, p, &[], 0), CommandReturn::Success);
    assert_eq!(c.command(13, 0, 0, p, &[], 0), CommandReturn::SuccessU32(MAX_APP_SUBSCRIPTIONS as u32));
    assert_eq!(c.command(1, 0, 0, p, &[], 0), CommandReturn::Failure(ErrorCode::NOSUPPORT));
    assert_eq!(c.command(3, 0, 0, p, &[], 0), CommandReturn::Success);
    assert_eq!(c.command(3, 0, 0, p, &[], 0), CommandReturn::Failure(ErrorCode::ALREADY));
}

#[test]
fn capsule_reception_is_opt_in() {
    let mut c = capsule();
    let p = c.allocate_grant();
    let q = c.allocate_grant();
    assert_eq!(c.command(10, 0x7E8, 0x7FF, p, &[], 0), CommandReturn::Success);
    assert_eq!(c.subscriber.as_ref().unwrap().subs, vec![(CanId::Standard(0x7E8), 0x7FF)]);
    c.processes[p].receiving = true;
    c.processes[q].receiving = true;
    let d = c.message_received(CanId::Standard(0x7E8), &[1, 2, 3, 4, 5, 6, 7, 8], 8, Ok(()));
    assert_eq!(d.len(), 1);
    assert_eq!(d[0].process, p);
    assert_eq!(d[0].raw_id, 0x7E8);
    let d = c.message_received(CanId::Standard(0x7E9), &[0; 8], 8, Ok(()));
    assert!(d.is_empty());
    assert!(c.app_accepts(p, CanId::Standard(0x7E8)));
    assert!(!c.app_accepts(q, CanId::Standard(0x7E8)));
    assert_eq!(c.command(12, 0, 0, p, &[], 0), CommandReturn::Success);
    assert!(!c.app_accepts(p, CanId::Standard(0x7E8)));
}

#[test]
fn capsule_enable_completion_upcall() {
    let mut c = capsule();
    let p = c.allocate_grant();
    assert_eq!(c.command(3, 0, 0, p, &[], 0), CommandReturn::Success);
    c.state_changed(CanState::Running);
    c.enabled(Ok(()));
    assert!(c.upcalls.iter().any(|u: &Upcall| u.process == p && u.number == UPCALL_ENABLE));
    let fresh = App::default();
    assert!(!fresh.enabled && !fresh.receiving);
}

#[test]
fn mux_deferred_enable_is_delivered() {
    let mut mux = MuxCan::new(Bench::new(4), [0; 8]);
    let a = mux.add_device();
    let b = mux.add_device();
    mux.set_controller_client(a, true);
    mux.set_controller_client(b, true);
    assert!(mux.enable(a).is_ok());
    mux.enabled(Ok(()));
    mux.events.clear();
    assert!(mux.enable(b).is_ok());
    assert!(mux.deferred_call);
    assert!(mux.events.is_empty());
    mux.handle_deferred_call();
    assert_eq!(mux.events.len(), 1);
    assert_eq!(mux.events[0].device, b);
    assert!(matches!(mux.events[0].callback, ClientCallback::Enabled(Ok(()))));
    assert!(!mux.devices[b].pending_deferred);
    assert_eq!(mux.devices[b].pending, Pending::Idle);
    assert!(!mux.deferred_call);
    mux.handle_deferred_call();
    assert_eq!(mux.events.len(), 1);
}

#[test]
fn mux_places_each_subscription_in_its_own_slot() {
    let mut mux = MuxCan::new(Bench::new(4), [0; 8]);
    let mut used: u32 = 0b0001;
    assert!(mux.place_all(&[], &mut used, 4));
    assert_eq!(used, 0b0001);
    let subs = [
        Subscription { id: CanId::Standard(1), mask: 0x7FF },
        Subscription { id: CanId::Standard(2), mask: 0x7FF },
    ];
    assert!(mux.place_all(&subs, &mut used, 4));
    assert_eq!(used, 0b0111);
    assert_eq!(mux.can.filters.len(), 2);
    let mut full: u32 = 0b1111;
    assert!(!mux.place_all(&subs, &mut full, 4));
    assert_eq!(full, 0b1111);
}

#[test]
fn capsule_refused_frame_is_reported_and_next_goes_out() {
    let mut c = capsule();
    let p = c.allocate_grant();
    let q = c.allocate_grant();
    c.processes[p].tx_pending = Some((CanId::Standard(1), 9, [0; 8]));
    c.processes[q].tx_pending = Some((CanId::Standard(2), 2, [0; 8]));
    let before = c.upcalls.len();
    c.next_transmission();
    assert_eq!(c.tx_inflight, Some(q));
    assert!(c.processes[p].tx_pending.is_none());
    assert!(c.processes[q].tx_pending.is_none());
    assert_eq!(c.upcalls.len(), before + 1);
    let u = c.upcalls[before];
    assert_eq!(u.process, p);
    assert_eq!(u.number, UPCALL_TRANSMISSION_ERROR);
    assert_eq!(u.arg0, ERROR_TX);
    assert_eq!(u.arg1, ErrorCode::SIZE.number());
    assert_eq!(c.can.sent, vec![(CanId::Standard(2), 2)]);
}

#[test]
fn mcan_rx_fifo_drains_until_empty() {
    let ram = MessageRam::new();
    let mut m = Mcan::new_mcan1(&ram, 0x2040_0100);
    m.receive_client = true;
    let element = [0x123 << 18, 1 << 16, 0x55, 0];
    assert_eq!(m.handle_rx_fifo0(0x0300, &element), None);
    assert!(m.actions.is_empty());
    assert_eq!(m.handle_rx_fifo0(0x0302, &element), Some(3));
    assert_eq!(m.actions.len(), 1);
    assert!(matches!(m.actions[0], McanAction::Callback(ClientCallback::MessageReceived(CanId::Standard(0x123), _, 1, Ok(())))));
}

#[test]
fn mux_programs_filters_and_disables_stale_slots() {
    let mut mux = MuxCan::new(Bench::new(4), [0; 8]);
    let a = mux.add_device();
    assert_eq!(mux.subscribe(a, CanId::Standard(0x10), 0x7FF), Ok(()));
    mux.can.filters.clear();
    mux.can.disabled.clear();
    assert_eq!(mux.subscribe(a, CanId::Extended(0x1234), 0x1FFF_FFFF), Ok(()));
    assert_eq!(mux.can.filters.len(), 2);
    assert_eq!(mux.can.filters[0].number, 0);
    assert_eq!(mux.can.filters[0].id, CanId::Standard(0x10));
    assert_eq!(mux.can.filters[1].number, 1);
    assert_eq!(mux.can.filters[1].id, CanId::Extended(0x1234));
    assert_eq!(mux.can.disabled, vec![2, 3]);
    mux.can.filters.clear();
    mux.can.disabled.clear();
    mux.clear_subscriptions(a);
    assert!(mux.can.filters.is_empty());
    assert_eq!(mux.can.disabled, vec![0, 1, 2, 3]);
}

#[test]
fn capsule_answers_processes_without_state() {
    let mut c = capsule();
    assert_eq!(c.command(1, 500_000, 0, 5, &[], 0), CommandReturn::Failure(ErrorCode::NOSUPPORT));
    assert_eq!(c.command(0, 0, 0, 5, &[], 0), CommandReturn::Success);
    assert_eq!(c.command(13, 0, 0, 5, &[], 0), CommandReturn::SuccessU32(MAX_APP_SUBSCRIPTIONS as u32));
    assert!(c.processes.is_empty());
    assert_eq!(c.command(3, 0, 0, 2, &[], 0), CommandReturn::Success);
    assert_eq!(c.processes.len(), 3);
    assert!(c.processes[2].enabled);
    assert!(!c.processes[0].enabled);
    assert_eq!(c.command(4, 0, 0, usize::MAX, &[], 0), CommandReturn::Failure(ErrorCode::NOMEM));
}

#[test]
fn capsule_resync_clears_then_subscribes() {
    let mut c = capsule();
    let p = c.allocate_grant();
    let q = c.allocate_grant();
    c.subscriber.as_mut().unwrap().subs.push((CanId::Standard(1), 1));
    assert_eq!(c.command(10, 0x100, 0x7FF, p, &[], 0), CommandReturn::Success);
    assert_eq!(c.command(11, 0x2000, 0x1FFF_FFFF, q, &[], 0), CommandReturn::Success);
    assert_eq!(
        c.subscriber.as_ref().unwrap().subs,
        vec![(CanId::Standard(0x100), 0x7FF), (CanId::Extended(0x2000), 0x1FFF_FFFF)]
    );
}

#[test]
fn capsule_resync_falls_back_to_covering_filters() {
    let mut c = capsule();
    let p = c.allocate_grant();
    let q = c.allocate_grant();
    for id in [0x100usize, 0x101, 0x102] {
        assert_eq!(c.command(10, id, 0x7FF, p, &[], 0), CommandReturn::Success);
    }
    assert_eq!(c.command(10, 0x103, 0x7FF, q, &[], 0), CommandReturn::Success);
    assert_eq!(c.subscriber.as_ref().unwrap().subs.len(), 4);
    assert_eq!(c.command(11, 0x2000, 0x1FFF_FFFF, q, &[], 0), CommandReturn::Success);
    let subs = &c.subscriber.as_ref().unwrap().subs;
    assert_eq!(subs.len(), 2);
    assert_eq!(subs[0], (CanId::Standard(0x100), 0x7FC));
    assert_eq!(subs[1], (CanId::Extended(0x2000), 0x1FFF_FFFF));
}

#[test]
fn capsule_send_hands_the_frame_to_the_controller() {
    let mut c = capsule();
    let p = c.allocate_grant();
    assert_eq!(c.command(5, 0x7E0, 3, p, &[1, 2, 3], 0), CommandReturn::Success);
    assert_eq!(c.can.sent, vec![(CanId::Standard(0x7E0), 3)]);
    assert_eq!(c.tx_inflight, Some(p));
}

#[test]
fn capsule_over_a_mux_device_programs_its_filters() {
    let mut mux = MuxCan::new(Bench::new(4), [0; 8]);
    let d = mux.add_device();
    let lower = MuxSubscriber::new(mux, d);
    let mut c: CanCapsule<Bench, MuxSubscriber<Bench>> = CanCapsule::new(Bench::new(4), Some(lower), [0; 8], [0; 8]);
    let p = c.allocate_grant();
    assert_eq!(c.command(10, 0x321, 0x7FF, p, &[], 0), CommandReturn::Success);
    let lower = c.subscriber.as_ref().unwrap();
    assert!(lower.mux.device_matches(d, CanId::Standard(0x321)));
    assert!(!lower.mux.device_matches(d, CanId::Standard(0x322)));
    assert_eq!(lower.mux.can.filters.last().unwrap().id, CanId::Standard(0x321));
    assert_eq!(lower.subscription_capacity(), 4);
}

#[test]
fn capsule_covers_subscriptions_past_the_total_bound() {
    let mut c = CanCapsule::new(Bench::new(4), Some(Tracker { subs: Vec::new(), capacity: 32 }), [0; 8], [0; 8]);
    let mut pids = Vec::new();
    for _ in 0..5 {
        pids.push(c.allocate_grant());
    }
    for k in 0..16usize {
        assert_eq!(c.command(10, 0x100 + k, 0x7FF, pids[k / 4], &[], 0), CommandReturn::Success);
    }
    assert_eq!(c.subscriber.as_ref().unwrap().subs.len(), 16);
    assert_eq!(c.command(10, 0x200, 0x7FF, pids[4], &[], 0), CommandReturn::Success);
    assert_eq!(c.subscriber.as_ref().unwrap().subs, vec![(CanId::Standard(0x100), 0x4F0)]);
    assert!(subscription_matches(&Subscription { id: CanId::Standard(0x100), mask: 0x4F0 }, CanId::Standard(0x200)));
}

#[test]
fn mcan_init_wait_times_out() {
    assert_eq!(init_wait(1, true, 0), InitWait::Reached);
    assert_eq!(init_wait(0, true, 5), InitWait::Again);
    assert_eq!(init_wait(0, false, 5), InitWait::Reached);
    assert_eq!(init_wait(1, false, INIT_POLLS - 1), InitWait::Again);
    assert_eq!(init_wait(1, true, INIT_POLLS), InitWait::TimedOut);
}

#[test]
fn capsule_last_process_drives_the_controller() {
    let mut c = capsule();
    let p = c.allocate_grant();
    assert_eq!(c.command(3, 0, 0, p, &[], 0), CommandReturn::Success);
    assert_eq!(c.command(4, 0, 0, p, &[], 0), CommandReturn::Success);
    assert_eq!(c.can.calls, vec!["disable"]);
    assert_eq!(c.command(7, 0, 0, p, &[], MIN_RX_BUFFER), CommandReturn::Success);
    assert_eq!(c.can.calls, vec!["disable", "start_receive"]);
    assert!(c.can_rx.is_none());
    assert_eq!(c.command(8, 0, 0, p, &[], 0), CommandReturn::Success);
    assert_eq!(c.can.calls, vec!["disable", "start_receive", "stop_receive"]);
}
