//! System-call driver for CAN shared by several processes.
//!
//! Each process gets its own subscriptions, queued transmission and
//! callbacks; the capsule serializes transmission between processes and fans
//! received frames out to every receiving process whose subscriptions match.
//! Reception is opt-in: a process receives nothing until it subscribes.
//!
//! A received frame is handed to a process as a 16-byte chunk: the
//! identifier in little-endian order (4 bytes), the data length (1), a flag
//! byte whose bit 0 marks an extended identifier (1), two zero bytes, then
//! the eight data bytes.
use vstd::prelude::*;
use crate::error::{CommandReturn, ErrorCode, error_code_number};
use crate::hil_can::{
    CanController, CanError, CanId, CanRequest, CanRequests, CanState, Frame, can_error_number, is_extended, raw_id,
    spec_is_extended, spec_raw_id,
};
use crate::virtual_can::{
    Subscription, covering_filter, covering_filter_accepts_union, slot_accepts, slot_in_class,
    spec_covering_filter, spec_matches,
};

verus! {

/// Identifier subscriptions each process may hold.
pub const MAX_APP_SUBSCRIPTIONS: usize = 4;

/// Upper bound on the subscriptions, across all processes, that are
/// installed one by one on the lower layer. Past it (or past the lower
/// layer's capacity) the covering filters of the fallback stand for all of
/// them.
pub const MAX_TOTAL_SUBSCRIPTIONS: usize = 16;

/// Bytes per frame in a process's receive buffer.
pub const RX_CHUNK_SIZE: usize = 16;

/// Flag bit for an extended identifier in a receive chunk.
pub const CHUNK_FLAG_EXTENDED: u8 = 0x01;

/// Smallest receive buffer: the 8-byte header and two chunks.
pub const MIN_RX_BUFFER: usize = 40;

/// First argument of an error upcall for a failed transmission.
pub const ERROR_TX: usize = 100;

/// First argument of an error upcall for a failed reception.
pub const ERROR_RX: usize = 101;

pub const UPCALL_ENABLE: usize = 0;
pub const UPCALL_DISABLE: usize = 1;
pub const UPCALL_MESSAGE_SENT: usize = 2;
pub const UPCALL_MESSAGE_RECEIVED: usize = 3;
pub const UPCALL_RECEIVED_STOPPED: usize = 4;
pub const UPCALL_TRANSMISSION_ERROR: usize = 5;

/// A request made of a lower layer's subscriptions.
pub ghost enum SubscribeRequest {
    Subscribe(CanId, u32),
    Clear,
}

/// Keeps a lower layer's subscriptions in step with the processes'. Each
/// call is recorded, with its arguments, among the lower layer's requests,
/// and the capacity it reports is fixed. An implementation meets these
/// contracts only if it defines the record and the capacity to follow its
/// behaviour; the defaults (an empty record, no room) only let an
/// implementation that keeps no record (a test double, a layer outside
/// verification) be written, and such an implementation does not meet
/// them. Code generic over the lower layer never sees the defaults.
pub trait Subscribe {
    /// The requests this lower layer has been given, oldest first.
    closed spec fn requests(&self) -> Seq<SubscribeRequest> {
        Seq::empty()
    }

    /// How many subscriptions the lower layer can hold, as
    /// `subscription_capacity` reports it.
    closed spec fn capacity(&self) -> nat {
        0
    }

    fn subscribe(&mut self, id: CanId, mask: u32) -> (r: Result<(), ErrorCode>)
        ensures
            final(self).requests() == old(self).requests().push(SubscribeRequest::Subscribe(id, mask)),
            final(self).capacity() == old(self).capacity(),
    ;

    fn clear_subscriptions(&mut self)
        ensures
            final(self).requests() == old(self).requests().push(SubscribeRequest::Clear),
            final(self).capacity() == old(self).capacity(),
    ;

    fn subscription_capacity(&self) -> (r: usize)
        ensures
            r == self.capacity(),
    ;
}

/// The request that subscribes to `s`.
pub open spec fn subscribe_to(s: Subscription) -> SubscribeRequest {
    SubscribeRequest::Subscribe(s.id, s.mask)
}

/// The request subscribing to the covering filter of `subs`, if there are
/// any.
pub open spec fn cover_request(subs: Seq<Subscription>) -> Seq<SubscribeRequest> {
    if subs.len() > 0 {
        seq![subscribe_to(spec_covering_filter(subs))]
    } else {
        Seq::empty()
    }
}

/// What resynchronising asks of a lower layer with room for `capacity`
/// subscriptions, given all the processes' subscriptions `all`: clear them,
/// then subscribe to each one if they fit both its capacity and
/// `MAX_TOTAL_SUBSCRIPTIONS`, otherwise to the covering filter of each
/// identifier class, over all of them.
pub open spec fn resync_requests(all: Seq<Subscription>, capacity: nat) -> Seq<SubscribeRequest> {
    seq![SubscribeRequest::Clear] + if all.len() == 0 {
        Seq::<SubscribeRequest>::empty()
    } else if all.len() <= capacity && all.len() <= MAX_TOTAL_SUBSCRIPTIONS {
        all.map_values(|s: Subscription| subscribe_to(s))
    } else {
        cover_request(class_only(all, false, all.len())) + cover_request(
            class_only(all, true, all.len()),
        )
    }
}

/// A callback scheduled for a process.
#[derive(Clone, Copy, Debug, PartialEq, Eq, Structural)]
pub struct Upcall {
    pub process: usize,
    pub number: usize,
    pub arg0: usize,
    pub arg1: usize,
    pub arg2: usize,
}

/// A received frame to append to a process's receive buffer.
#[derive(Clone, Copy, Debug)]
pub struct Delivery {
    pub process: usize,
    pub chunk: [u8; 16],
    pub raw_id: u32,
}

/// What became of appending a chunk to a process's receive buffer.
#[derive(Clone, Copy, Debug, PartialEq, Eq, Structural)]
pub enum AppendOutcome {
    /// Appended; the buffer's new write offset.
    Appended(u32),
    /// The buffer had no room or was halted.
    Rejected(ErrorCode),
    /// The process has no usable receive buffer.
    Unavailable(ErrorCode),
}

/// Per-process state.
#[derive(Clone, Copy, Debug)]
pub struct App {
    pub subscriptions: [Option<Subscription>; 4],
    /// This process asked for the controller to be enabled.
    pub enabled: bool,
    /// Waiting on the enable or disable callback.
    pub awaiting_enable: bool,
    pub awaiting_disable: bool,
    /// This process asked to receive.
    pub receiving: bool,
    /// A frame copied out of the process, waiting for the transmitter.
    pub tx_pending: Option<(CanId, usize, Frame)>,
    pub lost_messages: u32,
}

/// A fresh process: no subscriptions, nothing requested.
pub open spec fn spec_default_app() -> App {
    App {
        subscriptions: [None, None, None, None],
        enabled: false,
        awaiting_enable: false,
        awaiting_disable: false,
        receiving: false,
        tx_pending: None,
        lost_messages: 0,
    }
}

impl App {
    /// A fresh process: no subscriptions, nothing requested.
    pub fn default() -> (r: App)
        ensures
            r == spec_default_app(),
    {
        App {
            subscriptions: [None, None, None, None],
            enabled: false,
            awaiting_enable: false,
            awaiting_disable: false,
            receiving: false,
            tx_pending: None,
            lost_messages: 0,
        }
    }
}

/// Whether `subscription` accepts a frame with identifier `received`.
pub fn subscription_matches(subscription: &Subscription, received: CanId) -> (r: bool)
    ensures
        r == spec_matches(*subscription, received),
{
    let (sub_extended, sub_raw) = match subscription.id {
        CanId::Standard(v) => (false, v as u32),
        CanId::Extended(v) => (true, v),
    };
    let (rx_extended, rx_raw) = match received {
        CanId::Standard(v) => (false, v as u32),
        CanId::Extended(v) => (true, v),
    };
    sub_extended == rx_extended && (rx_raw & subscription.mask) == (sub_raw & subscription.mask)
}

/// Whether some subscription of `app` accepts `id`.
pub open spec fn app_matches(app: App, id: CanId) -> bool {
    exists|i: int| 0 <= i < 4 && #[trigger] slot_accepts(app.subscriptions[i], id)
}

/// The flag selected by `which`: `receiving` if true, `enabled` if false.
pub open spec fn app_flag(a: App, which: bool) -> bool {
    if which {
        a.receiving
    } else {
        a.enabled
    }
}

/// How many processes have the selected flag set.
pub open spec fn count_apps(s: Seq<App>, which: bool) -> nat
    decreases s.len(),
{
    if s.len() == 0 {
        0
    } else {
        count_apps(s.drop_last(), which) + if app_flag(s.last(), which) {
            1nat
        } else {
            0nat
        }
    }
}

proof fn lemma_count_apps_le(s: Seq<App>, which: bool)
    ensures
        count_apps(s, which) <= s.len(),
    decreases s.len(),
{
    if s.len() > 0 {
        lemma_count_apps_le(s.drop_last(), which);
    }
}

proof fn lemma_count_apps_bound(s: Seq<App>, which: bool, i: int)
    requires
        0 <= i < s.len(),
        !app_flag(s[i], which),
    ensures
        count_apps(s, which) < s.len(),
    decreases s.len(),
{
    lemma_count_apps_le(s.drop_last(), which);
    if i < s.len() - 1 {
        lemma_count_apps_bound(s.drop_last(), which, i);
    }
}

proof fn lemma_count_apps_update(s: Seq<App>, which: bool, i: int, v: App)
    requires
        0 <= i < s.len(),
    ensures
        count_apps(s.update(i, v), which) + (if app_flag(s[i], which) {
            1int
        } else {
            0int
        }) == count_apps(s, which) + (if app_flag(v, which) {
            1int
        } else {
            0int
        }),
    decreases s.len(),
{
    let t = s.update(i, v);
    if i == s.len() - 1 {
        assert(t.drop_last() =~= s.drop_last());
    } else {
        assert(t.drop_last() =~= s.drop_last().update(i, v));
        lemma_count_apps_update(s.drop_last(), which, i, v);
    }
}

proof fn lemma_count_apps_push(s: Seq<App>, which: bool, v: App)
    ensures
        count_apps(s.push(v), which) == count_apps(s, which) + if app_flag(v, which) {
            1nat
        } else {
            0nat
        },
{
    assert(s.push(v).drop_last() =~= s);
}

/// The receive chunk for a frame: identifier (little-endian), length capped
/// at 8, class flag, two zero bytes, data.
pub open spec fn spec_chunk(id: CanId, frame: Frame, len: usize) -> Seq<u8> {
    let raw = spec_raw_id(id);
    seq![
        (raw & 0xff) as u8,
        ((raw >> 8u32) & 0xff) as u8,
        ((raw >> 16u32) & 0xff) as u8,
        ((raw >> 24u32) & 0xff) as u8,
        if len < 8 {
            len as u8
        } else {
            8u8
        },
        if spec_is_extended(id) {
            CHUNK_FLAG_EXTENDED
        } else {
            0u8
        },
        0u8,
        0u8,
    ] + frame@
}

/// Build the receive chunk for a frame.
pub fn build_chunk(id: CanId, frame: &Frame, len: usize) -> (r: [u8; 16])
    ensures
        r@ == spec_chunk(id, *frame, len),
{
    let raw = raw_id(id);
    let mut chunk = [0u8; 16];
    chunk[0] = (raw & 0xff) as u8;
    chunk[1] = ((raw >> 8u32) & 0xff) as u8;
    chunk[2] = ((raw >> 16u32) & 0xff) as u8;
    chunk[3] = ((raw >> 24u32) & 0xff) as u8;
    chunk[4] = if len < 8 {
        len as u8
    } else {
        8u8
    };
    chunk[5] = if is_extended(id) {
        CHUNK_FLAG_EXTENDED
    } else {
        0
    };
    let mut i: usize = 0;
    while i < 8
        invariant
            i <= 8,
            chunk@.len() == 16,
            chunk@[0] == (raw & 0xff) as u8,
            chunk@[1] == ((raw >> 8u32) & 0xff) as u8,
            chunk@[2] == ((raw >> 16u32) & 0xff) as u8,
            chunk@[3] == ((raw >> 24u32) & 0xff) as u8,
            chunk@[4] == (if len < 8 {
                len as u8
            } else {
                8u8
            }),
            chunk@[5] == (if spec_is_extended(id) {
                CHUNK_FLAG_EXTENDED
            } else {
                0u8
            }),
            chunk@[6] == 0,
            chunk@[7] == 0,
            forall|j: int| 0 <= j < i ==> chunk@[8 + j] == frame@[j],
            raw == spec_raw_id(id),
        decreases 8 - i,
    {
        chunk[8 + i] = frame[i];
        i = i + 1;
    }
    assert(chunk@ =~= spec_chunk(id, *frame, len));
    chunk
}

/// The subscriptions in the first `j` slots, in slot order.
pub open spec fn slots_list(slots: [Option<Subscription>; 4], j: nat) -> Seq<Subscription>
    decreases j,
{
    if j == 0 {
        Seq::empty()
    } else {
        let prev = slots_list(slots, (j - 1) as nat);
        if slots[j - 1] is Some {
            prev.push(slots[j - 1].unwrap())
        } else {
            prev
        }
    }
}

/// Every subscription of the first `n` processes, in process order.
pub open spec fn apps_list(apps: Seq<App>, n: nat) -> Seq<Subscription>
    decreases n,
{
    if n == 0 {
        Seq::empty()
    } else {
        apps_list(apps, (n - 1) as nat) + slots_list(apps[n - 1].subscriptions, 4)
    }
}

/// The subscriptions of `s[0..n]` of one identifier class, in order.
pub open spec fn class_only(s: Seq<Subscription>, extended: bool, n: nat) -> Seq<Subscription>
    decreases n,
{
    if n == 0 {
        Seq::empty()
    } else {
        let prev = class_only(s, extended, (n - 1) as nat);
        if spec_is_extended(s[n - 1].id) == extended {
            prev.push(s[n - 1])
        } else {
            prev
        }
    }
}

/// The subscriptions of one identifier class, in order.
pub fn class_filter(all: &[Subscription], extended: bool) -> (r: Vec<Subscription>)
    ensures
        r@ == class_only(all@, extended, all@.len()),
{
    let mut r: Vec<Subscription> = Vec::new();
    let mut i: usize = 0;
    while i < all.len()
        invariant
            i <= all@.len(),
            r@ == class_only(all@, extended, i as nat),
        decreases all@.len() - i,
    {
        if is_extended(all[i].id) == extended {
            r.push(all[i]);
        }
        i = i + 1;
    }
    r
}

/// The capsule: one controller shared by every process.
pub struct CanCapsule<C, S> {
    pub can: C,
    /// Optional lower layer whose subscriptions track the processes'.
    pub subscriber: Option<S>,
    pub can_tx: Option<Frame>,
    pub can_rx: Option<Frame>,
    /// Per-process state, indexed by process.
    pub processes: Vec<App>,
    /// Process whose frame is with the controller.
    pub tx_inflight: Option<usize>,
    /// How many processes want the controller enabled / receiving.
    pub enable_count: usize,
    pub receive_count: usize,
    pub hw_enabled: bool,
    pub hw_receiving: bool,
    pub peripheral_state: Option<CanState>,
    /// Upcalls scheduled for processes, oldest first.
    pub upcalls: Vec<Upcall>,
}

/// A frame copied out of a process buffer: its first `len` bytes, zeros
/// after.
pub open spec fn spec_copied_frame(buffer: Seq<u8>, len: nat) -> Seq<u8> {
    Seq::new(8, |i: int| if i < len {
        buffer[i]
    } else {
        0u8
    })
}

/// `dest` with its first `len` bytes replaced by those of `src`.
pub open spec fn spec_overlay(dest: Seq<u8>, src: Seq<u8>, len: nat) -> Seq<u8> {
    Seq::new(8, |i: int| if i < len {
        src[i]
    } else {
        dest[i]
    })
}

/// The identifier a send or subscribe command names.
pub open spec fn spec_command_id(extended: bool, arg: usize) -> CanId {
    if extended {
        CanId::Extended(arg as u32)
    } else {
        CanId::Standard(arg as u16)
    }
}

/// An upcall with arguments.
pub open spec fn upcall(process: usize, number: usize, a0: usize, a1: usize, a2: usize) -> Upcall {
    Upcall { process, number, arg0: a0, arg1: a1, arg2: a2 }
}

/// The first empty subscription slot of a process.
pub open spec fn first_free(app: App) -> Option<int> {
    if app.subscriptions[0] is None {
        Some(0)
    } else if app.subscriptions[1] is None {
        Some(1)
    } else if app.subscriptions[2] is None {
        Some(2)
    } else if app.subscriptions[3] is None {
        Some(3)
    } else {
        None
    }
}

/// `n - 1`, or 0 for 0.
pub open spec fn dec_sat(n: usize) -> usize {
    if n == 0 {
        0
    } else {
        (n - 1) as usize
    }
}

/// Only the process table and counters may differ.
pub open spec fn same_io<C, S>(new: CanCapsule<C, S>, old: CanCapsule<C, S>) -> bool {
    &&& new.can == old.can
    &&& new.subscriber == old.subscriber
    &&& new.can_tx == old.can_tx
    &&& new.can_rx == old.can_rx
    &&& new.tx_inflight == old.tx_inflight
    &&& new.peripheral_state == old.peripheral_state
}

/// The outcome of command 3 (enable).
pub open spec fn enable_post<C: CanRequests, S>(
    old: CanCapsule<C, S>,
    new: CanCapsule<C, S>,
    pid: usize,
    r: CommandReturn,
) -> bool {
    let app = old.processes@[pid as int];
    if app.enabled {
        r == CommandReturn::Failure(ErrorCode::ALREADY) && new == old
    } else {
        &&& new.subscriber == old.subscriber
        &&& new.can_tx == old.can_tx
        &&& new.can_rx == old.can_rx
        &&& new.tx_inflight == old.tx_inflight
        &&& new.peripheral_state == old.peripheral_state
        &&& new.receive_count == old.receive_count
        &&& new.hw_enabled == old.hw_enabled
        &&& new.hw_receiving == old.hw_receiving
        &&& if old.hw_enabled {
            &&& r == CommandReturn::Success
            &&& new.can == old.can
            &&& new.enable_count == old.enable_count + 1
            &&& new.processes@ == old.processes@.update(
                pid as int,
                (App { enabled: true, awaiting_enable: false, ..app }),
            )
            &&& new.upcalls@ == old.upcalls@.push(upcall(pid, UPCALL_ENABLE, 0, 0, 0))
        } else if old.enable_count > 0 {
            &&& r == CommandReturn::Success
            &&& new.can == old.can
            &&& new.enable_count == old.enable_count + 1
            &&& new.processes@ == old.processes@.update(
                pid as int,
                (App { enabled: true, awaiting_enable: true, ..app }),
            )
            &&& new.upcalls@ == old.upcalls@
        } else {
            &&& new.upcalls@ == old.upcalls@
            &&& new.can.requests().len() == old.can.requests().len() + 1
            &&& new.can.requests().drop_last() == old.can.requests()
            &&& new.can.requests().last() matches CanRequest::Enable(answer)
            &&& answer is Ok ==> r == CommandReturn::Success && new.enable_count == 1
                && new.processes@ == old.processes@.update(
                pid as int,
                (App { enabled: true, awaiting_enable: true, ..app }),
            )
            &&& answer matches Err(e) ==> r == CommandReturn::Failure(e) && new.enable_count == 0
                && new.processes@ == old.processes@.update(
                pid as int,
                (App { enabled: false, awaiting_enable: false, ..app }),
            )
        }
    }
}

/// The outcome of command 4 (disable).
pub open spec fn disable_post<C: CanRequests, S>(
    old: CanCapsule<C, S>,
    new: CanCapsule<C, S>,
    pid: usize,
    r: CommandReturn,
) -> bool {
    let app = old.processes@[pid as int];
    if !app.enabled {
        r == CommandReturn::Failure(ErrorCode::ALREADY) && new == old
    } else {
        &&& new.subscriber == old.subscriber
        &&& new.can_tx == old.can_tx
        &&& new.can_rx == old.can_rx
        &&& new.tx_inflight == old.tx_inflight
        &&& new.peripheral_state == old.peripheral_state
        &&& new.receive_count == old.receive_count
        &&& new.hw_enabled == old.hw_enabled
        &&& new.hw_receiving == old.hw_receiving
        &&& new.enable_count == dec_sat(old.enable_count)
        &&& if dec_sat(old.enable_count) > 0 {
            &&& r == CommandReturn::Success
            &&& new.can == old.can
            &&& new.processes@ == old.processes@.update(
                pid as int,
                (App { enabled: false, ..app }),
            )
            &&& new.upcalls@ == old.upcalls@.push(upcall(pid, UPCALL_DISABLE, 0, 0, 0))
        } else {
            &&& new.upcalls@ == old.upcalls@
            &&& new.can.requests().len() == old.can.requests().len() + 1
            &&& new.can.requests().drop_last() == old.can.requests()
            &&& new.can.requests().last() matches CanRequest::Disable(answer)
            &&& answer is Ok ==> r == CommandReturn::Success
            &&& answer matches Err(e) ==> r == CommandReturn::Failure(e)
            &&& new.processes@ == old.processes@.update(
                pid as int,
                (App { enabled: false, awaiting_disable: r == CommandReturn::Success, ..app }),
            )
        }
    }
}

impl<C: CanController, S: Subscribe> CanCapsule<C, S> {
    /// The process in flight exists, and the counters never exceed the
    /// processes they count.
    pub open spec fn wf(&self) -> bool {
        &&& self.tx_inflight matches Some(p) ==> p < self.processes@.len()
        &&& self.enable_count <= count_apps(self.processes@, false)
        &&& self.receive_count <= count_apps(self.processes@, true)
    }

    /// A capsule over `can`, with the two frame buffers and no processes.
    pub fn new(can: C, subscriber: Option<S>, can_tx: Frame, can_rx: Frame) -> (r: Self)
        ensures
            r.wf(),
            r.can == can,
            r.subscriber == subscriber,
            r.can_tx == Some(can_tx),
            r.can_rx == Some(can_rx),
            r.processes@.len() == 0,
            r.tx_inflight is None,
            r.enable_count == 0,
            r.receive_count == 0,
            !r.hw_enabled,
            !r.hw_receiving,
            r.peripheral_state is None,
            r.upcalls@.len() == 0,
    {
        CanCapsule {
            can,
            subscriber,
            can_tx: Some(can_tx),
            can_rx: Some(can_rx),
            processes: Vec::new(),
            tx_inflight: None,
            enable_count: 0,
            receive_count: 0,
            hw_enabled: false,
            hw_receiving: false,
            peripheral_state: None,
            upcalls: Vec::new(),
        }
    }

    /// Allocate the state of a new process; returns its index.
    pub fn allocate_grant(&mut self) -> (p: usize)
        requires
            old(self).wf(),
            old(self).processes@.len() < usize::MAX,
        ensures
            final(self).wf(),
            p == old(self).processes@.len(),
            final(self).processes@ == old(self).processes@.push(spec_default_app()),
            *final(self) == (CanCapsule { processes: final(self).processes, ..*old(self) }),
            same_io(*final(self), *old(self)),
            final(self).enable_count == old(self).enable_count,
            final(self).receive_count == old(self).receive_count,
            final(self).hw_enabled == old(self).hw_enabled,
            final(self).hw_receiving == old(self).hw_receiving,
            final(self).upcalls@ == old(self).upcalls@,
    {
        let app = App::default();
        proof {
            lemma_count_apps_push(self.processes@, false, app);
            lemma_count_apps_push(self.processes@, true, app);
        }
        let p = self.processes.len();
        self.processes.push(app);
        p
    }

    fn set_app(&mut self, pid: usize, app: App)
        requires
            old(self).wf(),
            pid < old(self).processes@.len(),
            old(self).processes@[pid as int].enabled == app.enabled,
            old(self).processes@[pid as int].receiving == app.receiving,
        ensures
            final(self).wf(),
            final(self).processes@ == old(self).processes@.update(pid as int, app),
            same_io(*final(self), *old(self)),
            final(self).enable_count == old(self).enable_count,
            final(self).receive_count == old(self).receive_count,
            final(self).hw_enabled == old(self).hw_enabled,
            final(self).hw_receiving == old(self).hw_receiving,
            final(self).upcalls@ == old(self).upcalls@,
    {
        proof {
            lemma_count_apps_update(self.processes@, false, pid as int, app);
            lemma_count_apps_update(self.processes@, true, pid as int, app);
        }
        self.processes[pid] = app;
    }

    fn upcall(&mut self, process: usize, number: usize, a0: usize, a1: usize, a2: usize)
        ensures
            final(self).upcalls@ == old(self).upcalls@.push(upcall(process, number, a0, a1, a2)),
            final(self).processes@ == old(self).processes@,
            same_io(*final(self), *old(self)),
            final(self).enable_count == old(self).enable_count,
            final(self).receive_count == old(self).receive_count,
            final(self).hw_enabled == old(self).hw_enabled,
            final(self).hw_receiving == old(self).hw_receiving,
    {
        self.upcalls.push(Upcall { process, number, arg0: a0, arg1: a1, arg2: a2 });
    }

    /// Command 3: this process wants the controller enabled.
    fn command_enable(&mut self, pid: usize) -> (r: CommandReturn)
        requires
            old(self).wf(),
            pid < old(self).processes@.len(),
        ensures
            final(self).wf(),
            enable_post(*old(self), *final(self), pid, r),
    {
        let already = self.hw_enabled;
        let mut app = self.processes[pid];
        if app.enabled {
            return CommandReturn::Failure(ErrorCode::ALREADY);
        }
        let _n = self.processes.len();
        proof {
            lemma_count_apps_bound(self.processes@, false, pid as int);
            lemma_count_apps_update(self.processes@, false, pid as int, (App { enabled: true, awaiting_enable: !already, ..app }));
            lemma_count_apps_update(self.processes@, true, pid as int, (App { enabled: true, awaiting_enable: !already, ..app }));
        }
        app.enabled = true;
        app.awaiting_enable = !already;
        let ghost before = self.processes@;
        self.processes[pid] = app;
        self.enable_count = self.enable_count + 1;
        if already {
            self.upcall(pid, UPCALL_ENABLE, 0, 0, 0);
            CommandReturn::Success
        } else if self.enable_count == 1 {
            let answer = self.can.enable();
            assert(self.can.requests().drop_last() =~= old(self).can.requests());
            match answer {
                Ok(()) => CommandReturn::Success,
                Err(err) => {
                    self.enable_count = self.enable_count - 1;
                    app.enabled = false;
                    app.awaiting_enable = false;
                    proof {
                        lemma_count_apps_update(before, false, pid as int, app);
                        lemma_count_apps_update(before, true, pid as int, app);
                        assert(self.processes@.update(pid as int, app) =~= before.update(pid as int, app));
                    }
                    self.processes[pid] = app;
                    CommandReturn::Failure(err)
                },
            }
        } else {
            CommandReturn::Success
        }
    }

    /// Command 4: this process no longer needs the controller.
    fn command_disable(&mut self, pid: usize) -> (r: CommandReturn)
        requires
            old(self).wf(),
            pid < old(self).processes@.len(),
        ensures
            final(self).wf(),
            disable_post(*old(self), *final(self), pid, r),
    {
        let mut app = self.processes[pid];
        if !app.enabled {
            return CommandReturn::Failure(ErrorCode::ALREADY);
        }
        app.enabled = false;
        proof {
            lemma_count_apps_update(self.processes@, false, pid as int, app);
            lemma_count_apps_update(self.processes@, true, pid as int, app);
        }
        let ghost before = self.processes@;
        self.processes[pid] = app;
        self.enable_count = if self.enable_count == 0 {
            0
        } else {
            self.enable_count - 1
        };
        if self.enable_count > 0 {
            self.upcall(pid, UPCALL_DISABLE, 0, 0, 0);
            CommandReturn::Success
        } else {
            app.awaiting_disable = true;
            proof {
                lemma_count_apps_update(self.processes@, false, pid as int, app);
                lemma_count_apps_update(self.processes@, true, pid as int, app);
            }
            self.processes[pid] = app;
            let answer = self.can.disable();
            assert(self.can.requests().drop_last() =~= old(self).can.requests());
            match answer {
                Ok(()) => {
                    assert(self.processes@ =~= before.update(pid as int, app));
                    CommandReturn::Success
                },
                Err(err) => {
                    app.awaiting_disable = false;
                    proof {
                        lemma_count_apps_update(self.processes@, false, pid as int, app);
                        lemma_count_apps_update(self.processes@, true, pid as int, app);
                    }
                    self.processes[pid] = app;
                    assert(self.processes@ =~= before.update(pid as int, app));
                    CommandReturn::Failure(err)
                },
            }
        }
    }
}

/// The outcome of commands 5 and 6 (send a frame with a standard or
/// extended identifier), where `ro` is the process's transmit buffer.
pub open spec fn send_post<C: CanRequests, S>(
    old: CanCapsule<C, S>,
    new: CanCapsule<C, S>,
    pid: usize,
    extended: bool,
    arg1: usize,
    arg2: usize,
    ro: Seq<u8>,
    r: CommandReturn,
) -> bool {
    let app = old.processes@[pid as int];
    let id = spec_command_id(extended, arg1);
    if arg2 > 8 || ro.len() < arg2 {
        r == CommandReturn::Failure(ErrorCode::SIZE) && new == old
    } else if old.tx_inflight is None {
        if old.can_tx is None {
            r == CommandReturn::Failure(ErrorCode::NOMEM) && new == old
        } else {
            &&& new.processes@ == old.processes@
            &&& new.subscriber == old.subscriber
            &&& new.can_rx == old.can_rx
            &&& new.peripheral_state == old.peripheral_state
            &&& new.enable_count == old.enable_count
            &&& new.receive_count == old.receive_count
            &&& new.hw_enabled == old.hw_enabled
            &&& new.hw_receiving == old.hw_receiving
            &&& new.upcalls@ == old.upcalls@
            &&& (r == CommandReturn::Success && new.tx_inflight == Some(pid) && new.can_tx is None)
                || (r is Failure && new.tx_inflight is None && new.can_tx is Some)
            &&& new.can.requests().len() == old.can.requests().len() + 1
            &&& new.can.requests().drop_last() == old.can.requests()
            &&& new.can.requests().last() matches CanRequest::Send(sid, sframe, slen)
            &&& sid == id && slen == arg2
            &&& sframe@ == spec_overlay(old.can_tx.unwrap()@, spec_copied_frame(ro, arg2 as nat), arg2 as nat)
        }
    } else if app.tx_pending is Some {
        r == CommandReturn::Failure(ErrorCode::BUSY) && new == old
    } else {
        &&& r == CommandReturn::Success
        &&& same_io(new, old)
        &&& new.enable_count == old.enable_count
        &&& new.receive_count == old.receive_count
        &&& new.hw_enabled == old.hw_enabled
        &&& new.hw_receiving == old.hw_receiving
        &&& new.upcalls@ == old.upcalls@
        &&& new.processes@ == old.processes@.update(
            pid as int,
            (App { tx_pending: new.processes@[pid as int].tx_pending, ..app }),
        )
        &&& new.processes@[pid as int].tx_pending matches Some((qid, qlen, qframe)) && qid == id
            && qlen == arg2 && qframe@ == spec_copied_frame(ro, arg2 as nat)
    }
}

/// The outcome of command 7 (start receiving), where `rw_len` is the length
/// of the process's receive buffer.
pub open spec fn receive_post<C: CanRequests, S>(
    old: CanCapsule<C, S>,
    new: CanCapsule<C, S>,
    pid: usize,
    rw_len: usize,
    r: CommandReturn,
) -> bool {
    let app = old.processes@[pid as int];
    if app.receiving {
        r == CommandReturn::Failure(ErrorCode::ALREADY) && new == old
    } else if rw_len < MIN_RX_BUFFER {
        r == CommandReturn::Failure(ErrorCode::SIZE) && new == old
    } else {
        &&& new.subscriber == old.subscriber
        &&& new.can_tx == old.can_tx
        &&& new.tx_inflight == old.tx_inflight
        &&& new.peripheral_state == old.peripheral_state
        &&& new.enable_count == old.enable_count
        &&& new.hw_enabled == old.hw_enabled
        &&& new.upcalls@ == old.upcalls@
        &&& if old.hw_receiving {
            &&& r == CommandReturn::Success
            &&& new.can == old.can
            &&& new.can_rx == old.can_rx
            &&& new.hw_receiving
            &&& new.receive_count == old.receive_count + 1
            &&& new.processes@ == old.processes@.update(pid as int, (App { receiving: true, ..app }))
        } else if old.can_rx is None {
            &&& r == CommandReturn::Failure(ErrorCode::NOMEM)
            &&& new.can == old.can
            &&& new.can_rx is None
            &&& new.hw_receiving == old.hw_receiving
            &&& new.receive_count == old.receive_count
            &&& new.processes@ == old.processes@.update(pid as int, (App { receiving: true, ..app }))
        } else {
            &&& new.can.requests() == old.can.requests().push(
                CanRequest::StartReceive(old.can_rx.unwrap()),
            )
            &&& (r == CommandReturn::Success <==> new.can_rx is None)
            &&& (r == CommandReturn::Success && new.hw_receiving && new.can_rx is None
                && new.receive_count == old.receive_count + 1 && new.processes@
                == old.processes@.update(pid as int, (App { receiving: true, ..app })))
                || (r is Failure && new.hw_receiving == old.hw_receiving && new.can_rx is Some
                && new.receive_count == old.receive_count && new.processes@ == old.processes@)
        }
    }
}

/// The outcome of command 8 (stop receiving).
pub open spec fn stop_post<C: CanRequests, S>(
    old: CanCapsule<C, S>,
    new: CanCapsule<C, S>,
    pid: usize,
    r: CommandReturn,
) -> bool {
    let app = old.processes@[pid as int];
    if !app.receiving {
        r == CommandReturn::Failure(ErrorCode::ALREADY) && new == old
    } else {
        &&& new.subscriber == old.subscriber
        &&& new.can_tx == old.can_tx
        &&& new.can_rx == old.can_rx
        &&& new.tx_inflight == old.tx_inflight
        &&& new.peripheral_state == old.peripheral_state
        &&& new.enable_count == old.enable_count
        &&& new.hw_enabled == old.hw_enabled
        &&& new.hw_receiving == old.hw_receiving
        &&& new.receive_count == dec_sat(old.receive_count)
        &&& new.processes@ == old.processes@.update(pid as int, (App { receiving: false, ..app }))
        &&& if dec_sat(old.receive_count) > 0 || !old.hw_receiving {
            &&& r == CommandReturn::Success
            &&& new.can == old.can
            &&& new.upcalls@ == old.upcalls@.push(upcall(pid, UPCALL_RECEIVED_STOPPED, 0, 0, 0))
        } else {
            &&& new.upcalls@ == old.upcalls@
            &&& new.can.requests().len() == old.can.requests().len() + 1
            &&& new.can.requests().drop_last() == old.can.requests()
            &&& new.can.requests().last() matches CanRequest::StopReceive(answer)
            &&& answer is Ok ==> r == CommandReturn::Success
            &&& answer matches Err(e) ==> r == CommandReturn::Failure(e)
        }
    }
}

/// The outcome of commands 10 and 11 (subscribe to a standard or extended
/// identifier range).
pub open spec fn subscribe_post<C, S: Subscribe>(
    old: CanCapsule<C, S>,
    new: CanCapsule<C, S>,
    pid: usize,
    extended: bool,
    arg1: usize,
    arg2: usize,
    r: CommandReturn,
) -> bool {
    let app = old.processes@[pid as int];
    match first_free(app) {
        None => r == CommandReturn::Failure(ErrorCode::NOMEM) && new == old,
        Some(i) => {
            &&& r == CommandReturn::Success
            &&& resynced(new, old)
            &&& lower_resynced(old.subscriber, new.subscriber, new.processes@)
            &&& new.processes@ == old.processes@.update(
                pid as int,
                (App { subscriptions: new.processes@[pid as int].subscriptions, ..app }),
            )
            &&& new.processes@[pid as int].subscriptions@ == app.subscriptions@.update(
                i,
                Some(Subscription { id: spec_command_id(extended, arg1), mask: arg2 as u32 }),
            )
        },
    }
}

/// The lower layer, if there is one, was resynchronised with the
/// subscriptions of the processes `procs`: after its requests in `before`
/// come exactly those of `resync_requests`, for the capacity it reports.
pub open spec fn lower_resynced<S: Subscribe>(
    before: Option<S>,
    after: Option<S>,
    procs: Seq<App>,
) -> bool {
    before matches Some(b) ==> {
        let log = after.unwrap().requests();
        &&& after is Some
        &&& log.len() >= b.requests().len()
        &&& log.subrange(0, b.requests().len() as int) == b.requests()
        &&& after.unwrap().capacity() == b.capacity()
        &&& resync_requests(apps_list(procs, procs.len()), b.capacity()) == log.subrange(
            b.requests().len() as int,
            log.len() as int,
        )
    }
}

/// Everything but the lower layer's subscriptions and the process table is
/// as it was.
pub open spec fn resynced<C, S>(new: CanCapsule<C, S>, old: CanCapsule<C, S>) -> bool {
    &&& new.can == old.can
    &&& new.subscriber is Some == old.subscriber is Some
    &&& old.subscriber is None ==> new.subscriber == old.subscriber
    &&& new.can_tx == old.can_tx
    &&& new.can_rx == old.can_rx
    &&& new.tx_inflight == old.tx_inflight
    &&& new.peripheral_state == old.peripheral_state
    &&& new.enable_count == old.enable_count
    &&& new.receive_count == old.receive_count
    &&& new.hw_enabled == old.hw_enabled
    &&& new.hw_receiving == old.hw_receiving
    &&& new.upcalls@ == old.upcalls@
}

/// The outcome of command 12 (drop all subscriptions).
pub open spec fn clear_post<C, S: Subscribe>(
    old: CanCapsule<C, S>,
    new: CanCapsule<C, S>,
    pid: usize,
    r: CommandReturn,
) -> bool {
    &&& r == CommandReturn::Success
    &&& resynced(new, old)
    &&& lower_resynced(old.subscriber, new.subscriber, new.processes@)
    &&& new.processes@ == old.processes@.update(
        pid as int,
        (App { subscriptions: [None, None, None, None], ..old.processes@[pid as int] }),
    )
}

/// Whether command `command_num` works on the calling process's state.
pub open spec fn uses_grant(command_num: usize) -> bool {
    command_num == 3 || command_num == 4 || command_num == 5 || command_num == 6 || command_num == 7
        || command_num == 8 || command_num == 10 || command_num == 11 || command_num == 12
}

/// `new` is `old` with default state created for every process up to and
/// including `pid`.
pub open spec fn granted<C, S>(old: CanCapsule<C, S>, new: CanCapsule<C, S>, pid: usize) -> bool {
    &&& new == (CanCapsule { processes: new.processes, ..old })
    &&& new.processes@ == old.processes@ + Seq::new(
        (pid + 1 - old.processes@.len()) as nat,
        |i: int| spec_default_app(),
    )
}

/// The outcome of a command.
pub open spec fn command_post<C: CanRequests, S: Subscribe>(
    old: CanCapsule<C, S>,
    new: CanCapsule<C, S>,
    command_num: usize,
    arg1: usize,
    arg2: usize,
    pid: usize,
    ro: Seq<u8>,
    rw_len: usize,
    r: CommandReturn,
) -> bool {
    if command_num == 0 {
        r == CommandReturn::Success && new == old
    } else if command_num == 3 {
        enable_post(old, new, pid, r)
    } else if command_num == 4 {
        disable_post(old, new, pid, r)
    } else if command_num == 5 || command_num == 6 {
        send_post(old, new, pid, command_num == 6, arg1, arg2, ro, r)
    } else if command_num == 7 {
        receive_post(old, new, pid, rw_len, r)
    } else if command_num == 8 {
        stop_post(old, new, pid, r)
    } else if command_num == 10 || command_num == 11 {
        subscribe_post(old, new, pid, command_num == 11, arg1, arg2, r)
    } else if command_num == 12 {
        clear_post(old, new, pid, r)
    } else if command_num == 13 {
        r == CommandReturn::SuccessU32(MAX_APP_SUBSCRIPTIONS as u32) && new == old
    } else {
        r == CommandReturn::Failure(ErrorCode::NOSUPPORT) && new == old
    }
}

impl<C: CanController, S: Subscribe> CanCapsule<C, S> {
    /// Copy the first `length` bytes of a process's transmit buffer into a
    /// zeroed frame; `SIZE` if the frame or the buffer is too short.
    pub fn copy_out_frame(buffer: &[u8], length: usize) -> (r: Result<Frame, ErrorCode>)
        ensures
            length > 8 || buffer@.len() < length ==> r == Err::<Frame, ErrorCode>(ErrorCode::SIZE),
            !(length > 8 || buffer@.len() < length) ==> (r matches Ok(f) && f@ == spec_copied_frame(
                buffer@,
                length as nat,
            )),
    {
        if length > 8 {
            return Err(ErrorCode::SIZE);
        }
        if buffer.len() < length {
            return Err(ErrorCode::SIZE);
        }
        let mut frame = [0u8; 8];
        let mut i: usize = 0;
        while i < length
            invariant
                i <= length,
                length <= 8,
                length <= buffer@.len(),
                frame@.len() == 8,
                forall|j: int| 0 <= j < i ==> frame@[j] == buffer@[j],
                forall|j: int| i <= j < 8 ==> frame@[j] == 0,
            decreases length - i,
        {
            frame[i] = buffer[i];
            i = i + 1;
        }
        assert(frame@ =~= spec_copied_frame(buffer@, length as nat));
        Ok(frame)
    }

    /// Put an already-copied frame into the shared transmit buffer and hand
    /// it to the controller.
    fn start_transmission(&mut self, id: CanId, frame: &Frame, length: usize) -> (r: Result<
        (),
        ErrorCode,
    >)
        ensures
            final(self).processes@ == old(self).processes@,
            final(self).subscriber == old(self).subscriber,
            final(self).can_rx == old(self).can_rx,
            final(self).tx_inflight == old(self).tx_inflight,
            final(self).peripheral_state == old(self).peripheral_state,
            final(self).enable_count == old(self).enable_count,
            final(self).receive_count == old(self).receive_count,
            final(self).hw_enabled == old(self).hw_enabled,
            final(self).hw_receiving == old(self).hw_receiving,
            final(self).upcalls@ == old(self).upcalls@,
            length > 8 ==> r == Err::<(), ErrorCode>(ErrorCode::SIZE) && *final(self) == *old(self),
            length <= 8 && old(self).can_tx is None ==> r == Err::<(), ErrorCode>(ErrorCode::NOMEM)
                && *final(self) == *old(self),
            length <= 8 && old(self).can_tx is Some ==> (r is Ok && final(self).can_tx is None) || (
            r is Err && final(self).can_tx is Some),
            length <= 8 && old(self).can_tx is Some ==> final(self).can.requests() == old(
                self).can.requests().push(
                CanRequest::Send(
                    id,
                    final(self).can.requests().last()->Send_1,
                    length,
                ),
            ) && (final(self).can.requests().last()->Send_1)@ == spec_overlay(
                old(self).can_tx.unwrap()@,
                frame@,
                length as nat,
            ),
    {
        if length > 8 {
            return Err(ErrorCode::SIZE);
        }
        match self.can_tx.take() {
            None => Err(ErrorCode::NOMEM),
            Some(dest0) => {
                let mut dest = dest0;
                let mut i: usize = 0;
                while i < length
                    invariant
                        i <= length,
                        length <= 8,
                        dest@.len() == 8,
                        forall|j: int| 0 <= j < i ==> dest@[j] == frame@[j],
                        forall|j: int| i <= j < 8 ==> dest@[j] == dest0@[j],
                    decreases length - i,
                {
                    dest[i] = frame[i];
                    i = i + 1;
                }
                assert(dest@ =~= spec_overlay(dest0@, frame@, length as nat));
                match self.can.send(id, dest, length) {
                    Ok(()) => Ok(()),
                    Err((err, buf)) => {
                        self.can_tx = Some(buf);
                        Err(err)
                    },
                }
            },
        }
    }

    /// Commands 5 and 6: send a frame with a standard or extended
    /// identifier, straight to the controller if it is idle, else queued.
    fn command_send(
        &mut self,
        pid: usize,
        extended: bool,
        arg1: usize,
        arg2: usize,
        ro: &[u8],
    ) -> (r: CommandReturn)
        requires
            old(self).wf(),
            pid < old(self).processes@.len(),
        ensures
            final(self).wf(),
            send_post(*old(self), *final(self), pid, extended, arg1, arg2, ro@, r),
    {
        let id = if extended {
            CanId::Extended(#[verifier::truncate] (arg1 as u32))
        } else {
            CanId::Standard(#[verifier::truncate] (arg1 as u16))
        };
        let frame = match Self::copy_out_frame(ro, arg2) {
            Ok(f) => f,
            Err(err) => return CommandReturn::Failure(err),
        };
        if self.tx_inflight.is_none() {
            let started = self.start_transmission(id, &frame, arg2);
            proof {
                if old(self).can_tx is Some {
                    assert(self.can.requests().drop_last() =~= old(self).can.requests());
                }
            }
            match started {
                Ok(()) => {
                    self.tx_inflight = Some(pid);
                    CommandReturn::Success
                },
                Err(err) => CommandReturn::Failure(err),
            }
        } else {
            let mut app = self.processes[pid];
            if app.tx_pending.is_some() {
                return CommandReturn::Failure(ErrorCode::BUSY);
            }
            app.tx_pending = Some((id, arg2, frame));
            self.set_app(pid, app);
            CommandReturn::Success
        }
    }

    /// Command 7: this process starts receiving; the controller's receive
    /// process is started by the first receiver.
    fn command_receive(&mut self, pid: usize, rw_len: usize) -> (r: CommandReturn)
        requires
            old(self).wf(),
            pid < old(self).processes@.len(),
        ensures
            final(self).wf(),
            receive_post(*old(self), *final(self), pid, rw_len, r),
    {
        let mut app = self.processes[pid];
        if app.receiving {
            return CommandReturn::Failure(ErrorCode::ALREADY);
        }
        if rw_len < MIN_RX_BUFFER {
            return CommandReturn::Failure(ErrorCode::SIZE);
        }
        let _n = self.processes.len();
        proof {
            lemma_count_apps_bound(self.processes@, true, pid as int);
        }
        let saved = app;
        app.receiving = true;
        proof {
            lemma_count_apps_update(self.processes@, false, pid as int, app);
            lemma_count_apps_update(self.processes@, true, pid as int, app);
        }
        let ghost before = self.processes@;
        self.processes[pid] = app;
        self.receive_count = self.receive_count + 1;
        if self.hw_receiving {
            return CommandReturn::Success;
        }
        match self.can_rx.take() {
            Some(buffer) => match self.can.start_receive_process(buffer) {
                Ok(()) => {
                    self.hw_receiving = true;
                    CommandReturn::Success
                },
                Err((err, returned)) => {
                    self.can_rx = Some(returned);
                    self.receive_count = self.receive_count - 1;
                    proof {
                        lemma_count_apps_update(before, false, pid as int, saved);
                        lemma_count_apps_update(before, true, pid as int, saved);
                        assert(self.processes@.update(pid as int, saved) =~= before);
                    }
                    self.processes[pid] = saved;
                    CommandReturn::Failure(err)
                },
            },
            None => {
                self.receive_count = self.receive_count - 1;
                CommandReturn::Failure(ErrorCode::NOMEM)
            },
        }
    }

    /// Command 8: this process stops receiving; the last receiver stops the
    /// controller.
    fn command_stop(&mut self, pid: usize) -> (r: CommandReturn)
        requires
            old(self).wf(),
            pid < old(self).processes@.len(),
        ensures
            final(self).wf(),
            stop_post(*old(self), *final(self), pid, r),
    {
        let mut app = self.processes[pid];
        if !app.receiving {
            return CommandReturn::Failure(ErrorCode::ALREADY);
        }
        app.receiving = false;
        proof {
            lemma_count_apps_update(self.processes@, false, pid as int, app);
            lemma_count_apps_update(self.processes@, true, pid as int, app);
        }
        self.processes[pid] = app;
        self.receive_count = if self.receive_count == 0 {
            0
        } else {
            self.receive_count - 1
        };
        if self.receive_count > 0 || !self.hw_receiving {
            self.upcall(pid, UPCALL_RECEIVED_STOPPED, 0, 0, 0);
            CommandReturn::Success
        } else {
            let answer = self.can.stop_receive();
            assert(self.can.requests().drop_last() =~= old(self).can.requests());
            match answer {
                Ok(()) => CommandReturn::Success,
                Err(err) => CommandReturn::Failure(err),
            }
        }
    }
}

impl<C: CanController, S: Subscribe> CanCapsule<C, S> {
    /// Every process's subscriptions, in process order and slot order.
    pub fn gather_subscriptions(&self) -> (r: Vec<Subscription>)
        ensures
            r@ == apps_list(self.processes@, self.processes@.len()),
    {
        let mut r: Vec<Subscription> = Vec::new();
        let mut p: usize = 0;
        while p < self.processes.len()
            invariant
                p <= self.processes@.len(),
                r@ == apps_list(self.processes@, p as nat),
            decreases self.processes@.len() - p,
        {
            let slots = self.processes[p].subscriptions;
            let mut j: usize = 0;
            while j < 4
                invariant
                    p < self.processes@.len(),
                    slots == self.processes@[p as int].subscriptions,
                    j <= 4,
                    r@ == apps_list(self.processes@, p as nat) + slots_list(slots, j as nat),
                decreases 4 - j,
            {
                let ghost x = apps_list(self.processes@, p as nat) + slots_list(slots, j as nat);
                if let Some(s) = slots[j] {
                    proof {
                        assert(x.push(s) =~= apps_list(self.processes@, p as nat) + slots_list(
                            slots,
                            (j + 1) as nat,
                        ));
                    }
                    r.push(s);
                } else {
                    assert(x =~= apps_list(self.processes@, p as nat) + slots_list(
                        slots,
                        (j + 1) as nat,
                    ));
                }
                j = j + 1;
            }
            p = p + 1;
        }
        r
    }

    /// Rebuild the lower layer's subscriptions from the union of every
    /// process's: each one individually if they fit its capacity and
    /// `MAX_TOTAL_SUBSCRIPTIONS`, otherwise one covering filter per
    /// identifier class over all of them. Nothing happens without a lower
    /// layer.
    pub fn resync_subscriptions(&mut self)
        ensures
            resynced(*final(self), *old(self)),
            final(self).processes@ == old(self).processes@,
            lower_resynced(old(self).subscriber, final(self).subscriber, old(self).processes@),
    {
        let mut subscriber = match self.subscriber.take() {
            Some(s) => s,
            None => return,
        };
        let ghost base = subscriber.requests();
        subscriber.clear_subscriptions();
        let all = self.gather_subscriptions();
        let capacity = subscriber.subscription_capacity();
        let ghost head = base + seq![SubscribeRequest::Clear];
        if all.len() > 0 {
            if all.len() <= capacity && all.len() <= MAX_TOTAL_SUBSCRIPTIONS {
                let mut i: usize = 0;
                while i < all.len()
                    invariant
                        i <= all@.len(),
                        subscriber.capacity() == capacity,
                        subscriber.requests() == head + all@.take(i as int).map_values(
                            |t: Subscription| subscribe_to(t),
                        ),
                    decreases all@.len() - i,
                {
                    let s = all[i];
                    let _ = subscriber.subscribe(s.id, s.mask);
                    assert(all@.take(i + 1).map_values(|t: Subscription| subscribe_to(t))
                        =~= all@.take(i as int).map_values(|t: Subscription| subscribe_to(t)).push(
                        subscribe_to(s),
                    ));
                    i = i + 1;
                }
                assert(all@.take(all@.len() as int) =~= all@);
            } else {
                let standard = class_filter(all.as_slice(), false);
                if let Some(cover) = covering_filter(standard.as_slice()) {
                    let _ = subscriber.subscribe(cover.id, cover.mask);
                }
                let extended = class_filter(all.as_slice(), true);
                if let Some(cover) = covering_filter(extended.as_slice()) {
                    let _ = subscriber.subscribe(cover.id, cover.mask);
                }
            }
        }
        proof {
            let log = subscriber.requests();
            assert(log.subrange(0, base.len() as int) =~= base);
            assert(log.subrange(base.len() as int, log.len() as int) =~= resync_requests(
                all@,
                capacity as nat,
            ));
        }
        self.subscriber = Some(subscriber);
    }

    /// Commands 10 and 11: subscribe this process to an identifier range.
    fn command_subscribe(&mut self, pid: usize, extended: bool, arg1: usize, arg2: usize) -> (r:
        CommandReturn)
        requires
            old(self).wf(),
            pid < old(self).processes@.len(),
        ensures
            final(self).wf(),
            subscribe_post(*old(self), *final(self), pid, extended, arg1, arg2, r),
    {
        let id = if extended {
            CanId::Extended(#[verifier::truncate] (arg1 as u32))
        } else {
            CanId::Standard(#[verifier::truncate] (arg1 as u16))
        };
        let mut app = self.processes[pid];
        let mut i: usize = 0;
        while i < 4
            invariant
                i <= 4,
                old(self).wf(),
                pid < old(self).processes@.len(),
                app == old(self).processes@[pid as int],
                id == spec_command_id(extended, arg1),
                *self == *old(self),
                forall|j: int| 0 <= j < i ==> app.subscriptions[j] is Some,
            decreases 4 - i,
        {
            if app.subscriptions[i].is_none() {
                app.subscriptions[i] = Some(Subscription { id, mask: #[verifier::truncate] (arg2 as u32) });
                self.set_app(pid, app);
                self.resync_subscriptions();
                return CommandReturn::Success;
            }
            i = i + 1;
        }
        CommandReturn::Failure(ErrorCode::NOMEM)
    }

    /// Command 12: drop every subscription of this process.
    fn command_clear(&mut self, pid: usize) -> (r: CommandReturn)
        requires
            old(self).wf(),
            pid < old(self).processes@.len(),
        ensures
            final(self).wf(),
            clear_post(*old(self), *final(self), pid, r),
    {
        let mut app = self.processes[pid];
        app.subscriptions = [None, None, None, None];
        self.set_app(pid, app);
        self.resync_subscriptions();
        CommandReturn::Success
    }

    /// Command `command_num` from process `pid`, as `command_granted`
    /// answers it once the process has its state. Commands 0, 13 and those
    /// that are not offered answer without touching any process's state,
    /// for any process; the others first create the state of a process that
    /// has none (and of the processes numbered before it), or answer
    /// `NOMEM` when it cannot be numbered.
    pub fn command(
        &mut self,
        command_num: usize,
        arg1: usize,
        arg2: usize,
        pid: usize,
        ro: &[u8],
        rw_len: usize,
    ) -> (r: CommandReturn)
        requires
            old(self).wf(),
        ensures
            final(self).wf(),
            !uses_grant(command_num) || pid < old(self).processes@.len() ==> command_post(
                *old(self),
                *final(self),
                command_num,
                arg1,
                arg2,
                pid,
                ro@,
                rw_len,
                r,
            ),
            uses_grant(command_num) && pid >= old(self).processes@.len() && pid == usize::MAX ==> r
                == CommandReturn::Failure(ErrorCode::NOMEM) && *final(self) == *old(self),
            uses_grant(command_num) && old(self).processes@.len() <= pid < usize::MAX ==> exists|
                mid: CanCapsule<C, S>,
            |
                #[trigger] granted(*old(self), mid, pid) && command_post(
                    mid,
                    *final(self),
                    command_num,
                    arg1,
                    arg2,
                    pid,
                    ro@,
                    rw_len,
                    r,
                ),
    {
        if !(command_num == 3 || command_num == 4 || command_num == 5 || command_num == 6
            || command_num == 7 || command_num == 8 || command_num == 10 || command_num == 11
            || command_num == 12) {
            if command_num == 0 {
                return CommandReturn::Success;
            } else if command_num == 13 {
                return CommandReturn::SuccessU32(MAX_APP_SUBSCRIPTIONS as u32);
            } else {
                return CommandReturn::Failure(ErrorCode::NOSUPPORT);
            }
        }
        if pid >= self.processes.len() {
            if pid == usize::MAX {
                return CommandReturn::Failure(ErrorCode::NOMEM);
            }
            self.grant_for(pid);
        }
        self.command_granted(command_num, arg1, arg2, pid, ro, rw_len)
    }

    /// Create default state for every process up to and including `pid`.
    fn grant_for(&mut self, pid: usize)
        requires
            old(self).wf(),
            old(self).processes@.len() <= pid < usize::MAX,
        ensures
            final(self).wf(),
            granted(*old(self), *final(self), pid),
    {
        while self.processes.len() <= pid
            invariant
                self.wf(),
                old(self).processes@.len() <= pid < usize::MAX,
                old(self).processes@.len() <= self.processes@.len() <= pid + 1,
                *self == (CanCapsule { processes: self.processes, ..*old(self) }),
                self.processes@ == old(self).processes@ + Seq::new(
                    (self.processes@.len() - old(self).processes@.len()) as nat,
                    |i: int| spec_default_app(),
                ),
            decreases pid + 1 - self.processes@.len(),
        {
            let ghost before = self.processes@;
            self.allocate_grant();
            assert(self.processes@ =~= old(self).processes@ + Seq::new(
                (self.processes@.len() - old(self).processes@.len()) as nat,
                |i: int| spec_default_app(),
            )) by {
                assert(before =~= old(self).processes@ + Seq::new(
                    (before.len() - old(self).processes@.len()) as nat,
                    |i: int| spec_default_app(),
                ));
            }
        }
    }

    /// Handle a command from process `pid`. `ro` is the process's transmit
    /// buffer and `rw_len` the length of its receive buffer. Bitrate,
    /// operation mode and bit timing (commands 1, 2 and 9) belong to the
    /// shared bus and are not available to processes.
    fn command_granted(
        &mut self,
        command_num: usize,
        arg1: usize,
        arg2: usize,
        pid: usize,
        ro: &[u8],
        rw_len: usize,
    ) -> (r: CommandReturn)
        requires
            old(self).wf(),
            pid < old(self).processes@.len(),
        ensures
            final(self).wf(),
            command_post(*old(self), *final(self), command_num, arg1, arg2, pid, ro@, rw_len, r),
    {
        if command_num == 0 {
            CommandReturn::Success
        } else if command_num == 3 {
            self.command_enable(pid)
        } else if command_num == 4 {
            self.command_disable(pid)
        } else if command_num == 5 || command_num == 6 {
            self.command_send(pid, command_num == 6, arg1, arg2, ro)
        } else if command_num == 7 {
            self.command_receive(pid, rw_len)
        } else if command_num == 8 {
            self.command_stop(pid)
        } else if command_num == 10 || command_num == 11 {
            self.command_subscribe(pid, command_num == 11, arg1, arg2)
        } else if command_num == 12 {
            self.command_clear(pid)
        } else if command_num == 13 {
            CommandReturn::SuccessU32(MAX_APP_SUBSCRIPTIONS as u32)
        } else {
            CommandReturn::Failure(ErrorCode::NOSUPPORT)
        }
    }
}

/// The code reported to processes when enabling completes, and whether the
/// controller is now known to be running.
pub open spec fn enable_code(status: Result<(), ErrorCode>, state: Option<CanState>) -> (nat, bool) {
    match status {
        Ok(()) => match state {
            Some(CanState::Running) => (0, true),
            Some(CanState::Error(e)) => (can_error_number(e), false),
            _ => (error_code_number(ErrorCode::OFF), false),
        },
        Err(e) => (error_code_number(e), false),
    }
}

/// The code reported to processes when disabling completes.
pub open spec fn disable_code(status: Result<(), ErrorCode>, state: Option<CanState>) -> nat {
    match status {
        Ok(()) => match state {
            Some(CanState::Disabled) => 0,
            Some(CanState::Error(e)) => can_error_number(e),
            _ => error_code_number(ErrorCode::FAIL),
        },
        Err(e) => error_code_number(e),
    }
}

/// A process after enabling completed with `code`.
pub open spec fn app_after_enabled(app: App, code: nat) -> App {
    if app.awaiting_enable {
        App { awaiting_enable: false, enabled: if code != 0 {
            false
        } else {
            app.enabled
        }, ..app }
    } else {
        app
    }
}

/// `n + 1`, wrapping to 0 past the largest `u32`.
pub open spec fn wrapping_inc(n: u32) -> u32 {
    if n == u32::MAX {
        0
    } else {
        (n + 1) as u32
    }
}

/// One upcall, or none.
pub open spec fn opt_upcall(cond: bool, u: Upcall) -> Seq<Upcall> {
    if cond {
        seq![u]
    } else {
        Seq::empty()
    }
}

/// The upcalls to the first `n` processes waiting on enabling.
pub open spec fn enable_upcalls(apps: Seq<App>, code: nat, n: nat) -> Seq<Upcall>
    decreases n,
{
    if n == 0 {
        Seq::empty()
    } else {
        enable_upcalls(apps, code, (n - 1) as nat) + opt_upcall(
            apps[n - 1].awaiting_enable,
            upcall((n - 1) as usize, UPCALL_ENABLE, code as usize, 0, 0),
        )
    }
}

/// The upcalls to the first `n` processes waiting on disabling.
pub open spec fn disable_upcalls(apps: Seq<App>, code: nat, n: nat) -> Seq<Upcall>
    decreases n,
{
    if n == 0 {
        Seq::empty()
    } else {
        disable_upcalls(apps, code, (n - 1) as nat) + opt_upcall(
            apps[n - 1].awaiting_disable,
            upcall((n - 1) as usize, UPCALL_DISABLE, code as usize, 0, 0),
        )
    }
}

/// The upcalls telling the first `n` processes that are not receiving that
/// reception stopped.
pub open spec fn stopped_upcalls(apps: Seq<App>, n: nat) -> Seq<Upcall>
    decreases n,
{
    if n == 0 {
        Seq::empty()
    } else {
        stopped_upcalls(apps, (n - 1) as nat) + opt_upcall(
            !apps[n - 1].receiving,
            upcall((n - 1) as usize, UPCALL_RECEIVED_STOPPED, 0, 0, 0),
        )
    }
}

/// The error upcalls to the first `n` receiving processes for a failed
/// reception.
pub open spec fn rx_error_upcalls(apps: Seq<App>, err: CanError, n: nat) -> Seq<Upcall>
    decreases n,
{
    if n == 0 {
        Seq::empty()
    } else {
        rx_error_upcalls(apps, err, (n - 1) as nat) + opt_upcall(
            apps[n - 1].receiving,
            upcall(
                (n - 1) as usize,
                UPCALL_TRANSMISSION_ERROR,
                ERROR_RX,
                can_error_number(err) as usize,
                0,
            ),
        )
    }
}

/// The processes among the first `n` that get a received frame: those
/// receiving with a subscription matching it.
pub open spec fn recipients(apps: Seq<App>, id: CanId, n: nat) -> Seq<usize>
    decreases n,
{
    if n == 0 {
        Seq::empty()
    } else {
        let prev = recipients(apps, id, (n - 1) as nat);
        if apps[n - 1].receiving && app_matches(apps[n - 1], id) {
            prev.push((n - 1) as usize)
        } else {
            prev
        }
    }
}

impl<C: CanController, S: Subscribe> CanCapsule<C, S> {
    /// The controller reports a new state; it is consulted when enabling or
    /// disabling completes.
    pub fn state_changed(&mut self, state: CanState)
        ensures
            final(self).peripheral_state == Some(state),
            final(self).processes@ == old(self).processes@,
            final(self).can == old(self).can,
            final(self).subscriber == old(self).subscriber,
            final(self).can_tx == old(self).can_tx,
            final(self).can_rx == old(self).can_rx,
            final(self).tx_inflight == old(self).tx_inflight,
            final(self).enable_count == old(self).enable_count,
            final(self).receive_count == old(self).receive_count,
            final(self).hw_enabled == old(self).hw_enabled,
            final(self).hw_receiving == old(self).hw_receiving,
            final(self).upcalls@ == old(self).upcalls@,
    {
        self.peripheral_state = Some(state);
    }

    /// Enabling completed: every process waiting on it hears the code (zero
    /// for success); on failure the waiting processes are no longer enabled
    /// and the enable count restarts from zero.
    pub fn enabled(&mut self, status: Result<(), ErrorCode>)
        requires
            old(self).wf(),
        ensures
            final(self).wf(),
            ({
                let (code, running) = enable_code(status, old(self).peripheral_state);
                &&& final(self).peripheral_state is None
                &&& final(self).hw_enabled == (old(self).hw_enabled || running)
                &&& final(self).enable_count == if code != 0 {
                    0
                } else {
                    old(self).enable_count
                }
                &&& final(self).processes@ == Seq::new(
                    old(self).processes@.len(),
                    |i: int| app_after_enabled(old(self).processes@[i], code),
                )
                &&& final(self).upcalls@ == old(self).upcalls@ + enable_upcalls(
                    old(self).processes@,
                    code,
                    old(self).processes@.len(),
                )
            }),
            final(self).can == old(self).can,
            final(self).subscriber == old(self).subscriber,
            final(self).can_tx == old(self).can_tx,
            final(self).can_rx == old(self).can_rx,
            final(self).tx_inflight == old(self).tx_inflight,
            final(self).receive_count == old(self).receive_count,
            final(self).hw_receiving == old(self).hw_receiving,
    {
        let state = self.peripheral_state.take();
        let code: usize = match status {
            Ok(()) => match state {
                Some(CanState::Running) => {
                    self.hw_enabled = true;
                    0
                },
                Some(CanState::Error(e)) => e.number(),
                _ => ErrorCode::OFF.number(),
            },
            Err(e) => e.number(),
        };
        if code != 0 {
            self.enable_count = 0;
        }
        let ghost apps = self.processes@;
        let mut i: usize = 0;
        while i < self.processes.len()
            invariant
                apps == old(self).processes@,
                code == enable_code(status, old(self).peripheral_state).0,
                i <= self.processes@.len(),
                self.processes@.len() == apps.len(),
                forall|j: int| 0 <= j < i ==> self.processes@[j] == app_after_enabled(apps[j], code as nat),
                forall|j: int| i <= j < apps.len() ==> self.processes@[j] == apps[j],
                count_apps(self.processes@, true) == count_apps(apps, true),
                code == 0 ==> count_apps(self.processes@, false) == count_apps(apps, false),
                code == 0 ==> self.enable_count == old(self).enable_count,
                code != 0 ==> self.enable_count == 0,
                old(self).wf(),
                self.peripheral_state is None,
                self.hw_enabled == (old(self).hw_enabled || enable_code(status, old(self).peripheral_state).1),
                self.can == old(self).can,
                self.subscriber == old(self).subscriber,
                self.can_tx == old(self).can_tx,
                self.can_rx == old(self).can_rx,
                self.tx_inflight == old(self).tx_inflight,
                self.receive_count == old(self).receive_count,
                self.hw_receiving == old(self).hw_receiving,
                self.upcalls@ == old(self).upcalls@ + enable_upcalls(apps, code as nat, i as nat),
            decreases self.processes@.len() - i,
        {
            let mut app = self.processes[i];
            if app.awaiting_enable {
                app.awaiting_enable = false;
                if code != 0 {
                    app.enabled = false;
                }
                proof {
                    lemma_count_apps_update(self.processes@, false, i as int, app);
                    lemma_count_apps_update(self.processes@, true, i as int, app);
                }
                self.processes[i] = app;
                self.upcalls.push(Upcall { process: i, number: UPCALL_ENABLE, arg0: code, arg1: 0, arg2: 0 });
            }
            proof {
                assert(self.upcalls@ =~= old(self).upcalls@ + enable_upcalls(apps, code as nat, (i + 1) as nat));
            }
            i = i + 1;
        }
        proof {
            assert(self.processes@ =~= Seq::new(apps.len(), |j: int| app_after_enabled(apps[j], code as nat)));
        }
    }

    /// Disabling completed: every process waiting on it hears the code.
    pub fn disabled(&mut self, status: Result<(), ErrorCode>)
        requires
            old(self).wf(),
        ensures
            final(self).wf(),
            final(self).peripheral_state is None,
            !final(self).hw_enabled,
            !final(self).hw_receiving,
            final(self).processes@ == Seq::new(
                old(self).processes@.len(),
                |i: int| if old(self).processes@[i].awaiting_disable {
                    App { awaiting_disable: false, ..old(self).processes@[i] }
                } else {
                    old(self).processes@[i]
                },
            ),
            final(self).upcalls@ == old(self).upcalls@ + disable_upcalls(
                old(self).processes@,
                disable_code(status, old(self).peripheral_state),
                old(self).processes@.len(),
            ),
            final(self).can == old(self).can,
            final(self).subscriber == old(self).subscriber,
            final(self).can_tx == old(self).can_tx,
            final(self).can_rx == old(self).can_rx,
            final(self).tx_inflight == old(self).tx_inflight,
            final(self).enable_count == old(self).enable_count,
            final(self).receive_count == old(self).receive_count,
    {
        self.hw_enabled = false;
        self.hw_receiving = false;
        let state = self.peripheral_state.take();
        let code: usize = match status {
            Ok(()) => match state {
                Some(CanState::Disabled) => 0,
                Some(CanState::Error(e)) => e.number(),
                _ => ErrorCode::FAIL.number(),
            },
            Err(e) => e.number(),
        };
        let ghost apps = self.processes@;
        let mut i: usize = 0;
        while i < self.processes.len()
            invariant
                apps == old(self).processes@,
                code == disable_code(status, old(self).peripheral_state),
                i <= self.processes@.len(),
                self.processes@.len() == apps.len(),
                forall|j: int| 0 <= j < i ==> self.processes@[j] == if apps[j].awaiting_disable {
                    App { awaiting_disable: false, ..apps[j] }
                } else {
                    apps[j]
                },
                forall|j: int| i <= j < apps.len() ==> self.processes@[j] == apps[j],
                count_apps(self.processes@, true) == count_apps(apps, true),
                count_apps(self.processes@, false) == count_apps(apps, false),
                old(self).wf(),
                self.peripheral_state is None,
                !self.hw_enabled,
                !self.hw_receiving,
                self.can == old(self).can,
                self.subscriber == old(self).subscriber,
                self.can_tx == old(self).can_tx,
                self.can_rx == old(self).can_rx,
                self.tx_inflight == old(self).tx_inflight,
                self.enable_count == old(self).enable_count,
                self.receive_count == old(self).receive_count,
                self.upcalls@ == old(self).upcalls@ + disable_upcalls(apps, code as nat, i as nat),
            decreases self.processes@.len() - i,
        {
            let mut app = self.processes[i];
            if app.awaiting_disable {
                app.awaiting_disable = false;
                proof {
                    lemma_count_apps_update(self.processes@, false, i as int, app);
                    lemma_count_apps_update(self.processes@, true, i as int, app);
                }
                self.processes[i] = app;
                self.upcalls.push(Upcall { process: i, number: UPCALL_DISABLE, arg0: code, arg1: 0, arg2: 0 });
            }
            proof {
                assert(self.upcalls@ =~= old(self).upcalls@ + disable_upcalls(apps, code as nat, (i + 1) as nat));
            }
            i = i + 1;
        }
        proof {
            assert(self.processes@ =~= Seq::new(
                apps.len(),
                |j: int| if apps[j].awaiting_disable {
                    App { awaiting_disable: false, ..apps[j] }
                } else {
                    apps[j]
                },
            ));
        }
    }

    /// Reception stopped and the controller returned the receive buffer;
    /// every process not receiving is told.
    pub fn stopped(&mut self, buffer: Frame)
        ensures
            final(self).can_rx == Some(buffer),
            !final(self).hw_receiving,
            final(self).processes@ == old(self).processes@,
            final(self).can == old(self).can,
            final(self).subscriber == old(self).subscriber,
            final(self).can_tx == old(self).can_tx,
            final(self).tx_inflight == old(self).tx_inflight,
            final(self).peripheral_state == old(self).peripheral_state,
            final(self).enable_count == old(self).enable_count,
            final(self).receive_count == old(self).receive_count,
            final(self).hw_enabled == old(self).hw_enabled,
            final(self).upcalls@ == old(self).upcalls@ + stopped_upcalls(
                old(self).processes@,
                old(self).processes@.len(),
            ),
    {
        self.can_rx = Some(buffer);
        self.hw_receiving = false;
        let mut i: usize = 0;
        while i < self.processes.len()
            invariant
                i <= self.processes@.len(),
                self.processes@ == old(self).processes@,
                self.can_rx == Some(buffer),
                !self.hw_receiving,
                self.can == old(self).can,
                self.subscriber == old(self).subscriber,
                self.can_tx == old(self).can_tx,
                self.tx_inflight == old(self).tx_inflight,
                self.peripheral_state == old(self).peripheral_state,
                self.enable_count == old(self).enable_count,
                self.receive_count == old(self).receive_count,
                self.hw_enabled == old(self).hw_enabled,
                self.upcalls@ == old(self).upcalls@ + stopped_upcalls(old(self).processes@, i as nat),
            decreases self.processes@.len() - i,
        {
            if !self.processes[i].receiving {
                self.upcalls.push(
                    Upcall { process: i, number: UPCALL_RECEIVED_STOPPED, arg0: 0, arg1: 0, arg2: 0 },
                );
            }
            proof {
                assert(self.upcalls@ =~= old(self).upcalls@ + stopped_upcalls(old(self).processes@, (i + 1) as nat));
            }
            i = i + 1;
        }
    }

    /// Whether some subscription of process `pid` accepts `id`.
    pub fn app_accepts(&self, pid: usize, id: CanId) -> (r: bool)
        requires
            pid < self.processes@.len(),
        ensures
            r == app_matches(self.processes@[pid as int], id),
    {
        let app = self.processes[pid];
        let mut i: usize = 0;
        while i < 4
            invariant
                i <= 4,
                app == self.processes@[pid as int],
                forall|j: int| 0 <= j < i ==> !#[trigger] slot_accepts(app.subscriptions[j], id),
            decreases 4 - i,
        {
            if let Some(s) = app.subscriptions[i] {
                if subscription_matches(&s, id) {
                    assert(slot_accepts(app.subscriptions[i as int], id));
                    return true;
                }
            }
            i = i + 1;
        }
        false
    }

    /// A frame arrived. On a reception error every receiving process hears
    /// of it; otherwise the frame's chunk is returned for each receiving
    /// process with a matching subscription, in process order, to be
    /// appended to that process's receive buffer.
    pub fn message_received(
        &mut self,
        id: CanId,
        frame: &Frame,
        len: usize,
        status: Result<(), CanError>,
    ) -> (r: Vec<Delivery>)
        ensures
            final(self).processes@ == old(self).processes@,
            final(self).can == old(self).can,
            final(self).subscriber == old(self).subscriber,
            final(self).can_tx == old(self).can_tx,
            final(self).can_rx == old(self).can_rx,
            final(self).tx_inflight == old(self).tx_inflight,
            final(self).peripheral_state == old(self).peripheral_state,
            final(self).enable_count == old(self).enable_count,
            final(self).receive_count == old(self).receive_count,
            final(self).hw_enabled == old(self).hw_enabled,
            final(self).hw_receiving == old(self).hw_receiving,
            match status {
                Err(e) => r@.len() == 0 && final(self).upcalls@ == old(self).upcalls@
                    + rx_error_upcalls(old(self).processes@, e, old(self).processes@.len()),
                Ok(()) => {
                    &&& final(self).upcalls@ == old(self).upcalls@
                    &&& r@.map_values(|d: Delivery| d.process) == recipients(
                        old(self).processes@,
                        id,
                        old(self).processes@.len(),
                    )
                    &&& forall|k: int|
                        0 <= k < r@.len() ==> (#[trigger] r@[k]).chunk@ == spec_chunk(
                            id,
                            *frame,
                            len,
                        ) && r@[k].raw_id == spec_raw_id(id)
                },
            },
    {
        let mut r: Vec<Delivery> = Vec::new();
        match status {
            Err(e) => {
                let mut i: usize = 0;
                while i < self.processes.len()
                    invariant
                        i <= self.processes@.len(),
                        r@.len() == 0,
                        self.processes@ == old(self).processes@,
                        self.can == old(self).can,
                        self.subscriber == old(self).subscriber,
                        self.can_tx == old(self).can_tx,
                        self.can_rx == old(self).can_rx,
                        self.tx_inflight == old(self).tx_inflight,
                        self.peripheral_state == old(self).peripheral_state,
                        self.enable_count == old(self).enable_count,
                        self.receive_count == old(self).receive_count,
                        self.hw_enabled == old(self).hw_enabled,
                        self.hw_receiving == old(self).hw_receiving,
                        self.upcalls@ == old(self).upcalls@ + rx_error_upcalls(old(self).processes@, e, i as nat),
                    decreases self.processes@.len() - i,
                {
                    if self.processes[i].receiving {
                        self.upcalls.push(
                            Upcall {
                                process: i,
                                number: UPCALL_TRANSMISSION_ERROR,
                                arg0: ERROR_RX,
                                arg1: e.number(),
                                arg2: 0,
                            },
                        );
                    }
                    proof {
                        assert(self.upcalls@ =~= old(self).upcalls@ + rx_error_upcalls(old(self).processes@, e, (i + 1) as nat));
                    }
                    i = i + 1;
                }
            },
            Ok(()) => {
                let chunk = build_chunk(id, frame, len);
                let raw = raw_id(id);
                let mut i: usize = 0;
                while i < self.processes.len()
                    invariant
                        i <= self.processes@.len(),
                        *self == *old(self),
                        chunk@ == spec_chunk(id, *frame, len),
                        raw == spec_raw_id(id),
                        r@.map_values(|d: Delivery| d.process) == recipients(self.processes@, id, i as nat),
                        forall|k: int|
                            0 <= k < r@.len() ==> (#[trigger] r@[k]).chunk@ == spec_chunk(
                                id,
                                *frame,
                                len,
                            ) && r@[k].raw_id == spec_raw_id(id),
                    decreases self.processes@.len() - i,
                {
                    let ghost before = r@;
                    if self.processes[i].receiving && self.app_accepts(i, id) {
                        r.push(Delivery { process: i, chunk, raw_id: raw });
                        proof {
                            assert(r@.map_values(|d: Delivery| d.process) =~= before.map_values(|d: Delivery| d.process).push(i));
                        }
                    }
                    i = i + 1;
                }
            },
        }
        r
    }

    /// The outcome of appending a received chunk to process `pid`'s buffer:
    /// the process is told the new write offset and the identifier, or of
    /// the error. A chunk that did not fit counts as a lost message.
    pub fn delivery_complete(&mut self, pid: usize, outcome: AppendOutcome, raw: u32)
        requires
            old(self).wf(),
            pid < old(self).processes@.len(),
        ensures
            final(self).wf(),
            same_io(*final(self), *old(self)),
            final(self).enable_count == old(self).enable_count,
            final(self).receive_count == old(self).receive_count,
            final(self).hw_enabled == old(self).hw_enabled,
            final(self).hw_receiving == old(self).hw_receiving,
            outcome is Appended ==> final(self).processes@ == old(self).processes@,
            outcome is Appended ==> final(self).upcalls@ == old(self).upcalls@.push(
                upcall(pid, UPCALL_MESSAGE_RECEIVED, 0, outcome->Appended_0 as usize, raw as usize),
            ),
            outcome is Rejected ==> final(self).processes@ == old(self).processes@.update(
                pid as int,
                (App {
                    lost_messages: wrapping_inc(old(self).processes@[pid as int].lost_messages),
                    ..old(self).processes@[pid as int]
                }),
            ),
            outcome is Rejected ==> final(self).upcalls@ == old(self).upcalls@.push(
                upcall(pid, UPCALL_TRANSMISSION_ERROR, ERROR_RX, error_code_number(outcome->Rejected_0) as usize, 0),
            ),
            outcome is Unavailable ==> final(self).processes@ == old(self).processes@,
            outcome is Unavailable ==> final(self).upcalls@ == old(self).upcalls@.push(
                upcall(pid, UPCALL_TRANSMISSION_ERROR, ERROR_RX, error_code_number(outcome->Unavailable_0) as usize, 0),
            ),
    {
        match outcome {
            AppendOutcome::Appended(offset) => {
                self.upcall(pid, UPCALL_MESSAGE_RECEIVED, 0, offset as usize, raw as usize);
            },
            AppendOutcome::Rejected(e) => {
                let mut app = self.processes[pid];
                app.lost_messages = app.lost_messages.wrapping_add(1);
                self.set_app(pid, app);
                self.upcall(pid, UPCALL_TRANSMISSION_ERROR, ERROR_RX, e.number(), 0);
            },
            AppendOutcome::Unavailable(e) => {
                self.upcall(pid, UPCALL_TRANSMISSION_ERROR, ERROR_RX, e.number(), 0);
            },
        }
    }
}

/// `u` reports to a process that the controller refused its queued frame,
/// which it has lost: a transmission error upcall for a process that had a
/// frame queued in `before` and has it no more in `after`.
pub open spec fn tx_refused<C, S>(
    u: Upcall,
    before: CanCapsule<C, S>,
    after: CanCapsule<C, S>,
) -> bool {
    &&& u.number == UPCALL_TRANSMISSION_ERROR
    &&& u.arg0 == ERROR_TX
    &&& u.arg2 == 0
    &&& u.process < before.processes@.len()
    &&& before.processes@[u.process as int].tx_pending is Some
    &&& after.processes@[u.process as int].tx_pending is None
}

/// Some upcall of `ups` from index `from` on goes to process `q`.
pub open spec fn reported(ups: Seq<Upcall>, from: int, q: int) -> bool {
    exists|k: int| #![trigger ups[k]] from <= k < ups.len() && ups[k].process == q
}

/// The controller's last request sent the frame `pending` held, and the
/// transmit buffer went with it: the identifier and length as queued, the
/// first `length` bytes as queued.
pub open spec fn sent_queued(
    log: Seq<CanRequest>,
    pending: Option<(CanId, usize, Frame)>,
    can_tx: Option<Frame>,
) -> bool {
    &&& log.len() > 0
    &&& can_tx is None
    &&& pending matches Some((qid, qlen, qframe))
    &&& log.last() matches CanRequest::Send(sid, sframe, slen)
    &&& sid == qid
    &&& slen == qlen
    &&& qlen <= 8
    &&& forall|b: int| 0 <= b < qlen ==> sframe@[b] == qframe@[b]
}

/// `new` is `old` with, at most, its queued frame taken.
pub open spec fn tx_maybe_taken(new: App, old: App) -> bool {
    &&& new == (App { tx_pending: new.tx_pending, ..old })
    &&& new.tx_pending is None || new.tx_pending == old.tx_pending
}

impl<C: CanController, S: Subscribe> CanCapsule<C, S> {
    /// Hand the transmitter to the first process, in process order, with a
    /// queued frame. A process whose frame the controller refuses is told
    /// so and loses the frame; the scan goes on to the next.
    pub fn next_transmission(&mut self)
        requires
            old(self).wf(),
        ensures
            final(self).wf(),
            final(self).subscriber == old(self).subscriber,
            final(self).can_rx == old(self).can_rx,
            final(self).peripheral_state == old(self).peripheral_state,
            final(self).enable_count == old(self).enable_count,
            final(self).receive_count == old(self).receive_count,
            final(self).hw_enabled == old(self).hw_enabled,
            final(self).hw_receiving == old(self).hw_receiving,
            final(self).processes@.len() == old(self).processes@.len(),
            final(self).upcalls@.len() >= old(self).upcalls@.len(),
            final(self).upcalls@.subrange(0, old(self).upcalls@.len() as int) == old(self).upcalls@,
            old(self).tx_inflight is Some ==> *final(self) == *old(self),
            forall|i: int|
                0 <= i < old(self).processes@.len() ==> tx_maybe_taken(
                    #[trigger] final(self).processes@[i],
                    old(self).processes@[i],
                ),
            old(self).tx_inflight is None && final(self).tx_inflight is Some ==> ({
                let p = final(self).tx_inflight.unwrap() as int;
                &&& old(self).processes@[p].tx_pending is Some
                &&& final(self).processes@[p].tx_pending is None
                &&& sent_queued(
                    final(self).can.requests(),
                    old(self).processes@[p].tx_pending,
                    final(self).can_tx,
                )
            }),
            (forall|i: int|
                0 <= i < old(self).processes@.len() ==> (#[trigger] old(
                    self,
                ).processes@[i]).tx_pending is None) ==> *final(self) == *old(self),
            old(self).tx_inflight is None ==> forall|q: int|
                #![trigger final(self).processes@[q]]
                0 <= q < old(self).processes@.len() && (final(self).tx_inflight is None || q
                    < final(self).tx_inflight.unwrap()) ==> final(self).processes@[q].tx_pending is None,
            old(self).tx_inflight is None && final(self).tx_inflight is Some ==> forall|q: int|
                #![trigger final(self).processes@[q]]
                final(self).tx_inflight.unwrap() < q < old(self).processes@.len() ==> final(self).processes@[q]
                    == old(self).processes@[q],
            forall|k: int|
                #![trigger final(self).upcalls@[k]]
                old(self).upcalls@.len() <= k < final(self).upcalls@.len() ==> tx_refused(
                    final(self).upcalls@[k],
                    *old(self),
                    *final(self),
                ),
            old(self).tx_inflight is None ==> forall|q: int|
                #![trigger final(self).processes@[q]]
                0 <= q < old(self).processes@.len() && old(self).processes@[q].tx_pending is Some
                    && final(self).processes@[q].tx_pending is None && final(self).tx_inflight
                    != Some(q as usize) ==> reported(
                    final(self).upcalls@,
                    old(self).upcalls@.len() as int,
                    q,
                ),
    {
        if self.tx_inflight.is_some() {
            return;
        }
        let mut p: usize = 0;
        while p < self.processes.len()
            invariant
                p <= self.processes@.len(),
                self.processes@.len() == old(self).processes@.len(),
                self.upcalls@.len() >= old(self).upcalls@.len(),
                self.upcalls@.subrange(0, old(self).upcalls@.len() as int) == old(self).upcalls@,
                self.wf(),
                self.tx_inflight is None,
                old(self).tx_inflight is None,
                self.subscriber == old(self).subscriber,
                self.can_rx == old(self).can_rx,
                self.peripheral_state == old(self).peripheral_state,
                self.enable_count == old(self).enable_count,
                self.receive_count == old(self).receive_count,
                self.hw_enabled == old(self).hw_enabled,
                self.hw_receiving == old(self).hw_receiving,
                forall|i: int|
                    0 <= i < old(self).processes@.len() ==> tx_maybe_taken(
                        #[trigger] self.processes@[i],
                        old(self).processes@[i],
                    ),
                forall|i: int| p <= i < old(self).processes@.len() ==> #[trigger] self.processes@[i]
                    == old(self).processes@[i],
                forall|q: int| 0 <= q < p ==> (#[trigger] self.processes@[q]).tx_pending is None,
                forall|k: int|
                    old(self).upcalls@.len() <= k < self.upcalls@.len() ==> tx_refused(
                        #[trigger] self.upcalls@[k],
                        *old(self),
                        *self,
                    ) && self.upcalls@[k].process < p,
                forall|q: int|
                    #![trigger old(self).processes@[q]]
                    0 <= q < p && old(self).processes@[q].tx_pending is Some ==> reported(
                        self.upcalls@,
                        old(self).upcalls@.len() as int,
                        q,
                    ),
                (forall|i: int|
                    0 <= i < old(self).processes@.len() ==> (#[trigger] old(
                        self,
                    ).processes@[i]).tx_pending is None) ==> *self == *old(self),
            decreases self.processes@.len() - p,
        {
            let mut app = self.processes[p];
            if let Some((id, length, frame)) = app.tx_pending {
                app.tx_pending = None;
                let ghost before = *self;
                self.set_app(p, app);
                assert forall|k: int|
                    old(self).upcalls@.len() <= k < self.upcalls@.len() implies tx_refused(
                    #[trigger] self.upcalls@[k],
                    *old(self),
                    *self,
                ) && self.upcalls@[k].process < p by {
                    assert(tx_refused(before.upcalls@[k], *old(self), before));
                }
                match self.start_transmission(id, &frame, length) {
                    Ok(()) => {
                        self.tx_inflight = Some(p);
                        proof {
                            let f = self.can.requests().last()->Send_1;
                            assert forall|b: int| 0 <= b < length implies f@[b] == frame@[b] by {
                                assert(f@ == spec_overlay(before.can_tx.unwrap()@, frame@, length as nat));
                            }
                        }
                        return;
                    },
                    Err(err) => {
                        let ghost mid = self.upcalls@;
                        self.upcall(p, UPCALL_TRANSMISSION_ERROR, ERROR_TX, err.number(), 0);
                        assert(self.upcalls@[mid.len() as int].process == p);
                        assert forall|q: int|
                            0 <= q < p && old(self).processes@[q].tx_pending is Some implies reported(
                            self.upcalls@,
                            old(self).upcalls@.len() as int,
                            q,
                        ) by {
                            let k = choose|k: int|
                                #![trigger mid[k]]
                                old(self).upcalls@.len() <= k < mid.len() && mid[k].process == q;
                            assert(self.upcalls@[k] == mid[k]);
                        }
                    },
                }
            }
            p = p + 1;
        }
    }

    /// The controller finished a transmission: the transmit buffer comes
    /// back, the sending process hears the outcome, and the next queued frame
    /// goes out.
    pub fn transmit_complete(&mut self, status: Result<(), CanError>, buffer: Frame)
        requires
            old(self).wf(),
        ensures
            final(self).wf(),
            final(self).subscriber == old(self).subscriber,
            final(self).can_rx == old(self).can_rx,
            final(self).peripheral_state == old(self).peripheral_state,
            final(self).enable_count == old(self).enable_count,
            final(self).receive_count == old(self).receive_count,
            final(self).hw_enabled == old(self).hw_enabled,
            final(self).hw_receiving == old(self).hw_receiving,
            forall|i: int|
                0 <= i < old(self).processes@.len() ==> tx_maybe_taken(
                    #[trigger] final(self).processes@[i],
                    old(self).processes@[i],
                ),
            final(self).upcalls@.len() >= old(self).upcalls@.len() + if old(self).tx_inflight is Some {
                1int
            } else {
                0int
            },
            old(self).tx_inflight matches Some(p) ==> final(self).upcalls@[old(self).upcalls@.len() as int]
                == match status {
                Ok(()) => upcall(p, UPCALL_MESSAGE_SENT, 0, 0, 0),
                Err(e) => upcall(
                    p,
                    UPCALL_TRANSMISSION_ERROR,
                    ERROR_TX,
                    can_error_number(e) as usize,
                    0,
                ),
            },
            (forall|i: int|
                0 <= i < old(self).processes@.len() ==> (#[trigger] old(
                    self,
                ).processes@[i]).tx_pending is None) ==> final(self).can_tx == Some(buffer)
                && final(self).tx_inflight is None,
            final(self).tx_inflight matches Some(p) ==> p < old(self).processes@.len() && sent_queued(
                final(self).can.requests(),
                old(self).processes@[p as int].tx_pending,
                final(self).can_tx,
            ),
    {
        self.can_tx = Some(buffer);
        match self.tx_inflight.take() {
            Some(p) => match status {
                Ok(()) => self.upcall(p, UPCALL_MESSAGE_SENT, 0, 0, 0),
                Err(e) => self.upcall(p, UPCALL_TRANSMISSION_ERROR, ERROR_TX, e.number(), 0),
            },
            None => {},
        }
        let ghost mid = self.upcalls@;
        self.next_transmission();
        proof {
            if old(self).tx_inflight is Some {
                assert(self.upcalls@[old(self).upcalls@.len() as int] == self.upcalls@.subrange(0, mid.len() as int)[old(self).upcalls@.len() as int]);
            }
        }
    }
}

/// Reception is opt-in: a process without subscriptions matches no frame,
/// and a received frame goes to a process exactly when it is receiving and
/// one of its subscriptions matches; every process gets it at most once, in
/// process order.
pub proof fn capsule_reception_is_opt_in(apps: Seq<App>, id: CanId, n: nat, i: usize)
    requires
        n <= apps.len(),
        apps.len() <= usize::MAX,
        i < apps.len(),
    ensures
        (forall|k: int| 0 <= k < 4 ==> apps[i as int].subscriptions[k] is None) ==> !app_matches(
            apps[i as int],
            id,
        ),
        recipients(apps, id, n).contains(i) <==> (i < n && apps[i as int].receiving && app_matches(
            apps[i as int],
            id,
        )),
        forall|a: int, b: int|
            0 <= a < b < recipients(apps, id, n).len() ==> recipients(apps, id, n)[a] < recipients(
                apps,
                id,
                n,
            )[b],
        forall|a: int| 0 <= a < recipients(apps, id, n).len() ==> recipients(apps, id, n)[a] < n,
    decreases n,
{
    if n > 0 {
        capsule_reception_is_opt_in(apps, id, (n - 1) as nat, i);
        let prev = recipients(apps, id, (n - 1) as nat);
        let cur = recipients(apps, id, n);
        if apps[n - 1].receiving && app_matches(apps[n - 1], id) {
            assert(cur == prev.push((n - 1) as usize));
            if cur.contains(i) {
                let x = choose|x: int| 0 <= x < cur.len() && cur[x] == i;
                if x < prev.len() {
                    assert(prev[x] == cur[x]);
                    assert(prev.contains(i));
                }
            }
            if i < n && apps[i as int].receiving && app_matches(apps[i as int], id) {
                if i < n - 1 {
                    assert(prev.contains(i));
                    let x = choose|x: int| 0 <= x < prev.len() && prev[x] == i;
                    assert(cur[x] == prev[x]);
                } else {
                    assert(cur[prev.len() as int] == i);
                }
            }
            assert forall|a: int, b: int| 0 <= a < b < cur.len() implies cur[a] < cur[b] by {
                if b < prev.len() {
                    assert(cur[a] == prev[a] && cur[b] == prev[b]);
                } else {
                    assert(cur[a] == prev[a]);
                }
            }
            assert forall|a: int| 0 <= a < cur.len() implies cur[a] < n by {
                if a < prev.len() {
                    assert(cur[a] == prev[a]);
                }
            }
        } else {
            assert(cur == prev);
        }
    }
}

/// A receive chunk carries its frame whole: the identifier reads back from
/// its first four bytes (little endian) and its class from the flag bit, the
/// length (at most 8) from byte 4, and the data from byte 8 on; the
/// reserved bytes are zero.
pub proof fn chunk_carries_frame(id: CanId, frame: Frame, len: usize)
    ensures
        spec_chunk(id, frame, len).len() == RX_CHUNK_SIZE,
        (spec_chunk(id, frame, len)[0] as u32) | ((spec_chunk(id, frame, len)[1] as u32) << 8u32) | ((
        spec_chunk(id, frame, len)[2] as u32) << 16u32) | ((spec_chunk(id, frame, len)[3] as u32)
            << 24u32) == spec_raw_id(id),
        (spec_chunk(id, frame, len)[5] & CHUNK_FLAG_EXTENDED != 0) == spec_is_extended(id),
        spec_chunk(id, frame, len)[4] == if len < 8 {
            len as u8
        } else {
            8u8
        },
        spec_chunk(id, frame, len)[6] == 0 && spec_chunk(id, frame, len)[7] == 0,
        spec_chunk(id, frame, len).subrange(8, 16) == frame@,
{
    let raw = spec_raw_id(id);
    let c = spec_chunk(id, frame, len);
    assert(c.subrange(8, 16) =~= frame@);
    let b0 = (raw & 0xff) as u8;
    let b1 = ((raw >> 8u32) & 0xff) as u8;
    let b2 = ((raw >> 16u32) & 0xff) as u8;
    let b3 = ((raw >> 24u32) & 0xff) as u8;
    assert((b0 as u32) | ((b1 as u32) << 8u32) | ((b2 as u32) << 16u32) | ((b3 as u32) << 24u32) == raw)
        by (bit_vector)
        requires
            b0 == (raw & 0xff) as u8,
            b1 == ((raw >> 8u32) & 0xff) as u8,
            b2 == ((raw >> 16u32) & 0xff) as u8,
            b3 == ((raw >> 24u32) & 0xff) as u8,
    ;
    assert(CHUNK_FLAG_EXTENDED & CHUNK_FLAG_EXTENDED != 0) by (bit_vector);
    assert(0u8 & CHUNK_FLAG_EXTENDED == 0) by (bit_vector);
}

proof fn lemma_class_only(all: Seq<Subscription>, extended: bool, n: nat, k: int)
    requires
        n <= all.len(),
    ensures
        forall|m: int|
            0 <= m < class_only(all, extended, n).len() ==> spec_is_extended(
                #[trigger] class_only(all, extended, n)[m].id,
            ) == extended,
        0 <= k < n && spec_is_extended(all[k].id) == extended ==> exists|m: int|
            0 <= m < class_only(all, extended, n).len() && #[trigger] class_only(all, extended, n)[m]
                == all[k],
    decreases n,
{
    if n > 0 {
        lemma_class_only(all, extended, (n - 1) as nat, k);
        let prev = class_only(all, extended, (n - 1) as nat);
        if k == n - 1 && spec_is_extended(all[k].id) == extended {
            assert(class_only(all, extended, n)[prev.len() as int] == all[k]);
        } else if 0 <= k < n - 1 && spec_is_extended(all[k].id) == extended {
            let m = choose|m: int| 0 <= m < prev.len() && #[trigger] prev[m] == all[k];
            assert(class_only(all, extended, n)[m] == all[k]);
        }
    }
}

/// Resynchronising loses no subscription: whatever capacity the lower
/// layer reports, an identifier that one of the processes' subscriptions
/// accepts is accepted by a subscription the lower layer is asked for
/// after it was cleared.
pub proof fn resync_covers(all: Seq<Subscription>, capacity: nat, k: int, id: CanId)
    requires
        0 <= k < all.len(),
        spec_matches(all[k], id),
    ensures
        exists|j: int|
            1 <= j < resync_requests(all, capacity).len() && (#[trigger] resync_requests(
                all,
                capacity,
            )[j] matches SubscribeRequest::Subscribe(sid, mask) && spec_matches(
                Subscription { id: sid, mask },
                id,
            )),
{
    let reqs = resync_requests(all, capacity);
    if all.len() <= capacity && all.len() <= MAX_TOTAL_SUBSCRIPTIONS {
        assert(reqs[k + 1] == subscribe_to(all[k]));
        assert(all[k] == Subscription { id: all[k].id, mask: all[k].mask });
    } else {
        let c = spec_is_extended(all[k].id);
        let std = class_only(all, false, all.len());
        lemma_class_only(all, c, all.len(), k);
        lemma_class_only(all, !c, all.len(), k);
        let list = class_only(all, c, all.len());
        let m = choose|m: int| 0 <= m < list.len() && #[trigger] list[m] == all[k];
        assert(forall|j: int|
            0 <= j < list.len() ==> spec_is_extended(#[trigger] list[j].id) == spec_is_extended(
                list[0].id,
            ));
        covering_filter_accepts_union(list, id, m);
        let cover = spec_covering_filter(list);
        if !c {
            assert(reqs[1] == subscribe_to(cover));
        } else {
            assert(reqs[1 + cover_request(std).len() as int] == subscribe_to(cover));
        }
    }
}

/// A failed reception reaches every receiving process once: among the
/// first `n` processes, each receiving one gets exactly one transmission
/// error upcall carrying the receive error and the bus error's number, the
/// others none, in process order.
pub proof fn rx_error_reaches_each_receiver(apps: Seq<App>, err: CanError, n: nat)
    requires
        n <= apps.len(),
        apps.len() <= usize::MAX,
    ensures
        forall|k: int|
            0 <= k < rx_error_upcalls(apps, err, n).len() ==> ({
                let u = #[trigger] rx_error_upcalls(apps, err, n)[k];
                &&& u.process < n
                &&& apps[u.process as int].receiving
                &&& u == upcall(
                    u.process,
                    UPCALL_TRANSMISSION_ERROR,
                    ERROR_RX,
                    can_error_number(err) as usize,
                    0,
                )
            }),
        forall|k1: int, k2: int|
            0 <= k1 < k2 < rx_error_upcalls(apps, err, n).len() ==> (#[trigger] rx_error_upcalls(
                apps,
                err,
                n,
            )[k1]).process < (#[trigger] rx_error_upcalls(apps, err, n)[k2]).process,
        forall|p: int|
            0 <= p < n && #[trigger] apps[p].receiving ==> exists|k: int|
                0 <= k < rx_error_upcalls(apps, err, n).len() && rx_error_upcalls(apps, err, n)[k].process
                    == p,
    decreases n,
{
    if n > 0 {
        rx_error_reaches_each_receiver(apps, err, (n - 1) as nat);
        let prev = rx_error_upcalls(apps, err, (n - 1) as nat);
        let cur = rx_error_upcalls(apps, err, n);
        assert forall|k: int| 0 <= k < prev.len() implies #[trigger] cur[k] == prev[k] by {}
        if apps[n - 1].receiving {
            assert(cur[prev.len() as int].process == n - 1);
        }
        assert forall|p: int| 0 <= p < n && #[trigger] apps[p].receiving implies exists|k: int|
            0 <= k < cur.len() && cur[k].process == p by {
            if p < n - 1 {
                let k = choose|k: int| 0 <= k < prev.len() && prev[k].process == p;
                assert(cur[k] == prev[k]);
            } else {
                assert(cur[prev.len() as int].process == p);
            }
        }
    }
}

} // verus!
