//! Shared access to one CAN controller from several clients.
//!
//! Transmission is serialized and rotated between clients; reception fans
//! out to every client whose subscriptions match the frame. Hardware filters
//! only reduce traffic: the software post-filter decides delivery.
use vstd::prelude::*;
use crate::error::ErrorCode;
use crate::can_capsule::{Subscribe, SubscribeRequest};
use crate::hil_can::{
    CanController, CanError, CanRequest, CanRequests, CanFilter, CanId, CanState, FilterParameters, Frame, IdentifierMode,
    ScaleBits, is_extended, raw_id, spec_is_extended, spec_raw_id,
};

verus! {

/// Number of identifier subscriptions each device can hold.
pub const MAX_SUBSCRIPTIONS: usize = 4;

/// A request to receive a range of identifiers: a frame matches when its
/// identifier is of the same class and agrees with `id` on every bit of
/// `mask`.
#[derive(Clone, Copy, Debug, PartialEq, Eq, Structural)]
pub struct Subscription {
    pub id: CanId,
    pub mask: u32,
}

/// Whether `sub` accepts a frame with identifier `received`.
pub open spec fn spec_matches(sub: Subscription, received: CanId) -> bool {
    &&& spec_is_extended(sub.id) == spec_is_extended(received)
    &&& (spec_raw_id(received) & sub.mask) == (spec_raw_id(sub.id) & sub.mask)
}

impl Subscription {
    /// Whether this subscription accepts a frame with identifier `received`.
    pub fn matches(&self, received: CanId) -> (r: bool)
        ensures
            r == spec_matches(*self, received),
    {
        if is_extended(self.id) != is_extended(received) {
            return false;
        }
        (raw_id(received) & self.mask) == (raw_id(self.id) & self.mask)
    }
}

/// The AND of the masks of `subs[0..n]`, starting from the first mask.
pub open spec fn mask_upto(subs: Seq<Subscription>, n: nat) -> u32
    decreases n,
{
    if n == 0 {
        subs[0].mask
    } else {
        mask_upto(subs, (n - 1) as nat) & subs[n - 1].mask
    }
}

/// The bits on which the identifiers of `subs[0..n]` differ from the first.
pub open spec fn diff_upto(subs: Seq<Subscription>, n: nat) -> u32
    decreases n,
{
    if n == 0 {
        0
    } else {
        diff_upto(subs, (n - 1) as nat) | (spec_raw_id(subs[n - 1].id) ^ spec_raw_id(subs[0].id))
    }
}

/// The single filter standing for all of `subs`: the first identifier, under
/// the mask bits that every subscription masks and on which every identifier
/// agrees.
pub open spec fn spec_covering_filter(subs: Seq<Subscription>) -> Subscription {
    Subscription {
        id: subs[0].id,
        mask: mask_upto(subs, subs.len()) & !diff_upto(subs, subs.len()),
    }
}

/// Collapse several subscriptions of one identifier class into a single
/// filter that accepts a superset of their union; `None` for no
/// subscriptions.
pub fn covering_filter(subs: &[Subscription]) -> (r: Option<Subscription>)
    ensures
        subs@.len() == 0 ==> r is None,
        subs@.len() > 0 ==> r == Some(spec_covering_filter(subs@)),
{
    if subs.len() == 0 {
        return None;
    }
    let first = subs[0];
    let mut mask = first.mask;
    let mut differing = 0u32;
    let mut i: usize = 0;
    while i < subs.len()
        invariant
            0 < subs@.len(),
            first == subs@[0],
            i <= subs@.len(),
            mask == mask_upto(subs@, i as nat),
            differing == diff_upto(subs@, i as nat),
        decreases subs@.len() - i,
    {
        let s = subs[i];
        mask = mask & s.mask;
        differing = differing | (raw_id(s.id) ^ raw_id(first.id));
        i = i + 1;
    }
    Some(Subscription { id: first.id, mask: mask & !differing })
}

proof fn lemma_cover_bits(r: u32, rk: u32, r0: u32, mk: u32, mu: u32, d: u32)
    by (bit_vector)
    requires
        (r & mk) == (rk & mk),
        (mu & mk) == mu,
        (d | (rk ^ r0)) == d,
    ensures
        (r & (mu & !d)) == (r0 & (mu & !d)),
{
}

proof fn lemma_and_shrinks(a: u32, b: u32, c: u32)
    by (bit_vector)
    requires
        (a & c) == a,
    ensures
        ((a & b) & c) == (a & b),
{
}

proof fn lemma_and_self(a: u32, b: u32)
    by (bit_vector)
    ensures
        ((a & b) & b) == (a & b),
{
}

proof fn lemma_or_grows(a: u32, b: u32, c: u32)
    by (bit_vector)
    requires
        (a | c) == a,
    ensures
        ((a | b) | c) == (a | b),
{
}

proof fn lemma_or_self(a: u32, b: u32)
    by (bit_vector)
    ensures
        ((a | b) | b) == (a | b),
{
}

proof fn lemma_mask_upto_below(subs: Seq<Subscription>, n: nat, k: int)
    requires
        0 <= k < n,
        n <= subs.len(),
    ensures
        (mask_upto(subs, n) & subs[k].mask) == mask_upto(subs, n),
    decreases n,
{
    let prev = mask_upto(subs, (n - 1) as nat);
    if k == n - 1 {
        lemma_and_self(prev, subs[k].mask);
    } else {
        lemma_mask_upto_below(subs, (n - 1) as nat, k);
        lemma_and_shrinks(prev, subs[n - 1].mask, subs[k].mask);
    }
}

proof fn lemma_diff_upto_below(subs: Seq<Subscription>, n: nat, k: int)
    requires
        0 <= k < n,
        n <= subs.len(),
    ensures
        (diff_upto(subs, n) | (spec_raw_id(subs[k].id) ^ spec_raw_id(subs[0].id))) == diff_upto(
            subs,
            n,
        ),
    decreases n,
{
    let prev = diff_upto(subs, (n - 1) as nat);
    let xk = spec_raw_id(subs[k].id) ^ spec_raw_id(subs[0].id);
    let xn = spec_raw_id(subs[n - 1].id) ^ spec_raw_id(subs[0].id);
    if k == n - 1 {
        lemma_or_self(prev, xk);
    } else {
        lemma_diff_upto_below(subs, (n - 1) as nat, k);
        lemma_or_grows(prev, xn, xk);
    }
}

/// Every frame accepted by one of a class's subscriptions is accepted by the
/// covering filter of that class.
pub proof fn covering_filter_accepts_union(subs: Seq<Subscription>, received: CanId, k: int)
    requires
        subs.len() > 0,
        forall|j: int|
            0 <= j < subs.len() ==> spec_is_extended(#[trigger] subs[j].id) == spec_is_extended(
                subs[0].id,
            ),
        0 <= k < subs.len(),
        spec_matches(subs[k], received),
    ensures
        spec_matches(spec_covering_filter(subs), received),
{
    lemma_mask_upto_below(subs, subs.len(), k);
    lemma_diff_upto_below(subs, subs.len(), k);
    lemma_cover_bits(
        spec_raw_id(received),
        spec_raw_id(subs[k].id),
        spec_raw_id(subs[0].id),
        subs[k].mask,
        mask_upto(subs, subs.len()),
        diff_upto(subs, subs.len()),
    );
}


/// A callback a device is waiting on.
#[derive(Clone, Copy, Debug, PartialEq, Eq, Structural)]
pub enum Pending {
    Idle,
    Enable,
    Disable,
    Stop,
    /// The controller refused the frame; the failure is reported later.
    TxFail,
}

/// A callback to one of a device's clients.
#[derive(Clone, Copy, Debug)]
pub enum ClientCallback {
    StateChanged(CanState),
    Enabled(Result<(), ErrorCode>),
    Disabled(Result<(), ErrorCode>),
    TransmitComplete(Result<(), CanError>, Frame),
    MessageReceived(CanId, Frame, usize, Result<(), CanError>),
    Stopped(Frame),
}

/// A callback addressed to the device at index `device`.
#[derive(Clone, Copy, Debug)]
pub struct DeviceEvent {
    pub device: usize,
    pub callback: ClientCallback,
}

/// One client's view of the shared controller.
#[derive(Clone, Copy, Debug)]
pub struct CanDevice {
    pub subscriptions: [Option<Subscription>; 4],
    pub tx_buffer: Option<Frame>,
    pub tx_id: Option<CanId>,
    pub tx_len: usize,
    pub tx_pending: bool,
    /// The client's receive buffer, parked while it receives.
    pub rx_buffer: Option<Frame>,
    pub receiving: bool,
    pub enabled: bool,
    pub pending: Pending,
    pub pending_deferred: bool,
    /// Whether a controller, transmit and receive client is registered.
    pub controller_client: bool,
    pub transmit_client: bool,
    pub receive_client: bool,
}

/// Whether some subscription of `dev` accepts `id`.
pub open spec fn spec_device_matches(dev: CanDevice, id: CanId) -> bool {
    exists|i: int| 0 <= i < 4 && #[trigger] slot_accepts(dev.subscriptions[i], id)
}

/// Whether a subscription slot holds a subscription accepting `id`.
pub open spec fn slot_accepts(slot: Option<Subscription>, id: CanId) -> bool {
    match slot {
        Some(s) => spec_matches(s, id),
        None => false,
    }
}

/// Whether a subscription slot holds a subscription of the given class.
pub open spec fn slot_in_class(slot: Option<Subscription>, extended: bool) -> bool {
    match slot {
        Some(s) => spec_is_extended(s.id) == extended,
        None => false,
    }
}

/// A device with no subscriptions, buffers or clients.
pub open spec fn spec_new_device() -> CanDevice {
    CanDevice {
        subscriptions: [None, None, None, None],
        tx_buffer: None,
        tx_id: None,
        tx_len: 0,
        tx_pending: false,
        rx_buffer: None,
        receiving: false,
        enabled: false,
        pending: Pending::Idle,
        pending_deferred: false,
        controller_client: false,
        transmit_client: false,
        receive_client: false,
    }
}

impl CanDevice {
    /// A device with no subscriptions, buffers or clients.
    pub fn new() -> (r: CanDevice)
        ensures
            r == spec_new_device(),
    {
        CanDevice {
            subscriptions: [None, None, None, None],
            tx_buffer: None,
            tx_id: None,
            tx_len: 0,
            tx_pending: false,
            rx_buffer: None,
            receiving: false,
            enabled: false,
            pending: Pending::Idle,
            pending_deferred: false,
            controller_client: false,
            transmit_client: false,
            receive_client: false,
        }
    }

    /// Software post-filter: does this device want `id`?
    pub fn matches(&self, id: CanId) -> (r: bool)
        ensures
            r == spec_device_matches(*self, id),
    {
        let mut i: usize = 0;
        while i < 4
            invariant
                i <= 4,
                forall|j: int| 0 <= j < i ==> !#[trigger] slot_accepts(self.subscriptions[j], id),
            decreases 4 - i,
        {
            if let Some(s) = self.subscriptions[i] {
                if s.matches(id) {
                    assert(slot_accepts(self.subscriptions[i as int], id));
                    return true;
                }
            }
            i = i + 1;
        }
        false
    }
}

/// How many devices have the flag selected by `which` set.
pub open spec fn count_flag(s: Seq<CanDevice>, which: bool) -> nat
    decreases s.len(),
{
    if s.len() == 0 {
        0
    } else {
        count_flag(s.drop_last(), which) + if dev_flag(s.last(), which) {
            1nat
        } else {
            0nat
        }
    }
}

/// The device's `receiving` flag if `which`, else its `enabled` flag.
pub open spec fn dev_flag(d: CanDevice, which: bool) -> bool {
    if which {
        d.receiving
    } else {
        d.enabled
    }
}

proof fn lemma_count_bound(s: Seq<CanDevice>, which: bool, i: int)
    requires
        0 <= i < s.len(),
        !dev_flag(s[i], which),
    ensures
        count_flag(s, which) < s.len(),
    decreases s.len(),
{
    lemma_count_le(s.drop_last(), which);
    if i < s.len() - 1 {
        lemma_count_bound(s.drop_last(), which, i);
    }
}

proof fn lemma_count_le(s: Seq<CanDevice>, which: bool)
    ensures
        count_flag(s, which) <= s.len(),
    decreases s.len(),
{
    if s.len() > 0 {
        lemma_count_le(s.drop_last(), which);
    }
}

proof fn lemma_count_update(s: Seq<CanDevice>, which: bool, i: int, v: CanDevice)
    requires
        0 <= i < s.len(),
    ensures
        count_flag(s.update(i, v), which) + (if dev_flag(s[i], which) {
            1int
        } else {
            0int
        }) == count_flag(s, which) + (if dev_flag(v, which) {
            1int
        } else {
            0int
        }),
    decreases s.len(),
{
    let t = s.update(i, v);
    if i == s.len() - 1 {
        assert(t.drop_last() =~= s.drop_last());
    } else {
        assert(t.drop_last() =~= s.drop_last().update(i, v));
        lemma_count_update(s.drop_last(), which, i, v);
    }
}

proof fn lemma_count_push(s: Seq<CanDevice>, which: bool, v: CanDevice)
    ensures
        count_flag(s.push(v), which) == count_flag(s, which) + if dev_flag(v, which) {
            1nat
        } else {
            0nat
        },
{
    assert(s.push(v).drop_last() =~= s);
}

/// The index the transmit scan reaches at `offset` steps from `start`.
pub open spec fn rotate(start: int, offset: int, count: int) -> int {
    (start + offset) % count
}

/// The first device, scanning cyclically from `start` at `offset` onwards,
/// with a frame waiting to be sent.
pub open spec fn scan_pending(devs: Seq<CanDevice>, start: int, offset: int) -> Option<int>
    decreases devs.len() - offset,
{
    if offset < 0 || offset >= devs.len() {
        None
    } else if devs[rotate(start, offset, devs.len() as int)].tx_pending {
        Some(rotate(start, offset, devs.len() as int))
    } else {
        scan_pending(devs, start, offset + 1)
    }
}

/// The subscriptions of one identifier class, in device order and slot
/// order, up to `limit` of them.
pub open spec fn class_subscriptions(devs: Seq<CanDevice>, extended: bool, n: nat) -> Seq<
    Subscription,
>
    decreases n,
{
    if n == 0 {
        Seq::empty()
    } else {
        let prev = class_subscriptions(devs, extended, (n - 1) as nat);
        prev + Seq::new(4, |j: int| devs[n - 1].subscriptions[j]).filter(
            |o: Option<Subscription>| slot_in_class(o, extended),
        ).map_values(|o: Option<Subscription>| o.unwrap())
    }
}

/// Upper bound on subscriptions collected per class when programming filters.
pub const MAX_CLASS_SUBSCRIPTIONS: usize = 16;

/// Slots that the `used` bit set can track.
pub const MAX_FILTER_SLOTS: usize = 32;

/// The multiplexer: one controller, many devices.
pub struct MuxCan<C> {
    pub can: C,
    pub devices: Vec<CanDevice>,
    /// Device whose transmission is with the controller.
    pub inflight: Option<usize>,
    /// Where the next transmit scan starts.
    pub next_tx: usize,
    /// The single receive buffer, owned by the controller while receiving.
    pub rx_buffer: Option<Frame>,
    pub enable_count: usize,
    pub receive_count: usize,
    pub hw_enabled: bool,
    pub hw_receiving: bool,
    /// A deferred callback has been requested.
    pub deferred_call: bool,
    /// Callbacks produced for the devices' clients, oldest first.
    pub events: Vec<DeviceEvent>,
}

impl<C: CanController + CanFilter> MuxCan<C> {
    /// The counters never exceed the devices they count, and the device in
    /// flight exists.
    pub open spec fn wf(&self) -> bool {
        &&& self.inflight matches Some(d) ==> d < self.devices@.len()
        &&& self.enable_count <= count_flag(self.devices@, false)
        &&& self.receive_count <= count_flag(self.devices@, true)
    }

    /// A multiplexer over `can` with no devices, holding `rx_buffer`.
    pub fn new(can: C, rx_buffer: Frame) -> (r: Self)
        ensures
            r.wf(),
            r.can == can,
            r.devices@.len() == 0,
            r.inflight is None,
            r.next_tx == 0,
            r.rx_buffer == Some(rx_buffer),
            r.enable_count == 0,
            r.receive_count == 0,
            !r.hw_enabled,
            !r.hw_receiving,
            !r.deferred_call,
            r.events@.len() == 0,
    {
        MuxCan {
            can,
            devices: Vec::new(),
            inflight: None,
            next_tx: 0,
            rx_buffer: Some(rx_buffer),
            enable_count: 0,
            receive_count: 0,
            hw_enabled: false,
            hw_receiving: false,
            deferred_call: false,
            events: Vec::new(),
        }
    }

    /// Register a new device with the multiplexer; returns its index.
    pub fn add_device(&mut self) -> (d: usize)
        requires
            old(self).wf(),
            old(self).devices@.len() < usize::MAX,
        ensures
            final(self).wf(),
            d == old(self).devices@.len(),
            final(self).devices@ == old(self).devices@.push(spec_new_device()),
            final(self).inflight == old(self).inflight,
            final(self).enable_count == old(self).enable_count,
            final(self).receive_count == old(self).receive_count,
            final(self).can == old(self).can,
            final(self).events@ == old(self).events@,
    {
        let dev = CanDevice::new();
        let d = self.devices.len();
        proof {
            lemma_count_push(self.devices@, false, dev);
            lemma_count_push(self.devices@, true, dev);
        }
        self.devices.push(dev);
        d
    }
}

/// `x` cut down to its first `MAX_CLASS_SUBSCRIPTIONS` elements.
pub open spec fn cap_subs(x: Seq<Subscription>) -> Seq<Subscription> {
    if x.len() <= MAX_CLASS_SUBSCRIPTIONS {
        x
    } else {
        x.take(MAX_CLASS_SUBSCRIPTIONS as int)
    }
}

/// The subscriptions of class `extended` in the first `j` slots of `dev`.
pub open spec fn slot_list(dev: CanDevice, extended: bool, j: nat) -> Seq<Subscription>
    decreases j,
{
    if j == 0 {
        Seq::empty()
    } else {
        let prev = slot_list(dev, extended, (j - 1) as nat);
        if slot_in_class(dev.subscriptions[j - 1], extended) {
            prev.push(dev.subscriptions[j - 1].unwrap())
        } else {
            prev
        }
    }
}

/// The subscriptions of class `extended` of the first `d` devices, in device
/// order and then slot order.
pub open spec fn device_list(devs: Seq<CanDevice>, extended: bool, d: nat) -> Seq<Subscription>
    decreases d,
{
    if d == 0 {
        Seq::empty()
    } else {
        device_list(devs, extended, (d - 1) as nat) + slot_list(devs[d - 1], extended, 4)
    }
}

proof fn lemma_cap_push(x: Seq<Subscription>, s: Subscription)
    ensures
        cap_subs(x.push(s)) == if cap_subs(x).len() < MAX_CLASS_SUBSCRIPTIONS {
            cap_subs(x).push(s)
        } else {
            cap_subs(x)
        },
{
    if x.len() < MAX_CLASS_SUBSCRIPTIONS {
    } else {
        assert(x.push(s).take(16) =~= x.take(16));
        if x.len() == 16 {
            assert(x.take(16) =~= x);
        }
    }
}

proof fn lemma_mod_wrap(a: int, c: int)
    requires
        0 <= a < 2 * c,
        c > 0,
    ensures
        a % c == if a < c {
            a
        } else {
            a - c
        },
{
    if a < c {
        vstd::arithmetic::div_mod::lemma_small_mod(a as nat, c as nat);
    } else {
        vstd::arithmetic::div_mod::lemma_small_mod((a - c) as nat, c as nat);
        vstd::arithmetic::div_mod::lemma_mod_sub_multiples_vanish(a, c);
    }
}

/// `d` with its transmit request consumed.
pub open spec fn tx_taken(d: CanDevice) -> CanDevice {
    CanDevice { tx_id: None, tx_buffer: None, tx_pending: false, ..d }
}

/// `d` with an unusable transmit request dropped.
pub open spec fn tx_dropped(d: CanDevice) -> CanDevice {
    CanDevice { tx_id: None, tx_pending: false, ..d }
}

proof fn lemma_scan_valid(devs: Seq<CanDevice>, start: int, offset: int)
    requires
        devs.len() > 0,
    ensures
        scan_pending(devs, start, offset) matches Some(k) ==> 0 <= k < devs.len()
            && devs[k].tx_pending,
    decreases devs.len() - offset,
{
    if 0 <= offset < devs.len() {
        lemma_scan_valid(devs, start, offset + 1);
    }
}

/// What handing out the next queued frame does, when nothing is in flight,
/// to devices `devs` with transmit cursor `cursor`, a controller whose
/// requests were `log` and the deferred-call flag `deferred`, as `n` shows:
/// the first device with a frame waiting, scanning cyclically from the
/// cursor, has its frame sent (a request without identifier or buffer is
/// dropped); the controller takes it, or refuses it for a deferred report.
pub open spec fn next_tx_done<C: CanRequests>(
    devs: Seq<CanDevice>,
    cursor: usize,
    log: Seq<CanRequest>,
    deferred: bool,
    n: MuxCan<C>,
) -> bool {
    devs.len() > 0 ==> match scan_pending(devs, cursor as int % devs.len() as int, 0) {
        None => {
            &&& n.devices@ == devs
            &&& n.inflight is None
            &&& n.next_tx == cursor
            &&& n.can.requests() == log
            &&& n.deferred_call == deferred
        },
        Some(k) => {
            let dev = devs[k];
            if dev.tx_id is None || dev.tx_buffer is None {
                &&& n.devices@ == devs.update(k, tx_dropped(dev))
                &&& n.inflight is None
                &&& n.next_tx == cursor
                &&& n.can.requests() == log
                &&& n.deferred_call == deferred
            } else {
                &&& n.next_tx == k + 1
                &&& n.can.requests() == log.push(
                    CanRequest::Send(dev.tx_id.unwrap(), dev.tx_buffer.unwrap(), dev.tx_len),
                )
                &&& ((n.inflight == Some(k as usize) && n.devices@ == devs.update(k, tx_taken(dev))
                    && n.deferred_call == deferred) || (n.inflight is None && n.deferred_call
                    && n.devices@[k].tx_buffer is Some && n.devices@ == devs.update(
                    k,
                    (CanDevice {
                        tx_buffer: n.devices@[k].tx_buffer,
                        pending: Pending::TxFail,
                        pending_deferred: true,
                        ..tx_taken(dev)
                    }),
                )))
            }
        },
    }
}

/// Whether `new` differs from `old` only in the devices, the transmit
/// cursor, the device in flight, the deferred-call flag and the controller.
pub open spec fn same_counters<C>(new: &MuxCan<C>, old: &MuxCan<C>) -> bool {
    &&& new.rx_buffer == old.rx_buffer
    &&& new.enable_count == old.enable_count
    &&& new.receive_count == old.receive_count
    &&& new.hw_enabled == old.hw_enabled
    &&& new.hw_receiving == old.hw_receiving
}

impl<C: CanController + CanFilter> MuxCan<C> {
    /// The first device with a frame waiting, scanning cyclically from the
    /// transmit cursor.
    fn scan_next(&self) -> (r: Option<usize>)
        requires
            self.devices@.len() > 0,
        ensures
            match scan_pending(self.devices@, self.next_tx as int % self.devices@.len() as int, 0) {
                Some(k) => r == Some(k as usize),
                None => r is None,
            },
            r matches Some(k) ==> k < self.devices@.len(),
    {
        let count = self.devices.len();
        let start = self.next_tx % count;
        let mut offset: usize = 0;
        while offset < count
            invariant
                count == self.devices@.len(),
                count > 0,
                start < count,
                start == self.next_tx as int % count as int,
                offset <= count,
                scan_pending(self.devices@, start as int, 0) == scan_pending(
                    self.devices@,
                    start as int,
                    offset as int,
                ),
            decreases count - offset,
        {
            let index = if offset < count - start {
                start + offset
            } else {
                offset - (count - start)
            };
            proof {
                lemma_mod_wrap(start + offset, count as int);
            }
            assert(index == rotate(start as int, offset as int, count as int));
            if self.devices[index].tx_pending {
                return Some(index);
            }
            offset = offset + 1;
        }
        None
    }

    /// Hand the next queued frame to the controller, if it is idle.
    ///
    /// The scan starts after the device served last, so a device with a full
    /// queue cannot starve the others.
    #[verifier::rlimit(100)]
    pub fn do_next_tx(&mut self)
        requires
            old(self).wf(),
        ensures
            final(self).wf(),
            same_counters(final(self), old(self)),
            final(self).events@ == old(self).events@,
            final(self).devices@.len() == old(self).devices@.len(),
            old(self).deferred_call ==> final(self).deferred_call,
            forall|j: int|
                0 <= j < old(self).devices@.len() && !old(self).devices@[j].tx_pending ==> #[trigger] final(
                    self).devices@[j] == old(self).devices@[j],
            forall|j: int|
                #![trigger final(self).devices@[j]]
                0 <= j < old(self).devices@.len() ==> {
                    ||| final(self).devices@[j].pending == old(self).devices@[j].pending
                        && final(self).devices@[j].pending_deferred == old(
                        self,
                    ).devices@[j].pending_deferred
                    ||| deferred_tx_fail(final(self).devices@[j]) && final(self).deferred_call
                },
            old(self).inflight is Some || old(self).devices@.len() == 0 ==> {
                &&& final(self).devices@ == old(self).devices@
                &&& final(self).inflight == old(self).inflight
                &&& final(self).next_tx == old(self).next_tx
                &&& final(self).can == old(self).can
                &&& final(self).deferred_call == old(self).deferred_call
            },
            old(self).inflight is None && old(self).devices@.len() > 0 ==> {
                let devs = old(self).devices@;
                match scan_pending(devs, old(self).next_tx as int % devs.len() as int, 0) {
                    None => {
                        &&& final(self).devices@ == devs
                        &&& final(self).inflight is None
                        &&& final(self).next_tx == old(self).next_tx
                        &&& final(self).can == old(self).can
                        &&& final(self).deferred_call == old(self).deferred_call
                    },
                    Some(k) => {
                        let dev = devs[k];
                        if dev.tx_id is None || dev.tx_buffer is None {
                            &&& final(self).devices@ == devs.update(k, tx_dropped(dev))
                            &&& final(self).inflight is None
                            &&& final(self).next_tx == old(self).next_tx
                            &&& final(self).can == old(self).can
                            &&& final(self).deferred_call == old(self).deferred_call
                        } else {
                            &&& final(self).next_tx == k + 1
                            &&& final(self).can.requests() == old(self).can.requests().push(
                                CanRequest::Send(dev.tx_id.unwrap(), dev.tx_buffer.unwrap(), dev.tx_len),
                            )
                            &&& ((final(self).inflight == Some(k as usize)
                                && final(self).devices@ == devs.update(k, tx_taken(dev))
                                && final(self).deferred_call == old(self).deferred_call) || (
                            final(self).inflight is None && final(self).deferred_call
                                && final(self).devices@[k].tx_buffer is Some
                                && final(self).devices@ == devs.update(
                                k,
                                (CanDevice {
                                    tx_buffer: final(self).devices@[k].tx_buffer,
                                    pending: Pending::TxFail,
                                    pending_deferred: true,
                                    ..tx_taken(dev)
                                }),
                            )))
                        }
                    },
                }
            },
    {
        if self.inflight.is_some() {
            return;
        }
        if self.devices.len() == 0 {
            return;
        }
        let chosen = self.scan_next();
        proof {
            lemma_scan_valid(self.devices@, self.next_tx as int % self.devices@.len() as int, 0);
        }
        if let Some(index) = chosen {
            let mut dev = self.devices[index];
            let id = match dev.tx_id {
                Some(id) => id,
                None => {
                    dev.tx_pending = false;
                    proof {
                        lemma_count_update(self.devices@, false, index as int, dev);
                        lemma_count_update(self.devices@, true, index as int, dev);
                    }
                    self.devices[index] = dev;
                    return;
                },
            };
            dev.tx_id = None;
            proof {
                lemma_count_update(self.devices@, false, index as int, tx_taken(self.devices@[index as int]));
                lemma_count_update(self.devices@, true, index as int, tx_taken(self.devices@[index as int]));
            }
            match dev.tx_buffer {
                Some(buffer) => {
                    dev.tx_buffer = None;
                    dev.tx_pending = false;
                    self.next_tx = index + 1;
                    let len = dev.tx_len;
                    match self.can.send(id, buffer, len) {
                        Ok(()) => {
                            self.devices[index] = dev;
                            self.inflight = Some(index);
                        },
                        Err((_e, returned)) => {
                            dev.tx_buffer = Some(returned);
                            dev.pending = Pending::TxFail;
                            dev.pending_deferred = true;
                            self.deferred_call = true;
                            proof {
                                lemma_count_update(self.devices@, false, index as int, dev);
                                lemma_count_update(self.devices@, true, index as int, dev);
                            }
                            self.devices[index] = dev;
                        },
                    }
                },
                None => {
                    dev.tx_pending = false;
                    self.devices[index] = dev;
                },
            }
        }
    }
}

/// The filter parameters with which a subscription is installed in `slot`.
pub open spec fn spec_filter_params(sub: Subscription, slot: u32) -> FilterParameters {
    FilterParameters {
        number: slot,
        scale_bits: if spec_is_extended(sub.id) {
            ScaleBits::Bits32
        } else {
            ScaleBits::Bits16
        },
        identifier_mode: IdentifierMode::Mask,
        fifo_number: 0,
        id: sub.id,
        mask: sub.mask,
    }
}

/// The bit of `slot` in a set of used slots.
pub open spec fn slot_bit(slot: nat) -> u32 {
    (1u32 << (slot as u32))
}

/// The subscriptions of one class that the hardware filters are programmed
/// for: those of every device, in device and slot order, at most
/// `MAX_CLASS_SUBSCRIPTIONS` of them.
pub open spec fn class_subs(devs: Seq<CanDevice>, extended: bool) -> Seq<Subscription> {
    cap_subs(device_list(devs, extended, devs.len()))
}

/// `p` is, in its slot, the filter for one of `subs`.
pub open spec fn filter_among(subs: Seq<Subscription>, p: FilterParameters) -> bool {
    exists|i: int| 0 <= i < subs.len() && p == spec_filter_params(#[trigger] subs[i], p.number)
}

/// `p` is, in its slot, the filter for one of `subs` or their covering
/// filter.
pub open spec fn filter_for(subs: Seq<Subscription>, p: FilterParameters) -> bool {
    ||| filter_among(subs, p)
    ||| subs.len() > 0 && p == spec_filter_params(spec_covering_filter(subs), p.number)
}

/// `p` is a filter that the subscriptions of `devs` call for.
pub open spec fn wanted_filter(devs: Seq<CanDevice>, p: FilterParameters) -> bool {
    filter_for(class_subs(devs, false), p) || filter_for(class_subs(devs, true), p)
}

/// `q` installs a wanted filter in, or disables, a slot below `slots`.
pub open spec fn filter_request(devs: Seq<CanDevice>, q: CanRequest, slots: nat) -> bool {
    match q {
        CanRequest::EnableFilter(p, _) => p.number < slots && wanted_filter(devs, p),
        CanRequest::DisableFilter(n, _) => n < slots,
        _ => false,
    }
}

/// The filter last installed in `slot` by the requests of `log`: an
/// accepted installation sets it, an accepted disabling clears it, and a
/// refused request leaves it.
pub open spec fn installed(log: Seq<CanRequest>, slot: nat) -> Option<FilterParameters>
    decreases log.len(),
{
    if log.len() == 0 {
        None
    } else {
        let rest = installed(log.drop_last(), slot);
        match log.last() {
            CanRequest::EnableFilter(p, r) => if p.number == slot && r is Ok {
                Some(p)
            } else {
                rest
            },
            CanRequest::DisableFilter(n, r) => if n == slot && r is Ok {
                None
            } else {
                rest
            },
            _ => rest,
        }
    }
}

/// Some request of `log` from index `from` on disables `slot`.
pub open spec fn disable_requested(log: Seq<CanRequest>, from: int, slot: nat) -> bool {
    exists|j: int|
        from <= j < log.len() && (#[trigger] log[j] matches CanRequest::DisableFilter(n, _) && n
            == slot)
}

/// `slot` holds a filter that the subscriptions of `devs` call for.
pub open spec fn holds_wanted(devs: Seq<CanDevice>, log: Seq<CanRequest>, slot: nat) -> bool {
    installed(log, slot) matches Some(p) && wanted_filter(devs, p)
}

/// The last request of `log` from index `from` on that concerns `slot`
/// disables it.
pub open spec fn disabled_last(log: Seq<CanRequest>, from: int, slot: nat) -> bool {
    exists|j: int|
        from <= j < log.len() && (#[trigger] log[j] matches CanRequest::DisableFilter(n, _) && n
            == slot) && forall|m: int| j < m < log.len() ==> !touches(log[m], slot)
}

/// Disabling `slot` makes it the last disabled, and keeps any other slot's
/// last request.
proof fn lemma_disabled_last_push(
    log: Seq<CanRequest>,
    from: int,
    slot: u32,
    r: Result<(), ErrorCode>,
    k: nat,
)
    requires
        0 <= from <= log.len(),
        k != slot ==> disabled_last(log, from, k),
    ensures
        disabled_last(log.push(CanRequest::DisableFilter(slot, r)), from, k),
{
    let log2 = log.push(CanRequest::DisableFilter(slot, r));
    if k != slot {
        let j = choose|j: int|
            from <= j < log.len() && (#[trigger] log[j] matches CanRequest::DisableFilter(n, _) && n
                == k) && forall|m: int| j < m < log.len() ==> !touches(log[m], k);
        assert(log2[j] == log[j]);
        assert forall|m: int| j < m < log2.len() implies !touches(log2[m], k) by {
            if m < log.len() {
                assert(log2[m] == log[m]);
            }
        }
    } else {
        assert(log2[log.len() as int] == CanRequest::DisableFilter(slot, r));
    }
}

/// The slots kept by programming, as bit sets: `k0` after the standard
/// class, `k1` after the extended one as well. Each class kept its own
/// filters or its covering filter (or nothing), and every slot below
/// `slots` that was not kept was last asked to be disabled.
pub open spec fn kept_by_class(
    before: Seq<CanRequest>,
    after: Seq<CanRequest>,
    devs: Seq<CanDevice>,
    slots: nat,
    k0: u32,
    k1: u32,
) -> bool {
    &&& (k0 & k1) == k0
    &&& class_outcome(after, 0, k0, class_subs(devs, false), slots)
    &&& class_outcome(after, k0, k1, class_subs(devs, true), slots)
    &&& forall|k: nat|
        k < slots && (k1 & slot_bit(k)) == 0 ==> #[trigger] disabled_last(
            after,
            before.len() as int,
            k,
        )
}

/// A placement stays when the slots it marks keep their filters.
proof fn lemma_placed_keep(
    log1: Seq<CanRequest>,
    log2: Seq<CanRequest>,
    before: u32,
    after: u32,
    sub: Subscription,
    slots: nat,
)
    requires
        placed(log1, before, after, sub, slots),
        slots <= 32,
        forall|k: nat|
            k < 32 && (after & slot_bit(k)) != 0 ==> #[trigger] installed(log2, k) == installed(
                log1,
                k,
            ),
    ensures
        placed(log2, before, after, sub, slots),
{
    let k = choose|k: nat|
        k < slots && (after & slot_bit(k)) != 0 && (before & slot_bit(k)) == 0 && #[trigger] installed(
            log1,
            k,
        ) == Some(spec_filter_params(sub, k as u32));
    assert(installed(log2, k) == installed(log1, k));
}

/// A class's outcome stays when the slots it marks keep their filters.
proof fn lemma_class_outcome_keep(
    log1: Seq<CanRequest>,
    log2: Seq<CanRequest>,
    before: u32,
    after: u32,
    subs: Seq<Subscription>,
    slots: nat,
)
    requires
        class_outcome(log1, before, after, subs, slots),
        slots <= 32,
        forall|k: nat|
            k < 32 && (after & slot_bit(k)) != 0 ==> #[trigger] installed(log2, k) == installed(
                log1,
                k,
            ),
    ensures
        class_outcome(log2, before, after, subs, slots),
{
    if (forall|i: int| 0 <= i < subs.len() ==> placed(log1, before, after, #[trigger] subs[i], slots))
        && used_slots(after, 32) == used_slots(before, 32) + subs.len() {
        assert forall|i: int| 0 <= i < subs.len() implies placed(
            log2,
            before,
            after,
            #[trigger] subs[i],
            slots,
        ) by {
            lemma_placed_keep(log1, log2, before, after, subs[i], slots);
        }
    } else if subs.len() > 0 && placed(log1, before, after, spec_covering_filter(subs), slots)
        && used_slots(after, 32) == used_slots(before, 32) + 1 {
        lemma_placed_keep(log1, log2, before, after, spec_covering_filter(subs), slots);
    }
}

/// The requests after `before` in `after` program the filter slots below
/// `slots` for `devs`: they install only wanted filters and disable slots,
/// all below `slots`; and every slot below it ends holding a wanted filter
/// or was asked to be disabled, so that no filter of an earlier programming
/// stays unless the controller refused to disable it.
pub open spec fn programmed_below(
    before: Seq<CanRequest>,
    after: Seq<CanRequest>,
    devs: Seq<CanDevice>,
    slots: nat,
) -> bool {
    &&& forall|j: int| before.len() <= j < after.len() ==> filter_request(devs, #[trigger] after[j], slots)
    &&& forall|k: nat|
        k < slots ==> #[trigger] holds_wanted(devs, after, k) || disable_requested(
            after,
            before.len() as int,
            k,
        )
    &&& filters_accepted(after, before.len() as int) ==> (forall|c: bool, i: int|
        0 <= i < class_subs(devs, c).len() ==> sub_covered(
            after,
            class_subs(devs, c),
            #[trigger] class_subs(devs, c)[i],
            slots,
        )) || (forall|k: nat| k < slots ==> #[trigger] holds_wanted(devs, after, k))
    &&& exists|k0: u32, k1: u32| #[trigger] kept_by_class(before, after, devs, slots, k0, k1)
}

/// What programming the filters for the subscriptions `subs` of one class
/// did to the bit set of used slots, from `before` to `after`, by the
/// requests of `log`: every subscription got its own filter in a slot of
/// its own (as many new slots as subscriptions); or, when they did not all
/// fit, their covering filter went into one new slot; or, when no slot took
/// it either, no slot was kept.
pub open spec fn class_outcome(
    log: Seq<CanRequest>,
    before: u32,
    after: u32,
    subs: Seq<Subscription>,
    slots: nat,
) -> bool {
    ||| (forall|i: int| 0 <= i < subs.len() ==> placed(log, before, after, #[trigger] subs[i], slots))
        && used_slots(after, 32) == used_slots(before, 32) + subs.len()
    ||| subs.len() > 0 && placed(log, before, after, spec_covering_filter(subs), slots) && used_slots(
        after,
        32,
    ) == used_slots(before, 32) + 1
    ||| after == before
}

/// `sub`, one of `subs`, has its own filter or the covering filter of
/// `subs` installed in some slot below `slots`.
pub open spec fn sub_covered(
    log: Seq<CanRequest>,
    subs: Seq<Subscription>,
    sub: Subscription,
    slots: nat,
) -> bool {
    exists|k: nat|
        k < slots && (#[trigger] installed(log, k) == Some(spec_filter_params(sub, k as u32))
            || installed(log, k) == Some(spec_filter_params(spec_covering_filter(subs), k as u32)))
}

/// The filter slots that programming uses of a controller reporting
/// `count`: all of them, up to the `MAX_FILTER_SLOTS` that the bit set of
/// used slots can describe.
pub open spec fn usable_slots(count: nat) -> nat {
    if count > MAX_FILTER_SLOTS {
        MAX_FILTER_SLOTS as nat
    } else {
        count
    }
}

/// The controller, whose requests were `before` and are `after` and which
/// reports `count` filter slots, had its filters programmed for `devs` over
/// its usable slots.
pub open spec fn filters_programmed(
    before: Seq<CanRequest>,
    after: Seq<CanRequest>,
    devs: Seq<CanDevice>,
    count: nat,
) -> bool {
    &&& before.len() <= after.len()
    &&& after.subrange(0, before.len() as int) == before
    &&& programmed_below(before, after, devs, usable_slots(count))
}

/// Some request of `log` from index `from` on asked to install a filter in
/// `slot` and was refused.
pub open spec fn refused_at(log: Seq<CanRequest>, from: int, slot: nat) -> bool {
    exists|j: int|
        from <= j < log.len() && (#[trigger] log[j] matches CanRequest::EnableFilter(p, r) && p.number
            == slot && r is Err)
}

/// Every request of `log` from index `from` on to install a filter was
/// accepted.
pub open spec fn filters_accepted(log: Seq<CanRequest>, from: int) -> bool {
    forall|j: int|
        from <= j < log.len() ==> !(#[trigger] log[j] matches CanRequest::EnableFilter(_, r) && r is Err)
}

/// Filter `p` accepts identifier `id`.
pub open spec fn filter_accepts(p: FilterParameters, id: CanId) -> bool {
    spec_matches(Subscription { id: p.id, mask: p.mask }, id)
}

/// `sub`'s filter was installed, by the requests of `log`, in a slot below
/// `slots` that is marked in `after` and was free in `before`.
pub open spec fn placed(
    log: Seq<CanRequest>,
    before: u32,
    after: u32,
    sub: Subscription,
    slots: nat,
) -> bool {
    exists|k: nat|
        k < slots && (after & slot_bit(k)) != 0 && (before & slot_bit(k)) == 0 && #[trigger] installed(
            log,
            k,
        ) == Some(spec_filter_params(sub, k as u32))
}

/// `sub`, one of `subs`, has its own filter or the covering filter of
/// `subs` installed in a slot below `slots` marked in `after` and free in
/// `before`.
pub open spec fn class_placed(
    log: Seq<CanRequest>,
    before: u32,
    after: u32,
    subs: Seq<Subscription>,
    sub: Subscription,
    slots: nat,
) -> bool {
    placed(log, before, after, sub, slots) || placed(
        log,
        before,
        after,
        spec_covering_filter(subs),
        slots,
    )
}

/// Whether request `q` concerns filter slot `slot`.
pub open spec fn touches(q: CanRequest, slot: nat) -> bool {
    match q {
        CanRequest::EnableFilter(p, _) => p.number == slot,
        CanRequest::DisableFilter(n, _) => n == slot,
        _ => false,
    }
}

/// The filter installed in a slot names that slot.
proof fn lemma_installed_slot(log: Seq<CanRequest>, slot: nat)
    ensures
        installed(log, slot) matches Some(p) ==> p.number == slot,
    decreases log.len(),
{
    if log.len() > 0 {
        lemma_installed_slot(log.drop_last(), slot);
    }
}

/// A request about another slot leaves a slot's filter as it was.
proof fn lemma_installed_push(log: Seq<CanRequest>, q: CanRequest, slot: nat)
    ensures
        !touches(q, slot) ==> installed(log.push(q), slot) == installed(log, slot),
        q matches CanRequest::EnableFilter(p, r) ==> (p.number == slot && r is Ok ==> installed(
            log.push(q),
            slot,
        ) == Some(p)),
{
    assert(log.push(q).drop_last() =~= log);
}

/// How many of the slots below `n` are marked in the bit set `used`.
pub open spec fn used_slots(used: u32, n: nat) -> nat
    decreases n,
{
    if n == 0 {
        0
    } else {
        used_slots(used, (n - 1) as nat) + if used & slot_bit((n - 1) as nat) != 0 {
            1nat
        } else {
            0nat
        }
    }
}

proof fn lemma_slot_bits(x: u32, a: u32, s: u32, t: u32)
    by (bit_vector)
    requires
        s < 32,
        t < 32,
    ensures
        s != t ==> ((x | (1u32 << s)) & (1u32 << t)) == (x & (1u32 << t)),
        ((x | (1u32 << s)) & (1u32 << s)) != 0,
        (a & x) == a ==> (a & (x | (1u32 << s))) == a,
        (a & a) == a,
        (a & x) == a && (x & (1u32 << t)) == 0 ==> (a & (1u32 << t)) == 0,
{
}

/// Marking a free slot marks one more slot below any bound above it.
proof fn lemma_used_slots_add(x: u32, s: nat, n: nat)
    requires
        s < 32,
        n <= 32,
        (x & slot_bit(s)) == 0,
    ensures
        used_slots(x | slot_bit(s), n) == used_slots(x, n) + if s < n {
            1int
        } else {
            0int
        },
    decreases n,
{
    if n > 0 {
        lemma_used_slots_add(x, s, (n - 1) as nat);
        lemma_slot_bits(x, x, s as u32, (n - 1) as u32);
    }
}

/// Everything but the controller and the transmit state of the multiplexer
/// is as it was.
pub open spec fn only_can_changed<C>(new: &MuxCan<C>, old: &MuxCan<C>) -> bool {
    &&& same_counters(new, old)
    &&& new.devices@ == old.devices@
    &&& new.inflight == old.inflight
    &&& new.next_tx == old.next_tx
    &&& new.deferred_call == old.deferred_call
    &&& new.events@ == old.events@
}

impl<C: CanController + CanFilter> MuxCan<C> {
    /// The subscriptions of class `extended` over all devices, in device
    /// order and slot order, at most `MAX_CLASS_SUBSCRIPTIONS` of them.
    pub fn collect_class(&self, extended: bool) -> (r: Vec<Subscription>)
        ensures
            r@ == cap_subs(device_list(self.devices@, extended, self.devices@.len())),
    {
        let mut r: Vec<Subscription> = Vec::new();
        let mut d: usize = 0;
        while d < self.devices.len()
            invariant
                d <= self.devices@.len(),
                r@ == cap_subs(device_list(self.devices@, extended, d as nat)),
            decreases self.devices@.len() - d,
        {
            let dev = self.devices[d];
            let mut j: usize = 0;
            while j < 4
                invariant
                    d < self.devices@.len(),
                    dev == self.devices@[d as int],
                    j <= 4,
                    r@ == cap_subs(
                        device_list(self.devices@, extended, d as nat) + slot_list(
                            dev,
                            extended,
                            j as nat,
                        ),
                    ),
                decreases 4 - j,
            {
                let ghost x = device_list(self.devices@, extended, d as nat) + slot_list(
                    dev,
                    extended,
                    j as nat,
                );
                if let Some(s) = dev.subscriptions[j] {
                    if is_extended(s.id) == extended {
                        proof {
                            lemma_cap_push(x, s);
                            assert(x.push(s) =~= device_list(self.devices@, extended, d as nat)
                                + slot_list(dev, extended, (j + 1) as nat));
                        }
                        if r.len() < MAX_CLASS_SUBSCRIPTIONS {
                            r.push(s);
                        }
                    } else {
                        assert(x =~= device_list(self.devices@, extended, d as nat) + slot_list(
                            dev,
                            extended,
                            (j + 1) as nat,
                        ));
                    }
                } else {
                    assert(x =~= device_list(self.devices@, extended, d as nat) + slot_list(
                        dev,
                        extended,
                        (j + 1) as nat,
                    ));
                }
                j = j + 1;
            }
            d = d + 1;
        }
        r
    }

    /// Install one subscription into the first free slot below `slots` that
    /// the controller accepts. On success exactly that slot's bit is added
    /// to `used`; otherwise `used` is unchanged. The controller is asked
    /// only to install the subscription's filter in free slots below
    /// `slots`.
    pub fn place(&mut self, sub: Subscription, used: &mut u32, slots: usize) -> (r: bool)
        requires
            slots <= MAX_FILTER_SLOTS,
        ensures
            only_can_changed(final(self), old(self)),
            final(self).can.requests().len() >= old(self).can.requests().len(),
            final(self).can.requests().subrange(0, old(self).can.requests().len() as int) == old(
                self).can.requests(),
            forall|j: int|
                old(self).can.requests().len() <= j < final(self).can.requests().len() ==> (
                #[trigger] final(self).can.requests()[j] matches CanRequest::EnableFilter(p, _)
                    && p == spec_filter_params(sub, p.number) && p.number < slots && (*old(used)
                    & slot_bit(p.number as nat)) == 0),
            forall|k: nat|
                k < 32 && (*old(used) & slot_bit(k)) != 0 ==> #[trigger] installed(
                    final(self).can.requests(),
                    k,
                ) == installed(old(self).can.requests(), k),
            r ==> exists|slot: nat|
                slot < slots && (*old(used) & slot_bit(slot)) == 0 && *final(used) == (*old(used)
                    | slot_bit(slot)) && installed(final(self).can.requests(), slot) == Some(
                    spec_filter_params(sub, slot as u32),
                ),
            !r ==> *final(used) == *old(used),
            !r ==> forall|k: nat|
                k < slots ==> (*old(used) & slot_bit(k)) != 0 || #[trigger] refused_at(
                    final(self).can.requests(),
                    old(self).can.requests().len() as int,
                    k,
                ),
    {
        let ghost log0 = self.can.requests();
        let mut slot: usize = 0;
        while slot < slots
            invariant
                slots <= MAX_FILTER_SLOTS,
                slot <= slots,
                *used == *old(used),
                only_can_changed(self, old(self)),
                log0 == old(self).can.requests(),
                self.can.requests().len() >= log0.len(),
                self.can.requests().subrange(0, log0.len() as int) == log0,
                forall|j: int|
                    log0.len() <= j < self.can.requests().len() ==> (
                    #[trigger] self.can.requests()[j] matches CanRequest::EnableFilter(p, _) && p
                        == spec_filter_params(sub, p.number) && p.number < slots && (*old(used)
                        & slot_bit(p.number as nat)) == 0),
                forall|k: nat|
                    k < 32 && (*old(used) & slot_bit(k)) != 0 ==> #[trigger] installed(
                        self.can.requests(),
                        k,
                    ) == installed(log0, k),
                forall|k: nat|
                    k < slot ==> (*old(used) & slot_bit(k)) != 0 || #[trigger] refused_at(
                        self.can.requests(),
                        log0.len() as int,
                        k,
                    ),
            decreases slots - slot,
        {
            let bit: u32 = 1u32 << (slot as u32);
            if *used & bit == 0 {
                let params = FilterParameters {
                    number: slot as u32,
                    scale_bits: if is_extended(sub.id) {
                        ScaleBits::Bits32
                    } else {
                        ScaleBits::Bits16
                    },
                    identifier_mode: IdentifierMode::Mask,
                    fifo_number: 0,
                    id: sub.id,
                    mask: sub.mask,
                };
                assert(params == spec_filter_params(sub, slot as u32));
                let ghost log1 = self.can.requests();
                let res = self.can.enable_filter(params);
                proof {
                    let q = CanRequest::EnableFilter(params, res);
                    assert(self.can.requests() == log1.push(q));
                    assert(slot_bit(slot as nat) == bit);
                    assert forall|k: nat|
                        k < 32 && (*old(used) & slot_bit(k)) != 0 implies #[trigger] installed(
                        self.can.requests(),
                        k,
                    ) == installed(log0, k) by {
                        lemma_installed_push(log1, q, k);
                    }
                    lemma_installed_push(log1, q, slot as nat);
                    assert(self.can.requests().subrange(0, log0.len() as int) =~= log0) by {
                        assert(log1.subrange(0, log0.len() as int) == log0);
                    }
                    assert forall|k: nat|
                        k < slot + 1 && res is Err implies (*old(used) & slot_bit(k)) != 0
                        || #[trigger] refused_at(self.can.requests(), log0.len() as int, k) by {
                        if k < slot {
                            if (*old(used) & slot_bit(k)) == 0 {
                                assert(refused_at(log1, log0.len() as int, k));
                                let j = choose|j: int|
                                    log0.len() <= j < log1.len() && (#[trigger] log1[j] matches CanRequest::EnableFilter(
                                        p,
                                        r,
                                    ) && p.number == k && r is Err);
                                assert(self.can.requests()[j] == log1[j]);
                            }
                        } else {
                            assert(self.can.requests()[log1.len() as int] == q);
                        }
                    }
                }
                if res.is_ok() {
                    *used = *used | bit;
                    return true;
                }
            }
            slot = slot + 1;
        }
        false
    }

    /// Install every subscription in its own slot, or none of them: on
    /// failure `used` is restored.
    pub fn place_all(&mut self, subs: &[Subscription], used: &mut u32, slots: usize) -> (r: bool)
        requires
            slots <= MAX_FILTER_SLOTS,
        ensures
            only_can_changed(final(self), old(self)),
            !r ==> *final(used) == *old(used),
            subs@.len() == 0 ==> r && *final(used) == *old(used),
            r ==> (*old(used) & *final(used)) == *old(used),
            r ==> used_slots(*final(used), 32) == used_slots(*old(used), 32) + subs@.len(),
            final(self).can.requests().len() >= old(self).can.requests().len(),
            final(self).can.requests().subrange(0, old(self).can.requests().len() as int) == old(
                self).can.requests(),
            forall|j: int|
                old(self).can.requests().len() <= j < final(self).can.requests().len() ==> (
                #[trigger] final(self).can.requests()[j] matches CanRequest::EnableFilter(p, _)
                    && filter_among(subs@, p) && p.number < slots && (*old(used) & slot_bit(
                    p.number as nat,
                )) == 0),
            forall|k: nat|
                k < 32 && (*old(used) & slot_bit(k)) != 0 ==> #[trigger] installed(
                    final(self).can.requests(),
                    k,
                ) == installed(old(self).can.requests(), k),
            r ==> forall|k: nat|
                k < 32 && (*final(used) & slot_bit(k)) != 0 && (*old(used) & slot_bit(k)) == 0
                    ==> (#[trigger] installed(final(self).can.requests(), k) matches Some(p)
                    && filter_among(subs@, p) && p.number < slots),
            r ==> forall|i: int|
                0 <= i < subs@.len() ==> placed(
                    final(self).can.requests(),
                    *old(used),
                    *final(used),
                    #[trigger] subs@[i],
                    slots as nat,
                ),
    {
        let saved = *used;
        let ghost log0 = self.can.requests();
        proof {
            lemma_slot_bits(saved, saved, 0, 0);
        }
        let mut i: usize = 0;
        while i < subs.len()
            invariant
                slots <= MAX_FILTER_SLOTS,
                saved == *old(used),
                only_can_changed(self, old(self)),
                i <= subs@.len(),
                (saved & *used) == saved,
                used_slots(*used, 32) == used_slots(saved, 32) + i,
                i == 0 ==> *used == saved,
                log0 == old(self).can.requests(),
                self.can.requests().len() >= log0.len(),
                self.can.requests().subrange(0, log0.len() as int) == log0,
                forall|j: int|
                    log0.len() <= j < self.can.requests().len() ==> (
                    #[trigger] self.can.requests()[j] matches CanRequest::EnableFilter(p, _)
                        && filter_among(subs@, p) && p.number < slots && (saved & slot_bit(
                        p.number as nat,
                    )) == 0),
                forall|k: nat|
                    k < 32 && (saved & slot_bit(k)) != 0 ==> #[trigger] installed(
                        self.can.requests(),
                        k,
                    ) == installed(log0, k),
                forall|k: nat|
                    k < 32 && (*used & slot_bit(k)) != 0 && (saved & slot_bit(k)) == 0 ==> (
                    #[trigger] installed(self.can.requests(), k) matches Some(p) && filter_among(
                        subs@,
                        p,
                    ) && p.number < slots),
                forall|m: int|
                    0 <= m < i ==> placed(
                        self.can.requests(),
                        saved,
                        *used,
                        #[trigger] subs@[m],
                        slots as nat,
                    ),
            decreases subs@.len() - i,
        {
            let ghost before = *used;
            let ghost log1 = self.can.requests();
            let ok = self.place(subs[i], used, slots);
            proof {
                let log2 = self.can.requests();
                assert(log2.subrange(0, log0.len() as int) =~= log0) by {
                    assert(log2.subrange(0, log1.len() as int) == log1);
                    assert(log1.subrange(0, log0.len() as int) == log0);
                    assert(log2.subrange(0, log0.len() as int) =~= log1.subrange(
                        0,
                        log0.len() as int,
                    ));
                }
                assert forall|j: int| log0.len() <= j < log2.len() implies (
                #[trigger] log2[j] matches CanRequest::EnableFilter(p, _) && filter_among(subs@, p)
                    && p.number < slots && (saved & slot_bit(p.number as nat)) == 0) by {
                    if j < log1.len() {
                        assert(log2[j] == log1.subrange(0, log1.len() as int)[j]);
                    } else {
                        let p = log2[j]->EnableFilter_0;
                        assert(subs@[i as int] == subs[i as int]);
                        assert(p == spec_filter_params(subs@[i as int], p.number));
                        lemma_slot_bits(before, saved, 0, p.number);
                    }
                }
                assert forall|k: nat|
                    k < 32 && (saved & slot_bit(k)) != 0 implies #[trigger] installed(log2, k)
                    == installed(log0, k) by {
                    lemma_slot_bits(before, saved, 0, k as u32);
                    assert(installed(log2, k) == installed(log1, k));
                }
            }
            if !ok {
                *used = saved;
                return false;
            }
            proof {
                let log2 = self.can.requests();
                let slot = choose|slot: nat|
                    slot < slots && (before & slot_bit(slot)) == 0 && *used == (before | slot_bit(
                        slot,
                    )) && installed(log2, slot) == Some(spec_filter_params(subs[i as int], slot as u32));
                lemma_used_slots_add(before, slot, 32);
                lemma_slot_bits(before, saved, slot as u32, 0);
                assert forall|k: nat|
                    k < 32 && (*used & slot_bit(k)) != 0 && (saved & slot_bit(k)) == 0 implies (
                    #[trigger] installed(log2, k) matches Some(p) && filter_among(subs@, p)
                        && p.number < slots) by {
                    lemma_slot_bits(before, saved, slot as u32, k as u32);
                    if k == slot {
                        assert(subs@[i as int] == subs[i as int]);
                    } else {
                        assert(installed(log2, k) == installed(log1, k));
                    }
                }
                assert forall|m: int| 0 <= m < i + 1 implies placed(
                    log2,
                    saved,
                    *used,
                    #[trigger] subs@[m],
                    slots as nat,
                ) by {
                    if m < i {
                        let k = choose|k: nat|
                            k < slots && (before & slot_bit(k)) != 0 && (saved & slot_bit(k)) == 0
                                && #[trigger] installed(log1, k) == Some(
                                spec_filter_params(subs@[m], k as u32),
                            );
                        lemma_slot_bits(before, saved, slot as u32, k as u32);
                        assert(installed(log2, k) == installed(log1, k));
                        assert(k < slots && (*used & slot_bit(k)) != 0 && (saved & slot_bit(k)) == 0
                            && installed(log2, k) == Some(spec_filter_params(subs@[m], k as u32)));
                    } else {
                        assert(subs@[i as int] == subs[i as int]);
                        lemma_slot_bits(before, saved, slot as u32, slot as u32);
                        assert(slot < slots && (*used & slot_bit(slot)) != 0 && (saved & slot_bit(slot))
                            == 0 && installed(log2, slot) == Some(
                            spec_filter_params(subs@[m], slot as u32),
                        ));
                    }
                }
            }
            i = i + 1;
        }
        true
    }

    /// Program the filters for one identifier class: each subscription in
    /// its own slot if they all fit, otherwise their covering filter.
    fn program_class(&mut self, extended: bool, used: &mut u32, slots: usize)
        requires
            slots <= MAX_FILTER_SLOTS,
        ensures
            only_can_changed(final(self), old(self)),
            (*old(used) & *final(used)) == *old(used),
            class_subs(old(self).devices@, extended).len() == 0 ==> *final(self) == *old(self)
                && *final(used) == *old(used),
            final(self).can.requests().len() >= old(self).can.requests().len(),
            final(self).can.requests().subrange(0, old(self).can.requests().len() as int) == old(
                self).can.requests(),
            forall|j: int|
                old(self).can.requests().len() <= j < final(self).can.requests().len() ==> (
                #[trigger] final(self).can.requests()[j] matches CanRequest::EnableFilter(p, _)
                    && filter_for(class_subs(old(self).devices@, extended), p) && p.number < slots
                    && (*old(used) & slot_bit(p.number as nat)) == 0),
            forall|k: nat|
                k < 32 && (*old(used) & slot_bit(k)) != 0 ==> #[trigger] installed(
                    final(self).can.requests(),
                    k,
                ) == installed(old(self).can.requests(), k),
            forall|k: nat|
                k < 32 && (*final(used) & slot_bit(k)) != 0 && (*old(used) & slot_bit(k)) == 0
                    ==> (#[trigger] installed(final(self).can.requests(), k) matches Some(p)
                    && filter_for(class_subs(old(self).devices@, extended), p) && p.number < slots),
            filters_accepted(final(self).can.requests(), old(self).can.requests().len() as int) ==> (
            forall|i: int|
                0 <= i < class_subs(old(self).devices@, extended).len() ==> class_placed(
                    final(self).can.requests(),
                    *old(used),
                    *final(used),
                    class_subs(old(self).devices@, extended),
                    #[trigger] class_subs(old(self).devices@, extended)[i],
                    slots as nat,
                )) || (forall|k: nat| k < slots ==> (*final(used) & #[trigger] slot_bit(k)) != 0),
            class_outcome(
                final(self).can.requests(),
                *old(used),
                *final(used),
                class_subs(old(self).devices@, extended),
                slots as nat,
            ),
    {
        proof {
            lemma_slot_bits(*used, *used, 0, 0);
        }
        let subs = self.collect_class(extended);
        if subs.len() == 0 {
            return;
        }
        let ghost log0 = self.can.requests();
        let exact = self.place_all(subs.as_slice(), used, slots);
        if !exact {
            if let Some(cover) = covering_filter(subs.as_slice()) {
                let ghost before = *used;
                let ghost log1 = self.can.requests();
                let cover_placed = self.place(cover, used, slots);
                proof {
                    let log2 = self.can.requests();
                    assert(log2.subrange(0, log0.len() as int) =~= log0) by {
                        assert(log2.subrange(0, log1.len() as int) == log1);
                        assert(log2.subrange(0, log0.len() as int) =~= log1.subrange(
                            0,
                            log0.len() as int,
                        ));
                    }
                    assert forall|j: int| log0.len() <= j < log2.len() implies (
                    #[trigger] log2[j] matches CanRequest::EnableFilter(p, _) && filter_for(
                        class_subs(old(self).devices@, extended),
                        p,
                    ) && p.number < slots && (before & slot_bit(p.number as nat)) == 0) by {
                        if j < log1.len() {
                            assert(log2[j] == log1.subrange(0, log1.len() as int)[j]);
                        }
                    }
                    assert forall|k: nat|
                        k < 32 && (before & slot_bit(k)) != 0 implies #[trigger] installed(log2, k)
                        == installed(log0, k) by {
                        assert(installed(log2, k) == installed(log1, k));
                    }
                    if !cover_placed && filters_accepted(log2, log0.len() as int) {
                        assert forall|k: nat| k < slots implies (*used & #[trigger] slot_bit(k)) != 0 by {
                            if (before & slot_bit(k)) == 0 {
                                assert(refused_at(log2, log1.len() as int, k));
                                let j = choose|j: int|
                                    log1.len() <= j < log2.len() && (#[trigger] log2[j] matches CanRequest::EnableFilter(
                                        p,
                                        r,
                                    ) && p.number == k && r is Err);
                                assert(false);
                            }
                        }
                    }
                    if cover_placed {
                        let slot = choose|slot: nat|
                            slot < slots && (before & slot_bit(slot)) == 0 && *used == (before
                                | slot_bit(slot)) && installed(log2, slot) == Some(
                                spec_filter_params(cover, slot as u32),
                            );
                        lemma_slot_bits(before, before, slot as u32, slot as u32);
                        lemma_used_slots_add(before, slot, 32);
                        assert(placed(log2, before, *used, spec_covering_filter(subs@), slots as nat))
                            by {
                            assert(slot < slots && (*used & slot_bit(slot)) != 0 && (before
                                & slot_bit(slot)) == 0 && installed(log2, slot) == Some(
                                spec_filter_params(spec_covering_filter(subs@), slot as u32),
                            ));
                        }
                        lemma_slot_bits(before, before, slot as u32, 0);
                        assert forall|k: nat|
                            k < 32 && (*used & slot_bit(k)) != 0 && (before & slot_bit(k)) == 0
                                implies (#[trigger] installed(log2, k) matches Some(p) && filter_for(
                            class_subs(old(self).devices@, extended),
                            p,
                        ) && p.number < slots) by {
                            lemma_slot_bits(before, before, slot as u32, k as u32);
                        }
                    }
                }
            }
        }
    }

    /// Reprogram the controller's filter slots to cover every subscription,
    /// and disable every slot not used for that. Best effort: the controller's
    /// refusals are ignored, since the software post-filter enforces the
    /// subscriptions. Slots beyond the `MAX_FILTER_SLOTS` that the bit set of
    /// used slots can describe are left alone.
    pub fn program_filters(&mut self)
        ensures
            only_can_changed(final(self), old(self)),
            filters_programmed(
                old(self).can.requests(),
                final(self).can.requests(),
                old(self).devices@,
                old(self).can.filter_slots(),
            ),
    {
        let ghost devs = self.devices@;
        let ghost log0 = self.can.requests();
        let count = self.can.filter_count();
        let slots = if count > MAX_FILTER_SLOTS {
            MAX_FILTER_SLOTS
        } else {
            count
        };
        let mut used: u32 = 0;
        proof {
            assert forall|k: nat| k < 32 implies (0u32 & #[trigger] slot_bit(k)) == 0 by {
                lemma_slot_bits(0, 0, k as u32, k as u32);
                assert((0u32 & slot_bit(k)) == 0) by (bit_vector);
            }
        }
        self.program_class(false, &mut used, slots);
        let ghost used_a = used;
        let ghost log_a = self.can.requests();
        self.program_class(true, &mut used, slots);
        let ghost log_b = self.can.requests();
        proof {
            assert(log_b.subrange(0, log0.len() as int) =~= log0) by {
                assert(log_b.subrange(0, log_a.len() as int) == log_a);
                assert(log_a.subrange(0, log0.len() as int) == log0);
                assert(log_b.subrange(0, log0.len() as int) =~= log_a.subrange(
                    0,
                    log0.len() as int,
                ));
            }
            assert forall|j: int| log0.len() <= j < log_b.len() implies filter_request(
                devs,
                #[trigger] log_b[j],
                slots as nat,
            ) by {
                if j < log_a.len() {
                    assert(log_b[j] == log_b.subrange(0, log_a.len() as int)[j]);
                    assert(log_a[j] matches CanRequest::EnableFilter(p, _));
                }
            }
            assert forall|k: nat| k < 32 && (used & slot_bit(k)) != 0 implies #[trigger] holds_wanted(
                devs,
                log_b,
                k,
            ) && k < slots by {
                lemma_installed_slot(log_b, k);
                if (used_a & slot_bit(k)) != 0 {
                    assert(installed(log_b, k) == installed(log_a, k));
                    assert((0u32 & slot_bit(k)) == 0);
                    assert(installed(log_a, k) matches Some(p));
                } else {
                    assert(installed(log_b, k) matches Some(p));
                }
            }
        }
        let mut slot: usize = 0;
        while slot < slots
            invariant
                slots <= MAX_FILTER_SLOTS,
                slot <= slots,
                only_can_changed(self, old(self)),
                devs == old(self).devices@,
                log0 == old(self).can.requests(),
                self.can.requests().len() >= log0.len(),
                self.can.requests().subrange(0, log0.len() as int) == log0,
                forall|j: int|
                    log0.len() <= j < self.can.requests().len() ==> filter_request(
                        devs,
                        #[trigger] self.can.requests()[j],
                        slots as nat,
                    ),
                forall|k: nat|
                    k < 32 && (used & slot_bit(k)) != 0 ==> #[trigger] holds_wanted(
                        devs,
                        self.can.requests(),
                        k,
                    ) && k < slots,
                forall|k: nat|
                    k < slot ==> (used & slot_bit(k)) != 0 || #[trigger] disable_requested(
                        self.can.requests(),
                        log0.len() as int,
                        k,
                    ),
                forall|k: nat|
                    k < 32 && (used & slot_bit(k)) != 0 ==> #[trigger] installed(
                        self.can.requests(),
                        k,
                    ) == installed(log_b, k),
                self.can.requests().len() >= log_b.len(),
                self.can.requests().subrange(0, log_b.len() as int) == log_b,
                forall|k: nat|
                    k < slot && (used & slot_bit(k)) == 0 ==> #[trigger] disabled_last(
                        self.can.requests(),
                        log0.len() as int,
                        k,
                    ),
            decreases slots - slot,
        {
            if used & (1u32 << (slot as u32)) == 0 {
                let ghost log1 = self.can.requests();
                let res = self.can.disable_filter(slot as u32);
                proof {
                    let q = CanRequest::DisableFilter(slot as u32, res);
                    let log2 = self.can.requests();
                    assert(log2 == log1.push(q));
                    assert(log2.subrange(0, log0.len() as int) =~= log0) by {
                        assert(log1.subrange(0, log0.len() as int) == log0);
                    }
                    assert forall|k: nat|
                        k < 32 && (used & slot_bit(k)) != 0 implies #[trigger] holds_wanted(
                        devs,
                        log2,
                        k,
                    ) && k < slots by {
                        lemma_installed_push(log1, q, k);
                        assert(holds_wanted(devs, log1, k));
                    }
                    assert forall|k: nat|
                        k < 32 && (used & slot_bit(k)) != 0 implies #[trigger] installed(log2, k)
                        == installed(log_b, k) by {
                        lemma_installed_push(log1, q, k);
                    }
                    assert(log2.subrange(0, log_b.len() as int) =~= log_b) by {
                        assert(log1.subrange(0, log_b.len() as int) == log_b);
                    }
                    assert(log2[log1.len() as int] == q);
                    assert forall|k: nat|
                        k < slot + 1 && (used & slot_bit(k)) == 0 implies #[trigger] disabled_last(
                        log2,
                        log0.len() as int,
                        k,
                    ) by {
                        lemma_disabled_last_push(log1, log0.len() as int, slot as u32, res, k);
                    }
                    assert forall|k: nat|
                        k < slot + 1 implies (used & slot_bit(k)) != 0 || #[trigger] disable_requested(
                        log2,
                        log0.len() as int,
                        k,
                    ) by {
                        if k < slot {
                            if (used & slot_bit(k)) == 0 {
                                assert(disable_requested(log1, log0.len() as int, k));
                                let j = choose|j: int|
                                    log0.len() <= j < log1.len() && (#[trigger] log1[j] matches CanRequest::DisableFilter(
                                        n,
                                        _,
                                    ) && n == k);
                                assert(log2[j] == log1[j]);
                            }
                        } else {
                            assert(log2[log1.len() as int] == q);
                        }
                    }
                }
            }
            slot = slot + 1;
        }
        proof {
            let log = self.can.requests();
            assert forall|k: nat| k < slots implies #[trigger] holds_wanted(devs, log, k)
                || disable_requested(log, log0.len() as int, k) by {
                if (used & slot_bit(k)) != 0 {
                    assert(holds_wanted(devs, log, k));
                }
            }
            if filters_accepted(log, log0.len() as int) {
                assert(filters_accepted(log_a, log0.len() as int)) by {
                    assert forall|j: int| log0.len() <= j < log_a.len() implies !(
                    #[trigger] log_a[j] matches CanRequest::EnableFilter(_, r) && r is Err) by {
                        assert(log_b.subrange(0, log_a.len() as int)[j] == log_a[j]);
                        assert(log.subrange(0, log_b.len() as int)[j] == log_b[j]);
                        assert(log[j] == log_a[j]);
                    }
                }
                assert(filters_accepted(log_b, log_a.len() as int)) by {
                    assert forall|j: int| log_a.len() <= j < log_b.len() implies !(
                    #[trigger] log_b[j] matches CanRequest::EnableFilter(_, r) && r is Err) by {
                        assert(log.subrange(0, log_b.len() as int)[j] == log_b[j]);
                        assert(log[j] == log_b[j]);
                    }
                }
                let all_full = forall|k: nat| k < slots ==> (used & #[trigger] slot_bit(k)) != 0;
                if all_full {
                    assert forall|k: nat| k < slots implies #[trigger] holds_wanted(devs, log, k) by {
                        assert((used & slot_bit(k)) != 0);
                    }
                } else {
                    assert forall|c: bool, i: int|
                        0 <= i < class_subs(devs, c).len() implies sub_covered(
                        log,
                        class_subs(devs, c),
                        #[trigger] class_subs(devs, c)[i],
                        slots as nat,
                    ) by {
                        let subs = class_subs(devs, c);
                        if !c {
                            if forall|k: nat| k < slots ==> (used_a & #[trigger] slot_bit(k)) != 0 {
                                let k0 = choose|k: nat| k < slots && !((used & #[trigger] slot_bit(k))
                                    != 0);
                                assert((used_a & slot_bit(k0)) != 0);
                                lemma_slot_bits(used, used_a, 0, k0 as u32);
                                assert(false);
                            }
                            assert(class_placed(log_a, 0, used_a, subs, subs[i], slots as nat));
                            let k = if placed(log_a, 0, used_a, subs[i], slots as nat) {
                                choose|k: nat|
                                    k < slots && (used_a & slot_bit(k)) != 0 && (0u32 & slot_bit(k))
                                        == 0 && #[trigger] installed(log_a, k) == Some(
                                        spec_filter_params(subs[i], k as u32),
                                    )
                            } else {
                                choose|k: nat|
                                    k < slots && (used_a & slot_bit(k)) != 0 && (0u32 & slot_bit(k))
                                        == 0 && #[trigger] installed(log_a, k) == Some(
                                        spec_filter_params(spec_covering_filter(subs), k as u32),
                                    )
                            };
                            lemma_slot_bits(used, used_a, 0, k as u32);
                            assert((used & slot_bit(k)) != 0) by {
                                lemma_slot_bits(used_a, used_a, 0, k as u32);
                            }
                            assert(installed(log_b, k) == installed(log_a, k));
                            assert(installed(log, k) == installed(log_b, k));
                        } else {
                            assert(class_placed(log_b, used_a, used, subs, subs[i], slots as nat));
                            let k = if placed(log_b, used_a, used, subs[i], slots as nat) {
                                choose|k: nat|
                                    k < slots && (used & slot_bit(k)) != 0 && (used_a & slot_bit(k))
                                        == 0 && #[trigger] installed(log_b, k) == Some(
                                        spec_filter_params(subs[i], k as u32),
                                    )
                            } else {
                                choose|k: nat|
                                    k < slots && (used & slot_bit(k)) != 0 && (used_a & slot_bit(k))
                                        == 0 && #[trigger] installed(log_b, k) == Some(
                                        spec_filter_params(spec_covering_filter(subs), k as u32),
                                    )
                            };
                            assert(installed(log, k) == installed(log_b, k));
                        }
                    }
                }
            }
            assert forall|k: nat| k < 32 && (used & slot_bit(k)) != 0 implies #[trigger] installed(
                log,
                k,
            ) == installed(log_b, k) by {}
            lemma_class_outcome_keep(log_b, log, used_a, used, class_subs(devs, true), slots as nat);
            assert forall|k: nat| k < 32 && (used_a & slot_bit(k)) != 0 implies #[trigger] installed(
                log,
                k,
            ) == installed(log_a, k) by {
                lemma_slot_bits(used, used_a, 0, k as u32);
                assert(installed(log, k) == installed(log_b, k));
                assert(installed(log_b, k) == installed(log_a, k));
            }
            lemma_class_outcome_keep(log_a, log, 0, used_a, class_subs(devs, false), slots as nat);
            assert(kept_by_class(log0, log, devs, slots as nat, used_a, used));
            assert(programmed_below(log0, log, devs, slots as nat));
        }
    }
}

/// The first empty subscription slot of `dev`.
pub open spec fn first_free_slot(dev: CanDevice) -> Option<int> {
    if dev.subscriptions[0] is None {
        Some(0)
    } else if dev.subscriptions[1] is None {
        Some(1)
    } else if dev.subscriptions[2] is None {
        Some(2)
    } else if dev.subscriptions[3] is None {
        Some(3)
    } else {
        None
    }
}

/// `n - 1`, or 0 for 0.
pub open spec fn sat_dec(n: usize) -> usize {
    if n == 0 {
        0
    } else {
        (n - 1) as usize
    }
}

/// Everything but the controller and the devices is as it was.
pub open spec fn same_mux_state<C>(new: &MuxCan<C>, old: &MuxCan<C>) -> bool {
    &&& same_counters(new, old)
    &&& new.inflight == old.inflight
    &&& new.next_tx == old.next_tx
    &&& new.deferred_call == old.deferred_call
    &&& new.events@ == old.events@
}

impl<C: CanController + CanFilter> MuxCan<C> {
    proof fn lemma_update_keeps_wf(&self, d: int, v: CanDevice)
        requires
            self.wf(),
            0 <= d < self.devices@.len(),
            self.devices@[d].enabled == v.enabled,
            self.devices@[d].receiving == v.receiving,
        ensures
            count_flag(self.devices@.update(d, v), false) == count_flag(
                self.devices@,
                false,
            ),
            count_flag(self.devices@.update(d, v), true)
                == count_flag(self.devices@, true),
    {
        lemma_count_update(self.devices@, false, d, v);
        lemma_count_update(self.devices@, true, d, v);
    }

    /// Register a controller client for device `d` (or remove it).
    pub fn set_controller_client(&mut self, d: usize, present: bool)
        requires
            old(self).wf(),
            d < old(self).devices@.len(),
        ensures
            final(self).wf(),
            same_mux_state(final(self), old(self)),
            final(self).can == old(self).can,
            final(self).devices@ == old(self).devices@.update(
                d as int,
                (CanDevice { controller_client: present, ..old(self).devices@[d as int] }),
            ),
    {
        let mut dev = self.devices[d];
        dev.controller_client = present;
        proof {
            self.lemma_update_keeps_wf(d as int, dev);
        }
        self.devices[d] = dev;
    }

    /// Register a transmit client for device `d` (or remove it).
    pub fn set_transmit_client(&mut self, d: usize, present: bool)
        requires
            old(self).wf(),
            d < old(self).devices@.len(),
        ensures
            final(self).wf(),
            same_mux_state(final(self), old(self)),
            final(self).can == old(self).can,
            final(self).devices@ == old(self).devices@.update(
                d as int,
                (CanDevice { transmit_client: present, ..old(self).devices@[d as int] }),
            ),
    {
        let mut dev = self.devices[d];
        dev.transmit_client = present;
        proof {
            self.lemma_update_keeps_wf(d as int, dev);
        }
        self.devices[d] = dev;
    }

    /// Register a receive client for device `d` (or remove it).
    pub fn set_receive_client(&mut self, d: usize, present: bool)
        requires
            old(self).wf(),
            d < old(self).devices@.len(),
        ensures
            final(self).wf(),
            same_mux_state(final(self), old(self)),
            final(self).can == old(self).can,
            final(self).devices@ == old(self).devices@.update(
                d as int,
                (CanDevice { receive_client: present, ..old(self).devices@[d as int] }),
            ),
    {
        let mut dev = self.devices[d];
        dev.receive_client = present;
        proof {
            self.lemma_update_keeps_wf(d as int, dev);
        }
        self.devices[d] = dev;
    }

    /// Ask that device `d` receive identifiers matching `id` under `mask`;
    /// `NOMEM` when all its slots are taken. The filters are reprogrammed on
    /// success.
    pub fn subscribe(&mut self, d: usize, id: CanId, mask: u32) -> (r: Result<(), ErrorCode>)
        requires
            old(self).wf(),
            d < old(self).devices@.len(),
        ensures
            final(self).wf(),
            same_mux_state(final(self), old(self)),
            match first_free_slot(old(self).devices@[d as int]) {
                None => r == Err::<(), ErrorCode>(ErrorCode::NOMEM) && final(self).devices@ == old(self).devices@ && final(self).can == old(self).can,
                Some(i) => r is Ok && final(self).devices@ == old(self).devices@.update(
                    d as int,
                    (CanDevice {
                        subscriptions: final(self).devices@[d as int].subscriptions,
                        ..old(self).devices@[d as int]
                    }),
                ) && final(self).devices@[d as int].subscriptions@ == old(self).devices@[d as int].subscriptions@.update(i, Some(Subscription { id, mask })),
            },
            first_free_slot(old(self).devices@[d as int]) is Some ==> filters_programmed(
                old(self).can.requests(),
                final(self).can.requests(),
                final(self).devices@,
                old(self).can.filter_slots(),
            ),
    {
        let mut dev = self.devices[d];
        let mut i: usize = 0;
        while i < 4
            invariant
                i <= 4,
                old(self).wf(),
                d < old(self).devices@.len(),
                dev == old(self).devices@[d as int],
                *self == *old(self),
                forall|j: int| 0 <= j < i ==> dev.subscriptions[j] is Some,
            decreases 4 - i,
        {
            if dev.subscriptions[i].is_none() {
                dev.subscriptions[i] = Some(Subscription { id, mask });
                proof {
                    self.lemma_update_keeps_wf(d as int, dev);
                }
                self.devices[d] = dev;
                self.program_filters();
                return Ok(());
            }
            i = i + 1;
        }
        Err(ErrorCode::NOMEM)
    }

    /// Drop every subscription of device `d` and reprogram the filters.
    pub fn clear_subscriptions(&mut self, d: usize)
        requires
            old(self).wf(),
            d < old(self).devices@.len(),
        ensures
            final(self).wf(),
            same_mux_state(final(self), old(self)),
            final(self).devices@ == old(self).devices@.update(
                d as int,
                (CanDevice { subscriptions: [None, None, None, None], ..old(self).devices@[d as int] }),
            ),
            filters_programmed(
                old(self).can.requests(),
                final(self).can.requests(),
                final(self).devices@,
                old(self).can.filter_slots(),
            ),
    {
        let mut dev = self.devices[d];
        dev.subscriptions = [None, None, None, None];
        proof {
            self.lemma_update_keeps_wf(d as int, dev);
        }
        self.devices[d] = dev;
        self.program_filters();
    }

    /// Whether device `d` wants frames with identifier `id`.
    pub fn device_matches(&self, d: usize, id: CanId) -> (r: bool)
        requires
            d < self.devices@.len(),
        ensures
            r == spec_device_matches(self.devices@[d as int], id),
    {
        self.devices[d].matches(id)
    }
}

impl<C: CanController + CanFilter> MuxCan<C> {
    /// Device `d` asks for the controller to be enabled. The controller is
    /// enabled by the first such request; later ones are answered by a
    /// deferred callback if it is already running, or by the completion of
    /// the enable in flight.
    pub fn enable(&mut self, d: usize) -> (r: Result<(), ErrorCode>)
        requires
            old(self).wf(),
            d < old(self).devices@.len(),
        ensures
            final(self).wf(),
            final(self).rx_buffer == old(self).rx_buffer,
            final(self).receive_count == old(self).receive_count,
            final(self).hw_enabled == old(self).hw_enabled,
            final(self).hw_receiving == old(self).hw_receiving,
            final(self).inflight == old(self).inflight,
            final(self).next_tx == old(self).next_tx,
            final(self).events@ == old(self).events@,
            ({
                let dev = old(self).devices@[d as int];
                if dev.enabled {
                    r == Err::<(), ErrorCode>(ErrorCode::ALREADY) && *final(self) == *old(self)
                } else if old(self).hw_enabled {
                    &&& r is Ok
                    &&& final(self).enable_count == old(self).enable_count + 1
                    &&& final(self).deferred_call
                    &&& final(self).can == old(self).can
                    &&& final(self).devices@ == old(self).devices@.update(
                        d as int,
                        (CanDevice {
                            enabled: true,
                            pending: Pending::Enable,
                            pending_deferred: true,
                            ..dev
                        }),
                    )
                } else if old(self).enable_count > 0 {
                    &&& r is Ok
                    &&& final(self).enable_count == old(self).enable_count + 1
                    &&& final(self).deferred_call == old(self).deferred_call
                    &&& final(self).can == old(self).can
                    &&& final(self).devices@ == old(self).devices@.update(
                        d as int,
                        (CanDevice {
                            enabled: true,
                            pending: Pending::Enable,
                            pending_deferred: false,
                            ..dev
                        }),
                    )
                } else {
                    &&& final(self).deferred_call == old(self).deferred_call
                    &&& final(self).can.requests() == old(self).can.requests().push(
                        CanRequest::Enable(r),
                    )
                    &&& (r is Ok && final(self).enable_count == 1 && final(self).devices@ == old(self).devices@.update(
                        d as int,
                        (CanDevice {
                            enabled: true,
                            pending: Pending::Enable,
                            pending_deferred: false,
                            ..dev
                        }),
                    )) || (r is Err && final(self).enable_count == 0 && final(self).devices@
                        == old(self).devices@.update(
                        d as int,
                        (CanDevice {
                            enabled: false,
                            pending: Pending::Idle,
                            pending_deferred: false,
                            ..dev
                        }),
                    ))
                }
            }),
    {
        let mut dev = self.devices[d];
        if dev.enabled {
            return Err(ErrorCode::ALREADY);
        }
        let _count = self.devices.len();
        proof {
            lemma_count_bound(self.devices@, false, d as int);
        }
        dev.enabled = true;
        if self.hw_enabled {
            dev.pending = Pending::Enable;
            dev.pending_deferred = true;
            proof {
                lemma_count_update(self.devices@, false, d as int, dev);
                lemma_count_update(self.devices@, true, d as int, dev);
            }
            self.devices[d] = dev;
            self.enable_count = self.enable_count + 1;
            self.deferred_call = true;
            return Ok(());
        }
        dev.pending = Pending::Enable;
        dev.pending_deferred = false;
        proof {
            lemma_count_update(self.devices@, false, d as int, dev);
            lemma_count_update(self.devices@, true, d as int, dev);
        }
        let ghost before = self.devices@;
        self.devices[d] = dev;
        self.enable_count = self.enable_count + 1;
        if self.enable_count == 1 {
            let res = self.can.enable();
            match res {
                Ok(u) => {
                    assert(u == ());
                    assert(res == Ok::<(), ErrorCode>(()));
                },
                Err(_) => {},
            }
            if let Err(e) = res {
                self.enable_count = self.enable_count - 1;
                dev.pending = Pending::Idle;
                dev.enabled = false;
                proof {
                    lemma_count_update(before, false, d as int, dev);
                    lemma_count_update(before, true, d as int, dev);
                    assert(self.devices@.update(d as int, dev) =~= before.update(d as int, dev));
                }
                self.devices[d] = dev;
                return Err(e);
            }
        }
        Ok(())
    }

    /// Device `d` no longer needs the controller. The last device to let go
    /// disables it; earlier ones are answered by a deferred callback.
    pub fn disable(&mut self, d: usize) -> (r: Result<(), ErrorCode>)
        requires
            old(self).wf(),
            d < old(self).devices@.len(),
        ensures
            final(self).wf(),
            final(self).rx_buffer == old(self).rx_buffer,
            final(self).receive_count == old(self).receive_count,
            final(self).hw_enabled == old(self).hw_enabled,
            final(self).hw_receiving == old(self).hw_receiving,
            final(self).inflight == old(self).inflight,
            final(self).next_tx == old(self).next_tx,
            final(self).events@ == old(self).events@,
            ({
                let dev = old(self).devices@[d as int];
                if !dev.enabled {
                    r == Err::<(), ErrorCode>(ErrorCode::ALREADY) && *final(self) == *old(self)
                } else if sat_dec(old(self).enable_count) > 0 {
                    &&& r is Ok
                    &&& final(self).enable_count == sat_dec(old(self).enable_count)
                    &&& final(self).deferred_call
                    &&& final(self).can == old(self).can
                    &&& final(self).devices@ == old(self).devices@.update(
                        d as int,
                        (CanDevice {
                            enabled: false,
                            pending: Pending::Disable,
                            pending_deferred: true,
                            ..dev
                        }),
                    )
                } else {
                    &&& final(self).enable_count == 0
                    &&& final(self).deferred_call == old(self).deferred_call
                    &&& final(self).can.requests() == old(self).can.requests().push(
                        CanRequest::Disable(r),
                    )
                    &&& final(self).devices@ == old(self).devices@.update(
                        d as int,
                        (CanDevice {
                            enabled: false,
                            pending: if r is Ok {
                                Pending::Disable
                            } else {
                                Pending::Idle
                            },
                            pending_deferred: false,
                            ..dev
                        }),
                    )
                }
            }),
    {
        let mut dev = self.devices[d];
        if !dev.enabled {
            return Err(ErrorCode::ALREADY);
        }
        dev.enabled = false;
        self.enable_count = if self.enable_count == 0 {
            0
        } else {
            self.enable_count - 1
        };
        if self.enable_count > 0 {
            dev.pending = Pending::Disable;
            dev.pending_deferred = true;
            proof {
                lemma_count_update(self.devices@, false, d as int, dev);
                lemma_count_update(self.devices@, true, d as int, dev);
            }
            self.devices[d] = dev;
            self.deferred_call = true;
            return Ok(());
        }
        dev.pending = Pending::Disable;
        dev.pending_deferred = false;
        proof {
            lemma_count_update(self.devices@, false, d as int, dev);
            lemma_count_update(self.devices@, true, d as int, dev);
        }
        let ghost before = self.devices@;
        self.devices[d] = dev;
        let answer = self.can.disable();
        match answer {
            Ok(u) => {
                assert(u == ());
                assert(answer == Ok::<(), ErrorCode>(()));
            },
            Err(_) => {},
        }
        if let Err(e) = answer {
            dev.pending = Pending::Idle;
            proof {
                lemma_count_update(before, false, d as int, dev);
                lemma_count_update(before, true, d as int, dev);
                assert(self.devices@.update(d as int, dev) =~= before.update(d as int, dev));
            }
            self.devices[d] = dev;
            return Err(e);
        }
        Ok(())
    }

    /// Device `d` queues a frame; `BUSY` while it already has one queued or
    /// in flight. The frame is handed to the controller as soon as it is
    /// idle and the device's turn comes.
    pub fn send(&mut self, d: usize, id: CanId, buffer: Frame, len: usize) -> (r: Result<
        (),
        (ErrorCode, Frame),
    >)
        requires
            old(self).wf(),
            d < old(self).devices@.len(),
        ensures
            final(self).wf(),
            same_counters(final(self), old(self)),
            final(self).events@ == old(self).events@,
            ({
                let dev = old(self).devices@[d as int];
                if dev.tx_pending || dev.tx_buffer is Some {
                    r == Err::<(), (ErrorCode, Frame)>((ErrorCode::BUSY, buffer)) && *final(self)
                        == *old(self)
                } else {
                    &&& r is Ok
                    &&& old(self).inflight is Some ==> {
                        &&& final(self).devices@ == old(self).devices@.update(
                            d as int,
                            (CanDevice {
                                tx_buffer: Some(buffer),
                                tx_id: Some(id),
                                tx_len: len,
                                tx_pending: true,
                                ..dev
                            }),
                        )
                        &&& final(self).inflight == old(self).inflight
                        &&& final(self).can == old(self).can
                    }
                    &&& old(self).inflight is None ==> next_tx_done(
                        old(self).devices@.update(
                            d as int,
                            (CanDevice {
                                tx_buffer: Some(buffer),
                                tx_id: Some(id),
                                tx_len: len,
                                tx_pending: true,
                                ..dev
                            }),
                        ),
                        old(self).next_tx,
                        old(self).can.requests(),
                        old(self).deferred_call,
                        *final(self),
                    )
                }
            }),
    {
        let mut dev = self.devices[d];
        if dev.tx_pending || dev.tx_buffer.is_some() {
            return Err((ErrorCode::BUSY, buffer));
        }
        dev.tx_buffer = Some(buffer);
        dev.tx_id = Some(id);
        dev.tx_len = len;
        dev.tx_pending = true;
        proof {
            self.lemma_update_keeps_wf(d as int, dev);
        }
        self.devices[d] = dev;
        self.do_next_tx();
        Ok(())
    }

    /// One more device wants to receive: start the controller's receive
    /// process unless it is already running.
    fn device_start_receive(&mut self, d: usize) -> (r: Result<(), ErrorCode>)
        requires
            old(self).wf(),
            d < old(self).devices@.len(),
            !old(self).devices@[d as int].receiving,
        ensures
            final(self).devices@ == old(self).devices@,
            final(self).enable_count == old(self).enable_count,
            final(self).hw_enabled == old(self).hw_enabled,
            final(self).inflight == old(self).inflight,
            final(self).next_tx == old(self).next_tx,
            final(self).deferred_call == old(self).deferred_call,
            final(self).events@ == old(self).events@,
            r is Ok ==> final(self).receive_count == old(self).receive_count + 1 && final(self).hw_receiving,
            r is Err ==> final(self).receive_count == old(self).receive_count && final(self).hw_receiving == old(self).hw_receiving,
            old(self).hw_receiving ==> r is Ok && final(self).rx_buffer == old(self).rx_buffer
                && final(self).can == old(self).can,
            !old(self).hw_receiving && old(self).rx_buffer is None ==> r == Err::<(), ErrorCode>(
                ErrorCode::NOMEM,
            ) && final(self).rx_buffer is None && final(self).can == old(self).can,
            !old(self).hw_receiving && old(self).rx_buffer is Some ==> (r is Ok && final(self).rx_buffer is None) || (r is Err && final(self).rx_buffer is Some),
            !old(self).hw_receiving && old(self).rx_buffer is Some ==> final(self).can.requests()
                == old(self).can.requests().push(CanRequest::StartReceive(old(self).rx_buffer.unwrap())),
    {
        let _count = self.devices.len();
        proof {
            lemma_count_bound(self.devices@, true, d as int);
        }
        self.receive_count = self.receive_count + 1;
        if self.hw_receiving {
            return Ok(());
        }
        match self.rx_buffer.take() {
            Some(buffer) => match self.can.start_receive_process(buffer) {
                Ok(()) => {
                    self.hw_receiving = true;
                    Ok(())
                },
                Err((e, returned)) => {
                    self.rx_buffer = Some(returned);
                    self.receive_count = self.receive_count - 1;
                    Err(e)
                },
            },
            None => {
                self.receive_count = self.receive_count - 1;
                Err(ErrorCode::NOMEM)
            },
        }
    }

    /// Device `d` starts receiving into `buffer`, which is parked until it
    /// stops; `ALREADY` if it is receiving.
    pub fn start_receive_process(&mut self, d: usize, buffer: Frame) -> (r: Result<
        (),
        (ErrorCode, Frame),
    >)
        requires
            old(self).wf(),
            d < old(self).devices@.len(),
        ensures
            final(self).wf(),
            final(self).enable_count == old(self).enable_count,
            final(self).hw_enabled == old(self).hw_enabled,
            final(self).inflight == old(self).inflight,
            final(self).next_tx == old(self).next_tx,
            final(self).deferred_call == old(self).deferred_call,
            final(self).events@ == old(self).events@,
            ({
                let dev = old(self).devices@[d as int];
                if dev.receiving {
                    r == Err::<(), (ErrorCode, Frame)>((ErrorCode::ALREADY, buffer)) && *final(self) == *old(self)
                } else {
                    &&& r is Ok ==> {
                        &&& final(self).devices@ == old(self).devices@.update(
                            d as int,
                            (CanDevice { rx_buffer: Some(buffer), receiving: true, ..dev }),
                        )
                        &&& final(self).receive_count == old(self).receive_count + 1
                        &&& final(self).hw_receiving
                    }
                    &&& r matches Err((_, b)) ==> {
                        &&& b == buffer
                        &&& final(self).devices@ == old(self).devices@
                        &&& final(self).receive_count == old(self).receive_count
                        &&& final(self).hw_receiving == old(self).hw_receiving
                    }
                    &&& old(self).hw_receiving ==> r is Ok && final(self).can == old(self).can
                    &&& !old(self).hw_receiving && old(self).rx_buffer is None ==> r
                        == Err::<(), (ErrorCode, Frame)>((ErrorCode::NOMEM, buffer))
                    &&& !old(self).hw_receiving && old(self).rx_buffer is Some ==> final(
                        self).can.requests() == old(self).can.requests().push(
                        CanRequest::StartReceive(old(self).rx_buffer.unwrap()),
                    ) && (r is Ok <==> final(self).rx_buffer is None)
                }
            }),
    {
        let mut dev = self.devices[d];
        if dev.receiving {
            return Err((ErrorCode::ALREADY, buffer));
        }
        match self.device_start_receive(d) {
            Ok(()) => {
                dev.rx_buffer = Some(buffer);
                dev.receiving = true;
                proof {
                    lemma_count_update(self.devices@, false, d as int, dev);
                    lemma_count_update(self.devices@, true, d as int, dev);
                }
                self.devices[d] = dev;
                Ok(())
            },
            Err(e) => Err((e, buffer)),
        }
    }

    /// Device `d` stops receiving. The last receiver stops the controller;
    /// earlier ones (or any while the controller is not receiving) are
    /// answered by a deferred callback.
    pub fn stop_receive(&mut self, d: usize) -> (r: Result<(), ErrorCode>)
        requires
            old(self).wf(),
            d < old(self).devices@.len(),
        ensures
            final(self).wf(),
            final(self).rx_buffer == old(self).rx_buffer,
            final(self).enable_count == old(self).enable_count,
            final(self).hw_enabled == old(self).hw_enabled,
            final(self).hw_receiving == old(self).hw_receiving,
            final(self).inflight == old(self).inflight,
            final(self).next_tx == old(self).next_tx,
            final(self).events@ == old(self).events@,
            ({
                let dev = old(self).devices@[d as int];
                if !dev.receiving {
                    r == Err::<(), ErrorCode>(ErrorCode::ALREADY) && *final(self) == *old(self)
                } else if sat_dec(old(self).receive_count) > 0 || !old(self).hw_receiving {
                    &&& r is Ok
                    &&& final(self).receive_count == sat_dec(old(self).receive_count)
                    &&& final(self).deferred_call
                    &&& final(self).can == old(self).can
                    &&& final(self).devices@ == old(self).devices@.update(
                        d as int,
                        (CanDevice {
                            receiving: false,
                            pending: Pending::Stop,
                            pending_deferred: true,
                            ..dev
                        }),
                    )
                } else {
                    &&& final(self).receive_count == 0
                    &&& final(self).deferred_call == old(self).deferred_call
                    &&& final(self).can.requests() == old(self).can.requests().push(
                        CanRequest::StopReceive(r),
                    )
                    &&& final(self).devices@ == old(self).devices@.update(
                        d as int,
                        (CanDevice {
                            receiving: false,
                            pending: if r is Ok {
                                Pending::Stop
                            } else {
                                Pending::Idle
                            },
                            pending_deferred: false,
                            ..dev
                        }),
                    )
                }
            }),
    {
        let mut dev = self.devices[d];
        if !dev.receiving {
            return Err(ErrorCode::ALREADY);
        }
        dev.receiving = false;
        self.receive_count = if self.receive_count == 0 {
            0
        } else {
            self.receive_count - 1
        };
        if self.receive_count > 0 || !self.hw_receiving {
            dev.pending = Pending::Stop;
            dev.pending_deferred = true;
            proof {
                lemma_count_update(self.devices@, false, d as int, dev);
                lemma_count_update(self.devices@, true, d as int, dev);
            }
            self.devices[d] = dev;
            self.deferred_call = true;
            return Ok(());
        }
        dev.pending = Pending::Stop;
        dev.pending_deferred = false;
        proof {
            lemma_count_update(self.devices@, false, d as int, dev);
            lemma_count_update(self.devices@, true, d as int, dev);
        }
        let ghost before = self.devices@;
        self.devices[d] = dev;
        let answer = self.can.stop_receive();
        match answer {
            Ok(u) => {
                assert(u == ());
                assert(answer == Ok::<(), ErrorCode>(()));
            },
            Err(_) => {},
        }
        if let Err(e) = answer {
            dev.pending = Pending::Idle;
            proof {
                lemma_count_update(before, false, d as int, dev);
                lemma_count_update(before, true, d as int, dev);
                assert(self.devices@.update(d as int, dev) =~= before.update(d as int, dev));
            }
            self.devices[d] = dev;
            return Err(e);
        }
        Ok(())
    }
}

/// A single event, or none.
pub open spec fn opt_event(cond: bool, device: int, callback: ClientCallback) -> Seq<DeviceEvent> {
    if cond {
        seq![DeviceEvent { device: device as usize, callback }]
    } else {
        Seq::empty()
    }
}

/// Whether `dev` waits on the controller's own completion of `p`.
pub open spec fn waits_on(dev: CanDevice, p: Pending) -> bool {
    dev.pending == p && !dev.pending_deferred
}

/// A device after the controller reported the outcome of enabling.
pub open spec fn after_enabled(dev: CanDevice, status: Result<(), ErrorCode>) -> CanDevice {
    if waits_on(dev, Pending::Enable) {
        CanDevice {
            pending: Pending::Idle,
            enabled: if status is Err {
                false
            } else {
                dev.enabled
            },
            ..dev
        }
    } else {
        dev
    }
}

/// The callbacks for the first `n` devices after enabling completed.
pub open spec fn enabled_events(devs: Seq<CanDevice>, status: Result<(), ErrorCode>, n: nat) -> Seq<
    DeviceEvent,
>
    decreases n,
{
    if n == 0 {
        Seq::empty()
    } else {
        let d = devs[n - 1];
        enabled_events(devs, status, (n - 1) as nat) + opt_event(
            waits_on(d, Pending::Enable) && d.controller_client,
            n - 1,
            ClientCallback::Enabled(status),
        )
    }
}

/// A device after the controller reported the outcome of disabling.
pub open spec fn after_disabled(dev: CanDevice) -> CanDevice {
    if waits_on(dev, Pending::Disable) {
        CanDevice { pending: Pending::Idle, ..dev }
    } else {
        dev
    }
}

/// The callbacks for the first `n` devices after disabling completed.
pub open spec fn disabled_events(devs: Seq<CanDevice>, status: Result<(), ErrorCode>, n: nat) -> Seq<
    DeviceEvent,
>
    decreases n,
{
    if n == 0 {
        Seq::empty()
    } else {
        let d = devs[n - 1];
        disabled_events(devs, status, (n - 1) as nat) + opt_event(
            waits_on(d, Pending::Disable) && d.controller_client,
            n - 1,
            ClientCallback::Disabled(status),
        )
    }
}

/// A device after the controller stopped receiving: its parked buffer goes
/// back to its client.
pub open spec fn after_stopped(dev: CanDevice) -> CanDevice {
    if waits_on(dev, Pending::Stop) {
        CanDevice { pending: Pending::Idle, rx_buffer: None, ..dev }
    } else {
        dev
    }
}

/// The callbacks for the first `n` devices after receiving stopped.
pub open spec fn stopped_events(devs: Seq<CanDevice>, n: nat) -> Seq<DeviceEvent>
    decreases n,
{
    if n == 0 {
        Seq::empty()
    } else {
        let d = devs[n - 1];
        stopped_events(devs, (n - 1) as nat) + opt_event(
            waits_on(d, Pending::Stop) && d.rx_buffer is Some && d.receive_client,
            n - 1,
            ClientCallback::Stopped(d.rx_buffer.unwrap()),
        )
    }
}

/// Whether `dev` waits for a deferred report of a refused frame.
pub open spec fn deferred_tx_fail(dev: CanDevice) -> bool {
    dev.pending_deferred && dev.pending == Pending::TxFail
}

/// `e` is the deferred callback of one of `devs`, from a device that had
/// its outcome deferred if it had no frame queued. (A device with a frame
/// queued may have had it refused, and its report deferred, by the
/// controller meanwhile.)
pub open spec fn event_of_deferred(devs: Seq<CanDevice>, e: DeviceEvent) -> bool {
    let j = e.device as int;
    &&& j < devs.len()
    &&& !devs[j].tx_pending ==> deferred_event(devs[j], j).len() > 0 && e == deferred_event(
        devs[j],
        j,
    )[0]
}

/// The callback reporting a device's deferred outcome is at most one, and
/// names that device.
proof fn lemma_deferred_event_device(dev: CanDevice, i: int)
    requires
        0 <= i <= usize::MAX,
    ensures
        deferred_event(dev, i).len() <= 1,
        deferred_event(dev, i).len() == 1 ==> deferred_event(dev, i)[0].device == i,
{
}

/// Nothing that reporting deferred outcomes does reaches the controller:
/// no refused frame waits to be reported, or no frame is queued, or one is
/// already with the controller. Then each deferred outcome is reported
/// exactly once and nothing else happens.
pub open spec fn calm_deferred(devs: Seq<CanDevice>, inflight: Option<usize>) -> bool {
    ||| forall|j: int| #![trigger devs[j]] 0 <= j < devs.len() ==> !deferred_tx_fail(devs[j])
    ||| forall|j: int| #![trigger devs[j]] 0 <= j < devs.len() ==> !devs[j].tx_pending
    ||| inflight is Some
}

/// A device after its deferred outcome, if it had one, was reported.
pub open spec fn after_deferred(dev: CanDevice) -> CanDevice {
    if !dev.pending_deferred {
        dev
    } else {
        match dev.pending {
            Pending::Stop => CanDevice {
                pending: Pending::Idle,
                pending_deferred: false,
                rx_buffer: None,
                ..dev
            },
            Pending::TxFail => CanDevice {
                pending: Pending::Idle,
                pending_deferred: false,
                tx_buffer: None,
                ..dev
            },
            _ => CanDevice { pending: Pending::Idle, pending_deferred: false, ..dev },
        }
    }
}

/// The callback that reports the deferred outcome of device `i`, if any.
pub open spec fn deferred_event(dev: CanDevice, i: int) -> Seq<DeviceEvent> {
    if !dev.pending_deferred {
        Seq::empty()
    } else {
        match dev.pending {
            Pending::Enable => opt_event(dev.controller_client, i, ClientCallback::Enabled(Ok(()))),
            Pending::Disable => opt_event(
                dev.controller_client,
                i,
                ClientCallback::Disabled(Ok(())),
            ),
            Pending::Stop => opt_event(
                dev.rx_buffer is Some && dev.receive_client,
                i,
                ClientCallback::Stopped(dev.rx_buffer.unwrap()),
            ),
            Pending::TxFail => opt_event(
                dev.tx_buffer is Some && dev.transmit_client,
                i,
                ClientCallback::TransmitComplete(Err(CanError::SetBySoftware), dev.tx_buffer.unwrap()),
            ),
            Pending::Idle => Seq::empty(),
        }
    }
}

/// The deferred callbacks of the first `n` devices, in device order.
pub open spec fn deferred_events(devs: Seq<CanDevice>, n: nat) -> Seq<DeviceEvent>
    decreases n,
{
    if n == 0 {
        Seq::empty()
    } else {
        deferred_events(devs, (n - 1) as nat) + deferred_event(devs[n - 1], n - 1)
    }
}

/// The state change as seen by the first `n` devices.
pub open spec fn state_events(devs: Seq<CanDevice>, state: CanState, n: nat) -> Seq<DeviceEvent>
    decreases n,
{
    if n == 0 {
        Seq::empty()
    } else {
        state_events(devs, state, (n - 1) as nat) + opt_event(
            devs[n - 1].controller_client,
            n - 1,
            ClientCallback::StateChanged(state),
        )
    }
}

/// The deliveries of a received frame to the first `n` devices: exactly
/// those that are receiving and have a subscription matching the frame.
pub open spec fn rx_events(
    devs: Seq<CanDevice>,
    id: CanId,
    frame: Frame,
    len: usize,
    status: Result<(), CanError>,
    n: nat,
) -> Seq<DeviceEvent>
    decreases n,
{
    if n == 0 {
        Seq::empty()
    } else {
        let d = devs[n - 1];
        rx_events(devs, id, frame, len, status, (n - 1) as nat) + opt_event(
            d.receiving && spec_device_matches(d, id) && d.receive_client,
            n - 1,
            ClientCallback::MessageReceived(id, frame, len, status),
        )
    }
}

impl<C: CanController + CanFilter> MuxCan<C> {
    /// The controller reports a change of bus state; every device hears it.
    pub fn state_changed(&mut self, state: CanState)
        ensures
            same_counters(final(self), old(self)),
            final(self).devices@ == old(self).devices@,
            final(self).inflight == old(self).inflight,
            final(self).next_tx == old(self).next_tx,
            final(self).deferred_call == old(self).deferred_call,
            final(self).can == old(self).can,
            final(self).events@ == old(self).events@ + state_events(
                old(self).devices@,
                state,
                old(self).devices@.len(),
            ),
    {
        let mut i: usize = 0;
        while i < self.devices.len()
            invariant
                i <= self.devices@.len(),
                same_counters(self, old(self)),
                self.devices@ == old(self).devices@,
                self.inflight == old(self).inflight,
                self.next_tx == old(self).next_tx,
                self.deferred_call == old(self).deferred_call,
                self.can == old(self).can,
                self.events@ == old(self).events@ + state_events(old(self).devices@, state, i as nat),
            decreases self.devices@.len() - i,
        {
            if self.devices[i].controller_client {
                self.events.push(
                    DeviceEvent { device: i, callback: ClientCallback::StateChanged(state) },
                );
            }
            proof {
                assert(self.events@ =~= old(self).events@ + state_events(
                    old(self).devices@,
                    state,
                    (i + 1) as nat,
                ));
            }
            i = i + 1;
        }
    }

    /// A frame arrived; hand it to every receiving device whose
    /// subscriptions match it.
    pub fn message_received(
        &mut self,
        id: CanId,
        frame: Frame,
        len: usize,
        status: Result<(), CanError>,
    )
        ensures
            same_counters(final(self), old(self)),
            final(self).devices@ == old(self).devices@,
            final(self).inflight == old(self).inflight,
            final(self).next_tx == old(self).next_tx,
            final(self).deferred_call == old(self).deferred_call,
            final(self).can == old(self).can,
            final(self).events@ == old(self).events@ + rx_events(
                old(self).devices@,
                id,
                frame,
                len,
                status,
                old(self).devices@.len(),
            ),
    {
        let mut i: usize = 0;
        while i < self.devices.len()
            invariant
                i <= self.devices@.len(),
                same_counters(self, old(self)),
                self.devices@ == old(self).devices@,
                self.inflight == old(self).inflight,
                self.next_tx == old(self).next_tx,
                self.deferred_call == old(self).deferred_call,
                self.can == old(self).can,
                self.events@ == old(self).events@ + rx_events(
                    old(self).devices@,
                    id,
                    frame,
                    len,
                    status,
                    i as nat,
                ),
            decreases self.devices@.len() - i,
        {
            let dev = self.devices[i];
            if dev.receiving && dev.matches(id) && dev.receive_client {
                self.events.push(
                    DeviceEvent {
                        device: i,
                        callback: ClientCallback::MessageReceived(id, frame, len, status),
                    },
                );
            }
            proof {
                assert(self.events@ =~= old(self).events@ + rx_events(
                    old(self).devices@,
                    id,
                    frame,
                    len,
                    status,
                    (i + 1) as nat,
                ));
            }
            i = i + 1;
        }
    }

    /// The controller finished enabling. On success the filters are
    /// programmed for the subscriptions registered meanwhile; every device
    /// waiting on the enable hears the outcome, and on failure is no longer
    /// enabled.
    pub fn enabled(&mut self, status: Result<(), ErrorCode>)
        requires
            old(self).wf(),
        ensures
            final(self).wf(),
            final(self).hw_enabled == status is Ok,
            status is Err ==> final(self).enable_count == 0,
            status is Ok ==> final(self).enable_count == old(self).enable_count,
            status is Err ==> final(self).can == old(self).can,
            status is Ok ==> filters_programmed(
                old(self).can.requests(),
                final(self).can.requests(),
                old(self).devices@,
                old(self).can.filter_slots(),
            ),
            final(self).rx_buffer == old(self).rx_buffer,
            final(self).receive_count == old(self).receive_count,
            final(self).hw_receiving == old(self).hw_receiving,
            final(self).inflight == old(self).inflight,
            final(self).next_tx == old(self).next_tx,
            final(self).deferred_call == old(self).deferred_call,
            final(self).devices@ == Seq::new(
                old(self).devices@.len(),
                |j: int| after_enabled(old(self).devices@[j], status),
            ),
            final(self).events@ == old(self).events@ + enabled_events(
                old(self).devices@,
                status,
                old(self).devices@.len(),
            ),
    {
        self.hw_enabled = status.is_ok();
        if status.is_err() {
            self.enable_count = 0;
        } else {
            self.program_filters();
        }
        let ghost devs = self.devices@;
        let ghost programmed = self.can;
        let mut i: usize = 0;
        while i < self.devices.len()
            invariant
                devs == old(self).devices@,
                self.can == programmed,
                status is Ok ==> filters_programmed(
                    old(self).can.requests(),
                    programmed.requests(),
                    devs,
                    old(self).can.filter_slots(),
                ),
                i <= self.devices@.len(),
                self.devices@.len() == devs.len(),
                forall|j: int| 0 <= j < i ==> self.devices@[j] == after_enabled(devs[j], status),
                forall|j: int| i <= j < devs.len() ==> self.devices@[j] == devs[j],
                count_flag(self.devices@, true) == count_flag(devs, true),
                status is Ok ==> count_flag(self.devices@, false) == count_flag(devs, false),
                status is Ok ==> self.enable_count == old(self).enable_count,
                status is Err ==> self.enable_count == 0,
                status is Err ==> self.can == old(self).can,
                self.inflight matches Some(k) ==> k < devs.len(),
                self.hw_enabled == status is Ok,
                self.rx_buffer == old(self).rx_buffer,
                self.receive_count == old(self).receive_count,
                self.hw_receiving == old(self).hw_receiving,
                self.inflight == old(self).inflight,
                self.next_tx == old(self).next_tx,
                self.deferred_call == old(self).deferred_call,
                old(self).wf(),
                self.events@ == old(self).events@ + enabled_events(devs, status, i as nat),
            decreases self.devices@.len() - i,
        {
            let mut dev = self.devices[i];
            if dev.pending == Pending::Enable && !dev.pending_deferred {
                dev.pending = Pending::Idle;
                if status.is_err() {
                    dev.enabled = false;
                }
                proof {
                    lemma_count_update(self.devices@, false, i as int, dev);
                    lemma_count_update(self.devices@, true, i as int, dev);
                }
                self.devices[i] = dev;
                if dev.controller_client {
                    self.events.push(
                        DeviceEvent { device: i, callback: ClientCallback::Enabled(status) },
                    );
                }
            }
            proof {
                assert(self.events@ =~= old(self).events@ + enabled_events(
                    devs,
                    status,
                    (i + 1) as nat,
                ));
            }
            i = i + 1;
        }
        proof {
            assert(self.devices@ =~= Seq::new(
                devs.len(),
                |j: int| after_enabled(devs[j], status),
            ));
        }
    }

    /// The controller finished disabling; every device waiting on it hears
    /// the outcome.
    pub fn disabled(&mut self, status: Result<(), ErrorCode>)
        requires
            old(self).wf(),
        ensures
            final(self).wf(),
            !final(self).hw_enabled,
            !final(self).hw_receiving,
            final(self).enable_count == old(self).enable_count,
            final(self).receive_count == old(self).receive_count,
            final(self).rx_buffer == old(self).rx_buffer,
            final(self).can == old(self).can,
            final(self).inflight == old(self).inflight,
            final(self).next_tx == old(self).next_tx,
            final(self).deferred_call == old(self).deferred_call,
            final(self).devices@ == Seq::new(
                old(self).devices@.len(),
                |j: int| after_disabled(old(self).devices@[j]),
            ),
            final(self).events@ == old(self).events@ + disabled_events(
                old(self).devices@,
                status,
                old(self).devices@.len(),
            ),
    {
        self.hw_enabled = false;
        self.hw_receiving = false;
        let ghost devs = self.devices@;
        let mut i: usize = 0;
        while i < self.devices.len()
            invariant
                devs == old(self).devices@,
                i <= self.devices@.len(),
                self.devices@.len() == devs.len(),
                forall|j: int| 0 <= j < i ==> self.devices@[j] == after_disabled(devs[j]),
                forall|j: int| i <= j < devs.len() ==> self.devices@[j] == devs[j],
                count_flag(self.devices@, true) == count_flag(devs, true),
                count_flag(self.devices@, false) == count_flag(devs, false),
                !self.hw_enabled,
                !self.hw_receiving,
                self.enable_count == old(self).enable_count,
                self.can == old(self).can,
                self.rx_buffer == old(self).rx_buffer,
                self.receive_count == old(self).receive_count,
                self.inflight == old(self).inflight,
                self.next_tx == old(self).next_tx,
                self.deferred_call == old(self).deferred_call,
                old(self).wf(),
                self.events@ == old(self).events@ + disabled_events(devs, status, i as nat),
            decreases self.devices@.len() - i,
        {
            let mut dev = self.devices[i];
            if dev.pending == Pending::Disable && !dev.pending_deferred {
                dev.pending = Pending::Idle;
                proof {
                    lemma_count_update(self.devices@, false, i as int, dev);
                    lemma_count_update(self.devices@, true, i as int, dev);
                }
                self.devices[i] = dev;
                if dev.controller_client {
                    self.events.push(
                        DeviceEvent { device: i, callback: ClientCallback::Disabled(status) },
                    );
                }
            }
            proof {
                assert(self.events@ =~= old(self).events@ + disabled_events(
                    devs,
                    status,
                    (i + 1) as nat,
                ));
            }
            i = i + 1;
        }
        proof {
            assert(self.devices@ =~= Seq::new(devs.len(), |j: int| after_disabled(devs[j])));
        }
    }

    /// The controller stopped receiving and returned its buffer; every
    /// device waiting on the stop gets its own buffer back.
    pub fn stopped(&mut self, buffer: Frame)
        requires
            old(self).wf(),
        ensures
            final(self).wf(),
            final(self).rx_buffer == Some(buffer),
            !final(self).hw_receiving,
            final(self).hw_enabled == old(self).hw_enabled,
            final(self).enable_count == old(self).enable_count,
            final(self).receive_count == old(self).receive_count,
            final(self).can == old(self).can,
            final(self).inflight == old(self).inflight,
            final(self).next_tx == old(self).next_tx,
            final(self).deferred_call == old(self).deferred_call,
            final(self).devices@ == Seq::new(
                old(self).devices@.len(),
                |j: int| after_stopped(old(self).devices@[j]),
            ),
            final(self).events@ == old(self).events@ + stopped_events(
                old(self).devices@,
                old(self).devices@.len(),
            ),
    {
        self.rx_buffer = Some(buffer);
        self.hw_receiving = false;
        let ghost devs = self.devices@;
        let mut i: usize = 0;
        while i < self.devices.len()
            invariant
                devs == old(self).devices@,
                i <= self.devices@.len(),
                self.devices@.len() == devs.len(),
                forall|j: int| 0 <= j < i ==> self.devices@[j] == after_stopped(devs[j]),
                forall|j: int| i <= j < devs.len() ==> self.devices@[j] == devs[j],
                count_flag(self.devices@, true) == count_flag(devs, true),
                count_flag(self.devices@, false) == count_flag(devs, false),
                self.rx_buffer == Some(buffer),
                !self.hw_receiving,
                self.hw_enabled == old(self).hw_enabled,
                self.enable_count == old(self).enable_count,
                self.can == old(self).can,
                self.receive_count == old(self).receive_count,
                self.inflight == old(self).inflight,
                self.next_tx == old(self).next_tx,
                self.deferred_call == old(self).deferred_call,
                old(self).wf(),
                self.events@ == old(self).events@ + stopped_events(devs, i as nat),
            decreases self.devices@.len() - i,
        {
            let mut dev = self.devices[i];
            if dev.pending == Pending::Stop && !dev.pending_deferred {
                dev.pending = Pending::Idle;
                let parked = dev.rx_buffer;
                dev.rx_buffer = None;
                proof {
                    lemma_count_update(self.devices@, false, i as int, dev);
                    lemma_count_update(self.devices@, true, i as int, dev);
                }
                self.devices[i] = dev;
                if let Some(client_buffer) = parked {
                    if dev.receive_client {
                        self.events.push(
                            DeviceEvent {
                                device: i,
                                callback: ClientCallback::Stopped(client_buffer),
                            },
                        );
                    }
                }
            }
            proof {
                assert(self.events@ =~= old(self).events@ + stopped_events(devs, (i + 1) as nat));
            }
            i = i + 1;
        }
        proof {
            assert(self.devices@ =~= Seq::new(devs.len(), |j: int| after_stopped(devs[j])));
        }
    }

    /// The controller finished a transmission: its owner hears the outcome
    /// (a buffer with no owner is kept as the receive buffer), and the next
    /// queued frame goes out.
    pub fn transmit_complete(&mut self, status: Result<(), CanError>, buffer: Frame)
        requires
            old(self).wf(),
        ensures
            final(self).wf(),
            final(self).enable_count == old(self).enable_count,
            final(self).receive_count == old(self).receive_count,
            final(self).hw_enabled == old(self).hw_enabled,
            final(self).hw_receiving == old(self).hw_receiving,
            old(self).inflight is None ==> final(self).rx_buffer == Some(buffer),
            old(self).inflight is Some ==> final(self).rx_buffer == old(self).rx_buffer,
            final(self).events@ == old(self).events@ + match old(self).inflight {
                Some(d) => opt_event(
                    old(self).devices@[d as int].transmit_client,
                    d as int,
                    ClientCallback::TransmitComplete(status, buffer),
                ),
                None => Seq::empty(),
            },
    {
        match self.inflight {
            Some(d) => {
                self.inflight = None;
                if self.devices[d].transmit_client {
                    self.events.push(
                        DeviceEvent {
                            device: d,
                            callback: ClientCallback::TransmitComplete(status, buffer),
                        },
                    );
                }
            },
            None => {
                self.rx_buffer = Some(buffer);
            },
        }
        proof {
            if old(self).inflight is Some {
                assert(self.events@ =~= old(self).events@ + opt_event(
                    old(self).devices@[old(self).inflight.unwrap() as int].transmit_client,
                    old(self).inflight.unwrap() as int,
                    ClientCallback::TransmitComplete(status, buffer),
                ));
            }
        }
        self.do_next_tx();
    }

    /// Report the deferred outcome of device `i`, if it has one: its
    /// callback, and, for a refused frame, the next transmission.
    #[verifier::rlimit(60)]
    fn deliver_deferred(&mut self, i: usize)
        requires
            old(self).wf(),
            i < old(self).devices@.len(),
        ensures
            final(self).wf(),
            same_counters(final(self), old(self)),
            final(self).devices@.len() == old(self).devices@.len(),
            final(self).events@ == old(self).events@ + deferred_event(old(self).devices@[i as int], i as int),
            old(self).deferred_call ==> final(self).deferred_call,
            forall|j: int|
                0 <= j < old(self).devices@.len() && !old(self).devices@[j].tx_pending ==> #[trigger] final(
                    self).devices@[j] == if j == i {
                    after_deferred(old(self).devices@[j])
                } else {
                    old(self).devices@[j]
                },
            forall|j: int|
                #![trigger final(self).devices@[j]]
                0 <= j < old(self).devices@.len() && final(self).devices@[j].pending_deferred ==> (
                (j != i && final(self).devices@[j].pending == old(self).devices@[j].pending
                    && old(self).devices@[j].pending_deferred) || (deferred_tx_fail(
                    final(self).devices@[j],
                ) && final(self).deferred_call)),
            !deferred_tx_fail(old(self).devices@[i as int]) || old(self).inflight is Some || (forall|j: int|
                #![trigger old(self).devices@[j]]
                0 <= j < old(self).devices@.len() ==> !old(self).devices@[j].tx_pending) ==> {
                &&& final(self).devices@ == old(self).devices@.update(
                    i as int,
                    after_deferred(old(self).devices@[i as int]),
                )
                &&& final(self).deferred_call == old(self).deferred_call
                &&& final(self).can == old(self).can
                &&& final(self).inflight == old(self).inflight
                &&& final(self).next_tx == old(self).next_tx
            },
    {
        let ghost calm = old(self).inflight is Some || (forall|j: int|
            #![trigger old(self).devices@[j]]
            0 <= j < old(self).devices@.len() ==> !old(self).devices@[j].tx_pending);
        let mut dev = self.devices[i];
        if dev.pending_deferred {
            let pending = dev.pending;
            dev.pending = Pending::Idle;
            dev.pending_deferred = false;
            match pending {
                Pending::Stop => {
                    let parked = dev.rx_buffer;
                    dev.rx_buffer = None;
                    proof {
                        lemma_count_update(self.devices@, false, i as int, dev);
                        lemma_count_update(self.devices@, true, i as int, dev);
                    }
                    self.devices[i] = dev;
                    if let Some(buf) = parked {
                        if dev.receive_client {
                            self.events.push(
                                DeviceEvent { device: i, callback: ClientCallback::Stopped(buf) },
                            );
                        }
                    }
                },
                Pending::TxFail => {
                    let refused = dev.tx_buffer;
                    dev.tx_buffer = None;
                    proof {
                        lemma_count_update(self.devices@, false, i as int, dev);
                        lemma_count_update(self.devices@, true, i as int, dev);
                    }
                    self.devices[i] = dev;
                    if let Some(buf) = refused {
                        if dev.transmit_client {
                            self.events.push(
                                DeviceEvent {
                                    device: i,
                                    callback: ClientCallback::TransmitComplete(
                                        Err(CanError::SetBySoftware),
                                        buf,
                                    ),
                                },
                            );
                        }
                    }
                    let ghost before_tx = self.devices@;
                    proof {
                        if calm && self.inflight is None && before_tx.len() > 0 {
                            assert forall|j: int| 0 <= j < before_tx.len() implies !(
                            #[trigger] before_tx[j]).tx_pending by {
                                if j != i {
                                    assert(before_tx[j] == old(self).devices@[j]);
                                }
                            }
                            lemma_scan_valid(
                                before_tx,
                                self.next_tx as int % before_tx.len() as int,
                                0,
                            );
                        }
                    }
                    self.do_next_tx();
                },
                _ => {
                    proof {
                        lemma_count_update(self.devices@, false, i as int, dev);
                        lemma_count_update(self.devices@, true, i as int, dev);
                    }
                    self.devices[i] = dev;
                    if dev.controller_client {
                        if pending == Pending::Enable {
                            self.events.push(
                                DeviceEvent { device: i, callback: ClientCallback::Enabled(Ok(())) },
                            );
                        } else if pending == Pending::Disable {
                            self.events.push(
                                DeviceEvent {
                                    device: i,
                                    callback: ClientCallback::Disabled(Ok(())),
                                },
                            );
                        }
                    }
                },
            }
        }
        proof {
            assert(self.events@ =~= old(self).events@ + deferred_event(
                old(self).devices@[i as int],
                i as int,
            ));
        }
    }

    /// Deliver the callbacks queued for devices because the controller was
    /// already in the state they asked for. A refused frame is reported to
    /// its owner and the next queued frame goes out.
    #[verifier::rlimit(60)]
    pub fn handle_deferred_call(&mut self)
        requires
            old(self).wf(),
        ensures
            final(self).wf(),
            same_counters(final(self), old(self)),
            final(self).devices@.len() == old(self).devices@.len(),
            final(self).events@.len() >= old(self).events@.len(),
            final(self).events@.subrange(0, old(self).events@.len() as int) == old(self).events@,
            forall|j: int|
                #![trigger final(self).devices@[j]]
                0 <= j < old(self).devices@.len() && final(self).devices@[j].pending_deferred
                    ==> deferred_tx_fail(final(self).devices@[j]) && final(self).deferred_call,
            forall|j: int|
                #![trigger old(self).devices@[j]]
                0 <= j < old(self).devices@.len() && !old(self).devices@[j].tx_pending
                    && deferred_event(old(self).devices@[j], j).len() > 0 ==> exists|k: int|
                    old(self).events@.len() <= k < final(self).events@.len() && #[trigger] final(
                        self).events@[k] == deferred_event(old(self).devices@[j], j)[0],
            forall|j: int|
                0 <= j < old(self).devices@.len() && !old(self).devices@[j].tx_pending ==> #[trigger] final(
                    self).devices@[j] == after_deferred(old(self).devices@[j]),
            forall|k: int|
                old(self).events@.len() <= k < final(self).events@.len() ==> event_of_deferred(
                    old(self).devices@,
                    #[trigger] final(self).events@[k],
                ),
            forall|k1: int, k2: int|
                old(self).events@.len() <= k1 < k2 < final(self).events@.len() ==> (
                #[trigger] final(self).events@[k1]).device < (#[trigger] final(self).events@[k2]).device,
            calm_deferred(old(self).devices@, old(self).inflight) ==> {
                &&& final(self).devices@ == Seq::new(
                    old(self).devices@.len(),
                    |j: int| after_deferred(old(self).devices@[j]),
                )
                &&& final(self).events@ == old(self).events@ + deferred_events(
                    old(self).devices@,
                    old(self).devices@.len(),
                )
                &&& !final(self).deferred_call
                &&& final(self).can == old(self).can
                &&& final(self).inflight == old(self).inflight
                &&& final(self).next_tx == old(self).next_tx
            },
    {
        self.deferred_call = false;
        let ghost devs = old(self).devices@;
        let ghost quiet = calm_deferred(devs, old(self).inflight);
        let mut i: usize = 0;
        while i < self.devices.len()
            invariant
                devs == old(self).devices@,
                quiet == calm_deferred(devs, old(self).inflight),
                i <= self.devices@.len(),
                self.devices@.len() == devs.len(),
                self.wf(),
                same_counters(self, old(self)),
                self.events@.len() >= old(self).events@.len(),
                self.events@.subrange(0, old(self).events@.len() as int) == old(self).events@,
                forall|j: int|
                    #![trigger self.devices@[j]]
                    0 <= j < i && self.devices@[j].pending_deferred ==> deferred_tx_fail(
                        self.devices@[j],
                    ) && self.deferred_call,
                forall|j: int|
                    i <= j < devs.len() && !devs[j].tx_pending ==> #[trigger] self.devices@[j]
                        == devs[j],
                forall|j: int|
                    0 <= j < i && !devs[j].tx_pending ==> #[trigger] self.devices@[j]
                        == after_deferred(devs[j]),
                forall|j: int|
                    #![trigger devs[j]]
                    0 <= j < i && !devs[j].tx_pending && deferred_event(devs[j], j).len() > 0
                        ==> exists|k: int|
                        old(self).events@.len() <= k < self.events@.len() && #[trigger] self.events@[k]
                            == deferred_event(devs[j], j)[0],
                forall|k: int|
                    old(self).events@.len() <= k < self.events@.len() ==> event_of_deferred(
                        devs,
                        #[trigger] self.events@[k],
                    ) && self.events@[k].device < i,
                forall|k1: int, k2: int|
                    old(self).events@.len() <= k1 < k2 < self.events@.len() ==> (
                    #[trigger] self.events@[k1]).device < (#[trigger] self.events@[k2]).device,
                quiet ==> {
                    &&& forall|j: int|
                        #![trigger self.devices@[j]]
                        0 <= j < i ==> self.devices@[j] == after_deferred(devs[j])
                    &&& forall|j: int|
                        #![trigger self.devices@[j]]
                        i <= j < devs.len() ==> self.devices@[j] == devs[j]
                    &&& self.events@ == old(self).events@ + deferred_events(devs, i as nat)
                    &&& !self.deferred_call
                    &&& self.can == old(self).can
                    &&& self.inflight == old(self).inflight
                    &&& self.next_tx == old(self).next_tx
                },
            decreases self.devices@.len() - i,
        {
            let ghost events0 = self.events@;
            let ghost devices0 = self.devices@;
            self.deliver_deferred(i);
            proof {
                assert(self.events@.subrange(0, old(self).events@.len() as int)
                    =~= events0.subrange(0, old(self).events@.len() as int));
                assert(self.events@ =~= events0 + deferred_event(devices0[i as int], i as int));
                lemma_deferred_event_device(devices0[i as int], i as int);
                assert forall|k: int|
                    old(self).events@.len() <= k < self.events@.len() implies event_of_deferred(
                    devs,
                    #[trigger] self.events@[k],
                ) && self.events@[k].device < i + 1 by {
                    if k >= events0.len() {
                        if !devs[i as int].tx_pending {
                            assert(devices0[i as int] == devs[i as int]);
                        }
                    } else {
                        assert(self.events@[k] == events0[k]);
                    }
                }
                assert forall|k1: int, k2: int|
                    old(self).events@.len() <= k1 < k2 < self.events@.len() implies (
                    #[trigger] self.events@[k1]).device < (#[trigger] self.events@[k2]).device by {
                    assert(self.events@[k1] == events0[k1]);
                    if k2 < events0.len() {
                        assert(self.events@[k2] == events0[k2]);
                    }
                }
                assert forall|j: int|
                    #![trigger devs[j]]
                    0 <= j < i + 1 && !devs[j].tx_pending && deferred_event(devs[j], j).len() > 0
                        implies exists|k: int|
                        old(self).events@.len() <= k < self.events@.len() && #[trigger] self.events@[k]
                            == deferred_event(devs[j], j)[0] by {
                    if j < i {
                        let k = choose|k: int|
                            old(self).events@.len() <= k < events0.len() && #[trigger] events0[k]
                                == deferred_event(devs[j], j)[0];
                        assert(self.events@[k] == events0[k]);
                    } else {
                        assert(devices0[i as int] == devs[i as int]);
                        assert(self.events@[events0.len() as int] == deferred_event(devs[j], j)[0]);
                    }
                }
                if quiet {
                    assert(self.events@ =~= events0 + deferred_event(devs[i as int], i as int));
                    assert(self.events@ =~= old(self).events@ + deferred_events(
                        devs,
                        (i + 1) as nat,
                    ));
                }
            }
            i = i + 1;
        }
        proof {
            if quiet {
                assert(self.devices@ =~= Seq::new(devs.len(), |j: int| after_deferred(devs[j])));
            }
        }
    }
}

impl<C: CanController + CanFilter> MuxCan<C> {
    /// Whether the multiplexer's bookkeeping is consistent: the device in
    /// flight exists and the counters do not exceed the devices they count.
    pub fn is_wf(&self) -> (r: bool)
        ensures
            r == self.wf(),
    {
        let mut enabled: usize = 0;
        let mut receiving: usize = 0;
        let mut i: usize = 0;
        while i < self.devices.len()
            invariant
                i <= self.devices@.len(),
                enabled <= i,
                receiving <= i,
                enabled == count_flag(self.devices@.take(i as int), false),
                receiving == count_flag(self.devices@.take(i as int), true),
            decreases self.devices@.len() - i,
        {
            proof {
                assert(self.devices@.take(i + 1).drop_last() =~= self.devices@.take(i as int));
            }
            if self.devices[i].enabled {
                enabled = enabled + 1;
            }
            if self.devices[i].receiving {
                receiving = receiving + 1;
            }
            i = i + 1;
        }
        proof {
            assert(self.devices@.take(self.devices@.len() as int) =~= self.devices@);
        }
        let inflight_ok = match self.inflight {
            Some(d) => d < self.devices.len(),
            None => true,
        };
        inflight_ok && self.enable_count <= enabled && self.receive_count <= receiving
    }
}

/// One device of a multiplexer, as the lower layer whose subscriptions the
/// CAN capsule keeps in step with its processes': the device's own
/// subscription slots, reprogramming the controller's filters on each
/// change. `log` records what it was asked.
pub struct MuxSubscriber<C> {
    pub mux: MuxCan<C>,
    pub device: usize,
    pub log: Ghost<Seq<SubscribeRequest>>,
}

impl<C: CanController + CanFilter> MuxSubscriber<C> {
    /// Device `device` of `mux`, asked nothing yet.
    pub fn new(mux: MuxCan<C>, device: usize) -> (r: Self)
        ensures
            r.mux == mux,
            r.device == device,
            r.log@ == Seq::<SubscribeRequest>::empty(),
    {
        MuxSubscriber { mux, device, log: Ghost(Seq::empty()) }
    }

    /// Whether the device exists and the multiplexer is consistent.
    pub open spec fn usable(&self) -> bool {
        self.mux.wf() && self.device < self.mux.devices@.len()
    }
}

impl<C: CanController + CanFilter> Subscribe for MuxSubscriber<C> {
    open spec fn requests(&self) -> Seq<SubscribeRequest> {
        self.log@
    }

    open spec fn capacity(&self) -> nat {
        4
    }

    /// Subscribe the device: its first free slot takes the subscription
    /// (`NOMEM` when it has none) and the filters are reprogrammed. `INVAL`
    /// for a device that does not exist, changing nothing.
    fn subscribe(&mut self, id: CanId, mask: u32) -> (r: Result<(), ErrorCode>)
        ensures
            final(self).device == old(self).device,
            !old(self).usable() ==> r == Err::<(), ErrorCode>(ErrorCode::INVAL) && final(self).mux
                == old(self).mux,
            old(self).usable() ==> {
                let dev = old(self).mux.devices@[old(self).device as int];
                &&& final(self).usable()
                &&& match first_free_slot(dev) {
                    None => r == Err::<(), ErrorCode>(ErrorCode::NOMEM) && final(self).mux.devices@
                        == old(self).mux.devices@ && final(self).mux.can == old(self).mux.can,
                    Some(i) => r is Ok && final(self).mux.devices@[old(self).device as int].subscriptions@
                        == dev.subscriptions@.update(i, Some(Subscription { id, mask }))
                        && filters_programmed(
                        old(self).mux.can.requests(),
                        final(self).mux.can.requests(),
                        final(self).mux.devices@,
                        old(self).mux.can.filter_slots(),
                    ),
                }
            },
    {
        proof {
            self.log@ = self.log@.push(SubscribeRequest::Subscribe(id, mask));
        }
        if self.device < self.mux.devices.len() && self.mux.is_wf() {
            self.mux.subscribe(self.device, id, mask)
        } else {
            Err(ErrorCode::INVAL)
        }
    }

    /// Drop every subscription of the device and reprogram the filters;
    /// nothing for a device that does not exist.
    fn clear_subscriptions(&mut self)
        ensures
            final(self).device == old(self).device,
            !old(self).usable() ==> final(self).mux == old(self).mux,
            old(self).usable() ==> final(self).usable() && final(self).mux.devices@[old(
                self).device as int].subscriptions == [None::<Subscription>, None, None, None]
                && filters_programmed(
                old(self).mux.can.requests(),
                final(self).mux.can.requests(),
                final(self).mux.devices@,
                old(self).mux.can.filter_slots(),
            ),
    {
        proof {
            self.log@ = self.log@.push(SubscribeRequest::Clear);
        }
        if self.device < self.mux.devices.len() && self.mux.is_wf() {
            self.mux.clear_subscriptions(self.device);
        }
    }

    /// A device holds four subscriptions.
    fn subscription_capacity(&self) -> (r: usize) {
        4
    }
}

proof fn lemma_slot_list_class(dev: CanDevice, extended: bool, j: nat)
    ensures
        forall|m: int|
            0 <= m < slot_list(dev, extended, j).len() ==> spec_is_extended(
                #[trigger] slot_list(dev, extended, j)[m].id,
            ) == extended,
    decreases j,
{
    if j > 0 {
        lemma_slot_list_class(dev, extended, (j - 1) as nat);
    }
}

proof fn lemma_device_list_class(devs: Seq<CanDevice>, extended: bool, d: nat)
    requires
        d <= devs.len(),
    ensures
        forall|m: int|
            0 <= m < device_list(devs, extended, d).len() ==> spec_is_extended(
                #[trigger] device_list(devs, extended, d)[m].id,
            ) == extended,
    decreases d,
{
    if d > 0 {
        lemma_device_list_class(devs, extended, (d - 1) as nat);
        lemma_slot_list_class(devs[d - 1], extended, 4);
        let prev = device_list(devs, extended, (d - 1) as nat);
        let tail = slot_list(devs[d - 1], extended, 4);
        assert forall|m: int| 0 <= m < device_list(devs, extended, d).len() implies spec_is_extended(
            #[trigger] device_list(devs, extended, d)[m].id,
        ) == extended by {
            if m >= prev.len() {
                assert(device_list(devs, extended, d)[m] == tail[m - prev.len()]);
            }
        }
    }
}

/// The hardware filters cover the subscriptions. After the filters were
/// programmed for `devs` (as `program_filters`, and with it `subscribe`,
/// `clear_subscriptions` and the enabling of the controller, do), and
/// provided the controller accepted every filter it was asked to install:
/// an identifier that one of the subscriptions accepts (one of the first
/// `MAX_CLASS_SUBSCRIPTIONS` of its class) is accepted by a filter
/// installed in a slot, unless every slot holds a filter that the
/// subscriptions call for.
pub proof fn programmed_filters_cover(
    before: Seq<CanRequest>,
    after: Seq<CanRequest>,
    devs: Seq<CanDevice>,
    slots: nat,
    extended: bool,
    i: int,
    id: CanId,
)
    requires
        programmed_below(before, after, devs, slots),
        filters_accepted(after, before.len() as int),
        0 <= i < class_subs(devs, extended).len(),
        spec_matches(class_subs(devs, extended)[i], id),
    ensures
        (exists|k: nat|
            k < slots && (#[trigger] installed(after, k) matches Some(p) && filter_accepts(p, id)))
            || (forall|k: nat| k < slots ==> #[trigger] holds_wanted(devs, after, k)),
{
    let subs = class_subs(devs, extended);
    if !(forall|k: nat| k < slots ==> #[trigger] holds_wanted(devs, after, k)) {
        assert(sub_covered(after, subs, subs[i], slots));
        let k = choose|k: nat|
            k < slots && (#[trigger] installed(after, k) == Some(spec_filter_params(subs[i], k as u32))
                || installed(after, k) == Some(
                spec_filter_params(spec_covering_filter(subs), k as u32),
            ));
        if installed(after, k) != Some(spec_filter_params(subs[i], k as u32)) {
            lemma_device_list_class(devs, extended, devs.len());
            let list = device_list(devs, extended, devs.len());
            assert forall|m: int| 0 <= m < subs.len() implies spec_is_extended(
                #[trigger] subs[m].id,
            ) == spec_is_extended(subs[0].id) by {
                assert(subs[m] == list[m]);
                assert(subs[0] == list[0]);
            }
            covering_filter_accepts_union(subs, id, i);
        }
        assert(installed(after, k) matches Some(p) && filter_accepts(p, id));
    }
}

/// Masks select identifiers: an all-ones mask accepts exactly the
/// subscribed identifier, a zero mask every identifier of its class, and no
/// mask ever accepts an identifier of the other class.
pub proof fn subscription_masks(id: CanId, received: CanId, mask: u32)
    ensures
        spec_matches(Subscription { id, mask: 0xFFFF_FFFF }, received) <==> received == id,
        spec_matches(Subscription { id, mask: 0 }, received) <==> spec_is_extended(received)
            == spec_is_extended(id),
        spec_is_extended(received) != spec_is_extended(id) ==> !spec_matches(
            Subscription { id, mask },
            received,
        ),
{
    let a = spec_raw_id(received);
    let b = spec_raw_id(id);
    assert(a & 0xFFFF_FFFFu32 == a && b & 0xFFFF_FFFFu32 == b && a & 0u32 == 0 && b & 0u32 == 0)
        by (bit_vector);
}

/// Reception is opt-in: a device with no subscriptions accepts no frame,
/// and a received frame goes to a device exactly when the device is
/// receiving, has a client, and one of its subscriptions matches.
pub proof fn reception_is_opt_in(
    devs: Seq<CanDevice>,
    id: CanId,
    frame: Frame,
    len: usize,
    status: Result<(), CanError>,
    n: nat,
    i: usize,
)
    requires
        n <= devs.len(),
        i < devs.len(),
        devs.len() <= usize::MAX,
    ensures
        (forall|k: int| 0 <= k < 4 ==> devs[i as int].subscriptions[k] is None) ==> !spec_device_matches(
            devs[i as int],
            id,
        ),
        (exists|j: int|
            0 <= j < rx_events(devs, id, frame, len, status, n).len() && #[trigger] rx_events(
                devs,
                id,
                frame,
                len,
                status,
                n,
            )[j].device == i) <==> (i < n && devs[i as int].receiving && spec_device_matches(devs[i as int], id)
            && devs[i as int].receive_client),
    decreases n,
{
    if forall|k: int| 0 <= k < 4 ==> devs[i as int].subscriptions[k] is None {
        assert(!spec_device_matches(devs[i as int], id));
    }
    if n > 0 {
        reception_is_opt_in(devs, id, frame, len, status, (n - 1) as nat, i);
        let prev = rx_events(devs, id, frame, len, status, (n - 1) as nat);
        let d = devs[n - 1];
        let cond = d.receiving && spec_device_matches(d, id) && d.receive_client;
        let cur = rx_events(devs, id, frame, len, status, n);
        let ev = opt_event(cond, n - 1, ClientCallback::MessageReceived(id, frame, len, status));
        assert(cur == prev + ev);
        if exists|j: int| 0 <= j < cur.len() && #[trigger] cur[j].device == i {
            let j = choose|j: int| 0 <= j < cur.len() && #[trigger] cur[j].device == i;
            if j < prev.len() {
                assert(prev[j].device == i);
            } else {
                assert(cur[j] == ev[j - prev.len()]);
                assert(cond);
                assert(ev[0].device == (n - 1) as usize);
            }
        }
        if i < n && devs[i as int].receiving && spec_device_matches(devs[i as int], id) && devs[i as int].receive_client {
            if i < n - 1 {
                let j = choose|j: int| 0 <= j < prev.len() && #[trigger] prev[j].device == i;
                assert(cur[j] == prev[j]);
            } else {
                assert(cur[prev.len() as int] == ev[0]);
                assert(cur[prev.len() as int].device == i);
            }
        }
    }
}

/// The scan reaches a device with a waiting frame at offset `oj`: it stops
/// there or earlier, at the first waiting one.
proof fn lemma_scan_stops_by(devs: Seq<CanDevice>, start: int, o: int, oj: int)
    requires
        0 <= o <= oj < devs.len(),
        devs[rotate(start, oj, devs.len() as int)].tx_pending,
    ensures
        exists|o2: int| o <= o2 <= oj && scan_pending(devs, start, o) == Some(rotate(start, o2, devs.len() as int)),
    decreases oj - o,
{
    if devs[rotate(start, o, devs.len() as int)].tx_pending {
        assert(scan_pending(devs, start, o) == Some(rotate(start, o, devs.len() as int)));
    } else {
        lemma_scan_stops_by(devs, start, o + 1, oj);
        let o2 = choose|o2: int| o + 1 <= o2 <= oj && scan_pending(devs, start, o + 1) == Some(
            rotate(start, o2, devs.len() as int),
        );
        assert(scan_pending(devs, start, o) == Some(rotate(start, o2, devs.len() as int)));
    }
}

/// Transmission is fair: once device `k`'s frame has gone out, the scan
/// resumes just after `k`, so while any other device has a frame waiting,
/// `k` is not served again.
pub proof fn transmit_rotation_is_fair(devs: Seq<CanDevice>, k: int, j: int)
    requires
        0 <= k < devs.len(),
        0 <= j < devs.len(),
        j != k,
        devs[j].tx_pending,
    ensures
        scan_pending(devs, (k + 1) % (devs.len() as int), 0) is Some,
        scan_pending(devs, (k + 1) % (devs.len() as int), 0) != Some(k),
{
    let n = devs.len() as int;
    let s = (k + 1) % n;
    let oj = if j >= s {
        j - s
    } else {
        j - s + n
    };
    if k + 1 < n {
        assert(s == k + 1) by (nonlinear_arith)
            requires
                s == (k + 1) % n,
                0 <= k + 1 < n,
        ;
    } else {
        assert(s == 0) by (nonlinear_arith)
            requires
                s == (k + 1) % n,
                k + 1 == n,
                n > 0,
        ;
    }
    assert(0 <= oj <= n - 2);
    assert(rotate(s, oj, n) == j) by {
        if j >= s {
            assert((s + oj) % n == j) by (nonlinear_arith)
                requires
                    s + oj == j,
                    0 <= j < n,
            ;
        } else {
            assert((s + oj) % n == j) by (nonlinear_arith)
                requires
                    s + oj == j + n,
                    0 <= j < n,
            ;
        }
    }
    lemma_scan_stops_by(devs, s, 0, oj);
    let o2 = choose|o2: int| 0 <= o2 <= oj && scan_pending(devs, s, 0) == Some(rotate(s, o2, n));
    assert(rotate(s, o2, n) != k) by {
        if s + o2 < n {
            assert((s + o2) % n == s + o2) by (nonlinear_arith)
                requires
                    0 <= s + o2 < n,
            ;
        } else {
            assert((s + o2) % n == s + o2 - n) by (nonlinear_arith)
                requires
                    n <= s + o2 < 2 * n,
            ;
        }
    }
}

} // verus!
