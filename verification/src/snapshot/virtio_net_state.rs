//! Virtio-net device state: the interface spec and the live queue cursors of each device.
//!
//! Wire format, one envelope (all integers little-endian):
//!
//! ```text
//! [u32] device_count
//! for each device:
//!     [u32] iface_id_len, [bytes] iface_id (UTF-8)
//!     [u32] host_dev_name_len, [bytes] host_dev_name (UTF-8)
//!     [u8]  guest_mac_present (0 or 1), [6 u8] guest_mac (zero-filled if absent)
//!     [u8]  num_queues
//!     [u16] queue_size
//!     [u64] acked_features
//!     [u32] queue_count
//!     for each queue:
//!         [u16] index, [u16] size, [u8] ready, [u8] event_idx_enabled
//!         [u16] next_avail, [u16] next_used
//!         [u64] desc_table, [u64] avail_ring, [u64] used_ring
//! ```
//!
//! An empty input stands for "no devices". Envelopes of format version 7 hold the interface spec
//! alone: their device records end behind `queue_size`.
use vstd::prelude::*;

use crate::wire;

verus! {

broadcast use wire::field_widths;

/// State of one virtqueue at snapshot time.
#[derive(Debug, Clone, Copy, PartialEq, Eq, Structural)]
pub struct QueueState {
    /// Queue index within the device.
    pub index: u16,
    /// Queue size that the driver programmed, in descriptors.
    pub size: u16,
    /// Whether the driver has armed the queue.
    pub ready: bool,
    /// Whether VIRTIO_RING_F_EVENT_IDX is in effect.
    pub event_idx_enabled: bool,
    /// Cursor into the available ring.
    pub next_avail: u16,
    /// Cursor into the used ring.
    pub next_used: u16,
    /// Guest physical address of the descriptor table.
    pub desc_table: u64,
    /// Guest physical address of the available ring.
    pub avail_ring: u64,
    /// Guest physical address of the used ring.
    pub used_ring: u64,
}

/// Interface spec and live state of one device.
#[derive(Debug, Clone, PartialEq, Eq)]
pub struct VirtioNetDeviceState {
    /// Logical interface id.
    pub iface_id: String,
    /// Name of the host TAP device.
    pub host_dev_name: String,
    /// Guest-visible MAC address, if one was assigned.
    pub guest_mac: Option<[u8; 6]>,
    /// Number of virtqueues.
    pub num_queues: u8,
    /// Largest queue size, in descriptors.
    pub queue_size: u16,
    /// Negotiated feature bits.
    pub acked_features: u64,
    /// Live queue cursors; empty if the device was never activated.
    pub queues: Vec<QueueState>,
}

/// The virtio-net devices of one snapshot, in registration order.
#[derive(Debug, Clone, PartialEq, Eq)]
pub struct VirtioNetState {
    pub devices: Vec<VirtioNetDeviceState>,
}

/// Why an envelope was refused.
#[derive(Debug, Clone, PartialEq, Eq)]
pub enum VirtioNetStateError {
    /// A field of `need` bytes at `offset` reaches past the end.
    Truncated { need: usize, offset: usize },
    /// These bytes stand where UTF-8 text should.
    NonUtf8(Vec<u8>),
}

/// What a device state says.
pub struct NetDevice {
    pub iface_id: Seq<char>,
    pub host_dev_name: Seq<char>,
    pub guest_mac: Option<Seq<u8>>,
    pub num_queues: u8,
    pub queue_size: u16,
    pub acked_features: u64,
    pub queues: Seq<QueueState>,
}

/// What a refusal says.
pub enum NetFault {
    Truncated { need: nat, offset: nat },
    NonUtf8(Seq<u8>),
}

impl View for VirtioNetDeviceState {
    type V = NetDevice;

    open spec fn view(&self) -> NetDevice {
        NetDevice {
            iface_id: self.iface_id@,
            host_dev_name: self.host_dev_name@,
            guest_mac: match self.guest_mac {
                Some(mac) => Some(mac@),
                None => None,
            },
            num_queues: self.num_queues,
            queue_size: self.queue_size,
            acked_features: self.acked_features,
            queues: self.queues@,
        }
    }
}

impl View for VirtioNetState {
    type V = Seq<NetDevice>;

    open spec fn view(&self) -> Seq<NetDevice> {
        Seq::new(self.devices@.len(), |i: int| self.devices@[i]@)
    }
}

impl View for VirtioNetStateError {
    type V = NetFault;

    open spec fn view(&self) -> NetFault {
        match *self {
            VirtioNetStateError::Truncated { need, offset } => NetFault::Truncated {
                need: need as nat,
                offset: offset as nat,
            },
            VirtioNetStateError::NonUtf8(bytes) => NetFault::NonUtf8(bytes@),
        }
    }
}

impl Default for QueueState {
    fn default() -> (r: Self)
        ensures
            r == (QueueState {
                index: 0,
                size: 0,
                ready: false,
                event_idx_enabled: false,
                next_avail: 0,
                next_used: 0,
                desc_table: 0,
                avail_ring: 0,
                used_ring: 0,
            }),
    {
        QueueState {
            index: 0,
            size: 0,
            ready: false,
            event_idx_enabled: false,
            next_avail: 0,
            next_used: 0,
            desc_table: 0,
            avail_ring: 0,
            used_ring: 0,
        }
    }
}

impl Default for VirtioNetDeviceState {
    fn default() -> (r: Self)
        ensures
            r.iface_id@ == Seq::<char>::empty(),
            r.host_dev_name@ == Seq::<char>::empty(),
            r.guest_mac is None,
            r.num_queues == 0,
            r.queue_size == 0,
            r.acked_features == 0,
            r.queues@ == Seq::<QueueState>::empty(),
    {
        VirtioNetDeviceState {
            iface_id: String::new(),
            host_dev_name: String::new(),
            guest_mac: None,
            num_queues: 0,
            queue_size: 0,
            acked_features: 0,
            queues: Vec::new(),
        }
    }
}

impl Default for VirtioNetState {
    fn default() -> (r: Self)
        ensures
            r@ == Seq::<NetDevice>::empty(),
    {
        let r = VirtioNetState { devices: Vec::new() };
        assert(r@ =~= Seq::<NetDevice>::empty());
        r
    }
}

// ---------------------------------------------------------------------------
// The encoding.
// ---------------------------------------------------------------------------

/// A flag as its wire byte.
pub open spec fn flag_byte(flag: bool) -> u8 {
    if flag {
        1
    } else {
        0
    }
}

/// The record of one queue.
pub open spec fn queue_bytes(q: QueueState) -> Seq<u8> {
    wire::le16(q.index) + wire::le16(q.size) + seq![
        flag_byte(q.ready),
        flag_byte(q.event_idx_enabled),
    ] + wire::le16(q.next_avail) + wire::le16(q.next_used) + wire::le64(q.desc_table) + wire::le64(q.avail_ring) + wire::le64(
        q.used_ring,
    )
}

/// The records of `queues`, one behind the other.
pub open spec fn queues_bytes(queues: Seq<QueueState>) -> Seq<u8>
    decreases queues.len(),
{
    if queues.len() == 0 {
        Seq::empty()
    } else {
        queues_bytes(queues.drop_last()) + queue_bytes(queues.last())
    }
}

/// The presence byte and the six address bytes.
pub open spec fn mac_bytes(mac: Option<Seq<u8>>) -> Seq<u8> {
    match mac {
        Some(mac) => seq![1u8] + mac,
        None => seq![0u8] + wire::zeros(6),
    }
}

/// The interface spec of one device.
pub open spec fn spec_bytes(d: NetDevice) -> Seq<u8> {
    wire::blob(wire::text_bytes(d.iface_id)) + wire::blob(wire::text_bytes(d.host_dev_name))
        + mac_bytes(d.guest_mac) + seq![d.num_queues] + wire::le16(d.queue_size)
}

/// The record of one device: its interface spec, and its live state where `live` holds.
pub open spec fn device_bytes(d: NetDevice, live: bool) -> Seq<u8> {
    if live {
        spec_bytes(d) + wire::le64(d.acked_features) + wire::le32(wire::len32(d.queues.len()))
            + queues_bytes(d.queues)
    } else {
        spec_bytes(d)
    }
}

/// The records of `devices`, one behind the other.
pub open spec fn devices_bytes(devices: Seq<NetDevice>, live: bool) -> Seq<u8>
    decreases devices.len(),
{
    if devices.len() == 0 {
        Seq::empty()
    } else {
        devices_bytes(devices.drop_last(), live) + device_bytes(devices.last(), live)
    }
}

/// The envelope of `devices`, with their live state or without it.
pub open spec fn envelope_of(devices: Seq<NetDevice>, live: bool) -> Seq<u8> {
    wire::le32(wire::len32(devices.len())) + devices_bytes(devices, live)
}

/// The envelope of `devices`.
pub open spec fn envelope(devices: Seq<NetDevice>) -> Seq<u8> {
    envelope_of(devices, true)
}

// ---------------------------------------------------------------------------
// The decoding.
// ---------------------------------------------------------------------------

/// The refusal of a field of `need` bytes at `at` that reaches past the end.
pub open spec fn gap(need: nat, at: int) -> Option<NetFault> {
    Some(NetFault::Truncated { need, offset: at as nat })
}

/// The first field of the queue record at `at` that reaches past `len`.
pub open spec fn queue_gap(len: int, at: int) -> Option<NetFault> {
    if at + 2 > len {
        gap(2, at)
    } else if at + 4 > len {
        gap(2, at + 2)
    } else if at + 5 > len {
        gap(1, at + 4)
    } else if at + 6 > len {
        gap(1, at + 5)
    } else if at + 8 > len {
        gap(2, at + 6)
    } else if at + 10 > len {
        gap(2, at + 8)
    } else if at + 18 > len {
        gap(8, at + 10)
    } else if at + 26 > len {
        gap(8, at + 18)
    } else if at + 34 > len {
        gap(8, at + 26)
    } else {
        None
    }
}

/// The first field between the names and the queues of a device record, from `at` on, that
/// reaches past `len`.
pub open spec fn device_gap(len: int, at: int, live: bool) -> Option<NetFault> {
    if at + 1 > len {
        gap(1, at)
    } else if at + 7 > len {
        gap(6, at + 1)
    } else if at + 8 > len {
        gap(1, at + 7)
    } else if at + 10 > len {
        gap(2, at + 8)
    } else if live && at + 18 > len {
        gap(8, at + 10)
    } else if live && at + 22 > len {
        gap(4, at + 18)
    } else {
        None
    }
}

/// The queue whose record starts at `at`.
pub open spec fn queue_at(b: Seq<u8>, at: int) -> QueueState {
    QueueState {
        index: wire::at16(b, at),
        size: wire::at16(b, at + 2),
        ready: b[at + 4] != 0,
        event_idx_enabled: b[at + 5] != 0,
        next_avail: wire::at16(b, at + 6),
        next_used: wire::at16(b, at + 8),
        desc_table: wire::at64(b, at + 10),
        avail_ring: wire::at64(b, at + 18),
        used_ring: wire::at64(b, at + 26),
    }
}

/// The `n` queues from `at` on, or what the first incomplete record lacks.
pub open spec fn parse_queues(b: Seq<u8>, at: int, n: nat) -> Result<Seq<QueueState>, NetFault> {
    if at + 34 * n <= b.len() {
        Ok(Seq::new(n, |i: int| queue_at(b, at + 34 * i)))
    } else {
        let whole = (b.len() - at) / 34;
        Err(queue_gap(b.len() as int, at + 34 * whole)->0)
    }
}

/// The text behind its length at `at`, and where it ends.
pub open spec fn parse_text(b: Seq<u8>, at: int) -> Result<(Seq<char>, int), NetFault> {
    if at + 4 > b.len() {
        Err(NetFault::Truncated { need: 4, offset: at as nat })
    } else {
        let n = wire::at32(b, at) as nat;
        if at + 4 + n > b.len() {
            Err(NetFault::Truncated { need: n, offset: (at + 4) as nat })
        } else {
            let raw = b.subrange(at + 4, at + 4 + n);
            if wire::is_text(raw) {
                Ok((wire::text_of(raw), at + 4 + n))
            } else {
                Err(NetFault::NonUtf8(raw))
            }
        }
    }
}

/// The device with the given names whose other fields start at `at`. Without live state no
/// features are negotiated, and there are no queues.
pub open spec fn device_at(
    b: Seq<u8>,
    iface_id: Seq<char>,
    host_dev_name: Seq<char>,
    at: int,
    live: bool,
    queues: Seq<QueueState>,
) -> NetDevice {
    NetDevice {
        iface_id,
        host_dev_name,
        guest_mac: if b[at] == 1 {
            Some(b.subrange(at + 1, at + 7))
        } else {
            None
        },
        num_queues: b[at + 7],
        queue_size: wire::at16(b, at + 8),
        acked_features: if live {
            wire::at64(b, at + 10)
        } else {
            0
        },
        queues,
    }
}

/// The device whose record starts at `at`, and where the record ends.
pub open spec fn parse_device(b: Seq<u8>, at: int, live: bool) -> Result<
    (NetDevice, int),
    NetFault,
> {
    match parse_text(b, at) {
        Err(fault) => Err(fault),
        Ok((iface_id, mid)) => match parse_text(b, mid) {
            Err(fault) => Err(fault),
            Ok((host_dev_name, fixed)) => match device_gap(b.len() as int, fixed, live) {
                Some(fault) => Err(fault),
                None => if live {
                    let count = wire::at32(b, fixed + 18) as nat;
                    match parse_queues(b, fixed + 22, count) {
                        Err(fault) => Err(fault),
                        Ok(queues) => Ok(
                            (
                                device_at(b, iface_id, host_dev_name, fixed, live, queues),
                                fixed + 22 + 34 * count,
                            ),
                        ),
                    }
                } else {
                    Ok(
                        (
                            device_at(b, iface_id, host_dev_name, fixed, live, Seq::empty()),
                            fixed + 10,
                        ),
                    )
                },
            },
        },
    }
}

/// The `n` devices from `at` on, and where the last ends.
pub open spec fn parse_devices(b: Seq<u8>, at: int, n: nat, live: bool) -> Result<
    (Seq<NetDevice>, int),
    NetFault,
>
    decreases n,
{
    if n == 0 {
        Ok((Seq::empty(), at))
    } else {
        match parse_devices(b, at, (n - 1) as nat, live) {
            Err(fault) => Err(fault),
            Ok((before, next)) => match parse_device(b, next, live) {
                Err(fault) => Err(fault),
                Ok((device, end)) => Ok((before.push(device), end)),
            },
        }
    }
}

/// The devices of an envelope whose records hold live state, or do not. Bytes behind the last
/// record are ignored.
pub open spec fn parse_envelope_of(b: Seq<u8>, live: bool) -> Result<Seq<NetDevice>, NetFault> {
    if b.len() == 0 {
        Ok(Seq::empty())
    } else if b.len() < 4 {
        Err(NetFault::Truncated { need: 4, offset: 0 })
    } else {
        match parse_devices(b, 4, wire::at32(b, 0) as nat, live) {
            Err(fault) => Err(fault),
            Ok((devices, _)) => Ok(devices),
        }
    }
}

/// The devices of an envelope.
pub open spec fn parse_envelope(b: Seq<u8>) -> Result<Seq<NetDevice>, NetFault> {
    parse_envelope_of(b, true)
}

/// The outcome of a decoding, by what it says.
pub open spec fn decoded(r: Result<VirtioNetState, VirtioNetStateError>) -> Result<
    Seq<NetDevice>,
    NetFault,
> {
    match r {
        Ok(state) => Ok(state@),
        Err(error) => Err(error@),
    }
}

// ---------------------------------------------------------------------------
// Encoding.
// ---------------------------------------------------------------------------

/// Appends a flag as its wire byte.
fn put_flag(out: &mut Vec<u8>, flag: bool)
    ensures
        final(out)@ == old(out)@.push(flag_byte(flag)),
{
    if flag {
        out.push(1);
    } else {
        out.push(0);
    }
}

/// Appends the record of one queue.
fn put_queue(out: &mut Vec<u8>, q: &QueueState)
    ensures
        final(out)@ == old(out)@ + queue_bytes(*q),
{
    wire::put_u16(out, q.index);
    wire::put_u16(out, q.size);
    put_flag(out, q.ready);
    put_flag(out, q.event_idx_enabled);
    wire::put_u16(out, q.next_avail);
    wire::put_u16(out, q.next_used);
    wire::put_u64(out, q.desc_table);
    wire::put_u64(out, q.avail_ring);
    wire::put_u64(out, q.used_ring);
    assert(out@ =~= old(out)@ + queue_bytes(*q));
}

/// Appends a text behind its byte length.
fn put_text(out: &mut Vec<u8>, text: &String)
    ensures
        final(out)@ == old(out)@ + wire::blob(wire::text_bytes(text@)),
{
    let bytes = wire::utf8_bytes(text.as_str());
    wire::put_u32(out, wire::length_field(bytes.len()));
    wire::put_bytes(out, bytes);
    assert(out@ =~= old(out)@ + wire::blob(wire::text_bytes(text@)));
}

/// Appends the presence byte and the six address bytes.
fn put_mac(out: &mut Vec<u8>, mac: &Option<[u8; 6]>)
    ensures
        final(out)@ == old(out)@ + mac_bytes(
            match *mac {
                Some(mac) => Some(mac@),
                None => None,
            },
        ),
{
    match mac {
        Some(mac) => {
            out.push(1);
            wire::put_bytes(out, mac.as_slice());
            assert(out@ =~= old(out)@ + mac_bytes(Some(mac@)));
        },
        None => {
            out.push(0);
            let unset = [0u8; 6];
            wire::put_bytes(out, unset.as_slice());
            assert(unset@ =~= wire::zeros(6));
            assert(out@ =~= old(out)@ + mac_bytes(None));
        },
    }
}

/// Appends the record of one device.
fn put_device(out: &mut Vec<u8>, dev: &VirtioNetDeviceState)
    ensures
        final(out)@ == old(out)@ + device_bytes(dev@, true),
{
    let ghost base = out@;
    let ghost iface = wire::blob(wire::text_bytes(dev.iface_id@));
    let ghost host = wire::blob(wire::text_bytes(dev.host_dev_name@));
    let ghost mac = mac_bytes(dev@.guest_mac);
    let ghost count = wire::le32(wire::len32(dev.queues@.len()));
    put_text(out, &dev.iface_id);
    put_text(out, &dev.host_dev_name);
    put_mac(out, &dev.guest_mac);
    out.push(dev.num_queues);
    proof {
        wire::lemma_append(base, iface, host);
        wire::lemma_append(base, iface + host, mac);
        wire::lemma_append(base, iface + host + mac, seq![dev.num_queues]);
        assert(out@ =~= (base + (iface + host + mac)) + seq![dev.num_queues]);
    }
    let ghost head = iface + host + mac + seq![dev.num_queues];
    wire::put_u16(out, dev.queue_size);
    wire::put_u64(out, dev.acked_features);
    wire::put_u32(out, wire::length_field(dev.queues.len()));
    proof {
        let size = wire::le16(dev.queue_size);
        let features = wire::le64(dev.acked_features);
        wire::lemma_append(base, head, size);
        wire::lemma_append(base, head + size, features);
        wire::lemma_append(base, head + size + features, count);
    }
    let ghost fixed = out@;
    assert(dev.queues@.take(0) =~= Seq::empty());
    for i in 0..dev.queues.len()
        invariant
            out@ =~= fixed + queues_bytes(dev.queues@.take(i as int)),
    {
        put_queue(out, &dev.queues[i]);
        proof {
            let next = dev.queues@.take(i + 1);
            assert(next.drop_last() =~= dev.queues@.take(i as int));
            wire::lemma_append(fixed, queues_bytes(next.drop_last()), queue_bytes(next.last()));
        }
    }
    proof {
        assert(dev.queues@.take(dev.queues@.len() as int) =~= dev.queues@);
        wire::lemma_append(
            base,
            head + wire::le16(dev.queue_size) + wire::le64(dev.acked_features) + count,
            queues_bytes(dev.queues@),
        );
    }
}

/// The envelope of `state`.
pub fn encode(state: &VirtioNetState) -> (r: Vec<u8>)
    ensures
        r@ == envelope(state@),
{
    let mut buf: Vec<u8> = Vec::new();
    wire::put_u32(&mut buf, wire::length_field(state.devices.len()));
    let ghost counted = buf@;
    assert(state@.take(0) =~= Seq::empty());
    for i in 0..state.devices.len()
        invariant
            buf@ =~= counted + devices_bytes(state@.take(i as int), true),
    {
        put_device(&mut buf, &state.devices[i]);
        proof {
            let next = state@.take(i + 1);
            assert(next.drop_last() =~= state@.take(i as int));
            assert(devices_bytes(next, true) == devices_bytes(next.drop_last(), true)
                + device_bytes(next.last(), true));
        }
    }
    assert(state@.take(state.devices@.len() as int) =~= state@);
    assert(counted =~= wire::le32(wire::len32(state@.len())));
    buf
}

// ---------------------------------------------------------------------------
// Decoding.
// ---------------------------------------------------------------------------

/// A read position in an envelope.
struct Cursor<'a> {
    buf: &'a [u8],
    off: usize,
}

impl<'a> Cursor<'a> {
    spec fn valid(self) -> bool {
        self.off <= self.buf@.len() <= usize::MAX
    }

    /// The cursor after a field of `n` bytes.
    spec fn past(self, n: int) -> Cursor<'a> {
        Cursor { buf: self.buf, off: (self.off + n) as usize }
    }

    /// What a field of `n` bytes that does not fit is refused with.
    spec fn short(self, n: int) -> NetFault {
        NetFault::Truncated { need: n as nat, offset: self.off as nat }
    }

    fn need(&self, n: usize) -> (r: Result<(), VirtioNetStateError>)
        requires
            self.valid(),
        ensures
            r is Ok <==> self.off + n <= self.buf@.len(),
            r matches Err(e) ==> e@ == self.short(n as int),
    {
        if n > self.buf.len() - self.off {
            return Err(VirtioNetStateError::Truncated { need: n, offset: self.off });
        }
        Ok(())
    }

    fn read_u8(&mut self) -> (r: Result<u8, VirtioNetStateError>)
        requires
            old(self).valid(),
        ensures
            final(self).valid(),
            r is Ok <==> old(self).off + 1 <= old(self).buf@.len(),
            r matches Ok(v) ==> v == old(self).buf@[old(self).off as int] && *final(self) == old(
                self,
            ).past(1),
            r matches Err(e) ==> e@ == old(self).short(1) && *final(self) == *old(self),
    {
        self.need(1)?;
        let v: u8 = self.buf[self.off];
        self.off = self.off + 1;
        Ok(v)
    }

    fn read_u16(&mut self) -> (r: Result<u16, VirtioNetStateError>)
        requires
            old(self).valid(),
        ensures
            final(self).valid(),
            r is Ok <==> old(self).off + 2 <= old(self).buf@.len(),
            r matches Ok(v) ==> v == wire::at16(old(self).buf@, old(self).off as int)
                && *final(self) == old(self).past(2),
            r matches Err(e) ==> e@ == old(self).short(2) && *final(self) == *old(self),
    {
        self.need(2)?;
        let v: u16 = wire::get_u16(self.buf, self.off);
        self.off = self.off + 2;
        Ok(v)
    }

    fn read_u32(&mut self) -> (r: Result<u32, VirtioNetStateError>)
        requires
            old(self).valid(),
        ensures
            final(self).valid(),
            r is Ok <==> old(self).off + 4 <= old(self).buf@.len(),
            r matches Ok(v) ==> v == wire::at32(old(self).buf@, old(self).off as int)
                && *final(self) == old(self).past(4),
            r matches Err(e) ==> e@ == old(self).short(4) && *final(self) == *old(self),
    {
        self.need(4)?;
        let v: u32 = wire::get_u32(self.buf, self.off);
        self.off = self.off + 4;
        Ok(v)
    }

    fn read_u64(&mut self) -> (r: Result<u64, VirtioNetStateError>)
        requires
            old(self).valid(),
        ensures
            final(self).valid(),
            r is Ok <==> old(self).off + 8 <= old(self).buf@.len(),
            r matches Ok(v) ==> v == wire::at64(old(self).buf@, old(self).off as int)
                && *final(self) == old(self).past(8),
            r matches Err(e) ==> e@ == old(self).short(8) && *final(self) == *old(self),
    {
        self.need(8)?;
        let v: u64 = wire::get_u64(self.buf, self.off);
        self.off = self.off + 8;
        Ok(v)
    }

    fn read_array<const N: usize>(&mut self) -> (r: Result<[u8; N], VirtioNetStateError>)
        requires
            old(self).valid(),
        ensures
            final(self).valid(),
            r is Ok <==> old(self).off + N <= old(self).buf@.len(),
            r matches Ok(v) ==> v@ == old(self).buf@.subrange(
                old(self).off as int,
                old(self).off + N,
            ) && *final(self) == old(self).past(N as int),
            r matches Err(e) ==> e@ == old(self).short(N as int) && *final(self) == *old(self),
    {
        self.need(N)?;
        let mut v: [u8; N] = [0u8; N];
        for i in 0..N
            invariant
                v@.len() == N,
                self.off + N <= self.buf@.len(),
                forall|j: int| 0 <= j < i ==> v@[j] == self.buf@[self.off + j],
        {
            assert(self.off + i < self.buf.len());
            v[i] = self.buf[self.off + i];
        }
        assert(v@ =~= self.buf@.subrange(self.off as int, self.off + N));
        self.off = self.off + N;
        Ok(v)
    }

    fn read_string(&mut self, n: usize) -> (r: Result<String, VirtioNetStateError>)
        requires
            old(self).valid(),
        ensures
            final(self).valid(),
            ({
                let raw = old(self).buf@.subrange(old(self).off as int, old(self).off + n);
                if old(self).off + n > old(self).buf@.len() {
                    r matches Err(e) && e@ == old(self).short(n as int)
                } else if !wire::is_text(raw) {
                    r matches Err(e) && e@ == NetFault::NonUtf8(raw)
                } else {
                    r matches Ok(s) && s@ == wire::text_of(raw) && *final(self) == old(
                        self,
                    ).past(n as int)
                }
            }),
    {
        self.need(n)?;
        let raw: Vec<u8> = wire::get_bytes(self.buf, self.off, n);
        match wire::utf8_text(raw.as_slice()) {
            Ok(text) => {
                self.off = self.off + n;
                Ok(text)
            },
            Err(_) => Err(VirtioNetStateError::NonUtf8(raw)),
        }
    }

    /// A text behind its byte length.
    fn read_text(&mut self) -> (r: Result<String, VirtioNetStateError>)
        requires
            old(self).valid(),
        ensures
            final(self).valid(),
            match parse_text(old(self).buf@, old(self).off as int) {
                Ok((text, end)) => r matches Ok(s) && s@ == text && final(self).buf == old(self).buf
                    && final(self).off == end,
                Err(fault) => r matches Err(e) && e@ == fault,
            },
    {
        let n: u32 = self.read_u32()?;
        self.read_string(n as usize)
    }

    /// One queue record.
    fn read_queue(&mut self) -> (r: Result<QueueState, VirtioNetStateError>)
        requires
            old(self).valid(),
        ensures
            final(self).valid(),
            match queue_gap(old(self).buf@.len() as int, old(self).off as int) {
                None => r matches Ok(q) && q == queue_at(old(self).buf@, old(self).off as int)
                    && *final(self) == old(self).past(34),
                Some(fault) => r matches Err(e) && e@ == fault,
            },
            r is Ok <==> old(self).off + 34 <= old(self).buf@.len(),
    {
        let index: u16 = self.read_u16()?;
        let size: u16 = self.read_u16()?;
        let ready: u8 = self.read_u8()?;
        let event_idx: u8 = self.read_u8()?;
        let next_avail: u16 = self.read_u16()?;
        let next_used: u16 = self.read_u16()?;
        let desc_table: u64 = self.read_u64()?;
        let avail_ring: u64 = self.read_u64()?;
        let used_ring: u64 = self.read_u64()?;
        Ok(
            QueueState {
                index,
                size,
                ready: ready != 0,
                event_idx_enabled: event_idx != 0,
                next_avail,
                next_used,
                desc_table,
                avail_ring,
                used_ring,
            },
        )
    }

    /// `n` queue records.
    fn read_queues(&mut self, n: u32) -> (r: Result<Vec<QueueState>, VirtioNetStateError>)
        requires
            old(self).valid(),
        ensures
            final(self).valid(),
            match parse_queues(old(self).buf@, old(self).off as int, n as nat) {
                Ok(queues) => r matches Ok(v) && v@ == queues && final(self).buf == old(self).buf
                    && final(self).off == old(self).off + 34 * n,
                Err(fault) => r matches Err(e) && e@ == fault,
            },
    {
        let mut queues: Vec<QueueState> = Vec::new();
        let ghost start = self.off as int;
        for i in 0..n
            invariant
                old(self).valid(),
                self.valid(),
                self.buf == old(self).buf,
                start == old(self).off,
                self.off == start + 34 * i,
                queues@ =~= Seq::new(i as nat, |k: int| queue_at(self.buf@, start + 34 * k)),
        {
            proof {
                let b = self.buf@;
                if self.off + 34 > b.len() {
                    assert((b.len() - start) / 34 == i as int) by (nonlinear_arith)
                        requires
                            start + 34 * i <= b.len() < start + 34 * i + 34,
                    ;
                }
            }
            let q: QueueState = self.read_queue()?;
            queues.push(q);
        }
        Ok(queues)
    }

    /// One device record, with live state or without.
    fn read_device(&mut self, live: bool) -> (r: Result<VirtioNetDeviceState, VirtioNetStateError>)
        requires
            old(self).valid(),
        ensures
            final(self).valid(),
            match parse_device(old(self).buf@, old(self).off as int, live) {
                Ok((device, end)) => r matches Ok(d) && d@ == device && final(self).buf == old(
                    self,
                ).buf && final(self).off == end,
                Err(fault) => r matches Err(e) && e@ == fault,
            },
    {
        let iface_id: String = self.read_text()?;
        let host_dev_name: String = self.read_text()?;
        let mac_present: u8 = self.read_u8()?;
        let mac: [u8; 6] = self.read_array::<6>()?;
        let guest_mac: Option<[u8; 6]> = if mac_present == 1 {
            Some(mac)
        } else {
            None
        };
        let num_queues: u8 = self.read_u8()?;
        let queue_size: u16 = self.read_u16()?;
        if !live {
            return Ok(
                VirtioNetDeviceState {
                    iface_id,
                    host_dev_name,
                    guest_mac,
                    num_queues,
                    queue_size,
                    acked_features: 0,
                    queues: Vec::new(),
                },
            );
        }
        let acked_features: u64 = self.read_u64()?;
        let count: u32 = self.read_u32()?;
        let queues: Vec<QueueState> = self.read_queues(count)?;
        Ok(
            VirtioNetDeviceState {
                iface_id,
                host_dev_name,
                guest_mac,
                num_queues,
                queue_size,
                acked_features,
                queues,
            },
        )
    }
}

/// A failed prefix fails the whole.
proof fn lemma_devices_fail(b: Seq<u8>, at: int, some: nat, all: nat, live: bool)
    requires
        some <= all,
        parse_devices(b, at, some, live) is Err,
    ensures
        parse_devices(b, at, all, live) == parse_devices(b, at, some, live),
    decreases all,
{
    if some < all {
        lemma_devices_fail(b, at, some, (all - 1) as nat, live);
    }
}

/// The devices of an envelope whose records hold live state, or do not.
fn decode_records(bytes: &[u8], live: bool) -> (r: Result<VirtioNetState, VirtioNetStateError>)
    ensures
        decoded(r) == parse_envelope_of(bytes@, live),
{
    if bytes.len() == 0 {
        return Ok(VirtioNetState::default());
    }
    let mut cur = Cursor { buf: bytes, off: 0 };
    let count: u32 = cur.read_u32()?;
    let mut devices: Vec<VirtioNetDeviceState> = Vec::new();
    assert(Seq::new(devices@.len(), |k: int| devices@[k]@) =~= Seq::empty());
    for i in 0..count
        invariant
            cur.valid(),
            cur.buf == bytes,
            bytes@.len() >= 4,
            count == wire::at32(bytes@, 0),
            devices@.len() == i,
            parse_devices(bytes@, 4, i as nat, live) == Ok::<(Seq<NetDevice>, int), NetFault>(
                (Seq::new(devices@.len(), |k: int| devices@[k]@), cur.off as int),
            ),
    {
        let ghost before = Seq::new(devices@.len(), |k: int| devices@[k]@);
        proof {
            if parse_device(bytes@, cur.off as int, live) is Err {
                assert(parse_devices(bytes@, 4, (i + 1) as nat, live) is Err);
                lemma_devices_fail(bytes@, 4, (i + 1) as nat, count as nat, live);
            }
        }
        let device: VirtioNetDeviceState = cur.read_device(live)?;
        devices.push(device);
        assert(Seq::new(devices@.len(), |k: int| devices@[k]@) =~= before.push(device@));
    }
    let state = VirtioNetState { devices };
    assert(state@ =~= Seq::new(state.devices@.len(), |k: int| state.devices@[k]@));
    Ok(state)
}

/// The devices of an envelope, or why there are none to be had.
pub fn decode(bytes: &[u8]) -> (r: Result<VirtioNetState, VirtioNetStateError>)
    ensures
        decoded(r) == parse_envelope(bytes@),
        r is Ok <==> parse_envelope(bytes@) is Ok,
        r matches Ok(state) ==> state@ == parse_envelope(bytes@)->Ok_0,
        r matches Err(e) ==> e@ == parse_envelope(bytes@)->Err_0,
        bytes@.len() == 0 ==> (r matches Ok(state) && state.devices@.len() == 0),
{
    let r = decode_records(bytes, true);
    proof {
        if bytes@.len() == 0 {
            let state = r->Ok_0;
            assert(state@.len() == state.devices@.len());
        }
    }
    r
}

/// The devices of an envelope of format version 7, or why there are none to be had.
pub fn decode_specs(bytes: &[u8]) -> (r: Result<VirtioNetState, VirtioNetStateError>)
    ensures
        decoded(r) == parse_envelope_of(bytes@, false),
        r is Ok <==> parse_envelope_of(bytes@, false) is Ok,
        r matches Ok(state) ==> state@ == parse_envelope_of(bytes@, false)->Ok_0,
        r matches Err(e) ==> e@ == parse_envelope_of(bytes@, false)->Err_0,
{
    decode_records(bytes, false)
}

// ---------------------------------------------------------------------------
// Laws.
// ---------------------------------------------------------------------------

/// The counts and lengths of a device that its record can hold.
pub open spec fn device_fits(d: NetDevice) -> bool {
    &&& wire::text_bytes(d.iface_id).len() <= u32::MAX
    &&& wire::text_bytes(d.host_dev_name).len() <= u32::MAX
    &&& d.queues.len() <= u32::MAX
    &&& d.guest_mac matches Some(mac) ==> mac.len() == 6
}

/// The counts and lengths that an envelope can hold.
pub open spec fn envelope_fits(devices: Seq<NetDevice>) -> bool {
    &&& devices.len() <= u32::MAX
    &&& forall|i: int| 0 <= i < devices.len() ==> device_fits(#[trigger] devices[i])
}

/// Whether a device has no live state.
pub open spec fn is_spec(d: NetDevice) -> bool {
    d.acked_features == 0 && d.queues == Seq::<QueueState>::empty()
}

/// Whether records with live state, or without it, hold all that the devices say.
pub open spec fn records_hold(devices: Seq<NetDevice>, live: bool) -> bool {
    live || forall|i: int| 0 <= i < devices.len() ==> is_spec(#[trigger] devices[i])
}

/// A text that was written reads back.
proof fn lemma_text_back(b: Seq<u8>, at: int, text: Seq<char>)
    requires
        wire::stands_at(b, at, wire::blob(wire::text_bytes(text))),
        wire::text_bytes(text).len() <= u32::MAX,
    ensures
        parse_text(b, at) == Ok::<(Seq<char>, int), NetFault>(
            (text, at + 4 + wire::text_bytes(text).len()),
        ),
{
    let raw = wire::text_bytes(text);
    let n = wire::len32(raw.len());
    wire::lemma_split(b, at, wire::le32(n), raw);
    wire::lemma_le32(b, at, n);
    wire::lemma_bytes(b, at + 4, raw);
    wire::lemma_text(text);
}

/// A queue record that was written reads back.
proof fn lemma_queue_back(b: Seq<u8>, at: int, q: QueueState)
    requires
        wire::stands_at(b, at, queue_bytes(q)),
    ensures
        queue_at(b, at) == q,
        queue_bytes(q).len() == 34,
{
    let flags = seq![flag_byte(q.ready), flag_byte(q.event_idx_enabled)];
    let p1 = wire::le16(q.index);
    let p2 = p1 + wire::le16(q.size);
    let p3 = p2 + flags;
    let p4 = p3 + wire::le16(q.next_avail);
    let p5 = p4 + wire::le16(q.next_used);
    let p6 = p5 + wire::le64(q.desc_table);
    let p7 = p6 + wire::le64(q.avail_ring);
    wire::lemma_split(b, at, p7, wire::le64(q.used_ring));
    wire::lemma_split(b, at, p6, wire::le64(q.avail_ring));
    wire::lemma_split(b, at, p5, wire::le64(q.desc_table));
    wire::lemma_split(b, at, p4, wire::le16(q.next_used));
    wire::lemma_split(b, at, p3, wire::le16(q.next_avail));
    wire::lemma_split(b, at, p2, flags);
    wire::lemma_split(b, at, p1, wire::le16(q.size));
    wire::lemma_le16(b, at, q.index);
    wire::lemma_le16(b, at + 2, q.size);
    wire::lemma_bytes(b, at + 4, flags);
    assert(b[at + 4] == flags[0] && b[at + 4 + 1] == flags[1]);
    wire::lemma_le16(b, at + 6, q.next_avail);
    wire::lemma_le16(b, at + 8, q.next_used);
    wire::lemma_le64(b, at + 10, q.desc_table);
    wire::lemma_le64(b, at + 18, q.avail_ring);
    wire::lemma_le64(b, at + 26, q.used_ring);
}

/// Queue records that were written read back.
proof fn lemma_queues_back(b: Seq<u8>, at: int, queues: Seq<QueueState>)
    requires
        wire::stands_at(b, at, queues_bytes(queues)),
    ensures
        queues_bytes(queues).len() == 34 * queues.len(),
        parse_queues(b, at, queues.len()) == Ok::<Seq<QueueState>, NetFault>(queues),
    decreases queues.len(),
{
    if queues.len() > 0 {
        let before = queues.drop_last();
        wire::lemma_split(b, at, queues_bytes(before), queue_bytes(queues.last()));
        lemma_queues_back(b, at, before);
        wire::lemma_bytes(b, at, queues_bytes(queues));
        lemma_queue_back(b, at + 34 * before.len(), queues.last());
        let got = Seq::new(queues.len(), |i: int| queue_at(b, at + 34 * i));
        let had = Seq::new(before.len(), |i: int| queue_at(b, at + 34 * i));
        assert forall|i: int| 0 <= i < queues.len() implies got[i] == queues[i] by {
            if i < before.len() {
                assert(had[i] == before[i]);
            }
        }
        assert(got =~= queues);
    } else {
        wire::lemma_bytes(b, at, queues_bytes(queues));
        assert(Seq::new(0, |i: int| queue_at(b, at + 34 * i)) =~= queues);
    }
}

/// An interface spec that was written stands field by field.
proof fn lemma_spec_back(b: Seq<u8>, at: int, d: NetDevice)
    requires
        wire::stands_at(b, at, spec_bytes(d)),
        device_fits(d),
    ensures
        ({
            let mid = at + 4 + wire::text_bytes(d.iface_id).len();
            let fixed = mid + 4 + wire::text_bytes(d.host_dev_name).len();
            &&& parse_text(b, at) == Ok::<(Seq<char>, int), NetFault>((d.iface_id, mid))
            &&& parse_text(b, mid) == Ok::<(Seq<char>, int), NetFault>((d.host_dev_name, fixed))
            &&& fixed + 10 <= b.len()
            &&& fixed + 10 == at + spec_bytes(d).len()
            &&& device_at(b, d.iface_id, d.host_dev_name, fixed, false, Seq::empty())
                == (NetDevice { acked_features: 0, queues: Seq::empty(), ..d })
        }),
{
    let p1 = wire::blob(wire::text_bytes(d.iface_id));
    let host = wire::blob(wire::text_bytes(d.host_dev_name));
    let p2 = p1 + host;
    let mac = mac_bytes(d.guest_mac);
    let p3 = p2 + mac;
    let p4 = p3 + seq![d.num_queues];
    wire::lemma_split(b, at, p4, wire::le16(d.queue_size));
    wire::lemma_split(b, at, p3, seq![d.num_queues]);
    wire::lemma_split(b, at, p2, mac);
    wire::lemma_split(b, at, p1, host);
    lemma_text_back(b, at, d.iface_id);
    lemma_text_back(b, at + p1.len(), d.host_dev_name);
    let fixed = at + p2.len();
    assert(mac.len() == 7);
    wire::lemma_bytes(b, fixed, mac);
    assert(b[fixed + 0] == mac[0]);
    if d.guest_mac is Some {
        wire::lemma_split(b, fixed, seq![1u8], d.guest_mac->0);
        wire::lemma_bytes(b, fixed + 1, d.guest_mac->0);
    }
    wire::lemma_bytes(b, fixed + 7, seq![d.num_queues]);
    assert(b[fixed + 7 + 0] == seq![d.num_queues][0]);
    wire::lemma_le16(b, fixed + 8, d.queue_size);
}

/// A device record that was written reads back.
proof fn lemma_device_back(b: Seq<u8>, at: int, d: NetDevice, live: bool)
    requires
        wire::stands_at(b, at, device_bytes(d, live)),
        device_fits(d),
        live || is_spec(d),
    ensures
        parse_device(b, at, live) == Ok::<(NetDevice, int), NetFault>(
            (d, at + device_bytes(d, live).len()),
        ),
{
    if live {
        let p5 = spec_bytes(d);
        let p6 = p5 + wire::le64(d.acked_features);
        let count = wire::len32(d.queues.len());
        let p7 = p6 + wire::le32(count);
        wire::lemma_split(b, at, p7, queues_bytes(d.queues));
        wire::lemma_split(b, at, p6, wire::le32(count));
        wire::lemma_split(b, at, p5, wire::le64(d.acked_features));
        lemma_spec_back(b, at, d);
        let fixed = at + p5.len() - 10;
        wire::lemma_le64(b, fixed + 10, d.acked_features);
        wire::lemma_le32(b, fixed + 18, count);
        lemma_queues_back(b, fixed + 22, d.queues);
    } else {
        lemma_spec_back(b, at, d);
    }
}

/// Device records that were written read back.
proof fn lemma_devices_back(b: Seq<u8>, at: int, devices: Seq<NetDevice>, live: bool)
    requires
        wire::stands_at(b, at, devices_bytes(devices, live)),
        forall|i: int| 0 <= i < devices.len() ==> device_fits(#[trigger] devices[i]),
        records_hold(devices, live),
    ensures
        parse_devices(b, at, devices.len(), live) == Ok::<(Seq<NetDevice>, int), NetFault>(
            (devices, at + devices_bytes(devices, live).len()),
        ),
    decreases devices.len(),
{
    if devices.len() > 0 {
        let before = devices.drop_last();
        let had = devices_bytes(before, live);
        wire::lemma_split(b, at, had, device_bytes(devices.last(), live));
        lemma_devices_back(b, at, before, live);
        lemma_device_back(b, at + had.len(), devices.last(), live);
        assert(before.push(devices.last()) =~= devices);
    } else {
        assert(devices =~= Seq::empty());
    }
}

/// Decoding an envelope gives back what was encoded, as long as every count and length fits its
/// 32-bit field and the records hold what the devices say. What follows the last record plays no
/// part in it.
pub proof fn law_records_read_back(devices: Seq<NetDevice>, live: bool, rest: Seq<u8>)
    requires
        envelope_fits(devices),
        records_hold(devices, live),
    ensures
        parse_envelope_of(envelope_of(devices, live) + rest, live) == Ok::<
            Seq<NetDevice>,
            NetFault,
        >(devices),
{
    let b = envelope_of(devices, live) + rest;
    let n = wire::len32(devices.len());
    wire::lemma_whole(b);
    wire::lemma_split(b, 0, envelope_of(devices, live), rest);
    assert(wire::le32(n).len() == 4);
    wire::lemma_split(b, 0, wire::le32(n), devices_bytes(devices, live));
    wire::lemma_le32(b, 0, n);
    assert(wire::stands_at(b, 4, devices_bytes(devices, live)));
    assert(n as nat == devices.len());
    lemma_devices_back(b, 4, devices, live);
}

/// Decoding an envelope gives back what was encoded, as long as every count and length fits its
/// 32-bit field.
pub proof fn law_decode_undoes_encode(devices: Seq<NetDevice>)
    requires
        envelope_fits(devices),
    ensures
        parse_envelope(envelope(devices)) == Ok::<Seq<NetDevice>, NetFault>(devices),
{
    law_records_read_back(devices, true, Seq::empty());
    assert(envelope(devices) + Seq::<u8>::empty() =~= envelope(devices));
}

/// Two states with one envelope are one state.
pub proof fn law_encode_is_injective(x: Seq<NetDevice>, y: Seq<NetDevice>)
    requires
        envelope_fits(x),
        envelope_fits(y),
        envelope(x) == envelope(y),
    ensures
        x == y,
{
    law_decode_undoes_encode(x);
    law_decode_undoes_encode(y);
}

/// A text that a prefix holds reads the same in the whole.
proof fn lemma_text_in_prefix(b: Seq<u8>, c: Seq<u8>, at: int)
    requires
        b.is_prefix_of(c),
        0 <= at,
        parse_text(b, at) is Ok,
    ensures
        parse_text(c, at) == parse_text(b, at),
        parse_text(b, at) matches Ok((_, end)) ==> at <= end <= b.len(),
{
    wire::lemma_prefix(b, c, at);
    wire::lemma_prefix_run(b, c, at + 4, at + 4 + wire::at32(b, at));
}

/// Queues that a prefix holds read the same in the whole.
proof fn lemma_queues_in_prefix(b: Seq<u8>, c: Seq<u8>, at: int, n: nat)
    requires
        b.is_prefix_of(c),
        0 <= at,
        parse_queues(b, at, n) is Ok,
    ensures
        parse_queues(c, at, n) == parse_queues(b, at, n),
{
    let x = Seq::new(n, |i: int| queue_at(b, at + 34 * i));
    let y = Seq::new(n, |i: int| queue_at(c, at + 34 * i));
    assert forall|i: int| 0 <= i < n implies x[i] == y[i] by {
        let k = at + 34 * i;
        assert(k + 34 <= b.len());
        wire::lemma_prefix(b, c, k);
        wire::lemma_prefix(b, c, k + 2);
        wire::lemma_prefix(b, c, k + 6);
        wire::lemma_prefix(b, c, k + 8);
        wire::lemma_prefix(b, c, k + 10);
        wire::lemma_prefix(b, c, k + 18);
        wire::lemma_prefix(b, c, k + 26);
        wire::lemma_prefix_run(b, c, k, k + 34);
    }
    assert(x =~= y);
}

/// A device that a prefix holds reads the same in the whole.
proof fn lemma_device_in_prefix(b: Seq<u8>, c: Seq<u8>, at: int, live: bool)
    requires
        b.is_prefix_of(c),
        0 <= at,
        parse_device(b, at, live) is Ok,
    ensures
        parse_device(c, at, live) == parse_device(b, at, live),
        parse_device(b, at, live) matches Ok((_, end)) ==> at <= end <= b.len(),
{
    lemma_text_in_prefix(b, c, at);
    let mid = (parse_text(b, at)->Ok_0).1;
    lemma_text_in_prefix(b, c, mid);
    let fixed = (parse_text(b, mid)->Ok_0).1;
    wire::lemma_prefix_run(b, c, fixed, fixed + 10);
    wire::lemma_prefix_run(b, c, fixed + 1, fixed + 7);
    wire::lemma_prefix(b, c, fixed + 8);
    if live {
        wire::lemma_prefix(b, c, fixed + 10);
        wire::lemma_prefix(b, c, fixed + 18);
        lemma_queues_in_prefix(b, c, fixed + 22, wire::at32(b, fixed + 18) as nat);
    }
}

/// Devices that a prefix holds read the same in the whole.
proof fn lemma_devices_in_prefix(b: Seq<u8>, c: Seq<u8>, at: int, n: nat, live: bool)
    requires
        b.is_prefix_of(c),
        0 <= at <= b.len(),
        parse_devices(b, at, n, live) is Ok,
    ensures
        parse_devices(c, at, n, live) == parse_devices(b, at, n, live),
        parse_devices(b, at, n, live) matches Ok((_, end)) ==> at <= end <= b.len(),
    decreases n,
{
    if n > 0 {
        lemma_devices_in_prefix(b, c, at, (n - 1) as nat, live);
        let next = (parse_devices(b, at, (n - 1) as nat, live)->Ok_0).1;
        lemma_device_in_prefix(b, c, next, live);
    }
}

/// An envelope that was cut short is refused, wherever it was cut; only the empty one stands for
/// "no devices".
pub proof fn law_cut_envelope_is_refused(devices: Seq<NetDevice>, k: int)
    requires
        envelope_fits(devices),
        0 < k < envelope(devices).len(),
    ensures
        parse_envelope(envelope(devices).take(k)) is Err,
{
    let c = envelope(devices);
    let b = c.take(k);
    let n = wire::len32(devices.len());
    wire::lemma_whole(c);
    wire::lemma_split(c, 0, wire::le32(n), devices_bytes(devices, true));
    wire::lemma_le32(c, 0, n);
    lemma_devices_back(c, 4, devices, true);
    if k >= 4 {
        assert(b.is_prefix_of(c));
        wire::lemma_prefix(b, c, 0);
        if parse_devices(b, 4, devices.len(), true) is Ok {
            lemma_devices_in_prefix(b, c, 4, devices.len(), true);
        }
    }
}

/// Whatever stands behind the last record of an envelope is ignored.
pub proof fn law_bytes_behind_the_devices_are_ignored(b: Seq<u8>, rest: Seq<u8>)
    requires
        b.len() > 0,
        parse_envelope(b) is Ok,
    ensures
        parse_envelope(b + rest) == parse_envelope(b),
{
    let c = b + rest;
    assert(b.is_prefix_of(c)) by {
        assert(c.subrange(0, b.len() as int) =~= b);
    }
    wire::lemma_prefix(b, c, 0);
    lemma_devices_in_prefix(b, c, 4, wire::at32(b, 0) as nat, true);
}

/// A byte run that is no text is refused where a text should stand.
proof fn lemma_broken_text(b: Seq<u8>, at: int, raw: Seq<u8>)
    requires
        wire::stands_at(b, at, wire::blob(raw)),
        raw.len() <= u32::MAX,
        !wire::is_text(raw),
    ensures
        parse_text(b, at) == Err::<(Seq<char>, int), NetFault>(NetFault::NonUtf8(raw)),
{
    let n = wire::len32(raw.len());
    wire::lemma_split(b, at, wire::le32(n), raw);
    wire::lemma_le32(b, at, n);
    wire::lemma_bytes(b, at + 4, raw);
}

/// A device that cannot be read makes the envelope fail, with the fault of that device.
proof fn lemma_bad_device(b: Seq<u8>, count: u32, before: Seq<NetDevice>, record: Seq<u8>)
    requires
        b == wire::le32(count) + devices_bytes(before, true) + record,
        envelope_fits(before),
        before.len() < count,
        parse_device(b, 4int + devices_bytes(before, true).len(), true) is Err,
    ensures
        parse_envelope(b) == Err::<Seq<NetDevice>, NetFault>(
            parse_device(b, 4int + devices_bytes(before, true).len(), true)->Err_0,
        ),
{
    let head = wire::le32(count);
    let had = devices_bytes(before, true);
    wire::lemma_whole(b);
    wire::lemma_split(b, 0, head + had, record);
    wire::lemma_split(b, 0, head, had);
    wire::lemma_le32(b, 0, count);
    assert(head.len() == 4);
    lemma_devices_back(b, 4, before, true);
    assert(parse_devices(b, 4, before.len() + 1, true) is Err);
    lemma_devices_fail(b, 4, before.len() + 1, count as nat, true);
}

/// An envelope that holds, in place of a device's interface id, bytes that are not UTF-8, is
/// refused with these bytes, whatever follows them.
pub proof fn law_broken_iface_id_is_refused(
    count: u32,
    before: Seq<NetDevice>,
    raw: Seq<u8>,
    rest: Seq<u8>,
)
    requires
        envelope_fits(before),
        before.len() < count,
        raw.len() <= u32::MAX,
        !wire::is_text(raw),
    ensures
        parse_envelope(
            wire::le32(count) + devices_bytes(before, true) + (wire::blob(raw) + rest),
        ) == Err::<Seq<NetDevice>, NetFault>(NetFault::NonUtf8(raw)),
{
    let head = wire::le32(count) + devices_bytes(before, true);
    let record = wire::blob(raw) + rest;
    let b = head + record;
    wire::lemma_whole(b);
    wire::lemma_split(b, 0, head, record);
    wire::lemma_split(b, head.len() as int, wire::blob(raw), rest);
    lemma_broken_text(b, head.len() as int, raw);
    lemma_bad_device(b, count, before, record);
}

/// An envelope that holds, in place of a device's host name, bytes that are not UTF-8, is refused
/// with these bytes, whatever follows them.
pub proof fn law_broken_host_dev_name_is_refused(
    count: u32,
    before: Seq<NetDevice>,
    iface_id: Seq<char>,
    raw: Seq<u8>,
    rest: Seq<u8>,
)
    requires
        envelope_fits(before),
        before.len() < count,
        wire::text_bytes(iface_id).len() <= u32::MAX,
        raw.len() <= u32::MAX,
        !wire::is_text(raw),
    ensures
        parse_envelope(
            wire::le32(count) + devices_bytes(before, true) + (wire::blob(
                wire::text_bytes(iface_id),
            ) + wire::blob(raw) + rest),
        ) == Err::<Seq<NetDevice>, NetFault>(NetFault::NonUtf8(raw)),
{
    let head = wire::le32(count) + devices_bytes(before, true);
    let name = wire::blob(wire::text_bytes(iface_id));
    let record = name + wire::blob(raw) + rest;
    let b = head + record;
    let at = head.len() as int;
    wire::lemma_whole(b);
    wire::lemma_split(b, 0, head, record);
    wire::lemma_split(b, at, name + wire::blob(raw), rest);
    wire::lemma_split(b, at, name, wire::blob(raw));
    lemma_text_back(b, at, iface_id);
    lemma_broken_text(b, at + name.len(), raw);
    lemma_bad_device(b, count, before, record);
}

} // verus!
