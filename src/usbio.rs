//! USB device discovery: choosing the device and its bulk endpoints from
//! the descriptors that the host's USB stack reports.

use vstd::prelude::*;
use vstd::slice::slice_subrange;
use crate::fastboot::{IoError, Transport, io_message};

verus! {

/// The direction of an endpoint, seen from the host.
#[derive(Debug, Clone, Copy, PartialEq, Eq)]
pub enum Direction {
    In,
    Out,
}

/// How an endpoint moves data.
#[derive(Debug, Clone, Copy, PartialEq, Eq)]
pub enum TransferType {
    Control,
    Isochronous,
    Bulk,
    Interrupt,
}

/// One endpoint of an interface setting of a device's active configuration.
#[derive(Debug, Clone, Copy, PartialEq, Eq)]
pub struct EndpointDescriptor {
    pub interface_number: u8,
    pub address: u8,
    pub direction: Direction,
    pub transfer_type: TransferType,
    pub max_packet_size: u16,
}

/// A device as the USB stack lists it: its ids, and the endpoints of its
/// active configuration, interface by interface and setting by setting.
#[derive(Debug, Clone, PartialEq, Eq)]
pub struct DeviceDescriptor {
    pub vendor_id: u16,
    pub product_id: u16,
    pub endpoints: Vec<EndpointDescriptor>,
}

/// An endpoint that the protocol talks through.
#[derive(Debug, Clone, Copy, PartialEq, Eq)]
pub struct Endpoint {
    pub iface: u8,
    pub address: u8,
    pub max_packet_size: u16,
}

/// Told how many bytes have been sent since it was installed, after each
/// write that moved data.
pub trait TxObserver {
    fn tx_done(&mut self, total: u64);
}

/// The time, in milliseconds, that one transfer may block.
pub const DEFAULT_TIMEOUT_MS: u64 = 1000;

pub open spec fn is_bulk(e: EndpointDescriptor, dir: Direction) -> bool {
    e.direction == dir && e.transfer_type == TransferType::Bulk
}

pub open spec fn endpoint_of(e: EndpointDescriptor) -> Endpoint {
    Endpoint { iface: e.interface_number, address: e.address, max_packet_size: e.max_packet_size }
}

/// The last bulk endpoint of direction `dir` among `eps`.
pub open spec fn last_bulk(eps: Seq<EndpointDescriptor>, dir: Direction) -> Option<Endpoint>
    decreases eps.len(),
{
    if eps.len() == 0 {
        None
    } else if is_bulk(eps.last(), dir) {
        Some(endpoint_of(eps.last()))
    } else {
        last_bulk(eps.drop_last(), dir)
    }
}

pub open spec fn has_ids(d: DeviceDescriptor, vid: u16, pid: u16) -> bool {
    d.vendor_id == vid && d.product_id == pid
}

/// The last bulk endpoint of direction `dir` over the devices with the
/// given ids, taken in order.
pub open spec fn last_bulk_of(devs: Seq<DeviceDescriptor>, vid: u16, pid: u16, dir: Direction) -> Option<Endpoint>
    decreases devs.len(),
{
    if devs.len() == 0 {
        None
    } else if has_ids(devs.last(), vid, pid) && last_bulk(devs.last().endpoints@, dir) is Some {
        last_bulk(devs.last().endpoints@, dir)
    } else {
        last_bulk_of(devs.drop_last(), vid, pid, dir)
    }
}

/// The position of the last device with the given ids.
pub open spec fn last_match(devs: Seq<DeviceDescriptor>, vid: u16, pid: u16) -> Option<nat>
    decreases devs.len(),
{
    if devs.len() == 0 {
        None
    } else if has_ids(devs.last(), vid, pid) {
        Some((devs.len() - 1) as nat)
    } else {
        last_match(devs.drop_last(), vid, pid)
    }
}

/// The message of the error for a device that is absent or lacks an endpoint.
pub open spec fn not_found_text() -> Seq<char> {
    "entity not found"@
}

fn is_bulk_exec(e: &EndpointDescriptor, dir: Direction) -> (r: bool)
    ensures
        r == is_bulk(*e, dir),
{
    let same_dir = match (e.direction, dir) {
        (Direction::In, Direction::In) => true,
        (Direction::Out, Direction::Out) => true,
        _ => false,
    };
    let bulk = match e.transfer_type {
        TransferType::Bulk => true,
        _ => false,
    };
    same_dir && bulk
}

/// The devices that a USB stack reported, to choose from.
pub struct UsbContext {
    devices: Vec<DeviceDescriptor>,
}

/// A device chosen for the protocol, with its bulk endpoints.
pub struct UsbDevice {
    device: usize,
    e_in: Endpoint,
    e_out: Endpoint,
    timeout_ms: u64,
    tx_done_cb: Option<Box<dyn TxObserver>>,
    tx_total: u64,
}

impl UsbContext {
    /// A context over the devices the USB stack lists, in its order.
    pub fn new(devices: Vec<DeviceDescriptor>) -> (r: UsbContext)
        ensures
            r.devices() == devices@,
    {
        UsbContext { devices }
    }

    pub closed spec fn devices(&self) -> Seq<DeviceDescriptor> {
        self.devices@
    }

    /// Chooses the last listed device with the given ids, and the last bulk
    /// endpoint of each direction among the devices with those ids.
    pub fn open(&self, vid: u16, pid: u16) -> (r: Result<UsbDevice, IoError>)
        ensures
            match r {
                Ok(dev) => {
                    &&& last_match(self.devices(), vid, pid) == Some(dev.spec_device() as nat)
                    &&& last_bulk_of(self.devices(), vid, pid, Direction::In) == Some(dev.spec_e_in())
                    &&& last_bulk_of(self.devices(), vid, pid, Direction::Out) == Some(dev.spec_e_out())
                    &&& dev.spec_timeout_ms() == DEFAULT_TIMEOUT_MS
                    &&& !dev.has_tx_done_cb()
                    &&& dev.tx_total() == 0
                },
                Err(e) => {
                    &&& (last_match(self.devices(), vid, pid) is None
                        || last_bulk_of(self.devices(), vid, pid, Direction::In) is None
                        || last_bulk_of(self.devices(), vid, pid, Direction::Out) is None)
                    &&& e is Other && io_message(e) == not_found_text()
                },
            },
    {
        let ghost devs = self.devices@;
        let mut found: Option<usize> = None;
        let mut e_in: Option<Endpoint> = None;
        let mut e_out: Option<Endpoint> = None;
        let mut i: usize = 0;
        while i < self.devices.len()
            invariant
                devs == self.devices@,
                0 <= i <= devs.len(),
                match found {
                    Some(k) => last_match(devs.take(i as int), vid, pid) == Some(k as nat),
                    None => last_match(devs.take(i as int), vid, pid) is None,
                },
                e_in == last_bulk_of(devs.take(i as int), vid, pid, Direction::In),
                e_out == last_bulk_of(devs.take(i as int), vid, pid, Direction::Out),
            decreases devs.len() - i,
        {
            let d = &self.devices[i];
            proof {
                assert(devs.take(i + 1).drop_last() =~= devs.take(i as int));
                assert(devs.take(i + 1).last() == devs[i as int]);
            }
            if d.vendor_id == vid && d.product_id == pid {
                found = Some(i);
                let ghost before_in = e_in;
                let ghost before_out = e_out;
                let ghost eps = d.endpoints@;
                let mut j: usize = 0;
                while j < d.endpoints.len()
                    invariant
                        eps == d.endpoints@,
                        0 <= j <= eps.len(),
                        e_in == (match last_bulk(eps.take(j as int), Direction::In) {
                            Some(e) => Some(e),
                            None => before_in,
                        }),
                        e_out == (match last_bulk(eps.take(j as int), Direction::Out) {
                            Some(e) => Some(e),
                            None => before_out,
                        }),
                    decreases eps.len() - j,
                {
                    let ep = &d.endpoints[j];
                    proof {
                        assert(eps.take(j + 1).drop_last() =~= eps.take(j as int));
                        assert(eps.take(j + 1).last() == eps[j as int]);
                    }
                    let found_ep = Endpoint {
                        iface: ep.interface_number,
                        address: ep.address,
                        max_packet_size: ep.max_packet_size,
                    };
                    if is_bulk_exec(ep, Direction::In) {
                        e_in = Some(found_ep);
                    }
                    if is_bulk_exec(ep, Direction::Out) {
                        e_out = Some(found_ep);
                    }
                    j = j + 1;
                }
                proof {
                    assert(eps.take(eps.len() as int) =~= eps);
                }
            }
            i = i + 1;
        }
        proof {
            assert(devs.take(devs.len() as int) =~= devs);
        }
        match (found, e_in, e_out) {
            (Some(device), Some(e_in), Some(e_out)) => Ok(
                UsbDevice {
                    device,
                    e_in,
                    e_out,
                    timeout_ms: DEFAULT_TIMEOUT_MS,
                    tx_done_cb: None,
                    tx_total: 0,
                },
            ),
            _ => Err(IoError::Other("entity not found".to_owned())),
        }
    }
}

impl UsbDevice {
    pub closed spec fn spec_device(&self) -> usize {
        self.device
    }

    pub closed spec fn spec_e_in(&self) -> Endpoint {
        self.e_in
    }

    pub closed spec fn spec_e_out(&self) -> Endpoint {
        self.e_out
    }

    pub closed spec fn spec_timeout_ms(&self) -> u64 {
        self.timeout_ms
    }

    /// Position of the device in its context's list.
    pub fn device(&self) -> (r: usize)
        ensures
            r == self.spec_device(),
    {
        self.device
    }

    /// The bulk endpoint that replies are read from.
    pub fn in_endpoint(&self) -> (r: Endpoint)
        ensures
            r == self.spec_e_in(),
    {
        self.e_in
    }

    /// The bulk endpoint that commands and payloads are written to.
    pub fn out_endpoint(&self) -> (r: Endpoint)
        ensures
            r == self.spec_e_out(),
    {
        self.e_out
    }

    /// The time, in milliseconds, that one transfer may block.
    pub fn timeout_ms(&self) -> (r: u64)
        ensures
            r == self.spec_timeout_ms(),
    {
        self.timeout_ms
    }

    pub closed spec fn has_tx_done_cb(&self) -> bool {
        self.tx_done_cb is Some
    }

    /// The observer of sent bytes, if one is installed.
    pub closed spec fn observer(&self) -> Option<Box<dyn TxObserver>> {
        self.tx_done_cb
    }

    /// Sets the time, in milliseconds, that one transfer may block.
    pub fn set_timeout_ms(&mut self, timeout_ms: u64)
        ensures
            final(self).spec_timeout_ms() == timeout_ms,
            final(self).observer() == old(self).observer(),
            final(self).tx_total() == old(self).tx_total(),
            final(self).spec_device() == old(self).spec_device(),
            final(self).spec_e_in() == old(self).spec_e_in(),
            final(self).spec_e_out() == old(self).spec_e_out(),
    {
        self.timeout_ms = timeout_ms;
    }

    /// Bytes reported as sent since the observer was installed.
    pub closed spec fn tx_total(&self) -> u64 {
        self.tx_total
    }

    /// Installs an observer of sent bytes, or removes it; the count starts
    /// again from zero.
    pub fn set_tx_done_cb(&mut self, cb: Option<Box<dyn TxObserver>>)
        ensures
            final(self).observer() == cb,
            final(self).has_tx_done_cb() == cb is Some,
            final(self).tx_total() == 0,
            final(self).spec_device() == old(self).spec_device(),
            final(self).spec_e_in() == old(self).spec_e_in(),
            final(self).spec_e_out() == old(self).spec_e_out(),
            final(self).spec_timeout_ms() == old(self).spec_timeout_ms(),
    {
        self.tx_done_cb = cb;
        self.tx_total = 0;
    }

    /// How many bytes one read asks the device for: at most one packet of
    /// the in endpoint, and no more than the buffer holds.
    pub fn read_len(&self, buf_len: usize) -> (r: usize)
        ensures
            r == if buf_len < self.spec_e_in().max_packet_size as usize { buf_len } else { self.spec_e_in().max_packet_size as usize },
    {
        let mps = self.e_in.max_packet_size as usize;
        if buf_len < mps { buf_len } else { mps }
    }

    /// How many bytes one write hands the device: at most one packet of the
    /// out endpoint, and no more than there is to send.
    pub fn write_len(&self, buf_len: usize) -> (r: usize)
        ensures
            r == if buf_len < self.spec_e_out().max_packet_size as usize { buf_len } else { self.spec_e_out().max_packet_size as usize },
    {
        let mps = self.e_out.max_packet_size as usize;
        if buf_len < mps { buf_len } else { mps }
    }

    /// Records a write that moved `transferred` bytes and tells the
    /// observer, if there is one, the new total. The total saturates.
    pub fn tx_done(&mut self, transferred: u64)
        ensures
            final(self).tx_total() == sat_add(old(self).tx_total(), transferred as nat),
            final(self).has_tx_done_cb() == old(self).has_tx_done_cb(),
            final(self).spec_device() == old(self).spec_device(),
            final(self).spec_e_in() == old(self).spec_e_in(),
            final(self).spec_e_out() == old(self).spec_e_out(),
            final(self).spec_timeout_ms() == old(self).spec_timeout_ms(),
    {
        self.tx_total = self.tx_total.saturating_add(transferred);
        let total = self.tx_total;
        match &mut self.tx_done_cb {
            Some(cb) => cb.tx_done(total),
            None => {},
        }
    }
}

/// Bulk transfers on an opened device, as the host's USB stack does them.
pub trait BulkPipe {
    /// Reads at most `len` bytes from the endpoint at `address`.
    fn read_bulk(&mut self, address: u8, len: usize, timeout_ms: u64) -> Result<Vec<u8>, IoError>;

    /// Writes `data` to the endpoint at `address`, and says how many bytes
    /// went out.
    fn write_bulk(&mut self, address: u8, data: &[u8], timeout_ms: u64) -> Result<usize, IoError>;
}

/// One call into a bulk pipe, with what it was handed and what it answered.
pub enum PipeCall {
    /// A write: endpoint address, bytes, timeout, and the count or error.
    Write(u8, Seq<u8>, u64, Result<usize, IoError>),
    /// A read: endpoint address, length asked for, timeout, and the bytes or error.
    Read(u8, usize, u64, Result<Seq<u8>, IoError>),
}

pub open spec fn min_nat(a: nat, b: nat) -> nat {
    if a < b { a } else { b }
}

/// `a + b`, or the largest `u64` where that does not fit.
pub open spec fn sat_add(a: u64, b: nat) -> u64 {
    if a + b > u64::MAX { u64::MAX } else { (a + b) as u64 }
}

/// The bytes that one write hands over when `done` bytes of `data` are sent:
/// the next packet, or what is left if that is less.
pub open spec fn chunk_at(data: Seq<u8>, done: nat, mps: nat) -> Seq<u8> {
    data.subrange(done as int, (done + min_nat(mps, (data.len() - done) as nat)) as int)
}

/// Whether `c` writes the chunk of `data` at `done` to endpoint `ep` with timeout `t`.
pub open spec fn writes_chunk(c: PipeCall, data: Seq<u8>, done: nat, ep: Endpoint, t: u64) -> bool {
    &&& c is Write
    &&& c->Write_0 == ep.address
    &&& c->Write_1 == chunk_at(data, done, ep.max_packet_size as nat)
    &&& c->Write_2 == t
}

/// Whether a write asked to move `asked` bytes moved some, and no more.
pub open spec fn accepted(res: Result<usize, IoError>, asked: nat) -> bool {
    res is Ok && 0 < res->Ok_0 <= asked
}

/// How far the writes `w` got through `data`, chunk after chunk, each one
/// accepted; `None` where `w` is not such a run.
pub open spec fn write_progress(w: Seq<PipeCall>, data: Seq<u8>, ep: Endpoint, t: u64) -> Option<nat>
    decreases w.len(),
{
    if w.len() == 0 {
        Some(0)
    } else {
        match write_progress(w.drop_last(), data, ep, t) {
            Some(d) => if d < data.len() && writes_chunk(w.last(), data, d, ep, t) && accepted(
                w.last()->Write_3,
                chunk_at(data, d, ep.max_packet_size as nat).len(),
            ) {
                Some((d + w.last()->Write_3->Ok_0) as nat)
            } else {
                None
            },
            None => None,
        }
    }
}

/// Text of the error for a write that moved nothing, or more than it was given.
pub open spec fn short_write_text() -> Seq<char> {
    "failed to write whole buffer"@
}

/// Whether `e` is the error a write ends with when the pipe answered `res`
/// to a request to move `asked` bytes: the pipe's own error, or the
/// short-write error.
pub open spec fn write_failure(res: Result<usize, IoError>, asked: nat, e: IoError) -> bool {
    match res {
        Err(pe) => e == pe,
        Ok(n) => (n == 0 || n > asked) && e is Other && io_message(e) == short_write_text(),
    }
}

/// A read result as plain values.
pub open spec fn read_view(r: Result<Vec<u8>, IoError>) -> Result<Seq<u8>, IoError> {
    match r {
        Ok(b) => Ok(b@),
        Err(e) => Err(e),
    }
}

/// Checks the count a bulk write reported against the `asked` bytes it was handed.
pub fn check_written(n: usize, asked: usize) -> (r: Result<usize, IoError>)
    ensures
        r is Ok <==> 0 < n <= asked,
        r is Ok ==> r->Ok_0 == n,
        r is Err ==> write_failure(Ok(n), asked as nat, r->Err_0),
{
    if n == 0 || n > asked {
        Err(IoError::Other("failed to write whole buffer".to_owned()))
    } else {
        Ok(n)
    }
}

/// A transport over the bulk endpoints of an opened device.
pub struct UsbPort<P: BulkPipe> {
    pipe: P,
    device: UsbDevice,
    calls: Ghost<Seq<PipeCall>>,
}

impl<P: BulkPipe> UsbPort<P> {
    /// A transport over `pipe` to `device`, each transfer bounded by `timeout_ms`.
    pub fn new(pipe: P, device: UsbDevice, timeout_ms: u64) -> (r: UsbPort<P>)
        ensures
            r.spec_device() == device.spec_device(),
            r.spec_e_in() == device.spec_e_in(),
            r.spec_e_out() == device.spec_e_out(),
            r.spec_timeout_ms() == timeout_ms,
            r.has_tx_done_cb() == device.has_tx_done_cb(),
            r.tx_total() == device.tx_total(),
            r.pipe_calls() == Seq::<PipeCall>::empty(),
    {
        let mut device = device;
        device.set_timeout_ms(timeout_ms);
        UsbPort { pipe, device, calls: Ghost(Seq::empty()) }
    }

    pub closed spec fn spec_device(&self) -> usize {
        self.device.spec_device()
    }

    pub closed spec fn spec_e_in(&self) -> Endpoint {
        self.device.spec_e_in()
    }

    pub closed spec fn spec_e_out(&self) -> Endpoint {
        self.device.spec_e_out()
    }

    pub closed spec fn spec_timeout_ms(&self) -> u64 {
        self.device.spec_timeout_ms()
    }

    pub closed spec fn has_tx_done_cb(&self) -> bool {
        self.device.has_tx_done_cb()
    }

    pub closed spec fn observer(&self) -> Option<Box<dyn TxObserver>> {
        self.device.observer()
    }

    /// Bytes reported as sent since the observer was installed.
    pub closed spec fn tx_total(&self) -> u64 {
        self.device.tx_total()
    }

    /// The calls made into the pipe so far, oldest first.
    pub closed spec fn pipe_calls(&self) -> Seq<PipeCall> {
        self.calls@
    }

    /// Installs an observer of the bytes written, or removes it.
    pub fn set_tx_done_cb(&mut self, cb: Option<Box<dyn TxObserver>>)
        ensures
            final(self).observer() == cb,
            final(self).has_tx_done_cb() == cb is Some,
            final(self).tx_total() == 0,
            final(self).spec_device() == old(self).spec_device(),
            final(self).spec_e_in() == old(self).spec_e_in(),
            final(self).spec_e_out() == old(self).spec_e_out(),
            final(self).spec_timeout_ms() == old(self).spec_timeout_ms(),
            final(self).pipe_calls() == old(self).pipe_calls(),
    {
        self.device.set_tx_done_cb(cb);
    }

    /// Writes `data` one packet at a time, telling the observer after each
    /// accepted write. It stops at the first write that fails, or that moves
    /// nothing or more than it was given.
    pub fn send(&mut self, data: &[u8]) -> (r: Result<(), IoError>)
        ensures
            final(self).pipe_calls().len() >= old(self).pipe_calls().len(),
            final(self).pipe_calls().take(old(self).pipe_calls().len() as int) == old(self).pipe_calls(),
            final(self).spec_device() == old(self).spec_device(),
            final(self).spec_e_in() == old(self).spec_e_in(),
            final(self).spec_e_out() == old(self).spec_e_out(),
            final(self).spec_timeout_ms() == old(self).spec_timeout_ms(),
            final(self).has_tx_done_cb() == old(self).has_tx_done_cb(),
            data@.len() == 0 ==> r is Ok && final(self).pipe_calls() == old(self).pipe_calls(),
            ({
                let w = final(self).pipe_calls().skip(old(self).pipe_calls().len() as int);
                let ep = old(self).spec_e_out();
                let t = old(self).spec_timeout_ms();
                match r {
                    Ok(_) => {
                        &&& write_progress(w, data@, ep, t) == Some(data@.len())
                        &&& final(self).tx_total() == sat_add(old(self).tx_total(), data@.len())
                    },
                    Err(e) => {
                        &&& w.len() > 0
                        &&& write_progress(w.drop_last(), data@, ep, t) is Some
                        &&& {
                            let d = write_progress(w.drop_last(), data@, ep, t)->Some_0;
                            &&& d < data@.len()
                            &&& writes_chunk(w.last(), data@, d, ep, t)
                            &&& write_failure(
                                w.last()->Write_3,
                                chunk_at(data@, d, ep.max_packet_size as nat).len(),
                                e,
                            )
                            &&& final(self).tx_total() == sat_add(old(self).tx_total(), d)
                        }
                    },
                }
            }),
    {
        let ghost c0 = self.calls@;
        let ghost total0 = self.device.tx_total();
        let mut done: usize = 0;
        proof {
            assert(self.calls@.skip(c0.len() as int) =~= Seq::<PipeCall>::empty());
            assert(self.calls@.take(c0.len() as int) =~= c0);
        }
        while done < data.len()
            invariant
                done <= data@.len(),
                self.calls@.len() >= c0.len(),
                self.calls@.take(c0.len() as int) == c0,
                c0 == old(self).pipe_calls(),
                total0 == old(self).tx_total(),
                self.device.spec_device() == old(self).spec_device(),
                self.device.spec_e_in() == old(self).spec_e_in(),
                self.device.spec_e_out() == old(self).spec_e_out(),
                self.device.spec_timeout_ms() == old(self).spec_timeout_ms(),
                self.device.has_tx_done_cb() == old(self).has_tx_done_cb(),
                write_progress(
                    self.calls@.skip(c0.len() as int),
                    data@,
                    old(self).spec_e_out(),
                    old(self).spec_timeout_ms(),
                ) == Some(done as nat),
                self.device.tx_total() == sat_add(total0, done as nat),
            decreases data@.len() - done,
        {
            let ghost w = self.calls@.skip(c0.len() as int);
            let len = self.device.write_len(data.len() - done);
            let chunk = slice_subrange(data, done, done + len);
            let address = self.device.out_endpoint().address;
            let timeout = self.device.timeout_ms();
            let res = self.pipe.write_bulk(address, chunk, timeout);
            let ghost call = PipeCall::Write(address, chunk@, timeout, res);
            self.calls = Ghost(self.calls@.push(call));
            proof {
                assert(self.calls@.skip(c0.len() as int) =~= w.push(call));
                assert(w.push(call).drop_last() =~= w);
                assert(self.calls@.take(c0.len() as int) =~= c0);
                assert(chunk@ =~= chunk_at(data@, done as nat, old(self).spec_e_out().max_packet_size as nat));
            }
            let n = match res {
                Ok(n) => n,
                Err(e) => return Err(e),
            };
            let n = match check_written(n, len) {
                Ok(n) => n,
                Err(e) => return Err(e),
            };
            self.device.tx_done(n as u64);
            done = done + n;
        }
        Ok(())
    }

    /// Reads at most one packet, and at most `max_len` bytes; asks the pipe
    /// nothing when `max_len` is zero.
    pub fn receive(&mut self, max_len: usize) -> (r: Result<Vec<u8>, IoError>)
        ensures
            final(self).spec_device() == old(self).spec_device(),
            final(self).spec_e_in() == old(self).spec_e_in(),
            final(self).spec_e_out() == old(self).spec_e_out(),
            final(self).spec_timeout_ms() == old(self).spec_timeout_ms(),
            final(self).has_tx_done_cb() == old(self).has_tx_done_cb(),
            final(self).tx_total() == old(self).tx_total(),
            max_len == 0 ==> r is Ok && r->Ok_0@.len() == 0 && final(self).pipe_calls() == old(self).pipe_calls(),
            max_len > 0 ==> final(self).pipe_calls() == old(self).pipe_calls().push(
                PipeCall::Read(
                    old(self).spec_e_in().address,
                    min_nat(old(self).spec_e_in().max_packet_size as nat, max_len as nat) as usize,
                    old(self).spec_timeout_ms(),
                    read_view(r),
                ),
            ),
    {
        if max_len == 0 {
            return Ok(Vec::new());
        }
        let len = self.device.read_len(max_len);
        let address = self.device.in_endpoint().address;
        let timeout = self.device.timeout_ms();
        let r = self.pipe.read_bulk(address, len, timeout);
        self.calls = Ghost(self.calls@.push(PipeCall::Read(address, len, timeout, read_view(r))));
        r
    }
}

impl<P: BulkPipe> Transport for UsbPort<P> {
    fn write_all(&mut self, data: &[u8]) -> Result<(), IoError> {
        self.send(data)
    }

    fn read(&mut self, max_len: usize) -> Result<Vec<u8>, IoError> {
        self.receive(max_len)
    }
}

} // verus!
