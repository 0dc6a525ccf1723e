//! The request/reply exchange over a byte transport, and the command set.

use vstd::prelude::*;
use vstd::slice::{slice_subrange, slice_to_vec};
use vstd::string::StringSliceAdditionalSpecFns;
use crate::reply::{Reply, ReplyView, reply_of, hex_lower, push_hex};

verus! {

/// The largest reply that one read takes in.
pub const MAX_REPLY_LEN: usize = 64;

/// Result of a protocol operation: a value or a textual cause.
pub type FbResult<T> = Result<T, String>;

/// A failure reported by the transport.
#[derive(Debug, Clone, PartialEq, Eq)]
pub enum IoError {
    /// No data arrived in time; the device may still answer.
    TimedOut,
    /// Any other failure, with its description.
    Other(String),
}

/// The text a transport failure is reported with.
pub open spec fn io_message(e: IoError) -> Seq<char> {
    match e {
        IoError::TimedOut => "timed out"@,
        IoError::Other(m) => m@,
    }
}

impl IoError {
    /// The text this failure is reported with.
    pub fn message(&self) -> (r: String)
        ensures
            r@ == io_message(*self),
    {
        match self {
            IoError::TimedOut => "timed out".to_owned(),
            IoError::Other(m) => m.clone(),
        }
    }
}

/// One step of traffic over a transport.
pub enum Event {
    /// A buffer was written whole.
    Sent(Seq<u8>),
    /// Writing a buffer failed.
    SendFailed(Seq<u8>, IoError),
    /// A read returned these bytes.
    Received(Seq<u8>),
    /// A read failed.
    ReadFailed(IoError),
}

/// Whether `h` starts with `before`: the traffic of `before` followed by more.
pub open spec fn extends(before: Seq<Event>, h: Seq<Event>) -> bool {
    before.len() <= h.len() && h.take(before.len() as int) == before
}

/// The traffic in `h` after `before`.
pub open spec fn added(before: Seq<Event>, h: Seq<Event>) -> Seq<Event> {
    h.skip(before.len() as int)
}

/// Whether every event of `ev` is a read that timed out.
pub open spec fn only_timeouts(ev: Seq<Event>) -> bool {
    forall|i: int| 0 <= i < ev.len() ==> #[trigger] ev[i] == Event::ReadFailed(IoError::TimedOut)
}

/// The reads between the write that opens an exchange and the read that ends it.
pub open spec fn retried(ev: Seq<Event>) -> Seq<Event> {
    ev.subrange(1, ev.len() - 1)
}

/// Whether `ev` is one exchange that got a reply: `payload` written whole,
/// reads that timed out, then one read of at most `MAX_REPLY_LEN` bytes.
pub open spec fn exchange_replied(ev: Seq<Event>, payload: Seq<u8>) -> bool {
    &&& ev.len() >= 2
    &&& ev[0] == Event::Sent(payload)
    &&& only_timeouts(retried(ev))
    &&& ev.last() is Received
    &&& ev.last()->Received_0.len() <= MAX_REPLY_LEN
}

/// The bytes of the read that ended an exchange.
pub open spec fn reply_bytes(ev: Seq<Event>) -> Seq<u8> {
    ev.last()->Received_0
}

/// The number of reads the exchange loop makes before it gives up on a
/// silent device; it only bounds the loop's counter.
pub const MAX_READ_ATTEMPTS: u64 = 0xffff_ffff_ffff_ffff;

/// Whether `ev` is one exchange that failed: writing `payload` failed; or it
/// was written whole, reads timed out, and a read then failed otherwise (or
/// the read counter ran out).
pub open spec fn exchange_failed(ev: Seq<Event>, payload: Seq<u8>) -> bool {
    ||| (ev.len() == 1 && ev[0] is SendFailed && ev[0]->SendFailed_0 == payload)
    ||| {
        &&& ev.len() >= 2
        &&& ev[0] == Event::Sent(payload)
        &&& only_timeouts(retried(ev))
        &&& ev.last() is ReadFailed
        &&& (ev.last()->ReadFailed_0 != IoError::TimedOut || ev.len() - 1 == MAX_READ_ATTEMPTS)
    }
}

/// The failure that ended an exchange.
pub open spec fn failure_of(ev: Seq<Event>) -> IoError {
    match ev.last() {
        Event::SendFailed(_, e) => e,
        Event::ReadFailed(e) => e,
        _ => IoError::TimedOut,
    }
}

/// Text of the error for a reply of an unexpected kind.
pub open spec fn unknown_failure_text() -> Seq<char> {
    "unknown failure"@
}

/// A value-or-message result as plain values.
pub open spec fn text_view(r: FbResult<String>) -> Result<Seq<char>, Seq<char>> {
    match r {
        Ok(v) => Ok(v@),
        Err(m) => Err(m@),
    }
}

/// A status result as plain values.
pub open spec fn unit_view(r: FbResult<()>) -> Result<(), Seq<char>> {
    match r {
        Ok(_) => Ok(()),
        Err(m) => Err(m@),
    }
}

/// What a query answers for each reply: the text of `OKAY`, the reason of
/// `FAIL`, and an unknown failure for anything else.
pub open spec fn value_outcome(reply: ReplyView) -> Result<Seq<char>, Seq<char>> {
    match reply {
        ReplyView::Okay(v) => Ok(v),
        ReplyView::Fail(m) => Err(m),
        _ => Err(unknown_failure_text()),
    }
}

/// What a command answers for each reply: success on `OKAY`, the reason of
/// `FAIL`, and an unknown failure for anything else.
pub open spec fn status_outcome(reply: ReplyView) -> Result<(), Seq<char>> {
    match reply {
        ReplyView::Okay(_) => Ok(()),
        ReplyView::Fail(m) => Err(m),
        _ => Err(unknown_failure_text()),
    }
}

/// What a download answers when the device does not ask for the payload.
pub open spec fn refusal_outcome(reply: ReplyView) -> Result<(), Seq<char>> {
    match reply {
        ReplyView::Fail(m) => Err(m),
        _ => Err(unknown_failure_text()),
    }
}

/// Whether a reply asks for exactly `len` bytes of payload.
pub open spec fn accepts_payload(reply: ReplyView, len: nat) -> bool {
    reply is Data && reply->Data_0 == len
}

/// The result of a query for the value of a reply.
pub fn value_of_reply(reply: Reply) -> (r: FbResult<String>)
    ensures
        text_view(r) == value_outcome(reply@),
{
    match reply {
        Reply::Okay(v) => Ok(v),
        Reply::Fail(m) => Err(m),
        _ => Err("unknown failure".to_owned()),
    }
}

/// The result of a command for the status of a reply.
pub fn status_of_reply(reply: Reply) -> (r: FbResult<()>)
    ensures
        unit_view(r) == status_outcome(reply@),
{
    match reply {
        Reply::Okay(_) => Ok(()),
        Reply::Fail(m) => Err(m),
        _ => Err("unknown failure".to_owned()),
    }
}

/// Whether `ev` is one exchange of `cmd` whose status result is `r`.
pub open spec fn status_exchange(ev: Seq<Event>, cmd: Seq<u8>, r: Result<(), Seq<char>>) -> bool {
    ||| (exchange_replied(ev, cmd) && r == status_outcome(reply_of(reply_bytes(ev))))
    ||| (exchange_failed(ev, cmd) && r == Err::<(), Seq<char>>(io_message(failure_of(ev))))
}

/// Whether `ev` is one exchange of `cmd` whose value result is `r`.
pub open spec fn value_exchange(ev: Seq<Event>, cmd: Seq<u8>, r: Result<Seq<char>, Seq<char>>) -> bool {
    ||| (exchange_replied(ev, cmd) && r == value_outcome(reply_of(reply_bytes(ev))))
    ||| (exchange_failed(ev, cmd) && r == Err::<Seq<char>, Seq<char>>(io_message(failure_of(ev))))
}

/// The bytes of a query for `var`: `getvar:` and the name.
pub open spec fn getvar_command(var: &str) -> Seq<u8> {
    "getvar:".spec_bytes() + var.spec_bytes()
}

/// The bytes that announce a payload of `len` bytes: `download:` and eight
/// lowercase hex digits.
pub open spec fn download_command(len: nat) -> Seq<u8> {
    "download:".spec_bytes() + hex_lower(len, 8)
}

/// The bytes of a flash of `partition`: `flash:` and the name.
pub open spec fn flash_command(partition: &str) -> Seq<u8> {
    "flash:".spec_bytes() + partition.spec_bytes()
}

/// The bytes of an erase of `partition`: `erase:` and the name.
pub open spec fn erase_command(partition: &str) -> Seq<u8> {
    "erase:".spec_bytes() + partition.spec_bytes()
}

/// The bytes of a reboot: the word `reboot` alone.
pub open spec fn reboot_command() -> Seq<u8> {
    "reboot".spec_bytes()
}

/// The payload phase of a download: the device asked for `data` in the first
/// `k` events, and the rest is the exchange that sends it.
pub open spec fn payload_phase(ev: Seq<Event>, k: int, data: Seq<u8>, r: Result<(), Seq<char>>) -> bool {
    &&& 0 < k < ev.len()
    &&& exchange_replied(ev.take(k), download_command(data.len()))
    &&& accepts_payload(reply_of(reply_bytes(ev.take(k))), data.len())
    &&& status_exchange(ev.skip(k), data, r)
}

/// Whether `ev` is the traffic of a download of `data` with result `r`: the
/// announcement failed; or the device answered it with anything but a
/// request for exactly `data.len()` bytes, and nothing more was sent; or it
/// asked for them and the payload exchange gave `r`.
pub open spec fn download_trace(ev: Seq<Event>, data: Seq<u8>, r: Result<(), Seq<char>>) -> bool {
    let cmd = download_command(data.len());
    ||| (exchange_failed(ev, cmd) && r == Err::<(), Seq<char>>(io_message(failure_of(ev))))
    ||| {
        &&& exchange_replied(ev, cmd)
        &&& !accepts_payload(reply_of(reply_bytes(ev)), data.len())
        &&& r == refusal_outcome(reply_of(reply_bytes(ev)))
    }
    ||| exists|k: int| #[trigger] payload_phase(ev, k, data, r)
}

fn command(prefix: &str, arg: &[u8]) -> (r: Vec<u8>)
    ensures
        r@ == prefix.spec_bytes() + arg@,
{
    let mut cmd = slice_to_vec(prefix.as_bytes());
    cmd.extend_from_slice(arg);
    cmd
}

/// A byte transport to a device: blocking, half-duplex, and fallible.
pub trait Transport {
    /// Writes the whole buffer, or fails.
    fn write_all(&mut self, data: &[u8]) -> Result<(), IoError>;

    /// Reads what the device sends next, at most `max_len` bytes.
    fn read(&mut self, max_len: usize) -> Result<Vec<u8>, IoError>;
}

/// A protocol client over a transport, which keeps a record of the traffic
/// that the contracts of the commands are stated over.
pub struct Client<T: Transport> {
    io: T,
    traffic: Ghost<Seq<Event>>,
    asked: Ghost<Seq<usize>>,
}

/// `n` reads, each asking for a whole reply frame.
pub open spec fn frame_reads(n: nat) -> Seq<usize> {
    Seq::new(n, |i: int| MAX_REPLY_LEN)
}

impl<T: Transport> Client<T> {
    /// A client over `io`, with no traffic yet.
    pub fn new(io: T) -> (r: Client<T>)
        ensures
            r.history() == Seq::<Event>::empty(),
            r.read_requests() == Seq::<usize>::empty(),
            r.transport() == io,
    {
        Client { io, traffic: Ghost(Seq::empty()), asked: Ghost(Seq::empty()) }
    }

    /// The lengths that the reads so far asked the transport for, oldest first.
    pub closed spec fn read_requests(&self) -> Seq<usize> {
        self.asked@
    }

    pub closed spec fn transport(&self) -> T {
        self.io
    }

    /// The transport the client talks through.
    pub fn io(&self) -> (r: &T)
        ensures
            *r == self.transport(),
    {
        &self.io
    }

    /// Gives the transport back.
    pub fn into_inner(self) -> (r: T)
        ensures
            r == self.transport(),
    {
        self.io
    }

    /// Writes the whole buffer, or fails.
    pub fn write_all(&mut self, data: &[u8]) -> (r: Result<(), IoError>)
        ensures
            match r {
                Ok(_) => final(self).history() == old(self).history().push(Event::Sent(data@)),
                Err(e) => final(self).history() == old(self).history().push(
                    Event::SendFailed(data@, e),
                ),
            },
            final(self).read_requests() == old(self).read_requests(),
    {
        let r = self.io.write_all(data);
        match &r {
            Ok(_) => {
                self.traffic = Ghost(self.traffic@.push(Event::Sent(data@)));
            },
            Err(e) => {
                self.traffic = Ghost(self.traffic@.push(Event::SendFailed(data@, *e)));
            },
        }
        r
    }

    /// Reads what the device sends next. Of a longer answer, only the first
    /// `max_len` bytes are kept.
    pub fn read(&mut self, max_len: usize) -> (r: Result<Vec<u8>, IoError>)
        ensures
            match r {
                Ok(b) => b@.len() <= max_len && final(self).history() == old(self).history().push(
                    Event::Received(b@),
                ),
                Err(e) => final(self).history() == old(self).history().push(Event::ReadFailed(e)),
            },
            final(self).read_requests() == old(self).read_requests().push(max_len),
    {
        self.asked = Ghost(self.asked@.push(max_len));
        match self.io.read(max_len) {
            Ok(b) => {
                let b = if b.len() <= max_len {
                    b
                } else {
                    slice_to_vec(slice_subrange(b.as_slice(), 0, max_len))
                };
                self.traffic = Ghost(self.traffic@.push(Event::Received(b@)));
                Ok(b)
            },
            Err(e) => {
                self.traffic = Ghost(self.traffic@.push(Event::ReadFailed(e)));
                Err(e)
            },
        }
    }
}

/// The fastboot commands.
pub trait Fastboot: Sized {
    /// The traffic so far, oldest first.
    spec fn history(&self) -> Seq<Event>;

    /// Queries a variable of the device.
    fn getvar(&mut self, var: &str) -> (r: FbResult<String>)
        ensures
            extends(old(self).history(), final(self).history()),
            value_exchange(
                added(old(self).history(), final(self).history()),
                getvar_command(var),
                text_view(r),
            ),
    ;

    /// Sends a payload: announces its length as eight hex digits, and sends
    /// the bytes only when the device asks for exactly that many.
    fn download(&mut self, data: &[u8]) -> (r: FbResult<()>)
        requires
            data@.len() <= 0xffff_ffff,
        ensures
            extends(old(self).history(), final(self).history()),
            download_trace(added(old(self).history(), final(self).history()), data@, unit_view(r)),
    ;

    /// Flashes the downloaded data into a partition.
    fn flash(&mut self, partition: &str) -> (r: FbResult<()>)
        ensures
            extends(old(self).history(), final(self).history()),
            status_exchange(
                added(old(self).history(), final(self).history()),
                flash_command(partition),
                unit_view(r),
            ),
    ;

    /// Erases a partition.
    fn erase(&mut self, partition: &str) -> (r: FbResult<()>)
        ensures
            extends(old(self).history(), final(self).history()),
            status_exchange(
                added(old(self).history(), final(self).history()),
                erase_command(partition),
                unit_view(r),
            ),
    ;

    /// Reboots the device.
    fn reboot(&mut self) -> (r: FbResult<()>)
        ensures
            extends(old(self).history(), final(self).history()),
            status_exchange(
                added(old(self).history(), final(self).history()),
                reboot_command(),
                unit_view(r),
            ),
    ;
}

impl<T: Transport> Fastboot for Client<T> {
    closed spec fn history(&self) -> Seq<Event> {
        self.traffic@
    }

    fn getvar(&mut self, var: &str) -> (r: FbResult<String>) {
        let cmd = command("getvar:", var.as_bytes());
        match fb_send(self, cmd.as_slice()) {
            Ok(reply) => value_of_reply(reply),
            Err(m) => Err(m),
        }
    }

    fn download(&mut self, data: &[u8]) -> (r: FbResult<()>) {
        let mut cmd = slice_to_vec("download:".as_bytes());
        push_hex(&mut cmd, data.len() as u32, 8);
        let ghost h0 = self.history();
        let reply = match fb_send(self, cmd.as_slice()) {
            Ok(reply) => reply,
            Err(m) => return Err(m),
        };
        let ghost h1 = self.history();
        let accepted = match reply {
            Reply::Data(size) => size as usize == data.len(),
            _ => false,
        };
        if !accepted {
            return match reply {
                Reply::Fail(m) => Err(m),
                _ => Err("unknown failure".to_owned()),
            };
        }
        let r = match fb_send(self, data) {
            Ok(reply) => status_of_reply(reply),
            Err(m) => Err(m),
        };
        proof {
            let ev = added(h0, self.history());
            let k = h1.len() - h0.len();
            assert(ev.take(k) =~= added(h0, h1));
            assert(ev.skip(k) =~= added(h1, self.history()));
            assert(payload_phase(ev, k, data@, unit_view(r)));
            assert(self.history().take(h0.len() as int) =~= h0);
        }
        r
    }

    fn flash(&mut self, partition: &str) -> (r: FbResult<()>) {
        let cmd = command("flash:", partition.as_bytes());
        match fb_send(self, cmd.as_slice()) {
            Ok(reply) => status_of_reply(reply),
            Err(m) => Err(m),
        }
    }

    fn erase(&mut self, partition: &str) -> (r: FbResult<()>) {
        let cmd = command("erase:", partition.as_bytes());
        match fb_send(self, cmd.as_slice()) {
            Ok(reply) => status_of_reply(reply),
            Err(m) => Err(m),
        }
    }

    fn reboot(&mut self) -> (r: FbResult<()>) {
        match fb_send(self, "reboot".as_bytes()) {
            Ok(reply) => status_of_reply(reply),
            Err(m) => Err(m),
        }
    }
}

/// Whether `r` is what one exchange of `payload` with traffic `ev` returns:
/// the decoded reply, or the message of the failure that ended it.
pub open spec fn exchange_result(ev: Seq<Event>, payload: Seq<u8>, r: FbResult<Reply>) -> bool {
    match r {
        Ok(reply) => exchange_replied(ev, payload) && reply@ == reply_of(reply_bytes(ev)),
        Err(m) => exchange_failed(ev, payload) && m@ == io_message(failure_of(ev)),
    }
}

/// Sends `payload` and waits for the device's reply. A read that times out
/// is tried again; any other failure ends the exchange with its message.
pub fn fb_send<T: Transport>(io: &mut Client<T>, payload: &[u8]) -> (r: FbResult<Reply>)
    ensures
        extends(old(io).history(), final(io).history()),
        exchange_result(added(old(io).history(), final(io).history()), payload@, r),
        final(io).read_requests() == old(io).read_requests() + frame_reads(
            (added(old(io).history(), final(io).history()).len() - 1) as nat,
        ),
{
    let ghost h0 = io.history();
    let ghost q0 = io.read_requests();
    match io.write_all(payload) {
        Ok(_) => {},
        Err(e) => {
            assert(added(h0, io.history()) =~= seq![Event::SendFailed(payload@, e)]);
            assert(io.history().take(h0.len() as int) =~= h0);
            assert(q0 + frame_reads(0) =~= q0);
            return Err(e.message());
        },
    }
    let mut attempts: u64 = 0;
    assert(io.history().take(h0.len() as int) =~= h0);
    assert(added(h0, io.history()).skip(1) =~= Seq::<Event>::empty());
    assert(q0 + frame_reads(0) =~= q0);
    loop
        invariant
            attempts < MAX_READ_ATTEMPTS,
            h0 == old(io).history(),
            extends(h0, io.history()),
            io.history().len() == h0.len() + 1 + attempts,
            added(h0, io.history())[0] == Event::Sent(payload@),
            only_timeouts(added(h0, io.history()).skip(1)),
            q0 == old(io).read_requests(),
            io.read_requests() == q0 + frame_reads(attempts as nat),
        decreases MAX_READ_ATTEMPTS - attempts,
    {
        let ghost h = io.history();
        let got = io.read(MAX_REPLY_LEN);
        proof {
            assert(q0 + frame_reads(attempts as nat + 1) =~= (q0 + frame_reads(attempts as nat)).push(
                MAX_REPLY_LEN,
            ));
            assert(io.history().take(h0.len() as int) =~= h0);
            assert(added(h0, io.history()).take(added(h0, h).len() as int) =~= added(h0, h));
            assert(retried(added(h0, io.history())) =~= added(h0, h).skip(1));
        }
        attempts = attempts + 1;
        match got {
            Ok(b) => {
                return Ok(Reply::decode(b.as_slice()));
            },
            Err(e) => {
                let timed_out = match e {
                    IoError::TimedOut => true,
                    _ => false,
                };
                if !timed_out || attempts == MAX_READ_ATTEMPTS {
                    return Err(e.message());
                }
                assert(added(h0, io.history()).skip(1) =~= added(h0, h).skip(1).push(
                    Event::ReadFailed(e),
                ));
            },
        }
    }
}


/// The traffic of `n` reads that time out.
pub open spec fn timeouts(n: nat) -> Seq<Event> {
    Seq::new(n, |i: int| Event::ReadFailed(IoError::TimedOut))
}

/// However many reads time out before the device answers, the exchange
/// ends with that answer.
pub proof fn lemma_timeouts_are_retried(payload: Seq<u8>, n: nat, b: Seq<u8>, r: FbResult<Reply>)
    requires
        b.len() <= MAX_REPLY_LEN,
        exchange_result(seq![Event::Sent(payload)] + timeouts(n) + seq![Event::Received(b)], payload, r),
    ensures
        r is Ok,
        r->Ok_0@ == reply_of(b),
{
    let ev = seq![Event::Sent(payload)] + timeouts(n) + seq![Event::Received(b)];
    assert(ev.last() == Event::Received(b));
    assert(retried(ev) =~= timeouts(n));
}

/// A read that fails for any reason but a timeout ends the exchange with
/// that failure, and no read follows it.
pub proof fn lemma_read_failure_is_final(ev: Seq<Event>, payload: Seq<u8>, e: IoError, r: FbResult<Reply>)
    requires
        exchange_result(ev, payload, r),
        ev.len() >= 2,
        ev[1] == Event::ReadFailed(e),
        e != IoError::TimedOut,
    ensures
        ev.len() == 2,
        r is Err,
        r->Err_0@ == io_message(e),
{
    if ev.len() > 2 {
        assert(retried(ev)[0] == ev[1]);
    }
}

/// Two ends of the first reply within one traffic are the same.
proof fn lemma_first_reply_unique(ev: Seq<Event>, cmd: Seq<u8>, k1: int, k2: int)
    requires
        0 < k1 <= ev.len(),
        0 < k2 <= ev.len(),
        exchange_replied(ev.take(k1), cmd),
        exchange_replied(ev.take(k2), cmd),
    ensures
        k1 == k2,
{
    if k1 < k2 {
        assert(retried(ev.take(k2))[k1 - 2] == ev[k1 - 1]);
        assert(ev.take(k1).last() == ev[k1 - 1]);
    } else if k2 < k1 {
        assert(retried(ev.take(k1))[k2 - 2] == ev[k2 - 1]);
        assert(ev.take(k2).last() == ev[k2 - 1]);
    }
}

/// Whether in `ev` the device asked for exactly the payload within the
/// first `k` events, and acknowledged the payload with `OKAY` after them.
pub open spec fn download_accepted(ev: Seq<Event>, k: int, data: Seq<u8>) -> bool {
    &&& 0 < k < ev.len()
    &&& exchange_replied(ev.take(k), download_command(data.len()))
    &&& accepts_payload(reply_of(reply_bytes(ev.take(k))), data.len())
    &&& exchange_replied(ev.skip(k), data)
    &&& reply_of(reply_bytes(ev.skip(k))) is Okay
}

/// A download succeeds exactly when the device asks for exactly the size
/// of the payload and then acknowledges the payload with `OKAY`.
pub proof fn lemma_download_succeeds_iff_accepted(ev: Seq<Event>, data: Seq<u8>, r: Result<(), Seq<char>>)
    requires
        download_trace(ev, data, r),
    ensures
        r is Ok <==> exists|k: int| #[trigger] download_accepted(ev, k, data),
{
    let cmd = download_command(data.len());
    if r is Ok {
        let k = choose|k: int| #[trigger] payload_phase(ev, k, data, r);
        assert(download_accepted(ev, k, data));
    }
    if exists|k: int| #[trigger] download_accepted(ev, k, data) {
        let k = choose|k: int| #[trigger] download_accepted(ev, k, data);
        assert(ev.skip(k).last() == ev.last());
        assert(ev.take(ev.len() as int) =~= ev);
        if exchange_replied(ev, cmd) {
            lemma_first_reply_unique(ev, cmd, k, ev.len() as int);
        }
        let k2 = choose|k2: int| #[trigger] payload_phase(ev, k2, data, r);
        lemma_first_reply_unique(ev, cmd, k, k2);
    }
}

/// When the device answers the announcement with anything but a request for
/// exactly the payload's size, the download fails and that answer is the
/// last of its traffic: the payload is not sent.
pub proof fn lemma_download_refused(ev: Seq<Event>, data: Seq<u8>, r: Result<(), Seq<char>>, k: int)
    requires
        download_trace(ev, data, r),
        0 < k <= ev.len(),
        exchange_replied(ev.take(k), download_command(data.len())),
        !accepts_payload(reply_of(reply_bytes(ev.take(k))), data.len()),
    ensures
        r is Err,
        k == ev.len(),
{
    let cmd = download_command(data.len());
    assert(ev.take(ev.len() as int) =~= ev);
    if exchange_failed(ev, cmd) {
        if k < ev.len() {
            assert(retried(ev)[k - 2] == ev[k - 1]);
        }
        assert(ev.take(k).last() == ev[k - 1]);
    } else if exchange_replied(ev, cmd) {
        lemma_first_reply_unique(ev, cmd, k, ev.len() as int);
        if exists|k2: int| #[trigger] payload_phase(ev, k2, data, r) {
            let k2 = choose|k2: int| #[trigger] payload_phase(ev, k2, data, r);
            lemma_first_reply_unique(ev, cmd, k2, ev.len() as int);
        }
    } else {
        let k2 = choose|k2: int| #[trigger] payload_phase(ev, k2, data, r);
        lemma_first_reply_unique(ev, cmd, k, k2);
    }
}

} // verus!
