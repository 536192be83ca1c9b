//! Framing of protocol messages on the serial link: each payload is
//! byte-stuffed (COBS) and terminated by a zero byte. Receiving accumulates
//! bytes up to a delimiter and decodes the frame; sending is a bounded loop
//! driven by what the serial endpoint reports.
use vstd::prelude::*;
use crate::wire::{
    Command, CommandModel, Response, decode_command, decode_response, encode_command,
    encode_response, option_model, spec_decode_command, spec_decode_response, spec_encode_command,
    spec_encode_response, command_wf, lemma_command_round_trip, lemma_response_round_trip,
};

verus! {

/// Capacity of the receive accumulator.
pub const RX_BUF_SIZE: usize = 2048;
/// Capacity of the transmit scratch buffer.
pub const TX_BUF_SIZE: usize = 2048;
/// Accumulator fill level above which draining during a send stops.
pub const RX_DRAIN_LIMIT: usize = 1536;
/// Consecutive would-block answers after which a send gives up.
pub const MAX_POLLS: usize = 100;

/// The COBS encoding of `data`.
pub uninterp spec fn cobs_encoding(data: Seq<u8>) -> Seq<u8>;

/// The COBS decoding of `data`, if it is a valid encoding.
pub uninterp spec fn cobs_decoding(data: Seq<u8>) -> Option<Seq<u8>>;

/// Relies on `cobs::encode_vec`: the COBS encoding of `data` (without the
/// trailing delimiter), in which the zero byte never occurs, no longer than
/// `max_encoding_length` (one byte more than the input per started 254
/// bytes), and which decodes back to `data` when `data` is non-empty.
#[verifier::external_body]
fn cobs_encode(data: &[u8]) -> (r: Vec<u8>)
    ensures
        r@ == cobs_encoding(data@),
        forall|i: int| 0 <= i < r@.len() ==> r@[i] != 0,
        r@.len() <= data@.len() + data@.len() / 254 + 1,
        data@.len() > 0 ==> r@.len() > 0 && cobs_decoding(r@) == Some(data@),
{
    cobs::encode_vec(data)
}

/// Relies on `cobs::decode_vec`: the decoded bytes, or an error for an
/// invalid encoding.
#[verifier::external_body]
fn cobs_decode(data: &[u8]) -> (r: Option<Vec<u8>>)
    ensures
        match r {
            Some(v) => cobs_decoding(data@) == Some(v@),
            None => cobs_decoding(data@) is None,
        },
{
    cobs::decode_vec(data).ok()
}

/// The frame carrying `payload`: its COBS encoding and the delimiter.
pub open spec fn spec_frame(payload: Seq<u8>) -> Seq<u8> {
    cobs_encoding(payload).push(0u8)
}

/// The command carried by the accumulated (delimiter-free) frame bytes.
pub open spec fn frame_command(acc: Seq<u8>) -> Option<CommandModel> {
    if acc.len() == 0 {
        None
    } else {
        match cobs_decoding(acc) {
            Some(p) => spec_decode_command(p),
            None => None,
        }
    }
}

/// The response carried by a frame, delimiter included or not.
pub open spec fn frame_response(frame: Seq<u8>) -> Option<Response> {
    let body = if frame.len() > 0 && frame.last() == 0 { frame.drop_last() } else { frame };
    match cobs_decoding(body) {
        Some(p) => spec_decode_response(p),
        None => None,
    }
}

/// The frame that carries command `c`.
pub fn encode_command_frame(c: &Command) -> (r: Vec<u8>)
    requires
        command_wf(c@),
    ensures
        r@ == spec_frame(spec_encode_command(c@)),
        r@.len() > 0 && r@.last() == 0,
        forall|i: int| 0 <= i < r@.len() - 1 ==> r@[i] != 0,
        frame_command(r@.drop_last()) == Some(c@),
{
    let payload = encode_command(c);
    proof {
        lemma_command_round_trip(c@);
    }
    let mut out = cobs_encode(payload.as_slice());
    let ghost body = out@;
    out.push(0);
    assert(out@.drop_last() =~= body);
    out
}

/// The frame that carries response `resp`; it always fits the transmit
/// buffer.
pub fn encode_response_frame(resp: &Response) -> (r: Vec<u8>)
    ensures
        r@ == spec_frame(spec_encode_response(*resp)),
        r@.len() <= TX_BUF_SIZE,
        r@.last() == 0,
        forall|i: int| 0 <= i < r@.len() - 1 ==> r@[i] != 0,
        frame_response(r@) == Some(*resp),
{
    let payload = encode_response(resp);
    proof {
        lemma_response_round_trip(*resp);
    }
    let mut out = cobs_encode(payload.as_slice());
    let ghost body = out@;
    out.push(0);
    assert(out@.drop_last() =~= body);
    out
}

/// Decodes a response frame, with or without its trailing delimiter.
pub fn decode_response_frame(frame: &[u8]) -> (r: Option<Response>)
    ensures
        r == frame_response(frame@),
{
    let n = frame.len();
    let end = if n > 0 && frame[n - 1] == 0 { n - 1 } else { n };
    let body = crate::bytes::copy_range(frame, 0, end);
    assert(body@ =~= (if frame@.len() > 0 && frame@.last() == 0 {
        frame@.drop_last()
    } else {
        frame@
    }));
    match cobs_decode(body.as_slice()) {
        Some(p) => decode_response(p.as_slice()),
        None => None,
    }
}

/// One received byte applied to the accumulator `acc`: a delimiter ends the
/// frame and yields its command, if any; another byte is appended, and
/// when the accumulator is full the partial frame is discarded instead.
pub open spec fn rx_step(acc: Seq<u8>, byte: u8) -> (Seq<u8>, Option<CommandModel>) {
    if byte == 0 {
        (Seq::empty(), frame_command(acc))
    } else if acc.len() < RX_BUF_SIZE {
        (acc.push(byte), None)
    } else {
        (Seq::empty(), None)
    }
}

/// Bytes applied one by one until the first command appears; the bytes
/// after it are not examined.
pub open spec fn rx_feed(acc: Seq<u8>, bytes: Seq<u8>) -> (Seq<u8>, Option<CommandModel>)
    decreases bytes.len(),
{
    if bytes.len() == 0 {
        (acc, None)
    } else {
        let (next, cmd) = rx_step(acc, bytes[0]);
        if cmd is Some {
            (next, cmd)
        } else {
            rx_feed(next, bytes.drop_first())
        }
    }
}

/// Bytes received while a send waits: they are accumulated until the fill
/// level reaches the drain limit, and a decoded command replaces the one
/// held for the next receive.
pub open spec fn rx_drain(acc: Seq<u8>, pending: Option<CommandModel>, bytes: Seq<u8>) -> (
    Seq<u8>,
    Option<CommandModel>,
)
    decreases bytes.len(),
{
    if bytes.len() == 0 || acc.len() >= RX_DRAIN_LIMIT {
        (acc, pending)
    } else {
        let (next, cmd) = rx_step(acc, bytes[0]);
        rx_drain(next, if cmd is Some { cmd } else { pending }, bytes.drop_first())
    }
}

/// Receive side of the framed transport.
pub struct FrameDecoder {
    rx_buf: Vec<u8>,
    pending_cmd: Option<Command>,
}

impl FrameDecoder {
    /// Bytes of the frame accumulated so far.
    pub closed spec fn acc(&self) -> Seq<u8> {
        self.rx_buf@
    }

    /// The command held for the next receive.
    pub closed spec fn pending(&self) -> Option<CommandModel> {
        option_model(self.pending_cmd)
    }

    pub closed spec fn wf(&self) -> bool {
        self.rx_buf@.len() <= RX_BUF_SIZE
    }

    /// An empty accumulator with no held command.
    pub fn new() -> (r: FrameDecoder)
        ensures
            r.wf(),
            r.acc() == Seq::<u8>::empty(),
            r.pending() is None,
    {
        FrameDecoder { rx_buf: Vec::new(), pending_cmd: None }
    }

    fn append_byte(&mut self, byte: u8)
        requires
            old(self).wf(),
        ensures
            final(self).wf(),
            final(self).pending_cmd == old(self).pending_cmd,
            final(self).rx_buf@ == (if old(self).rx_buf@.len() < RX_BUF_SIZE {
                old(self).rx_buf@.push(byte)
            } else {
                Seq::empty()
            }),
    {
        if self.rx_buf.len() < RX_BUF_SIZE {
            self.rx_buf.push(byte);
        } else {
            self.rx_buf.clear();
        }
    }

    fn try_decode_frame(&mut self) -> (r: Option<Command>)
        requires
            old(self).wf(),
        ensures
            final(self).wf(),
            final(self).pending_cmd == old(self).pending_cmd,
            final(self).rx_buf@ == Seq::<u8>::empty(),
            option_model(r) == frame_command(old(self).rx_buf@),
    {
        if self.rx_buf.len() == 0 {
            return None;
        }
        let decoded = cobs_decode(self.rx_buf.as_slice());
        self.rx_buf.clear();
        match decoded {
            Some(payload) => decode_command(payload.as_slice()),
            None => None,
        }
    }

    /// Applies one received byte.
    pub fn process_byte(&mut self, byte: u8) -> (r: Option<Command>)
        requires
            old(self).wf(),
        ensures
            final(self).wf(),
            final(self).pending() == old(self).pending(),
            (final(self).acc(), option_model(r)) == rx_step(old(self).acc(), byte),
    {
        if byte == 0 {
            self.try_decode_frame()
        } else {
            self.append_byte(byte);
            None
        }
    }

    /// Whether a command decoded while a send was waiting is held for the
    /// next receive.
    pub fn has_pending(&self) -> (r: bool)
        ensures
            r == self.pending() is Some,
    {
        self.pending_cmd.is_some()
    }

    /// Hands out the command decoded while a send was waiting, if any.
    pub fn take_pending(&mut self) -> (r: Option<Command>)
        ensures
            final(self).wf() == old(self).wf(),
            final(self).acc() == old(self).acc(),
            final(self).pending() is None,
            option_model(r) == old(self).pending(),
    {
        self.pending_cmd.take()
    }

    /// Receives one command: the one held back during a send, if any (then
    /// `bytes` is not examined, so callers read nothing while `has_pending`
    /// holds); otherwise the bytes of one read are applied until a command is
    /// complete, and bytes after that command are not examined.
    pub fn try_receive(&mut self, bytes: &[u8]) -> (r: Option<Command>)
        requires
            old(self).wf(),
        ensures
            final(self).wf(),
            final(self).pending() is None,
            old(self).pending() is Some ==> option_model(r) == old(self).pending()
                && final(self).acc() == old(self).acc(),
            old(self).pending() is None ==> (final(self).acc(), option_model(r)) == rx_feed(
                old(self).acc(),
                bytes@,
            ),
    {
        if self.pending_cmd.is_some() {
            return self.pending_cmd.take();
        }
        self.feed(bytes)
    }

    fn feed(&mut self, bytes: &[u8]) -> (r: Option<Command>)
        requires
            old(self).wf(),
        ensures
            final(self).wf(),
            final(self).pending() == old(self).pending(),
            (final(self).acc(), option_model(r)) == rx_feed(old(self).acc(), bytes@),
    {
        let mut i: usize = 0;
        assert(bytes@.subrange(0, bytes@.len() as int) =~= bytes@);
        while i < bytes.len()
            invariant
                i <= bytes@.len(),
                self.wf(),
                self.pending() == old(self).pending(),
                rx_feed(self.acc(), bytes@.subrange(i as int, bytes@.len() as int)) == rx_feed(
                    old(self).acc(),
                    bytes@,
                ),
            decreases bytes@.len() - i,
        {
            let ghost rest = bytes@.subrange(i as int, bytes@.len() as int);
            let cmd = self.process_byte(bytes[i]);
            assert(rest.drop_first() =~= bytes@.subrange(i + 1, bytes@.len() as int));
            if cmd.is_some() {
                return cmd;
            }
            i = i + 1;
        }
        assert(bytes@.subrange(i as int, bytes@.len() as int) =~= Seq::<u8>::empty());
        None
    }

    /// Takes in bytes read while a send waits on the endpoint, keeping any
    /// decoded command for the next receive. Nothing is taken when the
    /// accumulator is above the drain limit.
    pub fn drain(&mut self, bytes: &[u8])
        requires
            old(self).wf(),
        ensures
            final(self).wf(),
            old(self).acc().len() > RX_DRAIN_LIMIT ==> final(self).acc() == old(self).acc()
                && final(self).pending() == old(self).pending(),
            old(self).acc().len() <= RX_DRAIN_LIMIT ==> (final(self).acc(), final(self).pending())
                == rx_drain(old(self).acc(), old(self).pending(), bytes@),
    {
        if self.rx_buf.len() > RX_DRAIN_LIMIT {
            return;
        }
        let mut i: usize = 0;
        assert(bytes@.subrange(0, bytes@.len() as int) =~= bytes@);
        while i < bytes.len()
            invariant
                i <= bytes@.len(),
                self.wf(),
                old(self).acc().len() <= RX_DRAIN_LIMIT,
                rx_drain(self.acc(), self.pending(), bytes@.subrange(i as int, bytes@.len() as int))
                    == rx_drain(old(self).acc(), old(self).pending(), bytes@),
            decreases bytes@.len() - i,
        {
            let ghost rest = bytes@.subrange(i as int, bytes@.len() as int);
            if self.rx_buf.len() >= RX_DRAIN_LIMIT {
                return;
            }
            let cmd = self.process_byte(bytes[i]);
            assert(rest.drop_first() =~= bytes@.subrange(i + 1, bytes@.len() as int));
            if cmd.is_some() {
                self.pending_cmd = cmd;
            }
            i = i + 1;
        }
        assert(bytes@.subrange(i as int, bytes@.len() as int) =~= Seq::<u8>::empty());
    }
}

proof fn lemma_accumulate_frame(f: Seq<u8>, k: int)
    requires
        0 <= k <= f.len(),
        f.len() <= RX_BUF_SIZE,
        forall|i: int| 0 <= i < f.len() ==> f[i] != 0,
    ensures
        rx_feed(f.subrange(0, k), f.subrange(k, f.len() as int).push(0u8)) == (
            Seq::<u8>::empty(),
            frame_command(f),
        ),
    decreases f.len() - k,
{
    let rest = f.subrange(k, f.len() as int).push(0u8);
    if k == f.len() {
        assert(f.subrange(0, k) =~= f);
        assert(rest.drop_first() =~= Seq::<u8>::empty());
        assert(rest[0] == 0);
        let (next, cmd) = rx_step(f, 0);
        assert(next == Seq::<u8>::empty());
        assert(rx_feed(next, rest.drop_first()) == (next, None::<CommandModel>));
    } else {
        assert(rest[0] == f[k]);
        assert(f.subrange(0, k).push(f[k]) =~= f.subrange(0, k + 1));
        assert(rest.drop_first() =~= f.subrange(k + 1, f.len() as int).push(0u8));
        lemma_accumulate_frame(f, k + 1);
    }
}

/// Whatever was accumulated before (a corrupted or partial frame), after
/// the next delimiter the accumulator is empty, and a frame of non-zero
/// bytes that fits the accumulator, followed by a delimiter, yields exactly
/// the command that frame carries: no bytes of one frame reach another.
pub proof fn lemma_frame_resync(acc: Seq<u8>, f: Seq<u8>)
    requires
        f.len() <= RX_BUF_SIZE,
        forall|i: int| 0 <= i < f.len() ==> f[i] != 0,
    ensures
        rx_step(acc, 0).0 == Seq::<u8>::empty(),
        rx_feed(rx_step(acc, 0).0, f.push(0u8)) == (Seq::<u8>::empty(), frame_command(f)),
{
    lemma_accumulate_frame(f, 0);
    assert(f.subrange(0, 0) =~= Seq::<u8>::empty());
    assert(f.subrange(0, f.len() as int) =~= f);
}

/// What the serial endpoint reported for one write attempt.
#[derive(Clone, Copy, Debug, PartialEq, Eq, Structural)]
pub enum WriteOutcome {
    /// This many bytes were accepted.
    Wrote(usize),
    /// The endpoint is busy.
    WouldBlock,
    /// Any other error.
    Failed,
}

/// Where a send stands.
#[derive(Clone, Copy, Debug, PartialEq, Eq, Structural)]
pub struct TxProgress {
    /// Bytes of the frame accepted so far.
    pub offset: usize,
    /// Consecutive would-block answers.
    pub poll_count: usize,
    /// Length of the frame.
    pub len: usize,
}

/// What the sender does next.
#[derive(Clone, Copy, Debug, PartialEq, Eq, Structural)]
pub enum TxAction {
    /// Write the bytes from `offset` on.
    Write,
    /// Service the device, drain received bytes, then write again.
    PollAndDrain,
    /// Stop; `true` when every byte was accepted.
    Done(bool),
}

/// The first action of a send of `len` bytes.
pub fn write_start(len: usize) -> (r: (TxProgress, TxAction))
    ensures
        r.0 == (TxProgress { offset: 0, poll_count: 0, len }),
        r.1 == (if len == 0 { TxAction::Done(true) } else { TxAction::Write }),
{
    let p = TxProgress { offset: 0, poll_count: 0, len };
    if len == 0 {
        (p, TxAction::Done(true))
    } else {
        (p, TxAction::Write)
    }
}

/// The next state of a send after the endpoint answered a write of the
/// bytes from `p.offset` on. Progress resets the would-block count; more
/// than `MAX_POLLS` consecutive would-block answers or any other error end
/// the send with `false`; it ends with `true` only once every byte was
/// accepted.
pub fn write_step(p: TxProgress, outcome: WriteOutcome) -> (r: (TxProgress, TxAction))
    requires
        p.offset < p.len,
        p.poll_count <= MAX_POLLS,
        outcome matches WriteOutcome::Wrote(n) ==> n <= p.len - p.offset,
    ensures
        r.0.len == p.len,
        r.0.offset <= r.0.len,
        r.0.poll_count <= MAX_POLLS + 1,
        r.1 == TxAction::Done(true) <==> r.0.offset == r.0.len,
        r.1 == TxAction::Write ==> r.0.offset < r.0.len && r.0.poll_count == 0,
        r.1 == TxAction::PollAndDrain ==> r.0.offset == p.offset && r.0.poll_count == p.poll_count
            + 1 && r.0.poll_count <= MAX_POLLS,
        match outcome {
            WriteOutcome::Wrote(n) => r.0.offset == p.offset + n && r.0.poll_count == 0 && (r.1
                == TxAction::Write || r.1 == TxAction::Done(true)),
            WriteOutcome::WouldBlock => r.0.offset == p.offset && r.0.poll_count == p.poll_count + 1
                && (p.poll_count == MAX_POLLS <==> r.1 == TxAction::Done(false)) && (p.poll_count
                < MAX_POLLS <==> r.1 == TxAction::PollAndDrain),
            WriteOutcome::Failed => r.0 == p && r.1 == TxAction::Done(false),
        },
{
    match outcome {
        WriteOutcome::Wrote(n) => {
            let q = TxProgress { offset: p.offset + n, poll_count: 0, len: p.len };
            if q.offset < q.len {
                (q, TxAction::Write)
            } else {
                (q, TxAction::Done(true))
            }
        },
        WriteOutcome::WouldBlock => {
            let q = TxProgress { offset: p.offset, poll_count: p.poll_count + 1, len: p.len };
            if q.poll_count > MAX_POLLS {
                (q, TxAction::Done(false))
            } else {
                (q, TxAction::PollAndDrain)
            }
        },
        WriteOutcome::Failed => (p, TxAction::Done(false)),
    }
}

} // verus!
