use vstd::prelude::*;
use crate::{CollectorError, PricePoint, PriceSource};
use crate::price_text::{parse_price_e8, price_e8_of};

verus! {

/// The two states of the streaming collector's connection machine.
#[derive(Clone, Copy, PartialEq, Eq, Structural, Debug)]
pub enum ConnState {
    Disconnected,
    Connected,
}

/// A frame received from the feed, as classified by the transport layer:
/// either a trade event carrying the raw price text and a trade timestamp in
/// epoch milliseconds, or any other frame (control, heartbeat, non-text,
/// unrecognized shape).
pub enum Frame {
    Trade { price_text: Vec<u8>, timestamp_millis: i64 },
    Other,
}

/// The outcome of one read from the established connection: a frame, or a
/// transport-level failure.
pub enum ReadEvent {
    Frame(Frame),
    Failed,
}

/// What the machine decides after one read: emit a sample, keep reading, or
/// fail the fetch.
pub enum ReadStep {
    Sample(PricePoint),
    Skip,
    Fail(CollectorError),
}

/// The sample that a trade frame denotes, if any: the price text must be a
/// well-formed decimal with a strictly positive value, and the timestamp must
/// not precede the epoch. The millisecond timestamp is truncated to whole
/// seconds.
pub open spec fn trade_sample(price_text: Seq<u8>, ts_millis: int) -> Option<PricePoint> {
    match price_e8_of(price_text) {
        Some(v) => if v > 0 && ts_millis >= 0 {
            Some(
                PricePoint {
                    timestamp_secs: (ts_millis / 1000) as i64,
                    price_e8: v as u64,
                    source: PriceSource::Binance,
                },
            )
        } else {
            None
        },
        None => None,
    }
}

/// One transition of the read loop: a transport failure tears the connection
/// down and fails the fetch; a non-trade frame is silently skipped; a trade
/// frame either yields a sample or fails the fetch with a data error, the
/// connection staying up either way.
pub open spec fn spec_read_step(state: ConnState, ev: ReadEvent) -> (ConnState, ReadStep) {
    match ev {
        ReadEvent::Failed => (
            ConnState::Disconnected,
            ReadStep::Fail(CollectorError::ConnectionError),
        ),
        ReadEvent::Frame(Frame::Other) => (state, ReadStep::Skip),
        ReadEvent::Frame(Frame::Trade { price_text, timestamp_millis }) => (
            state,
            match trade_sample(price_text@, timestamp_millis as int) {
                Some(pp) => ReadStep::Sample(pp),
                None => ReadStep::Fail(CollectorError::DataError),
            },
        ),
    }
}

/// One transition of the connection attempt: success reaches `Connected`,
/// failure stays `Disconnected` and surfaces a connection error.
pub open spec fn spec_connect_step(ok: bool) -> (ConnState, Result<(), CollectorError>) {
    if ok {
        (ConnState::Connected, Ok(()))
    } else {
        (ConnState::Disconnected, Err(CollectorError::ConnectionError))
    }
}

/// The streaming collector's protocol core: the configured endpoint and the
/// connection state. The transport itself (socket, handshake, reads) lives
/// with the caller, which reports each outcome to this machine and obeys the
/// actions it returns.
pub struct BinanceCollector {
    pub websocket_url: String,
    pub state: ConnState,
}

impl BinanceCollector {
    pub fn new(websocket_url: String) -> (r: Self)
        ensures
            r.state is Disconnected,
            r.websocket_url@ == websocket_url@,
    {
        BinanceCollector { websocket_url, state: ConnState::Disconnected }
    }

    /// A fetch must open a fresh connection (and re-subscribe) exactly when
    /// the machine is disconnected.
    pub fn needs_connect(&self) -> (r: bool)
        ensures
            r == (self.state is Disconnected),
    {
        match self.state {
            ConnState::Disconnected => true,
            ConnState::Connected => false,
        }
    }

    /// The subscription request that must be sent, and acknowledged, before
    /// trade frames are read.
    pub fn subscription_request(&self) -> (r: &'static str)
        ensures
            r@ == spec_subscription_request(),
    {
        "{\"method\": \"SUBSCRIBE\", \"params\": [\"ethusdc@trade\"], \"id\": 1}"
    }

    /// Records the outcome of a connect-and-subscribe attempt.
    pub fn on_connect_result(&mut self, ok: bool) -> (r: Result<(), CollectorError>)
        ensures
            final(self).websocket_url@ == old(self).websocket_url@,
            final(self).state == spec_connect_step(ok).0,
            r == spec_connect_step(ok).1,
    {
        if ok {
            self.state = ConnState::Connected;
            Ok(())
        } else {
            self.state = ConnState::Disconnected;
            Err(CollectorError::ConnectionError)
        }
    }

    /// Records the outcome of one read from the established connection and
    /// decides how the fetch proceeds, exactly as `spec_read_step` says.
    pub fn on_read_event(&mut self, ev: ReadEvent) -> (r: ReadStep)
        ensures
            final(self).websocket_url@ == old(self).websocket_url@,
            final(self).state == spec_read_step(old(self).state, ev).0,
            r == spec_read_step(old(self).state, ev).1,
    {
        match ev {
            ReadEvent::Failed => {
                self.state = ConnState::Disconnected;
                ReadStep::Fail(CollectorError::ConnectionError)
            },
            ReadEvent::Frame(Frame::Other) => ReadStep::Skip,
            ReadEvent::Frame(Frame::Trade { price_text, timestamp_millis }) => {
                match parse_price_e8(price_text.as_slice()) {
                    Some(v) => {
                        if v > 0 && timestamp_millis >= 0 {
                            let secs = ((timestamp_millis as u64) / 1000) as i64;
                            ReadStep::Sample(
                                PricePoint {
                                    timestamp_secs: secs,
                                    price_e8: v,
                                    source: PriceSource::Binance,
                                },
                            )
                        } else {
                            ReadStep::Fail(CollectorError::DataError)
                        }
                    },
                    None => ReadStep::Fail(CollectorError::DataError),
                }
            },
        }
    }

    /// Runs the read loop over a series of read outcomes, as they came off the
    /// connection: non-trade frames are skipped and reading continues; the
    /// first decisive event (a trade frame or a transport failure) settles the
    /// fetch. `None` means every event was skipped and the loop would still be
    /// reading.
    pub fn read_loop(&mut self, events: Vec<ReadEvent>) -> (r: Option<Result<PricePoint, CollectorError>>)
        ensures
            final(self).websocket_url@ == old(self).websocket_url@,
            final(self).state == spec_drain(old(self).state, events@).0,
            r == spec_drain(old(self).state, events@).1,
    {
        let ghost start_state = self.state;
        let ghost all = events@;
        let mut evs = events;
        while evs.len() > 0
            invariant
                self.websocket_url@ == old(self).websocket_url@,
                spec_drain(start_state, all) == spec_drain(self.state, evs@),
                start_state == old(self).state,
                all == events@,
            decreases evs.len(),
        {
            let ghost before = evs@;
            let ghost st = self.state;
            let ev = evs.remove(0);
            proof {
                assert(before.remove(0) =~= before.drop_first());
            }
            match self.on_read_event(ev) {
                ReadStep::Skip => {},
                ReadStep::Sample(pp) => {
                    return Some(Ok(pp));
                },
                ReadStep::Fail(e) => {
                    return Some(Err(e));
                },
            }
        }
        None
    }
}

/// The verdict of the read loop never depends on the non-trade frames it
/// skipped over: discarding one changes neither the final connection state nor
/// the outcome of the fetch.
pub proof fn lemma_skipped_frame_preserves_outcome(state: ConnState, events: Seq<ReadEvent>)
    ensures
        spec_drain(state, seq![ReadEvent::Frame(Frame::Other)].add(events)) == spec_drain(
            state,
            events,
        ),
{
    let padded = seq![ReadEvent::Frame(Frame::Other)].add(events);
    assert(padded.drop_first() =~= events);
}

/// What the read loop leaves behind and answers, one event at a time, starting
/// from `state`.
pub open spec fn spec_drain(state: ConnState, events: Seq<ReadEvent>) -> (ConnState, Option<Result<PricePoint, CollectorError>>)
    decreases events.len(),
{
    if events.len() == 0 {
        (state, None)
    } else {
        let next = spec_read_step(state, events[0]).0;
        match spec_read_step(state, events[0]).1 {
            ReadStep::Sample(pp) => (next, Some(Ok(pp))),
            ReadStep::Fail(e) => (next, Some(Err(e))),
            ReadStep::Skip => spec_drain(next, events.drop_first()),
        }
    }
}

pub open spec fn spec_subscription_request() -> Seq<char> {
    "{\"method\": \"SUBSCRIBE\", \"params\": [\"ethusdc@trade\"], \"id\": 1}"@
}

/// A transport failure always forces the machine back to `Disconnected` and
/// surfaces a connection error, so the following fetch reconnects and
/// re-subscribes before reading again.
pub proof fn lemma_read_error_forces_reconnect(state: ConnState)
    ensures
        spec_read_step(state, ReadEvent::Failed).0 is Disconnected,
        spec_read_step(state, ReadEvent::Failed).1 == ReadStep::Fail(
            CollectorError::ConnectionError,
        ),
{
}

/// A frame that is not a trade event never crashes the read loop, never
/// becomes a sample, and never changes the connection state: the loop goes on
/// to the next frame.
pub proof fn lemma_malformed_frame_skipped(state: ConnState)
    ensures
        spec_read_step(state, ReadEvent::Frame(Frame::Other)) == ((state, ReadStep::Skip)),
{
}

/// A trade frame whose price text is not a well-formed positive decimal never
/// becomes a sample and leaves the connection state unchanged; the fetch fails
/// with a data error.
pub proof fn lemma_bad_price_never_sampled(state: ConnState, price_text: Vec<u8>, ts_millis: i64)
    requires
        trade_sample(price_text@, ts_millis as int) is None,
    ensures
        spec_read_step(
            state,
            ReadEvent::Frame(Frame::Trade { price_text, timestamp_millis: ts_millis }),
        ) == ((state, ReadStep::Fail(CollectorError::DataError))),
{
}

} // verus!
