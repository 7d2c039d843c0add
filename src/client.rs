//! The receiving side of a Snapcast client: clock synchronization, the codec
//! state, and the queue that releases audio frames at their play time.
//! Times are in microseconds since the connection opened.

use vstd::prelude::*;
use crate::audio::{
    clock_offset, downmix, downmix_spec, frame_delay, fresh, is_fresh, play_delay, time_diff_of,
};
use crate::protocol::{SnapKind, SnapMessage};

verus! {

/// A frame waiting for its play time.
pub struct QueuedFrame {
    pub deadline: i128,
    pub samples: Vec<i32>,
}

/// Frames ordered by play time. Frames with equal play times keep the order
/// in which they came. `released` is the play time of the last frame taken
/// out, and no frame in the queue plays before it.
pub struct FrameQueue {
    entries: Vec<QueuedFrame>,
    released: i128,
}

pub open spec fn sorted_by_deadline(q: Seq<(int, Seq<i32>)>) -> bool {
    forall|i: int, j: int| 0 <= i < j < q.len() ==> q[i].0 <= q[j].0
}

/// The position at which a frame playing at `d` joins the queue `q`: after
/// every frame that plays no later.
pub open spec fn slot(q: Seq<(int, Seq<i32>)>, d: int) -> int
    decreases q.len(),
{
    if q.len() == 0 || q[0].0 > d {
        0
    } else {
        1 + slot(q.drop_first(), d)
    }
}

/// The queue `q` with the frame `e` joined at its slot.
pub open spec fn enqueue(q: Seq<(int, Seq<i32>)>, e: (int, Seq<i32>)) -> Seq<(int, Seq<i32>)> {
    q.insert(slot(q, e.0), e)
}

proof fn lemma_slot(q: Seq<(int, Seq<i32>)>, d: int, p: int)
    requires
        0 <= p <= q.len(),
        forall|k: int| 0 <= k < p ==> q[k].0 <= d,
        p < q.len() ==> q[p].0 > d,
    ensures
        slot(q, d) == p,
    decreases p,
{
    if p > 0 {
        let t = q.drop_first();
        assert forall|k: int| 0 <= k < p - 1 implies t[k].0 <= d by {
            assert(t[k] == q[k + 1]);
        }
        if p - 1 < t.len() {
            assert(t[p - 1] == q[p]);
        }
        lemma_slot(t, d, p - 1);
    }
}

/// The play time before every other.
pub const EARLIEST: i128 = -0x1_0000_0000_0000_0000_0000_0000;

impl View for FrameQueue {
    type V = Seq<(int, Seq<i32>)>;

    closed spec fn view(&self) -> Seq<(int, Seq<i32>)> {
        self.entries@.map_values(|f: QueuedFrame| (f.deadline as int, f.samples@))
    }
}

impl FrameQueue {
    pub closed spec fn released(&self) -> int {
        self.released as int
    }

    pub closed spec fn wf(&self) -> bool {
        &&& sorted_by_deadline(self@)
        &&& forall|k: int| 0 <= k < self@.len() ==> self.released() <= #[trigger] self@[k].0
    }

    pub fn new() -> (r: FrameQueue)
        ensures
            r.wf(),
            r@ == Seq::<(int, Seq<i32>)>::empty(),
            r.released() == EARLIEST,
    {
        let r = FrameQueue { entries: Vec::new(), released: EARLIEST };
        assert(r@ =~= Seq::<(int, Seq<i32>)>::empty());
        r
    }

    pub fn len(&self) -> (r: usize)
        ensures
            r == self@.len(),
    {
        self.entries.len()
    }

    /// The earliest play time in the queue.
    pub fn peek_deadline(&self) -> (r: Option<i128>)
        ensures
            self@.len() == 0 ==> r is None,
            self@.len() > 0 ==> r == Some(self@[0].0 as i128),
    {
        if self.entries.len() == 0 {
            None
        } else {
            Some(self.entries[0].deadline)
        }
    }

    /// Inserts a frame after every frame that plays no later, and returns its
    /// position.
    pub fn insert(&mut self, deadline: i128, samples: Vec<i32>) -> (r: usize)
        requires
            old(self).wf(),
            old(self).released() <= deadline,
        ensures
            final(self).wf(),
            final(self).released() == old(self).released(),
            r == slot(old(self)@, deadline as int),
            r <= old(self)@.len(),
            final(self)@ == enqueue(old(self)@, (deadline as int, samples@)),
            forall|k: int| 0 <= k < r ==> old(self)@[k].0 <= deadline,
            forall|k: int| r <= k < old(self)@.len() ==> old(self)@[k].0 > deadline,
    {
        let mut p: usize = 0;
        let n = self.entries.len();
        while p < n && self.entries[p].deadline <= deadline
            invariant
                n == self.entries@.len(),
                p <= n,
                forall|k: int| 0 <= k < p ==> self@[k].0 <= deadline,
            decreases n - p,
        {
            p = p + 1;
        }
        proof {
            if p < n {
                assert(self@[p as int].0 > deadline);
            }
            lemma_slot(self@, deadline as int, p as int);
        }
        self.entries.insert(p, QueuedFrame { deadline, samples });
        assert(final(self)@ =~= old(self)@.insert(p as int, (deadline as int, samples@)));
        p
    }

    /// Takes out the earliest frame if its play time is not after `now`.
    /// Frames come out in play-time order: each one plays no earlier than the
    /// one before it, and no later than any frame still waiting.
    pub fn pop_expired(&mut self, now: i128) -> (r: Option<QueuedFrame>)
        requires
            old(self).wf(),
        ensures
            final(self).wf(),
            r is Some <==> old(self)@.len() > 0 && old(self)@[0].0 <= now,
            r is None ==> final(self)@ == old(self)@ && final(self).released() == old(self).released(),
            r matches Some(f) ==> {
                &&& (f.deadline as int, f.samples@) == old(self)@[0]
                &&& final(self)@ == old(self)@.drop_first()
                &&& old(self).released() <= f.deadline
                &&& final(self).released() == f.deadline
                &&& forall|k: int|
                    0 <= k < final(self)@.len() ==> f.deadline <= #[trigger] final(self)@[k].0
            },
    {
        if self.entries.len() == 0 || self.entries[0].deadline > now {
            return None;
        }
        let f = self.entries.remove(0);
        self.released = f.deadline;
        assert(self@ =~= old(self)@.drop_first());
        assert forall|k: int| 0 <= k < self@.len() implies f.deadline <= #[trigger] self@[k].0 by {
            assert(self@[k] == old(self)@[k + 1]);
            assert(old(self)@[0].0 <= old(self)@[k + 1].0);
        }
        assert forall|i: int, j: int| 0 <= i < j < self@.len() implies self@[i].0 <= self@[j].0 by {
            assert(self@[i] == old(self)@[i + 1]);
            assert(self@[j] == old(self)@[j + 1]);
        }
        Some(f)
    }
}

/// What `next_frame` hands out from a queue at time `now`, and the queue it
/// leaves: frames whose play time has come are taken in order, those late by
/// more than their own length are dropped, and the first fresh one is returned.
pub open spec fn deliver(q: Seq<(int, Seq<i32>)>, now: int, rate: Option<u32>) -> (
    Option<Seq<i32>>,
    Seq<(int, Seq<i32>)>,
)
    decreases q.len(),
{
    if q.len() == 0 || q[0].0 > now {
        (None, q)
    } else if is_fresh(now - q[0].0, q[0].1.len() as int, rate) {
        (Some(q[0].1), q.drop_first())
    } else {
        deliver(q.drop_first(), now, rate)
    }
}

pub open spec fn samples_view(r: Option<Vec<i32>>) -> Option<Seq<i32>> {
    match r {
        Some(v) => Some(v@),
        None => None,
    }
}

/// Why a message could not be used.
#[derive(Clone, Copy, Debug, PartialEq, Eq, Structural)]
pub enum ClientError {
    /// The server streams a codec other than FLAC.
    UnsupportedCodec,
    /// The FLAC stream header does not parse.
    BadHeader,
    /// A chunk does not hold a FLAC frame.
    BadBlock,
}

/// The settings that the server announces. They travel as JSON, which is
/// read outside this library.
#[derive(Clone, Copy, Debug, PartialEq, Eq, Structural)]
pub struct SnapServerSettings {
    pub buffer_ms: u64,
    pub latency: u64,
    pub muted: bool,
    pub volume: u64,
}

/// The sample rate in the FLAC stream header `header`, as claxon reads it.
pub uninterp spec fn flac_stream_rate(header: Seq<u8>) -> Option<u32>;

/// The first FLAC frame of `payload`, as claxon decodes it: its channel count
/// and its samples, the channels one after another.
pub uninterp spec fn flac_frame(payload: Seq<u8>) -> Option<(u32, Seq<i32>)>;

/// Relies on claxon's FlacReader::new and streaminfo: the sample rate of the
/// stream whose header is `header`, or `None` when it does not parse.
#[verifier::external_body]
fn read_flac_rate(header: &[u8]) -> (r: Option<u32>)
    ensures
        r == flac_stream_rate(header@),
{
    claxon::FlacReader::new(header).ok().map(|reader| reader.streaminfo().sample_rate)
}

/// Relies on claxon's FrameReader::read_next_or_eof: the first frame of
/// `payload`, or `None` when there is none or it does not parse.
#[verifier::external_body]
fn read_flac_frame(payload: &[u8]) -> (r: Option<(u32, Vec<i32>)>)
    ensures
        r is None <==> flac_frame(payload@) is None,
        r matches Some((c, v)) ==> flac_frame(payload@) == Some((c, v@)),
{
    let mut reader = claxon::frame::FrameReader::new(std::io::Cursor::new(payload));
    match reader.read_next_or_eof(Vec::new()) {
        Ok(Some(block)) => Some((block.channels(), block.into_buffer())),
        _ => None,
    }
}

/// The magnitude bounds that keep the client's time arithmetic exact.
pub open spec fn time_diff_bound() -> int {
    0x2_0000_0000_0000_0000
}

pub open spec fn buffer_bound() -> int {
    0x400_0000_0000_0000_0000
}

pub open spec fn deadline_bound() -> int {
    0x1000_0000_0000_0000_0000
}

/// The state of a client connection that decides what happens with each
/// message: the clock offset, the server's buffer, the stream's sample rate
/// once a codec header came, the latest time seen, and the frame queue.
pub struct SnapClient {
    time_diff: i128,
    buffer: i128,
    sample_rate: Option<u32>,
    clock: i64,
    queue: FrameQueue,
}

impl SnapClient {
    /// Server clock minus client clock, as last measured.
    pub closed spec fn time_diff(&self) -> int {
        self.time_diff as int
    }

    /// How long the server asks clients to hold each chunk.
    pub closed spec fn buffer(&self) -> int {
        self.buffer as int
    }

    /// The sample rate of the stream, once a codec header was accepted.
    pub closed spec fn sample_rate(&self) -> Option<u32> {
        self.sample_rate
    }

    /// The latest time that the client was told of.
    pub closed spec fn clock(&self) -> int {
        self.clock as int
    }

    /// The frames waiting for their play time, with those play times.
    pub closed spec fn frames(&self) -> Seq<(int, Seq<i32>)> {
        self.queue@
    }

    /// The play time of the last frame released.
    pub closed spec fn released(&self) -> int {
        self.queue.released()
    }

    pub closed spec fn wf(&self) -> bool {
        &&& self.queue.wf()
        &&& self.queue.released() <= self.clock
        &&& -time_diff_bound() <= self.time_diff <= time_diff_bound()
        &&& 0 <= self.buffer <= buffer_bound()
        &&& forall|k: int|
            0 <= k < self.queue@.len() ==> -deadline_bound() <= #[trigger] self.queue@[k].0
                <= deadline_bound()
    }

    /// A client that has seen nothing yet.
    pub fn new() -> (r: SnapClient)
        ensures
            r.wf(),
            r.time_diff() == 0,
            r.buffer() == 0,
            r.sample_rate() is None,
            r.clock() == 0,
            r.frames().len() == 0,
    {
        SnapClient {
            time_diff: 0,
            buffer: 0,
            sample_rate: None,
            clock: 0,
            queue: FrameQueue::new(),
        }
    }

    /// The sample rate, once a codec header was accepted.
    pub fn rate(&self) -> (r: Option<u32>)
        ensures
            r == self.sample_rate(),
    {
        self.sample_rate
    }

    /// The clock offset in microseconds.
    pub fn clock_offset(&self) -> (r: i128)
        ensures
            r == self.time_diff(),
    {
        self.time_diff
    }

    /// The server's buffer in microseconds.
    pub fn buffer_micros(&self) -> (r: i128)
        ensures
            r == self.buffer(),
    {
        self.buffer
    }

    /// The number of frames waiting.
    pub fn queued(&self) -> (r: usize)
        ensures
            r == self.frames().len(),
    {
        self.queue.len()
    }

    /// The earliest play time waiting, so that the caller knows when to ask
    /// for the next frame.
    pub fn next_deadline(&self) -> (r: Option<i128>)
        requires
            self.wf(),
        ensures
            self.frames().len() == 0 ==> r is None,
            self.frames().len() > 0 ==> r == Some(self.frames()[0].0 as i128),
    {
        self.queue.peek_deadline()
    }

    fn observe(&mut self, now: i64)
        requires
            old(self).wf(),
        ensures
            final(self).wf(),
            final(self).clock() == if now > old(self).clock() {
                now as int
            } else {
                old(self).clock()
            },
            final(self).time_diff() == old(self).time_diff(),
            final(self).buffer() == old(self).buffer(),
            final(self).sample_rate() == old(self).sample_rate(),
            final(self).frames() == old(self).frames(),
            final(self).released() == old(self).released(),
    {
        if now > self.clock {
            self.clock = now;
        }
    }

    /// Takes the server's settings: its buffer applies to every chunk
    /// scheduled from now on. A buffer beyond `buffer_bound` is held at it.
    pub fn apply_settings(&mut self, settings: &SnapServerSettings)
        requires
            old(self).wf(),
        ensures
            final(self).wf(),
            final(self).buffer() == if settings.buffer_ms * 1000 <= buffer_bound() {
                settings.buffer_ms * 1000
            } else {
                buffer_bound()
            },
            final(self).time_diff() == old(self).time_diff(),
            final(self).sample_rate() == old(self).sample_rate(),
            final(self).clock() == old(self).clock(),
            final(self).frames() == old(self).frames(),
            final(self).released() == old(self).released(),
    {
        let micros: i128 = settings.buffer_ms as i128 * 1000;
        self.buffer = if micros <= 0x400_0000_0000_0000_0000 {
            micros
        } else {
            0x400_0000_0000_0000_0000
        };
    }

    /// Takes a Time reply: `delta` is the skew that the server measured,
    /// `sent` is when the server sent the reply (on its clock) and `received`
    /// when this client got it (on its own).
    pub fn apply_time(&mut self, delta: i64, sent: i64, received: i64)
        requires
            old(self).wf(),
        ensures
            final(self).wf(),
            final(self).time_diff() == clock_offset(delta as int, sent as int, received as int),
            final(self).buffer() == old(self).buffer(),
            final(self).sample_rate() == old(self).sample_rate(),
            final(self).clock() == old(self).clock(),
            final(self).frames() == old(self).frames(),
            final(self).released() == old(self).released(),
    {
        self.time_diff = time_diff_of(delta, sent, received);
    }

    /// Takes a codec header whose codec is named `codec` and whose FLAC
    /// stream header gave the sample rate `rate` (`None`: it did not parse).
    pub fn apply_codec_header(&mut self, codec: &String, rate: Option<u32>) -> (r: Result<
        (),
        ClientError,
    >)
        requires
            old(self).wf(),
        ensures
            final(self).wf(),
            codec@ != "flac"@ ==> r == Err::<(), ClientError>(ClientError::UnsupportedCodec)
                && final(self).sample_rate() == old(self).sample_rate(),
            codec@ == "flac"@ && rate is None ==> r == Err::<(), ClientError>(
                ClientError::BadHeader,
            ) && final(self).sample_rate() == old(self).sample_rate(),
            codec@ == "flac"@ && rate is Some ==> r is Ok && final(self).sample_rate() == rate,
            final(self).time_diff() == old(self).time_diff(),
            final(self).buffer() == old(self).buffer(),
            final(self).clock() == old(self).clock(),
            final(self).frames() == old(self).frames(),
            final(self).released() == old(self).released(),
    {
        let flac = "flac".to_owned();
        if *codec != flac {
            return Err(ClientError::UnsupportedCodec);
        }
        match rate {
            None => Err(ClientError::BadHeader),
            Some(hz) => {
                self.sample_rate = Some(hz);
                Ok(())
            },
        }
    }

    /// Schedules a frame of one channel stamped `timestamp` on the server's
    /// clock, at time `now`: it is queued to play after `play_delay` when
    /// that delay is positive, and dropped otherwise. Returns whether it was
    /// queued.
    pub fn schedule(&mut self, samples: Vec<i32>, timestamp: i64, now: i64) -> (r: bool)
        requires
            old(self).wf(),
        ensures
            final(self).wf(),
            ({
                let t = final(self).clock();
                let d = play_delay(timestamp as int, t, old(self).time_diff(), old(self).buffer());
                &&& r == (d > 0)
                &&& r ==> final(self).frames() == enqueue(old(self).frames(), (t + d, samples@))
                &&& !r ==> final(self).frames() == old(self).frames()
            }),
            final(self).clock() == if now > old(self).clock() {
                now as int
            } else {
                old(self).clock()
            },
            final(self).time_diff() == old(self).time_diff(),
            final(self).buffer() == old(self).buffer(),
            final(self).sample_rate() == old(self).sample_rate(),
            final(self).released() == old(self).released(),
    {
        self.observe(now);
        let t = self.clock as i128;
        match frame_delay(timestamp, t, self.time_diff, self.buffer) {
            None => false,
            Some(delay) => {
                let deadline = t + delay;
                let ghost before = self.queue@;
                let p = self.queue.insert(deadline, samples);
                proof {
                    before.insert_ensures(p as int, (deadline as int, samples@));
                }
                assert forall|k: int| 0 <= k < self.queue@.len() implies -deadline_bound()
                    <= #[trigger] self.queue@[k].0 <= deadline_bound() by {
                    if k < p {
                        assert(self.queue@[k] == before[k]);
                    } else if k > p {
                        assert(self.queue@[(k - 1) + 1] == before[k - 1]);
                    }
                }
                true
            },
        }
    }

    /// Hands out the next frame whose play time has come by `now`, dropping
    /// on the way those that are late by more than their own length.
    pub fn next_frame(&mut self, now: i64) -> (r: Option<Vec<i32>>)
        requires
            old(self).wf(),
        ensures
            final(self).wf(),
            final(self).clock() == if now > old(self).clock() {
                now as int
            } else {
                old(self).clock()
            },
            (samples_view(r), final(self).frames()) == deliver(
                old(self).frames(),
                final(self).clock(),
                old(self).sample_rate(),
            ),
            old(self).released() <= final(self).released() <= final(self).clock(),
            r matches Some(v) ==> old(self).frames().contains((final(self).released(), v@)),
            forall|k: int|
                0 <= k < final(self).frames().len() ==> final(self).released()
                    <= #[trigger] final(self).frames()[k].0,
            final(self).time_diff() == old(self).time_diff(),
            final(self).buffer() == old(self).buffer(),
            final(self).sample_rate() == old(self).sample_rate(),
    {
        self.observe(now);
        let t = self.clock as i128;
        let ghost q0 = self.queue@;
        let ghost mut gone: int = 0;
        loop
            invariant
                self.wf(),
                0 <= gone <= q0.len(),
                self.queue@ == q0.subrange(gone, q0.len() as int),
                old(self).queue.released() <= self.queue.released(),
                self.clock == t,
                self.clock == if now > old(self).clock {
                    now
                } else {
                    old(self).clock
                },
                self.time_diff == old(self).time_diff,
                self.buffer == old(self).buffer,
                self.sample_rate == old(self).sample_rate,
                q0 == old(self).queue@,
                deliver(self.queue@, t as int, self.sample_rate) == deliver(q0, t as int, self.sample_rate),
            decreases self.queue@.len(),
        {
            let ghost before = self.queue@;
            match self.queue.pop_expired(t) {
                None => {
                    assert(deliver(before, t as int, self.sample_rate) == (
                        None::<Seq<i32>>,
                        before,
                    ));
                    return None;
                },
                Some(f) => {
                    assert(-deadline_bound() <= before[0].0 <= deadline_bound());
                    assert(q0[gone] == before[0]);
                    proof {
                        gone = gone + 1;
                        assert(self.queue@ =~= q0.subrange(gone, q0.len() as int));
                    }
                    if fresh(t - f.deadline, f.samples.len(), self.sample_rate) {
                        assert(q0.contains((f.deadline as int, f.samples@)));
                        assert(deliver(before, t as int, self.sample_rate) == (
                            Some(f.samples@),
                            self.queue@,
                        ));
                        return Some(f.samples);
                    }
                    assert(deliver(before, t as int, self.sample_rate) == deliver(
                        self.queue@,
                        t as int,
                        self.sample_rate,
                    ));
                },
            }
        }
    }

    /// Handles one message received at `now`. A Time reply updates the clock
    /// offset; a codec header sets the sample rate; a chunk that comes after a
    /// codec header is decoded, downmixed to one channel and scheduled. Chunks
    /// before a codec header, and the other kinds, change nothing here (the
    /// JSON of settings is read outside and handed to `apply_settings`).
    pub fn process_message(&mut self, msg: &SnapMessage, now: i64) -> (r: Result<
        (),
        ClientError,
    >)
        requires
            old(self).wf(),
        ensures
            final(self).wf(),
            match msg.kind {
                SnapKind::Time { delta } => r is Ok && final(self).time_diff() == clock_offset(
                    delta as int,
                    msg.base.sent as int,
                    msg.base.received as int,
                ) && final(self).frames() == old(self).frames(),
                SnapKind::CodecHeader { codec, payload } => {
                    &&& codec@ != "flac"@ ==> r == Err::<(), ClientError>(
                        ClientError::UnsupportedCodec,
                    ) && final(self).sample_rate() == old(self).sample_rate()
                    &&& codec@ == "flac"@ && flac_stream_rate(payload@) is None ==> r == Err::<
                        (),
                        ClientError,
                    >(ClientError::BadHeader) && final(self).sample_rate() == old(self).sample_rate()
                    &&& codec@ == "flac"@ && flac_stream_rate(payload@) is Some ==> r is Ok
                        && final(self).sample_rate() == flac_stream_rate(payload@)
                    &&& final(self).frames() == old(self).frames()
                },
                SnapKind::WireChunk { timestamp, payload } => {
                    if old(self).sample_rate() is None {
                        r is Ok && final(self).frames() == old(self).frames() && final(self).clock() == old(self).clock()
                    } else {
                        match flac_frame(payload@) {
                            Some((c, block)) if c >= 1 => {
                                let t = final(self).clock();
                                let d = play_delay(
                                    timestamp as int,
                                    t,
                                    old(self).time_diff(),
                                    old(self).buffer(),
                                );
                                &&& r is Ok
                                &&& t == if now > old(self).clock() {
                                    now as int
                                } else {
                                    old(self).clock()
                                }
                                &&& d > 0 ==> final(self).frames() == enqueue(
                                    old(self).frames(),
                                    (t + d, downmix_spec(block, c as int)),
                                )
                                &&& d <= 0 ==> final(self).frames() == old(self).frames()
                            },
                            _ => r == Err::<(), ClientError>(ClientError::BadBlock)
                                && final(self).frames() == old(self).frames() && final(self).clock() == old(self).clock(),
                        }
                    }
                },
                _ => r is Ok && final(self).frames() == old(self).frames(),
            },
            match msg.kind {
                SnapKind::Time { .. } => true,
                _ => final(self).time_diff() == old(self).time_diff(),
            },
            match msg.kind {
                SnapKind::CodecHeader { .. } => true,
                _ => final(self).sample_rate() == old(self).sample_rate(),
            },
            final(self).buffer() == old(self).buffer(),
            final(self).released() == old(self).released(),
            match msg.kind {
                SnapKind::WireChunk { .. } => true,
                _ => final(self).clock() == old(self).clock(),
            },
    {
        match &msg.kind {
            SnapKind::Time { delta } => {
                self.apply_time(*delta, msg.base.sent, msg.base.received);
                Ok(())
            },
            SnapKind::CodecHeader { codec, payload } => {
                let rate = read_flac_rate(payload.as_slice());
                self.apply_codec_header(codec, rate)
            },
            SnapKind::WireChunk { timestamp, payload } => {
                if self.sample_rate.is_none() {
                    return Ok(());
                }
                match read_flac_frame(payload.as_slice()) {
                    Some((c, block)) => {
                        if c == 0 {
                            return Err(ClientError::BadBlock);
                        }
                        let mono = downmix(block, c);
                        self.schedule(mono, *timestamp, now);
                        Ok(())
                    },
                    None => Err(ClientError::BadBlock),
                }
            },
            _ => Ok(()),
        }
    }
}

} // verus!
