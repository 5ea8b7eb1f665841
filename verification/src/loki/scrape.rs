//! One scrape: drain every queue into a stream, encode the streams that
//! hold an entry as one batch, compress it, hand it to the transport and
//! read the answer.
use crate::errors::ScrapeError;
use crate::log::{lemma_queue_wf, lemma_same_shape_wf, within, Log, LogMetric, LogMetricView};
use crate::loki::logproto::{
    emptied, request_bytes, stream_of, streams_view, PushRequest, Stream, StreamView,
};
use vstd::prelude::*;

verus! {

/// The greatest number of bytes that can be compressed in one block.
pub const MAX_INPUT_SIZE: u64 = 0xffff_ffff;

/// The room that compressing `input_len` bytes may take: 32 bytes more
/// than the input and a sixth of it, or 0 where the input, or that room,
/// is larger than a block can be.
pub open spec fn compressed_bound(input_len: usize) -> usize {
    if input_len > MAX_INPUT_SIZE {
        0
    } else if 32 + input_len + input_len / 6 > MAX_INPUT_SIZE {
        0
    } else {
        (32 + input_len + input_len / 6) as usize
    }
}

/// `snap::max_compress_len`, as its source computes it.
pub assume_specification[ snap::max_compress_len ](input_len: usize) -> (max: usize)
    ensures
        max == compressed_bound(input_len),
;

/// The Snappy block that `snap::Encoder::compress` makes of `input`.
pub uninterp spec fn snappy_block(input: Seq<u8>) -> Seq<u8>;

/// `snap::Encoder::compress` on a fresh encoder. The crate refuses an
/// input for which `max_compress_len` is 0 and an output shorter than
/// `max_compress_len`; else it writes the block to the front of `output`
/// and returns its length. The length of `output` stays.
#[verifier::external_body]
fn snappy_compress(input: &[u8], output: &mut [u8]) -> (size: Result<usize, snap::Error>)
    ensures
        final(output)@.len() == old(output)@.len(),
        size is Ok <==> compressed_bound(input@.len() as usize) != 0 && compressed_bound(
            input@.len() as usize,
        ) <= old(output)@.len(),
        size is Ok ==> size->Ok_0 <= final(output)@.len() && final(output)@.take(
            size->Ok_0 as int,
        ) == snappy_block(input@),
{
    snap::Encoder::new().compress(input, output)
}

/// What the transport reports when no answer came from the store.
#[derive(Debug)]
pub struct SyntheticError {
    pub status_text: String,
    pub status: u16,
    pub body_text: String,
}

/// The answer to a push, as the transport reports it.
#[derive(Debug)]
pub struct HttpReply {
    /// Whether the status reports an error of the client or the server.
    pub error: bool,
    pub status: u16,
    pub body: String,
    /// Set when the transport failed and made the answer up.
    pub synthetic_error: Option<SyntheticError>,
}

/// One push for the transport to carry out: post `body` to `url`, within
/// the given limits in milliseconds where one is set.
pub struct PushCall<'a> {
    pub url: &'a str,
    pub body: &'a [u8],
    pub timeout_connect_ms: Option<u64>,
    pub timeout_write_ms: Option<u64>,
    pub timeout_read_ms: Option<u64>,
}

/// The streams that the given queues become when they are drained, one
/// for each queue, in order.
pub open spec fn streams_of(queues: Seq<LogMetricView>) -> Seq<StreamView> {
    Seq::new(queues.len(), |i: int| stream_of(queues[i]))
}

/// The given queues, each without its messages.
pub open spec fn emptied_all(queues: Seq<LogMetricView>) -> Seq<LogMetricView> {
    Seq::new(queues.len(), |i: int| emptied(queues[i]))
}

/// The streams of `streams` that hold an entry, in order.
pub open spec fn non_empty(streams: Seq<StreamView>) -> Seq<StreamView>
    decreases streams.len(),
{
    if streams.len() == 0 {
        Seq::empty()
    } else if streams.last().entries.len() == 0 {
        non_empty(streams.drop_last())
    } else {
        non_empty(streams.drop_last()).push(streams.last())
    }
}

/// Queues that hold no message make streams of which none holds an entry.
pub proof fn lemma_empty_queues_empty_batch(queues: Seq<LogMetricView>)
    requires
        forall|i: int| 0 <= i < queues.len() ==> (#[trigger] queues[i]).messages.len() == 0,
    ensures
        non_empty(streams_of(queues)).len() == 0,
    decreases queues.len(),
{
    if queues.len() > 0 {
        lemma_empty_queues_empty_batch(queues.drop_last());
        assert(streams_of(queues).drop_last() =~= streams_of(queues.drop_last()));
    }
}

/// What a push that compressed to `size` bytes comes to, given the answer:
/// the size where the store took the batch, else the failure.
pub open spec fn concluded(size: usize, reply: HttpReply) -> Result<usize, ScrapeError> {
    if reply.error {
        Err(ScrapeError::Status { status: reply.status, body: reply.body })
    } else {
        match reply.synthetic_error {
            Some(failure) => Err(
                ScrapeError::Transport {
                    status_text: failure.status_text,
                    status: failure.status,
                    body: failure.body_text,
                },
            ),
            None => Ok(size),
        }
    }
}

/// Reads the answer to a push that compressed to `size` bytes.
pub fn conclude(size: usize, reply: HttpReply) -> (sent: Result<usize, ScrapeError>)
    ensures
        sent == concluded(size, reply),
{
    if reply.error {
        return Err(ScrapeError::Status { status: reply.status, body: reply.body });
    }
    match reply.synthetic_error {
        Some(failure) => Err(
            ScrapeError::Transport {
                status_text: failure.status_text,
                status: failure.status,
                body: failure.body_text,
            },
        ),
        None => Ok(size),
    }
}

/// Keeps the streams that hold an entry.
pub fn keep_non_empty(streams: Vec<Stream>) -> (kept: Vec<Stream>)
    ensures
        streams_view(kept@) == non_empty(streams_view(streams@)),
{
    let ghost all = streams_view(streams@);
    let mut kept: Vec<Stream> = Vec::new();
    proof {
        assert(all.take(0) =~= Seq::empty());
    }
    for stream in it: streams
        invariant
            it.seq() == streams@,
            all == streams_view(streams@),
            streams_view(kept@) == non_empty(all.take(it.index() as int)),
    {
        let ghost held = streams_view(kept@);
        let ghost done = it.index() as int;
        proof {
            assert(stream@ == all[done]);
            assert(all.take(done + 1).drop_last() =~= all.take(done));
            assert(all.take(done + 1).last() == all[done]);
        }
        if stream.entries.len() > 0 {
            kept.push(stream);
            proof {
                assert(streams_view(kept@) =~= held.push(stream@));
            }
        }
    }
    proof {
        assert(all.take(all.len() as int) =~= all);
    }
    kept
}

/// Drains every queue of `registry` into a stream, in the order of the
/// queues. Every queue is left empty.
pub fn drain_streams(registry: &mut Log) -> (streams: Vec<Stream>)
    requires
        old(registry).wf(),
    ensures
        final(registry).wf(),
        final(registry)@.same_shape(old(registry)@),
        final(registry)@.queues() == emptied_all(old(registry)@.queues()),
        streams_view(streams@) == streams_of(old(registry)@.queues()),
{
    let drain = |metric: &mut LogMetric| -> (stream: Stream)
        requires
            old(metric)@.wf(),
        ensures
            stream@ == stream_of(old(metric)@),
            final(metric)@ == emptied(old(metric)@),
        {
            Stream::from(metric)
        };
    let streams = registry.map(drain);
    proof {
        let before = old(registry)@.queues();
        let after = registry@.queues();
        assert forall|i: int| 0 <= i < before.len() implies #[trigger] streams_view(streams@)[i]
            == stream_of(before[i]) by {
            assert(within(i, streams@.len() as int));
        }
        assert forall|i: int| 0 <= i < before.len() implies #[trigger] after[i] == emptied(
            before[i],
        ) by {
            assert(within(i, streams@.len() as int));
        }
        assert(after =~= emptied_all(before));
        assert(streams_view(streams@) =~= streams_of(before));
        assert forall|i: int| 0 <= i < after.len() implies (#[trigger] after[i]).wf() by {
            lemma_queue_wf(old(registry)@, i);
        }
        lemma_same_shape_wf(old(registry)@, registry@);
    }
    streams
}

/// Drains, encodes, compresses and pushes, with the limits and the place
/// that it was made with.
pub struct LokiScrapeProcess {
    loki_url: String,
    timeout_connect_ms: Option<u64>,
    timeout_write_ms: Option<u64>,
    timeout_read_ms: Option<u64>,
    buf_in: Vec<u8>,
    buf_out: Vec<u8>,
}

/// What a scrape process was made with, as mathematical values.
pub struct LokiScrapeProcessView {
    pub loki_url: Seq<char>,
    pub timeout_connect_ms: Option<u64>,
    pub timeout_write_ms: Option<u64>,
    pub timeout_read_ms: Option<u64>,
}

impl View for LokiScrapeProcess {
    type V = LokiScrapeProcessView;

    closed spec fn view(&self) -> LokiScrapeProcessView {
        LokiScrapeProcessView {
            loki_url: self.loki_url@,
            timeout_connect_ms: self.timeout_connect_ms,
            timeout_write_ms: self.timeout_write_ms,
            timeout_read_ms: self.timeout_read_ms,
        }
    }
}

impl LokiScrapeProcessView {
    /// Whether `call` goes to the place and keeps the limits of a process
    /// with these settings.
    pub open spec fn addresses(self, call: PushCall) -> bool {
        &&& call.url@ == self.loki_url
        &&& call.timeout_connect_ms == self.timeout_connect_ms
        &&& call.timeout_write_ms == self.timeout_write_ms
        &&& call.timeout_read_ms == self.timeout_read_ms
    }

    /// Whether `call` is the push of `body` that a process with these
    /// settings makes.
    pub open spec fn makes(self, call: PushCall, body: Seq<u8>) -> bool {
        &&& self.addresses(call)
        &&& call.body@ == body
    }
}

/// The size of the buffers that a scrape process starts with.
pub const BUFFER_SIZE: usize = 65536;

impl LokiScrapeProcess {
    /// A process that pushes to `loki_url`.
    pub fn new(
        loki_url: String,
        timeout_connect_ms: Option<u64>,
        timeout_write_ms: Option<u64>,
        timeout_read_ms: Option<u64>,
    ) -> (process: Self)
        ensures
            process@ == (LokiScrapeProcessView {
                loki_url: loki_url@,
                timeout_connect_ms,
                timeout_write_ms,
                timeout_read_ms,
            }),
    {
        LokiScrapeProcess {
            loki_url,
            timeout_connect_ms,
            timeout_write_ms,
            timeout_read_ms,
            buf_in: Vec::with_capacity(BUFFER_SIZE),
            buf_out: Vec::with_capacity(BUFFER_SIZE),
        }
    }

    /// Encodes and compresses `streams` into the process's buffer and
    /// returns the number of bytes of the result. Fails where the encoded
    /// streams are more than one block can take, and only there.
    fn pack(&mut self, streams: Vec<Stream>) -> (size: Result<usize, ScrapeError>)
        ensures
            final(self)@ == old(self)@,
            size is Ok <==> compressed_bound(
                request_bytes(streams_view(streams@)).len() as usize,
            ) != 0,
            size is Ok ==> final(self).buf_out@ == snappy_block(
                request_bytes(streams_view(streams@)),
            ) && size->Ok_0 == final(self).buf_out@.len(),
            size is Err ==> size->Err_0 is CompressError,
    {
        let data = PushRequest::from(streams);
        self.buf_in.clear();
        self.buf_out.clear();
        data.write_message(&mut self.buf_in)?;
        proof {
            assert(self.buf_in@ =~= request_bytes(data@));
        }
        self.buf_out.resize(snap::max_compress_len(self.buf_in.len()), 0u8);
        let size = match snappy_compress(self.buf_in.as_slice(), self.buf_out.as_mut_slice()) {
            Ok(size) => size,
            Err(e) => {
                return Err(ScrapeError::CompressError(e));
            },
        };
        self.buf_out.truncate(size);
        Ok(size)
    }

    /// Sends `items` as one batch. Streams without an entry are left out;
    /// where none is left, returns 0 without a call of `post`. Else the
    /// batch is encoded and compressed. A batch too large for one block
    /// fails to compress, and `post` is not called. Every other batch is
    /// handed to `post` once, and the result is the size of the compressed
    /// batch where the answer reports no failure, else the failure that
    /// it reports.
    pub fn send<F: FnOnce(PushCall) -> HttpReply>(&mut self, items: Vec<Stream>, post: F) -> (sent:
        Result<usize, ScrapeError>)
        requires
            non_empty(streams_view(items@)).len() > 0 ==> forall|call: PushCall|
                old(self)@.addresses(call) ==> #[trigger] call_requires(post, (call,)),
        ensures
            final(self)@ == old(self)@,
            non_empty(streams_view(items@)).len() == 0 ==> sent == Ok::<usize, ScrapeError>(0),
            non_empty(streams_view(items@)).len() > 0 ==> {
                let encoded = request_bytes(non_empty(streams_view(items@)));
                &&& !(sent is Err && sent->Err_0 is SerializeError)
                &&& (sent is Err && sent->Err_0 is CompressError) <==> compressed_bound(
                    encoded.len() as usize,
                ) == 0
                &&& compressed_bound(encoded.len() as usize) != 0 ==> exists|
                    call: PushCall,
                    reply: HttpReply,
                |
                    #![trigger call_ensures(post, (call,), reply)]
                    old(self)@.makes(call, snappy_block(encoded)) && call_ensures(
                        post,
                        (call,),
                        reply,
                    ) && sent == concluded(snappy_block(encoded).len() as usize, reply)
            },
    {
        let streams = keep_non_empty(items);
        if streams.len() == 0 {
            return Ok(0);
        }
        let size = self.pack(streams)?;
        let call = PushCall {
            url: self.loki_url.as_str(),
            body: self.buf_out.as_slice(),
            timeout_connect_ms: self.timeout_connect_ms,
            timeout_write_ms: self.timeout_write_ms,
            timeout_read_ms: self.timeout_read_ms,
        };
        let reply = post(call);
        conclude(size, reply)
    }
}

/// Where to push, how often, and within which limits.
pub struct LokiScrapeConfig {
    loki_url: String,
    scrape_interval_ms: u64,
    timeout_connect_ms: Option<u64>,
    timeout_write_ms: Option<u64>,
    timeout_read_ms: Option<u64>,
}

/// What a scrape configuration holds, as mathematical values.
pub struct LokiScrapeConfigView {
    pub loki_url: Seq<char>,
    pub scrape_interval_ms: u64,
    pub timeout_connect_ms: Option<u64>,
    pub timeout_write_ms: Option<u64>,
    pub timeout_read_ms: Option<u64>,
}

impl View for LokiScrapeConfig {
    type V = LokiScrapeConfigView;

    closed spec fn view(&self) -> LokiScrapeConfigView {
        LokiScrapeConfigView {
            loki_url: self.loki_url@,
            scrape_interval_ms: self.scrape_interval_ms,
            timeout_connect_ms: self.timeout_connect_ms,
            timeout_write_ms: self.timeout_write_ms,
            timeout_read_ms: self.timeout_read_ms,
        }
    }
}

impl LokiScrapeConfig {
    /// A configuration that pushes to `loki_url` every `scrape_interval_ms`
    /// milliseconds, within the given limits in milliseconds where one is
    /// set.
    pub fn new(
        loki_url: String,
        scrape_interval_ms: u64,
        timeout_connect_ms: Option<u64>,
        timeout_write_ms: Option<u64>,
        timeout_read_ms: Option<u64>,
    ) -> (config: Self)
        ensures
            config@ == (LokiScrapeConfigView {
                loki_url: loki_url@,
                scrape_interval_ms,
                timeout_connect_ms,
                timeout_write_ms,
                timeout_read_ms,
            }),
    {
        LokiScrapeConfig {
            loki_url,
            scrape_interval_ms,
            timeout_connect_ms,
            timeout_write_ms,
            timeout_read_ms,
        }
    }

    /// The time between two scrapes, in milliseconds.
    pub fn get_scrape_interval(&self) -> (interval_ms: u64)
        ensures
            interval_ms == self@.scrape_interval_ms,
    {
        self.scrape_interval_ms
    }

    /// A scrape process with the place and the limits of this
    /// configuration.
    pub fn get_scrape_process(&self) -> (process: LokiScrapeProcess)
        ensures
            process@ == (LokiScrapeProcessView {
                loki_url: self@.loki_url,
                timeout_connect_ms: self@.timeout_connect_ms,
                timeout_write_ms: self@.timeout_write_ms,
                timeout_read_ms: self@.timeout_read_ms,
            }),
    {
        LokiScrapeProcess::new(
            self.loki_url.clone(),
            self.timeout_connect_ms,
            self.timeout_write_ms,
            self.timeout_read_ms,
        )
    }
}

} // verus!
