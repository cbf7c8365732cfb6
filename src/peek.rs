//! The peek over a translated SSE stream: heartbeats and empty chunks are
//! skipped until the first chunk with data, which is spliced back in front
//! of the rest of the stream.
use vstd::prelude::*;
use crate::text::{begins_with, occurs_in, bytes_begin_with, bytes_contain};

verus! {

/// What reading the next chunk of the stream produced.
pub enum StreamEvent {
    /// A chunk of bytes.
    Chunk(Vec<u8>),
    /// The transport failed with this message.
    Failed(String),
    /// The stream ended.
    Ended,
    /// No chunk came within the deadline.
    TimedOut,
}

/// Why the peek gave up on the current account.
pub enum PeekFailure {
    /// A chunk carried an error event.
    ErrorEvent,
    /// The stream ended before any data.
    EmptyStream,
    /// No chunk came within the deadline.
    Timeout,
    /// The transport failed with this message.
    Transport(String),
}

/// What the peek does with one event.
pub enum PeekStep {
    /// Drop the chunk and read on.
    Skip,
    /// The chunk is the first data chunk: forward it and the rest.
    Deliver,
    /// Give up and retry on another account.
    Retry(PeekFailure),
}

/// SSE whitespace: space, tab, line feed, vertical tab, form feed, carriage return.
pub open spec fn is_space(b: u8) -> bool {
    b == 32 || b == 9 || b == 10 || b == 11 || b == 12 || b == 13
}

/// The bytes after leading whitespace.
pub open spec fn trim_start(b: Seq<u8>) -> Seq<u8>
    decreases b.len(),
{
    if b.len() > 0 && is_space(b[0]) { trim_start(b.drop_first()) } else { b }
}

/// `:`
pub open spec fn comment_mark() -> Seq<u8> {
    seq![58u8]
}

/// `data: :`
pub open spec fn data_comment_mark() -> Seq<u8> {
    seq![100u8, 97u8, 116u8, 97u8, 58u8, 32u8, 58u8]
}

/// `"error"`, quotes included.
pub open spec fn error_key() -> Seq<u8> {
    seq![34u8, 101u8, 114u8, 114u8, 111u8, 114u8, 34u8]
}

/// A heartbeat: after leading whitespace the chunk starts with `:` or `data: :`.
pub open spec fn heartbeat(b: Seq<u8>) -> bool {
    begins_with(trim_start(b), comment_mark()) || begins_with(trim_start(b), data_comment_mark())
}

/// A chunk that carries an error event.
pub open spec fn error_event(b: Seq<u8>) -> bool {
    occurs_in(b, error_key())
}

/// A chunk that the peek skips.
pub open spec fn skipped(b: Seq<u8>) -> bool {
    b.len() == 0 || heartbeat(b)
}

/// A chunk that ends the peek with success.
pub open spec fn deliverable(b: Seq<u8>) -> bool {
    !skipped(b) && !error_event(b)
}

/// The peek's decision on one event.
pub open spec fn step_for(e: StreamEvent) -> PeekStep {
    match e {
        StreamEvent::Chunk(b) => if skipped(b@) {
            PeekStep::Skip
        } else if error_event(b@) {
            PeekStep::Retry(PeekFailure::ErrorEvent)
        } else {
            PeekStep::Deliver
        },
        StreamEvent::Failed(m) => PeekStep::Retry(PeekFailure::Transport(m)),
        StreamEvent::Ended => PeekStep::Retry(PeekFailure::EmptyStream),
        StreamEvent::TimedOut => PeekStep::Retry(PeekFailure::Timeout),
    }
}

/// The position of the first leading byte that is not whitespace.
fn first_non_space(b: &[u8]) -> (r: usize)
    ensures
        r <= b@.len(),
        trim_start(b@) == b@.subrange(r as int, b@.len() as int),
{
    let mut i: usize = 0;
    assert(b@.subrange(0, b@.len() as int) =~= b@);
    while i < b.len() && (b[i] == 32 || b[i] == 9 || b[i] == 10 || b[i] == 11 || b[i] == 12 || b[i] == 13)
        invariant
            i <= b@.len(),
            trim_start(b@) == trim_start(b@.subrange(i as int, b@.len() as int)),
        decreases b@.len() - i,
    {
        assert(b@.subrange(i as int, b@.len() as int).drop_first() =~= b@.subrange(i + 1, b@.len() as int));
        i = i + 1;
    }
    proof {
        lemma_trim_stops(b@.subrange(i as int, b@.len() as int));
    }
    i
}

proof fn lemma_trim_stops(b: Seq<u8>)
    requires
        b.len() == 0 || !is_space(b[0]),
    ensures
        trim_start(b) == b,
{
}

/// Whether a chunk is a heartbeat.
pub fn is_heartbeat(b: &[u8]) -> (r: bool)
    ensures
        r == heartbeat(b@),
{
    let start = first_non_space(b);
    let rest = slice_from(b, start);
    let colon: Vec<u8> = vec![58u8];
    let data_colon: Vec<u8> = vec![100u8, 97u8, 116u8, 97u8, 58u8, 32u8, 58u8];
    assert(colon@ =~= comment_mark());
    assert(data_colon@ =~= data_comment_mark());
    bytes_begin_with(rest, colon.as_slice()) || bytes_begin_with(rest, data_colon.as_slice())
}

/// The bytes of `b` from `start` on.
fn slice_from(b: &[u8], start: usize) -> (r: &[u8])
    requires
        start <= b@.len(),
    ensures
        r@ == b@.subrange(start as int, b@.len() as int),
{
    vstd::slice::slice_subrange(b, start, b.len())
}

/// Whether a chunk carries an error event.
pub fn is_error_event(b: &[u8]) -> (r: bool)
    ensures
        r == error_event(b@),
{
    let key: Vec<u8> = vec![34u8, 101u8, 114u8, 114u8, 111u8, 114u8, 34u8];
    assert(key@ =~= error_key());
    bytes_contain(b, key.as_slice())
}

/// The peek's decision on one event.
pub fn peek_step(e: &StreamEvent) -> (r: PeekStep)
    ensures
        r == step_for(*e),
{
    match e {
        StreamEvent::Chunk(b) => {
            if b.len() == 0 || is_heartbeat(b.as_slice()) {
                PeekStep::Skip
            } else if is_error_event(b.as_slice()) {
                PeekStep::Retry(PeekFailure::ErrorEvent)
            } else {
                PeekStep::Deliver
            }
        },
        StreamEvent::Failed(m) => PeekStep::Retry(PeekFailure::Transport(m.clone())),
        StreamEvent::Ended => PeekStep::Retry(PeekFailure::EmptyStream),
        StreamEvent::TimedOut => PeekStep::Retry(PeekFailure::Timeout),
    }
}

/// The message recorded as the last error when the peek gives up.
pub open spec fn failure_text(f: PeekFailure) -> Seq<char> {
    match f {
        PeekFailure::ErrorEvent => "Error event during peek"@,
        PeekFailure::EmptyStream => "Empty response stream during peek"@,
        PeekFailure::Timeout => "Timeout waiting for first data"@,
        PeekFailure::Transport(m) => "Stream error during peek: "@ + m@,
    }
}

/// The message recorded as the last error when the peek gives up.
pub fn failure_message(f: &PeekFailure) -> (r: String)
    ensures
        r@ == failure_text(*f),
{
    match f {
        PeekFailure::ErrorEvent => String::from_str("Error event during peek"),
        PeekFailure::EmptyStream => String::from_str("Empty response stream during peek"),
        PeekFailure::Timeout => String::from_str("Timeout waiting for first data"),
        PeekFailure::Transport(m) => {
            let mut s = String::from_str("Stream error during peek: ");
            s.append(m.as_str());
            s
        },
    }
}

/// The position of the first chunk that is not skipped, at or after `i`.
pub open spec fn first_kept(cs: Seq<Seq<u8>>, i: int) -> int
    decreases cs.len() - i,
{
    if i < 0 || i >= cs.len() {
        cs.len() as int
    } else if skipped(cs[i]) {
        first_kept(cs, i + 1)
    } else {
        i
    }
}

/// The views of a list of chunks.
pub open spec fn chunk_views(cs: Seq<Vec<u8>>) -> Seq<Seq<u8>> {
    cs.map_values(|c: Vec<u8>| c@)
}

/// What the client receives from a translated stream that yields the chunks
/// `cs` and then ends: everything from the first data chunk on, or the
/// reason the peek gives up.
pub open spec fn delivered(cs: Seq<Seq<u8>>) -> Result<Seq<Seq<u8>>, PeekFailure> {
    let j = first_kept(cs, 0);
    if j >= cs.len() {
        Err(PeekFailure::EmptyStream)
    } else if error_event(cs[j]) {
        Err(PeekFailure::ErrorEvent)
    } else {
        Ok(cs.subrange(j, cs.len() as int))
    }
}

fn copy_chunk(c: &Vec<u8>) -> (r: Vec<u8>)
    ensures
        r@ == c@,
{
    vstd::slice::slice_to_vec(c.as_slice())
}

/// The chunks from position `j` on.
fn splice_from(chunks: &Vec<Vec<u8>>, j: usize) -> (r: Vec<Vec<u8>>)
    requires
        j < chunks@.len(),
    ensures
        chunk_views(r@) == chunk_views(chunks@).subrange(j as int, chunks@.len() as int),
{
    let ghost cv = chunk_views(chunks@);
    let mut out: Vec<Vec<u8>> = Vec::new();
    let mut k: usize = j;
    while k < chunks.len()
        invariant
            cv == chunk_views(chunks@),
            j <= k <= chunks@.len(),
            chunk_views(out@) == cv.subrange(j as int, k as int),
        decreases chunks@.len() - k,
    {
        let c = copy_chunk(&chunks[k]);
        assert(c@ == cv[k as int]);
        let ghost before = out@;
        out.push(c);
        assert(out@ == before.push(c));
        assert(chunk_views(out@) =~= chunk_views(before).push(c@));
        assert(chunk_views(out@) =~= cv.subrange(j as int, k + 1));
        k = k + 1;
    }
    out
}

/// Runs the peek over a stream that yields `chunks` and then ends, and
/// splices the first data chunk back in front of the rest.
pub fn peek_and_splice(chunks: &Vec<Vec<u8>>) -> (r: Result<Vec<Vec<u8>>, PeekFailure>)
    ensures
        match r {
            Ok(out) => delivered(chunk_views(chunks@)) == Ok::<Seq<Seq<u8>>, PeekFailure>(chunk_views(out@)),
            Err(f) => delivered(chunk_views(chunks@)) == Err::<Seq<Seq<u8>>, PeekFailure>(f),
        },
{
    let ghost cv = chunk_views(chunks@);
    let mut i: usize = 0;
    while i < chunks.len()
        invariant
            cv == chunk_views(chunks@),
            i <= chunks@.len(),
            first_kept(cv, 0) == first_kept(cv, i as int),
        decreases chunks@.len() - i,
    {
        let e = StreamEvent::Chunk(copy_chunk(&chunks[i]));
        match peek_step(&e) {
            PeekStep::Skip => {},
            PeekStep::Deliver => {
                return Ok(splice_from(chunks, i));
            },
            PeekStep::Retry(f) => {
                return Err(f);
            },
        }
        i = i + 1;
    }
    Err(PeekFailure::EmptyStream)
}

/// A stream whose first chunk already carries data reaches the client
/// unchanged: nothing is dropped, reordered or repeated.
pub proof fn lemma_well_formed_stream_unchanged(cs: Seq<Seq<u8>>)
    requires
        cs.len() > 0,
        deliverable(cs[0]),
    ensures
        delivered(cs) == Ok::<Seq<Seq<u8>>, PeekFailure>(cs),
{
    assert(cs.subrange(0, cs.len() as int) =~= cs);
}

/// The peek never forwards a heartbeat first, and a stream with no
/// heartbeat after its first data chunk reaches the client with none.
pub proof fn lemma_no_heartbeat_delivered(cs: Seq<Seq<u8>>)
    ensures
        delivered(cs) matches Ok(out) ==> out.len() > 0 && !heartbeat(out[0]),
        delivered(cs) matches Ok(out) ==> (
            (forall|k: int| first_kept(cs, 0) < k < cs.len() ==> !heartbeat(#[trigger] cs[k]))
            ==> forall|k: int| 0 <= k < out.len() ==> !heartbeat(#[trigger] out[k])),
{
    lemma_first_kept(cs, 0);
}

proof fn lemma_first_kept(cs: Seq<Seq<u8>>, i: int)
    requires
        0 <= i,
    ensures
        i <= first_kept(cs, i) <= cs.len() || (i > cs.len() && first_kept(cs, i) == cs.len()),
        first_kept(cs, i) < cs.len() ==> !skipped(cs[first_kept(cs, i)]),
    decreases cs.len() - i,
{
    if i < cs.len() && skipped(cs[i]) {
        lemma_first_kept(cs, i + 1);
    }
}

} // verus!
