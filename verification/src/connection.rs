//! Frame buffer and exact-match receiver for one connection.
//!
//! Bytes read from the peer accumulate in a [`FrameBuffer`]; matching
//! against an expected message is purely length- and content-exact, with
//! no delimiters or framing of its own.

use vstd::prelude::*;

verus! {

/// Ways receiving or sending a message can go wrong.
#[derive(Debug, PartialEq)]
pub enum MessageError {
    /// Not enough data is available to parse a message.
    Incomplete,
    /// Messages do not match.
    NotEqual,
    /// Error in reading or writing to the underlying buffer.
    BufferError,
    /// Any other failure, described by its message.
    Other(String),
}

impl MessageError {
    /// What [`MessageError::message`] returns.
    pub open spec fn message_spec(&self) -> Seq<char> {
        match self {
            MessageError::Incomplete => "incomplete message in stream"@,
            MessageError::NotEqual => "messages do not match"@,
            MessageError::BufferError => "error in reading or writing to buffer"@,
            MessageError::Other(s) => s@,
        }
    }

    /// A human-readable description of the error.
    pub fn message(&self) -> (r: String)
        ensures
            r@ == self.message_spec(),
    {
        match self {
            MessageError::Incomplete => "incomplete message in stream".to_owned(),
            MessageError::NotEqual => "messages do not match".to_owned(),
            MessageError::BufferError => "error in reading or writing to buffer".to_owned(),
            MessageError::Other(s) => s.clone(),
        }
    }
}

/// Per-connection accumulator for bytes read from the peer.
///
/// It grows by appending socket reads and shrinks by removing the
/// consumed prefix after a successful match; it is never shared across
/// connections.
pub struct FrameBuffer {
    buf: Vec<u8>,
}

impl View for FrameBuffer {
    type V = Seq<u8>;

    closed spec fn view(&self) -> Seq<u8> {
        self.buf@
    }
}

impl FrameBuffer {
    /// An empty buffer for a freshly accepted connection.
    pub fn new() -> (r: FrameBuffer)
        ensures
            r@ == Seq::<u8>::empty(),
    {
        FrameBuffer { buf: Vec::new() }
    }

    /// How many bytes are currently buffered.
    pub fn len(&self) -> (r: usize)
        ensures
            r == self@.len(),
    {
        self.buf.len()
    }

    /// Whether no bytes are currently buffered.
    pub fn is_empty(&self) -> (r: bool)
        ensures
            r == (self@.len() == 0),
    {
        self.buf.len() == 0
    }

    /// Appends one socket read to the buffer.
    pub fn fill(&mut self, chunk: &Vec<u8>)
        ensures
            final(self)@ == old(self)@ + chunk@,
    {
        let mut i: usize = 0;
        while i < chunk.len()
            invariant
                i <= chunk.len(),
                self@ == old(self)@ + chunk@.take(i as int),
            decreases chunk.len() - i,
        {
            self.buf.push(chunk[i]);
            i = i + 1;
            assert(chunk@.take(i as int) == chunk@.take(i - 1).push(chunk@[i - 1]));
        }
        assert(chunk@.take(chunk.len() as int) == chunk@);
    }

    /// Compares the buffered bytes against one expected message.
    ///
    /// With fewer buffered bytes than expected the outcome is
    /// `Ok(None)`: the caller must read more. Otherwise the first
    /// `expected.len()` buffered bytes decide: equal to `expected`, they
    /// are consumed and `Ok(Some(expected.len()))` is returned; different,
    /// the buffer is left untouched and the outcome is
    /// `Err(MessageError::NotEqual)`.
    pub fn check_recv(&mut self, expected: &Vec<u8>) -> (r: Result<Option<usize>, MessageError>)
        ensures
            old(self)@.len() < expected@.len() ==> (r matches Ok(None) && final(self)@ == old(
                self,
            )@),
            (old(self)@.len() >= expected@.len() && old(self)@.take(expected@.len() as int)
                == expected@) ==> (r matches Ok(Some(n)) && n == expected@.len() && final(self)@
                == old(self)@.skip(expected@.len() as int)),
            (old(self)@.len() >= expected@.len() && old(self)@.take(expected@.len() as int)
                != expected@) ==> (r matches Err(MessageError::NotEqual) && final(self)@ == old(
                self,
            )@),
    {
        let expected_len = expected.len();
        if self.buf.len() < expected_len {
            return Ok(None);
        }
        let mut i: usize = 0;
        while i < expected_len
            invariant
                i <= expected_len,
                expected_len == expected@.len(),
                expected_len <= self.buf@.len(),
                self@ == old(self)@,
                forall|j: int| 0 <= j < i ==> self.buf@[j] == expected@[j],
            decreases expected_len - i,
        {
            if self.buf[i] != expected[i] {
                assert(self@.take(expected@.len() as int)[i as int] != expected@[i as int]);
                return Err(MessageError::NotEqual);
            }
            i = i + 1;
        }
        assert(self@.take(expected_len as int) =~= expected@);
        let rest = self.buf.split_off(expected_len);
        self.buf = rest;
        Ok(Some(expected_len))
    }

    /// Receives one expected message from a stream delivered as chunks.
    ///
    /// The chunks from `pos` on are the successive socket reads still to
    /// come; the end of the list is the peer closing. The loop draws
    /// chunks into the buffer until a match is decided, exactly as the
    /// live receive path does around a socket. The outcome and what the
    /// connection still holds afterwards depend only on the bytes
    /// available — buffered plus still to come — never on how they were
    /// split into reads.
    pub fn recv(
        &mut self,
        expected: &Vec<u8>,
        chunks: &Vec<Vec<u8>>,
        pos: &mut usize,
    ) -> (r: Result<Option<usize>, MessageError>)
        requires
            *old(pos) <= chunks@.len(),
            forall|i: int| 0 <= i < chunks@.len() ==> (#[trigger] chunks@[i])@.len() > 0,
        ensures
            *old(pos) <= *final(pos) <= chunks@.len(),
            ({
                let avail = old(self)@ + flatten_from(chunks_view(chunks@), *old(pos) as int);
                &&& match r {
                    Ok(Some(n)) => recv_end(avail, expected@) is Matched && n == expected@.len(),
                    Ok(None) => recv_end(avail, expected@) is Closed,
                    Err(MessageError::NotEqual) => recv_end(avail, expected@) is Mismatch,
                    Err(MessageError::Other(s)) => recv_end(avail, expected@) is Reset && s@
                        == "connection reset by peer"@,
                    _ => false,
                }
                &&& final(self)@ + flatten_from(chunks_view(chunks@), *final(pos) as int)
                    == recv_rem(avail, expected@)
            }),
    {
        let ghost avail = self@ + flatten_from(chunks_view(chunks@), *pos as int);
        loop
            invariant
                *pos <= chunks@.len(),
                self@ + flatten_from(chunks_view(chunks@), *pos as int) == avail,
                self@ == avail.take(self@.len() as int),
                *old(pos) <= *pos,
                avail == old(self)@ + flatten_from(chunks_view(chunks@), *old(pos) as int),
                forall|i: int| 0 <= i < chunks@.len() ==> (#[trigger] chunks@[i])@.len() > 0,
            decreases chunks@.len() - *pos,
        {
            let ghost buf_pre = self@;
            match self.check_recv(expected) {
                Ok(Some(n)) => {
                    proof {
                        let l = expected@.len() as int;
                        lemma_concat_take_skip(
                            buf_pre,
                            flatten_from(chunks_view(chunks@), *pos as int),
                            l,
                        );
                        assert(avail.take(l) == buf_pre.take(l));
                        assert(self@ + flatten_from(chunks_view(chunks@), *pos as int)
                            =~= avail.skip(l));
                    }
                    return Ok(Some(n));
                },
                Err(e) => {
                    proof {
                        let l = expected@.len() as int;
                        lemma_concat_take_skip(
                            buf_pre,
                            flatten_from(chunks_view(chunks@), *pos as int),
                            l,
                        );
                        assert(avail.take(l) == buf_pre.take(l));
                    }
                    return Err(e);
                },
                Ok(None) => {
                    if *pos == chunks.len() {
                        proof {
                            lemma_flatten_from_end(chunks_view(chunks@));
                            assert(avail =~= self@);
                        }
                        return self.close_outcome();
                    }
                    proof {
                        lemma_flatten_from_unfold(chunks_view(chunks@), *pos as int);
                    }
                    let ghost rest = flatten_from(chunks_view(chunks@), *pos as int + 1);
                    self.fill(&chunks[*pos]);
                    *pos = *pos + 1;
                    proof {
                        assert(self@ + rest =~= avail);
                        assert(self@ =~= avail.take(self@.len() as int));
                    }
                },
            }
        }
    }

    /// Classifies the moment the peer stops sending: a clean close when
    /// nothing is buffered (`Ok(None)`, no message), a reset when
    /// unconsumed bytes remain with no more to come.
    pub fn close_outcome(&self) -> (r: Result<Option<usize>, MessageError>)
        ensures
            self@.len() == 0 ==> r matches Ok(None),
            self@.len() > 0 ==> (r matches Err(MessageError::Other(s)) && s@
                == "connection reset by peer"@),
    {
        if self.buf.len() == 0 {
            Ok(None)
        } else {
            Err(MessageError::Other("connection reset by peer".to_owned()))
        }
    }
}

/// How one receive ends, as a function of the bytes available on the
/// stream and the expected message.
#[derive(Clone, Copy, Debug, PartialEq, Eq, Structural)]
pub enum RecvEnd {
    /// Enough bytes arrived and the prefix equals the expected message.
    Matched,
    /// Enough bytes arrived and the prefix differs.
    Mismatch,
    /// The peer closed cleanly before any byte of the message.
    Closed,
    /// The peer closed with a partial message left behind.
    Reset,
}

/// The outcome of receiving `expected` when `avail` is everything the
/// stream delivers from this point to its close: buffered bytes first,
/// then every byte still to come.
pub open spec fn recv_end(avail: Seq<u8>, expected: Seq<u8>) -> RecvEnd {
    if avail.len() >= expected.len() {
        if avail.take(expected.len() as int) == expected {
            RecvEnd::Matched
        } else {
            RecvEnd::Mismatch
        }
    } else if avail.len() == 0 {
        RecvEnd::Closed
    } else {
        RecvEnd::Reset
    }
}

/// What the stream still holds after one receive: a match consumes
/// exactly the expected prefix, every other outcome consumes nothing.
pub open spec fn recv_rem(avail: Seq<u8>, expected: Seq<u8>) -> Seq<u8> {
    if recv_end(avail, expected) is Matched {
        avail.skip(expected.len() as int)
    } else {
        avail
    }
}

/// The byte content of each chunk of a stream.
pub open spec fn chunks_view(chunks: Seq<Vec<u8>>) -> Seq<Seq<u8>> {
    chunks.map_values(|c: Vec<u8>| c@)
}

/// All bytes of a chunked stream from position `pos` on, in order.
pub open spec fn flatten_from(chunks: Seq<Seq<u8>>, pos: int) -> Seq<u8> {
    chunks.skip(pos).flatten()
}

/// A receive matches exactly when the first `expected.len()` bytes the
/// stream delivers equal the expected message byte for byte; with enough
/// bytes of any other content it ends in a mismatch.
pub proof fn lemma_exact_match(avail: Seq<u8>, expected: Seq<u8>)
    ensures
        recv_end(avail, expected) is Matched <==> (avail.len() >= expected.len() && avail.take(
            expected.len() as int,
        ) == expected),
        (avail.len() >= expected.len() && avail.take(expected.len() as int) != expected)
            ==> recv_end(avail, expected) is Mismatch,
{
}

/// Buffer conservation: a match for an expected message of length `l`
/// leaves behind exactly all bytes received so far minus the first `l` —
/// none are lost and none are duplicated.
pub proof fn lemma_buffer_conservation(avail: Seq<u8>, expected: Seq<u8>)
    requires
        recv_end(avail, expected) is Matched,
    ensures
        recv_rem(avail, expected) == avail.skip(expected.len() as int),
        expected + recv_rem(avail, expected) == avail,
{
    assert(expected + avail.skip(expected.len() as int) =~= avail);
}

/// Splitting a concatenation before the end of its first part splits the
/// first part.
proof fn lemma_concat_take_skip(a: Seq<u8>, b: Seq<u8>, l: int)
    requires
        0 <= l <= a.len(),
    ensures
        (a + b).take(l) == a.take(l),
        (a + b).skip(l) == a.skip(l) + b,
{
    assert((a + b).take(l) =~= a.take(l));
    assert((a + b).skip(l) =~= a.skip(l) + b);
}

/// Peeling one chunk off the front of the flattened remainder.
proof fn lemma_flatten_from_unfold(chunks: Seq<Seq<u8>>, pos: int)
    requires
        0 <= pos < chunks.len(),
    ensures
        flatten_from(chunks, pos) == chunks[pos] + flatten_from(chunks, pos + 1),
{
    let rest = chunks.skip(pos);
    assert(rest.len() > 0);
    assert(rest.first() == chunks[pos]);
    assert(rest.drop_first() =~= chunks.skip(pos + 1));
    assert(rest.flatten() == rest.first() + rest.drop_first().flatten());
}

/// Past the last chunk nothing remains.
proof fn lemma_flatten_from_end(chunks: Seq<Seq<u8>>)
    ensures
        flatten_from(chunks, chunks.len() as int) == Seq::<u8>::empty(),
{
    assert(chunks.skip(chunks.len() as int).len() == 0);
}

} // verus!
