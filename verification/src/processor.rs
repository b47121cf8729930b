//! A generic incoming-data processor: the protocol-agnostic counterpart
//! of the frame matcher, which hands whole buffered payloads out instead
//! of matching them against an expectation.
//!
//! The live half around a socket only reads and writes; what a read
//! yields, when a message is complete, and how the stream's end is
//! classified is decided here.

use vstd::prelude::*;

verus! {

/// Ways processing incoming data can go wrong.
#[derive(Debug, PartialEq)]
pub enum ProcessError {
    /// Not enough data is available to parse a message.
    Incomplete,
    /// The peer closed with a partial message left behind.
    ConnectionReset,
    /// Any other failure, described by its message.
    Other(String),
}

impl ProcessError {
    /// What [`ProcessError::message`] returns.
    pub open spec fn message_spec(&self) -> Seq<char> {
        match self {
            ProcessError::Incomplete => "incomplete data"@,
            ProcessError::ConnectionReset => "connection reset by peer"@,
            ProcessError::Other(s) => s@,
        }
    }

    /// A human-readable description of the error.
    pub fn message(&self) -> (r: String)
        ensures
            r@ == self.message_spec(),
    {
        match self {
            ProcessError::Incomplete => "incomplete data".to_owned(),
            ProcessError::ConnectionReset => "connection reset by peer".to_owned(),
            ProcessError::Other(s) => s.clone(),
        }
    }
}

/// Parses a message out of buffered stream data: with any bytes at hand
/// the whole buffered content is the message; with none the data is
/// incomplete and the caller must read more.
pub fn get_message(data: &Vec<u8>) -> (r: Result<Vec<u8>, ProcessError>)
    ensures
        data@.len() > 0 ==> (r matches Ok(m) && m@ == data@),
        data@.len() == 0 ==> (r matches Err(ProcessError::Incomplete)),
{
    if data.len() > 0 {
        let mut msg: Vec<u8> = Vec::new();
        let mut i: usize = 0;
        while i < data.len()
            invariant
                i <= data@.len(),
                msg@ == data@.take(i as int),
            decreases data@.len() - i,
        {
            msg.push(data[i]);
            i = i + 1;
            proof {
                assert(data@.take(i as int) =~= data@.take(i - 1).push(data@[i - 1]));
            }
        }
        proof {
            assert(data@.take(data@.len() as int) =~= data@);
        }
        Ok(msg)
    } else {
        Err(ProcessError::Incomplete)
    }
}

/// Accumulates incoming stream data and hands complete messages out.
pub struct Processor {
    buffer: Vec<u8>,
}

impl View for Processor {
    type V = Seq<u8>;

    closed spec fn view(&self) -> Seq<u8> {
        self.buffer@
    }
}

impl Processor {
    /// A processor with nothing buffered.
    pub fn new() -> (r: Processor)
        ensures
            r@ == Seq::<u8>::empty(),
    {
        Processor { buffer: Vec::new() }
    }

    /// Appends one socket read to the buffer.
    pub fn fill(&mut self, chunk: &Vec<u8>)
        ensures
            final(self)@ == old(self)@ + chunk@,
    {
        let mut i: usize = 0;
        while i < chunk.len()
            invariant
                i <= chunk@.len(),
                self@ == old(self)@ + chunk@.take(i as int),
            decreases chunk@.len() - i,
        {
            self.buffer.push(chunk[i]);
            i = i + 1;
            proof {
                assert(chunk@.take(i as int) =~= chunk@.take(i - 1).push(chunk@[i - 1]));
            }
        }
        proof {
            assert(chunk@.take(chunk@.len() as int) =~= chunk@);
        }
    }

    /// Takes the buffered bytes as one message, consuming them; with
    /// nothing buffered there is no message yet.
    pub fn parse_incoming(&mut self) -> (r: Result<Option<Vec<u8>>, ProcessError>)
        ensures
            old(self)@.len() > 0 ==> (r matches Ok(Some(m)) && m@ == old(self)@ && final(self)@
                == Seq::<u8>::empty()),
            old(self)@.len() == 0 ==> (r matches Ok(None) && final(self)@ == old(self)@),
    {
        match get_message(&self.buffer) {
            Ok(msg) => {
                self.buffer.clear();
                Ok(Some(msg))
            },
            Err(ProcessError::Incomplete) => Ok(None),
            Err(e) => Err(e),
        }
    }

    /// Processes incoming data from a stream delivered as chunks: reads
    /// until a message is at hand, exactly as the live loop does around
    /// a socket. Buffered bytes come out first; otherwise one read
    /// yields one message; a clean close yields no message.
    pub fn process_incoming(&mut self, chunks: &Vec<Vec<u8>>, pos: &mut usize) -> (r: Result<
        Option<Vec<u8>>,
        ProcessError,
    >)
        requires
            *old(pos) <= chunks@.len(),
            forall|i: int| 0 <= i < chunks@.len() ==> (#[trigger] chunks@[i])@.len() > 0,
        ensures
            *old(pos) <= *final(pos) <= chunks@.len(),
            old(self)@.len() > 0 ==> (r matches Ok(Some(m)) && m@ == old(self)@ && final(self)@
                == Seq::<u8>::empty() && *final(pos) == *old(pos)),
            (old(self)@.len() == 0 && *old(pos) < chunks@.len()) ==> (r matches Ok(Some(m)) && m@
                == chunks@[*old(pos) as int]@ && final(self)@ == Seq::<u8>::empty() && *final(pos)
                == *old(pos) + 1),
            (old(self)@.len() == 0 && *old(pos) == chunks@.len()) ==> (r matches Ok(None)
                && final(self)@ == old(self)@ && *final(pos) == *old(pos)),
    {
        loop
            invariant
                *pos <= chunks@.len(),
                forall|i: int| 0 <= i < chunks@.len() ==> (#[trigger] chunks@[i])@.len() > 0,
                *old(pos) <= *pos,
                old(self)@.len() > 0 ==> (self@ == old(self)@ && *pos == *old(pos)),
                old(self)@.len() == 0 ==> (*pos == *old(pos) && self@ == old(self)@ || (*old(pos)
                    < chunks@.len() && *pos == *old(pos) + 1 && self@ == chunks@[*old(
                    pos,
                ) as int]@)),
            decreases chunks@.len() - *pos,
        {
            match self.parse_incoming() {
                Ok(Some(msg)) => {
                    return Ok(Some(msg));
                },
                Ok(None) => {
                    if *pos == chunks.len() {
                        if self.is_empty() {
                            return Ok(None);
                        } else {
                            return Err(ProcessError::ConnectionReset);
                        }
                    }
                    let ghost buf_pre = self@;
                    self.fill(&chunks[*pos]);
                    proof {
                        assert(buf_pre + chunks@[*pos as int]@ =~= chunks@[*pos as int]@);
                    }
                    *pos = *pos + 1;
                },
                Err(e) => {
                    return Err(e);
                },
            }
        }
    }

    /// Whether nothing is currently buffered.
    pub fn is_empty(&self) -> (r: bool)
        ensures
            r == (self@.len() == 0),
    {
        self.buffer.len() == 0
    }
}

} // verus!
