//! Body adapters used by both the HTTP/2 client and server: a buffer handed
//! to the stream, and the steps of piping a body into the stream.
use vstd::prelude::*;
use crate::text::extend;

verus! {

/// A body chunk being sent, and how much of it has been sent.
pub struct Cursor {
    bytes: Vec<u8>,
    pos: usize,
}

impl Cursor {
    #[verifier::type_invariant]
    closed spec fn inv(self) -> bool {
        self.pos <= self.bytes@.len()
    }

    /// The bytes not yet sent.
    pub closed spec fn rest(self) -> Seq<u8> {
        self.bytes@.skip(self.pos as int)
    }

    /// A cursor at the start of a chunk.
    pub fn new(bytes: Vec<u8>) -> (c: Cursor)
        ensures
            c.rest() == bytes@,
    {
        let c = Cursor { bytes, pos: 0 };
        assert(c.bytes@.skip(0) =~= c.bytes@);
        c
    }

    pub fn remaining(&self) -> (r: usize)
        ensures
            r == self.rest().len(),
    {
        proof {
            use_type_invariant(self);
        }
        self.bytes.len() - self.pos
    }

    pub fn bytes(&self) -> (r: &[u8])
        ensures
            r@ == self.rest(),
    {
        proof {
            use_type_invariant(self);
        }
        let r = vstd::slice::slice_subrange(self.bytes.as_slice(), self.pos, self.bytes.len());
        assert(r@ =~= self.rest());
        r
    }

    pub fn advance(&mut self, cnt: usize)
        requires
            cnt <= old(self).rest().len(),
        ensures
            final(self).rest() == old(self).rest().skip(cnt as int),
    {
        proof {
            use_type_invariant(&*self);
            assert(self.rest().len() == self.bytes@.len() - self.pos);
        }
        let n = self.bytes.len();
        assert(self.pos + cnt <= n);
        self.pos = self.pos + cnt;
        proof {
            assert(self.bytes@.skip(self.pos as int) =~= old(self).bytes@.skip(
                old(self).pos as int,
            ).skip(cnt as int));
        }
    }
}

/// The buffer handed to an HTTP/2 stream: a chunk being sent, or nothing
/// (the empty buffer that ends the stream).
pub struct SendBuf(pub Option<Cursor>);

impl SendBuf {
    pub open spec fn rest(self) -> Seq<u8> {
        match self.0 {
            Some(c) => c.rest(),
            None => Seq::empty(),
        }
    }

    /// The number of bytes left to send.
    pub fn remaining(&self) -> (r: usize)
        ensures
            r == self.rest().len(),
    {
        match &self.0 {
            Some(b) => b.remaining(),
            None => 0,
        }
    }

    /// The bytes left to send.
    pub fn bytes(&self) -> (r: Vec<u8>)
        ensures
            r@ == self.rest(),
    {
        let mut r: Vec<u8> = Vec::new();
        match &self.0 {
            Some(b) => extend(&mut r, b.bytes()),
            None => {},
        }
        r
    }

    /// Marks `cnt` more bytes as sent.
    pub fn advance(&mut self, cnt: usize)
        requires
            cnt <= old(self).rest().len(),
        ensures
            final(self).rest() == old(self).rest().skip(cnt as int),
    {
        match &mut self.0 {
            Some(b) => b.advance(cnt),
            None => {
                assert(Seq::<u8>::empty().skip(cnt as int) =~= Seq::<u8>::empty());
            },
        }
    }
}

/// What polling a body stream gave.
#[derive(Clone, Copy, Debug, PartialEq, Eq, Structural)]
pub enum BodyPoll {
    /// A chunk of the body.
    Chunk,
    /// The end of the body.
    End,
    /// Nothing yet.
    NotReady,
    /// The body failed.
    Failed,
}

/// What piping a body into an HTTP/2 stream does next.
#[derive(Clone, Copy, Debug, PartialEq, Eq, Structural)]
pub enum PipeStep {
    /// Send the chunk as data (not ending the stream), then poll again.
    SendChunk,
    /// Send an empty frame that ends the stream; the pipe is done.
    SendEndAndFinish,
    /// Wait to be polled again.
    Wait,
    /// Reset the stream with an internal error, and fail with the body's error.
    ResetAndFail,
}

/// The step that follows a poll of the body. (Failing to send data fails
/// the pipe with the stream's error.)
pub fn pipe_step(poll: BodyPoll) -> (s: PipeStep)
    ensures
        s == match poll {
            BodyPoll::Chunk => PipeStep::SendChunk,
            BodyPoll::End => PipeStep::SendEndAndFinish,
            BodyPoll::NotReady => PipeStep::Wait,
            BodyPoll::Failed => PipeStep::ResetAndFail,
        },
{
    match poll {
        BodyPoll::Chunk => PipeStep::SendChunk,
        BodyPoll::End => PipeStep::SendEndAndFinish,
        BodyPoll::NotReady => PipeStep::Wait,
        BodyPoll::Failed => PipeStep::ResetAndFail,
    }
}

} // verus!
