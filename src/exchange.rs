use vstd::prelude::*;
use crate::error::AliceError;

verus! {

/// A response frame: the identifier of the call it answers, and either the
/// result or an error message from the server.
#[derive(Debug, Clone)]
pub struct MethodReturn<T> {
    pub id: u128,
    pub result: Option<T>,
    pub error: Option<String>,
}

/// What the socket produced when the next frame was read.
#[derive(Debug, Clone)]
pub enum Inbound<T> {
    /// A text frame that decoded to a response frame.
    Reply(MethodReturn<T>),
    /// A text frame that did not decode to a response frame of the expected shape.
    Undecodable,
    /// A binary frame.
    Binary,
    /// A liveness ping with its payload.
    Ping(Vec<u8>),
    /// Any other control frame.
    Unexpected,
    /// A close frame, or the end of the stream.
    Closed,
    /// Reading failed, for the reason given.
    Failed(String),
}

/// What to do after a frame was read.
#[derive(Debug)]
pub enum Step<T> {
    /// Send a pong with this payload and read on.
    Answer(Vec<u8>),
    /// Hand this value to the frame callback and read on.
    Emit(T),
    /// The call is over, with this outcome; read nothing more for it.
    Done(Result<T, AliceError>),
}

/// Whether a value received in a stream ends the stream.
pub trait Progress {
    spec fn spec_is_final(&self) -> bool;

    fn is_final(&self) -> (r: bool)
        ensures
            r == self.spec_is_final();
}

/// What a frame means to the call `id`. A single call ends with its first
/// matching reply; a streaming call only with a final one.
pub open spec fn step_of<T: Progress>(id: u128, streaming: bool, frame: Inbound<T>) -> Step<T> {
    match frame {
        Inbound::Reply(r) => {
            if r.id != id {
                Step::Done(Err(AliceError::ResponseError))
            } else {
                match r.error {
                    Some(e) => Step::Done(Err(AliceError::RemoteError(e))),
                    None => match r.result {
                        Some(v) => if !streaming || v.spec_is_final() {
                            Step::Done(Ok(v))
                        } else {
                            Step::Emit(v)
                        },
                        None => Step::Done(Err(AliceError::ResponseError)),
                    },
                }
            }
        },
        Inbound::Undecodable => Step::Done(Err(AliceError::ResponseError)),
        Inbound::Binary => Step::Done(Err(AliceError::ProtocolViolation)),
        Inbound::Ping(p) => Step::Answer(p),
        Inbound::Unexpected => Step::Done(Err(AliceError::ProtocolViolation)),
        Inbound::Closed => Step::Done(Err(AliceError::ConnectionClosed)),
        Inbound::Failed(e) => Step::Done(Err(AliceError::TransportError(e))),
    }
}

/// The run of a call over the frames it read, in order: the values handed to
/// the frame callback, the outcome once a frame ended the call, and how many
/// frames were read. Frames after the one that ended the call are not read.
pub open spec fn run<T: Progress>(id: u128, streaming: bool, frames: Seq<Inbound<T>>) -> (Seq<T>, Option<Result<T, AliceError>>, nat)
    decreases frames.len(),
{
    if frames.len() == 0 {
        (Seq::empty(), None, 0)
    } else {
        match step_of(id, streaming, frames[0]) {
            Step::Done(res) => (Seq::empty(), Some(res), 1),
            Step::Emit(v) => {
                let (e, o, n) = run(id, streaming, frames.drop_first());
                (seq![v] + e, o, n + 1)
            },
            Step::Answer(_) => {
                let (e, o, n) = run(id, streaming, frames.drop_first());
                (e, o, n + 1)
            },
        }
    }
}

/// The values that a sequence of frames hands to the frame callback, when
/// none of them ends the call.
pub open spec fn emissions<T: Progress>(id: u128, streaming: bool, frames: Seq<Inbound<T>>) -> Seq<T>
    decreases frames.len(),
{
    if frames.len() == 0 {
        Seq::empty()
    } else {
        let rest = emissions(id, streaming, frames.drop_first());
        match step_of(id, streaming, frames[0]) {
            Step::Emit(v) => seq![v] + rest,
            _ => rest,
        }
    }
}

/// A call in flight: its identifier, its shape, and the frames it has read.
pub struct Call<T> {
    id: u128,
    streaming: bool,
    finished: bool,
    read: Ghost<Seq<Inbound<T>>>,
}

impl<T: Progress> Call<T> {
    pub closed spec fn spec_id(&self) -> u128 {
        self.id
    }

    pub closed spec fn spec_streaming(&self) -> bool {
        self.streaming
    }

    /// The frames this call has read, in order.
    pub closed spec fn frames(&self) -> Seq<Inbound<T>> {
        self.read@
    }

    pub closed spec fn wf(&self) -> bool {
        &&& self.finished == run(self.id, self.streaming, self.read@).1 is Some
        &&& run(self.id, self.streaming, self.read@).2 == self.read@.len()
    }

    /// The outcome of the call, once a frame has ended it.
    pub open spec fn outcome(&self) -> Option<Result<T, AliceError>> {
        run(self.spec_id(), self.spec_streaming(), self.frames()).1
    }

    /// The values handed to the frame callback so far.
    pub open spec fn emitted(&self) -> Seq<T> {
        run(self.spec_id(), self.spec_streaming(), self.frames()).0
    }

    /// A call with identifier `id` that has read nothing yet.
    pub fn new(id: u128, streaming: bool) -> (r: Call<T>)
        ensures
            r.wf(),
            r.spec_id() == id,
            r.spec_streaming() == streaming,
            r.frames() == Seq::<Inbound<T>>::empty(),
    {
        Call { id, streaming, finished: false, read: Ghost(Seq::empty()) }
    }

    pub fn id(&self) -> (r: u128)
        ensures
            r == self.spec_id(),
    {
        self.id
    }

    /// Whether a frame has ended the call.
    pub fn is_finished(&self) -> (r: bool)
        requires
            self.wf(),
        ensures
            r == self.outcome() is Some,
    {
        self.finished
    }

    /// Takes the next frame read for this call and says what to do with it.
    pub fn on_frame(&mut self, frame: Inbound<T>) -> (r: Step<T>)
        requires
            old(self).wf(),
            old(self).outcome() is None,
        ensures
            final(self).wf(),
            final(self).spec_id() == old(self).spec_id(),
            final(self).spec_streaming() == old(self).spec_streaming(),
            final(self).frames() == old(self).frames().push(frame),
            r == step_of(old(self).spec_id(), old(self).spec_streaming(), frame),
            final(self).outcome() == match r {
                Step::Done(res) => Some(res),
                _ => None::<Result<T, AliceError>>,
            },
            final(self).emitted() == match r {
                Step::Emit(v) => old(self).emitted().push(v),
                _ => old(self).emitted(),
            },
    {
        let ghost before = self.read@;
        let r = correlate(self.id, self.streaming, frame);
        proof {
            lemma_run_push(self.id, self.streaming, before, frame);
        }
        self.read = Ghost(before.push(frame));
        if let Step::Done(_) = &r {
            self.finished = true;
        }
        r
    }
}

/// Reading one more frame after frames that did not end the call.
proof fn lemma_run_push<T: Progress>(id: u128, streaming: bool, frames: Seq<Inbound<T>>, f: Inbound<T>)
    requires
        run(id, streaming, frames).1 is None,
    ensures
        run(id, streaming, frames).2 == frames.len(),
        ({
            let (e, o, n) = run(id, streaming, frames);
            run(id, streaming, frames.push(f)) == match step_of(id, streaming, f) {
                Step::Done(res) => (e, Some(res), n + 1),
                Step::Emit(v) => (e.push(v), None::<Result<T, AliceError>>, n + 1),
                Step::Answer(_) => (e, None::<Result<T, AliceError>>, n + 1),
            }
        }),
    decreases frames.len(),
{
    if frames.len() == 0 {
        assert(frames.push(f).drop_first() =~= Seq::<Inbound<T>>::empty());
        assert(frames.push(f)[0] == f);
        assert(run(id, streaming, frames.push(f).drop_first()) == (Seq::<T>::empty(), None::<Result<T, AliceError>>, 0nat));
        match step_of(id, streaming, f) {
            Step::Emit(v) => assert(seq![v] + Seq::<T>::empty() =~= Seq::<T>::empty().push(v)),
            _ => {},
        }
    } else {
        assert(frames.push(f).drop_first() =~= frames.drop_first().push(f));
        assert(frames.push(f)[0] == frames[0]);
        lemma_run_push(id, streaming, frames.drop_first(), f);
        let (e1, o1, n1) = run(id, streaming, frames.drop_first());
        match step_of(id, streaming, frames[0]) {
            Step::Emit(v) => {
                match step_of(id, streaming, f) {
                    Step::Emit(w) => assert(seq![v] + e1.push(w) =~= (seq![v] + e1).push(w)),
                    _ => {},
                }
            },
            _ => {},
        }
    }
}

/// A call hands the frame callback the value of every frame that does not
/// end it, once each and in the order the frames arrived, and it ends with
/// the first frame that ends it: no frame after that one is read.
pub proof fn lemma_frames_in_order<T: Progress>(id: u128, streaming: bool, frames: Seq<Inbound<T>>)
    ensures
        ({
            let (e, o, n) = run(id, streaming, frames);
            &&& n <= frames.len()
            &&& forall|i: int|
                0 <= i < n ==> (#[trigger] step_of(id, streaming, frames[i]) is Done <==> (o is Some && i
                    == n - 1))
            &&& o matches Some(res) ==> step_of(id, streaming, frames[n - 1]) == Step::Done(res)
            &&& o is None ==> n == frames.len()
            &&& e == emissions(id, streaming, frames.take(n as int))
        }),
    decreases frames.len(),
{
    if frames.len() == 0 {
        assert(frames.take(0) =~= Seq::<Inbound<T>>::empty());
    } else {
        let rest = frames.drop_first();
        lemma_frames_in_order(id, streaming, rest);
        let (e, o, n) = run(id, streaming, frames);
        let (e1, o1, n1) = run(id, streaming, rest);
        match step_of(id, streaming, frames[0]) {
            Step::Done(res) => {
                assert(frames.take(1).drop_first() =~= Seq::<Inbound<T>>::empty());
                assert(frames.take(1)[0] == frames[0]);
                assert(emissions(id, streaming, frames.take(1).drop_first()) == Seq::<T>::empty());
                assert(e == emissions(id, streaming, frames.take(n as int)));
            },
            _ => {
                assert forall|i: int| 0 <= i < n implies (#[trigger] step_of(id, streaming, frames[i]) is Done <==> (o
                    is Some && i == n - 1)) by {
                    if i > 0 {
                        assert(frames[i] == rest[i - 1]);
                    }
                }
                assert(frames.take(n as int).drop_first() =~= rest.take(n1 as int));
                assert(frames.take(n as int)[0] == frames[0]);
                assert(e1 == emissions(id, streaming, rest.take(n1 as int)));
                assert(e == emissions(id, streaming, frames.take(n as int)));
                if o matches Some(res) {
                    assert(frames[n - 1] == rest[n1 - 1]);
                }
            },
        }
    }
}

/// A reply to another call is never taken for the reply to this one: it ends
/// the call with a response error, and its value is neither handed on nor
/// returned.
pub proof fn lemma_foreign_reply_rejected<T: Progress>(id: u128, streaming: bool, reply: MethodReturn<T>)
    requires
        reply.id != id,
    ensures
        step_of(id, streaming, Inbound::Reply(reply)) == Step::<T>::Done(Err(AliceError::ResponseError)),
{
}

/// A call that ends with a value ends with the value of a reply that carries
/// its own identifier.
pub proof fn lemma_result_answers_call<T: Progress>(id: u128, streaming: bool, frames: Seq<Inbound<T>>)
    requires
        run(id, streaming, frames).1 matches Some(Ok(_)),
    ensures
        ({
            let (e, o, n) = run(id, streaming, frames);
            frames[n - 1] matches Inbound::Reply(r) && r.id == id && r.result == Some(o->0->Ok_0)
        }),
{
    lemma_frames_in_order(id, streaming, frames);
}

/// A frame that does not decode ends the call with a response error.
pub proof fn lemma_undecodable_is_response_error<T: Progress>(id: u128, streaming: bool)
    ensures
        step_of(id, streaming, Inbound::<T>::Undecodable) == Step::<T>::Done(Err(AliceError::ResponseError)),
{
}

/// Routes one frame to the call `id`.
pub fn correlate<T: Progress>(id: u128, streaming: bool, frame: Inbound<T>) -> (r: Step<T>)
    ensures
        r == step_of(id, streaming, frame),
{
    match frame {
        Inbound::Reply(reply) => {
            if reply.id != id {
                Step::Done(Err(AliceError::ResponseError))
            } else {
                match reply.error {
                    Some(e) => Step::Done(Err(AliceError::RemoteError(e))),
                    None => match reply.result {
                        Some(v) => {
                            if !streaming || v.is_final() {
                                Step::Done(Ok(v))
                            } else {
                                Step::Emit(v)
                            }
                        },
                        None => Step::Done(Err(AliceError::ResponseError)),
                    },
                }
            }
        },
        Inbound::Undecodable => Step::Done(Err(AliceError::ResponseError)),
        Inbound::Binary => Step::Done(Err(AliceError::ProtocolViolation)),
        Inbound::Ping(p) => Step::Answer(p),
        Inbound::Unexpected => Step::Done(Err(AliceError::ProtocolViolation)),
        Inbound::Closed => Step::Done(Err(AliceError::ConnectionClosed)),
        Inbound::Failed(e) => Step::Done(Err(AliceError::TransportError(e))),
    }
}

} // verus!
