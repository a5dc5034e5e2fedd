use vstd::prelude::*;
use vstd::string::StringExecFns;
use crate::envelope::{call_text, escape, push_escaped, MethodCall};
use crate::error::AliceError;
use crate::exchange::{Call, Inbound, Progress, Step, step_of};
use crate::ids::CallIds;
use crate::models::{CompletionResult, CompletionStatus, Engine, Model, ModelListResult, SimpleResult, StatusResult};

verus! {

impl Progress for StatusResult {
    /// A model load ends once the model is loaded or failed to load.
    open spec fn spec_is_final(&self) -> bool {
        self.status@ == "loaded"@ || self.status@ == "error"@
    }

    fn is_final(&self) -> (r: bool) {
        let loaded = String::from_str("loaded");
        let error = String::from_str("error");
        self.status == loaded || self.status == error
    }
}

impl Progress for CompletionResult {
    /// A completion ends with its final frame.
    open spec fn spec_is_final(&self) -> bool {
        self.status == CompletionStatus::Final
    }

    fn is_final(&self) -> (r: bool) {
        self.status == CompletionStatus::Final
    }
}

impl Progress for SimpleResult {
    open spec fn spec_is_final(&self) -> bool {
        true
    }

    fn is_final(&self) -> (r: bool) {
        true
    }
}

impl Progress for ModelListResult {
    open spec fn spec_is_final(&self) -> bool {
        true
    }

    fn is_final(&self) -> (r: bool) {
        true
    }
}

/// The state of the one socket a client owns: the endpoint it connects to,
/// and whether a connection is open.
pub struct ClientSocket {
    addr: String,
    connected: bool,
}

impl ClientSocket {
    pub closed spec fn spec_addr(&self) -> Seq<char> {
        self.addr@
    }

    pub closed spec fn spec_connected(&self) -> bool {
        self.connected
    }

    /// A socket for the endpoint `addr`, not yet connected.
    pub fn new(addr: String) -> (r: ClientSocket)
        ensures
            r.spec_addr() == addr@,
            !r.spec_connected(),
    {
        ClientSocket { addr, connected: false }
    }

    /// The endpoint this socket connects to.
    pub fn addr(&self) -> (r: &str)
        ensures
            r@ == self.spec_addr(),
    {
        self.addr.as_str()
    }

    pub fn is_connected(&self) -> (r: bool)
        ensures
            r == self.spec_connected(),
    {
        self.connected
    }

    /// Records how an attempt to open the connection went. A success leaves
    /// the socket connected, replacing any earlier connection; a failure
    /// leaves it as it was and is reported as a transport error.
    pub fn connect(&mut self, attempt: Result<(), String>) -> (r: Result<(), AliceError>)
        ensures
            final(self).spec_addr() == old(self).spec_addr(),
            attempt is Ok ==> final(self).spec_connected() && r is Ok,
            attempt matches Err(e) ==> final(self).spec_connected() == old(self).spec_connected()
                && r == Err::<(), AliceError>(AliceError::TransportError(e)),
    {
        match attempt {
            Ok(()) => {
                self.connected = true;
                Ok(())
            },
            Err(e) => Err(AliceError::TransportError(e)),
        }
    }

    /// Decides a disconnect: without a connection it fails with
    /// `NoConnection`; with one, the socket counts as closed from now on,
    /// whatever closing it brings, and `Ok` asks the caller to close it.
    pub fn disconnect(&mut self) -> (r: Result<(), AliceError>)
        ensures
            final(self).spec_addr() == old(self).spec_addr(),
            !final(self).spec_connected(),
            old(self).spec_connected() ==> r is Ok,
            !old(self).spec_connected() ==> r == Err::<(), AliceError>(AliceError::NoConnection),
    {
        if self.connected {
            self.connected = false;
            Ok(())
        } else {
            Err(AliceError::NoConnection)
        }
    }

    /// Whether a frame may be sent: only over an open connection.
    pub fn check_send(&self) -> (r: Result<(), AliceError>)
        ensures
            self.spec_connected() ==> r is Ok,
            !self.spec_connected() ==> r == Err::<(), AliceError>(AliceError::NoConnection),
    {
        if self.connected {
            Ok(())
        } else {
            Err(AliceError::NoConnection)
        }
    }

    /// Records a frame read from the socket: a close frame ends the connection.
    pub fn observe<T>(&mut self, frame: &Inbound<T>)
        ensures
            final(self).spec_addr() == old(self).spec_addr(),
            final(self).spec_connected() == (old(self).spec_connected() && !(frame is Closed)),
    {
        if let Inbound::Closed = frame {
            self.connected = false;
        }
    }
}

/// The parameters of a `load_model` call, as JSON text.
pub open spec fn load_params_text(model: &Model) -> Seq<char> {
    "{\"engine\":\""@ + escape(model.engine.spec_name()) + "\",\"model\":\""@ + escape(model.name@) + "\"}"@
}

/// The parameters of a `complete` call, as JSON text.
pub open spec fn complete_params_text(snippet: Seq<char>, engine_parameters: Seq<char>) -> Seq<char> {
    "{\"snippet\":\""@ + escape(snippet) + "\",\"engine_parameters\":"@ + engine_parameters + "}"@
}

/// What starting a call establishes: the call is well-formed, has the
/// given shape and has read nothing yet, and its identifier is new and
/// recorded after the ones issued before.
pub open spec fn started<T: Progress>(before: Seq<u128>, after: Seq<u128>, call: Call<T>, streaming: bool) -> bool {
    &&& call.wf()
    &&& call.spec_streaming() == streaming
    &&& call.frames() == Seq::<Inbound<T>>::empty()
    &&& !before.contains(call.spec_id())
    &&& after == before.push(call.spec_id())
}

/// The method client: the typed calls of the inference server over one
/// socket, each with a fresh identifier.
pub struct UllmApi {
    client: ClientSocket,
    ids: CallIds,
}

impl UllmApi {
    pub closed spec fn socket(&self) -> ClientSocket {
        self.client
    }

    /// The identifiers issued so far, in order.
    pub closed spec fn issued(&self) -> Seq<u128> {
        self.ids@
    }

    pub closed spec fn wf(&self) -> bool {
        self.ids.wf()
    }

    pub open spec fn spec_connected(&self) -> bool {
        self.socket().spec_connected()
    }

    /// A client for the endpoint `addr`, not yet connected, that has issued no call.
    pub fn new(addr: String) -> (r: UllmApi)
        ensures
            r.wf(),
            r.socket().spec_addr() == addr@,
            !r.spec_connected(),
            r.issued() == Seq::<u128>::empty(),
    {
        UllmApi { client: ClientSocket::new(addr), ids: CallIds::new() }
    }

    /// The endpoint this client connects to.
    pub fn addr(&self) -> (r: &str)
        ensures
            r@ == self.socket().spec_addr(),
    {
        self.client.addr()
    }

    pub fn is_connected(&self) -> (r: bool)
        ensures
            r == self.spec_connected(),
    {
        self.client.is_connected()
    }

    /// Records how an attempt to connect went (see `ClientSocket::connect`).
    pub fn connect(&mut self, attempt: Result<(), String>) -> (r: Result<(), AliceError>)
        requires
            old(self).wf(),
        ensures
            final(self).wf(),
            final(self).issued() == old(self).issued(),
            final(self).socket().spec_addr() == old(self).socket().spec_addr(),
            attempt is Ok ==> final(self).spec_connected() && r is Ok,
            attempt matches Err(e) ==> final(self).spec_connected() == old(self).spec_connected()
                && r == Err::<(), AliceError>(AliceError::TransportError(e)),
    {
        self.client.connect(attempt)
    }

    /// Decides a disconnect (see `ClientSocket::disconnect`).
    pub fn disconnect(&mut self) -> (r: Result<(), AliceError>)
        requires
            old(self).wf(),
        ensures
            final(self).wf(),
            final(self).issued() == old(self).issued(),
            final(self).socket().spec_addr() == old(self).socket().spec_addr(),
            !final(self).spec_connected(),
            old(self).spec_connected() ==> r is Ok,
            !old(self).spec_connected() ==> r == Err::<(), AliceError>(AliceError::NoConnection),
    {
        self.client.disconnect()
    }

    /// Starts a call of `method`: over an open connection it issues a fresh
    /// identifier and gives the call together with the frame to send;
    /// without a connection it fails with `NoConnection` and issues nothing.
    pub fn begin<T: Progress>(&mut self, method: &str, params: Option<String>, streaming: bool) -> (r: Result<(Call<T>, String), AliceError>)
        requires
            old(self).wf(),
        ensures
            final(self).wf(),
            final(self).socket() == old(self).socket(),
            !old(self).spec_connected() ==> (r matches Err(e) && e == AliceError::NoConnection
                && final(self).issued() == old(self).issued()),
            old(self).spec_connected() ==> (r matches Ok((call, text)) && started(old(self).issued(), final(self).issued(), call, streaming)
                && text@ == call_text(call.spec_id(), method@, crate::envelope::opt_view(params))),
    {
        if let Err(e) = self.client.check_send() {
            return Err(e);
        }
        let id = self.ids.issue();
        let frame = MethodCall::new(id, method, params);
        let text = frame.encode();
        Ok((Call::new(id, streaming), text))
    }

    /// Takes the next frame read for `call` and says what to do with it. A
    /// close frame also ends the connection; any other frame leaves it as it was.
    pub fn on_frame<T: Progress>(&mut self, call: &mut Call<T>, frame: Inbound<T>) -> (r: Step<T>)
        requires
            old(self).wf(),
            old(call).wf(),
            old(call).outcome() is None,
        ensures
            final(self).wf(),
            final(self).issued() == old(self).issued(),
            final(self).socket().spec_addr() == old(self).socket().spec_addr(),
            final(self).spec_connected() == (old(self).spec_connected() && !(frame is Closed)),
            final(call).wf(),
            final(call).spec_id() == old(call).spec_id(),
            final(call).spec_streaming() == old(call).spec_streaming(),
            final(call).frames() == old(call).frames().push(frame),
            r == step_of(old(call).spec_id(), old(call).spec_streaming(), frame),
            final(call).outcome() == match r {
                Step::Done(res) => Some(res),
                _ => None::<Result<T, AliceError>>,
            },
            final(call).emitted() == match r {
                Step::Emit(v) => old(call).emitted().push(v),
                _ => old(call).emitted(),
            },
    {
        self.client.observe(&frame);
        call.on_frame(frame)
    }

    /// Starts a liveness check: a single `ping` call.
    pub fn begin_ping(&mut self) -> (r: Result<(Call<SimpleResult>, String), AliceError>)
        requires
            old(self).wf(),
        ensures
            final(self).wf(),
            final(self).socket() == old(self).socket(),
            !old(self).spec_connected() ==> (r matches Err(e) && e == AliceError::NoConnection) && final(self).issued() == old(self).issued(),
            old(self).spec_connected() ==> (r matches Ok((call, text)) && started(old(self).issued(), final(self).issued(), call, false) && text@
                == call_text(call.spec_id(), "ping"@, None)),
    {
        self.begin("ping", None, false)
    }

    /// Concludes a liveness check from its outcome: alive exactly when the
    /// ping was answered. A failed check also drops the connection, and asks
    /// the caller to close the socket if one was open.
    pub fn finish_ping(&mut self, outcome: Result<SimpleResult, AliceError>) -> (r: (bool, bool))
        requires
            old(self).wf(),
        ensures
            final(self).wf(),
            final(self).issued() == old(self).issued(),
            final(self).socket().spec_addr() == old(self).socket().spec_addr(),
            r.0 == outcome is Ok,
            r.0 ==> final(self).spec_connected() == old(self).spec_connected() && !r.1,
            !r.0 ==> !final(self).spec_connected() && r.1 == old(self).spec_connected(),
    {
        match outcome {
            Ok(_) => (true, false),
            Err(_) => {
                let close = self.client.disconnect().is_ok();
                (false, close)
            },
        }
    }

    /// Starts loading `model`: a streaming `load_model` call that ends once
    /// the model is loaded or failed to load.
    pub fn begin_load(&mut self, model: &Model) -> (r: Result<(Call<StatusResult>, String), AliceError>)
        requires
            old(self).wf(),
        ensures
            final(self).wf(),
            final(self).socket() == old(self).socket(),
            !old(self).spec_connected() ==> (r matches Err(e) && e == AliceError::NoConnection) && final(self).issued() == old(self).issued(),
            old(self).spec_connected() ==> (r matches Ok((call, text)) && started(old(self).issued(), final(self).issued(), call, true) && text@
                == call_text(call.spec_id(), "load_model"@, Some(load_params_text(model)))),
    {
        let mut params = String::from_str("{\"engine\":\"");
        push_escaped(&mut params, model.engine.name());
        params.append("\",\"model\":\"");
        push_escaped(&mut params, model.name.as_str());
        params.append("\"}");
        self.begin("load_model", Some(params), true)
    }

    /// The status a load ended with, `"loaded"` or `"error"`.
    pub fn load_status(result: &StatusResult) -> (r: String)
        ensures
            r@ == result.status@,
    {
        result.status.clone()
    }

    /// Starts an unload: a single `unload` call whose payload is discarded.
    pub fn begin_unload(&mut self) -> (r: Result<(Call<StatusResult>, String), AliceError>)
        requires
            old(self).wf(),
        ensures
            final(self).wf(),
            final(self).socket() == old(self).socket(),
            !old(self).spec_connected() ==> (r matches Err(e) && e == AliceError::NoConnection) && final(self).issued() == old(self).issued(),
            old(self).spec_connected() ==> (r matches Ok((call, text)) && started(old(self).issued(), final(self).issued(), call, false) && text@
                == call_text(call.spec_id(), "unload"@, None)),
    {
        self.begin("unload", None, false)
    }

    /// Starts asking which model is loaded: a single `status` call.
    pub fn begin_current(&mut self) -> (r: Result<(Call<StatusResult>, String), AliceError>)
        requires
            old(self).wf(),
        ensures
            final(self).wf(),
            final(self).socket() == old(self).socket(),
            !old(self).spec_connected() ==> (r matches Err(e) && e == AliceError::NoConnection) && final(self).issued() == old(self).issued(),
            old(self).spec_connected() ==> (r matches Ok((call, text)) && started(old(self).issued(), final(self).issued(), call, false) && text@
                == call_text(call.spec_id(), "status"@, None)),
    {
        self.begin("status", None, false)
    }

    /// The model a `status` result names: none unless it names both a model
    /// and an engine.
    pub fn current_model(result: StatusResult) -> (r: Option<Model>)
        ensures
            (result.model is Some && result.engine is Some) <==> r is Some,
            r matches Some(m) ==> m.name@ == result.model->0@ && m.engine == result.engine->0,
    {
        match (result.model, result.engine) {
            (Some(name), Some(engine)) => Some(Model::new(name, engine)),
            _ => None,
        }
    }

    /// Starts listing the available models: a single `list_models` call.
    pub fn begin_list(&mut self) -> (r: Result<(Call<ModelListResult>, String), AliceError>)
        requires
            old(self).wf(),
        ensures
            final(self).wf(),
            final(self).socket() == old(self).socket(),
            !old(self).spec_connected() ==> (r matches Err(e) && e == AliceError::NoConnection) && final(self).issued() == old(self).issued(),
            old(self).spec_connected() ==> (r matches Ok((call, text)) && started(old(self).issued(), final(self).issued(), call, false) && text@
                == call_text(call.spec_id(), "list_models"@, None)),
    {
        self.begin("list_models", None, false)
    }

    /// Starts a completion of `snippet` with the given engine parameters
    /// (a JSON object): a streaming `complete` call that ends with its final frame.
    pub fn begin_complete(&mut self, snippet: &str, engine_parameters: &str) -> (r: Result<(Call<CompletionResult>, String), AliceError>)
        requires
            old(self).wf(),
        ensures
            final(self).wf(),
            final(self).socket() == old(self).socket(),
            !old(self).spec_connected() ==> (r matches Err(e) && e == AliceError::NoConnection) && final(self).issued() == old(self).issued(),
            old(self).spec_connected() ==> (r matches Ok((call, text)) && started(old(self).issued(), final(self).issued(), call, true) && text@
                == call_text(call.spec_id(), "complete"@, Some(complete_params_text(snippet@, engine_parameters@)))),
    {
        let mut params = String::from_str("{\"snippet\":\"");
        push_escaped(&mut params, snippet);
        params.append("\",\"engine_parameters\":");
        params.append(engine_parameters);
        params.append("}");
        self.begin("complete", Some(params), true)
    }
}

} // verus!

verus! {

/// No two calls made over one client's lifetime share an identifier.
pub proof fn lemma_call_ids_unique(api: &UllmApi, i: int, j: int)
    requires
        api.wf(),
        0 <= i < api.issued().len(),
        0 <= j < api.issued().len(),
        i != j,
    ensures
        api.issued()[i] != api.issued()[j],
{
}

} // verus!
