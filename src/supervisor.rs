use vstd::prelude::*;
use crate::models::ConnectionStatus;

verus! {

/// A change of connection status, as published to listeners.
#[derive(Debug, Clone, Copy, PartialEq, Eq, Structural)]
pub enum StatusEvent {
    /// An explicit connect opened the connection.
    Connected,
    /// An explicit disconnect closed it.
    Disconnected,
    /// The supervisory loop found the connection dead.
    Lost,
    /// The supervisory loop opened the connection again.
    Reconnected,
}

/// What one tick of the supervisory loop does.
#[derive(Debug, Clone, Copy, PartialEq, Eq, Structural)]
pub enum TickAction {
    /// Try to open the connection.
    Connect,
    /// Check that the connection is alive.
    CheckAlive,
}

/// The action of a tick taken in status `s`.
pub open spec fn tick_action(s: ConnectionStatus) -> TickAction {
    match s {
        ConnectionStatus::Disconnected => TickAction::Connect,
        ConnectionStatus::Connected => TickAction::CheckAlive,
    }
}

/// The status and the event after a connect attempt of the loop in status `s`.
pub open spec fn after_attempt(s: ConnectionStatus, ok: bool) -> (ConnectionStatus, Option<StatusEvent>) {
    if ok {
        (ConnectionStatus::Connected, if s == ConnectionStatus::Disconnected {
            Some(StatusEvent::Reconnected)
        } else {
            None
        })
    } else {
        (s, None)
    }
}

/// The status and the event after a liveness check of the loop in status `s`.
pub open spec fn after_probe(s: ConnectionStatus, alive: bool) -> (ConnectionStatus, Option<StatusEvent>) {
    if alive {
        (s, None)
    } else {
        (ConnectionStatus::Disconnected, if s == ConnectionStatus::Connected {
            Some(StatusEvent::Lost)
        } else {
            None
        })
    }
}

/// The status and the events after a run of connect attempts of the loop,
/// with the given outcomes in order.
pub open spec fn after_attempts(s: ConnectionStatus, oks: Seq<bool>) -> (ConnectionStatus, Seq<StatusEvent>)
    decreases oks.len(),
{
    if oks.len() == 0 {
        (s, Seq::empty())
    } else {
        let (s1, e1) = after_attempts(s, oks.drop_last());
        let (s2, e2) = after_attempt(s1, oks.last());
        (s2, match e2 {
            Some(e) => e1.push(e),
            None => e1,
        })
    }
}

/// The outcomes of `n` failed connect attempts.
pub open spec fn failures(n: nat) -> Seq<bool> {
    Seq::new(n, |i: int| false)
}

/// From a dropped connection, any number of failed connect attempts leave it
/// dropped and publish nothing; the first attempt that succeeds then brings
/// it up and publishes exactly one `Reconnected`.
pub proof fn lemma_reconnect_once(n: nat)
    ensures
        after_attempts(ConnectionStatus::Disconnected, failures(n)) == (ConnectionStatus::Disconnected, Seq::<StatusEvent>::empty()),
        after_attempts(ConnectionStatus::Disconnected, failures(n).push(true)) == (ConnectionStatus::Connected, seq![StatusEvent::Reconnected]),
    decreases n,
{
    if n > 0 {
        assert(failures(n).drop_last() =~= failures((n - 1) as nat));
        lemma_reconnect_once((n - 1) as nat);
    }
    assert(failures(n).push(true).drop_last() =~= failures(n));
    assert(Seq::<StatusEvent>::empty().push(StatusEvent::Reconnected) =~= seq![StatusEvent::Reconnected]);
}

/// The connection manager's state machine: the connection status and every
/// event it has published, in order.
pub struct Supervisor {
    status: ConnectionStatus,
    events: Ghost<Seq<StatusEvent>>,
}

impl Supervisor {
    pub closed spec fn spec_status(&self) -> ConnectionStatus {
        self.status
    }

    /// The events published so far, in order.
    pub closed spec fn published(&self) -> Seq<StatusEvent> {
        self.events@
    }

    /// A manager whose connection is not open and that has published nothing.
    pub fn new() -> (r: Supervisor)
        ensures
            r.spec_status() == ConnectionStatus::Disconnected,
            r.published() == Seq::<StatusEvent>::empty(),
    {
        Supervisor { status: ConnectionStatus::Disconnected, events: Ghost(Seq::empty()) }
    }

    pub fn status(&self) -> (r: ConnectionStatus)
        ensures
            r == self.spec_status(),
    {
        self.status
    }

    /// What the next tick of the loop does: reconnect when down, check
    /// liveness when up.
    pub fn tick(&self) -> (r: TickAction)
        ensures
            r == tick_action(self.spec_status()),
    {
        match self.status {
            ConnectionStatus::Disconnected => TickAction::Connect,
            ConnectionStatus::Connected => TickAction::CheckAlive,
        }
    }

    fn publish(&mut self, e: Option<StatusEvent>)
        ensures
            final(self).spec_status() == old(self).spec_status(),
            final(self).published() == match e {
                Some(x) => old(self).published().push(x),
                None => old(self).published(),
            },
    {
        if let Some(x) = e {
            self.events = Ghost(self.events@.push(x));
        }
    }

    /// Records the outcome of a connect attempt made by the loop.
    pub fn on_attempt(&mut self, ok: bool) -> (r: Option<StatusEvent>)
        ensures
            (final(self).spec_status(), r) == after_attempt(old(self).spec_status(), ok),
            final(self).published() == match r {
                Some(x) => old(self).published().push(x),
                None => old(self).published(),
            },
    {
        let e = if ok && self.status == ConnectionStatus::Disconnected {
            Some(StatusEvent::Reconnected)
        } else {
            None
        };
        if ok {
            self.status = ConnectionStatus::Connected;
        }
        self.publish(e);
        e
    }

    /// Records the outcome of a liveness check made by the loop.
    pub fn on_probe(&mut self, alive: bool) -> (r: Option<StatusEvent>)
        ensures
            (final(self).spec_status(), r) == after_probe(old(self).spec_status(), alive),
            final(self).published() == match r {
                Some(x) => old(self).published().push(x),
                None => old(self).published(),
            },
    {
        let e = if !alive && self.status == ConnectionStatus::Connected {
            Some(StatusEvent::Lost)
        } else {
            None
        };
        if !alive {
            self.status = ConnectionStatus::Disconnected;
        }
        self.publish(e);
        e
    }

    /// Records the outcome of an explicit connect. A success that brings the
    /// connection up publishes `Connected`; a failure changes nothing.
    pub fn on_connect(&mut self, ok: bool) -> (r: Option<StatusEvent>)
        ensures
            ok ==> final(self).spec_status() == ConnectionStatus::Connected,
            !ok ==> final(self).spec_status() == old(self).spec_status(),
            r == (if ok && old(self).spec_status() == ConnectionStatus::Disconnected {
                Some(StatusEvent::Connected)
            } else {
                None
            }),
            final(self).published() == match r {
                Some(x) => old(self).published().push(x),
                None => old(self).published(),
            },
    {
        let e = if ok && self.status == ConnectionStatus::Disconnected {
            Some(StatusEvent::Connected)
        } else {
            None
        };
        if ok {
            self.status = ConnectionStatus::Connected;
        }
        self.publish(e);
        e
    }

    /// Records an explicit disconnect. Taking a live connection down
    /// publishes `Disconnected`.
    pub fn on_disconnect(&mut self) -> (r: Option<StatusEvent>)
        ensures
            final(self).spec_status() == ConnectionStatus::Disconnected,
            r == (if old(self).spec_status() == ConnectionStatus::Connected {
                Some(StatusEvent::Disconnected)
            } else {
                None
            }),
            final(self).published() == match r {
                Some(x) => old(self).published().push(x),
                None => old(self).published(),
            },
    {
        let e = if self.status == ConnectionStatus::Connected {
            Some(StatusEvent::Disconnected)
        } else {
            None
        };
        self.status = ConnectionStatus::Disconnected;
        self.publish(e);
        e
    }
}

} // verus!
