//! When the daemon exits, and the decisions of its accept loop.
//!
//! The loop accepts connections and serves each on its own task until a
//! signal, a shutdown request, or the idle timeout starts a drain. The idle
//! timer runs only while no connection is open. A drain stops accepting,
//! waits up to the drain timeout for open connections, cuts the rest, and
//! returns.

use vstd::prelude::*;
use crate::cache::same_text;
use crate::config::{duration_of, duration_value, from_config, read_config, ConfigError, Field, Settings};

verus! {

/// When the daemon exits, durations in milliseconds.
#[derive(Clone, Copy, Debug, PartialEq, Eq, Structural)]
pub struct Lifecycle {
    /// Exit after this long with no open connection. 10 minutes; `0`
    /// disables it.
    pub idle_timeout_ms: u64,
    /// How long a drain waits for open connections before it cuts them. 5
    /// seconds.
    pub drain_timeout_ms: u64,
}

pub open spec fn default_lifecycle() -> Lifecycle {
    Lifecycle { idle_timeout_ms: 600_000, drain_timeout_ms: 5_000 }
}

impl Default for Lifecycle {
    fn default() -> (lifecycle: Self)
        ensures
            lifecycle == default_lifecycle(),
    {
        Lifecycle { idle_timeout_ms: 600_000, drain_timeout_ms: 5_000 }
    }
}

impl Settings for Lifecycle {
    open spec fn knows(name: Seq<char>) -> bool {
        name == "idle_timeout"@ || name == "drain_timeout"@
    }

    open spec fn with_field(self, field: (Seq<char>, Option<Seq<char>>, Option<u64>)) -> Option<Self> {
        if field.0 == "idle_timeout"@ {
            match duration_value(field) {
                Some(ms) => Some(Lifecycle { idle_timeout_ms: ms, ..self }),
                None => None,
            }
        } else if field.0 == "drain_timeout"@ {
            match duration_value(field) {
                Some(ms) => Some(Lifecycle { drain_timeout_ms: ms, ..self }),
                None => None,
            }
        } else {
            None
        }
    }

    fn set(&mut self, field: &Field) -> (result: Result<(), ConfigError>) {
        let name = field.name.as_str();
        if same_text(name, "idle_timeout") {
            match duration_of(field) {
                Some(ms) => {
                    self.idle_timeout_ms = ms;
                    Ok(())
                },
                None => Err(ConfigError::InvalidValue(field.name.clone())),
            }
        } else if same_text(name, "drain_timeout") {
            match duration_of(field) {
                Some(ms) => {
                    self.drain_timeout_ms = ms;
                    Ok(())
                },
                None => Err(ConfigError::InvalidValue(field.name.clone())),
            }
        } else {
            Err(ConfigError::UnknownField(field.name.clone()))
        }
    }
}

impl Lifecycle {
    /// The lifecycle a JSON config sets, each field it leaves out at its
    /// default.
    pub fn from_config(text: &str) -> (result: Result<Lifecycle, ConfigError>)
        ensures
            match result {
                Ok(lifecycle) => read_config(default_lifecycle(), text@) == Some(
                    Ok::<Lifecycle, Seq<char>>(lifecycle),
                ),
                Err(ConfigError::NotAnObject) => read_config(default_lifecycle(), text@) is None,
                Err(ConfigError::UnknownField(name)) => read_config(default_lifecycle(), text@)
                    == Some(Err::<Lifecycle, Seq<char>>(name@)) && !Lifecycle::knows(name@),
                Err(ConfigError::InvalidValue(name)) => read_config(default_lifecycle(), text@)
                    == Some(Err::<Lifecycle, Seq<char>>(name@)) && Lifecycle::knows(name@),
            },
    {
        from_config(Lifecycle::default(), text)
    }

    /// Whether the idle timer runs: only with no open connection, and only
    /// when the idle timeout is not `0`.
    pub fn idle_armed(&self, open: usize) -> (armed: bool)
        ensures
            armed == (open == 0 && self.idle_timeout_ms != 0),
    {
        open == 0 && self.idle_timeout_ms != 0
    }
}

/// What happened while the accept loop waited.
#[derive(Clone, Copy, Debug, PartialEq, Eq, Structural)]
pub enum Event {
    /// A connection was accepted; it is served on its own task.
    Accepted,
    /// A served connection finished or was cut.
    Closed,
    /// An accept failed because the peer gave up on the connection.
    Aborted,
    /// An accept failed for another reason.
    AcceptFailed,
    /// The idle timer ran out.
    IdleElapsed,
    /// A handler requested a shutdown.
    ShutdownRequested,
    /// `SIGTERM` or `SIGINT` arrived.
    Signal,
}

/// What the accept loop does next.
#[derive(Clone, Copy, Debug, PartialEq, Eq, Structural)]
pub enum Step {
    /// Keep accepting.
    Continue,
    /// Stop accepting and drain; `failed` when the loop ends with the accept
    /// error.
    Drain { failed: bool },
}

/// The connections the accept loop has open.
#[derive(Clone, Copy, Debug, PartialEq, Eq, Structural)]
pub struct Connections {
    pub open: usize,
}

impl Connections {
    /// No connection open yet.
    pub fn new() -> (connections: Connections)
        ensures
            connections.open == 0,
    {
        Connections { open: 0 }
    }

    /// Takes one event. An accepted connection opens, a closed one leaves;
    /// a peer that gave up is ignored; any other accept failure, the idle
    /// timer, a shutdown request and a signal all start the drain.
    pub fn step(&mut self, event: Event) -> (step: Step)
        requires
            event == Event::Accepted ==> old(self).open < usize::MAX,
            event == Event::Closed ==> old(self).open > 0,
        ensures
            final(self).open == match event {
                Event::Accepted => (old(self).open + 1) as usize,
                Event::Closed => (old(self).open - 1) as usize,
                _ => old(self).open,
            },
            step == match event {
                Event::Accepted | Event::Closed | Event::Aborted => Step::Continue,
                Event::AcceptFailed => Step::Drain { failed: true },
                Event::IdleElapsed | Event::ShutdownRequested | Event::Signal => Step::Drain {
                    failed: false,
                },
            },
    {
        match event {
            Event::Accepted => {
                self.open = self.open + 1;
                Step::Continue
            },
            Event::Closed => {
                self.open = self.open - 1;
                Step::Continue
            },
            Event::Aborted => Step::Continue,
            Event::AcceptFailed => Step::Drain { failed: true },
            Event::IdleElapsed | Event::ShutdownRequested | Event::Signal => Step::Drain {
                failed: false,
            },
        }
    }
}

} // verus!
