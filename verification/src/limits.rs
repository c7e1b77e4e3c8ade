//! Bounds on one connection.

use vstd::prelude::*;
use crate::cache::same_text;
use crate::config::{duration_of, duration_value, from_config, read_config, ConfigError, Field, Settings};

verus! {

/// Bounds on one connection, durations in milliseconds. A consumer embeds
/// them in its own config and sets only what it needs.
#[derive(Clone, Copy, Debug, PartialEq, Eq, Structural)]
pub struct Limits {
    /// The largest frame in either direction, newline included. 16 MiB.
    pub max_frame_bytes: usize,
    /// How long the server waits for a whole request. 10 seconds.
    pub read_timeout_ms: u64,
    /// How long the server waits for the client to take the response. 10
    /// seconds.
    pub write_timeout_ms: u64,
}

pub open spec fn default_transport_limits() -> Limits {
    Limits { max_frame_bytes: 16_777_216, read_timeout_ms: 10_000, write_timeout_ms: 10_000 }
}

impl Default for Limits {
    fn default() -> (limits: Self)
        ensures
            limits == default_transport_limits(),
    {
        Limits { max_frame_bytes: 16_777_216, read_timeout_ms: 10_000, write_timeout_ms: 10_000 }
    }
}

impl Settings for Limits {
    open spec fn knows(name: Seq<char>) -> bool {
        name == "max_frame_bytes"@ || name == "read_timeout"@ || name == "write_timeout"@
    }

    open spec fn with_field(self, field: (Seq<char>, Option<Seq<char>>, Option<u64>)) -> Option<Self> {
        if field.0 == "max_frame_bytes"@ {
            match field.2 {
                Some(n) => if n <= usize::MAX {
                    Some(Limits { max_frame_bytes: n as usize, ..self })
                } else {
                    None
                },
                None => None,
            }
        } else if field.0 == "read_timeout"@ {
            match duration_value(field) {
                Some(ms) => Some(Limits { read_timeout_ms: ms, ..self }),
                None => None,
            }
        } else if field.0 == "write_timeout"@ {
            match duration_value(field) {
                Some(ms) => Some(Limits { write_timeout_ms: ms, ..self }),
                None => None,
            }
        } else {
            None
        }
    }

    fn set(&mut self, field: &Field) -> (result: Result<(), ConfigError>) {
        let name = field.name.as_str();
        if same_text(name, "max_frame_bytes") {
            match field.number {
                Some(n) => if n <= usize::MAX as u64 {
                    self.max_frame_bytes = n as usize;
                    Ok(())
                } else {
                    Err(ConfigError::InvalidValue(field.name.clone()))
                },
                None => Err(ConfigError::InvalidValue(field.name.clone())),
            }
        } else if same_text(name, "read_timeout") {
            match duration_of(field) {
                Some(ms) => {
                    self.read_timeout_ms = ms;
                    Ok(())
                },
                None => Err(ConfigError::InvalidValue(field.name.clone())),
            }
        } else if same_text(name, "write_timeout") {
            match duration_of(field) {
                Some(ms) => {
                    self.write_timeout_ms = ms;
                    Ok(())
                },
                None => Err(ConfigError::InvalidValue(field.name.clone())),
            }
        } else {
            Err(ConfigError::UnknownField(field.name.clone()))
        }
    }
}

impl Limits {
    /// The limits a JSON config sets, each field it leaves out at its
    /// default.
    pub fn from_config(text: &str) -> (result: Result<Limits, ConfigError>)
        ensures
            match result {
                Ok(limits) => read_config(default_transport_limits(), text@) == Some(
                    Ok::<Limits, Seq<char>>(limits),
                ),
                Err(ConfigError::NotAnObject) => read_config(default_transport_limits(), text@) is None,
                Err(ConfigError::UnknownField(name)) => read_config(default_transport_limits(), text@)
                    == Some(Err::<Limits, Seq<char>>(name@)) && !Limits::knows(name@),
                Err(ConfigError::InvalidValue(name)) => read_config(default_transport_limits(), text@)
                    == Some(Err::<Limits, Seq<char>>(name@)) && Limits::knows(name@),
            },
    {
        from_config(Limits::default(), text)
    }
}

} // verus!
