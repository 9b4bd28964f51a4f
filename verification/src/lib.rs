//! Host-resident agent library: a chunked file-transfer engine.
//!
//! The engine reassembles an out-of-order chunk stream into a verified file:
//! a transfer state machine with cascading commits ([`transfer::File`]), an
//! integrity-checked atomic install with rollback ([`install`]), a global
//! flow-control scheduler ([`scheduler`]), a transfer registry ([`registry`]),
//! and the internal control protocol the loops exchange ([`msg`]).
//!
//! All filesystem and socket effects live outside this library: callers probe
//! the disk and move bytes, the library decides and accounts.

pub mod config;
pub mod decimal;
pub mod error;
pub mod hash;
pub mod ingest;
pub mod install;
pub mod msg;
pub mod registry;
pub mod scheduler;
pub mod transfer;

use vstd::prelude::*;
use crate::config::AgentConf;
use crate::error::Error;

verus! {

/// Load the agent's configuration from the default directories: the caller
/// probes `agent.json` under each of [`config::default_conf_dirs`], in
/// order, and hands the outcomes over; the first that loaded wins.
pub fn load_agent_conf(loaded: Vec<Option<AgentConf>>) -> (r: Result<AgentConf, Error>)
    ensures
        match r {
            Ok(c) => exists|i: int| 0 <= i < loaded@.len() && #[trigger] loaded@[i] == Some(c)
                && (forall|j: int| 0 <= j < i ==> loaded@[j] is None),
            Err(e) => e == Error::MissingConf && (forall|j: int|
                0 <= j < loaded@.len() ==> loaded@[j] is None),
        },
{
    AgentConf::load_path(loaded)
}

} // verus!
