//! The agent's configuration: which certificate it serves and which ports
//! its API, upload and download endpoints bind.
//!
//! The configuration file is `agent.json` under one of a list of candidate
//! directories. Reading and decoding the file is the caller's: it probes the
//! candidates ([`conf_candidate`] names each file) and hands the outcomes,
//! in order, to [`AgentConf::load_path`].

use vstd::prelude::*;
use crate::error::Error;

verus! {

/// The agent's settings, as decoded from `agent.json`.
#[derive(Debug)]
pub struct AgentConf {
    pub server_cert: String,
    pub users_path: String,
    pub api_port: i32,
    pub upload_port: i32,
    pub download_port: i32,
}

impl AgentConf {
    /// Pick the configuration from the first candidate that loaded; with
    /// every candidate failed or missing, the configuration is missing.
    pub fn load_path(loaded: Vec<Option<AgentConf>>) -> (r: Result<AgentConf, Error>)
        ensures
            match r {
                Ok(c) => exists|i: int| 0 <= i < loaded@.len() && #[trigger] loaded@[i]
                    == Some(c) && (forall|j: int| 0 <= j < i ==> loaded@[j] is None),
                Err(e) => e == Error::MissingConf && (forall|j: int|
                    0 <= j < loaded@.len() ==> loaded@[j] is None),
            },
    {
        let mut rest = loaded;
        let mut i: usize = 0;
        while i < rest.len()
            invariant
                rest@ == loaded@,
                i <= loaded@.len(),
                forall|j: int| 0 <= j < i ==> loaded@[j] is None,
            decreases loaded@.len() - i,
        {
            let found = rest[i].is_some();
            if found {
                let head = rest.remove(i);
                match head {
                    Some(c) => {
                        proof {
                            assert(loaded@[i as int] == Some(c));
                        }
                        return Ok(c);
                    },
                    None => {
                        proof {
                            assert(false);
                        }
                    },
                }
            }
            i = i + 1;
        }
        Err(Error::MissingConf)
    }
}

/// The directories probed when none is given: the local override first, then
/// the system location.
pub fn default_conf_dirs() -> (r: Vec<String>)
    ensures
        r@.len() == 2,
        r@[0]@ == "/usr/local/etc"@,
        r@[1]@ == "/etc"@,
{
    let mut dirs: Vec<String> = Vec::new();
    dirs.push("/usr/local/etc".to_owned());
    dirs.push("/etc".to_owned());
    dirs
}

/// The configuration file a candidate directory would hold.
pub fn conf_candidate(dir: &String) -> (r: String)
    ensures
        r@ == dir@ + "/intecture/agent.json"@,
{
    let mut path = dir.clone();
    path.append("/intecture/agent.json");
    path
}

} // verus!
