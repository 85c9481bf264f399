//! The configuration of the server.

use vstd::prelude::*;

verus! {

/// The configuration file that is read unless another is named.
pub const DEFAULT_CONFIG_PATH: &'static str = "config.json";

/// What the configuration file holds.
#[derive(Debug, PartialEq, Eq)]
pub struct ConfigStruct {
    /// The IPv4 address to listen on.
    pub listen_addr: String,
    pub listen_port: u16,
    pub listen_backlog: i32,
    /// In seconds.
    pub keepalive_interval: u64,
    pub keepalive_retries: u32,
}

/// How the system looks after idle connections.
#[derive(Clone, Copy, Debug, PartialEq, Eq, Structural)]
pub struct KeepaliveParams {
    /// How long a connection is idle before it is probed, in seconds.
    pub time: u64,
    /// How far apart probes are, in seconds.
    pub interval: u64,
    /// How many probes may go unanswered.
    pub retries: u32,
}

impl ConfigStruct {
    /// The keepalive parameters.  The configured interval also serves as the time
    /// before the first probe.
    pub fn keepalive_params(&self) -> (params: KeepaliveParams)
        ensures
            params.time == self.keepalive_interval,
            params.interval == self.keepalive_interval,
            params.retries == self.keepalive_retries,
    {
        KeepaliveParams {
            time: self.keepalive_interval,
            interval: self.keepalive_interval,
            retries: self.keepalive_retries,
        }
    }
}

/// Finds the path of the configuration file in the command line, of which the first
/// word is the program's name.
pub fn config_path(cli_args: &Vec<String>) -> (path: String)
    ensures
        path@ == if cli_args@.len() < 2 {
            DEFAULT_CONFIG_PATH@
        } else {
            cli_args@[1]@
        },
{
    if cli_args.len() < 2 {
        DEFAULT_CONFIG_PATH.to_string()
    } else {
        cli_args[1].clone()
    }
}

} // verus!
