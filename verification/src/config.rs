//! What a relay or a client is started with.

use vstd::prelude::*;

verus! {

/// The settings of one process, read once when it starts.
///
/// `safe_mode` is for diagnostics alone: it decides how sensitive values
/// are shown in what the process logs. The broadcast core never sees it.
#[derive(Debug, Clone, PartialEq, Eq)]
pub struct Config {
    /// Where to listen, or where to connect: `host:port`.
    pub address: String,
    /// Whether diagnostics hide sensitive values.
    pub safe_mode: bool,
}

/// How a sensitive value is shown: hidden in safe mode, else as it is.
pub open spec fn shown_text(safe_mode: bool, value: Seq<char>) -> Seq<char> {
    if safe_mode {
        "[REDACTED]"@
    } else {
        value
    }
}

impl Config {
    /// Settings with the given address and diagnostics mode.
    pub fn new(address: String, safe_mode: bool) -> (config: Config)
        ensures
            config.address@ == address@,
            config.safe_mode == safe_mode,
    {
        Config { address, safe_mode }
    }

    /// The settings of a relay on this machine: port 3000 on the loopback
    /// address, and nothing hidden.
    pub fn local() -> (config: Config)
        ensures
            config.address@ == "127.0.0.1:3000"@,
            !config.safe_mode,
    {
        Config { address: "127.0.0.1:3000".to_owned(), safe_mode: false }
    }

    /// The text by which diagnostics show a sensitive `value`.
    pub fn sensitive(&self, value: &str) -> (text: String)
        ensures
            text@ == shown_text(self.safe_mode, value@),
    {
        if self.safe_mode {
            "[REDACTED]".to_owned()
        } else {
            value.to_owned()
        }
    }
}

} // verus!
