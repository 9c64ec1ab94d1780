//! The values the command line hands the proxy, as plain data; the argument
//! parser that fills them lives with the binary.

use vstd::prelude::*;

verus! {

/// The command-line values, before route strings are parsed.
#[derive(Debug)]
pub struct Cli {
    pub host: String,
    pub local_port: u16,
    pub proxies: Vec<String>,
    pub config: Option<String>,
    pub tls: bool,
    pub pem: Option<String>,
    pub key: Option<String>,
}

} // verus!
