//! The validated settings record the server runs on. Reading and parsing
//! the configuration file happen outside the library; the validation rules
//! and the listen addresses derived from the record are verified here.

use vstd::prelude::*;
use vstd::string::StrSliceExecFns;
use vstd::string::StringExecFns;

use crate::strutil::dec_rep;
use crate::strutil::u64_to_string;

verus! {

/// The server settings: listen host and ports, document root, declared
/// thread cap, and log file path.
pub struct Config {
    pub host: String,
    pub port: u16,
    pub admin_port: u16,
    pub document_root: String,
    pub max_threads: usize,
    pub log_file: String,
}

/// The fields a configuration must fill: nonempty host, document root and
/// log file, and nonzero ports.
pub open spec fn config_valid(c: Config) -> bool {
    &&& c.host@.len() > 0
    &&& c.port != 0
    &&& c.admin_port != 0
    &&& c.document_root@.len() > 0
    &&& c.log_file@.len() > 0
}

impl Config {
    /// Checks the required fields, reporting the first violation in order:
    /// host, port, admin port, document root, log file.
    pub fn validate(&self) -> (r: Result<(), String>)
        ensures
            r is Ok <==> config_valid(*self),
            self.host@.len() == 0 ==> (r matches Err(e) && e@ == "host cannot be empty"@),
            self.host@.len() > 0 && self.port == 0 ==> (r matches Err(e) && e@
                == "port must be a non-zero value"@),
            self.host@.len() > 0 && self.port != 0 && self.admin_port == 0 ==> (r matches Err(e)
                && e@ == "admin_port must be a non-zero value"@),
            self.host@.len() > 0 && self.port != 0 && self.admin_port != 0
                && self.document_root@.len() == 0 ==> (r matches Err(e) && e@
                == "document_root cannot be empty"@),
            self.host@.len() > 0 && self.port != 0 && self.admin_port != 0
                && self.document_root@.len() > 0 && self.log_file@.len() == 0 ==> (r matches Err(e)
                && e@ == "log_file cannot be empty"@),
    {
        if self.host.as_str().is_empty() {
            Err("host cannot be empty".to_owned())
        } else if self.port == 0 {
            Err("port must be a non-zero value".to_owned())
        } else if self.admin_port == 0 {
            Err("admin_port must be a non-zero value".to_owned())
        } else if self.document_root.as_str().is_empty() {
            Err("document_root cannot be empty".to_owned())
        } else if self.log_file.as_str().is_empty() {
            Err("log_file cannot be empty".to_owned())
        } else {
            Ok(())
        }
    }

    /// The address the main listener binds: `host:port`.
    pub fn listen_addr(&self) -> (a: String)
        ensures
            a@ == self.host@ + ":"@ + dec_rep(self.port as nat),
    {
        let mut a = self.host.clone();
        a.append(":");
        let port_s = u64_to_string(self.port as u64);
        a.append(port_s.as_str());
        a
    }

    /// The address the admin listener binds: `host:admin_port`.
    pub fn admin_addr(&self) -> (a: String)
        ensures
            a@ == self.host@ + ":"@ + dec_rep(self.admin_port as nat),
    {
        let mut a = self.host.clone();
        a.append(":");
        let port_s = u64_to_string(self.admin_port as u64);
        a.append(port_s.as_str());
        a
    }
}

} // verus!
