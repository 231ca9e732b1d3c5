//! The gateway's configuration.

use vstd::prelude::*;

verus! {

/// Where the backend listens, and the two files it is started with. Made
/// once, before the backend is launched; nothing can change it afterwards.
#[derive(Clone, Debug)]
pub struct FpmConfig {
    script_path: String,
    addr: String,
    config_path: String,
}

/// A configuration as plain values.
pub struct ConfigView {
    /// The absolute path of the script that every request runs.
    pub script_path: Seq<char>,
    /// The network address of the backend.
    pub addr: Seq<char>,
    /// The absolute path of the backend's configuration file.
    pub config_path: Seq<char>,
}

impl View for FpmConfig {
    type V = ConfigView;

    closed spec fn view(&self) -> ConfigView {
        ConfigView {
            script_path: self.script_path@,
            addr: self.addr@,
            config_path: self.config_path@,
        }
    }
}

impl FpmConfig {
    /// A configuration of the two paths, which the caller has made absolute,
    /// and the backend's address.
    pub fn new(script_path: String, config_path: String, addr: &str) -> (config: FpmConfig)
        ensures
            config@.script_path == script_path@,
            config@.config_path == config_path@,
            config@.addr == addr@,
    {
        FpmConfig { script_path, config_path, addr: addr.to_owned() }
    }

    /// The path of the script that every request runs.
    pub fn script_path(&self) -> (path: &str)
        ensures
            path@ == self@.script_path,
    {
        self.script_path.as_str()
    }

    /// The network address of the backend.
    pub fn addr(&self) -> (addr: &str)
        ensures
            addr@ == self@.addr,
    {
        self.addr.as_str()
    }

    /// The path of the backend's configuration file.
    pub fn config_path(&self) -> (path: &str)
        ensures
            path@ == self@.config_path,
    {
        self.config_path.as_str()
    }
}

} // verus!
