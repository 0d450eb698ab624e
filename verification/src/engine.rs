//! Engine configurations: where containers can be created, and the rules
//! that make a set of engines unambiguous.
//!
//! An engine descriptor names a container-runtime endpoint; connecting to it
//! and driving containers is the surrounding process's work. The validation
//! here is what the core decides: names and hosts must be unique, and a
//! detector's engine reference must resolve.

use vstd::prelude::*;
use vstd::string::StringExecFns;

use crate::text::{spec_u64_chars, u64_string};
use crate::util;

verus! {

/// A path expected to be readable; the surrounding process checks
/// readability before handing it in.
#[derive(Debug, PartialEq, Eq)]
pub struct ReadableFilePath {
    path: String,
}

impl ReadableFilePath {
    /// The path's text.
    pub closed spec fn view_path(&self) -> Seq<char> {
        self.path@
    }

    /// Wraps a path.
    pub fn new(path: String) -> (r: ReadableFilePath)
        ensures
            r.view_path() == path@,
    {
        ReadableFilePath { path }
    }

    /// The path as a borrowed string.
    pub fn as_ref(&self) -> (r: &str)
        ensures
            r@ == self.view_path(),
    {
        self.path.as_str()
    }
}

/// The key material for a TLS connection to a remote engine.
#[derive(Debug, PartialEq, Eq)]
pub struct SslConfig {
    pub private_key: ReadableFilePath,
    pub cert_key: ReadableFilePath,
    pub certificate_chain: ReadableFilePath,
}

/// Where a remote engine listens.
#[derive(Debug, PartialEq, Eq)]
pub struct RemoteConfig {
    pub host: String,
    pub port: Option<u16>,
    pub authentication: Option<SslConfig>,
}

/// The port a remote engine is addressed on when none is configured: the
/// conventional plain port, or the TLS port when keys are configured.
pub open spec fn spec_remote_port(c: RemoteConfig) -> u16 {
    match c.port {
        Some(p) => p,
        None => if c.authentication is None {
            2375
        } else {
            2376
        },
    }
}

impl RemoteConfig {
    /// The configured host.
    pub fn host(&self) -> (r: &str)
        ensures
            r@ == self.host@,
    {
        self.host.as_str()
    }

    /// The port to address, configured or conventional.
    pub fn port(&self) -> (r: u16)
        ensures
            r == spec_remote_port(*self),
    {
        match self.port {
            Some(p) => p,
            None => {
                if matches!(self.authentication, None) {
                    2375
                } else {
                    2376
                }
            },
        }
    }

    /// The address text, `host:port`.
    pub fn address(&self) -> (r: String)
        ensures
            r@ == self.host@ + ":"@ + spec_u64_chars(spec_remote_port(*self) as nat),
    {
        let mut t = self.host.clone();
        t.append(":");
        let digits = u64_string(self.port() as u64);
        t.append(digits.as_str());
        t
    }
}

/// One engine: its name, and where it listens if it is remote.
#[derive(Debug, PartialEq, Eq)]
pub struct Config {
    pub name: String,
    pub remote_config: Option<RemoteConfig>,
}


impl Clone for ReadableFilePath {
    fn clone(&self) -> (r: Self)
        ensures
            r == *self,
    {
        ReadableFilePath { path: self.path.clone() }
    }
}

impl Clone for SslConfig {
    fn clone(&self) -> (r: Self)
        ensures
            r == *self,
    {
        SslConfig {
            private_key: self.private_key.clone(),
            cert_key: self.cert_key.clone(),
            certificate_chain: self.certificate_chain.clone(),
        }
    }
}

impl Clone for RemoteConfig {
    fn clone(&self) -> (r: Self)
        ensures
            r == *self,
    {
        RemoteConfig {
            host: self.host.clone(),
            port: match self.port {
                Some(p) => Some(p),
                None => None,
            },
            authentication: match &self.authentication {
                Some(a) => Some(a.clone()),
                None => None,
            },
        }
    }
}

impl Clone for Config {
    fn clone(&self) -> (r: Self)
        ensures
            r == *self,
    {
        Config {
            name: self.name.clone(),
            remote_config: match &self.remote_config {
                Some(rc) => Some(rc.clone()),
                None => None,
            },
        }
    }
}

impl Config {
    /// The host a freshly started container is reached on: the remote host,
    /// or the loopback address for the local engine.
    pub fn service_host(&self) -> (r: &str)
        ensures
            self.remote_config matches Some(rc) ==> r@ == rc.host@,
            self.remote_config is None ==> r@ == "127.0.0.1"@,
    {
        match &self.remote_config {
            Some(remote) => remote.host(),
            None => "127.0.0.1",
        }
    }
}

/// Why a set of engines was rejected.
#[derive(Debug, Clone, PartialEq, Eq)]
pub enum Error {
    /// Connecting to an engine failed; carries the engine's name, if it has
    /// one, and the reason.
    ConnectionFailed(Option<String>, String),
    /// Two engines share a name.
    DuplicatedName(String),
    /// Two engines share a host.
    DuplicatedHost(String),
}

/// The name every implicit engine gets.
pub open spec fn default_engine_name() -> Seq<char> {
    "default"@
}

/// The key under which an engine's host is checked for duplicates: the
/// remote address, or `local` for the local engine.
pub open spec fn spec_host_key(c: Config) -> Seq<char> {
    match c.remote_config {
        Some(remote) => remote.host@ + ":"@ + spec_u64_chars(spec_remote_port(remote) as nat),
        None => "local"@,
    }
}

/// The name of each engine, in order.
pub open spec fn spec_names(engines: Seq<Config>) -> Seq<Seq<char>> {
    engines.map_values(|c: Config| c.name@)
}

/// The host key of each engine, in order.
pub open spec fn spec_host_keys(engines: Seq<Config>) -> Seq<Seq<char>> {
    engines.map_values(|c: Config| spec_host_key(c))
}

/// The position of the first engine at or after `i` called `name`.
pub open spec fn spec_find(engines: Seq<Config>, name: Seq<char>, i: int) -> Option<int>
    decreases engines.len() - i,
{
    if !(0 <= i < engines.len()) {
        None
    } else if engines[i].name@ == name {
        Some(i)
    } else {
        spec_find(engines, name, i + 1)
    }
}

/// A validated set of engines: names and hosts pairwise distinct.
#[derive(Debug, Clone)]
pub struct Engines {
    engines: Vec<Config>,
}

impl Engines {
    /// The engines, in configured order.
    pub closed spec fn engines(&self) -> Seq<Config> {
        self.engines@
    }

    /// Validates a set of engines. An empty set becomes the single implicit
    /// local engine; otherwise the first repeated name, then the first
    /// repeated host, is rejected.
    pub fn try_from(engines: Vec<Config>) -> (r: Result<Engines, Error>)
        ensures
            engines@.len() == 0 ==> (r matches Ok(e) && e.engines().len() == 1
                && e.engines()[0].name@ == default_engine_name()
                && e.engines()[0].remote_config is None),
            engines@.len() > 0 ==> match r {
                Ok(e) => e.engines() == engines@ && (forall|j: int|
                    0 <= j < engines@.len() ==> !util::duplicate_at(
                        spec_names(engines@),
                        j,
                    )) && (forall|j: int|
                    0 <= j < engines@.len() ==> !util::duplicate_at(spec_host_keys(engines@), j)),
                Err(Error::DuplicatedName(k)) => exists|j: int|
                    #[trigger] util::first_duplicate_at(spec_names(engines@), j) && k@
                        == spec_names(engines@)[j],
                Err(Error::DuplicatedHost(k)) => (forall|j: int|
                    0 <= j < engines@.len() ==> !util::duplicate_at(spec_names(engines@), j))
                    && exists|j: int|
                    #[trigger] util::first_duplicate_at(spec_host_keys(engines@), j) && k@
                        == spec_host_keys(engines@)[j],
                Err(_) => false,
            },
    {
        if engines.len() == 0 {
            let name = "default".to_owned();
            let config = Config { name, remote_config: None };
            let mut list: Vec<Config> = Vec::new();
            list.push(config);
            return Ok(Engines { engines: list });
        }
        let mut names: Vec<String> = Vec::new();
        let mut i: usize = 0;
        while i < engines.len()
            invariant
                i <= engines@.len(),
                names.deep_view().len() == i,
                forall|k: int| 0 <= k < i ==> names.deep_view()[k] == spec_names(engines@)[k],
            decreases engines@.len() - i,
        {
            let ghost prev = names.deep_view();
            names.push(engines[i].name.clone());
            proof {
                assert(names.deep_view() =~= prev.push(engines@[i as int].name@));
            }
            i += 1;
        }
        proof {
            assert(names.deep_view() =~= spec_names(engines@));
        }
        if let Some(dup) = util::check_duplicates(&names) {
            return Err(Error::DuplicatedName(dup));
        }
        let mut hosts: Vec<String> = Vec::new();
        let mut j: usize = 0;
        while j < engines.len()
            invariant
                j <= engines@.len(),
                hosts.deep_view().len() == j,
                forall|k: int| 0 <= k < j ==> hosts.deep_view()[k] == spec_host_keys(engines@)[k],
            decreases engines@.len() - j,
        {
            let key = match &engines[j].remote_config {
                Some(remote) => remote.address(),
                None => "local".to_owned(),
            };
            let ghost prev = hosts.deep_view();
            hosts.push(key);
            proof {
                assert(hosts.deep_view() =~= prev.push(spec_host_key(engines@[j as int])));
            }
            j += 1;
        }
        proof {
            assert(hosts.deep_view() =~= spec_host_keys(engines@));
        }
        if let Some(dup) = util::check_duplicates(&hosts) {
            return Err(Error::DuplicatedHost(dup));
        }
        Ok(Engines { engines })
    }

    /// The first engine called `name`, if any.
    pub fn get(&self, name: &str) -> (r: Option<&Config>)
        ensures
            match r {
                Some(c) => spec_find(self.engines(), name@, 0) matches Some(j) && *c
                    == self.engines()[j],
                None => spec_find(self.engines(), name@, 0) is None,
            },
    {
        let mut i: usize = 0;
        while i < self.engines.len()
            invariant
                i <= self.engines@.len(),
                spec_find(self.engines@, name@, 0) == spec_find(self.engines@, name@, i as int),
            decreases self.engines@.len() - i,
        {
            if string_eq_str(&self.engines[i].name, name) {
                return Some(&self.engines[i]);
            }
            i += 1;
        }
        None
    }

    /// The engine to use when a detector names none: the only engine when
    /// there is only one, else the engine called `default`.
    pub fn get_default(&self) -> (r: Option<&Config>)
        ensures
            self.engines().len() == 1 ==> (r matches Some(c) && *c == self.engines()[0]),
            self.engines().len() != 1 ==> match r {
                Some(c) => spec_find(self.engines(), default_engine_name(), 0) matches Some(j)
                    && *c == self.engines()[j],
                None => spec_find(self.engines(), default_engine_name(), 0) is None,
            },
    {
        if self.engines.len() == 1 {
            return Some(&self.engines[0]);
        }
        self.get("default")
    }
}

/// Compares an owned string with a borrowed one.
fn string_eq_str(a: &String, b: &str) -> (r: bool)
    ensures
        r == (a@ == b@),
{
    let bs = b.to_owned();
    a.eq(&bs)
}

} // verus!
