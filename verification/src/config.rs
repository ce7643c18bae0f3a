//! The configuration of the server and the options of its command line.

use crate::address::Ipv4Address;
use crate::error::{DhcpError, DhcpResult};
use crate::sources::headers::{
    check_config, config_fault, crowded_config, refused, tells, HeaderFault,
};
use crate::sources::rest::{DhcpRestSource, DhcpRestSourceConfig};
use crate::text::text_eq;
use vstd::prelude::*;

verus! {

/// One configured source: its kind and the configuration of its phases.
#[derive(Debug)]
pub struct Sources {
    pub kind: String,
    pub config: DhcpRestSourceConfig,
}

/// The configuration of the server: the UDP port, the local addresses to
/// answer on, if they are restricted, and the sources in their order.
#[derive(Debug)]
pub struct DhcpConfig {
    port: u16,
    listen: Option<Vec<Ipv4Address>>,
    sources: Vec<Sources>,
}

/// What is wrong with a configured source.
pub enum SourceFault {
    /// Its kind is unknown.
    Kind,
    /// A header of one of its queries is not valid.
    Header(HeaderFault),
}

/// The fault of a source, if it has one: a kind other than `rest`, or the
/// fault of its configuration.
pub open spec fn source_fault(source: Sources) -> Option<SourceFault> {
    if source.kind@ != "rest"@ {
        Some(SourceFault::Kind)
    } else {
        match config_fault(source.config) {
            Some(fault) => Some(SourceFault::Header(fault)),
            None => None,
        }
    }
}

/// The fault of the first source at or after `from` that has one.
pub open spec fn sources_fault(sources: Seq<Sources>, from: int) -> Option<SourceFault>
    decreases sources.len() - from,
{
    if from < 0 || from >= sources.len() {
        None
    } else {
        match source_fault(sources[from]) {
            Some(fault) => Some(fault),
            None => sources_fault(sources, from + 1),
        }
    }
}

/// Whether a query of one of the sources is configured with more headers
/// than a map of headers always has room for.
pub open spec fn crowded_sources(sources: Seq<Sources>) -> bool {
    exists|j: int| 0 <= j < sources.len() && crowded_config((#[trigger] sources[j]).config)
}

/// Whether an error tells of the fault of a source.
pub open spec fn tells_of_source(e: DhcpError, fault: SourceFault) -> bool {
    match fault {
        SourceFault::Kind => e is SourceKindUnknown,
        SourceFault::Header(header) => tells(e, header),
    }
}

impl DhcpConfig {
    /// The port of a server whose configuration names none.
    pub fn default_port() -> (r: u16)
        ensures
            r == 67,
    {
        67
    }

    /// A configuration; without a port, the default port.
    pub fn new(port: Option<u16>, listen: Option<Vec<Ipv4Address>>, sources: Vec<Sources>) -> (r:
        Self)
        ensures
            r.spec_port() == match port {
                Some(p) => p,
                None => 67u16,
            },
            r.spec_ips() == listen,
            r.spec_sources() == sources,
    {
        let port = match port {
            Some(p) => p,
            None => Self::default_port(),
        };
        Self { port, listen, sources }
    }

    /// The port of the server, for contracts to speak of.
    pub closed spec fn spec_port(&self) -> u16 {
        self.port
    }

    /// The addresses to answer on, for contracts to speak of.
    pub closed spec fn spec_ips(&self) -> Option<Vec<Ipv4Address>> {
        self.listen
    }

    /// The configured sources, for contracts to speak of.
    pub closed spec fn spec_sources(&self) -> Vec<Sources> {
        self.sources
    }

    /// The UDP port that the server listens on.
    pub fn port(&self) -> (r: u16)
        ensures
            r == self.spec_port(),
    {
        self.port
    }

    /// The local addresses to answer on; `None` where every local address
    /// is answered on.
    pub fn ips(&self) -> (r: Option<&Vec<Ipv4Address>>)
        ensures
            match r {
                Some(addresses) => self.spec_ips() == Some(*addresses),
                None => self.spec_ips() is None,
            },
    {
        self.listen.as_ref()
    }

    /// Builds the sources in their order and takes them out of the
    /// configuration. A source of another kind than `rest` is an error, and
    /// so is one whose clients cannot be built; the error is that of the
    /// first such source, and the configuration stays as it is. Where a
    /// query is configured with more headers than a map of headers always
    /// has room for, the error may also be that the map has refused one.
    pub fn init_sources(&mut self) -> (r: DhcpResult<Vec<DhcpRestSource>>)
        ensures
            final(self).spec_port() == old(self).spec_port(),
            final(self).spec_ips() == old(self).spec_ips(),
            (r matches Err(e) && refused(e, crowded_sources(old(self).spec_sources()@))
                && final(self).spec_sources() == old(self).spec_sources()) || match sources_fault(
                old(self).spec_sources()@,
                0,
            ) {
                None => r matches Ok(sources) && {
                    &&& final(self).spec_sources().len() == 0
                    &&& sources.len() == old(self).spec_sources().len()
                    &&& forall|i: int|
                        0 <= i < sources.len() ==> (#[trigger] sources[i]).config
                            == old(self).spec_sources()[i].config
                },
                Some(fault) => r matches Err(e) && {
                    &&& final(self).spec_sources() == old(self).spec_sources()
                    &&& tells_of_source(e, fault)
                },
            },
    {
        let mut i: usize = 0;
        while i < self.sources.len()
            invariant
                i <= self.sources.len(),
                *self == *old(self),
                sources_fault(self.sources@, 0) == sources_fault(self.sources@, i as int),
            decreases self.sources.len() - i,
        {
            if !text_eq(self.sources[i].kind.as_str(), DhcpRestSource::name()) {
                return Err(DhcpError::SourceKindUnknown);
            }
            match check_config(&self.sources[i].config) {
                Ok(()) => {},
                Err(e) => {
                    return Err(e);
                },
            }
            i += 1;
        }
        let mut taken: Vec<Sources> = Vec::new();
        core::mem::swap(&mut self.sources, &mut taken);
        let ghost all = taken@;
        let mut reversed: Vec<Sources> = Vec::new();
        while taken.len() > 0
            invariant
                taken.len() + reversed.len() == all.len(),
                forall|j: int| 0 <= j < taken.len() ==> #[trigger] taken[j] == all[j],
                forall|j: int|
                    0 <= j < reversed.len() ==> #[trigger] reversed[j] == all[all.len() - 1 - j],
            decreases taken.len(),
        {
            let last = taken.pop().unwrap();
            reversed.push(last);
        }
        let mut out: Vec<DhcpRestSource> = Vec::new();
        while reversed.len() > 0
            invariant
                out.len() + reversed.len() == all.len(),
                forall|j: int|
                    0 <= j < reversed.len() ==> #[trigger] reversed[j] == all[all.len() - 1 - j],
                forall|j: int| 0 <= j < out.len() ==> (#[trigger] out[j]).config == all[j].config,
            decreases reversed.len(),
        {
            let next = reversed.pop().unwrap();
            out.push(DhcpRestSource { config: next.config });
        }
        Ok(out)
    }
}

/// How much the server logs.
#[derive(Clone, Copy, Debug, PartialEq, Eq, Structural)]
pub enum Verbosity {
    Off,
    Error,
    Warn,
    Info,
    Debug,
    Trace,
}

impl Default for Verbosity {
    fn default() -> (r: Self)
        ensures
            r == Verbosity::Info,
    {
        Verbosity::Info
    }
}

/// The options of the command line: the path of the configuration file,
/// if one is given, and the verbosity.
#[derive(Debug)]
pub struct DhcpConfigOptions {
    config: Option<String>,
    verbosity: Verbosity,
}

impl DhcpConfigOptions {
    /// The options with the given path and verbosity.
    pub fn new(config: Option<String>, verbosity: Verbosity) -> (r: Self)
        ensures
            r.spec_config() == config,
            r.spec_verbosity() == verbosity,
    {
        Self { config, verbosity }
    }

    /// The path that the options name, for contracts to speak of.
    pub closed spec fn spec_config(&self) -> Option<String> {
        self.config
    }

    /// The verbosity, for contracts to speak of.
    pub closed spec fn spec_verbosity(&self) -> Verbosity {
        self.verbosity
    }

    /// The path of the configuration file: the one that the options name,
    /// else `./config.yml` where that file exists, else `./config.yaml`
    /// where that one exists, else none.
    pub fn config(&self, yml_exists: bool, yaml_exists: bool) -> (r: Option<&str>)
        ensures
            match self.spec_config() {
                Some(path) => r matches Some(p) && p@ == path@,
                None => if yml_exists {
                    r matches Some(p) && p@ == "./config.yml"@
                } else if yaml_exists {
                    r matches Some(p) && p@ == "./config.yaml"@
                } else {
                    r is None
                },
            },
    {
        match &self.config {
            Some(path) => Some(path.as_str()),
            None => if yml_exists {
                Some("./config.yml")
            } else if yaml_exists {
                Some("./config.yaml")
            } else {
                None
            },
        }
    }

    /// The path of the configuration file, or the error that there is none.
    pub fn config_path(&self, yml_exists: bool, yaml_exists: bool) -> (r: DhcpResult<&str>)
        ensures
            match self.spec_config() {
                Some(path) => r matches Ok(p) && p@ == path@,
                None => if yml_exists {
                    r matches Ok(p) && p@ == "./config.yml"@
                } else if yaml_exists {
                    r matches Ok(p) && p@ == "./config.yaml"@
                } else {
                    r matches Err(e) && e is ConfigFileNotFound
                },
            },
    {
        match self.config(yml_exists, yaml_exists) {
            Some(path) => Ok(path),
            None => Err(DhcpError::ConfigFileNotFound),
        }
    }

    /// How much the server logs.
    pub fn verbosity(&self) -> (r: Verbosity)
        ensures
            r == self.spec_verbosity(),
    {
        self.verbosity
    }
}

} // verus!
