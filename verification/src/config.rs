//! The settings of a run, built from the raw texts of the command line.

use crate::text::{parse_unsigned, parse_unsigned_text};
use vstd::prelude::*;

verus! {

/// Port that stands in for a port text that is no number.
pub const DEFAULT_PORT: u32 = 8080;

/// Size of the admission gate where none is given, or none that is a number.
pub const DEFAULT_MAX_CONNECTIONS: usize = 10;

/// The texts of a list of strings.
pub open spec fn texts(v: Seq<String>) -> Seq<Seq<char>> {
    Seq::new(v.len(), |i: int| v[i]@)
}

/// The text of an optional string, or `fallback` where there is none.
pub open spec fn text_or(o: Option<String>, fallback: Seq<char>) -> Seq<char> {
    match o {
        Some(s) => s@,
        None => fallback,
    }
}

/// The port that a port text stands for: the number it writes if that fits a
/// port field of 32 bits, else the default port.
pub open spec fn port_of(text: Seq<char>) -> u32 {
    match parse_unsigned(text, u32::MAX as nat) {
        Some(v) => v as u32,
        None => DEFAULT_PORT,
    }
}

/// The size of the admission gate that an optional text stands for: the
/// number it writes if there is a text and it writes one that fits, else the
/// default size.
pub open spec fn connections_of(o: Option<String>) -> usize {
    match o {
        Some(s) => match parse_unsigned(s@, usize::MAX as nat) {
            Some(v) => v as usize,
            None => DEFAULT_MAX_CONNECTIONS,
        },
        None => DEFAULT_MAX_CONNECTIONS,
    }
}

/// Why no settings could be built.
#[derive(Clone, Copy, PartialEq, Eq, Debug, Structural)]
pub enum ConfigError {
    /// No port was given; at least one is required.
    MissingPorts,
}

/// The settings of a run.
#[derive(Debug)]
pub struct Config {
    namespace: String,
    image: String,
    hosts: Vec<String>,
    ports: Vec<u32>,
    max_connections: usize,
}

/// The settings of a run as plain mathematics.
pub struct ConfigView {
    pub namespace: Seq<char>,
    pub image: Seq<char>,
    pub hosts: Seq<Seq<char>>,
    pub ports: Seq<u32>,
    pub max_connections: usize,
}

impl View for Config {
    type V = ConfigView;

    closed spec fn view(&self) -> ConfigView {
        ConfigView {
            namespace: self.namespace@,
            image: self.image@,
            hosts: texts(self.hosts@),
            ports: self.ports@,
            max_connections: self.max_connections,
        }
    }
}

/// Reads one port text.
pub fn parse_port(text: &str) -> (port: u32)
    ensures
        port == port_of(text@),
{
    match parse_unsigned_text(text, 0xffff_ffff) {
        Some(v) => v as u32,
        None => DEFAULT_PORT,
    }
}

/// Reads the text that gives the size of the admission gate.
pub fn parse_max_connections(text: Option<String>) -> (n: usize)
    ensures
        n == connections_of(text),
{
    match text {
        Some(s) => match parse_unsigned_text(s.as_str(), usize::MAX as u64) {
            Some(v) => v as usize,
            None => DEFAULT_MAX_CONNECTIONS,
        },
        None => DEFAULT_MAX_CONNECTIONS,
    }
}

impl Config {
    /// Builds the settings from the raw texts: the scope (`default` where none
    /// is given), the sandbox image (`alpine` where none is given), the hosts
    /// as they stand, one port for each port text, and the size of the
    /// admission gate. Without any port text there are no settings.
    pub fn build(
        namespace: Option<String>,
        image: Option<String>,
        hosts: Vec<String>,
        ports: Vec<String>,
        connections: Option<String>,
    ) -> (r: Result<Config, ConfigError>)
        ensures
            ports@.len() == 0 ==> r == Err::<Config, ConfigError>(ConfigError::MissingPorts),
            ports@.len() > 0 ==> r is Ok && r->Ok_0@ == (ConfigView {
                namespace: text_or(namespace, "default"@),
                image: text_or(image, "alpine"@),
                hosts: texts(hosts@),
                ports: Seq::new(ports@.len(), |i: int| port_of(ports@[i]@)),
                max_connections: connections_of(connections),
            }),
    {
        if ports.len() == 0 {
            return Err(ConfigError::MissingPorts);
        }
        let mut numbers: Vec<u32> = Vec::new();
        let mut i: usize = 0;
        while i < ports.len()
            invariant
                i <= ports@.len(),
                numbers@.len() == i,
                forall|k: int| 0 <= k < i ==> numbers@[k] == port_of(ports@[k]@),
            decreases ports@.len() - i,
        {
            numbers.push(parse_port(ports[i].as_str()));
            i += 1;
        }
        proof {
            assert(numbers@ =~= Seq::new(ports@.len(), |i: int| port_of(ports@[i]@)));
        }
        let namespace = match namespace {
            Some(s) => s,
            None => String::from_str("default"),
        };
        let image = match image {
            Some(s) => s,
            None => String::from_str("alpine"),
        };
        let max_connections = parse_max_connections(connections);
        Ok(Config { namespace, image, hosts, ports: numbers, max_connections })
    }

    /// The scope in which the sandbox lives.
    pub fn namespace(&self) -> (s: &String)
        ensures
            s@ == self@.namespace,
    {
        &self.namespace
    }

    /// The image that the sandbox runs.
    pub fn image(&self) -> (s: &String)
        ensures
            s@ == self@.image,
    {
        &self.image
    }

    /// The hosts to probe.
    pub fn hosts(&self) -> (h: &Vec<String>)
        ensures
            texts(h@) == self@.hosts,
    {
        &self.hosts
    }

    /// The ports to probe.
    pub fn ports(&self) -> (p: &Vec<u32>)
        ensures
            p@ == self@.ports,
    {
        &self.ports
    }

    /// The size of the admission gate.
    pub fn max_connections(&self) -> (n: usize)
        ensures
            n == self@.max_connections,
    {
        self.max_connections
    }
}

} // verus!
