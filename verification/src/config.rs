//! Run configuration: the target to probe and the options that shape a session.

use vstd::prelude::*;

use crate::text::{all_digits, decimal, decimal_string, is_digit, lemma_decimal_digits, parse_u16, parse_u16_spec};

verus! {

/// The command line as the tool receives it, with durations already read.
///
/// `target` is the first argument: a `host:port` target, or the host when
/// the port is given as a second argument (`port`). The interval between
/// probes and the connection timeout are in microseconds.
pub struct Cli {
    pub target: String,
    pub port: Option<String>,
    pub ipv4: bool,
    pub ipv6: bool,
    pub retries: u32,
    pub count: u32,
    pub json: bool,
    pub pretty: bool,
    pub no_color: bool,
    pub debug: bool,
    pub csv: bool,
    pub verbose: bool,
    pub update: bool,
    pub interface: Option<String>,
    pub interval: u64,
    pub timeout: u64,
    pub database: Option<String>,
    pub show_source_address: bool,
    pub show_failures_only: bool,
    pub show_datetime: bool,
}

/// A validated configuration for a probing session. The interval between
/// probes and the connection timeout are in microseconds.
#[derive(Debug)]
pub struct Config {
    pub host: String,
    pub port: u16,
    pub ipv4: bool,
    pub ipv6: bool,
    pub retries: u32,
    pub count: u32,
    pub json: bool,
    pub pretty: bool,
    pub no_color: bool,
    pub debug: bool,
    pub csv: bool,
    pub verbose: bool,
    pub update: bool,
    pub interface: Option<String>,
    pub interval: u64,
    pub timeout: u64,
    pub database: Option<String>,
    pub show_source_address: bool,
    pub show_failures_only: bool,
    pub show_datetime: bool,
}

/// Where the session's report goes: JSON on the console, CSV files, an
/// SQLite database (at the given path), or the console.
#[derive(Debug, Clone, PartialEq, Eq)]
pub enum OutputKind {
    Json,
    Csv,
    Database(String),
    Console,
}

/// The IP version that address resolution should keep.
#[derive(Debug, Clone, Copy, PartialEq, Eq, Structural)]
pub enum IpVersion {
    V4,
    V6,
    Any,
}

/// The index of the last occurrence of `c` in `s`, if any.
pub open spec fn last_index_of(s: Seq<char>, c: char) -> Option<int>
    decreases s.len(),
{
    if s.len() == 0 {
        None
    } else if s.last() == c {
        Some(s.len() - 1)
    } else {
        last_index_of(s.drop_last(), c)
    }
}

/// How a host and the text of a port are read: the host must not be empty
/// and the port must read as a nonzero `u16`.
/// The error is the message that the tool reports.
pub open spec fn spec_parse_host_port(host: Seq<char>, port_text: Seq<char>) -> Result<(Seq<char>, u16), Seq<char>> {
    if host.len() == 0 {
        Err("Host cannot be empty"@)
    } else {
        match parse_u16_spec(port_text) {
            Some(p) => if p > 0 {
                Ok((host, p))
            } else {
                Err("Port cannot be zero"@)
            },
            None => Err("Invalid port number: "@ + port_text),
        }
    }
}

/// How a `host:port` target is read: split at the last colon, then read as
/// `spec_parse_host_port` says.
pub open spec fn spec_parse_target(t: Seq<char>) -> Result<(Seq<char>, u16), Seq<char>> {
    match last_index_of(t, ':') {
        None => Err("Target must be in host:port format"@),
        Some(i) => spec_parse_host_port(t.subrange(0, i), t.subrange(i + 1, t.len() as int)),
    }
}

/// How the target of a command line is read: as a host and a port when the
/// port is given on its own, else as a `host:port` target.
pub open spec fn spec_cli_target(cli: Cli) -> Result<(Seq<char>, u16), Seq<char>> {
    match cli.port {
        Some(port_text) => spec_parse_host_port(cli.target@, port_text@),
        None => spec_parse_target(cli.target@),
    }
}

/// Where the report of a configuration goes: `-j` wins, then `--csv`, then
/// `--db`, else the console.
pub open spec fn spec_output_kind(c: Config) -> OutputKind {
    if c.json {
        OutputKind::Json
    } else if c.csv {
        OutputKind::Csv
    } else {
        match c.database {
            Some(path) => OutputKind::Database(path),
            None => OutputKind::Console,
        }
    }
}

/// The text of a `host:port` target address.
pub open spec fn target_address(host: Seq<char>, port: u16) -> Seq<char> {
    host + ":"@ + decimal(port as nat)
}

/// The preference that the `-4` and `-6` flags express.
pub open spec fn preferred_ip_version(ipv4: bool, ipv6: bool) -> IpVersion {
    if ipv4 {
        IpVersion::V4
    } else if ipv6 {
        IpVersion::V6
    } else {
        IpVersion::Any
    }
}

/// A copy of an optional string.
pub fn copy_opt_string(o: &Option<String>) -> (r: Option<String>)
    ensures
        r == *o,
{
    match o {
        Some(s) => Some(s.clone()),
        None => None,
    }
}

/// The last index of `c` lies inside `s` and holds `c`.
proof fn lemma_last_index_of_bounds(s: Seq<char>, c: char)
    ensures
        last_index_of(s, c) matches Some(i) ==> 0 <= i < s.len() && s[i] == c,
    decreases s.len(),
{
    if s.len() > 0 && s.last() != c {
        lemma_last_index_of_bounds(s.drop_last(), c);
    }
}

/// The last index of a colon in `s`.
fn rfind_colon(s: &str) -> (r: Option<usize>)
    ensures
        match last_index_of(s@, ':') {
            Some(i) => 0 <= i < s@.len() && r == Some(i as usize),
            None => r is None,
        },
{
    let n = s.unicode_len();
    let mut i: usize = n;
    assert(s@.take(n as int) =~= s@);
    proof {
        lemma_last_index_of_bounds(s@, ':');
    }
    while i > 0
        invariant
            i <= n,
            n == s@.len(),
            last_index_of(s@, ':') == last_index_of(s@.take(i as int), ':'),
        decreases i,
    {
        let c = s.get_char(i - 1);
        let ghost t = s@.take(i as int);
        assert(t.drop_last() =~= s@.take(i - 1));
        if c == ':' {
            return Some(i - 1);
        }
        i = i - 1;
    }
    proof {
        assert(s@.take(0) =~= Seq::<char>::empty());
    }
    None
}

impl Clone for Config {
    fn clone(&self) -> (r: Self)
        ensures
            r == *self,
    {
        Config {
            host: self.host.clone(),
            port: self.port,
            ipv4: self.ipv4,
            ipv6: self.ipv6,
            retries: self.retries,
            count: self.count,
            json: self.json,
            pretty: self.pretty,
            no_color: self.no_color,
            debug: self.debug,
            csv: self.csv,
            verbose: self.verbose,
            update: self.update,
            interface: copy_opt_string(&self.interface),
            interval: self.interval,
            timeout: self.timeout,
            database: copy_opt_string(&self.database),
            show_source_address: self.show_source_address,
            show_failures_only: self.show_failures_only,
            show_datetime: self.show_datetime,
        }
    }
}

impl Config {
    /// Does this configuration hold the options of `cli`, with `host` and `port`?
    pub open spec fn built_from(self, cli: Cli, host: Seq<char>, port: u16) -> bool {
        &&& self.host@ == host
        &&& self.port == port
        &&& self.ipv4 == cli.ipv4
        &&& self.ipv6 == cli.ipv6
        &&& self.retries == cli.retries
        &&& self.count == cli.count
        &&& self.json == cli.json
        &&& self.pretty == cli.pretty
        &&& self.no_color == cli.no_color
        &&& self.debug == cli.debug
        &&& self.csv == cli.csv
        &&& self.verbose == cli.verbose
        &&& self.update == cli.update
        &&& self.interface == cli.interface
        &&& self.interval == cli.interval
        &&& self.timeout == cli.timeout
        &&& self.database == cli.database
        &&& self.show_source_address == cli.show_source_address
        &&& self.show_failures_only == cli.show_failures_only
        &&& self.show_datetime == cli.show_datetime
    }

    /// Validates the command line and builds the configuration.
    ///
    /// The target is read first (see `spec_cli_target`); then `-4` together
    /// with `-6` is refused, then a zero timeout.
    pub fn from_cli(cli: &Cli) -> (r: Result<Self, String>)
        ensures
            match spec_cli_target(*cli) {
                Err(msg) => r matches Err(e) && e@ == msg,
                Ok((host, port)) => if cli.ipv4 && cli.ipv6 {
                    r matches Err(e) && e@ == "Cannot use both -4 and -6 flags simultaneously"@
                } else if cli.timeout == 0 {
                    r matches Err(e) && e@ == "Timeout must be greater than zero"@
                } else {
                    r matches Ok(c) && c.built_from(*cli, host, port)
                },
            },
    {
        let parsed = match &cli.port {
            Some(port_text) => Self::parse_host_port(cli.target.as_str(), port_text.as_str()),
            None => Self::parse_target(cli.target.as_str()),
        };
        let (host, port) = match parsed {
            Ok(hp) => hp,
            Err(e) => return Err(e),
        };
        match Self::validate_host_port(host.as_str(), port) {
            Ok(()) => {},
            Err(e) => return Err(e),
        }
        if cli.ipv4 && cli.ipv6 {
            return Err(String::from_str("Cannot use both -4 and -6 flags simultaneously"));
        }
        if cli.timeout == 0 {
            return Err(String::from_str("Timeout must be greater than zero"));
        }
        Ok(Config {
            host: host,
            port: port,
            ipv4: cli.ipv4,
            ipv6: cli.ipv6,
            retries: cli.retries,
            count: cli.count,
            json: cli.json,
            pretty: cli.pretty,
            no_color: cli.no_color,
            debug: cli.debug,
            csv: cli.csv,
            verbose: cli.verbose,
            update: cli.update,
            interface: copy_opt_string(&cli.interface),
            interval: cli.interval,
            timeout: cli.timeout,
            database: copy_opt_string(&cli.database),
            show_source_address: cli.show_source_address,
            show_failures_only: cli.show_failures_only,
            show_datetime: cli.show_datetime,
        })
    }

    /// Splits a `host:port` target at its last colon and reads the port.
    fn parse_target(target: &str) -> (r: Result<(String, u16), String>)
        ensures
            match spec_parse_target(target@) {
                Ok((host, port)) => r matches Ok((h, p)) && h@ == host && p == port,
                Err(msg) => r matches Err(e) && e@ == msg,
            },
    {
        let n = target.unicode_len();
        match rfind_colon(target) {
            Some(colon_pos) => {
                let host_part = target.substring_char(0, colon_pos);
                let port_part = target.substring_char(colon_pos + 1, n);
                Self::parse_host_port(host_part, port_part)
            },
            None => Err(String::from_str("Target must be in host:port format")),
        }
    }

    /// Checks the host and reads the port.
    fn parse_host_port(host: &str, port_text: &str) -> (r: Result<(String, u16), String>)
        ensures
            match spec_parse_host_port(host@, port_text@) {
                Ok((h, p)) => r matches Ok((rh, rp)) && rh@ == h && rp == p,
                Err(msg) => r matches Err(e) && e@ == msg,
            },
    {
        if host.unicode_len() == 0 {
            return Err(String::from_str("Host cannot be empty"));
        }
        match parse_u16(port_text) {
            Some(port) => {
                if port > 0 {
                    Ok((String::from_str(host), port))
                } else {
                    Err(String::from_str("Port cannot be zero"))
                }
            },
            None => {
                let mut msg = String::from_str("Invalid port number: ");
                msg.append(port_text);
                Err(msg)
            },
        }
    }

    /// Where the report goes: `-j` wins, then `--csv`, then `--db`, else the
    /// console.
    pub fn output_kind(&self) -> (k: OutputKind)
        ensures
            k == spec_output_kind(*self),
    {
        if self.json {
            OutputKind::Json
        } else if self.csv {
            OutputKind::Csv
        } else {
            match &self.database {
                Some(path) => OutputKind::Database(path.clone()),
                None => OutputKind::Console,
            }
        }
    }

    /// Checks that the host is not empty and the port is not zero.
    fn validate_host_port(host: &str, port: u16) -> (r: Result<(), String>)
        ensures
            host@.len() == 0 ==> (r matches Err(e) && e@ == "Host cannot be empty"@),
            host@.len() != 0 && port == 0 ==> (r matches Err(e) && e@ == "Port cannot be zero"@),
            host@.len() != 0 && port != 0 ==> r is Ok,
    {
        if host.unicode_len() == 0 {
            return Err(String::from_str("Host cannot be empty"));
        }
        if port == 0 {
            return Err(String::from_str("Port cannot be zero"));
        }
        Ok(())
    }

    /// The target as `host:port` text.
    pub fn get_target_address(&self) -> (r: String)
        ensures
            r@ == target_address(self.host@, self.port),
    {
        let mut r = self.host.clone();
        r.append(":");
        let port = decimal_string(self.port as u64);
        r.append(port.as_str());
        r
    }

    /// The IP version to keep when resolving: `-4` wins, then `-6`, else any.
    pub fn get_preferred_ip_version(&self) -> (v: IpVersion)
        ensures
            v == preferred_ip_version(self.ipv4, self.ipv6),
    {
        if self.ipv4 {
            IpVersion::V4
        } else if self.ipv6 {
            IpVersion::V6
        } else {
            IpVersion::Any
        }
    }
}

/// `last_index_of` ignores a tail that does not hold the character.
proof fn lemma_last_index_of_append(a: Seq<char>, b: Seq<char>, c: char)
    requires
        forall|i: int| 0 <= i < b.len() ==> b[i] != c,
    ensures
        last_index_of(a + b, c) == last_index_of(a, c),
    decreases b.len(),
{
    if b.len() > 0 {
        assert((a + b).drop_last() =~= a + b.drop_last());
        lemma_last_index_of_append(a, b.drop_last(), c);
    } else {
        assert(a + b =~= a);
    }
}

/// Reading back the target address of a host and a port gives that host and
/// port, whatever the host holds (colons included), provided that the host is
/// not empty and the port is not zero.
pub proof fn lemma_target_address_round_trip(host: Seq<char>, port: u16)
    requires
        host.len() > 0,
        port > 0,
    ensures
        spec_parse_target(target_address(host, port)) == Ok::<(Seq<char>, u16), Seq<char>>((host, port)),
{
    reveal_strlit(":");
    let d = decimal(port as nat);
    lemma_decimal_digits(port as nat);
    let t = target_address(host, port);
    let hc = host + ":"@;
    assert(t =~= hc + d);
    assert forall|i: int| 0 <= i < d.len() implies d[i] != ':' by {
        assert(is_digit(d[i]));
    }
    lemma_last_index_of_append(hc, d, ':');
    assert(hc.drop_last() =~= host);
    assert(last_index_of(hc, ':') == Some(host.len() as int));
    assert(t.subrange(0, host.len() as int) =~= host);
    assert(t.subrange(host.len() as int + 1, t.len() as int) =~= d);
    assert(all_digits(d));
}

/// The two ways of giving a target agree: a host and a port given on their
/// own read as the `host:port` target made of them, whenever the port text
/// holds no colon (the host may hold colons, as an IPv6 address does).
pub proof fn lemma_two_argument_form(host: Seq<char>, port_text: Seq<char>)
    requires
        forall|i: int| 0 <= i < port_text.len() ==> port_text[i] != ':',
    ensures
        spec_parse_target(host + ":"@ + port_text) == spec_parse_host_port(host, port_text),
{
    reveal_strlit(":");
    let hc = host + ":"@;
    let t = hc + port_text;
    assert(host + ":"@ + port_text =~= t);
    lemma_last_index_of_append(hc, port_text, ':');
    assert(hc.drop_last() =~= host);
    assert(last_index_of(hc, ':') == Some(host.len() as int));
    assert(t.subrange(0, host.len() as int) =~= host);
    assert(t.subrange(host.len() as int + 1, t.len() as int) =~= port_text);
}

} // verus!
