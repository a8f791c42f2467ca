//! The typed configuration that the services are built from.

use std::time::Duration;
use vstd::prelude::*;
use vstd::string::StringExecFns;

verus! {

/// How long a connection may live and how it is set up.
#[derive(Debug)]
pub struct ServerConnectionConfiguration {
    /// After this long a connection is asked to shut down gracefully.
    pub max_lifetime: Duration,
    /// After this much longer a connection that is still open is abandoned.
    pub graceful_shutdown_timeout: Duration,
    /// Whether accepted sockets get `TCP_NODELAY`.
    pub tcp_nodelay: bool,
}

#[derive(Debug)]
pub struct ServerConfiguration {
    pub bind_address: String,
    pub request_timeout: Duration,
    pub context: String,
    /// Host names under which the server is reached from outside.
    pub external_hosts: Vec<String>,
    pub connection: ServerConnectionConfiguration,
}

/// One command of the catalog.
#[derive(Debug)]
pub struct CommandInfo {
    pub id: String,
    pub description: String,
    pub command: String,
    pub args: Vec<String>,
    /// An internal-only command is hidden from external callers.
    pub internal_only: bool,
}

/// What a [`CommandInfo`] holds, as plain values.
pub struct CommandInfoView {
    pub id: Seq<char>,
    pub description: Seq<char>,
    pub command: Seq<char>,
    pub args: Seq<Seq<char>>,
    pub internal_only: bool,
}

/// The texts of a list of strings.
pub open spec fn texts(strings: Seq<String>) -> Seq<Seq<char>> {
    Seq::new(strings.len(), |i: int| strings[i]@)
}

impl View for CommandInfo {
    type V = CommandInfoView;

    open spec fn view(&self) -> CommandInfoView {
        CommandInfoView {
            id: self.id@,
            description: self.description@,
            command: self.command@,
            args: texts(self.args@),
            internal_only: self.internal_only,
        }
    }
}

/// The views of a list of commands.
pub open spec fn command_views(commands: Seq<CommandInfo>) -> Seq<CommandInfoView> {
    Seq::new(commands.len(), |i: int| commands[i]@)
}

#[derive(Debug)]
pub struct CommandConfiguration {
    /// The number of commands that may run at the same time.
    pub max_concurrent_commands: usize,
    /// How long a caller waits for a free slot before it is turned away.
    pub semaphore_acquire_timeout: Duration,
    pub commands: Vec<CommandInfo>,
}

#[derive(Debug)]
pub struct Configuration {
    pub server_configuration: ServerConfiguration,
    pub command_configuration: CommandConfiguration,
}

/// Whether `host` is one of the names in `external_hosts`.
pub open spec fn is_external_host(external_hosts: Seq<String>, host: Seq<char>) -> bool {
    exists|i: int| 0 <= i < external_hosts.len() && #[trigger] external_hosts[i]@ == host
}

/// Says whether a request that named `host` came from outside: it did if the
/// configuration lists that host among its external hosts.
pub fn host_is_external(server_configuration: &ServerConfiguration, host: &str) -> (external: bool)
    ensures
        external == is_external_host(server_configuration.external_hosts@, host@),
{
    let wanted = String::from_str(host);
    let external_hosts = &server_configuration.external_hosts;
    let mut i: usize = 0;
    while i < external_hosts.len()
        invariant
            i <= external_hosts.len(),
            wanted@ == host@,
            external_hosts@ == server_configuration.external_hosts@,
            forall|j: int| 0 <= j < i ==> external_hosts[j]@ != host@,
        decreases external_hosts.len() - i,
    {
        if external_hosts[i] == wanted {
            assert(external_hosts@[i as int]@ == host@);
            return true;
        }
        i += 1;
    }
    false
}

} // verus!
