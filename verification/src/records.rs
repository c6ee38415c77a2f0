//! What a host reports about itself, read from the output of its tools:
//! the interfaces from `ip --brief address show`, the listening processes
//! from `ss -tulpn`, and the established connections from `ss -tuapn`.
//!
//! Each line of output gives at most one entry, and the exclusion rules
//! decide which entries are kept.

use crate::exclude::{connection_excluded, device_excluded, rules_exclude_connection,
    rules_exclude_device, rules_exclude_socket, socket_excluded, ExclusionRule, RuleView};
use crate::model::{Connection, ConnectionView, Interface, InterfaceView, Process, ProcessView};
use crate::pattern::{captured, captures, part, part_of};
use crate::text::{contains, fields, fields_of, joined, lines, lines_of, occurs_in, trim, trimmed};
use vstd::prelude::*;

verus! {

/// The regular expression of an endpoint: an address, a colon and a port.
pub const ENDPOINT_PATTERN: &'static str = r"(.+):(\d{1,5})";

/// The regular expression of a process name, which stands in double quotes.
pub const PROCESS_PATTERN: &'static str = "\"([[:word:]]+)\"";

/// What marks the line of a listening TCP socket.
pub const LISTEN_MARK: &'static str = " LISTEN ";

/// What marks the line of a bound UDP socket.
pub const UNCONN_MARK: &'static str = " UNCONN ";

/// What marks the line of an established connection.
pub const ESTAB_MARK: &'static str = " ESTAB ";

/// An address and a port.
pub ghost struct EndpointView {
    pub address: Seq<char>,
    pub port: Seq<char>,
}

/// An address and a port.
#[derive(Debug)]
pub struct Endpoint {
    pub address: String,
    pub port: String,
}

impl View for Endpoint {
    type V = EndpointView;

    open spec fn view(&self) -> EndpointView {
        EndpointView { address: self.address@, port: self.port@ }
    }
}

/// The endpoint without address and port.
pub open spec fn no_endpoint() -> EndpointView {
    EndpointView { address: Seq::empty(), port: Seq::empty() }
}

/// The endpoint that the result of a search for `ENDPOINT_PATTERN` stands
/// for.
pub open spec fn endpoint_of_groups(groups: Option<Seq<Option<Seq<char>>>>) -> EndpointView {
    match groups {
        Some(found) => EndpointView { address: part_of(found, 1), port: part_of(found, 2) },
        None => no_endpoint(),
    }
}

/// The endpoint in a field of a socket line.
pub open spec fn endpoint_of(field: Seq<char>) -> EndpointView {
    endpoint_of_groups(captured(ENDPOINT_PATTERN@, field))
}

/// The process name that the result of a search for `PROCESS_PATTERN`
/// stands for.
pub open spec fn process_name_of_groups(groups: Option<Seq<Option<Seq<char>>>>) -> Seq<char> {
    match groups {
        Some(found) => part_of(found, 1),
        None => Seq::empty(),
    }
}

/// The process name in a field of a socket line.
pub open spec fn process_name_of(field: Seq<char>) -> Seq<char> {
    process_name_of_groups(captured(PROCESS_PATTERN@, field))
}

/// The field at `index`, empty where the line has no such field.
pub open spec fn field_at(found: Seq<Seq<char>>, index: int) -> Seq<char> {
    if 0 <= index < found.len() {
        found[index]
    } else {
        Seq::empty()
    }
}

/// The endpoint in the field at `index`, without address and port where the
/// line has no such field.
pub open spec fn endpoint_at(found: Seq<Seq<char>>, index: int) -> EndpointView {
    if 0 <= index < found.len() {
        endpoint_of(found[index])
    } else {
        no_endpoint()
    }
}

/// The process name in the field at `index`, empty where the line has no
/// such field.
pub open spec fn process_name_at(found: Seq<Seq<char>>, index: int) -> Seq<char> {
    if 0 <= index < found.len() {
        process_name_of(found[index])
    } else {
        Seq::empty()
    }
}

/// The interface that the fields of a line describe: the first field is the
/// device, the second its state, and the others are its addresses.
pub open spec fn interface_of_fields(found: Seq<Seq<char>>) -> InterfaceView {
    InterfaceView {
        name: field_at(found, 0),
        addresses: if found.len() > 2 {
            found.skip(2)
        } else {
            Seq::empty()
        },
    }
}

/// The interface of a line, unless the rules exclude its device.
pub open spec fn interface_of_line(rules: Seq<RuleView>, host: Seq<char>, line: Seq<char>) -> Option<
    InterfaceView,
> {
    let interface = interface_of_fields(fields_of(line));
    if device_excluded(rules, host, interface.name) {
        None
    } else {
        Some(interface)
    }
}

/// The interfaces that `output` reports of `host`.
pub open spec fn interfaces_of(rules: Seq<RuleView>, host: Seq<char>, output: Seq<char>) -> Seq<
    InterfaceView,
> {
    lines_of(output).filter_map(|line: Seq<char>| interface_of_line(rules, host, line))
}

/// A socket as a process lists it: `address:port/protocol`.
pub open spec fn socket_text(endpoint: EndpointView, protocol: Seq<char>) -> Seq<char> {
    endpoint.address + seq![':'] + endpoint.port + seq!['/'] + protocol
}

/// The process that listens on `endpoint`, unless the rules exclude the
/// socket.
pub open spec fn listener_of(
    rules: Seq<RuleView>,
    host: Seq<char>,
    protocol: Seq<char>,
    endpoint: EndpointView,
    name: Seq<char>,
) -> Option<ProcessView> {
    if socket_excluded(rules, host, endpoint.address, endpoint.port, protocol) {
        None
    } else {
        Some(ProcessView { name, addresses: seq![socket_text(endpoint, protocol)] })
    }
}

/// Whether a line describes a listening socket.
pub open spec fn is_listening(line: Seq<char>) -> bool {
    occurs_in(LISTEN_MARK@, line) || occurs_in(UNCONN_MARK@, line)
}

/// The process of a line: the first field is the protocol, the fifth the
/// local endpoint and the seventh names the process.
pub open spec fn process_of_line(rules: Seq<RuleView>, host: Seq<char>, line: Seq<char>) -> Option<
    ProcessView,
> {
    if is_listening(line) {
        let found = fields_of(line);
        listener_of(
            rules,
            host,
            field_at(found, 0),
            endpoint_at(found, 4),
            process_name_at(found, 6),
        )
    } else {
        None
    }
}

/// The listening processes that `output` reports of `host`.
pub open spec fn processes_of(rules: Seq<RuleView>, host: Seq<char>, output: Seq<char>) -> Seq<
    ProcessView,
> {
    lines_of(output).filter_map(|line: Seq<char>| process_of_line(rules, host, line))
}

/// The connection between `local` and `remote`, unless the rules exclude
/// it.
pub open spec fn link_of(
    rules: Seq<RuleView>,
    host: Seq<char>,
    protocol: Seq<char>,
    local: EndpointView,
    remote: EndpointView,
    process: Seq<char>,
) -> Option<ConnectionView> {
    if connection_excluded(
        rules,
        host,
        local.address,
        local.port,
        remote.address,
        remote.port,
        protocol,
    ) {
        None
    } else {
        Some(
            ConnectionView {
                host,
                process,
                local_addr: local.address,
                local_port: local.port,
                remote_addr: remote.address,
                remote_port: remote.port,
            },
        )
    }
}

/// Whether a line describes an established connection.
pub open spec fn is_established(line: Seq<char>) -> bool {
    occurs_in(ESTAB_MARK@, line)
}

/// The connection of a line: the first field is the protocol, the fifth the
/// local endpoint, the sixth the remote endpoint and the seventh names the
/// process.
pub open spec fn connection_of_line(rules: Seq<RuleView>, host: Seq<char>, line: Seq<char>) -> Option<
    ConnectionView,
> {
    if is_established(line) {
        let found = fields_of(line);
        link_of(
            rules,
            host,
            field_at(found, 0),
            endpoint_at(found, 4),
            endpoint_at(found, 5),
            process_name_at(found, 6),
        )
    } else {
        None
    }
}

/// The established connections that `output` reports of `host`.
pub open spec fn connections_of(rules: Seq<RuleView>, host: Seq<char>, output: Seq<char>) -> Seq<
    ConnectionView,
> {
    lines_of(output).filter_map(|line: Seq<char>| connection_of_line(rules, host, line))
}

/// The endpoint that the result of a search for `ENDPOINT_PATTERN` stands
/// for.
pub fn endpoint_from_groups(groups: &Option<Vec<Option<String>>>) -> (endpoint: Endpoint)
    ensures
        endpoint@ == endpoint_of_groups(groups.deep_view()),
{
    match groups {
        Some(found) => Endpoint { address: part(found, 1), port: part(found, 2) },
        None => Endpoint { address: String::new(), port: String::new() },
    }
}

/// The address and the port in a field of a socket line.
pub fn extract_addr_and_port(field: &str) -> (endpoint: Endpoint)
    ensures
        endpoint@ == endpoint_of(field@),
{
    let groups = captures(ENDPOINT_PATTERN, field);
    endpoint_from_groups(&groups)
}

/// The process name that the result of a search for `PROCESS_PATTERN`
/// stands for.
pub fn proc_name_from_groups(groups: &Option<Vec<Option<String>>>) -> (name: String)
    ensures
        name@ == process_name_of_groups(groups.deep_view()),
{
    match groups {
        Some(found) => part(found, 1),
        None => String::new(),
    }
}

/// The process name in a field of a socket line.
pub fn extract_proc_name(field: &str) -> (name: String)
    ensures
        name@ == process_name_of(field@),
{
    let groups = captures(PROCESS_PATTERN, field);
    proc_name_from_groups(&groups)
}

/// The field at `index`, empty where there is no such field.
fn field(found: &Vec<String>, index: usize) -> (text: String)
    ensures
        text@ == field_at(found.deep_view(), index as int),
{
    if index < found.len() {
        found[index].clone()
    } else {
        String::new()
    }
}

/// The endpoint in the field at `index`.
fn endpoint_in(found: &Vec<String>, index: usize) -> (endpoint: Endpoint)
    ensures
        endpoint@ == endpoint_at(found.deep_view(), index as int),
{
    if index < found.len() {
        extract_addr_and_port(found[index].as_str())
    } else {
        Endpoint { address: String::new(), port: String::new() }
    }
}

/// The process name in the field at `index`.
fn proc_name_in(found: &Vec<String>, index: usize) -> (name: String)
    ensures
        name@ == process_name_at(found.deep_view(), index as int),
{
    if index < found.len() {
        extract_proc_name(found[index].as_str())
    } else {
        String::new()
    }
}

/// The interface that the fields of a line describe.
pub fn interface_from_fields(found: &Vec<String>) -> (interface: Interface)
    ensures
        interface@ == interface_of_fields(found.deep_view()),
{
    let name = field(found, 0);
    let mut addresses: Vec<String> = Vec::new();
    let mut i: usize = 2;
    while i < found.len()
        invariant
            2 <= i,
            i == 2 || i <= found.len(),
            addresses.len() == i - 2,
            forall|k: int|
                0 <= k < addresses.len() ==> (#[trigger] addresses.deep_view()[k])
                    == found.deep_view()[k + 2],
        decreases found.len() - i,
    {
        let ghost seen = addresses.deep_view();
        let address = found[i].clone();
        addresses.push(address);
        assert(addresses.deep_view() =~= seen.push(address@));
        i += 1;
    }
    let interface = Interface { name, addresses };
    assert(interface@.addresses =~= interface_of_fields(found.deep_view()).addresses);
    interface
}

/// The hostname that a host reports: the output of `hostname` without the
/// white space around it.
pub fn parse_hostname(output: &str) -> (hostname: String)
    ensures
        hostname@ == trimmed(output@),
{
    trim(output)
}

/// The interfaces that `output`, which `ip --brief address show` printed on
/// `host`, reports: one for each line, but for the devices that `rules`
/// exclude.
pub fn parse_interfaces(host: &str, output: &str, rules: &Vec<ExclusionRule>) -> (interfaces: Vec<
    Interface,
>)
    ensures
        interfaces.deep_view() == interfaces_of(rules.deep_view(), host@, output@),
{
    let all = lines(output);
    let ghost read = |line: Seq<char>| interface_of_line(rules.deep_view(), host@, line);
    let mut interfaces: Vec<Interface> = Vec::new();
    let mut i: usize = 0;
    while i < all.len()
        invariant
            i <= all.len(),
            read == |line: Seq<char>| interface_of_line(rules.deep_view(), host@, line),
            interfaces.deep_view() =~= all.deep_view().take(i as int).filter_map(read),
        decreases all.len() - i,
    {
        let ghost seen = interfaces.deep_view();
        proof {
            all.deep_view().lemma_filter_map_take_succ(read, i as int);
        }
        let found = fields(all[i].as_str());
        let interface = interface_from_fields(&found);
        if !rules_exclude_device(rules, host, interface.name.as_str()) {
            interfaces.push(interface);
            assert(interfaces.deep_view() =~= seen.push(interface@));
        }
        i += 1;
    }
    assert(all.deep_view().take(i as int) =~= all.deep_view());
    interfaces
}

/// The process that listens on `endpoint` with `protocol`, unless `rules`
/// exclude that socket of `host`.
pub fn listener(
    rules: &Vec<ExclusionRule>,
    host: &str,
    protocol: &str,
    endpoint: &Endpoint,
    name: String,
) -> (process: Option<Process>)
    ensures
        process.deep_view() == listener_of(rules.deep_view(), host@, protocol@, endpoint@, name@),
{
    if rules_exclude_socket(
        rules,
        host,
        endpoint.address.as_str(),
        endpoint.port.as_str(),
        protocol,
    ) {
        return None;
    }
    let with_colon = joined(endpoint.address.as_str(), ":");
    let with_port = joined(with_colon.as_str(), endpoint.port.as_str());
    let with_slash = joined(with_port.as_str(), "/");
    let address = joined(with_slash.as_str(), protocol);
    proof {
        reveal_strlit(":");
        reveal_strlit("/");
        assert(":"@ =~= seq![':']);
        assert("/"@ =~= seq!['/']);
    }
    let mut addresses: Vec<String> = Vec::new();
    addresses.push(address);
    let process = Process { name, addresses };
    assert(process@.addresses =~= seq![socket_text(endpoint@, protocol@)]);
    Some(process)
}

/// The listening processes that `output`, which `ss -tulpn` printed on
/// `host`, reports: one for each line of a listening socket, but for the
/// sockets that `rules` exclude.
pub fn parse_processes(host: &str, output: &str, rules: &Vec<ExclusionRule>) -> (processes: Vec<
    Process,
>)
    ensures
        processes.deep_view() == processes_of(rules.deep_view(), host@, output@),
{
    let all = lines(output);
    let ghost read = |line: Seq<char>| process_of_line(rules.deep_view(), host@, line);
    let mut processes: Vec<Process> = Vec::new();
    let mut i: usize = 0;
    while i < all.len()
        invariant
            i <= all.len(),
            read == |line: Seq<char>| process_of_line(rules.deep_view(), host@, line),
            processes.deep_view() =~= all.deep_view().take(i as int).filter_map(read),
        decreases all.len() - i,
    {
        let ghost seen = processes.deep_view();
        proof {
            all.deep_view().lemma_filter_map_take_succ(read, i as int);
        }
        let line = all[i].as_str();
        if contains(line, LISTEN_MARK) || contains(line, UNCONN_MARK) {
            let found = fields(line);
            let protocol = field(&found, 0);
            let endpoint = endpoint_in(&found, 4);
            let name = proc_name_in(&found, 6);
            match listener(rules, host, protocol.as_str(), &endpoint, name) {
                Some(process) => {
                    processes.push(process);
                    assert(processes.deep_view() =~= seen.push(process@));
                },
                None => {},
            }
        }
        i += 1;
    }
    assert(all.deep_view().take(i as int) =~= all.deep_view());
    processes
}

/// The connection of `host` between `local` and `remote`, unless `rules`
/// exclude it.
pub fn link(
    rules: &Vec<ExclusionRule>,
    host: &str,
    protocol: &str,
    local: Endpoint,
    remote: Endpoint,
    process: String,
) -> (connection: Option<Connection>)
    ensures
        connection.deep_view() == link_of(
            rules.deep_view(),
            host@,
            protocol@,
            local@,
            remote@,
            process@,
        ),
{
    if rules_exclude_connection(
        rules,
        host,
        local.address.as_str(),
        local.port.as_str(),
        remote.address.as_str(),
        remote.port.as_str(),
        protocol,
    ) {
        return None;
    }
    Some(
        Connection {
            host: host.to_owned(),
            process,
            local_addr: local.address,
            local_port: local.port,
            remote_addr: remote.address,
            remote_port: remote.port,
        },
    )
}

/// The established connections that `output`, which `ss -tuapn` printed on
/// `host`, reports: one for each line of an established connection, but for
/// the connections that `rules` exclude.
pub fn parse_connections(host: &str, output: &str, rules: &Vec<ExclusionRule>) -> (connections: Vec<
    Connection,
>)
    ensures
        connections.deep_view() == connections_of(rules.deep_view(), host@, output@),
{
    let all = lines(output);
    let ghost read = |line: Seq<char>| connection_of_line(rules.deep_view(), host@, line);
    let mut connections: Vec<Connection> = Vec::new();
    let mut i: usize = 0;
    while i < all.len()
        invariant
            i <= all.len(),
            read == |line: Seq<char>| connection_of_line(rules.deep_view(), host@, line),
            connections.deep_view() =~= all.deep_view().take(i as int).filter_map(read),
        decreases all.len() - i,
    {
        let ghost seen = connections.deep_view();
        proof {
            all.deep_view().lemma_filter_map_take_succ(read, i as int);
        }
        let line = all[i].as_str();
        if contains(line, ESTAB_MARK) {
            let found = fields(line);
            let protocol = field(&found, 0);
            let local = endpoint_in(&found, 4);
            let remote = endpoint_in(&found, 5);
            let process = proc_name_in(&found, 6);
            match link(rules, host, protocol.as_str(), local, remote, process) {
                Some(connection) => {
                    connections.push(connection);
                    assert(connections.deep_view() =~= seen.push(connection@));
                },
                None => {},
            }
        }
        i += 1;
    }
    assert(all.deep_view().take(i as int) =~= all.deep_view());
    connections
}

/// Every process that is reported listens on a socket: it has one address,
/// and no rule excludes it.
pub proof fn lemma_processes_have_an_address(
    rules: Seq<RuleView>,
    host: Seq<char>,
    output: Seq<char>,
    at: int,
)
    requires
        0 <= at < processes_of(rules, host, output).len(),
    ensures
        processes_of(rules, host, output)[at].addresses.len() == 1,
        exists|protocol: Seq<char>, endpoint: EndpointView|
            !socket_excluded(rules, host, endpoint.address, endpoint.port, protocol)
                && processes_of(rules, host, output)[at].addresses[0] == #[trigger] socket_text(
                endpoint,
                protocol,
            ),
{
    let read = |line: Seq<char>| process_of_line(rules, host, line);
    let all = lines_of(output);
    let found = all.filter_map(read)[at];
    assert(all.filter_map(read).contains(found));
    all.lemma_filter_map_contains(read, found);
    let line = choose|line: Seq<char>| #[trigger] all.contains(line) && read(line) == Some(found);
    let fields = fields_of(line);
    let endpoint = endpoint_at(fields, 4);
    let protocol = field_at(fields, 0);
    assert(found.addresses[0] == socket_text(endpoint, protocol));
}

} // verus!
