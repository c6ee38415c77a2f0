//! The topology as a graph: one cluster for each machine, in it a record for
//! each interface and a node for each listening process, and edges from a
//! process to the addresses it is bound to.
//!
//! A process bound to a wildcard address gets an edge to every address of
//! every interface of its machine; one bound to a loopback address gets none.

use crate::address::{bare_address, bare_address_of, sanitize_label, sanitized};
use crate::model::{Interface, InterfaceView, Machine, MachineView, Model, ModelView, Process,
    ProcessView};
use crate::text::{is_empty, joined, same_text};
use vstd::prelude::*;

verus! {

/// The label of a process whose name is not known.
pub const UNKNOWN_PROCESS: &'static str = "_unknown_";

/// The loopback address of IPv4.
pub const LOOPBACK_V4: &'static str = "127.0.0.1";

/// The loopback address of IPv6, as a socket lists it.
pub const LOOPBACK_V6: &'static str = "[::1]";

/// What a socket lists when it is bound to every address.
pub const ANY_ADDRESS: &'static str = "*";

/// Every address of IPv4.
pub const ANY_V4: &'static str = "0.0.0.0";

/// One address of an interface, as a field of the interface's record.
#[derive(Debug)]
pub struct Field {
    /// The field's identity within the graph.
    pub port: String,
    /// The raw address, shown in the field.
    pub text: String,
}

/// An interface, drawn as a record: a title and a field for each address.
#[derive(Debug)]
pub struct Record {
    /// The record's identity within the graph.
    pub id: String,
    /// The identity of the title field.
    pub port: String,
    /// The device's name, shown in the title field.
    pub title: String,
    pub fields: Vec<Field>,
}

/// A listening process, drawn as a node.
#[derive(Debug)]
pub struct Node {
    /// The node's identity within the graph.
    pub id: String,
    pub label: String,
}

/// An edge from a process to an address.
#[derive(Debug)]
pub struct Edge {
    /// The identity of the process node.
    pub from: String,
    /// The identity of the record that the edge ends at; `None` where the
    /// address was not looked up among the interfaces.
    pub node: Option<String>,
    /// The identity of the address.
    pub port: String,
}

/// A machine with what belongs to it.
#[derive(Debug)]
pub struct Cluster {
    pub label: String,
    pub records: Vec<Record>,
    pub nodes: Vec<Node>,
    pub edges: Vec<Edge>,
}

/// The whole graph.
#[derive(Debug)]
pub struct Graph {
    pub clusters: Vec<Cluster>,
}

/// A field as the contracts see it.
pub ghost struct FieldView {
    pub port: Seq<char>,
    pub text: Seq<char>,
}

/// A record as the contracts see it.
pub ghost struct RecordView {
    pub id: Seq<char>,
    pub port: Seq<char>,
    pub title: Seq<char>,
    pub fields: Seq<FieldView>,
}

/// A node as the contracts see it.
pub ghost struct NodeView {
    pub id: Seq<char>,
    pub label: Seq<char>,
}

/// An edge as the contracts see it.
pub ghost struct EdgeView {
    pub from: Seq<char>,
    pub node: Option<Seq<char>>,
    pub port: Seq<char>,
}

/// A cluster as the contracts see it.
pub ghost struct ClusterView {
    pub label: Seq<char>,
    pub records: Seq<RecordView>,
    pub nodes: Seq<NodeView>,
    pub edges: Seq<EdgeView>,
}

/// A graph as the contracts see it.
pub ghost struct GraphView {
    pub clusters: Seq<ClusterView>,
}

impl View for Field {
    type V = FieldView;

    open spec fn view(&self) -> FieldView {
        FieldView { port: self.port@, text: self.text@ }
    }
}

impl DeepView for Field {
    type V = FieldView;

    open spec fn deep_view(&self) -> FieldView {
        self.view()
    }
}

impl View for Record {
    type V = RecordView;

    open spec fn view(&self) -> RecordView {
        RecordView {
            id: self.id@,
            port: self.port@,
            title: self.title@,
            fields: self.fields.deep_view(),
        }
    }
}

impl DeepView for Record {
    type V = RecordView;

    open spec fn deep_view(&self) -> RecordView {
        self.view()
    }
}

impl View for Node {
    type V = NodeView;

    open spec fn view(&self) -> NodeView {
        NodeView { id: self.id@, label: self.label@ }
    }
}

impl DeepView for Node {
    type V = NodeView;

    open spec fn deep_view(&self) -> NodeView {
        self.view()
    }
}

impl View for Edge {
    type V = EdgeView;

    open spec fn view(&self) -> EdgeView {
        EdgeView { from: self.from@, node: self.node.deep_view(), port: self.port@ }
    }
}

impl DeepView for Edge {
    type V = EdgeView;

    open spec fn deep_view(&self) -> EdgeView {
        self.view()
    }
}

impl View for Cluster {
    type V = ClusterView;

    open spec fn view(&self) -> ClusterView {
        ClusterView {
            label: self.label@,
            records: self.records.deep_view(),
            nodes: self.nodes.deep_view(),
            edges: self.edges.deep_view(),
        }
    }
}

impl DeepView for Cluster {
    type V = ClusterView;

    open spec fn deep_view(&self) -> ClusterView {
        self.view()
    }
}

impl View for Graph {
    type V = GraphView;

    open spec fn view(&self) -> GraphView {
        GraphView { clusters: self.clusters.deep_view() }
    }
}

impl DeepView for Graph {
    type V = GraphView;

    open spec fn deep_view(&self) -> GraphView {
        self.view()
    }
}

/// The identity of an address: its bare address as an identifier.
pub open spec fn address_id(address: Seq<char>) -> Seq<char> {
    sanitized(bare_address_of(address))
}

/// The field of an address.
pub open spec fn field_of(address: Seq<char>) -> FieldView {
    FieldView { port: address_id(address), text: address }
}

/// The identity of the record of a device: hostname and device name, as
/// identifiers.
pub open spec fn record_id(hostname: Seq<char>, device: Seq<char>) -> Seq<char> {
    sanitized(hostname) + sanitized(device)
}

/// The record of an interface.
pub open spec fn record_of(hostname: Seq<char>, interface: InterfaceView) -> RecordView {
    RecordView {
        id: record_id(hostname, interface.name),
        port: bare_address_of(record_id(hostname, interface.name)),
        title: interface.name,
        fields: interface.addresses.map_values(|address: Seq<char>| field_of(address)),
    }
}

/// The label of a process: its name, or `UNKNOWN_PROCESS` where it has none.
pub open spec fn process_label(name: Seq<char>) -> Seq<char> {
    if name.len() == 0 {
        UNKNOWN_PROCESS@
    } else {
        name
    }
}

/// The node of a process: its identity is the hostname followed by the
/// label.
pub open spec fn node_of(hostname: Seq<char>, process: ProcessView) -> NodeView {
    NodeView {
        id: hostname + process_label(process.name),
        label: process_label(process.name),
    }
}

/// Whether a bare address is a loopback address.
pub open spec fn is_loopback(bare: Seq<char>) -> bool {
    bare == LOOPBACK_V4@ || bare == LOOPBACK_V6@
}

/// Whether a bare address is taken for every address of the machine. The
/// loopback address of IPv6 is among them, though as a loopback address it
/// gives no edge.
pub open spec fn is_wildcard(bare: Seq<char>) -> bool {
    bare == ANY_ADDRESS@ || bare == ANY_V4@ || bare == LOOPBACK_V6@
}

/// The edges from `from` to every field of one record.
pub open spec fn edges_to(record: RecordView, from: Seq<char>) -> Seq<EdgeView> {
    record.fields.map_values(
        |field: FieldView| EdgeView { from, node: Some(record.id), port: field.port },
    )
}

/// The edges from `from` to every field of every record.
pub open spec fn fan_out(records: Seq<RecordView>, from: Seq<char>) -> Seq<EdgeView> {
    records.map_values(|record: RecordView| edges_to(record, from)).flatten()
}

/// The edges that one bound address gives, by its bare address: none for a
/// loopback address, the whole fan-out for a wildcard, and else one edge to
/// the identity of the address.
pub open spec fn edges_for(records: Seq<RecordView>, from: Seq<char>, bare: Seq<char>) -> Seq<
    EdgeView,
> {
    if is_loopback(bare) {
        Seq::empty()
    } else if is_wildcard(bare) {
        fan_out(records, from)
    } else {
        seq![EdgeView { from, node: None, port: sanitized(bare) }]
    }
}

/// The records of a machine: those of its interfaces, in order.
pub open spec fn records_of(machine: MachineView) -> Seq<RecordView> {
    machine.interfaces.map_values(
        |interface: InterfaceView| record_of(machine.hostname, interface),
    )
}

/// The edges of one process, by its bound addresses in order.
pub open spec fn edges_of_process(machine: MachineView, process: ProcessView) -> Seq<EdgeView> {
    process.addresses.map_values(
        |bind: Seq<char>|
            edges_for(
                records_of(machine),
                node_of(machine.hostname, process).id,
                bare_address_of(bind),
            ),
    ).flatten()
}

/// The edges of a machine, by its processes in order.
pub open spec fn edges_of(machine: MachineView) -> Seq<EdgeView> {
    machine.processes.map_values(
        |process: ProcessView| edges_of_process(machine, process),
    ).flatten()
}

/// The cluster of a machine.
pub open spec fn cluster_of(machine: MachineView) -> ClusterView {
    ClusterView {
        label: sanitized(machine.hostname),
        records: records_of(machine),
        nodes: machine.processes.map_values(
            |process: ProcessView| node_of(machine.hostname, process),
        ),
        edges: edges_of(machine),
    }
}

/// The graph of a model: the clusters of its machines, in order.
pub open spec fn graph_of(model: ModelView) -> GraphView {
    GraphView { clusters: model.machines.map_values(|machine: MachineView| cluster_of(machine)) }
}

/// The identity of an address.
pub fn address_identity(address: &str) -> (id: String)
    ensures
        id@ == address_id(address@),
{
    let bare = bare_address(address);
    sanitize_label(bare.as_str())
}

/// The identity of the record of a device.
pub fn record_identity(hostname: &str, device: &str) -> (id: String)
    ensures
        id@ == record_id(hostname@, device@),
{
    let host = sanitize_label(hostname);
    let name = sanitize_label(device);
    joined(host.as_str(), name.as_str())
}

/// The record of an interface of the host `hostname`.
pub fn build_record(hostname: &str, interface: &Interface) -> (record: Record)
    ensures
        record@ == record_of(hostname@, interface@),
{
    let id = record_identity(hostname, interface.name.as_str());
    let port = bare_address(id.as_str());
    let mut fields: Vec<Field> = Vec::new();
    let mut i: usize = 0;
    while i < interface.addresses.len()
        invariant
            i <= interface.addresses.len(),
            fields.len() == i,
            forall|k: int|
                0 <= k < i ==> (#[trigger] fields@[k])@ == field_of(interface.addresses@[k]@),
        decreases interface.addresses.len() - i,
    {
        let address = &interface.addresses[i];
        fields.push(Field { port: address_identity(address.as_str()), text: address.clone() });
        i += 1;
    }
    let record = Record { id, port, title: interface.name.clone(), fields };
    assert(record@.fields =~= record_of(hostname@, interface@).fields);
    record
}

/// The node of a process of the host `hostname`.
pub fn build_node(hostname: &str, process: &Process) -> (node: Node)
    ensures
        node@ == node_of(hostname@, process@),
{
    let label = if is_empty(&process.name) {
        UNKNOWN_PROCESS.to_owned()
    } else {
        process.name.clone()
    };
    Node { id: joined(hostname, label.as_str()), label }
}

/// The edges from `from` to every field of every record.
pub fn fan_out_edges(records: &Vec<Record>, from: &str) -> (edges: Vec<Edge>)
    ensures
        edges.deep_view() == fan_out(records.deep_view(), from@),
{
    let mut edges: Vec<Edge> = Vec::new();
    let ghost per_record = |record: RecordView| edges_to(record, from@);
    let mut i: usize = 0;
    assert(records.deep_view().take(0).map_values(per_record) =~= Seq::empty());
    assert(edges.deep_view() =~= Seq::<EdgeView>::empty());
    while i < records.len()
        invariant
            i <= records.len(),
            per_record == |record: RecordView| edges_to(record, from@),
            edges.deep_view() =~= records.deep_view().take(i as int).map_values(
                per_record,
            ).flatten(),
        decreases records.len() - i,
    {
        let record = &records[i];
        let ghost before = edges.deep_view();
        let mut k: usize = 0;
        while k < record.fields.len()
            invariant
                k <= record.fields.len(),
                edges.deep_view() =~= before + edges_to(record@, from@).take(k as int),
            decreases record.fields.len() - k,
        {
            let ghost seen = edges.deep_view();
            let edge = Edge {
                from: from.to_owned(),
                node: Some(record.id.clone()),
                port: record.fields[k].port.clone(),
            };
            edges.push(edge);
            assert(edges.deep_view() =~= seen.push(edge@));
            k += 1;
        }
        proof {
            let done = records.deep_view().take(i as int).map_values(per_record);
            let all = edges_to(record@, from@);
            assert(all.take(k as int) =~= all);
            assert(records.deep_view().take(i as int + 1).map_values(per_record) =~= done.push(
                all,
            ));
            done.lemma_flatten_push(all);
        }
        i += 1;
    }
    assert(records.deep_view().take(i as int) =~= records.deep_view());
    edges
}

/// The edges that an address bound by the process node `from` gives, by
/// its bare address.
pub fn bind_edges(records: &Vec<Record>, from: &str, bare: &str) -> (edges: Vec<Edge>)
    ensures
        edges.deep_view() == edges_for(records.deep_view(), from@, bare@),
{
    let v6 = same_text(bare, LOOPBACK_V6);
    if same_text(bare, LOOPBACK_V4) || v6 {
        let edges: Vec<Edge> = Vec::new();
        assert(edges.deep_view() =~= Seq::<EdgeView>::empty());
        edges
    } else if same_text(bare, ANY_ADDRESS) || same_text(bare, ANY_V4) || v6 {
        fan_out_edges(records, from)
    } else {
        let edge = Edge { from: from.to_owned(), node: None, port: sanitize_label(bare) };
        let mut edges: Vec<Edge> = Vec::new();
        edges.push(edge);
        assert(edges.deep_view() =~= seq![edge@]);
        edges
    }
}

/// The edges of `process`, whose node is `from`.
fn process_edges(records: &Vec<Record>, machine: &Machine, process: &Process, from: &str) -> (edges:
    Vec<Edge>)
    requires
        records.deep_view() == records_of(machine@),
        from@ == node_of(machine@.hostname, process@).id,
    ensures
        edges.deep_view() == edges_of_process(machine@, process@),
{
    let mut edges: Vec<Edge> = Vec::new();
    let ghost per_bind = |bind: Seq<char>|
        edges_for(
            records_of(machine@),
            node_of(machine@.hostname, process@).id,
            bare_address_of(bind),
        );
    let mut i: usize = 0;
    assert(process@.addresses.take(0).map_values(per_bind) =~= Seq::empty());
    assert(edges.deep_view() =~= Seq::<EdgeView>::empty());
    while i < process.addresses.len()
        invariant
            i <= process.addresses.len(),
            records.deep_view() == records_of(machine@),
            from@ == node_of(machine@.hostname, process@).id,
            per_bind == |bind: Seq<char>|
                edges_for(
                    records_of(machine@),
                    node_of(machine@.hostname, process@).id,
                    bare_address_of(bind),
                ),
            edges.deep_view() =~= process@.addresses.take(i as int).map_values(per_bind).flatten(),
        decreases process.addresses.len() - i,
    {
        let bare = bare_address(process.addresses[i].as_str());
        let mut more = bind_edges(records, from, bare.as_str());
        let ghost seen = edges.deep_view();
        let ghost added = more.deep_view();
        edges.append(&mut more);
        proof {
            assert(edges.deep_view() =~= seen + added);
            let done = process@.addresses.take(i as int).map_values(per_bind);
            assert(process@.addresses.take(i as int + 1).map_values(per_bind) =~= done.push(added));
            done.lemma_flatten_push(added);
        }
        i += 1;
    }
    assert(process@.addresses.take(i as int) =~= process@.addresses);
    edges
}

/// The cluster of a machine.
pub fn build_cluster(machine: &Machine) -> (cluster: Cluster)
    ensures
        cluster@ == cluster_of(machine@),
{
    let hostname = machine.hostname.as_str();
    let mut records: Vec<Record> = Vec::new();
    let mut i: usize = 0;
    while i < machine.interfaces.len()
        invariant
            i <= machine.interfaces.len(),
            hostname@ == machine@.hostname,
            records.len() == i,
            forall|k: int|
                0 <= k < i ==> (#[trigger] records@[k])@ == record_of(
                    machine@.hostname,
                    machine.interfaces@[k]@,
                ),
        decreases machine.interfaces.len() - i,
    {
        records.push(build_record(hostname, &machine.interfaces[i]));
        i += 1;
    }
    assert(records.deep_view() =~= records_of(machine@));
    let mut nodes: Vec<Node> = Vec::new();
    let mut edges: Vec<Edge> = Vec::new();
    let ghost per_process = |process: ProcessView| edges_of_process(machine@, process);
    let mut p: usize = 0;
    assert(machine@.processes.take(0).map_values(per_process) =~= Seq::empty());
    assert(edges.deep_view() =~= Seq::<EdgeView>::empty());
    while p < machine.processes.len()
        invariant
            p <= machine.processes.len(),
            hostname@ == machine@.hostname,
            records.deep_view() == records_of(machine@),
            nodes.len() == p,
            forall|k: int|
                0 <= k < p ==> (#[trigger] nodes@[k])@ == node_of(
                    machine@.hostname,
                    machine.processes@[k]@,
                ),
            per_process == |process: ProcessView| edges_of_process(machine@, process),
            edges.deep_view() =~= machine@.processes.take(p as int).map_values(
                per_process,
            ).flatten(),
        decreases machine.processes.len() - p,
    {
        let process = &machine.processes[p];
        let node = build_node(hostname, process);
        let mut more = process_edges(&records, machine, process, node.id.as_str());
        let ghost seen = edges.deep_view();
        let ghost added = more.deep_view();
        edges.append(&mut more);
        nodes.push(node);
        proof {
            assert(edges.deep_view() =~= seen + added);
            let done = machine@.processes.take(p as int).map_values(per_process);
            assert(machine@.processes.take(p as int + 1).map_values(per_process) =~= done.push(
                added,
            ));
            done.lemma_flatten_push(added);
        }
        p += 1;
    }
    assert(machine@.processes.take(p as int) =~= machine@.processes);
    let cluster = Cluster { label: sanitize_label(hostname), records, nodes, edges };
    assert(cluster@.nodes =~= cluster_of(machine@).nodes);
    cluster
}

/// The graph of a model.
pub fn build_graph(model: &Model) -> (graph: Graph)
    ensures
        graph@ == graph_of(model@),
{
    let mut clusters: Vec<Cluster> = Vec::new();
    let mut i: usize = 0;
    while i < model.machines.len()
        invariant
            i <= model.machines.len(),
            clusters.len() == i,
            forall|k: int|
                0 <= k < i ==> (#[trigger] clusters@[k])@ == cluster_of(model.machines@[k]@),
        decreases model.machines.len() - i,
    {
        clusters.push(build_cluster(&model.machines[i]));
        i += 1;
    }
    let graph = Graph { clusters };
    assert(graph@.clusters =~= graph_of(model@).clusters);
    graph
}

/// Whether `edge` starts at `from` and ends either at a field of one of
/// `records` or at no record.
pub open spec fn joins(edge: EdgeView, records: Seq<RecordView>, from: Seq<char>) -> bool {
    &&& edge.from == from
    &&& edge.node matches Some(id) ==> exists|r: int, f: int|
        0 <= r < records.len() && 0 <= f < records[r].fields.len() && (#[trigger] records[r]).id
            == id && (#[trigger] records[r].fields[f]).port == edge.port
}

/// An element of a flattened sequence is an element of one of the
/// sequences.
pub proof fn lemma_flatten_member<A>(lists: Seq<Seq<A>>, at: int)
    requires
        0 <= at < lists.flatten().len(),
    ensures
        exists|k: int, j: int|
            0 <= k < lists.len() && 0 <= j < lists[k].len() && (#[trigger] lists[k][j])
                == lists.flatten()[at],
    decreases lists.len(),
{
    if lists.len() > 0 {
        if at < lists.first().len() {
            assert(lists[0][at] == lists.flatten()[at]);
        } else {
            let rest = lists.drop_first();
            let back = at - lists.first().len();
            lemma_flatten_member(rest, back);
            let (k, j) = choose|k: int, j: int|
                0 <= k < rest.len() && 0 <= j < rest[k].len() && (#[trigger] rest[k][j])
                    == rest.flatten()[back];
            assert(lists[k + 1][j] == lists.flatten()[at]);
        }
    }
}

/// Every edge that a bound address gives starts at the process and ends
/// at a field of a record, or at no record.
pub proof fn lemma_edges_for_join(
    records: Seq<RecordView>,
    from: Seq<char>,
    bare: Seq<char>,
    at: int,
)
    requires
        0 <= at < edges_for(records, from, bare).len(),
    ensures
        joins(edges_for(records, from, bare)[at], records, from),
{
    if !is_loopback(bare) && is_wildcard(bare) {
        let lists = records.map_values(|record: RecordView| edges_to(record, from));
        lemma_flatten_member(lists, at);
        let (r, f) = choose|r: int, f: int|
            0 <= r < lists.len() && 0 <= f < lists[r].len() && (#[trigger] lists[r][f])
                == lists.flatten()[at];
        assert(lists[r] == edges_to(records[r], from));
        assert(lists[r][f].node == Some(records[r].id));
        assert(lists[r][f].port == records[r].fields[f].port);
    }
}

/// The edges of a cluster join what the cluster holds: each starts at one
/// of its nodes, and each that ends at a record ends at a field of one of
/// its records.
pub proof fn lemma_edges_join_the_cluster(machine: MachineView, at: int)
    requires
        0 <= at < cluster_of(machine).edges.len(),
    ensures
        exists|n: int|
            0 <= n < cluster_of(machine).nodes.len() && joins(
                cluster_of(machine).edges[at],
                cluster_of(machine).records,
                (#[trigger] cluster_of(machine).nodes[n]).id,
            ),
{
    let cluster = cluster_of(machine);
    let per_process = machine.processes.map_values(
        |process: ProcessView| edges_of_process(machine, process),
    );
    lemma_flatten_member(per_process, at);
    let (n, i) = choose|n: int, i: int|
        0 <= n < per_process.len() && 0 <= i < per_process[n].len() && (
        #[trigger] per_process[n][i]) == per_process.flatten()[at];
    let process = machine.processes[n];
    let from = node_of(machine.hostname, process).id;
    let per_bind = process.addresses.map_values(
        |bind: Seq<char>| edges_for(records_of(machine), from, bare_address_of(bind)),
    );
    assert(per_process[n] == per_bind.flatten());
    lemma_flatten_member(per_bind, i);
    let (b, e) = choose|b: int, e: int|
        0 <= b < per_bind.len() && 0 <= e < per_bind[b].len() && (#[trigger] per_bind[b][e])
            == per_bind.flatten()[i];
    lemma_edges_for_join(records_of(machine), from, bare_address_of(process.addresses[b]), e);
    assert(cluster.nodes[n].id == from);
}

} // verus!
