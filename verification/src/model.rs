//! The topology: machines with their interfaces and listening processes, and
//! the connections seen between hosts.
//!
//! A model holds at most one machine of a hostname. That is what ends a crawl
//! through hosts that name each other.

use crate::text::same_text;
use vstd::prelude::*;

verus! {

/// A network interface of a machine.
#[derive(Debug)]
pub struct Interface {
    /// The device, such as `eth0`.
    pub name: String,
    /// The raw addresses of the device, such as `192.168.1.5/24`.
    pub addresses: Vec<String>,
}

/// A listening process of a machine.
#[derive(Debug)]
pub struct Process {
    /// The program's name, empty where it is not known.
    pub name: String,
    /// The sockets it listens on, each as `bindaddr:port/protocol`.
    pub addresses: Vec<String>,
}

/// An established connection of a host.
#[derive(Debug)]
pub struct Connection {
    /// The host on which the connection was seen, as it was asked for.
    pub host: String,
    pub process: String,
    pub local_addr: String,
    pub local_port: String,
    pub remote_addr: String,
    pub remote_port: String,
}

/// One host as it was found.
#[derive(Debug)]
pub struct Machine {
    pub hostname: String,
    pub interfaces: Vec<Interface>,
    pub processes: Vec<Process>,
}

/// The topology found so far.
#[derive(Debug)]
pub struct Model {
    pub machines: Vec<Machine>,
    pub connections: Vec<Connection>,
}

/// An interface as the contracts see it.
pub ghost struct InterfaceView {
    pub name: Seq<char>,
    pub addresses: Seq<Seq<char>>,
}

/// A process as the contracts see it.
pub ghost struct ProcessView {
    pub name: Seq<char>,
    pub addresses: Seq<Seq<char>>,
}

/// A connection as the contracts see it.
pub ghost struct ConnectionView {
    pub host: Seq<char>,
    pub process: Seq<char>,
    pub local_addr: Seq<char>,
    pub local_port: Seq<char>,
    pub remote_addr: Seq<char>,
    pub remote_port: Seq<char>,
}

/// A machine as the contracts see it.
pub ghost struct MachineView {
    pub hostname: Seq<char>,
    pub interfaces: Seq<InterfaceView>,
    pub processes: Seq<ProcessView>,
}

/// A model as the contracts see it.
pub ghost struct ModelView {
    pub machines: Seq<MachineView>,
    pub connections: Seq<ConnectionView>,
}

impl View for Interface {
    type V = InterfaceView;

    open spec fn view(&self) -> InterfaceView {
        InterfaceView { name: self.name@, addresses: self.addresses.deep_view() }
    }
}

impl DeepView for Interface {
    type V = InterfaceView;

    open spec fn deep_view(&self) -> InterfaceView {
        self.view()
    }
}

impl View for Process {
    type V = ProcessView;

    open spec fn view(&self) -> ProcessView {
        ProcessView { name: self.name@, addresses: self.addresses.deep_view() }
    }
}

impl DeepView for Process {
    type V = ProcessView;

    open spec fn deep_view(&self) -> ProcessView {
        self.view()
    }
}

impl View for Connection {
    type V = ConnectionView;

    open spec fn view(&self) -> ConnectionView {
        ConnectionView {
            host: self.host@,
            process: self.process@,
            local_addr: self.local_addr@,
            local_port: self.local_port@,
            remote_addr: self.remote_addr@,
            remote_port: self.remote_port@,
        }
    }
}

impl DeepView for Connection {
    type V = ConnectionView;

    open spec fn deep_view(&self) -> ConnectionView {
        self.view()
    }
}

impl View for Machine {
    type V = MachineView;

    open spec fn view(&self) -> MachineView {
        MachineView {
            hostname: self.hostname@,
            interfaces: self.interfaces.deep_view(),
            processes: self.processes.deep_view(),
        }
    }
}

impl DeepView for Machine {
    type V = MachineView;

    open spec fn deep_view(&self) -> MachineView {
        self.view()
    }
}

impl View for Model {
    type V = ModelView;

    open spec fn view(&self) -> ModelView {
        ModelView {
            machines: self.machines.deep_view(),
            connections: self.connections.deep_view(),
        }
    }
}

impl DeepView for Model {
    type V = ModelView;

    open spec fn deep_view(&self) -> ModelView {
        self.view()
    }
}

impl ModelView {
    /// The model without machines and connections.
    pub open spec fn empty() -> ModelView {
        ModelView { machines: Seq::empty(), connections: Seq::empty() }
    }

    /// Whether the model holds a machine of this hostname.
    pub open spec fn has_machine(self, hostname: Seq<char>) -> bool {
        exists|i: int|
            0 <= i < self.machines.len() && (#[trigger] self.machines[i]).hostname == hostname
    }

    /// How many machines of this hostname the model holds.
    pub open spec fn count(self, hostname: Seq<char>) -> nat {
        self.machines.filter(|m: MachineView| m.hostname == hostname).len()
    }

    /// Whether no two machines of the model share a hostname.
    pub open spec fn is_unique(self) -> bool {
        forall|i: int, j: int|
            0 <= i < j < self.machines.len() ==> (#[trigger] self.machines[i]).hostname != (
            #[trigger] self.machines[j]).hostname
    }

    /// The model after `machine` was added: unchanged where it holds a
    /// machine of that hostname already, else with `machine` as its last
    /// machine.
    pub open spec fn with_machine(self, machine: MachineView) -> ModelView {
        if self.has_machine(machine.hostname) {
            self
        } else {
            ModelView { machines: self.machines.push(machine), connections: self.connections }
        }
    }

    /// The model with `more` after its connections.
    pub open spec fn with_connections(self, more: Seq<ConnectionView>) -> ModelView {
        ModelView { machines: self.machines, connections: self.connections + more }
    }
}

impl Model {
    /// Whether no two machines of the model share a hostname.
    pub open spec fn wf(&self) -> bool {
        self@.is_unique()
    }

    /// The empty model.
    pub fn new() -> (model: Model)
        ensures
            model@ == ModelView::empty(),
            model.wf(),
    {
        let model = Model { machines: Vec::new(), connections: Vec::new() };
        assert(model.machines.deep_view() =~= Seq::<MachineView>::empty());
        assert(model.connections.deep_view() =~= Seq::<ConnectionView>::empty());
        model
    }

    /// Whether the model holds a machine of this hostname.
    pub fn has_machine(&self, hostname: &str) -> (found: bool)
        ensures
            found == self@.has_machine(hostname@),
    {
        let mut i: usize = 0;
        while i < self.machines.len()
            invariant
                i <= self.machines.len(),
                forall|k: int| 0 <= k < i ==> (#[trigger] self@.machines[k]).hostname != hostname@,
            decreases self.machines.len() - i,
        {
            if same_text(self.machines[i].hostname.as_str(), hostname) {
                assert(self@.machines[i as int].hostname == hostname@);
                return true;
            }
            i += 1;
        }
        false
    }

    /// Adds `machine` unless the model holds a machine of its hostname
    /// already, and says whether it was added.
    pub fn add_machine(&mut self, machine: Machine) -> (added: bool)
        ensures
            final(self)@ == old(self)@.with_machine(machine@),
            added == !old(self)@.has_machine(machine@.hostname),
            old(self).wf() ==> final(self).wf(),
    {
        if self.has_machine(machine.hostname.as_str()) {
            return false;
        }
        let ghost before = self@;
        self.machines.push(machine);
        proof {
            assert(self@.machines =~= before.machines.push(machine@));
            assert(self@.connections == before.connections);
            if before.is_unique() {
                lemma_with_machine_is_unique(before, machine@);
            }
        }
        true
    }

    /// Adds `more` after the connections of the model.
    pub fn add_connections(&mut self, more: Vec<Connection>)
        ensures
            final(self)@ == old(self)@.with_connections(more.deep_view()),
            old(self).wf() ==> final(self).wf(),
    {
        let ghost before = self@;
        let mut more = more;
        let ghost added = more.deep_view();
        self.connections.append(&mut more);
        proof {
            assert(self@.connections =~= before.connections + added);
            assert(self@.machines == before.machines);
        }
    }
}

/// Adding a machine keeps the hostnames of a model apart.
pub proof fn lemma_with_machine_is_unique(model: ModelView, machine: MachineView)
    requires
        model.is_unique(),
    ensures
        model.with_machine(machine).is_unique(),
{
    let after = model.with_machine(machine);
    if !model.has_machine(machine.hostname) {
        assert forall|i: int, j: int| 0 <= i < j < after.machines.len() implies (
        #[trigger] after.machines[i]).hostname != (#[trigger] after.machines[j]).hostname by {
            if j < model.machines.len() {
                assert(model.machines[i].hostname != model.machines[j].hostname);
            } else {
                assert(model.machines[i].hostname != machine.hostname);
            }
        }
    }
}

/// A model without a machine of a hostname counts none of it.
pub proof fn lemma_count_of_absent(model: ModelView, hostname: Seq<char>)
    requires
        !model.has_machine(hostname),
    ensures
        model.count(hostname) == 0,
    decreases model.machines.len(),
{
    reveal(Seq::filter);
    if model.machines.len() > 0 {
        let rest = ModelView {
            machines: model.machines.drop_last(),
            connections: model.connections,
        };
        assert(model.machines.last() == model.machines[model.machines.len() - 1]);
        assert forall|i: int| 0 <= i < rest.machines.len() implies (#[trigger] rest.machines[i]).hostname
            != hostname by {
            assert(rest.machines[i] == model.machines[i]);
        }
        lemma_count_of_absent(rest, hostname);
    }
}

/// A model whose hostnames are apart counts one machine of each hostname
/// that it holds.
pub proof fn lemma_count_of_present(model: ModelView, hostname: Seq<char>)
    requires
        model.is_unique(),
        model.has_machine(hostname),
    ensures
        model.count(hostname) == 1,
    decreases model.machines.len(),
{
    reveal(Seq::filter);
    let n = model.machines.len();
    let at = choose|i: int| 0 <= i < n && (#[trigger] model.machines[i]).hostname == hostname;
    let rest = ModelView { machines: model.machines.drop_last(), connections: model.connections };
    assert forall|i: int| 0 <= i < rest.machines.len() implies #[trigger] rest.machines[i]
        == model.machines[i] by {}
    if model.machines.last().hostname == hostname {
        assert forall|i: int| 0 <= i < rest.machines.len() implies (#[trigger] rest.machines[i]).hostname
            != hostname by {
            assert(model.machines[i].hostname != model.machines[n - 1].hostname);
        }
        lemma_count_of_absent(rest, hostname);
    } else {
        assert(rest.machines[at].hostname == hostname);
        assert forall|i: int, j: int| 0 <= i < j < rest.machines.len() implies (
        #[trigger] rest.machines[i]).hostname != (#[trigger] rest.machines[j]).hostname by {
            assert(model.machines[i].hostname != model.machines[j].hostname);
        }
        lemma_count_of_present(rest, hostname);
    }
}

/// Adding a machine twice is adding it once: the second time changes
/// nothing, whatever else the second machine holds, and the model then has
/// exactly one machine of that hostname.
pub proof fn lemma_add_machine_twice(model: ModelView, first: MachineView, second: MachineView)
    requires
        model.is_unique(),
        first.hostname == second.hostname,
    ensures
        model.with_machine(first).with_machine(second) == model.with_machine(first),
        model.with_machine(first).count(first.hostname) == 1,
{
    let once = model.with_machine(first);
    lemma_with_machine_is_unique(model, first);
    if !model.has_machine(first.hostname) {
        assert(once.machines[model.machines.len() as int].hostname == first.hostname);
    }
    assert(once.has_machine(first.hostname));
    lemma_count_of_present(once, first.hostname);
}

} // verus!
