//! The crawl: from a list of hosts to the model of every host that they
//! lead to.
//!
//! The crawler does no work on the network itself. It says what it needs
//! next, a `Request`, and is handed the answer, a `Reply`; then it decides.
//! Whoever drives it looks up addresses, asks hosts for their hostname and
//! runs the tools on them.
//!
//! Hosts wait in a list, the next one first. A host is admitted when it
//! belongs to the networks and no rule excludes it, confirmed when the same
//! holds of the hostname that it reports and the model has no machine of
//! that hostname, and then fetched: its machine and its connections enter
//! the model together, and the remote address of each connection is put in
//! front of the list.

use crate::exclude::{host_excluded, parse_rules, rules_exclude_host, rules_of, ExclusionRule,
    RuleView};
use crate::model::{lemma_count_of_present, lemma_with_machine_is_unique, ConnectionView, Machine,
    MachineView, Model, ModelView};
use crate::network::{in_networks, is_host_in_network, is_valid_hostname, valid_hostname};
use crate::records::{connections_of, interfaces_of, parse_connections, parse_hostname,
    parse_interfaces, parse_processes, processes_of};
use crate::text::trimmed;
use vstd::prelude::*;

verus! {

/// How far the crawler is with the next host.
#[derive(Debug)]
pub enum Stage {
    /// Nothing is known of the host yet.
    Admitting,
    /// The host is admitted; its hostname is not known yet.
    Naming,
    /// The host reported `hostname`, which is not confirmed yet.
    Confirming { hostname: String },
    /// The host is confirmed; what it reports is not known yet.
    Fetching { hostname: String },
}

/// What the crawler needs next.
#[derive(Debug)]
pub enum Request {
    /// Nothing: no host is waiting.
    Done,
    /// The addresses of `host`: found by looking up its name where `lookup`
    /// holds, else by reading `host` as a literal address.
    Addresses { host: String, lookup: bool },
    /// What `hostname` prints on `host`.
    Hostname { host: String },
    /// What the three tools print on `host`.
    Records { host: String },
}

/// An answer to a request.
#[derive(Debug)]
pub enum Reply {
    /// The addresses of the host; none where it has no address.
    Addresses(Vec<String>),
    /// What `hostname` printed.
    Hostname(String),
    /// What `ip --brief address show`, `ss -tulpn` and `ss -tuapn` printed.
    Records { interfaces: String, processes: String, connections: String },
    /// The host could not be asked.
    Failed,
}

/// A crawl in progress.
#[derive(Debug)]
pub struct Crawler {
    pub model: Model,
    pub rules: Vec<ExclusionRule>,
    pub networks: String,
    /// The hosts that wait, the next one last.
    pub waiting: Vec<String>,
    pub stage: Stage,
}

/// A stage as the contracts see it.
pub ghost enum StageView {
    Admitting,
    Naming,
    Confirming { hostname: Seq<char> },
    Fetching { hostname: Seq<char> },
}

/// A request as the contracts see it.
pub ghost enum RequestView {
    Done,
    Addresses { host: Seq<char>, lookup: bool },
    Hostname { host: Seq<char> },
    Records { host: Seq<char> },
}

/// A reply as the contracts see it.
pub ghost enum ReplyView {
    Addresses(Seq<Seq<char>>),
    Hostname(Seq<char>),
    Records { interfaces: Seq<char>, processes: Seq<char>, connections: Seq<char> },
    Failed,
}

/// A crawl as the contracts see it.
pub ghost struct CrawlerView {
    pub model: ModelView,
    pub rules: Seq<RuleView>,
    pub networks: Seq<char>,
    /// The hosts that wait, the next one first.
    pub pending: Seq<Seq<char>>,
    pub stage: StageView,
}

impl View for Stage {
    type V = StageView;

    open spec fn view(&self) -> StageView {
        match self {
            Stage::Admitting => StageView::Admitting,
            Stage::Naming => StageView::Naming,
            Stage::Confirming { hostname } => StageView::Confirming { hostname: hostname@ },
            Stage::Fetching { hostname } => StageView::Fetching { hostname: hostname@ },
        }
    }
}

impl View for Request {
    type V = RequestView;

    open spec fn view(&self) -> RequestView {
        match self {
            Request::Done => RequestView::Done,
            Request::Addresses { host, lookup } => RequestView::Addresses {
                host: host@,
                lookup: *lookup,
            },
            Request::Hostname { host } => RequestView::Hostname { host: host@ },
            Request::Records { host } => RequestView::Records { host: host@ },
        }
    }
}

impl View for Reply {
    type V = ReplyView;

    open spec fn view(&self) -> ReplyView {
        match self {
            Reply::Addresses(addresses) => ReplyView::Addresses(addresses.deep_view()),
            Reply::Hostname(output) => ReplyView::Hostname(output@),
            Reply::Records { interfaces, processes, connections } => ReplyView::Records {
                interfaces: interfaces@,
                processes: processes@,
                connections: connections@,
            },
            Reply::Failed => ReplyView::Failed,
        }
    }
}

impl View for Crawler {
    type V = CrawlerView;

    open spec fn view(&self) -> CrawlerView {
        CrawlerView {
            model: self.model@,
            rules: self.rules.deep_view(),
            networks: self.networks@,
            pending: self.waiting.deep_view().reverse(),
            stage: self.stage@,
        }
    }
}

/// The remote addresses of connections, in order.
pub open spec fn remotes_of(links: Seq<ConnectionView>) -> Seq<Seq<char>> {
    links.map_values(|link: ConnectionView| link.remote_addr)
}

impl CrawlerView {
    /// The crawl at its start.
    pub open spec fn start(
        hosts: Seq<Seq<char>>,
        excludes: Option<Seq<char>>,
        networks: Seq<char>,
    ) -> CrawlerView {
        CrawlerView {
            model: ModelView::empty(),
            rules: rules_of(excludes),
            networks,
            pending: hosts,
            stage: StageView::Admitting,
        }
    }

    /// Whether a host or hostname with these addresses may enter the model:
    /// it belongs to the networks, and no rule excludes it.
    pub open spec fn admits(self, name: Seq<char>, addresses: Seq<Seq<char>>) -> bool {
        in_networks(addresses, self.networks) && !host_excluded(self.rules, name)
    }

    /// What the crawler needs next.
    pub open spec fn request(self) -> RequestView {
        if self.pending.len() == 0 {
            RequestView::Done
        } else {
            let host = self.pending.first();
            match self.stage {
                StageView::Admitting => RequestView::Addresses {
                    host,
                    lookup: valid_hostname(host),
                },
                StageView::Naming => RequestView::Hostname { host },
                StageView::Confirming { hostname } => RequestView::Addresses {
                    host: hostname,
                    lookup: valid_hostname(hostname),
                },
                StageView::Fetching { hostname } => RequestView::Records { host },
            }
        }
    }

    /// The crawl with another stage for the next host.
    pub open spec fn at(self, stage: StageView) -> CrawlerView {
        CrawlerView { stage, ..self }
    }

    /// The crawl without the next host.
    pub open spec fn dropped(self) -> CrawlerView {
        CrawlerView { pending: self.pending.drop_first(), stage: StageView::Admitting, ..self }
    }

    /// The crawl after the next host, which reported `hostname`, has been
    /// fetched: its machine and its connections are in the model, and the
    /// remote addresses of the connections wait in front of the other
    /// hosts. Nothing enters the model where it has a machine of that
    /// hostname already.
    pub open spec fn fetched(
        self,
        hostname: Seq<char>,
        interfaces: Seq<char>,
        processes: Seq<char>,
        connections: Seq<char>,
    ) -> CrawlerView {
        let host = self.pending.first();
        let machine = MachineView {
            hostname,
            interfaces: interfaces_of(self.rules, host, interfaces),
            processes: processes_of(self.rules, host, processes),
        };
        let links = connections_of(self.rules, host, connections);
        if self.model.has_machine(hostname) {
            self.dropped()
        } else {
            CrawlerView {
                model: self.model.with_machine(machine).with_connections(links),
                pending: remotes_of(links) + self.pending.drop_first(),
                stage: StageView::Admitting,
                ..self
            }
        }
    }

    /// The crawl after `reply`. A reply that does not answer the request
    /// changes nothing, and a failure drops the next host.
    pub open spec fn step(self, reply: ReplyView) -> CrawlerView {
        if self.pending.len() == 0 {
            self
        } else {
            match (self.stage, reply) {
                (_, ReplyView::Failed) => self.dropped(),
                (StageView::Admitting, ReplyView::Addresses(addresses)) => {
                    if self.admits(self.pending.first(), addresses) {
                        self.at(StageView::Naming)
                    } else {
                        self.dropped()
                    }
                },
                (StageView::Naming, ReplyView::Hostname(output)) => self.at(
                    StageView::Confirming { hostname: trimmed(output) },
                ),
                (StageView::Confirming { hostname }, ReplyView::Addresses(addresses)) => {
                    if self.admits(hostname, addresses) && !self.model.has_machine(hostname) {
                        self.at(StageView::Fetching { hostname })
                    } else {
                        self.dropped()
                    }
                },
                (
                    StageView::Fetching { hostname },
                    ReplyView::Records { interfaces, processes, connections },
                ) => self.fetched(hostname, interfaces, processes, connections),
                _ => self,
            }
        }
    }
}

impl Stage {
    /// A copy of the stage.
    pub fn copy(&self) -> (stage: Stage)
        ensures
            stage@ == self@,
    {
        match self {
            Stage::Admitting => Stage::Admitting,
            Stage::Naming => Stage::Naming,
            Stage::Confirming { hostname } => Stage::Confirming { hostname: hostname.clone() },
            Stage::Fetching { hostname } => Stage::Fetching { hostname: hostname.clone() },
        }
    }
}

impl Crawler {
    /// A crawl that starts from `hosts`, the first of them first, leaves
    /// out what the rule list `excludes` excludes, and stays within the
    /// comma-separated address ranges of `networks`.
    pub fn new(hosts: Vec<String>, excludes: &Option<String>, networks: String) -> (crawler:
        Crawler)
        ensures
            crawler@ == CrawlerView::start(hosts.deep_view(), excludes.deep_view(), networks@),
            crawler.model.wf(),
    {
        let mut hosts = hosts;
        let ghost given = hosts.deep_view();
        let mut waiting: Vec<String> = Vec::new();
        while hosts.len() > 0
            invariant
                hosts.len() + waiting.len() == given.len(),
                forall|k: int|
                    0 <= k < hosts.len() ==> (#[trigger] hosts.deep_view()[k]) == given[k],
                forall|k: int|
                    0 <= k < waiting.len() ==> (#[trigger] waiting.deep_view()[k]) == given[
                        given.len() - 1 - k],
            decreases hosts.len(),
        {
            let ghost before = waiting.deep_view();
            let ghost left = hosts.deep_view();
            match hosts.pop() {
                Some(host) => {
                    assert(host@ == left[left.len() - 1]);
                    waiting.push(host);
                    assert(waiting.deep_view() =~= before.push(host@));
                    assert(hosts.deep_view() =~= left.drop_last());
                },
                None => {},
            }
        }
        let crawler = Crawler {
            model: Model::new(),
            rules: parse_rules(excludes),
            networks,
            waiting,
            stage: Stage::Admitting,
        };
        assert(crawler@.pending =~= given);
        crawler
    }

    /// Whether no host is waiting.
    pub fn is_done(&self) -> (done: bool)
        ensures
            done == (self@.request() is Done),
            done == (self@.pending.len() == 0),
    {
        self.waiting.len() == 0
    }

    /// What the crawler needs next.
    pub fn request(&self) -> (request: Request)
        ensures
            request@ == self@.request(),
    {
        let n = self.waiting.len();
        if n == 0 {
            return Request::Done;
        }
        let host = self.waiting[n - 1].clone();
        assert(host@ == self@.pending.first());
        match &self.stage {
            Stage::Admitting => {
                let lookup = is_valid_hostname(host.as_str());
                Request::Addresses { host, lookup }
            },
            Stage::Naming => Request::Hostname { host },
            Stage::Confirming { hostname } => {
                let lookup = is_valid_hostname(hostname.as_str());
                Request::Addresses { host: hostname.clone(), lookup }
            },
            Stage::Fetching { hostname } => Request::Records { host },
        }
    }

    /// Whether a host or hostname with these addresses may enter the model.
    pub fn admits(&self, name: &str, addresses: &Vec<String>) -> (admitted: bool)
        ensures
            admitted == self@.admits(name@, addresses.deep_view()),
    {
        is_host_in_network(addresses, self.networks.as_str()) && !rules_exclude_host(
            &self.rules,
            name,
        )
    }

    /// Drops the next host.
    fn drop_host(&mut self)
        requires
            old(self)@.pending.len() > 0,
        ensures
            final(self)@ == old(self)@.dropped(),
            final(self).model == old(self).model,
    {
        let ghost before = self.waiting.deep_view();
        self.waiting.pop();
        self.stage = Stage::Admitting;
        proof {
            assert(self.waiting.deep_view() =~= before.drop_last());
            assert(before.drop_last().reverse() =~= before.reverse().drop_first());
        }
    }

    /// Takes the machine and the connections of the next host, which
    /// reported `hostname`, into the model.
    fn fetch(&mut self, hostname: String, interfaces: &str, processes: &str, connections: &str)
        requires
            old(self)@.pending.len() > 0,
        ensures
            final(self)@ == old(self)@.fetched(hostname@, interfaces@, processes@, connections@),
            old(self).model.wf() ==> final(self).model.wf(),
    {
        if self.model.has_machine(hostname.as_str()) {
            self.drop_host();
            return;
        }
        let ghost before = self@;
        let ghost stack = self.waiting.deep_view();
        let n = self.waiting.len();
        let host = self.waiting[n - 1].clone();
        assert(host@ == before.pending.first());
        let machine = Machine {
            hostname,
            interfaces: parse_interfaces(host.as_str(), interfaces, &self.rules),
            processes: parse_processes(host.as_str(), processes, &self.rules),
        };
        let links = parse_connections(host.as_str(), connections, &self.rules);
        let ghost remotes = remotes_of(links.deep_view());
        self.waiting.pop();
        assert(self.waiting.deep_view() =~= stack.drop_last());
        let mut k: usize = links.len();
        while k > 0
            invariant
                k <= links.len(),
                remotes == remotes_of(links.deep_view()),
                self.waiting.deep_view() =~= stack.drop_last() + remotes.skip(k as int).reverse(),
                self.model == old(self).model,
                self.rules == old(self).rules,
                self.networks == old(self).networks,
            decreases k,
        {
            k -= 1;
            let ghost seen = self.waiting.deep_view();
            let remote = links[k].remote_addr.clone();
            self.waiting.push(remote);
            proof {
                assert(self.waiting.deep_view() =~= seen.push(remote@));
                assert(remote@ == remotes[k as int]);
                assert(remotes.skip(k as int).reverse() =~= remotes.skip(k as int + 1).reverse().push(
                    remotes[k as int],
                ));
            }
        }
        proof {
            assert(remotes.skip(0) =~= remotes);
            assert((stack.drop_last() + remotes.reverse()).reverse() =~= remotes
                + before.pending.drop_first());
        }
        self.model.add_machine(machine);
        self.model.add_connections(links);
        self.stage = Stage::Admitting;
    }

    /// Takes the answer to the request and decides how the crawl goes on.
    pub fn advance(&mut self, reply: Reply)
        ensures
            final(self)@ == old(self)@.step(reply@),
            old(self).model.wf() ==> final(self).model.wf(),
    {
        let n = self.waiting.len();
        if n == 0 {
            return;
        }
        let stage = self.stage.copy();
        match reply {
            Reply::Failed => {
                self.drop_host();
            },
            Reply::Addresses(addresses) => {
                match stage {
                    Stage::Admitting => {
                        let host = self.waiting[n - 1].clone();
                        assert(host@ == self@.pending.first());
                        if self.admits(host.as_str(), &addresses) {
                            self.stage = Stage::Naming;
                        } else {
                            self.drop_host();
                        }
                    },
                    Stage::Confirming { hostname } => {
                        if self.admits(hostname.as_str(), &addresses) && !self.model.has_machine(
                            hostname.as_str(),
                        ) {
                            self.stage = Stage::Fetching { hostname };
                        } else {
                            self.drop_host();
                        }
                    },
                    _ => {},
                }
            },
            Reply::Hostname(output) => {
                match stage {
                    Stage::Naming => {
                        let hostname = parse_hostname(output.as_str());
                        self.stage = Stage::Confirming { hostname };
                    },
                    _ => {},
                }
            },
            Reply::Records { interfaces, processes, connections } => {
                match stage {
                    Stage::Fetching { hostname } => {
                        self.fetch(
                            hostname,
                            interfaces.as_str(),
                            processes.as_str(),
                            connections.as_str(),
                        );
                    },
                    _ => {},
                }
            },
        }
    }

    /// The model that the crawl has built.
    pub fn into_model(self) -> (model: Model)
        ensures
            model == self.model,
    {
        self.model
    }
}

/// No reply brings a second machine of a hostname into the model: where
/// the hostnames of the model are apart before a step, they are apart after
/// it.
pub proof fn lemma_step_keeps_hostnames_apart(crawl: CrawlerView, reply: ReplyView)
    requires
        crawl.model.is_unique(),
    ensures
        crawl.step(reply).model.is_unique(),
{
    if crawl.pending.len() > 0 {
        match (crawl.stage, reply) {
            (
                StageView::Fetching { hostname },
                ReplyView::Records { interfaces, processes, connections },
            ) => {
                let host = crawl.pending.first();
                let machine = MachineView {
                    hostname,
                    interfaces: interfaces_of(crawl.rules, host, interfaces),
                    processes: processes_of(crawl.rules, host, processes),
                };
                lemma_with_machine_is_unique(crawl.model, machine);
            },
            _ => {},
        }
    }
}

/// A host that reports a hostname of which the model has a machine already
/// leaves the model as it is, whatever it reports of itself.
pub proof fn lemma_known_hostname_changes_nothing(
    crawl: CrawlerView,
    hostname: Seq<char>,
    reply: ReplyView,
)
    requires
        crawl.pending.len() > 0,
        crawl.model.has_machine(hostname),
        crawl.stage == (StageView::Confirming { hostname }) || crawl.stage == (StageView::Fetching {
            hostname,
        }),
    ensures
        crawl.step(reply).model == crawl.model,
{
}

/// A step takes nothing from the model: its machines and its connections
/// stay as they are and in their order, and what the step brings comes
/// after them.
pub proof fn lemma_step_only_adds(crawl: CrawlerView, reply: ReplyView)
    ensures
        crawl.model.machines.is_prefix_of(crawl.step(reply).model.machines),
        crawl.model.connections.is_prefix_of(crawl.step(reply).model.connections),
        crawl.step(reply).model.machines.len() <= crawl.model.machines.len() + 1,
{
}

/// A host that is not admitted, or whose hostname is not confirmed, is
/// dropped, and the model stays as it is.
pub proof fn lemma_refused_host_is_dropped(crawl: CrawlerView, addresses: Seq<Seq<char>>)
    requires
        crawl.pending.len() > 0,
        match crawl.stage {
            StageView::Admitting => !crawl.admits(crawl.pending.first(), addresses),
            StageView::Confirming { hostname } => !crawl.admits(hostname, addresses),
            _ => false,
        },
    ensures
        crawl.step(ReplyView::Addresses(addresses)) == crawl.dropped(),
        crawl.step(ReplyView::Addresses(addresses)).model == crawl.model,
{
}

/// A host that is fetched is in the model afterwards, once: whether the
/// model had a machine of its hostname before or not, it then has exactly
/// one.
pub proof fn lemma_fetched_host_is_there_once(
    crawl: CrawlerView,
    hostname: Seq<char>,
    interfaces: Seq<char>,
    processes: Seq<char>,
    connections: Seq<char>,
)
    requires
        crawl.model.is_unique(),
        crawl.pending.len() > 0,
        crawl.stage == (StageView::Fetching { hostname }),
    ensures
        crawl.step(ReplyView::Records { interfaces, processes, connections }).model.count(hostname)
            == 1,
{
    let reply = ReplyView::Records { interfaces, processes, connections };
    let after = crawl.step(reply).model;
    lemma_step_keeps_hostnames_apart(crawl, reply);
    if !crawl.model.has_machine(hostname) {
        assert(after.machines[crawl.model.machines.len() as int].hostname == hostname);
    }
    assert(after.has_machine(hostname));
    lemma_count_of_present(after, hostname);
}

} // verus!
