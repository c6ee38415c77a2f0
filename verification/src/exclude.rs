//! Exclusion rules: what the user asks to leave out of the topology.
//!
//! A rule list is a comma-separated string. Each rule names up to four
//! parts, `[host|IP][%device][:port][/protocol]`, and each part is either
//! set to a text or unset. A rule excludes a host, a device, or a socket; a
//! connection is excluded when both of its sockets are.

use crate::pattern::{captured, captures, part, part_of};
use crate::text::{is_empty, same_text, split, split_on};
use vstd::prelude::*;

verus! {

/// The regular expression of one rule. Its four capture groups are the
/// host, the device, the port and the protocol. A host is a run of letters,
/// digits, dots and hyphens, of one character or more, that neither starts
/// nor ends with a hyphen.
pub const RULE_PATTERN: &'static str =
    r"([a-zA-Z0-9.](?:[a-zA-Z0-9.-]*[a-zA-Z0-9.])?)?(?:%([a-z0-9]+))?(?::(\d{1,5}))?(?:/([a-z0-9]+))?";

/// One exclusion rule. A part that is the empty text is unset.
#[derive(Debug)]
pub struct ExclusionRule {
    pub host: String,
    pub device: String,
    pub port: String,
    pub protocol: String,
}

/// An exclusion rule as the contracts see it.
pub ghost struct RuleView {
    pub host: Seq<char>,
    pub device: Seq<char>,
    pub port: Seq<char>,
    pub protocol: Seq<char>,
}

impl View for ExclusionRule {
    type V = RuleView;

    open spec fn view(&self) -> RuleView {
        RuleView {
            host: self.host@,
            device: self.device@,
            port: self.port@,
            protocol: self.protocol@,
        }
    }
}

impl DeepView for ExclusionRule {
    type V = RuleView;

    open spec fn deep_view(&self) -> RuleView {
        self.view()
    }
}

/// Whether a part of a rule is unset.
pub open spec fn is_unset(part: Seq<char>) -> bool {
    part.len() == 0
}

impl RuleView {
    /// Whether the rule's host part is `host` or `bindaddr`.
    pub open spec fn names(self, host: Seq<char>, bindaddr: Seq<char>) -> bool {
        self.host == host || self.host == bindaddr
    }

    /// Whether the rule excludes the host `host`: only its host part is set,
    /// and it is `host`.
    pub open spec fn excludes_host(self, host: Seq<char>) -> bool {
        &&& !is_unset(self.host)
        &&& self.host == host
        &&& is_unset(self.device)
        &&& is_unset(self.port)
        &&& is_unset(self.protocol)
    }

    /// Whether the rule excludes the device `device` of `host`: its device
    /// part is set and is `device`, neither port nor protocol is set, and its
    /// host part is unset or `host`.
    pub open spec fn excludes_device(self, host: Seq<char>, device: Seq<char>) -> bool {
        &&& !is_unset(self.device)
        &&& self.device == device
        &&& is_unset(self.port)
        &&& is_unset(self.protocol)
        &&& (self.host == host || is_unset(self.host))
    }

    /// The first way to exclude a socket: the rule names `host` or
    /// `bindaddr` and sets neither port nor protocol.
    pub open spec fn excludes_endpoint(self, host: Seq<char>, bindaddr: Seq<char>) -> bool {
        &&& self.names(host, bindaddr)
        &&& is_unset(self.port)
        &&& is_unset(self.protocol)
    }

    /// The second way to exclude a socket: the rule's port part is `port`,
    /// its host part names the socket or is unset, and its protocol part is
    /// `protocol` or unset.
    pub open spec fn excludes_port(
        self,
        host: Seq<char>,
        bindaddr: Seq<char>,
        port: Seq<char>,
        protocol: Seq<char>,
    ) -> bool {
        &&& (self.names(host, bindaddr) || is_unset(self.host))
        &&& self.port == port
        &&& (self.protocol == protocol || is_unset(self.protocol))
    }

    /// The third way to exclude a socket: the rule's protocol part is
    /// `protocol`, its host part names the socket or is unset, and its port
    /// part is `port` unless the protocol part is unset.
    pub open spec fn excludes_protocol(
        self,
        host: Seq<char>,
        bindaddr: Seq<char>,
        port: Seq<char>,
        protocol: Seq<char>,
    ) -> bool {
        &&& (self.names(host, bindaddr) || is_unset(self.host))
        &&& (self.port == port || is_unset(self.protocol))
        &&& self.protocol == protocol
    }

    /// Whether the rule excludes the socket `bindaddr:port/protocol` of
    /// `host`: its device part is unset, and it excludes the socket in one
    /// of the three ways.
    pub open spec fn excludes_socket(
        self,
        host: Seq<char>,
        bindaddr: Seq<char>,
        port: Seq<char>,
        protocol: Seq<char>,
    ) -> bool {
        &&& is_unset(self.device)
        &&& (self.excludes_endpoint(host, bindaddr) || self.excludes_port(
            host,
            bindaddr,
            port,
            protocol,
        ) || self.excludes_protocol(host, bindaddr, port, protocol))
    }
}

/// The rule that the capture groups of a match of `RULE_PATTERN` stand for.
pub open spec fn rule_of_groups(groups: Seq<Option<Seq<char>>>) -> RuleView {
    RuleView {
        host: part_of(groups, 1),
        device: part_of(groups, 2),
        port: part_of(groups, 3),
        protocol: part_of(groups, 4),
    }
}

/// The rule that one token of a rule list stands for: none where
/// `RULE_PATTERN` has no match in the token.
pub open spec fn rule_of(token: Seq<char>) -> Option<RuleView> {
    match captured(RULE_PATTERN@, token) {
        Some(groups) => Some(rule_of_groups(groups)),
        None => None,
    }
}

/// The rules of a rule list: those of its comma-separated tokens, in order,
/// and none where there is no list.
pub open spec fn rules_of(excludes: Option<Seq<char>>) -> Seq<RuleView> {
    match excludes {
        Some(list) => split_on(list, ',').filter_map(|token: Seq<char>| rule_of(token)),
        None => Seq::empty(),
    }
}

/// Whether some rule of `rules` excludes the host.
pub open spec fn host_excluded(rules: Seq<RuleView>, host: Seq<char>) -> bool {
    exists|i: int| 0 <= i < rules.len() && (#[trigger] rules[i]).excludes_host(host)
}

/// Whether some rule of `rules` excludes the device of the host.
pub open spec fn device_excluded(rules: Seq<RuleView>, host: Seq<char>, device: Seq<char>) -> bool {
    exists|i: int| 0 <= i < rules.len() && (#[trigger] rules[i]).excludes_device(host, device)
}

/// Whether some rule of `rules` excludes the socket of the host.
pub open spec fn socket_excluded(
    rules: Seq<RuleView>,
    host: Seq<char>,
    bindaddr: Seq<char>,
    port: Seq<char>,
    protocol: Seq<char>,
) -> bool {
    exists|i: int|
        0 <= i < rules.len() && (#[trigger] rules[i]).excludes_socket(
            host,
            bindaddr,
            port,
            protocol,
        )
}

/// Whether `rules` exclude a connection: they exclude its local socket and
/// they exclude its remote socket, each by a rule of its own.
pub open spec fn connection_excluded(
    rules: Seq<RuleView>,
    host: Seq<char>,
    localaddr: Seq<char>,
    localport: Seq<char>,
    remoteaddr: Seq<char>,
    remoteport: Seq<char>,
    protocol: Seq<char>,
) -> bool {
    socket_excluded(rules, host, localaddr, localport, protocol) && socket_excluded(
        rules,
        host,
        remoteaddr,
        remoteport,
        protocol,
    )
}

impl ExclusionRule {
    /// The rule that the capture groups of a match of `RULE_PATTERN` stand
    /// for.
    pub fn from_groups(groups: &Vec<Option<String>>) -> (rule: ExclusionRule)
        ensures
            rule@ == rule_of_groups(groups.deep_view()),
    {
        ExclusionRule {
            host: part(groups, 1),
            device: part(groups, 2),
            port: part(groups, 3),
            protocol: part(groups, 4),
        }
    }

    /// The rule that one token of a rule list stands for.
    pub fn parse(token: &str) -> (rule: Option<ExclusionRule>)
        ensures
            rule.deep_view() == rule_of(token@),
    {
        match captures(RULE_PATTERN, token) {
            Some(groups) => Some(ExclusionRule::from_groups(&groups)),
            None => None,
        }
    }

    /// Whether the rule excludes the host `host`.
    pub fn excludes_host(&self, host: &str) -> (excluded: bool)
        ensures
            excluded == self@.excludes_host(host@),
    {
        !is_empty(&self.host) && same_text(self.host.as_str(), host) && is_empty(&self.device)
            && is_empty(&self.port) && is_empty(&self.protocol)
    }

    /// Whether the rule excludes the device `device` of `host`.
    pub fn excludes_device(&self, host: &str, device: &str) -> (excluded: bool)
        ensures
            excluded == self@.excludes_device(host@, device@),
    {
        !is_empty(&self.device) && same_text(self.device.as_str(), device) && is_empty(&self.port)
            && is_empty(&self.protocol) && (same_text(self.host.as_str(), host) || is_empty(
            &self.host,
        ))
    }

    /// Whether the rule excludes the socket `bindaddr:port/protocol` of
    /// `host`.
    pub fn excludes_socket(&self, host: &str, bindaddr: &str, port: &str, protocol: &str) -> (
    excluded: bool)
        ensures
            excluded == self@.excludes_socket(host@, bindaddr@, port@, protocol@),
    {
        if !is_empty(&self.device) {
            return false;
        }
        let named = same_text(self.host.as_str(), host) || same_text(self.host.as_str(), bindaddr);
        let anywhere = named || is_empty(&self.host);
        let same_port = same_text(self.port.as_str(), port);
        let same_protocol = same_text(self.protocol.as_str(), protocol);
        let no_port = is_empty(&self.port);
        let no_protocol = is_empty(&self.protocol);
        (named && no_port && no_protocol) || (anywhere && same_port && (same_protocol
            || no_protocol)) || (anywhere && (same_port || no_protocol) && same_protocol)
    }
}

/// The rules of a rule list.
pub fn parse_rules(excludes: &Option<String>) -> (rules: Vec<ExclusionRule>)
    ensures
        rules.deep_view() == rules_of(excludes.deep_view()),
{
    let mut rules: Vec<ExclusionRule> = Vec::new();
    match excludes {
        Some(list) => {
            let tokens = split(list.as_str(), ',');
            let ghost read = |token: Seq<char>| rule_of(token);
            let mut i: usize = 0;
            while i < tokens.len()
                invariant
                    i <= tokens.len(),
                    read == |token: Seq<char>| rule_of(token),
                    rules.deep_view() =~= tokens.deep_view().take(i as int).filter_map(read),
                decreases tokens.len() - i,
            {
                let ghost seen = rules.deep_view();
                proof {
                    tokens.deep_view().lemma_filter_map_take_succ(read, i as int);
                }
                match ExclusionRule::parse(tokens[i].as_str()) {
                    Some(rule) => {
                        rules.push(rule);
                        assert(rules.deep_view() =~= seen.push(rule@));
                    },
                    None => {},
                }
                i += 1;
            }
            assert(tokens.deep_view().take(i as int) =~= tokens.deep_view());
        },
        None => {
            assert(rules.deep_view() =~= Seq::<RuleView>::empty());
        },
    }
    rules
}

/// Whether some rule of `rules` excludes the host `host`.
pub fn rules_exclude_host(rules: &Vec<ExclusionRule>, host: &str) -> (excluded: bool)
    ensures
        excluded == host_excluded(rules.deep_view(), host@),
{
    let mut i: usize = 0;
    while i < rules.len()
        invariant
            i <= rules.len(),
            forall|k: int| 0 <= k < i ==> !(#[trigger] rules.deep_view()[k]).excludes_host(host@),
        decreases rules.len() - i,
    {
        if rules[i].excludes_host(host) {
            assert(rules.deep_view()[i as int].excludes_host(host@));
            return true;
        }
        i += 1;
    }
    false
}

/// Whether some rule of `rules` excludes the device `device` of `host`.
pub fn rules_exclude_device(rules: &Vec<ExclusionRule>, host: &str, device: &str) -> (excluded:
    bool)
    ensures
        excluded == device_excluded(rules.deep_view(), host@, device@),
{
    let mut i: usize = 0;
    while i < rules.len()
        invariant
            i <= rules.len(),
            forall|k: int|
                0 <= k < i ==> !(#[trigger] rules.deep_view()[k]).excludes_device(host@, device@),
        decreases rules.len() - i,
    {
        if rules[i].excludes_device(host, device) {
            assert(rules.deep_view()[i as int].excludes_device(host@, device@));
            return true;
        }
        i += 1;
    }
    false
}

/// Whether some rule of `rules` excludes the socket `bindaddr:port/protocol`
/// of `host`.
pub fn rules_exclude_socket(
    rules: &Vec<ExclusionRule>,
    host: &str,
    bindaddr: &str,
    port: &str,
    protocol: &str,
) -> (excluded: bool)
    ensures
        excluded == socket_excluded(rules.deep_view(), host@, bindaddr@, port@, protocol@),
{
    let mut i: usize = 0;
    while i < rules.len()
        invariant
            i <= rules.len(),
            forall|k: int|
                0 <= k < i ==> !(#[trigger] rules.deep_view()[k]).excludes_socket(
                    host@,
                    bindaddr@,
                    port@,
                    protocol@,
                ),
        decreases rules.len() - i,
    {
        if rules[i].excludes_socket(host, bindaddr, port, protocol) {
            assert(rules.deep_view()[i as int].excludes_socket(host@, bindaddr@, port@, protocol@));
            return true;
        }
        i += 1;
    }
    false
}

/// Whether `rules` exclude the connection between `localaddr:localport` and
/// `remoteaddr:remoteport` of `host`: both of its sockets are excluded.
pub fn rules_exclude_connection(
    rules: &Vec<ExclusionRule>,
    host: &str,
    localaddr: &str,
    localport: &str,
    remoteaddr: &str,
    remoteport: &str,
    protocol: &str,
) -> (excluded: bool)
    ensures
        excluded == connection_excluded(
            rules.deep_view(),
            host@,
            localaddr@,
            localport@,
            remoteaddr@,
            remoteport@,
            protocol@,
        ),
        excluded == (socket_excluded(rules.deep_view(), host@, localaddr@, localport@, protocol@)
            && socket_excluded(rules.deep_view(), host@, remoteaddr@, remoteport@, protocol@)),
{
    rules_exclude_socket(rules, host, localaddr, localport, protocol) && rules_exclude_socket(
        rules,
        host,
        remoteaddr,
        remoteport,
        protocol,
    )
}

/// Whether the rule list `excludes` excludes the host `host`.
pub fn is_host_excluded(host: &str, excludes: &Option<String>) -> (excluded: bool)
    ensures
        excluded == host_excluded(rules_of(excludes.deep_view()), host@),
        excludes is None ==> !excluded,
{
    let rules = parse_rules(excludes);
    rules_exclude_host(&rules, host)
}

/// Whether the rule list `excludes` excludes the device `device` of `host`.
pub fn is_device_excluded(host: &str, device: &str, excludes: &Option<String>) -> (excluded: bool)
    ensures
        excluded == device_excluded(rules_of(excludes.deep_view()), host@, device@),
        excludes is None ==> !excluded,
{
    let rules = parse_rules(excludes);
    rules_exclude_device(&rules, host, device)
}

/// Whether the rule list `excludes` excludes the socket
/// `bindaddr:port/protocol` of `host`.
pub fn is_socket_excluded(
    host: &str,
    bindaddr: &str,
    port: &str,
    protocol: &str,
    excludes: &Option<String>,
) -> (excluded: bool)
    ensures
        excluded == socket_excluded(
            rules_of(excludes.deep_view()),
            host@,
            bindaddr@,
            port@,
            protocol@,
        ),
        excludes is None ==> !excluded,
{
    let rules = parse_rules(excludes);
    rules_exclude_socket(&rules, host, bindaddr, port, protocol)
}

/// Whether the rule list `excludes` excludes the connection between
/// `localaddr:localport` and `remoteaddr:remoteport` of `host`: it does so
/// when, and only when, it excludes both sockets.
pub fn is_connection_excluded(
    host: &str,
    localaddr: &str,
    localport: &str,
    remoteaddr: &str,
    remoteport: &str,
    protocol: &str,
    excludes: &Option<String>,
) -> (excluded: bool)
    ensures
        excluded == connection_excluded(
            rules_of(excludes.deep_view()),
            host@,
            localaddr@,
            localport@,
            remoteaddr@,
            remoteport@,
            protocol@,
        ),
        excluded == (socket_excluded(
            rules_of(excludes.deep_view()),
            host@,
            localaddr@,
            localport@,
            protocol@,
        ) && socket_excluded(
            rules_of(excludes.deep_view()),
            host@,
            remoteaddr@,
            remoteport@,
            protocol@,
        )),
        excludes is None ==> !excluded,
{
    let rules = parse_rules(excludes);
    rules_exclude_connection(
        &rules,
        host,
        localaddr,
        localport,
        remoteaddr,
        remoteport,
        protocol,
    )
}

/// A device rule without a host part excludes its device on every host.
pub proof fn lemma_device_rule_covers_every_host(rule: RuleView, host: Seq<char>)
    requires
        is_unset(rule.host),
        !is_unset(rule.device),
        is_unset(rule.port),
        is_unset(rule.protocol),
    ensures
        rule.excludes_device(host, rule.device),
{
}

/// A rule with a device part excludes no host and no socket.
pub proof fn lemma_device_rule_excludes_devices_only(
    rule: RuleView,
    host: Seq<char>,
    bindaddr: Seq<char>,
    port: Seq<char>,
    protocol: Seq<char>,
)
    requires
        !is_unset(rule.device),
    ensures
        !rule.excludes_host(host),
        !rule.excludes_socket(host, bindaddr, port, protocol),
{
}

/// A rule without any part excludes no host and no device, and no socket
/// of which host, address, port and protocol are known.
pub proof fn lemma_rule_without_parts_excludes_nothing(
    rule: RuleView,
    host: Seq<char>,
    device: Seq<char>,
    bindaddr: Seq<char>,
    port: Seq<char>,
    protocol: Seq<char>,
)
    requires
        is_unset(rule.host),
        is_unset(rule.device),
        is_unset(rule.port),
        is_unset(rule.protocol),
    ensures
        !rule.excludes_host(host),
        !rule.excludes_device(host, device),
        host.len() > 0 && bindaddr.len() > 0 && port.len() > 0 && protocol.len() > 0
            ==> !rule.excludes_socket(host, bindaddr, port, protocol),
{
}

/// A connection is excluded only when both of its sockets are: with one
/// socket that no rule excludes, the connection stays.
pub proof fn lemma_connection_needs_both_sockets(
    rules: Seq<RuleView>,
    host: Seq<char>,
    localaddr: Seq<char>,
    localport: Seq<char>,
    remoteaddr: Seq<char>,
    remoteport: Seq<char>,
    protocol: Seq<char>,
)
    ensures
        connection_excluded(rules, host, localaddr, localport, remoteaddr, remoteport, protocol)
            <==> socket_excluded(rules, host, localaddr, localport, protocol) && socket_excluded(
            rules,
            host,
            remoteaddr,
            remoteport,
            protocol,
        ),
        !socket_excluded(rules, host, remoteaddr, remoteport, protocol) ==> !connection_excluded(
            rules,
            host,
            localaddr,
            localport,
            remoteaddr,
            remoteport,
            protocol,
        ),
        !socket_excluded(rules, host, localaddr, localport, protocol) ==> !connection_excluded(
            rules,
            host,
            localaddr,
            localport,
            remoteaddr,
            remoteport,
            protocol,
        ),
{
}

/// Without rules nothing is excluded.
pub proof fn lemma_no_rules_exclude_nothing(
    host: Seq<char>,
    device: Seq<char>,
    bindaddr: Seq<char>,
    port: Seq<char>,
    protocol: Seq<char>,
)
    ensures
        !host_excluded(rules_of(None), host),
        !device_excluded(rules_of(None), host, device),
        !socket_excluded(rules_of(None), host, bindaddr, port, protocol),
{
}

} // verus!
