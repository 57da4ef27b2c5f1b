//! The fleet state a person needs, without the distribution vocabulary of the protocol.
//!
//! The local profile says what should be present; live status says what is present now. Facts
//! neither of them states stay unknown. No command here changes membership.

use vstd::prelude::*;

use crate::clock::digits_end;
use crate::json::{items_view, seen, Json, JsonView};
use crate::readings::{lemma_a_number_inside_reads_back, lemma_a_number_reads_back, number_at};
use crate::text::{
    ascending, cat2, cat3, cat4, cut, decimal, heard, insert_sorted, is_ascii_digit, listed,
    number, precedes, said, same, split_once, texts, trim, trimmed,
};

verus! {

/// What a runtime reports of itself, as far as this module reads it.
#[derive(Debug)]
pub struct RuntimeStatus {
    pub node: String,
    pub cluster: Json,
    pub connected_nodes: Vec<String>,
}

#[derive(Debug)]
pub struct FleetMember {
    pub node: String,
    pub machine: String,
}

/// What this machine was configured to expect.
#[derive(Debug)]
pub struct FleetProfile {
    pub name: String,
    pub machine: String,
    pub host: String,
    pub node: String,
    pub members: Vec<FleetMember>,
}

#[derive(Debug)]
pub struct MachineSummary {
    pub mode: String,
    pub fleet: Option<String>,
    pub machine: String,
    pub host: Option<String>,
    pub expected: Option<u64>,
    pub connected: u64,
    pub offline: Option<u64>,
    pub offline_names: Vec<String>,
    pub security: MachineSecurity,
    pub recovery: String,
}

#[derive(Debug, Clone, Copy, PartialEq, Eq, Structural)]
pub enum MachineSecurity {
    Standalone,
    Secure,
    Insecure,
    Mismatch,
    Unknown,
}

pub open spec fn security_words(security: MachineSecurity) -> Seq<char> {
    match security {
        MachineSecurity::Standalone => "not needed while standalone"@,
        MachineSecurity::Secure => "encrypted and authenticated (TLS)"@,
        MachineSecurity::Insecure => "insecure: machine traffic is not using TLS"@,
        MachineSecurity::Mismatch => "configuration mismatch: fleet profile loaded, runtime is standalone"@,
        MachineSecurity::Unknown => "security not reported yet"@,
    }
}

impl MachineSecurity {
    pub fn label(self) -> (r: &'static str)
        ensures
            r@ == security_words(self),
    {
        match self {
            MachineSecurity::Standalone => "not needed while standalone",
            MachineSecurity::Secure => "encrypted and authenticated (TLS)",
            MachineSecurity::Insecure => "insecure: machine traffic is not using TLS",
            MachineSecurity::Mismatch => "configuration mismatch: fleet profile loaded, runtime is standalone",
            MachineSecurity::Unknown => "security not reported yet",
        }
    }
}

/// One destination in the new-session form.
#[derive(Debug)]
pub enum MachineChoice {
    /// This machine, which is named on the wire by saying nothing.
    Local { label: String },
    Connected { machine: String, node: String },
}

impl MachineChoice {
    pub open spec fn words(&self) -> Seq<char> {
        match *self {
            MachineChoice::Local { label } => "This machine \u{2014} "@ + label@,
            MachineChoice::Connected { machine, node } => machine@ + " \u{2014} connected ("@ + node@
                + ")"@,
        }
    }

    pub fn label(&self) -> (r: String)
        ensures
            r@ == self.words(),
    {
        match self {
            MachineChoice::Local { label } => cat2("This machine \u{2014} ", label.as_str()),
            MachineChoice::Connected { machine, node } => cat4(
                machine.as_str(),
                " \u{2014} connected (",
                node.as_str(),
                ")",
            ),
        }
    }

    pub open spec fn wire(&self) -> Option<Seq<char>> {
        match *self {
            MachineChoice::Local { .. } => None,
            MachineChoice::Connected { machine, .. } => Some(machine@),
        }
    }

    pub fn wire_name(&self) -> (r: Option<&str>)
        ensures
            heard(r) == self.wire(),
    {
        match self {
            MachineChoice::Local { .. } => None,
            MachineChoice::Connected { machine, .. } => Some(machine.as_str()),
        }
    }
}

// ----- reading the report -----------------------------------------------------------

pub open spec fn within(value: Option<JsonView>, name: Seq<char>) -> Option<JsonView> {
    match value {
        Some(v) => v.member(name),
        None => None,
    }
}

fn get<'a>(value: Option<&'a Json>, name: &str) -> (r: Option<&'a Json>)
    ensures
        seen(r) == within(seen(value), name@),
{
    match value {
        Some(v) => v.get(name),
        None => None,
    }
}

pub open spec fn text_of(value: Option<JsonView>) -> Option<Seq<char>> {
    match value {
        Some(v) => v.text(),
        None => None,
    }
}

fn str_of<'a>(value: Option<&'a Json>) -> (r: Option<&'a str>)
    ensures
        heard(r) == text_of(seen(value)),
{
    match value {
        Some(v) => v.as_str(),
        None => None,
    }
}

pub open spec fn truth_of(value: Option<JsonView>) -> Option<bool> {
    match value {
        Some(v) => v.truth(),
        None => None,
    }
}

fn bool_of(value: Option<&Json>) -> (r: Option<bool>)
    ensures
        r == truth_of(seen(value)),
{
    match value {
        Some(v) => v.as_bool(),
        None => None,
    }
}

pub open spec fn number_of(value: Option<JsonView>) -> Option<u64> {
    match value {
        Some(v) => v.unsigned(),
        None => None,
    }
}

fn u64_of(value: Option<&Json>) -> (r: Option<u64>)
    ensures
        r == number_of(seen(value)),
{
    match value {
        Some(v) => v.as_u64(),
        None => None,
    }
}

pub open spec fn cluster_of(status: Option<RuntimeStatus>) -> Option<JsonView> {
    match status {
        Some(status) => Some(status.cluster@),
        None => None,
    }
}

pub open spec fn fleet_of(status: Option<RuntimeStatus>) -> Option<JsonView> {
    within(cluster_of(status), "fleet"@)
}

/// The machines of the runtime's own directory.
pub open spec fn machines_of(status: Option<RuntimeStatus>) -> Option<Seq<JsonView>> {
    match within(fleet_of(status), "machines"@) {
        Some(v) => v.list(),
        None => None,
    }
}

pub open spec fn connected_of(status: Option<RuntimeStatus>) -> Seq<Seq<char>> {
    match status {
        Some(status) => texts(status.connected_nodes@),
        None => Seq::empty(),
    }
}

pub open spec fn strategy_of(status: Option<RuntimeStatus>) -> Seq<char> {
    match text_of(within(within(cluster_of(status), "formation"@), "strategy"@)) {
        Some(s) => s,
        None => "none"@,
    }
}

pub open spec fn distributed_of(status: Option<RuntimeStatus>) -> bool {
    truth_of(within(cluster_of(status), "distributed"@)) == Some(true)
}

pub open spec fn tls_of(status: Option<RuntimeStatus>) -> Option<bool> {
    truth_of(within(within(cluster_of(status), "security"@), "tls"@))
}

pub open spec fn summary_number(status: Option<RuntimeStatus>, name: Seq<char>) -> Option<u64> {
    number_of(within(within(fleet_of(status), "summary"@), name))
}

/// There is a fleet to speak of: a profile, a directory, distribution, or a way to form one.
pub open spec fn fleet_mode(status: Option<RuntimeStatus>, profile: Option<FleetProfile>) -> bool {
    ||| profile is Some
    ||| fleet_of(status) is Some
    ||| distributed_of(status)
    ||| strategy_of(status) != "none"@
}

/// The name before the `@` of a node, or "this machine" where there is none.
pub open spec fn friendly(node: Seq<char>) -> Seq<char> {
    match cut(node, '@') {
        Some((name, host)) => if trimmed(name).len() > 0 {
            name
        } else {
            "this machine"@
        },
        None => "this machine"@,
    }
}

pub fn friendly_machine(node: &str) -> (r: String)
    ensures
        r@ == friendly(node@),
{
    match split_once(node, '@') {
        Some((name, _)) => {
            if trim(name.as_str()).as_str().is_empty() {
                "this machine".to_owned()
            } else {
                name
            }
        },
        None => "this machine".to_owned(),
    }
}

pub open spec fn host_of(node: Seq<char>) -> Option<Seq<char>> {
    match cut(node, '@') {
        Some((name, host)) => Some(host),
        None => None,
    }
}

/// The node a runtime goes by: what its status says, else what its handshake said.
pub open spec fn own_node(status: Option<RuntimeStatus>, hello_node: Seq<char>) -> Seq<char> {
    match status {
        Some(status) => status.node@,
        None => hello_node,
    }
}

// ----- the members of a fleet -------------------------------------------------------

/// Node to machine, of the profile's members. A node that is listed twice goes by its last entry.
pub open spec fn listed_members(members: Seq<FleetMember>) -> Map<Seq<char>, Seq<char>>
    decreases members.len(),
{
    if members.len() == 0 {
        Map::empty()
    } else {
        listed_members(members.drop_last()).insert(members.last().node@, members.last().machine@)
    }
}

pub open spec fn or_insert(
    map: Map<Seq<char>, Seq<char>>,
    key: Seq<char>,
    value: Seq<char>,
) -> Map<Seq<char>, Seq<char>> {
    if map.contains_key(key) {
        map
    } else {
        map.insert(key, value)
    }
}

/// The machines the runtime has observed, added to what the profile names. A profile can lag what
/// the cluster saw.
pub open spec fn with_observed(
    map: Map<Seq<char>, Seq<char>>,
    machines: Seq<JsonView>,
) -> Map<Seq<char>, Seq<char>>
    decreases machines.len(),
{
    if machines.len() == 0 {
        map
    } else {
        let rest = with_observed(map, machines.drop_last());
        let last = machines.last();
        match last.member_text("node"@) {
            Some(node) => or_insert(
                rest,
                node,
                match last.member_text("machine"@) {
                    Some(machine) => machine,
                    None => node,
                },
            ),
            None => rest,
        }
    }
}

pub open spec fn machines_or_none(status: Option<RuntimeStatus>) -> Seq<JsonView> {
    match machines_of(status) {
        Some(machines) => machines,
        None => Seq::empty(),
    }
}

pub open spec fn members_of(profile: FleetProfile, status: Option<RuntimeStatus>) -> Map<
    Seq<char>,
    Seq<char>,
> {
    with_observed(
        or_insert(listed_members(profile.members@), profile.node@, profile.machine@),
        machines_or_none(status),
    )
}

/// What a machine the directory calls offline is called.
pub open spec fn offline_name(machine: JsonView) -> Option<Seq<char>> {
    if machine.member_text("state"@) == Some("offline"@) {
        match machine.member_text("machine"@) {
            Some(name) => Some(name),
            None => machine.member_text("node"@),
        }
    } else {
        None
    }
}

/// The names of the machines the directory calls offline, as it lists them.
pub open spec fn reported_offline(machines: Seq<JsonView>) -> Seq<Seq<char>>
    decreases machines.len(),
{
    if machines.len() == 0 {
        Seq::empty()
    } else {
        match offline_name(machines.last()) {
            Some(name) => reported_offline(machines.drop_last()).push(name),
            None => reported_offline(machines.drop_last()),
        }
    }
}

/// A member of a fleet other than this machine that no live connection reaches.
pub open spec fn is_absent(
    members: Map<Seq<char>, Seq<char>>,
    own: Seq<char>,
    connected: Seq<Seq<char>>,
    node: Seq<char>,
) -> bool {
    members.contains_key(node) && node != own && !connected.contains(node)
}

/// The name goes with a member that is absent, or is one the directory calls offline.
pub open spec fn is_missing(
    profile: FleetProfile,
    status: Option<RuntimeStatus>,
    name: Seq<char>,
) -> bool {
    ||| reported_offline(machines_or_none(status)).contains(name)
    ||| exists|node: Seq<char>|
        #![trigger members_of(profile, status)[node]]
        is_absent(members_of(profile, status), profile.node@, connected_of(status), node)
            && members_of(profile, status)[node] == name
}

/// Node and machine of a list of members.
#[derive(Debug)]
struct Directory {
    entries: Vec<(String, String)>,
}

impl Directory {
    spec fn view(&self) -> Map<Seq<char>, Seq<char>> {
        Map::new(
            |node: Seq<char>| exists|i: int|
                0 <= i < self.entries@.len() && (#[trigger] self.entries@[i]).0@ == node,
            |node: Seq<char>|
                {
                    let i = choose|i: int|
                        0 <= i < self.entries@.len() && (#[trigger] self.entries@[i]).0@ == node;
                    self.entries@[i].1@
                },
        )
    }

    spec fn wf(&self) -> bool {
        forall|i: int, j: int|
            0 <= i < j < self.entries@.len() ==> (#[trigger] self.entries@[i]).0@ != (
            #[trigger] self.entries@[j]).0@
    }

    proof fn lemma_entry(&self, i: int)
        requires
            self.wf(),
            0 <= i < self.entries@.len(),
        ensures
            self@.contains_key(self.entries@[i].0@),
            self@[self.entries@[i].0@] == self.entries@[i].1@,
    {
        let node = self.entries@[i].0@;
        let k = choose|k: int|
            0 <= k < self.entries@.len() && (#[trigger] self.entries@[k]).0@ == node;
        assert(self.entries@[i].0@ == node);
        if k < i {
            assert(self.entries@[k].0@ != self.entries@[i].0@);
        } else if i < k {
            assert(self.entries@[i].0@ != self.entries@[k].0@);
        }
    }

    proof fn lemma_size(&self)
        requires
            self.wf(),
        ensures
            self@.dom().finite(),
            self@.dom().len() == self.entries@.len(),
    {
        let nodes = self.entries@.map_values(|e: (String, String)| e.0@);
        assert(nodes.no_duplicates()) by {
            assert forall|i: int, j: int| 0 <= i < j < nodes.len() implies nodes[i] != nodes[j] by {
                assert(self.entries@[i].0@ != self.entries@[j].0@);
            }
        }
        assert(self@.dom() =~= nodes.to_set()) by {
            assert forall|x: Seq<char>| self@.dom().contains(x) == nodes.to_set().contains(x) by {
                if nodes.contains(x) {
                    let k = choose|k: int| 0 <= k < nodes.len() && nodes[k] == x;
                    assert(self.entries@[k].0@ == x);
                }
                if self@.dom().contains(x) {
                    let k = choose|k: int|
                        0 <= k < self.entries@.len() && (#[trigger] self.entries@[k]).0@ == x;
                    assert(nodes[k] == x);
                }
            }
        }
        nodes.unique_seq_to_set();
    }

    fn new() -> (r: Directory)
        ensures
            r.wf(),
            r@ == Map::<Seq<char>, Seq<char>>::empty(),
    {
        let r = Directory { entries: Vec::new() };
        assert(r@ =~= Map::<Seq<char>, Seq<char>>::empty());
        r
    }

    fn find(&self, node: &str) -> (r: Option<usize>)
        ensures
            match r {
                Some(i) => i < self.entries@.len() && self.entries@[i as int].0@ == node@
                    && self@.contains_key(node@),
                None => !self@.contains_key(node@),
            },
    {
        let mut i: usize = 0;
        while i < self.entries.len()
            invariant
                i <= self.entries@.len(),
                forall|k: int| 0 <= k < i ==> (#[trigger] self.entries@[k]).0@ != node@,
            decreases self.entries@.len() - i,
        {
            if same(self.entries[i].0.as_str(), node) {
                assert(self.entries@[i as int].0@ == node@);
                return Some(i);
            }
            i += 1;
        }
        None
    }

    fn put(&mut self, node: &str, machine: &str, replace: bool)
        requires
            old(self).wf(),
        ensures
            final(self).wf(),
            final(self)@ == if replace {
                old(self)@.insert(node@, machine@)
            } else {
                or_insert(old(self)@, node@, machine@)
            },
    {
        let ghost before = self.entries@;
        match self.find(node) {
            Some(i) => {
                if replace {
                    self.entries.set(i, (node.to_owned(), machine.to_owned()));
                    proof {
                        let after = self.entries@;
                        assert forall|a: int, b: int| 0 <= a < b < after.len() implies (
                        #[trigger] after[a]).0@ != (#[trigger] after[b]).0@ by {
                            assert(before[a].0@ != before[b].0@);
                        }
                        lemma_same_map(*self, *old(self), node@, machine@, i as int, true);
                    }
                }
            },
            None => {
                self.entries.push((node.to_owned(), machine.to_owned()));
                proof {
                    let after = self.entries@;
                    assert forall|a: int, b: int| 0 <= a < b < after.len() implies (
                    #[trigger] after[a]).0@ != (#[trigger] after[b]).0@ by {
                        if b == before.len() {
                            assert(before[a].0@ != node@);
                        } else {
                            assert(before[a].0@ != before[b].0@);
                        }
                    }
                    lemma_same_map(*self, *old(self), node@, machine@, before.len() as int, false);
                }
            },
        }
    }
}

proof fn lemma_same_map(
    after: Directory,
    before: Directory,
    node: Seq<char>,
    machine: Seq<char>,
    at: int,
    replaced: bool,
)
    requires
        after.wf(),
        before.wf(),
        replaced ==> 0 <= at < before.entries@.len() && after.entries@.len()
            == before.entries@.len() && before.entries@[at].0@ == node,
        !replaced ==> at == before.entries@.len() && after.entries@.len() == at + 1,
        after.entries@[at].0@ == node,
        after.entries@[at].1@ == machine,
        forall|i: int|
            0 <= i < before.entries@.len() && i != at ==> after.entries@[i] == before.entries@[i],
    ensures
        after@ == before@.insert(node, machine),
{
    let target = before@.insert(node, machine);
    after.lemma_entry(at);
    assert forall|x: Seq<char>| after@.contains_key(x) == target.contains_key(x) by {
        if before@.contains_key(x) {
            let k = choose|k: int|
                0 <= k < before.entries@.len() && (#[trigger] before.entries@[k]).0@ == x;
            if k != at {
                assert(after.entries@[k].0@ == x);
            }
        }
        if after@.contains_key(x) {
            let k = choose|k: int|
                0 <= k < after.entries@.len() && (#[trigger] after.entries@[k]).0@ == x;
            if k != at {
                assert(before.entries@[k].0@ == x);
            }
        }
    }
    assert forall|x: Seq<char>| after@.contains_key(x) implies after@[x] == target[x] by {
        if x != node {
            let k = choose|k: int|
                0 <= k < after.entries@.len() && (#[trigger] after.entries@[k]).0@ == x;
            assert(k != at);
            after.lemma_entry(k);
            before.lemma_entry(k);
        }
    }
    assert(after@ =~= target);
}

fn members(profile: &FleetProfile, machines: Option<&Vec<Json>>) -> (r: Directory)
    ensures
        r.wf(),
        r@ == with_observed(
            or_insert(listed_members(profile.members@), profile.node@, profile.machine@),
            match machines {
                Some(machines) => items_view(machines@),
                None => Seq::empty(),
            },
        ),
{
    let mut directory = Directory::new();
    let mut i: usize = 0;
    while i < profile.members.len()
        invariant
            i <= profile.members@.len(),
            directory.wf(),
            directory@ == listed_members(profile.members@.take(i as int)),
        decreases profile.members@.len() - i,
    {
        let member = &profile.members[i];
        assert(profile.members@.take(i + 1).drop_last() =~= profile.members@.take(i as int));
        directory.put(member.node.as_str(), member.machine.as_str(), true);
        i += 1;
    }
    assert(profile.members@.take(i as int) =~= profile.members@);
    directory.put(profile.node.as_str(), profile.machine.as_str(), false);
    let ghost base = directory@;
    match machines {
        Some(machines) => {
            let ghost whole = items_view(machines@);
            let mut k: usize = 0;
            assert(whole.take(0).len() == 0);
            while k < machines.len()
                invariant
                    k <= machines@.len(),
                    whole == items_view(machines@),
                    directory.wf(),
                    directory@ == with_observed(base, whole.take(k as int)),
                decreases machines@.len() - k,
            {
                let machine = &machines[k];
                assert(whole.take(k + 1).drop_last() =~= whole.take(k as int));
                assert(whole.take(k + 1).last() == machine@);
                if let Some(node) = machine.get_str("node") {
                    let name = match machine.get_str("machine") {
                        Some(name) => name,
                        None => node,
                    };
                    directory.put(node, name, false);
                }
                k += 1;
            }
            assert(whole.take(k as int) =~= whole);
        },
        None => {},
    }
    directory
}

fn offline_of(machine: &Json) -> (r: Option<&str>)
    ensures
        heard(r) == offline_name(machine@),
{
    let offline = match machine.get_str("state") {
        Some(state) => same(state, "offline"),
        None => false,
    };
    if !offline {
        return None;
    }
    match machine.get_str("machine") {
        Some(name) => Some(name),
        None => machine.get_str("node"),
    }
}

fn offline_listed(machines: Option<&Vec<Json>>) -> (r: Vec<String>)
    ensures
        texts(r@) == reported_offline(
            match machines {
                Some(machines) => items_view(machines@),
                None => Seq::empty(),
            },
        ),
{
    let mut out: Vec<String> = Vec::new();
    match machines {
        Some(machines) => {
            let ghost whole = items_view(machines@);
            let mut k: usize = 0;
            assert(texts(out@) =~= reported_offline(whole.take(0)));
            while k < machines.len()
                invariant
                    k <= machines@.len(),
                    whole == items_view(machines@),
                    texts(out@) == reported_offline(whole.take(k as int)),
                decreases machines@.len() - k,
            {
                let ghost before = out@;
                assert(whole.take(k + 1).drop_last() =~= whole.take(k as int));
                assert(whole.take(k + 1).last() == machines@[k as int]@);
                if let Some(name) = offline_of(&machines[k]) {
                    let owned = name.to_owned();
                    assert(texts(before.push(owned)) =~= texts(before).push(owned@));
                    out.push(owned);
                }
                k += 1;
            }
            assert(whole.take(k as int) =~= whole);
        },
        None => {
            assert(texts(out@) =~= Seq::<Seq<char>>::empty());
        },
    }
    out
}

// ----- the summary ------------------------------------------------------------------

pub open spec fn larger(a: Option<nat>, b: Option<nat>) -> Option<nat> {
    match (a, b) {
        (Some(a), Some(b)) => Some(
            if a > b {
                a
            } else {
                b
            },
        ),
        (Some(a), None) => Some(a),
        (None, b) => b,
    }
}

pub open spec fn wide(n: Option<u64>) -> Option<nat> {
    match n {
        Some(n) => Some(n as nat),
        None => None,
    }
}

pub open spec fn at_most_max(n: nat) -> nat {
    if n > u64::MAX {
        u64::MAX as nat
    } else {
        n
    }
}

/// How many machines the profile and the directory lead one to expect.
pub open spec fn profile_expected(
    status: Option<RuntimeStatus>,
    profile: Option<FleetProfile>,
) -> Option<nat> {
    match profile {
        Some(profile) => {
            let n = members_of(profile, status).dom().len();
            Some(
                if n > 1 {
                    n
                } else {
                    1
                },
            )
        },
        None => wide(summary_number(status, "expected"@)),
    }
}

pub open spec fn summary_connected(
    status: Option<RuntimeStatus>,
    profile: Option<FleetProfile>,
    missing: nat,
) -> nat {
    match summary_number(status, "connected"@) {
        Some(n) => n as nat,
        None => match profile {
            Some(p) => {
                let expected = profile_expected(status, profile)->0;
                if expected > missing {
                    (expected - missing) as nat
                } else {
                    0
                }
            },
            None => at_most_max(connected_of(status).to_set().len() + 1),
        },
    }
}

/// Never fewer than are connected.
pub open spec fn summary_expected(
    status: Option<RuntimeStatus>,
    profile: Option<FleetProfile>,
    connected: nat,
) -> Option<nat> {
    match larger(
        profile_expected(status, profile),
        wide(summary_number(status, "expected"@)),
    ) {
        Some(n) => Some(
            if n > connected {
                n
            } else {
                connected
            },
        ),
        None => None,
    }
}

pub open spec fn summary_offline(
    status: Option<RuntimeStatus>,
    expected: Option<nat>,
    connected: nat,
    missing: nat,
) -> nat {
    let short = match expected {
        Some(n) => Some(
            if n > connected {
                (n - connected) as nat
            } else {
                0
            },
        ),
        None => None,
    };
    larger(larger(wide(summary_number(status, "offline"@)), short), Some(missing))->0
}

pub open spec fn security_of(
    status: Option<RuntimeStatus>,
    profile: Option<FleetProfile>,
) -> MachineSecurity {
    let distributed = distributed_of(status);
    match tls_of(status) {
        Some(tls) => if profile is Some && !distributed {
            MachineSecurity::Mismatch
        } else if distributed && tls {
            MachineSecurity::Secure
        } else if distributed {
            MachineSecurity::Insecure
        } else {
            MachineSecurity::Unknown
        },
        None => if profile is Some && !distributed && status is Some {
            MachineSecurity::Mismatch
        } else {
            MachineSecurity::Unknown
        },
    }
}

pub open spec fn recovery_words(offline: nat) -> Seq<char> {
    if offline == 0 {
        "All known machines are connected. Running daemons retry membership after network interruptions."@
    } else {
        decimal(offline) + (if offline == 1 {
            " machine is"@
        } else {
            " machines are"@
        }) + " offline; running daemons keep retrying membership."@
    }
}

impl MachineSummary {
    /// The summary of a machine that has no fleet to speak of.
    pub open spec fn stands_alone(&self, node: Seq<char>) -> bool {
        &&& self.mode@ == "Standalone"@
        &&& self.fleet is None
        &&& self.machine@ == friendly(node)
        &&& self.host is None
        &&& self.expected == Some(1u64)
        &&& self.connected == 1
        &&& self.offline == Some(0u64)
        &&& self.offline_names@.len() == 0
        &&& self.security == MachineSecurity::Standalone
        &&& self.recovery@
            == "This machine runs on its own. Start a second runtime with the cluster environment set to form a cluster."@
    }

    /// Who this machine is, and who is missing.
    pub open spec fn names_fleet(
        &self,
        status: Option<RuntimeStatus>,
        profile: Option<FleetProfile>,
        node: Seq<char>,
    ) -> bool {
        match profile {
            Some(p) => {
                &&& said(self.fleet) == Some(p.name@)
                &&& self.machine@ == p.machine@
                &&& said(self.host) == Some(p.host@)
                &&& ascending(texts(self.offline_names@))
                &&& forall|name: Seq<char>|
                    #![trigger texts(self.offline_names@).contains(name)]
                    texts(self.offline_names@).contains(name) <==> is_missing(p, status, name)
            },
            None => {
                &&& said(self.fleet) == text_of(within(fleet_of(status), "fleet_id"@))
                &&& self.machine@ == friendly(node)
                &&& said(self.host) == host_of(node)
                &&& texts(self.offline_names@) == reported_offline(machines_or_none(status))
            },
        }
    }

    pub open spec fn summarises(
        &self,
        status: Option<RuntimeStatus>,
        profile: Option<FleetProfile>,
        hello_node: Seq<char>,
    ) -> bool {
        let node = own_node(status, hello_node);
        let missing = self.offline_names@.len();
        let connected = summary_connected(status, profile, missing);
        let expected = summary_expected(status, profile, connected);
        let offline = summary_offline(status, expected, connected, missing);
        if !fleet_mode(status, profile) {
            self.stands_alone(node)
        } else {
            &&& self.mode@ == "Fleet"@
            &&& self.names_fleet(status, profile, node)
            &&& self.connected == connected
            &&& wide(self.expected) == expected
            &&& wide(self.offline) == Some(offline)
            &&& self.security == security_of(status, profile)
            &&& self.recovery@ == recovery_words(offline)
        }
    }
}

fn distinct(list: &Vec<String>) -> (r: usize)
    ensures
        r == texts(list@).to_set().len(),
{
    let mut sorted: Vec<String> = Vec::new();
    let ghost whole = texts(list@);
    let mut i: usize = 0;
    assert(texts(sorted@).to_set() =~= whole.take(0).to_set());
    while i < list.len()
        invariant
            i <= list@.len(),
            whole == texts(list@),
            ascending(texts(sorted@)),
            texts(sorted@).to_set() == whole.take(i as int).to_set(),
        decreases list@.len() - i,
    {
        let item = list[i].clone();
        proof {
            let next = whole.take(i + 1);
            assert(next =~= whole.take(i as int).push(item@));
            assert(next.to_set() =~= whole.take(i as int).to_set().insert(item@)) by {
                assert forall|x: Seq<char>| next.to_set().contains(x) == whole.take(
                    i as int,
                ).to_set().insert(item@).contains(x) by {
                    let prior = whole.take(i as int);
                    if prior.contains(x) {
                        let k = choose|k: int| 0 <= k < prior.len() && prior[k] == x;
                        assert(next[k] == x);
                    }
                    if next.contains(x) {
                        let k = choose|k: int| 0 <= k < next.len() && next[k] == x;
                        if k < i {
                            assert(prior[k] == x);
                        }
                    }
                    if x == item@ {
                        assert(next[i as int] == x);
                    }
                }
            }
        }
        insert_sorted(&mut sorted, item);
        i += 1;
    }
    proof {
        assert(whole.take(i as int) =~= whole);
        lemma_ascending_is_unique(texts(sorted@));
        texts(sorted@).unique_seq_to_set();
    }
    sorted.len()
}

proof fn lemma_ascending_is_unique(list: Seq<Seq<char>>)
    requires
        ascending(list),
    ensures
        list.no_duplicates(),
{
    assert forall|i: int, j: int| 0 <= i < j < list.len() implies list[i] != list[j] by {
        assert(precedes(list[i], list[j]));
        crate::text::lemma_precedes_irreflexive(list[i]);
    }
}

/// The names of the members that are missing, sorted and each once.
fn missing_names(
    profile: &FleetProfile,
    directory: &Directory,
    connected: &Vec<String>,
    reported: &Vec<String>,
) -> (r: Vec<String>)
    requires
        directory.wf(),
    ensures
        ascending(texts(r@)),
        forall|name: Seq<char>|
            #![trigger texts(r@).contains(name)]
            texts(r@).contains(name) <==> (texts(reported@).contains(name) || exists|
                node: Seq<char>,
            |
                #![trigger directory@[node]]
                is_absent(directory@, profile.node@, texts(connected@), node) && directory@[node]
                    == name),
{
    let mut names: Vec<String> = Vec::new();
    let mut i: usize = 0;
    while i < directory.entries.len()
        invariant
            i <= directory.entries@.len(),
            directory.wf(),
            ascending(texts(names@)),
            forall|name: Seq<char>|
                #![trigger texts(names@).to_set().contains(name)]
                texts(names@).to_set().contains(name) <==> exists|k: int|
                    0 <= k < i && (#[trigger] directory.entries@[k]).1@ == name
                        && directory.entries@[k].0@ != profile.node@ && !texts(
                        connected@,
                    ).contains(directory.entries@[k].0@),
        decreases directory.entries@.len() - i,
    {
        let entry = &directory.entries[i];
        let ghost before = texts(names@).to_set();
        let absent = !same(entry.0.as_str(), profile.node.as_str()) && !listed(
            connected,
            entry.0.as_str(),
        );
        if absent {
            insert_sorted(&mut names, entry.1.clone());
        }
        proof {
            assert forall|name: Seq<char>|
                #![trigger texts(names@).to_set().contains(name)]
                texts(names@).to_set().contains(name) <==> exists|k: int|
                    0 <= k < i + 1 && (#[trigger] directory.entries@[k]).1@ == name
                        && directory.entries@[k].0@ != profile.node@ && !texts(
                        connected@,
                    ).contains(directory.entries@[k].0@) by {
                if before.contains(name) {
                    let k = choose|k: int|
                        0 <= k < i && (#[trigger] directory.entries@[k]).1@ == name
                            && directory.entries@[k].0@ != profile.node@ && !texts(
                            connected@,
                        ).contains(directory.entries@[k].0@);
                    assert(0 <= k < i + 1);
                }
                if absent && name == entry.1@ {
                    assert(directory.entries@[i as int].1@ == name);
                }
                if exists|k: int|
                    0 <= k < i + 1 && (#[trigger] directory.entries@[k]).1@ == name
                        && directory.entries@[k].0@ != profile.node@ && !texts(
                        connected@,
                    ).contains(directory.entries@[k].0@) {
                    let k = choose|k: int|
                        0 <= k < i + 1 && (#[trigger] directory.entries@[k]).1@ == name
                            && directory.entries@[k].0@ != profile.node@ && !texts(
                            connected@,
                        ).contains(directory.entries@[k].0@);
                    if k < i {
                        assert(before.contains(name));
                    }
                }
            }
        }
        i += 1;
    }
    let ghost absent_names = texts(names@).to_set();
    let mut j: usize = 0;
    while j < reported.len()
        invariant
            j <= reported@.len(),
            ascending(texts(names@)),
            forall|name: Seq<char>|
                #![trigger texts(names@).to_set().contains(name)]
                texts(names@).to_set().contains(name) <==> (absent_names.contains(name) || exists|
                    k: int,
                |
                    0 <= k < j && (#[trigger] reported@[k])@ == name),
        decreases reported@.len() - j,
    {
        let ghost before = texts(names@).to_set();
        insert_sorted(&mut names, reported[j].clone());
        proof {
            assert forall|name: Seq<char>|
                #![trigger texts(names@).to_set().contains(name)]
                texts(names@).to_set().contains(name) <==> (absent_names.contains(name) || exists|
                    k: int,
                |
                    0 <= k < j + 1 && (#[trigger] reported@[k])@ == name) by {
                if before.contains(name) && !absent_names.contains(name) {
                    let k = choose|k: int| 0 <= k < j && (#[trigger] reported@[k])@ == name;
                    assert(0 <= k < j + 1);
                }
                if name == reported@[j as int]@ {
                    assert(0 <= j < j + 1);
                }
                if exists|k: int| 0 <= k < j + 1 && (#[trigger] reported@[k])@ == name {
                    let k = choose|k: int| 0 <= k < j + 1 && (#[trigger] reported@[k])@ == name;
                    if k < j {
                        assert(before.contains(name));
                    }
                }
            }
        }
        j += 1;
    }
    proof {
        assert forall|name: Seq<char>|
            #![trigger texts(names@).contains(name)]
            texts(names@).contains(name) <==> (texts(reported@).contains(name) || exists|
                node: Seq<char>,
            |
                #![trigger directory@[node]]
                is_absent(directory@, profile.node@, texts(connected@), node) && directory@[node]
                    == name) by {
            assert(texts(names@).contains(name) == texts(names@).to_set().contains(name));
            if absent_names.contains(name) {
                let k = choose|k: int|
                    0 <= k < i && (#[trigger] directory.entries@[k]).1@ == name
                        && directory.entries@[k].0@ != profile.node@ && !texts(
                        connected@,
                    ).contains(directory.entries@[k].0@);
                directory.lemma_entry(k);
                assert(directory@[directory.entries@[k].0@] == name);
            }
            if exists|node: Seq<char>|
                #![trigger directory@[node]]
                is_absent(directory@, profile.node@, texts(connected@), node) && directory@[node]
                    == name {
                let node = choose|node: Seq<char>|
                    #![trigger directory@[node]]
                    is_absent(directory@, profile.node@, texts(connected@), node)
                        && directory@[node] == name;
                let k = choose|k: int|
                    0 <= k < directory.entries@.len() && (#[trigger] directory.entries@[k]).0@
                        == node;
                directory.lemma_entry(k);
                assert(directory.entries@[k].1@ == name);
                assert(absent_names.contains(name));
            }
            if texts(reported@).contains(name) {
                let k = choose|k: int| 0 <= k < texts(reported@).len() && texts(reported@)[k] == name;
                assert(reported@[k]@ == name);
            }
            if exists|k: int| 0 <= k < j && (#[trigger] reported@[k])@ == name {
                let k = choose|k: int| 0 <= k < j && (#[trigger] reported@[k])@ == name;
                assert(texts(reported@)[k] == name);
            }
        }
    }
    names
}

fn larger_of(a: Option<u64>, b: Option<u64>) -> (r: Option<u64>)
    ensures
        wide(r) == larger(wide(a), wide(b)),
{
    match (a, b) {
        (Some(a), Some(b)) => Some(
            if a > b {
                a
            } else {
                b
            },
        ),
        (Some(a), None) => Some(a),
        (None, b) => b,
    }
}

fn recovery_text(offline: u64) -> (r: String)
    ensures
        r@ == recovery_words(offline as nat),
{
    if offline == 0 {
        "All known machines are connected. Running daemons retry membership after network interruptions.".to_owned()
    } else {
        cat3(
            number(offline).as_str(),
            if offline == 1 {
                " machine is"
            } else {
                " machines are"
            },
            " offline; running daemons keep retrying membership.",
        )
    }
}

fn security(status: Option<&RuntimeStatus>, profiled: bool, distributed: bool, tls: Option<bool>) -> (r:
    MachineSecurity)
    ensures
        r == match tls {
            Some(tls) => if profiled && !distributed {
                MachineSecurity::Mismatch
            } else if distributed && tls {
                MachineSecurity::Secure
            } else if distributed {
                MachineSecurity::Insecure
            } else {
                MachineSecurity::Unknown
            },
            None => if profiled && !distributed && status is Some {
                MachineSecurity::Mismatch
            } else {
                MachineSecurity::Unknown
            },
        },
{
    match tls {
        Some(tls) => if profiled && !distributed {
            MachineSecurity::Mismatch
        } else if distributed && tls {
            MachineSecurity::Secure
        } else if distributed {
            MachineSecurity::Insecure
        } else {
            MachineSecurity::Unknown
        },
        None => if profiled && !distributed && status.is_some() {
            MachineSecurity::Mismatch
        } else {
            MachineSecurity::Unknown
        },
    }
}

pub open spec fn owned_status(status: Option<&RuntimeStatus>) -> Option<RuntimeStatus> {
    match status {
        Some(status) => Some(*status),
        None => None,
    }
}

pub open spec fn owned_profile(profile: Option<&FleetProfile>) -> Option<FleetProfile> {
    match profile {
        Some(profile) => Some(*profile),
        None => None,
    }
}

/// What the profile or the directory says of the fleet: its names, who is missing, how many to
/// expect and how many of those are here.
struct Roll {
    fleet: Option<String>,
    machine: String,
    host: Option<String>,
    expected: Option<u64>,
    connected: Option<u64>,
    missing: Vec<String>,
}

fn roll_of_profile(
    profile: &FleetProfile,
    machines: Option<&Vec<Json>>,
    connected: &Vec<String>,
    Ghost(status): Ghost<Option<RuntimeStatus>>,
) -> (r: Roll)
    requires
        machines_or_none(status) == match machines {
            Some(machines) => items_view(machines@),
            None => Seq::empty(),
        },
        texts(connected@) == connected_of(status),
    ensures
        said(r.fleet) == Some(profile.name@),
        r.machine@ == profile.machine@,
        said(r.host) == Some(profile.host@),
        wide(r.expected) == profile_expected(status, Some(*profile)),
        ascending(texts(r.missing@)),
        forall|name: Seq<char>|
            #![trigger texts(r.missing@).contains(name)]
            texts(r.missing@).contains(name) <==> is_missing(*profile, status, name),
        r.connected is Some,
        r.connected->0 == ({
            let expected = profile_expected(status, Some(*profile))->0;
            if expected > r.missing@.len() {
                expected - r.missing@.len()
            } else {
                0
            }
        }),
{
    let directory = members(profile, machines);
    proof {
        directory.lemma_size();
    }
    let reported = offline_listed(machines);
    let missing = missing_names(profile, &directory, connected, &reported);
    let size: u64 = directory.entries.len() as u64;
    let expected: u64 = if size > 1 {
        size
    } else {
        1
    };
    let gone: u64 = missing.len() as u64;
    let here: u64 = if expected > gone {
        expected - gone
    } else {
        0
    };
    Roll {
        fleet: Some(profile.name.clone()),
        machine: profile.machine.clone(),
        host: Some(profile.host.clone()),
        expected: Some(expected),
        connected: Some(here),
        missing,
    }
}

pub fn machine_summary(
    status: Option<&RuntimeStatus>,
    profile: Option<&FleetProfile>,
    hello_node: &str,
) -> (r: MachineSummary)
    ensures
        r.summarises(owned_status(status), owned_profile(profile), hello_node@),
{
    let ghost st = owned_status(status);
    let ghost pr = owned_profile(profile);
    let cluster = match status {
        Some(status) => Some(&status.cluster),
        None => None,
    };
    let fleet = get(cluster, "fleet");
    let summary = get(fleet, "summary");
    let machines = match get(fleet, "machines") {
        Some(machines) => machines.as_array(),
        None => None,
    };
    let nobody: Vec<String> = Vec::new();
    let connected_nodes = match status {
        Some(status) => &status.connected_nodes,
        None => &nobody,
    };
    proof {
        assert(texts(connected_nodes@) =~= connected_of(st));
    }
    let strategy_is_none = match str_of(get(get(cluster, "formation"), "strategy")) {
        Some(strategy) => same(strategy, "none"),
        None => true,
    };
    let distributed = matches!(bool_of(get(cluster, "distributed")), Some(true));
    let tls = bool_of(get(get(cluster, "security"), "tls"));
    let node = match status {
        Some(status) => status.node.as_str(),
        None => hello_node,
    };
    if profile.is_none() && fleet.is_none() && !distributed && strategy_is_none {
        return MachineSummary {
            mode: "Standalone".to_owned(),
            fleet: None,
            machine: friendly_machine(node),
            host: None,
            expected: Some(1),
            connected: 1,
            offline: Some(0),
            offline_names: Vec::new(),
            security: MachineSecurity::Standalone,
            recovery: "This machine runs on its own. Start a second runtime with the cluster environment set to form a cluster.".to_owned(),
        };
    }
    let summary_expected_n = u64_of(get(summary, "expected"));
    let summary_connected_n = u64_of(get(summary, "connected"));
    let summary_offline_n = u64_of(get(summary, "offline"));
    let roll = match profile {
        Some(profile) => roll_of_profile(profile, machines, connected_nodes, Ghost(st)),
        None => Roll {
            fleet: match str_of(get(fleet, "fleet_id")) {
                Some(id) => Some(id.to_owned()),
                None => None,
            },
            machine: friendly_machine(node),
            host: match split_once(node, '@') {
                Some((_, host)) => Some(host),
                None => None,
            },
            expected: summary_expected_n,
            connected: summary_connected_n,
            missing: offline_listed(machines),
        },
    };
    let connected: u64 = match summary_connected_n {
        Some(n) => n,
        None => match roll.connected {
            Some(n) => n,
            None => (distinct(connected_nodes) as u64).saturating_add(1),
        },
    };
    let expected = match larger_of(roll.expected, summary_expected_n) {
        Some(n) => Some(
            if n > connected {
                n
            } else {
                connected
            },
        ),
        None => None,
    };
    let short = match expected {
        Some(n) => Some(n - connected),
        None => None,
    };
    let missing_count: u64 = roll.missing.len() as u64;
    let offline: u64 = match larger_of(
        larger_of(summary_offline_n, short),
        Some(missing_count),
    ) {
        Some(n) => n,
        None => 0,
    };
    MachineSummary {
        mode: "Fleet".to_owned(),
        fleet: roll.fleet,
        machine: roll.machine,
        host: roll.host,
        expected,
        connected,
        offline: Some(offline),
        offline_names: roll.missing,
        security: security(status, profile.is_some(), distributed, tls),
        recovery: recovery_text(offline),
    }
}

/// A summary never claims more machines connected than expected, and never fewer offline than it
/// names.
pub proof fn lemma_the_summary_adds_up(
    summary: MachineSummary,
    status: Option<RuntimeStatus>,
    profile: Option<FleetProfile>,
    hello_node: Seq<char>,
)
    requires
        summary.summarises(status, profile, hello_node),
    ensures
        summary.expected is Some ==> summary.connected <= summary.expected->0,
        summary.offline is Some,
        summary.offline->0 >= summary.offline_names@.len(),
        summary.expected is Some ==> summary.connected + summary.offline->0 >= summary.expected->0,
{
}

// ----- where a session can start ----------------------------------------------------

/// A machine of the directory a new session can be sent to: its name and its node.
pub open spec fn offered(machine: JsonView, own: Seq<char>) -> Option<(Seq<char>, Seq<char>)> {
    match (machine.member_text("node"@), machine.member_text("machine"@)) {
        (Some(node), Some(name)) => if machine.member_text("compatibility"@) != Some(
            "incompatible"@,
        ) && machine.member_text("state"@) == Some("connected"@) && (machine.member_text("role"@)
            is None || machine.member_text("role"@) == Some("core"@)) && node != own {
            Some((name, node))
        } else {
            None
        },
        _ => None,
    }
}

/// Name to node, of the machines of the directory a session can be sent to. A name that occurs
/// twice goes by its last entry.
pub open spec fn offered_all(machines: Seq<JsonView>, own: Seq<char>) -> Map<Seq<char>, Seq<char>>
    decreases machines.len(),
{
    if machines.len() == 0 {
        Map::empty()
    } else {
        let rest = offered_all(machines.drop_last(), own);
        match offered(machines.last(), own) {
            Some((name, node)) => rest.insert(name, node),
            None => rest,
        }
    }
}

pub open spec fn is_incompatible(machines: Seq<JsonView>, node: Seq<char>) -> bool {
    exists|i: int|
        0 <= i < machines.len() && (#[trigger] machines[i]).member_text("node"@) == Some(node)
            && machines[i].member_text("compatibility"@) == Some("incompatible"@)
}

/// The members of the profile that are connected now, added where the directory does not name
/// them.
pub open spec fn with_members(
    map: Map<Seq<char>, Seq<char>>,
    members: Seq<FleetMember>,
    own: Seq<char>,
    connected: Seq<Seq<char>>,
    machines: Seq<JsonView>,
) -> Map<Seq<char>, Seq<char>>
    decreases members.len(),
{
    if members.len() == 0 {
        map
    } else {
        let rest = with_members(map, members.drop_last(), own, connected, machines);
        let last = members.last();
        if last.node@ != own && connected.contains(last.node@) && !is_incompatible(
            machines,
            last.node@,
        ) {
            or_insert(rest, last.machine@, last.node@)
        } else {
            rest
        }
    }
}

/// Name to node of every other machine a session can be sent to.
pub open spec fn remotes(status: RuntimeStatus, profile: Option<FleetProfile>) -> Map<
    Seq<char>,
    Seq<char>,
> {
    let machines = machines_or_none(Some(status));
    let own = match profile {
        Some(profile) => profile.node@,
        None => status.node@,
    };
    let first = offered_all(machines, own);
    match profile {
        Some(profile) => with_members(
            first,
            profile.members@,
            profile.node@,
            texts(status.connected_nodes@),
            machines,
        ),
        None => first,
    }
}

pub open spec fn local_label(
    status: Option<RuntimeStatus>,
    profile: Option<FleetProfile>,
    hello_node: Seq<char>,
) -> Seq<char> {
    match profile {
        Some(profile) => profile.machine@,
        None => friendly(own_node(status, hello_node)),
    }
}

/// This machine, then every other machine by name.
pub open spec fn are_choices(
    choices: Seq<MachineChoice>,
    label: Seq<char>,
    map: Map<Seq<char>, Seq<char>>,
) -> bool {
    &&& choices.len() >= 1
    &&& choices[0] is Local
    &&& choices[0]->label@ == label
    &&& forall|i: int|
        1 <= i < choices.len() ==> {
            &&& (#[trigger] choices[i]) is Connected
            &&& map.contains_key(choices[i]->machine@)
            &&& map[choices[i]->machine@] == choices[i]->node@
        }
    &&& forall|i: int, j: int|
        1 <= i < j < choices.len() ==> precedes(
            (#[trigger] choices[i])->machine@,
            (#[trigger] choices[j])->machine@,
        )
    &&& forall|name: Seq<char>|
        #![trigger map.contains_key(name)]
        map.contains_key(name) ==> exists|i: int|
            1 <= i < choices.len() && (#[trigger] choices[i])->machine@ == name
}

fn incompatible(machines: &Vec<Json>, node: &str) -> (r: bool)
    ensures
        r == is_incompatible(items_view(machines@), node@),
{
    let ghost whole = items_view(machines@);
    let mut i: usize = 0;
    while i < machines.len()
        invariant
            i <= machines@.len(),
            whole == items_view(machines@),
            forall|k: int|
                0 <= k < i ==> !((#[trigger] whole[k]).member_text("node"@) == Some(node@)
                    && whole[k].member_text("compatibility"@) == Some("incompatible"@)),
        decreases machines@.len() - i,
    {
        let machine = &machines[i];
        let here = match machine.get_str("node") {
            Some(other) => same(other, node),
            None => false,
        };
        let bad = match machine.get_str("compatibility") {
            Some(word) => same(word, "incompatible"),
            None => false,
        };
        assert(whole[i as int] == machine@);
        if here && bad {
            return true;
        }
        i += 1;
    }
    false
}

fn offer(machine: &Json, own: &str) -> (r: Option<(String, String)>)
    ensures
        match r {
            Some((name, node)) => offered(machine@, own@) == Some((name@, node@)),
            None => offered(machine@, own@) is None,
        },
{
    let node = match machine.get_str("node") {
        Some(node) => node,
        None => {
            return None;
        },
    };
    let name = match machine.get_str("machine") {
        Some(name) => name,
        None => {
            return None;
        },
    };
    let compatible = match machine.get_str("compatibility") {
        Some(word) => !same(word, "incompatible"),
        None => true,
    };
    let connected = match machine.get_str("state") {
        Some(state) => same(state, "connected"),
        None => false,
    };
    let core = match machine.get_str("role") {
        Some(role) => same(role, "core"),
        None => true,
    };
    if compatible && connected && core && !same(node, own) {
        Some((name.to_owned(), node.to_owned()))
    } else {
        None
    }
}

fn remote_directory(status: &RuntimeStatus, profile: Option<&FleetProfile>) -> (r: Directory)
    ensures
        r.wf(),
        r@ == remotes(*status, owned_profile(profile)),
{
    let own = match profile {
        Some(profile) => profile.node.as_str(),
        None => status.node.as_str(),
    };
    let nothing: Vec<Json> = Vec::new();
    let fleet = status.cluster.get("fleet");
    let machines = match get(fleet, "machines") {
        Some(machines) => match machines.as_array() {
            Some(machines) => machines,
            None => &nothing,
        },
        None => &nothing,
    };
    let ghost whole = items_view(machines@);
    proof {
        assert(whole =~= machines_or_none(Some(*status)));
    }
    let mut directory = Directory::new();
    let mut i: usize = 0;
    assert(whole.take(0).len() == 0);
    while i < machines.len()
        invariant
            i <= machines@.len(),
            whole == items_view(machines@),
            directory.wf(),
            directory@ == offered_all(whole.take(i as int), own@),
        decreases machines@.len() - i,
    {
        assert(whole.take(i + 1).drop_last() =~= whole.take(i as int));
        assert(whole.take(i + 1).last() == machines@[i as int]@);
        if let Some((name, node)) = offer(&machines[i], own) {
            directory.put(name.as_str(), node.as_str(), true);
        }
        i += 1;
    }
    assert(whole.take(i as int) =~= whole);
    if let Some(profile) = profile {
        let ghost first = directory@;
        let mut k: usize = 0;
        assert(profile.members@.take(0).len() == 0);
        while k < profile.members.len()
            invariant
                k <= profile.members@.len(),
                whole == items_view(machines@),
                directory.wf(),
                directory@ == with_members(
                    first,
                    profile.members@.take(k as int),
                    profile.node@,
                    texts(status.connected_nodes@),
                    whole,
                ),
            decreases profile.members@.len() - k,
        {
            let member = &profile.members[k];
            assert(profile.members@.take(k + 1).drop_last() =~= profile.members@.take(k as int));
            if !same(member.node.as_str(), profile.node.as_str()) && listed(
                &status.connected_nodes,
                member.node.as_str(),
            ) && !incompatible(machines, member.node.as_str()) {
                directory.put(member.machine.as_str(), member.node.as_str(), false);
            }
            k += 1;
        }
        assert(profile.members@.take(k as int) =~= profile.members@);
    }
    directory
}

fn keys(directory: &Directory) -> (r: Vec<String>)
    requires
        directory.wf(),
    ensures
        ascending(texts(r@)),
        texts(r@).to_set() == directory@.dom(),
{
    let mut out: Vec<String> = Vec::new();
    let mut i: usize = 0;
    while i < directory.entries.len()
        invariant
            i <= directory.entries@.len(),
            ascending(texts(out@)),
            forall|name: Seq<char>|
                #![trigger texts(out@).to_set().contains(name)]
                texts(out@).to_set().contains(name) <==> exists|k: int|
                    0 <= k < i && (#[trigger] directory.entries@[k]).0@ == name,
        decreases directory.entries@.len() - i,
    {
        let ghost before = texts(out@).to_set();
        insert_sorted(&mut out, directory.entries[i].0.clone());
        proof {
            assert forall|name: Seq<char>|
                #![trigger texts(out@).to_set().contains(name)]
                texts(out@).to_set().contains(name) <==> exists|k: int|
                    0 <= k < i + 1 && (#[trigger] directory.entries@[k]).0@ == name by {
                if before.contains(name) {
                    let k = choose|k: int|
                        0 <= k < i && (#[trigger] directory.entries@[k]).0@ == name;
                    assert(0 <= k < i + 1);
                }
                if name == directory.entries@[i as int].0@ {
                    assert(0 <= i < i + 1);
                }
                if exists|k: int| 0 <= k < i + 1 && (#[trigger] directory.entries@[k]).0@ == name {
                    let k = choose|k: int|
                        0 <= k < i + 1 && (#[trigger] directory.entries@[k]).0@ == name;
                    if k < i {
                        assert(before.contains(name));
                    }
                }
            }
        }
        i += 1;
    }
    assert(texts(out@).to_set() =~= directory@.dom());
    out
}

/// Destinations a new session can be sent to right now. A machine that is expected but offline is
/// not offered: a form should not invite a request the runtime already knows it cannot route.
pub fn machine_choices(
    status: Option<&RuntimeStatus>,
    profile: Option<&FleetProfile>,
    hello_node: &str,
) -> (r: Vec<MachineChoice>)
    ensures
        are_choices(
            r@,
            local_label(owned_status(status), owned_profile(profile), hello_node@),
            match status {
                Some(status) => remotes(*status, owned_profile(profile)),
                None => Map::empty(),
            },
        ),
{
    let label = match profile {
        Some(profile) => profile.machine.clone(),
        None => friendly_machine(
            match status {
                Some(status) => status.node.as_str(),
                None => hello_node,
            },
        ),
    };
    let mut choices: Vec<MachineChoice> = Vec::new();
    choices.push(MachineChoice::Local { label });
    let status = match status {
        Some(status) => status,
        None => {
            return choices;
        },
    };
    let directory = remote_directory(status, profile);
    let names = keys(&directory);
    let ghost map = directory@;
    let ghost wanted = local_label(Some(*status), owned_profile(profile), hello_node@);
    let ghost sorted = texts(names@);
    let mut i: usize = 0;
    while i < names.len()
        invariant
            i <= names@.len(),
            sorted == texts(names@),
            ascending(sorted),
            sorted.to_set() == map.dom(),
            map == directory@,
            directory.wf(),
            choices@.len() == i + 1,
            choices@[0] is Local,
            choices@[0]->label@ == wanted,
            forall|k: int|
                1 <= k < choices@.len() ==> {
                    &&& (#[trigger] choices@[k]) is Connected
                    &&& choices@[k]->machine@ == sorted[k - 1]
                    &&& map.contains_key(sorted[k - 1])
                    &&& map[sorted[k - 1]] == choices@[k]->node@
                },
        decreases names@.len() - i,
    {
        assert(sorted[i as int] == names@[i as int]@);
        assert(sorted.to_set().contains(sorted[i as int]));
        match directory.find(names[i].as_str()) {
            Some(at) => {
                proof {
                    directory.lemma_entry(at as int);
                }
                let choice = MachineChoice::Connected {
                    machine: names[i].clone(),
                    node: directory.entries[at].1.clone(),
                };
                choices.push(choice);
            },
            None => {
                assert(false);
            },
        }
        i += 1;
    }
    proof {
        assert forall|a: int, b: int| 1 <= a < b < choices@.len() implies precedes(
            (#[trigger] choices@[a])->machine@,
            (#[trigger] choices@[b])->machine@,
        ) by {
            assert(precedes(sorted[a - 1], sorted[b - 1]));
        }
        assert forall|name: Seq<char>|
            #![trigger map.contains_key(name)]
            map.contains_key(name) implies exists|k: int|
            1 <= k < choices@.len() && (#[trigger] choices@[k])->machine@ == name by {
            assert(sorted.to_set().contains(name));
            let k = choose|k: int| 0 <= k < sorted.len() && sorted[k] == name;
            assert(choices@[k + 1]->machine@ == name);
        }
    }
    choices
}

/// A machine is connected, by the directory's word or by a live connection.
pub open spec fn is_reachable(status: RuntimeStatus, name: Seq<char>, node: Seq<char>) -> bool {
    ||| texts(status.connected_nodes@).contains(node)
    ||| exists|i: int|
        0 <= i < machines_or_none(Some(status)).len() && (#[trigger] machines_or_none(
            Some(status),
        )[i]).member_text("node"@) == Some(node) && machines_or_none(Some(status))[i].member_text(
            "machine"@,
        ) == Some(name) && machines_or_none(Some(status))[i].member_text("state"@) == Some(
            "connected"@,
        )
}

proof fn lemma_offered_all(machines: Seq<JsonView>, own: Seq<char>, name: Seq<char>)
    requires
        offered_all(machines, own).contains_key(name),
    ensures
        offered_all(machines, own)[name] != own,
        exists|i: int|
            0 <= i < machines.len() && (#[trigger] machines[i]).member_text("node"@) == Some(
                offered_all(machines, own)[name],
            ) && machines[i].member_text("machine"@) == Some(name) && machines[i].member_text(
                "state"@,
            ) == Some("connected"@),
    decreases machines.len(),
{
    if machines.len() > 0 {
        let last = machines.last();
        let rest = machines.drop_last();
        match offered(last, own) {
            Some((n, node)) => {
                if n == name {
                    assert(machines[machines.len() - 1] == last);
                } else {
                    lemma_offered_all(rest, own, name);
                    let i = choose|i: int|
                        0 <= i < rest.len() && (#[trigger] rest[i]).member_text("node"@) == Some(
                            offered_all(rest, own)[name],
                        ) && rest[i].member_text("machine"@) == Some(name) && rest[i].member_text(
                            "state"@,
                        ) == Some("connected"@);
                    assert(machines[i] == rest[i]);
                }
            },
            None => {
                lemma_offered_all(rest, own, name);
                let i = choose|i: int|
                    0 <= i < rest.len() && (#[trigger] rest[i]).member_text("node"@) == Some(
                        offered_all(rest, own)[name],
                    ) && rest[i].member_text("machine"@) == Some(name) && rest[i].member_text(
                        "state"@,
                    ) == Some("connected"@);
                assert(machines[i] == rest[i]);
            },
        }
    }
}

proof fn lemma_with_members(
    map: Map<Seq<char>, Seq<char>>,
    members: Seq<FleetMember>,
    own: Seq<char>,
    connected: Seq<Seq<char>>,
    machines: Seq<JsonView>,
    name: Seq<char>,
)
    requires
        with_members(map, members, own, connected, machines).contains_key(name),
    ensures
        (map.contains_key(name) && with_members(map, members, own, connected, machines)[name]
            == map[name]) || (connected.contains(
            with_members(map, members, own, connected, machines)[name],
        ) && with_members(map, members, own, connected, machines)[name] != own),
    decreases members.len(),
{
    if members.len() > 0 {
        let rest = with_members(map, members.drop_last(), own, connected, machines);
        if rest.contains_key(name) {
            lemma_with_members(map, members.drop_last(), own, connected, machines, name);
        }
    }
}

/// Every other machine that is offered is reachable now, and none of them is this one.
pub proof fn lemma_offered_machines_are_reachable(
    status: RuntimeStatus,
    profile: Option<FleetProfile>,
    name: Seq<char>,
)
    requires
        remotes(status, profile).contains_key(name),
    ensures
        is_reachable(status, name, remotes(status, profile)[name]),
        remotes(status, profile)[name] != match profile {
            Some(profile) => profile.node@,
            None => status.node@,
        },
{
    let machines = machines_or_none(Some(status));
    let own = match profile {
        Some(profile) => profile.node@,
        None => status.node@,
    };
    let first = offered_all(machines, own);
    if first.contains_key(name) {
        lemma_offered_all(machines, own, name);
    }
    if profile is Some {
        lemma_with_members(
            first,
            profile->0.members@,
            profile->0.node@,
            texts(status.connected_nodes@),
            machines,
            name,
        );
    }
}

// ----- facts ------------------------------------------------------------------------

pub const FACT_LINES: usize = 4;

pub open spec fn fact_words(machine: JsonView, facts: Seq<char>) -> Seq<char> {
    (match machine.member_text("machine"@) {
        Some(name) => name,
        None => "unknown"@,
    }) + " \u{b7} "@ + facts
}

/// The first machines of the directory with their facts, which `facts` holds one line for each.
pub fn machine_fact_lines(status: Option<&RuntimeStatus>, facts: &Vec<String>) -> (r: Vec<String>)
    ensures
        ({
            let machines = machines_or_none(owned_status(status));
            &&& r@.len() <= FACT_LINES
            &&& r@.len() <= machines.len() && r@.len() <= facts@.len()
            &&& r@.len() == FACT_LINES || r@.len() == machines.len() || r@.len() == facts@.len()
            &&& forall|i: int|
                0 <= i < r@.len() ==> (#[trigger] r@[i])@ == fact_words(machines[i], facts@[i]@)
        }),
{
    let mut out: Vec<String> = Vec::new();
    let cluster = match status {
        Some(status) => Some(&status.cluster),
        None => None,
    };
    let list = match get(get(cluster, "fleet"), "machines") {
        Some(machines) => machines.as_array(),
        None => None,
    };
    if let Some(machines) = list {
        let ghost whole = items_view(machines@);
        let mut i: usize = 0;
        while i < machines.len() && i < FACT_LINES && i < facts.len()
            invariant
                i <= machines@.len(),
                i <= FACT_LINES,
                i <= facts@.len(),
                whole == items_view(machines@),
                out@.len() == i,
                forall|k: int|
                    0 <= k < i ==> (#[trigger] out@[k])@ == fact_words(whole[k], facts@[k]@),
            decreases machines@.len() - i,
        {
            let name = match machines[i].get_str("machine") {
                Some(name) => name,
                None => "unknown",
            };
            out.push(cat3(name, " \u{b7} ", facts[i].as_str()));
            i += 1;
        }
    }
    out
}

// ----- laws -------------------------------------------------------------------------

/// Machine traffic is called secure exactly where the runtime says that it is distributed and that
/// it uses TLS, insecure exactly where it says that it does not; a fleet profile without a
/// distributed runtime is a mismatch. Nothing is claimed before the runtime has said anything.
#[verifier::rlimit(60)]
pub proof fn lemma_security_is_what_the_runtime_said(
    summary: MachineSummary,
    status: Option<RuntimeStatus>,
    profile: Option<FleetProfile>,
    hello_node: Seq<char>,
)
    requires
        summary.summarises(status, profile, hello_node),
    ensures
        ({
            let report = match status {
                Some(status) => status.cluster@,
                None => JsonView::Null,
            };
            let tls = match report.member("security"@) {
                Some(security) => security.member_truth("tls"@),
                None => None,
            };
            let distributed = report.member_truth("distributed"@) == Some(true);
            &&& summary.security == MachineSecurity::Secure <==> distributed && tls == Some(true)
            &&& summary.security == MachineSecurity::Insecure <==> distributed && tls == Some(false)
            &&& summary.security == MachineSecurity::Mismatch <==> status is Some && profile is Some
                && !distributed
            &&& status is None && profile is Some ==> summary.security == MachineSecurity::Unknown
            &&& summary.security == MachineSecurity::Standalone ==> !distributed && profile is None
        }),
{
}

/// Where the runtime counts its machines, the counts shown are its own: no fewer are expected and
/// no fewer are offline than it says, and exactly as many are connected.
pub proof fn lemma_reported_counts_are_shown(
    summary: MachineSummary,
    status: RuntimeStatus,
    profile: Option<FleetProfile>,
    hello_node: Seq<char>,
    fleet: JsonView,
    counts: JsonView,
)
    requires
        summary.summarises(Some(status), profile, hello_node),
        status.cluster@.member("fleet"@) == Some(fleet),
        fleet.member("summary"@) == Some(counts),
    ensures
        summary.mode@ == "Fleet"@,
        counts.member("connected"@) matches Some(JsonView::Unsigned(n)) ==> summary.connected == n,
        counts.member("expected"@) matches Some(JsonView::Unsigned(n)) ==> summary.expected is Some
            && summary.expected->0 >= n,
        counts.member("offline"@) matches Some(JsonView::Unsigned(n)) ==> summary.offline is Some
            && summary.offline->0 >= n,
{
}

/// What is said of recovery says how many machines are offline, and says that all are connected
/// exactly where none is.
#[verifier::rlimit(60)]
pub proof fn lemma_recovery_counts_the_offline(offline: nat)
    ensures
        offline == 0 <==> recovery_words(offline).take(3) == "All"@,
        offline > 0 ==> number_at(recovery_words(offline), 0) == offline,
        offline == 1 ==> recovery_words(offline).skip(1).take(11) == " machine is"@,
        offline > 1 ==> recovery_words(offline).skip(
            digits_end(recovery_words(offline), 0) as int,
        ).take(13) == " machines are"@,
{
    reveal_strlit("All");
    reveal_strlit(
        "All known machines are connected. Running daemons retry membership after network interruptions.",
    );
    reveal_strlit(" machine is");
    reveal_strlit(" machines are");
    reveal_strlit(" offline; running daemons keep retrying membership.");
    let words = recovery_words(offline);
    if offline == 0 {
        assert(words.take(3) =~= "All"@);
    } else {
        let noun = if offline == 1 {
            " machine is"@
        } else {
            " machines are"@
        };
        let tail = noun + " offline; running daemons keep retrying membership."@;
        assert(words =~= Seq::<char>::empty() + decimal(offline) + tail);
        assert(tail[0] == ' ');
        lemma_a_number_inside_reads_back(words, Seq::empty(), offline, tail);
        lemma_a_number_reads_back(offline);
        assert(is_ascii_digit(decimal(offline)[0]));
        assert(words[0] == decimal(offline)[0]);
        assert(words.take(3)[0] == words[0] && "All"@[0] == 'A');
        assert(words.skip(digits_end(words, 0) as int).take(noun.len() as int) =~= noun);
    }
}

proof fn lemma_listed_member(members: Seq<FleetMember>, i: int)
    requires
        0 <= i < members.len(),
        forall|j: int| i < j < members.len() ==> (#[trigger] members[j]).node@ != members[i].node@,
    ensures
        listed_members(members).contains_key(members[i].node@),
        listed_members(members)[members[i].node@] == members[i].machine@,
    decreases members.len(),
{
    if i < members.len() - 1 {
        let rest = members.drop_last();
        assert(members[members.len() - 1].node@ != members[i].node@);
        assert forall|j: int| i < j < rest.len() implies (#[trigger] rest[j]).node@
            != rest[i].node@ by {
            assert(rest[j] == members[j]);
        }
        lemma_listed_member(rest, i);
    }
}

proof fn lemma_observed_keeps(
    map: Map<Seq<char>, Seq<char>>,
    machines: Seq<JsonView>,
    node: Seq<char>,
)
    requires
        map.contains_key(node),
    ensures
        with_observed(map, machines).contains_key(node),
        with_observed(map, machines)[node] == map[node],
    decreases machines.len(),
{
    if machines.len() > 0 {
        lemma_observed_keeps(map, machines.drop_last(), node);
    }
}

/// A member of the fleet that no live connection reaches is named among those that are offline.
#[verifier::rlimit(60)]
pub proof fn lemma_an_unreached_member_is_named(
    summary: MachineSummary,
    status: Option<RuntimeStatus>,
    profile: FleetProfile,
    hello_node: Seq<char>,
    i: int,
)
    requires
        summary.summarises(status, Some(profile), hello_node),
        0 <= i < profile.members@.len(),
        forall|j: int|
            i < j < profile.members@.len() ==> (#[trigger] profile.members@[j]).node@
                != profile.members@[i].node@,
        profile.members@[i].node@ != profile.node@,
        status is Some ==> !texts(status->0.connected_nodes@).contains(profile.members@[i].node@),
    ensures
        texts(summary.offline_names@).contains(profile.members@[i].machine@),
        summary.offline is Some,
        summary.offline->0 >= 1,
{
    let member = profile.members@[i];
    let map = or_insert(listed_members(profile.members@), profile.node@, profile.machine@);
    lemma_listed_member(profile.members@, i);
    lemma_observed_keeps(map, machines_or_none(status), member.node@);
    let all = members_of(profile, status);
    assert(all[member.node@] == member.machine@);
    assert(is_absent(all, profile.node@, connected_of(status), member.node@));
    assert(is_missing(profile, status, member.machine@));
    let names = texts(summary.offline_names@);
    assert(names.contains(member.machine@));
    let at = choose|at: int| 0 <= at < names.len() && names[at] == member.machine@;
    assert(names.len() == summary.offline_names@.len());
}

proof fn lemma_last_offer(machines: Seq<JsonView>, own: Seq<char>, i: int)
    requires
        0 <= i < machines.len(),
        offered(machines[i], own) is Some,
        forall|j: int|
            i < j < machines.len() ==> (#[trigger] machines[j]).member_text("machine"@)
                != machines[i].member_text("machine"@),
    ensures
        offered_all(machines, own).contains_key((offered(machines[i], own)->0).0),
        offered_all(machines, own)[(offered(machines[i], own)->0).0] == (offered(
            machines[i],
            own,
        )->0).1,
    decreases machines.len(),
{
    if i < machines.len() - 1 {
        let rest = machines.drop_last();
        assert(machines[machines.len() - 1].member_text("machine"@) != machines[i].member_text(
            "machine"@,
        ));
        assert forall|j: int| i < j < rest.len() implies (#[trigger] rest[j]).member_text(
            "machine"@,
        ) != rest[i].member_text("machine"@) by {
            assert(rest[j] == machines[j]);
        }
        lemma_last_offer(rest, own, i);
    }
}

/// A machine that the directory calls connected, that takes sessions and that is not this one, is
/// offered under its name and goes by it on the wire; this machine comes first and goes unsaid.
#[verifier::rlimit(60)]
pub proof fn lemma_a_connected_machine_is_offered(
    choices: Seq<MachineChoice>,
    status: RuntimeStatus,
    hello_node: Seq<char>,
    i: int,
)
    requires
        are_choices(choices, local_label(Some(status), None, hello_node), remotes(status, None)),
        0 <= i < machines_or_none(Some(status)).len(),
        ({
            let machines = machines_or_none(Some(status));
            let machine = machines[i];
            &&& machine.member_text("node"@) is Some
            &&& machine.member_text("node"@) != Some(status.node@)
            &&& machine.member_text("machine"@) is Some
            &&& machine.member_text("state"@) == Some("connected"@)
            &&& machine.member_text("compatibility"@) != Some("incompatible"@)
            &&& machine.member_text("role"@) is None || machine.member_text("role"@) == Some(
                "core"@,
            )
            &&& forall|j: int|
                i < j < machines.len() ==> (#[trigger] machines[j]).member_text("machine"@)
                    != machine.member_text("machine"@)
        }),
    ensures
        choices[0].wire() is None,
        exists|k: int|
            1 <= k < choices.len() && (#[trigger] choices[k]).wire() == machines_or_none(
                Some(status),
            )[i].member_text("machine"@) && choices[k]->node@ == machines_or_none(
                Some(status),
            )[i].member_text("node"@)->0,
{
    let machines = machines_or_none(Some(status));
    lemma_last_offer(machines, status.node@, i);
    let name = machines[i].member_text("machine"@)->0;
    assert(remotes(status, None).contains_key(name));
    let k = choose|k: int| 1 <= k < choices.len() && (#[trigger] choices[k])->machine@ == name;
    assert(choices[k] is Connected);
    assert(choices[k].wire() == Some(name));
}

} // verus!
