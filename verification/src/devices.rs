//! The devices inventory: the machines a runtime can see, decoded and put into words.
//!
//! Nothing here starts anything. The one thing to do about a row is printed as the command that
//! does it. Every string that some other machine chose reaches the screen through
//! [`crate::fleet::scrub`]; a name or an address that goes into a command line is validated
//! instead, and a string that is compared is kept whole.

use vstd::prelude::*;

use crate::catalogue::{
    blocker_sentence, blocker_text, operation_state, reason_sentence, reason_text, state_text,
};
use crate::clock::{relative, relative_time};
use crate::fleet::{
    canonical_host, canonical_host_of, drawn, is_host, is_machine, machine_argument,
    machine_argument_of, scrub,
};
use crate::json::{items_view, seen, Json, JsonView};
use crate::panel::Loadable;
use crate::text::{
    as_deref, cat2, cat3, cat4, cat5, chars_of, contains, count, decimal, earlier, heard, is_text,
    join, joined, lower, lowered, occurs, precedes, said, same, slice_text, texts, trim, trimmed,
};
use crate::wire::{ClientError, ErrorCode};

verus! {

/// How many columns a field of a reply keeps.
pub const FIELD_COLUMNS: usize = 72;

/// How many columns a sentence made of somebody else's words keeps.
pub const MESSAGE_COLUMNS: usize = 240;

/// How many columns a device's own name may occupy on a row.
pub const NAME_COLUMNS: usize = 17;

/// How much of a string that is kept for comparison is kept.
pub const IDENTITY_LIMIT: usize = 512;

/// How many rows the list draws before it offers to narrow itself.
pub const NARROWING_ROWS: usize = 8;

// ----- fields -----------------------------------------------------------------------

/// A string field, made safe to draw; an empty one is absent.
pub open spec fn field(value: Option<JsonView>, columns: nat) -> Option<Seq<char>> {
    match value {
        Some(JsonView::Text(raw)) => if drawn(raw, columns).len() > 0 {
            Some(drawn(raw, columns))
        } else {
            None
        },
        _ => None,
    }
}

fn bounded(value: Option<&Json>, columns: usize) -> (r: Option<String>)
    ensures
        said(r) == field(seen(value), columns as nat),
{
    match value {
        Some(Json::Text(raw)) => {
            let shown = scrub(raw.as_str(), columns);
            if shown.as_str().is_empty() {
                None
            } else {
                Some(shown)
            }
        },
        _ => None,
    }
}

fn text(value: Option<&Json>) -> (r: Option<String>)
    ensures
        said(r) == field(seen(value), FIELD_COLUMNS as nat),
{
    bounded(value, FIELD_COLUMNS)
}

fn sentence(value: Option<&Json>) -> (r: Option<String>)
    ensures
        said(r) == field(seen(value), MESSAGE_COLUMNS as nat),
{
    bounded(value, MESSAGE_COLUMNS)
}

/// A sentence this client did not write, made safe to draw.
pub open spec fn drawn_words(raw: Seq<char>) -> Seq<char> {
    drawn(raw, MESSAGE_COLUMNS as nat)
}

pub fn clean(raw: &str) -> (r: String)
    ensures
        r@ == drawn_words(raw@),
{
    scrub(raw, MESSAGE_COLUMNS)
}

/// A string field kept for comparison: as it was sent, up to a bound that no honest value
/// reaches.
pub open spec fn identity_of(value: Option<JsonView>) -> Option<Seq<char>> {
    match value {
        Some(JsonView::Text(raw)) => if raw.len() == 0 {
            None
        } else if raw.len() > IDENTITY_LIMIT {
            Some(raw.take(IDENTITY_LIMIT as int))
        } else {
            Some(raw)
        },
        _ => None,
    }
}

pub fn identity(value: Option<&Json>) -> (r: Option<String>)
    ensures
        said(r) == identity_of(seen(value)),
{
    match value {
        Some(Json::Text(raw)) => {
            let v = chars_of(raw.as_str());
            if v.len() == 0 {
                None
            } else if v.len() > IDENTITY_LIMIT {
                Some(slice_text(&v, 0, IDENTITY_LIMIT))
            } else {
                Some(slice_text(&v, 0, v.len()))
            }
        },
        _ => None,
    }
}

/// The items of a list member, or none.
pub open spec fn list_or_empty(value: Option<JsonView>) -> Seq<JsonView> {
    match value {
        Some(JsonView::List(items)) => items,
        _ => Seq::empty(),
    }
}

/// The string fields of a list, in order; what is not one is left out.
pub open spec fn fields(items: Seq<JsonView>) -> Seq<Seq<char>>
    decreases items.len(),
{
    if items.len() == 0 {
        Seq::empty()
    } else {
        match field(Some(items.last()), FIELD_COLUMNS as nat) {
            Some(s) => fields(items.drop_last()).push(s),
            None => fields(items.drop_last()),
        }
    }
}

fn text_list(value: Option<&Json>) -> (r: Vec<String>)
    ensures
        texts(r@) == fields(list_or_empty(seen(value))),
{
    let mut out: Vec<String> = Vec::new();
    if let Some(Json::List(items)) = value {
        proof {
            crate::json::lemma_list_view(items@);
        }
        let ghost whole = items_view(items@);
        let mut i: usize = 0;
        assert(texts(out@) =~= fields(whole.take(0)));
        while i < items.len()
            invariant
                i <= items@.len(),
                whole == items_view(items@),
                texts(out@) == fields(whole.take(i as int)),
            decreases items@.len() - i,
        {
            let ghost before = out@;
            assert(whole.take(i + 1).drop_last() =~= whole.take(i as int));
            assert(whole.take(i + 1).last() == items@[i as int]@);
            if let Some(s) = text(Some(&items[i])) {
                assert(texts(before.push(s)) =~= texts(before).push(s@));
                out.push(s);
            }
            i += 1;
        }
        assert(whole.take(i as int) =~= whole);
    } else {
        assert(texts(out@) =~= Seq::<Seq<char>>::empty());
    }
    out
}

pub open spec fn or(value: Option<Seq<char>>, otherwise: Seq<char>) -> Seq<char> {
    match value {
        Some(s) => s,
        None => otherwise,
    }
}

fn unwrap_or(value: Option<String>, otherwise: &str) -> (r: String)
    ensures
        r@ == or(said(value), otherwise@),
{
    match value {
        Some(s) => s,
        None => otherwise.to_owned(),
    }
}

pub open spec fn member_of(value: Option<JsonView>, name: Seq<char>) -> Option<JsonView> {
    match value {
        Some(v) => v.member(name),
        None => None,
    }
}

fn get_in<'a>(value: Option<&'a Json>, name: &str) -> (r: Option<&'a Json>)
    ensures
        seen(r) == member_of(seen(value), name@),
{
    match value {
        Some(v) => v.get(name),
        None => None,
    }
}

// ----- the deployment host ----------------------------------------------------------

/// The machine that hosts the runtime.
#[derive(Debug, Clone, PartialEq, Eq)]
pub struct DeploymentHost {
    pub hostname: String,
    pub user: String,
    pub os: Option<String>,
    pub reasons: Vec<String>,
}

impl Default for DeploymentHost {
    fn default() -> (r: DeploymentHost)
        ensures
            r.hostname@.len() == 0,
            r.user@.len() == 0,
            r.os is None,
            r.reasons@.len() == 0,
    {
        DeploymentHost {
            hostname: String::new(),
            user: String::new(),
            os: None,
            reasons: Vec::new(),
        }
    }
}

impl DeploymentHost {
    pub open spec fn reads(&self, value: JsonView) -> bool {
        &&& self.hostname@ == or(
            field(value.member("hostname"@), FIELD_COLUMNS as nat),
            "this machine"@,
        )
        &&& self.user@ == or(field(value.member("user"@), FIELD_COLUMNS as nat), "unknown"@)
        &&& said(self.os) == field(value.member("os"@), FIELD_COLUMNS as nat)
        &&& texts(self.reasons@) == fields(
            list_or_empty(member_of(value.member("capabilities"@), "reasons"@)),
        )
    }

    pub open spec fn is_empty(&self) -> bool {
        self.hostname@.len() == 0 && self.user@.len() == 0 && self.os is None
            && self.reasons@.len() == 0
    }

    fn decode(value: &Json) -> (r: DeploymentHost)
        ensures
            r.reads(value@),
    {
        DeploymentHost {
            hostname: unwrap_or(text(value.get("hostname")), "this machine"),
            user: unwrap_or(text(value.get("user")), "unknown"),
            os: text(value.get("os")),
            reasons: text_list(get_in(value.get("capabilities"), "reasons")),
        }
    }

    pub open spec fn actions_text(&self) -> Seq<char> {
        "Actions run on "@ + self.hostname@ + " as "@ + self.user@ + "."@
    }

    /// Whose machine the commands are for, and as whom.
    pub fn actions_line(&self) -> (r: String)
        ensures
            r@ == self.actions_text(),
    {
        cat5("Actions run on ", self.hostname.as_str(), " as ", self.user.as_str(), ".")
    }

    pub open spec fn noun(&self) -> Seq<char> {
        if said(self.os) == Some("darwin"@) || said(self.os) == Some("macos"@) {
            "This Mac"@
        } else {
            "This machine"@
        }
    }

    /// What this machine is called on its own row: the host OS gives the noun.
    pub fn self_label(&self) -> (r: &'static str)
        ensures
            r@ == self.noun(),
    {
        if is_text(&self.os, "darwin") || is_text(&self.os, "macos") {
            "This Mac"
        } else {
            "This machine"
        }
    }

    pub open spec fn blocker_words(&self) -> Option<Seq<char>> {
        if self.reasons@.len() > 0 {
            Some(blocker_text(self.reasons@[0]@))
        } else {
            None
        }
    }

    /// The first thing this runtime says it cannot do, in words.
    pub fn blocker(&self) -> (r: Option<String>)
        ensures
            said(r) == self.blocker_words(),
    {
        if self.reasons.len() > 0 {
            Some(blocker_sentence(self.reasons[0].as_str()))
        } else {
            None
        }
    }
}

// ----- discovery --------------------------------------------------------------------

/// What the network client could see.
#[derive(Debug, Clone, PartialEq, Eq)]
pub struct Discovery {
    pub code: String,
    pub detail: Option<String>,
    pub visible_peers: u64,
}

impl Default for Discovery {
    fn default() -> (r: Discovery)
        ensures
            r.code@.len() == 0,
            r.detail is None,
            r.visible_peers == 0,
    {
        Discovery { code: String::new(), detail: None, visible_peers: 0 }
    }
}

/// The discovery headline, by its code and the number of peers.
pub open spec fn headline_text(code: Seq<char>, peers: nat) -> Seq<char> {
    if code == "client_missing"@ {
        "no Tailscale client is installed on this machine"@
    } else if code == "signed_out"@ {
        "the Tailscale client is installed and this machine is signed out"@
    } else if code == "permission_denied"@ {
        "the Tailscale client refused this account's request"@
    } else if code == "no_visible_peers"@ {
        "the Tailscale client sees no other devices on this network"@
    } else if code == "ok"@ {
        "the Tailscale client sees "@ + decimal(peers) + " device"@ + (if peers == 1 {
            ""@
        } else {
            "s"@
        }) + " on this network"@
    } else {
        "the Tailscale client could not report this machine's network"@
    }
}

impl Discovery {
    pub open spec fn reads(&self, value: JsonView) -> bool {
        &&& self.code@ == or(field(value.member("code"@), FIELD_COLUMNS as nat), "unavailable"@)
        &&& said(self.detail) == field(value.member("detail"@), MESSAGE_COLUMNS as nat)
        &&& self.visible_peers == match value.member("visible_peers"@) {
            Some(JsonView::Unsigned(n)) => n,
            _ => 0,
        }
    }

    pub open spec fn is_empty(&self) -> bool {
        self.code@.len() == 0 && self.detail is None && self.visible_peers == 0
    }

    fn decode(value: &Json) -> (r: Discovery)
        ensures
            r.reads(value@),
    {
        Discovery {
            code: unwrap_or(text(value.get("code")), "unavailable"),
            detail: sentence(value.get("detail")),
            visible_peers: match value.get("visible_peers") {
                Some(Json::Unsigned(n)) => *n,
                _ => 0,
            },
        }
    }

    pub open spec fn headline_words(&self) -> Seq<char> {
        headline_text(self.code@, self.visible_peers as nat)
    }

    /// The distinct states of discovery, in the words the command line prints for them.
    pub fn headline(&self) -> (r: String)
        ensures
            r@ == self.headline_words(),
    {
        let code = self.code.as_str();
        if same(code, "client_missing") {
            "no Tailscale client is installed on this machine".to_owned()
        } else if same(code, "signed_out") {
            "the Tailscale client is installed and this machine is signed out".to_owned()
        } else if same(code, "permission_denied") {
            "the Tailscale client refused this account's request".to_owned()
        } else if same(code, "no_visible_peers") {
            "the Tailscale client sees no other devices on this network".to_owned()
        } else if same(code, "ok") {
            let mut out = cat3(
                "the Tailscale client sees ",
                crate::text::number(self.visible_peers).as_str(),
                " device",
            );
            out.append(
                if self.visible_peers == 1 {
                    ""
                } else {
                    "s"
                },
            );
            out.append(" on this network");
            out
        } else {
            "the Tailscale client could not report this machine's network".to_owned()
        }
    }

    pub open spec fn has_answered(&self) -> bool {
        self.code@ == "ok"@ || self.code@ == "no_visible_peers"@
    }

    /// Whether the client answered with a peer list at all.
    pub fn answered(&self) -> (r: bool)
        ensures
            r == self.has_answered(),
    {
        same(self.code.as_str(), "ok") || same(self.code.as_str(), "no_visible_peers")
    }

    pub open spec fn notice_words(&self) -> Option<Seq<char>> {
        if self.has_answered() {
            None
        } else {
            Some(
                match said(self.detail) {
                    Some(detail) => "Tailscale did not answer from this runtime: \u{201c}"@
                        + detail + "\u{201d}. "@
                        + "Devices already in the fleet are still listed."@,
                    None => self.headline_words() + ". "@
                        + "Devices already in the fleet are still listed."@,
                },
            )
        }
    }

    /// The one-line notice a failed discovery gets, quoting the client's own words.
    pub fn notice(&self) -> (r: Option<String>)
        ensures
            said(r) == self.notice_words(),
    {
        if self.answered() {
            return None;
        }
        let repair = "Devices already in the fleet are still listed.";
        Some(
            match as_deref(&self.detail) {
                Some(detail) => cat4(
                    "Tailscale did not answer from this runtime: \u{201c}",
                    detail,
                    "\u{201d}. ",
                    repair,
                ),
                None => cat3(self.headline().as_str(), ". ", repair),
            },
        )
    }
}

// ----- device states ----------------------------------------------------------------

/// The states this build understands.
#[derive(Debug, Clone, Copy, PartialEq, Eq, Structural)]
pub enum DeviceState {
    ThisDevice,
    ThisDeviceWithoutProfile,
    FleetMember,
    FleetMemberNotVisible,
    DiscoveredInstallationUnknown,
    PeerOffline,
    UnsupportedPlatform,
    NoUsableIpv4,
}

pub open spec fn state_code(state: DeviceState) -> Seq<char> {
    match state {
        DeviceState::ThisDevice => "this_device"@,
        DeviceState::ThisDeviceWithoutProfile => "this_device_without_profile"@,
        DeviceState::FleetMember => "fleet_member"@,
        DeviceState::FleetMemberNotVisible => "fleet_member_not_visible"@,
        DeviceState::DiscoveredInstallationUnknown => "discovered_installation_unknown"@,
        DeviceState::PeerOffline => "peer_offline"@,
        DeviceState::UnsupportedPlatform => "unsupported_platform"@,
        DeviceState::NoUsableIpv4 => "no_usable_ipv4"@,
    }
}

pub open spec fn state_words(state: DeviceState) -> Seq<char> {
    match state {
        DeviceState::ThisDevice => "this device"@,
        DeviceState::ThisDeviceWithoutProfile => "this device, not in a fleet"@,
        DeviceState::FleetMember => "fleet member"@,
        DeviceState::FleetMemberNotVisible => "fleet member, not visible on this network"@,
        DeviceState::DiscoveredInstallationUnknown => "discovered, installation unknown"@,
        DeviceState::PeerOffline => "offline"@,
        DeviceState::UnsupportedPlatform => "unsupported platform"@,
        DeviceState::NoUsableIpv4 => "no usable IPv4 address"@,
    }
}

impl DeviceState {
    /// The code on the wire.
    pub fn code(self) -> (r: &'static str)
        ensures
            r@ == state_code(self),
    {
        match self {
            DeviceState::ThisDevice => "this_device",
            DeviceState::ThisDeviceWithoutProfile => "this_device_without_profile",
            DeviceState::FleetMember => "fleet_member",
            DeviceState::FleetMemberNotVisible => "fleet_member_not_visible",
            DeviceState::DiscoveredInstallationUnknown => "discovered_installation_unknown",
            DeviceState::PeerOffline => "peer_offline",
            DeviceState::UnsupportedPlatform => "unsupported_platform",
            DeviceState::NoUsableIpv4 => "no_usable_ipv4",
        }
    }

    pub fn label(self) -> (r: &'static str)
        ensures
            r@ == state_words(self),
    {
        match self {
            DeviceState::ThisDevice => "this device",
            DeviceState::ThisDeviceWithoutProfile => "this device, not in a fleet",
            DeviceState::FleetMember => "fleet member",
            DeviceState::FleetMemberNotVisible => "fleet member, not visible on this network",
            DeviceState::DiscoveredInstallationUnknown => "discovered, installation unknown",
            DeviceState::PeerOffline => "offline",
            DeviceState::UnsupportedPlatform => "unsupported platform",
            DeviceState::NoUsableIpv4 => "no usable IPv4 address",
        }
    }
}

/// The state a code names.
pub open spec fn state_of(code: Seq<char>) -> Option<DeviceState> {
    if code == "this_device"@ {
        Some(DeviceState::ThisDevice)
    } else if code == "this_device_without_profile"@ {
        Some(DeviceState::ThisDeviceWithoutProfile)
    } else if code == "fleet_member"@ {
        Some(DeviceState::FleetMember)
    } else if code == "fleet_member_not_visible"@ {
        Some(DeviceState::FleetMemberNotVisible)
    } else if code == "discovered_installation_unknown"@ {
        Some(DeviceState::DiscoveredInstallationUnknown)
    } else if code == "peer_offline"@ {
        Some(DeviceState::PeerOffline)
    } else if code == "unsupported_platform"@ {
        Some(DeviceState::UnsupportedPlatform)
    } else if code == "no_usable_ipv4"@ {
        Some(DeviceState::NoUsableIpv4)
    } else {
        None
    }
}

pub fn parse_state(code: &str) -> (r: Option<DeviceState>)
    ensures
        r == state_of(code@),
{
    if same(code, "this_device") {
        Some(DeviceState::ThisDevice)
    } else if same(code, "this_device_without_profile") {
        Some(DeviceState::ThisDeviceWithoutProfile)
    } else if same(code, "fleet_member") {
        Some(DeviceState::FleetMember)
    } else if same(code, "fleet_member_not_visible") {
        Some(DeviceState::FleetMemberNotVisible)
    } else if same(code, "discovered_installation_unknown") {
        Some(DeviceState::DiscoveredInstallationUnknown)
    } else if same(code, "peer_offline") {
        Some(DeviceState::PeerOffline)
    } else if same(code, "unsupported_platform") {
        Some(DeviceState::UnsupportedPlatform)
    } else if same(code, "no_usable_ipv4") {
        Some(DeviceState::NoUsableIpv4)
    } else {
        None
    }
}

/// A state's code names that state.
pub proof fn lemma_state_codes_round_trip(state: DeviceState)
    ensures
        state_of(state_code(state)) == Some(state),
{
    reveal_strlit("this_device");
    reveal_strlit("this_device_without_profile");
    reveal_strlit("fleet_member");
    reveal_strlit("fleet_member_not_visible");
    reveal_strlit("discovered_installation_unknown");
    reveal_strlit("peer_offline");
    reveal_strlit("unsupported_platform");
    reveal_strlit("no_usable_ipv4");
    assert("this_device"@.len() == 11);
    assert("this_device_without_profile"@.len() == 27);
    assert("fleet_member"@.len() == 12 && "fleet_member"@[0] == 'f');
    assert("fleet_member_not_visible"@.len() == 24);
    assert("discovered_installation_unknown"@.len() == 31);
    assert("peer_offline"@.len() == 12 && "peer_offline"@[0] == 'p');
    assert("unsupported_platform"@.len() == 20);
    assert("no_usable_ipv4"@.len() == 14);
}

// ----- rows -------------------------------------------------------------------------

/// One row of the inventory.
#[derive(Debug, Clone, PartialEq, Eq)]
pub struct DeviceRow {
    pub name: String,
    pub machine: Option<String>,
    /// The name this device would take in the fleet, chosen by the runtime. The only source a
    /// command's `--machine` is filled from besides `machine`.
    pub suggested_machine: Option<String>,
    pub os: Option<String>,
    pub address: Option<String>,
    pub online: Option<bool>,
    pub last_seen: Option<String>,
    /// The state's code. The words are [`DeviceRow::state_label`].
    pub state: String,
    /// Whether this runtime is connected to that member's runtime, which is a different question
    /// from `online`.
    pub connected: Option<bool>,
    pub compatible: Option<bool>,
    pub runtime_running: Option<bool>,
    pub last_probe: Option<String>,
    pub path: Option<String>,
    pub name_conflict: Option<String>,
    /// `address` and `machine` as they were sent, for comparison only. Never drawn.
    pub address_key: Option<String>,
    pub machine_key: Option<String>,
}

impl Default for DeviceRow {
    fn default() -> (r: DeviceRow)
        ensures
            r.name@.len() == 0,
            r.machine is None,
            r.suggested_machine is None,
            r.os is None,
            r.address is None,
            r.online is None,
            r.last_seen is None,
            r.state@.len() == 0,
            r.connected is None,
            r.compatible is None,
            r.runtime_running is None,
            r.last_probe is None,
            r.path is None,
            r.name_conflict is None,
            r.address_key is None,
            r.machine_key is None,
    {
        DeviceRow {
            name: String::new(),
            machine: None,
            suggested_machine: None,
            os: None,
            address: None,
            online: None,
            last_seen: None,
            state: String::new(),
            connected: None,
            compatible: None,
            runtime_running: None,
            last_probe: None,
            path: None,
            name_conflict: None,
            address_key: None,
            machine_key: None,
        }
    }
}

pub open spec fn short(value: JsonView, name: Seq<char>) -> Option<Seq<char>> {
    field(value.member(name), FIELD_COLUMNS as nat)
}

impl DeviceRow {
    pub open spec fn reads(&self, value: JsonView) -> bool {
        &&& self.name@ == or(short(value, "name"@), "unnamed device"@)
        &&& said(self.machine) == short(value, "machine"@)
        &&& said(self.suggested_machine) == short(value, "suggested_machine"@)
        &&& said(self.os) == short(value, "os"@)
        &&& said(self.address) == short(value, "address"@)
        &&& self.online == value.member_truth("online"@)
        &&& said(self.last_seen) == short(value, "last_seen"@)
        &&& self.state@ == or(short(value, "state"@), Seq::empty())
        &&& self.connected == value.member_truth("connected"@)
        &&& self.compatible == value.member_truth("compatible"@)
        &&& self.runtime_running == value.member_truth("runtime_running"@)
        &&& said(self.last_probe) == short(value, "last_probe"@)
        &&& said(self.path) == short(value, "path"@)
        &&& said(self.name_conflict) == short(value, "name_conflicts_with_roster"@)
        &&& said(self.address_key) == identity_of(value.member("address"@))
        &&& said(self.machine_key) == identity_of(value.member("machine"@))
    }

    pub fn decode(value: &Json) -> (r: DeviceRow)
        ensures
            r.reads(value@),
    {
        DeviceRow {
            name: unwrap_or(text(value.get("name")), "unnamed device"),
            machine: text(value.get("machine")),
            suggested_machine: text(value.get("suggested_machine")),
            os: text(value.get("os")),
            address: text(value.get("address")),
            online: value.get_bool("online"),
            last_seen: text(value.get("last_seen")),
            state: match text(value.get("state")) {
                Some(state) => state,
                None => String::new(),
            },
            connected: value.get_bool("connected"),
            compatible: value.get_bool("compatible"),
            runtime_running: value.get_bool("runtime_running"),
            last_probe: text(value.get("last_probe")),
            path: text(value.get("path")),
            name_conflict: text(value.get("name_conflicts_with_roster")),
            address_key: identity(value.get("address")),
            machine_key: identity(value.get("machine")),
        }
    }

    /// The address for comparison: whole where the row was decoded, else the drawable one.
    pub open spec fn address_id(&self) -> Option<Seq<char>> {
        if self.address_key is Some {
            said(self.address_key)
        } else {
            said(self.address)
        }
    }

    pub fn address_identity(&self) -> (r: Option<&str>)
        ensures
            heard(r) == self.address_id(),
    {
        match &self.address_key {
            Some(key) => Some(key.as_str()),
            None => as_deref(&self.address),
        }
    }

    /// The fleet name for comparison. Never the display name.
    pub open spec fn machine_id(&self) -> Option<Seq<char>> {
        if self.machine_key is Some {
            said(self.machine_key)
        } else {
            said(self.machine)
        }
    }

    pub fn machine_identity(&self) -> (r: Option<&str>)
        ensures
            heard(r) == self.machine_id(),
    {
        match &self.machine_key {
            Some(key) => Some(key.as_str()),
            None => as_deref(&self.machine),
        }
    }

    pub open spec fn known_state(&self) -> Option<DeviceState> {
        state_of(self.state@)
    }

    /// The state this build understands, or `None` for a code it does not.
    pub fn parsed_state(&self) -> (r: Option<DeviceState>)
        ensures
            r == self.known_state(),
    {
        parse_state(self.state.as_str())
    }

    /// A member whose runtime this one is talking to: the runtime's own promotion.
    pub open spec fn is_connected_member(&self) -> bool {
        self.state@ == "fleet_member_connected"@
    }

    pub open spec fn state_label_words(&self) -> Seq<char> {
        match self.known_state() {
            Some(state) => state_words(state),
            None => if self.is_connected_member() {
                "connected now"@
            } else if self.state@.len() == 0 {
                "this runtime reported no state for this device"@
            } else {
                self.state@ + " (a state this client does not know)"@
            },
        }
    }

    /// The state a person reads. A code this build does not know is shown as itself.
    pub fn state_label(&self) -> (r: String)
        ensures
            r@ == self.state_label_words(),
    {
        match self.parsed_state() {
            Some(state) => state.label().to_owned(),
            None => if same(self.state.as_str(), "fleet_member_connected") {
                "connected now".to_owned()
            } else if self.state.as_str().is_empty() {
                "this runtime reported no state for this device".to_owned()
            } else {
                cat2(self.state.as_str(), " (a state this client does not know)")
            },
        }
    }

    /// The facts the cluster knows, one phrase each.
    pub open spec fn facts(&self) -> Seq<Seq<char>> {
        let first = match self.connected {
            Some(true) => seq!["runtime connected"@],
            Some(false) => seq!["runtime not connected"@],
            None => Seq::empty(),
        };
        let second = match self.compatible {
            Some(true) => first.push("compatible build"@),
            Some(false) => first.push("incompatible build"@),
            None => first,
        };
        let third = match self.runtime_running {
            Some(true) => second.push("runtime running"@),
            Some(false) => second.push("runtime stopped"@),
            None => second,
        };
        match said(self.last_probe) {
            Some(probe) => third.push("probed "@ + probe),
            None => third,
        }
    }

    pub open spec fn facts_words(&self) -> Option<Seq<char>> {
        if self.facts().len() == 0 {
            None
        } else {
            Some(joined(self.facts(), " \u{b7} "@))
        }
    }

    /// The live facts as a line, or `None` when this runtime knows none of them. Separate from
    /// [`DeviceRow::presence`], which is the network's answer.
    pub fn runtime_facts(&self) -> (r: Option<String>)
        ensures
            said(r) == self.facts_words(),
    {
        let mut facts: Vec<String> = Vec::new();
        if let Some(connected) = self.connected {
            facts.push(
                if connected {
                    "runtime connected".to_owned()
                } else {
                    "runtime not connected".to_owned()
                },
            );
        }
        if let Some(compatible) = self.compatible {
            facts.push(
                if compatible {
                    "compatible build".to_owned()
                } else {
                    "incompatible build".to_owned()
                },
            );
        }
        if let Some(running) = self.runtime_running {
            facts.push(
                if running {
                    "runtime running".to_owned()
                } else {
                    "runtime stopped".to_owned()
                },
            );
        }
        if let Some(probe) = &self.last_probe {
            facts.push(cat2("probed ", probe.as_str()));
        }
        assert(texts(facts@) =~= self.facts());
        if facts.len() == 0 {
            None
        } else {
            Some(join(&facts, " \u{b7} "))
        }
    }

    pub open spec fn belongs(&self) -> bool {
        ||| self.machine is Some
        ||| self.known_state() == Some(DeviceState::ThisDeviceWithoutProfile)
        ||| self.is_connected_member()
    }

    /// Whether this row is a machine of this fleet rather than a device on the network.
    pub fn in_fleet(&self) -> (r: bool)
        ensures
            r == self.belongs(),
    {
        self.machine.is_some() || matches!(
            self.parsed_state(),
            Some(DeviceState::ThisDeviceWithoutProfile)
        ) || same(self.state.as_str(), "fleet_member_connected")
    }

    pub open spec fn presence_words(&self) -> Seq<char> {
        match (self.online, said(self.last_seen)) {
            (Some(true), _) => "online now"@,
            (Some(false), Some(seen)) => "offline, last seen "@ + seen,
            (Some(false), None) => "offline"@,
            (None, Some(seen)) => "unknown, last seen "@ + seen,
            (None, None) => "unknown"@,
        }
    }

    /// Network presence with its exact observation time.
    pub fn presence(&self) -> (r: String)
        ensures
            r@ == self.presence_words(),
    {
        match (self.online, as_deref(&self.last_seen)) {
            (Some(true), _) => "online now".to_owned(),
            (Some(false), Some(seen)) => cat2("offline, last seen ", seen),
            (Some(false), None) => "offline".to_owned(),
            (None, Some(seen)) => cat2("unknown, last seen ", seen),
            (None, None) => "unknown".to_owned(),
        }
    }

    pub open spec fn presence_short_words(&self, now: int) -> Seq<char> {
        match (self.online, said(self.last_seen)) {
            (Some(true), _) => "\u{25cf} online"@,
            (Some(false), Some(seen)) => match relative(seen, now) {
                Some(ago) => "\u{25cb} offline, seen "@ + ago,
                None => "\u{25cb} offline"@,
            },
            (Some(false), None) => "\u{25cb} offline"@,
            (None, Some(seen)) => match relative(seen, now) {
                Some(ago) => "\u{25cb} last seen "@ + ago,
                None => "\u{25cb} presence unknown"@,
            },
            (None, None) => "\u{25cb} presence unknown"@,
        }
    }

    /// Presence as the row carries it: a dot, a word and a time relative to `now`, which is in
    /// seconds since the epoch. Never an exact timestamp.
    pub fn presence_short(&self, now: u64) -> (r: String)
        ensures
            r@ == self.presence_short_words(now as int),
    {
        match (self.online, as_deref(&self.last_seen)) {
            (Some(true), _) => "\u{25cf} online".to_owned(),
            (Some(false), Some(seen)) => match relative_time(seen, now) {
                Some(ago) => cat2("\u{25cb} offline, seen ", ago.as_str()),
                None => "\u{25cb} offline".to_owned(),
            },
            (Some(false), None) => "\u{25cb} offline".to_owned(),
            (None, Some(seen)) => match relative_time(seen, now) {
                Some(ago) => cat2("\u{25cb} last seen ", ago.as_str()),
                None => "\u{25cb} presence unknown".to_owned(),
            },
            (None, None) => "\u{25cb} presence unknown".to_owned(),
        }
    }

    pub open spec fn word(&self) -> Seq<char> {
        match self.known_state() {
            Some(DeviceState::ThisDevice) | Some(DeviceState::FleetMember) => if self.connected
                == Some(false) {
                "in the fleet \u{b7} not connected"@
            } else {
                "in the fleet"@
            },
            Some(DeviceState::FleetMemberNotVisible) => "in the fleet \u{b7} not connected"@,
            Some(DeviceState::ThisDeviceWithoutProfile)
            | Some(DeviceState::DiscoveredInstallationUnknown) => "not set up"@,
            Some(DeviceState::PeerOffline) => "offline"@,
            Some(DeviceState::UnsupportedPlatform)
            | Some(DeviceState::NoUsableIpv4) => "can't run Ouroboros"@,
            None => if self.is_connected_member() {
                "in the fleet"@
            } else {
                self.state_label_words()
            },
        }
    }

    /// The Ouroboros column, from the device's own state. A state this build cannot reason about
    /// is named; the column is never blank.
    pub fn ouroboros_word(&self) -> (r: String)
        ensures
            r@ == self.word(),
    {
        match self.parsed_state() {
            Some(DeviceState::ThisDevice) | Some(DeviceState::FleetMember) => {
                if matches!(self.connected, Some(false)) {
                    "in the fleet \u{b7} not connected".to_owned()
                } else {
                    "in the fleet".to_owned()
                }
            },
            Some(
                DeviceState::FleetMemberNotVisible,
            ) => "in the fleet \u{b7} not connected".to_owned(),
            Some(DeviceState::ThisDeviceWithoutProfile)
            | Some(DeviceState::DiscoveredInstallationUnknown) => "not set up".to_owned(),
            Some(DeviceState::PeerOffline) => "offline".to_owned(),
            Some(DeviceState::UnsupportedPlatform)
            | Some(DeviceState::NoUsableIpv4) => "can't run Ouroboros".to_owned(),
            None => if same(self.state.as_str(), "fleet_member_connected") {
                "in the fleet".to_owned()
            } else {
                self.state_label()
            },
        }
    }

    pub open spec fn no_recipe_words(&self) -> Option<Seq<char>> {
        match self.known_state() {
            Some(
                DeviceState::PeerOffline,
            ) => Some(
                "The network client reports this device offline, so there is nothing to reach. Offline is not powered off."@,
            ),
            Some(
                DeviceState::UnsupportedPlatform,
            ) => Some(
                "No Ouroboros release targets this platform, so there is nothing to install on it."@,
            ),
            Some(
                DeviceState::NoUsableIpv4,
            ) => Some(
                "This device reports no private IPv4 address the fleet could use, so there is no address to connect to."@,
            ),
            Some(_) => None,
            None => if self.is_connected_member() {
                None
            } else {
                Some(
                    "This runtime reports the state "@ + self.state_label_words()
                        + ", which this client has no command for."@,
                )
            },
        }
    }

    /// The reason there is no command on this row. `None` when there is one.
    pub fn no_recipe_reason(&self) -> (r: Option<String>)
        ensures
            said(r) == self.no_recipe_words(),
    {
        match self.parsed_state() {
            Some(
                DeviceState::PeerOffline,
            ) => Some(
                "The network client reports this device offline, so there is nothing to reach. Offline is not powered off.".to_owned(),
            ),
            Some(
                DeviceState::UnsupportedPlatform,
            ) => Some(
                "No Ouroboros release targets this platform, so there is nothing to install on it.".to_owned(),
            ),
            Some(
                DeviceState::NoUsableIpv4,
            ) => Some(
                "This device reports no private IPv4 address the fleet could use, so there is no address to connect to.".to_owned(),
            ),
            Some(_) => None,
            None => if same(self.state.as_str(), "fleet_member_connected") {
                None
            } else {
                Some(
                    cat3(
                        "This runtime reports the state ",
                        self.state_label().as_str(),
                        ", which this client has no command for.",
                    ),
                )
            },
        }
    }

    /// What `--machine` gets: a valid fleet name, else a valid suggestion, else the placeholder.
    pub open spec fn machine_word(&self) -> Seq<char> {
        let own = match said(self.machine) {
            Some(machine) => machine_argument_of(machine),
            None => None,
        };
        let suggested = match said(self.suggested_machine) {
            Some(machine) => machine_argument_of(machine),
            None => None,
        };
        match own {
            Some(name) => name,
            None => or(suggested, "NAME"@),
        }
    }

    fn machine_word_text(&self) -> (r: String)
        ensures
            r@ == self.machine_word(),
    {
        if let Some(machine) = as_deref(&self.machine) {
            if let Some(name) = machine_argument(machine) {
                return name;
            }
        }
        if let Some(machine) = as_deref(&self.suggested_machine) {
            if let Some(name) = machine_argument(machine) {
                return name;
            }
        }
        "NAME".to_owned()
    }

    pub open spec fn address_word(&self) -> Seq<char> {
        match said(self.address) {
            Some(address) => or(canonical_host_of(address), "ADDRESS"@),
            None => "ADDRESS"@,
        }
    }

    fn address_word_text(&self) -> (r: String)
        ensures
            r@ == self.address_word(),
    {
        if let Some(address) = as_deref(&self.address) {
            if let Some(host) = canonical_host(address) {
                return host;
            }
        }
        "ADDRESS".to_owned()
    }

    /// The command for the one thing to do about this device, before any operation on it is
    /// taken into account.
    pub open spec fn recipe_words(&self) -> Option<Seq<char>> {
        match self.known_state() {
            Some(
                DeviceState::ThisDeviceWithoutProfile,
            ) => Some("ouro fleet setup --machine "@ + self.machine_word()),
            Some(
                DeviceState::DiscoveredInstallationUnknown,
            ) => Some(
                "ouro fleet add USER@"@ + self.address_word() + " --machine "@ + self.machine_word(),
            ),
            Some(DeviceState::ThisDevice) => Some("ouro fleet leave"@),
            Some(DeviceState::FleetMember)
            | Some(DeviceState::FleetMemberNotVisible) => Some(
                "ouro fleet leave --machine "@ + self.machine_word() + " --user USER"@,
            ),
            Some(_) => None,
            None => if self.is_connected_member() {
                Some("ouro fleet leave --machine "@ + self.machine_word() + " --user USER"@)
            } else {
                None
            },
        }
    }

    pub fn recipe(&self) -> (r: Recipe)
        ensures
            r.words_of() == self.recipe_words(),
    {
        match self.parsed_state() {
            Some(DeviceState::ThisDeviceWithoutProfile) => Recipe::setup(self.machine_word_text()),
            Some(DeviceState::DiscoveredInstallationUnknown) => Recipe::add(
                self.address_word_text(),
                self.machine_word_text(),
            ),
            Some(DeviceState::ThisDevice) => Recipe::leave_here(),
            Some(DeviceState::FleetMember)
            | Some(DeviceState::FleetMemberNotVisible) => Recipe::leave(self.machine_word_text()),
            Some(_) => Recipe::Nothing,
            None => if same(self.state.as_str(), "fleet_member_connected") {
                Recipe::leave(self.machine_word_text())
            } else {
                Recipe::Nothing
            },
        }
    }
}

// ----- commands ---------------------------------------------------------------------

/// The one thing to do about a row, as the command that does it.
///
/// What the runtime cannot know is printed as a placeholder in capitals rather than as a guess.
#[derive(Debug, Clone, PartialEq, Eq)]
pub enum Recipe {
    /// The command line, ready to run on the deployment host.
    Command(String),
    /// Nothing to do about this device from here.
    Nothing,
}

impl Recipe {
    pub const MACHINE_PLACEHOLDER: &'static str = "NAME";

    pub const ADDRESS_PLACEHOLDER: &'static str = "ADDRESS";

    /// The account on the target. Never guessed: a device is not an account.
    pub const USER_PLACEHOLDER: &'static str = "USER";

    pub open spec fn words_of(&self) -> Option<Seq<char>> {
        match *self {
            Recipe::Command(command) => Some(command@),
            Recipe::Nothing => None,
        }
    }

    fn setup(machine: String) -> (r: Recipe)
        ensures
            r.words_of() == Some("ouro fleet setup --machine "@ + machine@),
    {
        Recipe::Command(cat2("ouro fleet setup --machine ", machine.as_str()))
    }

    fn add(address: String, machine: String) -> (r: Recipe)
        ensures
            r.words_of() == Some(
                "ouro fleet add USER@"@ + address@ + " --machine "@ + machine@,
            ),
    {
        Recipe::Command(
            cat4("ouro fleet add USER@", address.as_str(), " --machine ", machine.as_str()),
        )
    }

    fn leave(machine: String) -> (r: Recipe)
        ensures
            r.words_of() == Some("ouro fleet leave --machine "@ + machine@ + " --user USER"@),
    {
        Recipe::Command(cat3("ouro fleet leave --machine ", machine.as_str(), " --user USER"))
    }

    fn leave_here() -> (r: Recipe)
        ensures
            r.words_of() == Some("ouro fleet leave"@),
    {
        Recipe::Command("ouro fleet leave".to_owned())
    }

    /// Adding a device the network client never listed.
    pub fn manual() -> (r: String)
        ensures
            r@ == "ouro fleet add USER@ADDRESS --machine NAME"@,
    {
        "ouro fleet add USER@ADDRESS --machine NAME".to_owned()
    }

    /// What the action column draws: the command, or a dash.
    pub fn words(&self) -> (r: String)
        ensures
            r@ == or(self.words_of(), "\u{2014}"@),
    {
        match self {
            Recipe::Command(command) => command.clone(),
            Recipe::Nothing => "\u{2014}".to_owned(),
        }
    }

    pub fn command(&self) -> (r: Option<&str>)
        ensures
            heard(r) == self.words_of(),
    {
        match self {
            Recipe::Command(command) => Some(command.as_str()),
            Recipe::Nothing => None,
        }
    }
}

/// The arguments a command is printed with are arguments: a machine name the parser accepts, and
/// an address it accepts or the placeholder.
pub proof fn lemma_printed_arguments_are_valid(row: DeviceRow)
    ensures
        is_machine(row.machine_word()),
        is_host(row.address_word()) || row.address_word() == "ADDRESS"@,
{
    reveal_strlit("NAME");
    assert("NAME"@.len() == 4);
    assert(forall|i: int|
        0 <= i < 4 ==> crate::fleet::machine_char(#[trigger] "NAME"@[i]));
}

/// A row offers a command exactly when it has no reason for offering none.
pub proof fn lemma_a_row_has_a_command_or_a_reason(row: DeviceRow)
    ensures
        row.recipe_words() is Some <==> row.no_recipe_words() is None,
{
}

// ----- operations -------------------------------------------------------------------

/// Enough of an operation's target to put it on the row it belongs to. Both fields are kept as
/// they were sent and are never drawn.
#[derive(Debug, Clone, PartialEq, Eq)]
pub struct OperationTarget {
    pub machine: Option<String>,
    pub address: Option<String>,
}

impl Default for OperationTarget {
    fn default() -> (r: OperationTarget)
        ensures
            r.machine is None,
            r.address is None,
    {
        OperationTarget { machine: None, address: None }
    }
}

/// What a target names: its machine and its address.
pub open spec fn target_of(value: Option<JsonView>) -> Option<(Option<Seq<char>>, Option<Seq<char>>)> {
    match value {
        Some(JsonView::Object(members)) => {
            let machine = identity_of(JsonView::Object(members).member("machine"@));
            let address = identity_of(JsonView::Object(members).member("address"@));
            if machine is Some || address is Some {
                Some((machine, address))
            } else {
                None
            }
        },
        _ => None,
    }
}

impl OperationTarget {
    pub open spec fn names(&self) -> (Option<Seq<char>>, Option<Seq<char>>) {
        (said(self.machine), said(self.address))
    }

    pub fn decode(value: &Json) -> (r: Option<OperationTarget>)
        ensures
            match r {
                Some(target) => target_of(Some(value@)) == Some(target.names()),
                None => target_of(Some(value@)) is None,
            },
    {
        match value {
            Json::Object(_) => {
                let machine = identity(value.get("machine"));
                let address = identity(value.get("address"));
                if machine.is_some() || address.is_some() {
                    Some(OperationTarget { machine, address })
                } else {
                    None
                }
            },
            _ => None,
        }
    }

    /// The target is the device of a row: by address, else by fleet name.
    pub open spec fn matches_row(&self, row: DeviceRow) -> bool {
        ||| said(self.address) is Some && said(self.address) == row.address_id()
        ||| said(self.machine) is Some && said(self.machine) == row.machine_id()
    }

    /// Whether this target is the device in `row`. Never by display name: that is what a device
    /// calls itself.
    pub fn is(&self, row: &DeviceRow) -> (r: bool)
        ensures
            r == self.matches_row(*row),
    {
        if let (Some(mine), Some(theirs)) = (as_deref(&self.address), row.address_identity()) {
            if same(mine, theirs) {
                return true;
            }
        }
        match (as_deref(&self.machine), row.machine_identity()) {
            (Some(mine), Some(theirs)) => same(mine, theirs),
            _ => false,
        }
    }
}

/// A device cannot make an operation its own by the name it gives itself.
pub proof fn lemma_a_display_name_matches_nothing(
    target: OperationTarget,
    row: DeviceRow,
    renamed: DeviceRow,
)
    requires
        renamed.address_id() == row.address_id(),
        renamed.machine_id() == row.machine_id(),
    ensures
        target.matches_row(renamed) == target.matches_row(row),
{
}

/// One deployment operation a runtime holds a journal for.
#[derive(Debug, Clone, PartialEq, Eq)]
pub struct OperationSummary {
    pub operation: String,
    pub state: Option<String>,
    pub kind: Option<String>,
    pub created_at: Option<String>,
    pub updated_at: Option<String>,
    pub target: Option<OperationTarget>,
    /// Whether a worker is alive for it on the deployment host.
    pub running: bool,
    pub readable: bool,
    /// The journal's last error, in words.
    pub last_error: Option<String>,
}

impl Default for OperationSummary {
    fn default() -> (r: OperationSummary)
        ensures
            r.operation@.len() == 0,
            r.state is None,
            r.kind is None,
            r.created_at is None,
            r.updated_at is None,
            r.target is None,
            !r.running,
            !r.readable,
            r.last_error is None,
    {
        OperationSummary {
            operation: String::new(),
            state: None,
            kind: None,
            created_at: None,
            updated_at: None,
            target: None,
            running: false,
            readable: false,
            last_error: None,
        }
    }
}

/// An operation's last error: a sentence, or an object of a reason and a detail. Anything else
/// is no error rather than a guess.
pub open spec fn last_error_words(value: Option<JsonView>) -> Option<Seq<char>> {
    match value {
        Some(JsonView::Text(s)) => field(value, MESSAGE_COLUMNS as nat),
        Some(JsonView::Object(members)) => {
            let reason = field(JsonView::Object(members).member("reason"@), FIELD_COLUMNS as nat);
            let detail = field(JsonView::Object(members).member("detail"@), MESSAGE_COLUMNS as nat);
            match (reason, detail) {
                (Some(reason), Some(detail)) => Some(
                    reason_text(reason) + " \u{2014} "@ + detail,
                ),
                (Some(reason), None) => Some(reason_text(reason)),
                (None, detail) => detail,
            }
        },
        _ => None,
    }
}

pub fn last_error(value: Option<&Json>) -> (r: Option<String>)
    ensures
        said(r) == last_error_words(seen(value)),
{
    match value {
        Some(Json::Text(_)) => sentence(value),
        Some(object) => match object {
            Json::Object(_) => {
                let reason = text(object.get("reason"));
                let detail = sentence(object.get("detail"));
                match (reason, detail) {
                    (Some(reason), Some(detail)) => Some(
                        cat3(reason_sentence(reason.as_str()).as_str(), " \u{2014} ", detail.as_str()),
                    ),
                    (Some(reason), None) => Some(reason_sentence(reason.as_str())),
                    (None, detail) => detail,
                }
            },
            _ => None,
        },
        None => None,
    }
}

pub open spec fn truth_or(value: Option<bool>, otherwise: bool) -> bool {
    match value {
        Some(b) => b,
        None => otherwise,
    }
}

impl OperationSummary {
    pub open spec fn reads(&self, value: JsonView) -> bool {
        &&& self.operation@ == or(short(value, "operation"@), Seq::empty())
        &&& said(self.state) == short(value, "state"@)
        &&& said(self.kind) == short(value, "kind"@)
        &&& said(self.created_at) == short(value, "created_at"@)
        &&& said(self.updated_at) == short(value, "updated_at"@)
        &&& match self.target {
            Some(target) => target_of(value.member("target"@)) == Some(target.names()),
            None => target_of(value.member("target"@)) is None,
        }
        &&& self.running == truth_or(value.member_truth("running"@), false)
        &&& self.readable == truth_or(value.member_truth("readable"@), true)
        &&& said(self.last_error) == last_error_words(value.member("last_error"@))
    }

    pub fn decode(value: &Json) -> (r: OperationSummary)
        ensures
            r.reads(value@),
    {
        OperationSummary {
            operation: match text(value.get("operation")) {
                Some(operation) => operation,
                None => String::new(),
            },
            state: text(value.get("state")),
            kind: text(value.get("kind")),
            created_at: text(value.get("created_at")),
            updated_at: text(value.get("updated_at")),
            target: match value.get("target") {
                Some(target) => OperationTarget::decode(target),
                None => None,
            },
            running: match value.get_bool("running") {
                Some(b) => b,
                None => false,
            },
            readable: match value.get_bool("readable") {
                Some(b) => b,
                None => true,
            },
            last_error: last_error(value.get("last_error")),
        }
    }

    /// Still going, or waiting on somebody: it has a state, and none of the four that stop it.
    pub open spec fn is_underway(&self) -> bool {
        match said(self.state) {
            None => false,
            Some(state) => state != "completed"@ && state != "failed"@ && state != "cancelled"@
                && state != "interrupted"@,
        }
    }

    pub fn underway(&self) -> (r: bool)
        ensures
            r == self.is_underway(),
    {
        match as_deref(&self.state) {
            None => false,
            Some(state) => !same(state, "completed") && !same(state, "failed") && !same(
                state,
                "cancelled",
            ) && !same(state, "interrupted"),
        }
    }

    pub open spec fn state_label_words(&self) -> Seq<char> {
        match said(self.state) {
            Some(state) => state_text(state),
            None => if !self.readable {
                "this operation's record could not be read"@
            } else {
                "state not recorded"@
            },
        }
    }

    pub fn state_label(&self) -> (r: String)
        ensures
            r@ == self.state_label_words(),
    {
        match as_deref(&self.state) {
            Some(state) => operation_state(state),
            None => if !self.readable {
                "this operation's record could not be read".to_owned()
            } else {
                "state not recorded".to_owned()
            },
        }
    }
}

// ----- the inventory ----------------------------------------------------------------

/// The whole reply, decoded.
#[derive(Debug, Clone, PartialEq, Eq)]
pub struct Inventory {
    pub host: DeploymentHost,
    pub discovery: Discovery,
    pub devices: Vec<DeviceRow>,
    pub operations: Vec<OperationSummary>,
    /// The fleet's own name, when the runtime states one.
    pub fleet_name: Option<String>,
    /// Top-level keys this build did not read, named rather than passed through.
    pub unknown: Vec<String>,
}

impl Default for Inventory {
    fn default() -> (r: Inventory)
        ensures
            r.host.is_empty(),
            r.discovery.is_empty(),
            r.devices@.len() == 0,
            r.operations@.len() == 0,
            r.fleet_name is None,
            r.unknown@.len() == 0,
    {
        Inventory {
            host: DeploymentHost::default(),
            discovery: Discovery::default(),
            devices: Vec::new(),
            operations: Vec::new(),
            fleet_name: None,
            unknown: Vec::new(),
        }
    }
}

/// A row's place in the list: this machine, then the fleet's machines, then everything else.
pub open spec fn rank(row: DeviceRow) -> int {
    if is_this_machine(row) {
        0
    } else if row.belongs() {
        1
    } else {
        2
    }
}

pub open spec fn is_this_machine(row: DeviceRow) -> bool {
    row.known_state() == Some(DeviceState::ThisDevice) || row.known_state() == Some(
        DeviceState::ThisDeviceWithoutProfile,
    )
}

fn rank_of(row: &DeviceRow) -> (r: u8)
    ensures
        r == rank(*row),
{
    match row.parsed_state() {
        Some(DeviceState::ThisDevice) | Some(DeviceState::ThisDeviceWithoutProfile) => 0,
        _ => if row.in_fleet() {
            1
        } else {
            2
        },
    }
}

/// The rows of one rank, in the order they came.
pub open spec fn of_rank(rows: Seq<DeviceRow>, k: int) -> Seq<DeviceRow>
    decreases rows.len(),
{
    if rows.len() == 0 {
        rows
    } else if rank(rows.last()) == k {
        of_rank(rows.drop_last(), k).push(rows.last())
    } else {
        of_rank(rows.drop_last(), k)
    }
}

/// The rows in the order the list draws them.
pub open spec fn in_order(rows: Seq<DeviceRow>) -> Seq<DeviceRow> {
    of_rank(rows, 0) + of_rank(rows, 1) + of_rank(rows, 2)
}

/// The rows behind a list of references.
pub open spec fn behind(rows: Seq<&DeviceRow>) -> Seq<DeviceRow> {
    rows.map_values(|row: &DeviceRow| *row)
}

/// The rows that name a machine of this fleet.
pub open spec fn fleet_rows(rows: Seq<DeviceRow>) -> Seq<DeviceRow>
    decreases rows.len(),
{
    if rows.len() == 0 {
        rows
    } else if rows.last().machine is Some {
        fleet_rows(rows.drop_last()).push(rows.last())
    } else {
        fleet_rows(rows.drop_last())
    }
}

pub open spec fn is_connected(row: DeviceRow) -> bool {
    ||| row.connected == Some(true)
    ||| row.is_connected_member()
    ||| row.known_state() == Some(DeviceState::ThisDevice)
}

pub open spec fn connected_count(rows: Seq<DeviceRow>) -> nat
    decreases rows.len(),
{
    if rows.len() == 0 {
        0
    } else if is_connected(rows.last()) {
        connected_count(rows.drop_last()) + 1
    } else {
        connected_count(rows.drop_last())
    }
}

/// The position of the first row of this machine, or the number of rows without one.
pub open spec fn self_position(rows: Seq<DeviceRow>) -> int
    decreases rows.len(),
{
    if rows.len() == 0 || is_this_machine(rows[0]) {
        0
    } else {
        1 + self_position(rows.skip(1))
    }
}

proof fn lemma_self_position(rows: Seq<DeviceRow>, at: int)
    requires
        0 <= at <= rows.len(),
        forall|i: int| 0 <= i < at ==> !is_this_machine(#[trigger] rows[i]),
        at < rows.len() ==> is_this_machine(rows[at]),
    ensures
        self_position(rows) == at,
    decreases rows.len(),
{
    if at > 0 {
        assert(!is_this_machine(rows[0]));
        assert forall|i: int| 0 <= i < at - 1 implies !is_this_machine(
            #[trigger] rows.skip(1)[i],
        ) by {
            assert(rows.skip(1)[i] == rows[i + 1]);
        }
        lemma_self_position(rows.skip(1), at - 1);
    }
}

pub open spec fn optional_precedes(a: Option<Seq<char>>, b: Option<Seq<char>>) -> bool {
    match (a, b) {
        (None, Some(_)) => true,
        (Some(a), Some(b)) => precedes(a, b),
        _ => false,
    }
}

fn optional_earlier(a: &Option<String>, b: &Option<String>) -> (r: bool)
    ensures
        r == optional_precedes(said(*a), said(*b)),
{
    match (a, b) {
        (None, Some(_)) => true,
        (Some(a), Some(b)) => earlier(a.as_str(), b.as_str()),
        _ => false,
    }
}

fn optional_same(a: &Option<String>, b: &Option<String>) -> (r: bool)
    ensures
        r == (said(*a) == said(*b)),
{
    match (a, b) {
        (None, None) => true,
        (Some(a), Some(b)) => same(a.as_str(), b.as_str()),
        _ => false,
    }
}

/// One operation is older than another: by its update, then its creation, then its name.
pub open spec fn older(a: OperationSummary, b: OperationSummary) -> bool {
    ||| optional_precedes(said(a.updated_at), said(b.updated_at))
    ||| said(a.updated_at) == said(b.updated_at) && optional_precedes(
        said(a.created_at),
        said(b.created_at),
    )
    ||| said(a.updated_at) == said(b.updated_at) && said(a.created_at) == said(b.created_at)
        && precedes(a.operation@, b.operation@)
}

fn is_older(a: &OperationSummary, b: &OperationSummary) -> (r: bool)
    ensures
        r == older(*a, *b),
{
    optional_earlier(&a.updated_at, &b.updated_at) || (optional_same(&a.updated_at, &b.updated_at)
        && (optional_earlier(&a.created_at, &b.created_at) || (optional_same(
        &a.created_at,
        &b.created_at,
    ) && earlier(a.operation.as_str(), b.operation.as_str()))))
}

/// The operation has a name and a target that is the row's device.
pub open spec fn is_about(operation: OperationSummary, row: DeviceRow) -> bool {
    operation.operation@.len() > 0 && operation.target is Some && operation.target->0.matches_row(
        row,
    )
}

/// The newest operation about a row. Of two that are equally new the later in the list wins.
pub open spec fn latest(operations: Seq<OperationSummary>, row: DeviceRow) -> Option<
    OperationSummary,
>
    decreases operations.len(),
{
    if operations.len() == 0 {
        None
    } else {
        let best = latest(operations.drop_last(), row);
        let last = operations.last();
        if !is_about(last, row) {
            best
        } else {
            match best {
                None => Some(last),
                Some(held) => if older(last, held) {
                    best
                } else {
                    Some(last)
                },
            }
        }
    }
}

pub(crate) fn latest_operation_for<'a>(inventory: &'a Inventory, row: &DeviceRow) -> (r: Option<
    &'a OperationSummary,
>)
    ensures
        match r {
            Some(operation) => latest(inventory.operations@, *row) == Some(*operation),
            None => latest(inventory.operations@, *row) is None,
        },
{
    let operations = &inventory.operations;
    let mut best: Option<&'a OperationSummary> = None;
    let mut i: usize = 0;
    while i < operations.len()
        invariant
            i <= operations@.len(),
            match best {
                Some(operation) => latest(operations@.take(i as int), *row) == Some(*operation),
                None => latest(operations@.take(i as int), *row) is None,
            },
        decreases operations@.len() - i,
    {
        let candidate = &operations[i];
        assert(operations@.take(i + 1).drop_last() =~= operations@.take(i as int));
        let about = match &candidate.target {
            Some(target) => !candidate.operation.as_str().is_empty() && target.is(row),
            None => false,
        };
        if about {
            best =
            match best {
                Some(held) => if is_older(candidate, held) {
                    Some(held)
                } else {
                    Some(candidate)
                },
                None => Some(candidate),
            };
        }
        i += 1;
    }
    assert(operations@.take(i as int) =~= operations@);
    best
}

impl Inventory {
    pub open spec fn reads(&self, value: JsonView) -> bool {
        &&& match value.member("host"@) {
            Some(host) => self.host.reads(host),
            None => self.host.is_empty(),
        }
        &&& said(self.fleet_name) == match short(value, "fleet_name"@) {
            Some(name) => Some(name),
            None => field(member_of(value.member("fleet"@), "name"@), FIELD_COLUMNS as nat),
        }
        &&& match value.member("discovery"@) {
            Some(discovery) => self.discovery.reads(discovery),
            None => self.discovery.is_empty(),
        }
        &&& self.devices@.len() == list_or_empty(value.member("devices"@)).len()
        &&& forall|i: int|
            0 <= i < self.devices@.len() ==> (#[trigger] self.devices@[i]).reads(
                list_or_empty(value.member("devices"@))[i],
            )
        &&& self.operations@.len() == list_or_empty(value.member("operations"@)).len()
        &&& forall|i: int|
            0 <= i < self.operations@.len() ==> (#[trigger] self.operations@[i]).reads(
                list_or_empty(value.member("operations"@))[i],
            )
        &&& texts(self.unknown@) == fields(list_or_empty(value.member("unknown"@)))
    }

    /// Reads a reply. Nothing in it is required: a part that is missing or has another shape is
    /// read as empty, and keys this build does not know are not looked at.
    pub fn decode(value: &Json) -> (r: Inventory)
        ensures
            r.reads(value@),
    {
        let host = match value.get("host") {
            Some(host) => DeploymentHost::decode(host),
            None => DeploymentHost::default(),
        };
        let discovery = match value.get("discovery") {
            Some(discovery) => Discovery::decode(discovery),
            None => Discovery::default(),
        };
        let fleet_name = match text(value.get("fleet_name")) {
            Some(name) => Some(name),
            None => text(get_in(value.get("fleet"), "name")),
        };
        let mut devices: Vec<DeviceRow> = Vec::new();
        if let Some(Json::List(items)) = value.get("devices") {
            proof {
                crate::json::lemma_list_view(items@);
            }
            let ghost whole = items_view(items@);
            let mut i: usize = 0;
            while i < items.len()
                invariant
                    i <= items@.len(),
                    whole == items_view(items@),
                    devices@.len() == i,
                    forall|k: int| 0 <= k < i ==> (#[trigger] devices@[k]).reads(whole[k]),
                decreases items@.len() - i,
            {
                devices.push(DeviceRow::decode(&items[i]));
                i += 1;
            }
        }
        let mut operations: Vec<OperationSummary> = Vec::new();
        if let Some(Json::List(items)) = value.get("operations") {
            proof {
                crate::json::lemma_list_view(items@);
            }
            let ghost whole = items_view(items@);
            let mut i: usize = 0;
            while i < items.len()
                invariant
                    i <= items@.len(),
                    whole == items_view(items@),
                    operations@.len() == i,
                    forall|k: int| 0 <= k < i ==> (#[trigger] operations@[k]).reads(whole[k]),
                decreases items@.len() - i,
            {
                operations.push(OperationSummary::decode(&items[i]));
                i += 1;
            }
        }
        let unknown = text_list(value.get("unknown"));
        Inventory { host, discovery, devices, operations, fleet_name, unknown }
    }

    pub open spec fn is_standalone(&self) -> bool {
        exists|i: int|
            0 <= i < self.devices@.len() && (#[trigger] self.devices@[i]).known_state() == Some(
                DeviceState::ThisDeviceWithoutProfile,
            )
    }

    /// Whether this machine has no fleet profile at all.
    pub fn standalone(&self) -> (r: bool)
        ensures
            r == self.is_standalone(),
    {
        let mut i: usize = 0;
        while i < self.devices.len()
            invariant
                i <= self.devices@.len(),
                forall|k: int|
                    0 <= k < i ==> (#[trigger] self.devices@[k]).known_state() != Some(
                        DeviceState::ThisDeviceWithoutProfile,
                    ),
            decreases self.devices@.len() - i,
        {
            if let Some(DeviceState::ThisDeviceWithoutProfile) = self.devices[i].parsed_state() {
                assert(self.devices@[i as int].known_state() == Some(
                    DeviceState::ThisDeviceWithoutProfile,
                ));
                return true;
            }
            i += 1;
        }
        false
    }

    /// Whether this row is the machine the runtime is on.
    pub fn is_self(&self, row: &DeviceRow) -> (r: bool)
        ensures
            r == is_this_machine(*row),
    {
        matches!(
            row.parsed_state(),
            Some(DeviceState::ThisDevice) | Some(DeviceState::ThisDeviceWithoutProfile)
        )
    }

    /// The rows in the order the list draws them: this machine first, then the fleet's machines,
    /// then everything discovery found.
    pub fn ordered(&self) -> (r: Vec<&DeviceRow>)
        ensures
            behind(r@) == in_order(self.devices@),
    {
        let mut out: Vec<&DeviceRow> = Vec::new();
        let ghost rows = self.devices@;
        let mut k: u8 = 0;
        while k < 3
            invariant
                k <= 3,
                rows == self.devices@,
                k == 0 ==> behind(out@) == Seq::<DeviceRow>::empty(),
                k == 1 ==> behind(out@) == of_rank(rows, 0),
                k == 2 ==> behind(out@) == of_rank(rows, 0) + of_rank(rows, 1),
                k == 3 ==> behind(out@) == in_order(rows),
            decreases 3 - k,
        {
            let ghost start = behind(out@);
            let mut i: usize = 0;
            assert(start + of_rank(rows.take(0), k as int) =~= start);
            while i < self.devices.len()
                invariant
                    i <= self.devices@.len(),
                    rows == self.devices@,
                    behind(out@) == start + of_rank(rows.take(i as int), k as int),
                decreases self.devices@.len() - i,
            {
                let row = &self.devices[i];
                let ghost before = out@;
                assert(rows.take(i + 1).drop_last() =~= rows.take(i as int));
                assert(rows.take(i + 1).last() == *row);
                if rank_of(row) == k {
                    out.push(row);
                    assert(behind(out@) =~= behind(before).push(*row));
                    assert(start + of_rank(rows.take(i as int), k as int).push(*row) =~= (start
                        + of_rank(rows.take(i as int), k as int)).push(*row));
                }
                i += 1;
            }
            assert(rows.take(i as int) =~= rows);
            assert(Seq::<DeviceRow>::empty() + of_rank(rows, 0) =~= of_rank(rows, 0));
            k += 1;
        }
        out
    }

    pub open spec fn label_words(&self, row: DeviceRow) -> Seq<char> {
        if is_this_machine(row) {
            self.host.noun()
        } else {
            drawn(row.name@, NAME_COLUMNS as nat)
        }
    }

    /// What this row is called on screen. The row of this machine takes the host's own noun.
    pub fn row_label(&self, row: &DeviceRow) -> (r: String)
        ensures
            r@ == self.label_words(*row),
    {
        if self.is_self(row) {
            self.host.self_label().to_owned()
        } else {
            scrub(row.name.as_str(), NAME_COLUMNS)
        }
    }

    pub open spec fn word_for(&self, row: DeviceRow) -> Seq<char> {
        match latest(self.operations@, row) {
            None => row.word(),
            Some(operation) => {
                let leaving = said(operation.kind) == Some("leave"@);
                match said(operation.state) {
                    None => row.word(),
                    Some(state) => if state == "failed"@ {
                        if leaving {
                            "removal failed"@
                        } else {
                            "setup failed"@
                        }
                    } else if state == "completed"@ {
                        if leaving {
                            "removed just now"@
                        } else {
                            "set up just now"@
                        }
                    } else if state == "cancelled"@ || state == "interrupted"@ {
                        row.word()
                    } else if leaving {
                        "removing\u{2026}"@
                    } else {
                        "setting up\u{2026}"@
                    },
                }
            },
        }
    }

    /// The Ouroboros column, with any operation on this row folded in. The operation's kind is
    /// half of what the column says: a removal is not announced as a setup.
    pub fn ouroboros_word(&self, row: &DeviceRow) -> (r: String)
        ensures
            r@ == self.word_for(*row),
    {
        match latest_operation_for(self, row) {
            None => row.ouroboros_word(),
            Some(operation) => {
                let leaving = is_text(&operation.kind, "leave");
                match as_deref(&operation.state) {
                    None => row.ouroboros_word(),
                    Some(state) => if same(state, "failed") {
                        if leaving {
                            "removal failed".to_owned()
                        } else {
                            "setup failed".to_owned()
                        }
                    } else if same(state, "completed") {
                        if leaving {
                            "removed just now".to_owned()
                        } else {
                            "set up just now".to_owned()
                        }
                    } else if same(state, "cancelled") || same(state, "interrupted") {
                        row.ouroboros_word()
                    } else if leaving {
                        "removing\u{2026}".to_owned()
                    } else {
                        "setting up\u{2026}".to_owned()
                    },
                }
            },
        }
    }

    pub open spec fn recipe_for(&self, row: DeviceRow) -> Option<Seq<char>> {
        match latest(self.operations@, row) {
            Some(operation) => if operation.is_underway() {
                None
            } else {
                row.recipe_words()
            },
            None => row.recipe_words(),
        }
    }

    /// The command on this row, with any operation already running on it folded in. A device
    /// that is mid-operation has nothing for a person to type; one whose operation stopped has
    /// its ordinary command.
    pub fn recipe(&self, row: &DeviceRow) -> (r: Recipe)
        ensures
            r.words_of() == self.recipe_for(*row),
    {
        match latest_operation_for(self, row) {
            Some(operation) => if operation.underway() {
                Recipe::Nothing
            } else {
                row.recipe()
            },
            None => row.recipe(),
        }
    }

    /// The fleet's machines.
    pub fn members(&self) -> (r: Vec<&DeviceRow>)
        ensures
            behind(r@) == fleet_rows(self.devices@),
    {
        let mut out: Vec<&DeviceRow> = Vec::new();
        let ghost rows = self.devices@;
        let mut i: usize = 0;
        assert(behind(out@) =~= fleet_rows(rows.take(0)));
        while i < self.devices.len()
            invariant
                i <= self.devices@.len(),
                rows == self.devices@,
                behind(out@) == fleet_rows(rows.take(i as int)),
            decreases self.devices@.len() - i,
        {
            let row = &self.devices[i];
            let ghost before = out@;
            assert(rows.take(i + 1).drop_last() =~= rows.take(i as int));
            if row.machine.is_some() {
                out.push(row);
                assert(behind(out@) =~= behind(before).push(*row));
            }
            i += 1;
        }
        assert(rows.take(i as int) =~= rows);
        out
    }

    pub open spec fn has_a_fleet(&self) -> bool {
        fleet_rows(self.devices@).len() > 0
    }

    /// Whether the status line is describing a fleet at all.
    pub fn describes_a_fleet(&self) -> (r: bool)
        ensures
            r == self.has_a_fleet(),
    {
        let members = self.members();
        assert(members@.len() == behind(members@).len());
        members.len() > 0
    }

    pub open spec fn fleet_label(&self) -> Seq<char> {
        match said(self.fleet_name) {
            Some(name) => drawn(name, 40),
            None => {
                let at = self_position(self.devices@);
                let machine = if at < self.devices@.len() {
                    or(said(self.devices@[at].machine), "this machine"@)
                } else {
                    "this machine"@
                };
                "Fleet of "@ + drawn(machine, NAME_COLUMNS as nat)
            },
        }
    }

    pub open spec fn status_words(&self) -> Seq<char> {
        let members = fleet_rows(self.devices@);
        if self.is_standalone() {
            self.host.noun() + " is not in a fleet yet"@
        } else if self.devices@.len() == 0 {
            "This runtime reported no devices."@
        } else if members.len() == 0 {
            match said(self.fleet_name) {
                Some(name) => drawn(name, 40)
                    + " \u{b7} this runtime listed none of its machines"@,
                None => "This runtime reported no fleet."@,
            }
        } else {
            self.fleet_label() + " \u{b7} "@ + decimal(connected_count(members)) + " of "@
                + decimal(members.len()) + (if members.len() == 1 {
                " machine connected"@
            } else {
                " machines connected"@
            })
        }
    }

    fn fleet_label_text(&self) -> (r: String)
        ensures
            r@ == self.fleet_label(),
    {
        if let Some(name) = as_deref(&self.fleet_name) {
            return scrub(name, 40);
        }
        let mut i: usize = 0;
        while i < self.devices.len()
            invariant
                i <= self.devices@.len(),
                self.fleet_name is None,
                forall|k: int| 0 <= k < i ==> !is_this_machine(#[trigger] self.devices@[k]),
            decreases self.devices@.len() - i,
        {
            if self.is_self(&self.devices[i]) {
                proof {
                    lemma_self_position(self.devices@, i as int);
                }
                let machine = match as_deref(&self.devices[i].machine) {
                    Some(machine) => machine,
                    None => "this machine",
                };
                return cat2("Fleet of ", scrub(machine, NAME_COLUMNS).as_str());
            }
            i += 1;
        }
        proof {
            lemma_self_position(self.devices@, i as int);
        }
        cat2("Fleet of ", scrub("this machine", NAME_COLUMNS).as_str())
    }

    /// The line above the list: either this machine has no fleet, or the fleet's name and how
    /// much of it is here, or, when the runtime reported neither, that.
    pub fn status_line(&self) -> (r: String)
        ensures
            r@ == self.status_words(),
    {
        if self.standalone() {
            return cat2(self.host.self_label(), " is not in a fleet yet");
        }
        if self.devices.len() == 0 {
            return "This runtime reported no devices.".to_owned();
        }
        let members = self.members();
        let ghost rows = behind(members@);
        assert(members@.len() == rows.len());
        let total: usize = members.len();
        if total == 0 {
            return match as_deref(&self.fleet_name) {
                Some(name) => cat2(
                    scrub(name, 40).as_str(),
                    " \u{b7} this runtime listed none of its machines",
                ),
                None => "This runtime reported no fleet.".to_owned(),
            };
        }
        let mut connected: usize = 0;
        let mut i: usize = 0;
        while i < members.len()
            invariant
                i <= members@.len(),
                rows == behind(members@),
                connected <= i,
                connected == connected_count(rows.take(i as int)),
            decreases members@.len() - i,
        {
            let row = members[i];
            assert(rows.take(i + 1).drop_last() =~= rows.take(i as int));
            assert(rows.take(i + 1).last() == *row);
            if matches!(row.connected, Some(true)) || same(
                row.state.as_str(),
                "fleet_member_connected",
            ) || matches!(row.parsed_state(), Some(DeviceState::ThisDevice)) {
                connected += 1;
            }
            i += 1;
        }
        assert(rows.take(i as int) =~= rows);
        let mut out = cat4(
            self.fleet_label_text().as_str(),
            " \u{b7} ",
            count(connected).as_str(),
            " of ",
        );
        out.append(count(total).as_str());
        out.append(
            if total == 1 {
                " machine connected"
            } else {
                " machines connected"
            },
        );
        out
    }
}

/// A device that is being worked on offers no command.
pub proof fn lemma_no_command_while_underway(inventory: Inventory, row: DeviceRow)
    requires
        latest(inventory.operations@, row) is Some,
        latest(inventory.operations@, row)->0.is_underway(),
    ensures
        inventory.recipe_for(row) is None,
        inventory.word_for(row) == "removing\u{2026}"@ || inventory.word_for(row)
            == "setting up\u{2026}"@,
{
}

proof fn lemma_of_rank(rows: Seq<DeviceRow>, k: int)
    ensures
        forall|i: int|
            0 <= i < of_rank(rows, k).len() ==> rank(#[trigger] of_rank(rows, k)[i]) == k,
    decreases rows.len(),
{
    if rows.len() > 0 {
        let rest = of_rank(rows.drop_last(), k);
        lemma_of_rank(rows.drop_last(), k);
        assert forall|i: int| 0 <= i < of_rank(rows, k).len() implies rank(
            #[trigger] of_rank(rows, k)[i],
        ) == k by {
            if i < rest.len() {
                assert(of_rank(rows, k)[i] == rest[i]);
            }
        }
    }
}

proof fn lemma_ranks_partition(rows: Seq<DeviceRow>)
    ensures
        of_rank(rows, 0).to_multiset().add(of_rank(rows, 1).to_multiset()).add(
            of_rank(rows, 2).to_multiset(),
        ) == rows.to_multiset(),
    decreases rows.len(),
{
    broadcast use vstd::seq_lib::group_to_multiset_ensures;

    if rows.len() > 0 {
        lemma_ranks_partition(rows.drop_last());
        assert(rows =~= rows.drop_last().push(rows.last()));
        let a = of_rank(rows.drop_last(), 0).to_multiset();
        let b = of_rank(rows.drop_last(), 1).to_multiset();
        let c = of_rank(rows.drop_last(), 2).to_multiset();
        assert(of_rank(rows, 0).to_multiset().add(of_rank(rows, 1).to_multiset()).add(
            of_rank(rows, 2).to_multiset(),
        ) =~= a.add(b).add(c).insert(rows.last()));
    } else {
        assert(of_rank(rows, 0).to_multiset().add(of_rank(rows, 1).to_multiset()).add(
            of_rank(rows, 2).to_multiset(),
        ) =~= rows.to_multiset());
    }
}

/// The list draws every row once, with this machine ahead of every machine of the fleet and
/// those ahead of every other device.
pub proof fn lemma_the_list_is_ordered(rows: Seq<DeviceRow>)
    ensures
        in_order(rows).to_multiset() == rows.to_multiset(),
        forall|i: int, j: int|
            0 <= i < j < in_order(rows).len() ==> rank(#[trigger] in_order(rows)[i]) <= rank(
                #[trigger] in_order(rows)[j],
            ),
{
    let a = of_rank(rows, 0);
    let b = of_rank(rows, 1);
    let c = of_rank(rows, 2);
    lemma_of_rank(rows, 0);
    lemma_of_rank(rows, 1);
    lemma_of_rank(rows, 2);
    lemma_ranks_partition(rows);
    vstd::seq_lib::lemma_multiset_commutative(a, b);
    vstd::seq_lib::lemma_multiset_commutative(a + b, c);
    assert forall|i: int, j: int| 0 <= i < j < in_order(rows).len() implies rank(
        #[trigger] in_order(rows)[i],
    ) <= rank(#[trigger] in_order(rows)[j]) by {
        let whole = in_order(rows);
        if j < a.len() {
            assert(whole[i] == a[i] && whole[j] == a[j]);
        } else if j < a.len() + b.len() {
            assert(whole[j] == b[j - a.len()]);
            if i < a.len() {
                assert(whole[i] == a[i]);
            } else {
                assert(whole[i] == b[i - a.len()]);
            }
        } else {
            assert(whole[j] == c[j - a.len() - b.len()]);
            if i < a.len() {
                assert(whole[i] == a[i]);
            } else if i < a.len() + b.len() {
                assert(whole[i] == b[i - a.len()]);
            } else {
                assert(whole[i] == c[i - a.len() - b.len()]);
            }
        }
    }
}

/// A reply that names no machine of a fleet is never answered with a count of one.
pub proof fn lemma_no_fleet_is_not_counted(inventory: Inventory)
    requires
        !inventory.has_a_fleet(),
        !inventory.is_standalone(),
    ensures
        inventory.status_words() == "This runtime reported no devices."@
            || inventory.status_words() == "This runtime reported no fleet."@ || (
        inventory.fleet_name is Some && inventory.status_words() == drawn(
            inventory.fleet_name->0@,
            40,
        ) + " \u{b7} this runtime listed none of its machines"@),
{
}

// ----- the membership subset --------------------------------------------------------

/// What a listener without the administrator's read sees instead.
#[derive(Debug, Clone, PartialEq, Eq)]
pub struct FleetSubset {
    pub fleet_name: Option<String>,
    pub machines: Vec<(String, String)>,
}

impl FleetSubset {
    pub open spec fn reads(&self, value: JsonView) -> bool {
        let items = list_or_empty(value.member("machines"@));
        &&& said(self.fleet_name) == short(value, "fleet_name"@)
        &&& self.machines@.len() == items.len()
        &&& forall|i: int|
            0 <= i < items.len() ==> {
                &&& (#[trigger] self.machines@[i]).0@ == or(short(items[i], "machine"@), "unnamed"@)
                &&& self.machines@[i].1@ == or(short(items[i], "state"@), "unknown"@)
            }
    }

    pub fn decode(value: &Json) -> (r: FleetSubset)
        ensures
            r.reads(value@),
    {
        let mut machines: Vec<(String, String)> = Vec::new();
        if let Some(Json::List(items)) = value.get("machines") {
            proof {
                crate::json::lemma_list_view(items@);
            }
            let ghost whole = items_view(items@);
            let mut i: usize = 0;
            while i < items.len()
                invariant
                    i <= items@.len(),
                    whole == items_view(items@),
                    machines@.len() == i,
                    forall|k: int|
                        0 <= k < i ==> {
                            &&& (#[trigger] machines@[k]).0@ == or(
                                short(whole[k], "machine"@),
                                "unnamed"@,
                            )
                            &&& machines@[k].1@ == or(short(whole[k], "state"@), "unknown"@)
                        },
                decreases items@.len() - i,
            {
                machines.push(
                    (
                        unwrap_or(text(items[i].get("machine")), "unnamed"),
                        unwrap_or(text(items[i].get("state")), "unknown"),
                    ),
                );
                i += 1;
            }
        }
        FleetSubset { fleet_name: text(value.get("fleet_name")), machines }
    }
}

// ----- view state -------------------------------------------------------------------

/// Which rows the list shows.
#[derive(Debug, Clone, Copy, PartialEq, Eq, Structural)]
pub enum Filter {
    All,
    Fleet,
    Available,
}

impl Default for Filter {
    fn default() -> (r: Filter)
        ensures
            r == Filter::All,
    {
        Filter::All
    }
}

pub open spec fn filter_words(filter: Filter) -> Seq<char> {
    match filter {
        Filter::All => "all"@,
        Filter::Fleet => "fleet"@,
        Filter::Available => "available"@,
    }
}

pub open spec fn filter_after(filter: Filter) -> Filter {
    match filter {
        Filter::All => Filter::Fleet,
        Filter::Fleet => Filter::Available,
        Filter::Available => Filter::All,
    }
}

impl Filter {
    pub fn label(self) -> (r: &'static str)
        ensures
            r@ == filter_words(self),
    {
        match self {
            Filter::All => "all",
            Filter::Fleet => "fleet",
            Filter::Available => "available",
        }
    }

    pub fn next(self) -> (r: Filter)
        ensures
            r == filter_after(self),
    {
        match self {
            Filter::All => Filter::Fleet,
            Filter::Fleet => Filter::Available,
            Filter::Available => Filter::All,
        }
    }
}

/// Three steps bring a filter back, and no fewer.
pub proof fn lemma_filters_cycle(filter: Filter)
    ensures
        filter_after(filter) != filter,
        filter_after(filter_after(filter)) != filter,
        filter_after(filter_after(filter_after(filter))) == filter,
{
}

/// Why the inventory is not on the screen.
#[derive(Debug, Clone, PartialEq, Eq)]
pub enum Refusal {
    /// The gateway does not list the method.
    CapabilityAbsent,
    /// The method is served and refused: it is a read-scope method, so this is the rule about
    /// who may ask.
    NotAdministrator,
    /// Anything else the gateway said.
    Other(String),
}

impl Refusal {
    pub open spec fn words(&self) -> Seq<char> {
        match *self {
            Refusal::CapabilityAbsent => "This runtime does not serve fleet.devices, so it has no device inventory to show. The machines below are its fleet membership, from fleet.status."@,
            Refusal::NotAdministrator => "Reading every machine on this network is an administrator's read, and this identity is not an administrator. The machines below are its fleet membership, from fleet.status."@,
            Refusal::Other(message) => "The runtime refused the inventory: "@ + message@,
        }
    }

    /// Why the inventory is unavailable, distinguishing an absent capability from a denied
    /// permission.
    pub fn sentence(&self) -> (r: String)
        ensures
            r@ == self.words(),
    {
        match self {
            Refusal::CapabilityAbsent => "This runtime does not serve fleet.devices, so it has no device inventory to show. The machines below are its fleet membership, from fleet.status.".to_owned(),
            Refusal::NotAdministrator => "Reading every machine on this network is an administrator's read, and this identity is not an administrator. The machines below are its fleet membership, from fleet.status.".to_owned(),
            Refusal::Other(message) => cat2("The runtime refused the inventory: ", message.as_str()),
        }
    }
}

/// The stable reason a refusal carries, where it carries one.
pub open spec fn reason_given(error: ClientError) -> Option<Seq<char>> {
    match error {
        ClientError::Rpc(rpc) => match rpc.data {
            Some(data) => field(data@.member("reason"@), FIELD_COLUMNS as nat),
            None => None,
        },
        _ => None,
    }
}

fn refusal_reason(error: &ClientError) -> (r: Option<String>)
    ensures
        said(r) == reason_given(*error),
{
    match error {
        ClientError::Rpc(rpc) => match &rpc.data {
            Some(data) => text(data.get("reason")),
            None => None,
        },
        _ => None,
    }
}

/// The inventory is a read, so the scope gate passes it: a denied scope is the rule about who may
/// ask. Anything that is not one of the three refusals a reader can act on is said in the
/// gateway's own words, made safe to draw.
pub open spec fn refuses(error: ClientError, refusal: Refusal) -> bool {
    match error.code_of() {
        Some(ErrorCode::MethodNotFound) => refusal is CapabilityAbsent,
        Some(ErrorCode::ScopeDenied) => refusal is NotAdministrator,
        Some(ErrorCode::UpstreamTimeout) => refusal matches Refusal::Other(words) && words@
            == "the inventory outlived the gateway's ceiling. The network client did not stop working; press r to ask again."@,
        Some(_) => refusal matches Refusal::Other(words) && words@ == drawn(
            match reason_given(error) {
                Some(reason) => reason_text(reason),
                None => error.words(),
            },
            MESSAGE_COLUMNS as nat,
        ),
        None => refusal matches Refusal::Other(words) && words@ == drawn(
            error.words(),
            MESSAGE_COLUMNS as nat,
        ),
    }
}

/// Why the inventory is not here, from what the gateway answered.
pub fn devices_refusal(error: &ClientError) -> (r: Refusal)
    ensures
        refuses(*error, r),
{
    match error {
        ClientError::Rpc(rpc) => match rpc.code {
            ErrorCode::MethodNotFound => Refusal::CapabilityAbsent,
            ErrorCode::ScopeDenied => Refusal::NotAdministrator,
            ErrorCode::UpstreamTimeout => Refusal::Other(
                "the inventory outlived the gateway's ceiling. The network client did not stop working; press r to ask again.".to_owned(),
            ),
            _ => match refusal_reason(error) {
                Some(reason) => {
                    let sentence = reason_sentence(reason.as_str());
                    Refusal::Other(clean(sentence.as_str()))
                },
                None => Refusal::Other(clean(rpc.message.as_str())),
            },
        },
        other => {
            let words = other.message();
            Refusal::Other(clean(words.as_str()))
        },
    }
}

/// The devices view's whole state.
#[derive(Debug)]
pub struct DevicesState {
    pub inventory: Loadable<Inventory>,
    pub fallback: Loadable<FleetSubset>,
    pub refusal: Option<Refusal>,
    pub filter: Filter,
    pub query: String,
    /// Whether the search field is open for typing.
    pub searching: bool,
    pub cursor: usize,
    pub scroll: usize,
    /// Manual paging leaves the selection alone.
    pub inventory_paging: bool,
    /// Whether the details pane of the row under the cursor is open.
    pub details: bool,
}

impl Default for DevicesState {
    fn default() -> (r: DevicesState)
        ensures
            r.is_fresh(),
    {
        DevicesState {
            inventory: Loadable::default(),
            fallback: Loadable::default(),
            refusal: None,
            filter: Filter::All,
            query: String::new(),
            searching: false,
            cursor: 0,
            scroll: 0,
            inventory_paging: false,
            details: false,
        }
    }
}

pub open spec fn passes_filter(row: DeviceRow, filter: Filter) -> bool {
    match filter {
        Filter::All => true,
        Filter::Fleet => row.belongs(),
        Filter::Available => !row.belongs(),
    }
}

/// The row's name or address holds the query, without regard to case.
pub open spec fn passes_query(row: DeviceRow, query: Seq<char>) -> bool {
    let needle = lowered(trimmed(query));
    ||| needle.len() == 0
    ||| occurs(lowered(row.name@), needle)
    ||| row.address is Some && occurs(lowered(row.address->0@), needle)
}

/// The rows that a filter and a query leave, in order.
pub open spec fn narrowed(rows: Seq<DeviceRow>, filter: Filter, query: Seq<char>) -> Seq<DeviceRow>
    decreases rows.len(),
{
    if rows.len() == 0 {
        rows
    } else {
        let rest = narrowed(rows.drop_last(), filter, query);
        if passes_filter(rows.last(), filter) && passes_query(rows.last(), query) {
            rest.push(rows.last())
        } else {
            rest
        }
    }
}

impl DevicesState {
    /// The view before anything was asked for.
    pub open spec fn is_fresh(&self) -> bool {
        &&& self.inventory == Loadable::<Inventory>::blank()
        &&& self.fallback == Loadable::<FleetSubset>::blank()
        &&& self.refusal is None
        &&& self.filter == Filter::All
        &&& self.query@.len() == 0
        &&& !self.searching
        &&& self.cursor == 0
        &&& self.scroll == 0
        &&& !self.inventory_paging
        &&& !self.details
    }

    /// The rows the list draws: all of them while the list is short, and past that what the
    /// filter and the query leave.
    pub open spec fn shown_rows(&self, inventory: Inventory) -> Seq<DeviceRow> {
        if inventory.devices@.len() > NARROWING_ROWS {
            narrowed(in_order(inventory.devices@), self.filter, self.query@)
        } else {
            in_order(inventory.devices@)
        }
    }

    pub fn visible<'a>(&self, inventory: &'a Inventory) -> (r: Vec<&'a DeviceRow>)
        ensures
            behind(r@) == self.shown_rows(*inventory),
    {
        let ordered = inventory.ordered();
        if !self.narrowing(inventory) {
            return ordered;
        }
        let query = lower(trim(self.query.as_str()).as_str());
        let ghost rows = behind(ordered@);
        let mut out: Vec<&'a DeviceRow> = Vec::new();
        let mut i: usize = 0;
        assert(behind(out@) =~= narrowed(rows.take(0), self.filter, self.query@));
        while i < ordered.len()
            invariant
                i <= ordered@.len(),
                rows == behind(ordered@),
                query@ == lowered(trimmed(self.query@)),
                behind(out@) == narrowed(rows.take(i as int), self.filter, self.query@),
            decreases ordered@.len() - i,
        {
            let row = ordered[i];
            let ghost before = out@;
            assert(rows.take(i + 1).drop_last() =~= rows.take(i as int));
            assert(rows.take(i + 1).last() == *row);
            let passes = match self.filter {
                Filter::All => true,
                Filter::Fleet => row.in_fleet(),
                Filter::Available => !row.in_fleet(),
            };
            let found = query.as_str().is_empty() || contains(
                lower(row.name.as_str()).as_str(),
                query.as_str(),
            ) || match &row.address {
                Some(address) => contains(lower(address.as_str()).as_str(), query.as_str()),
                None => false,
            };
            if passes && found {
                out.push(row);
                assert(behind(out@) =~= behind(before).push(*row));
            }
            i += 1;
        }
        assert(rows.take(i as int) =~= rows);
        out
    }

    /// Whether this list is long enough to be worth narrowing.
    pub fn narrowing(&self, inventory: &Inventory) -> (r: bool)
        ensures
            r == (inventory.devices@.len() > NARROWING_ROWS),
    {
        inventory.devices.len() > NARROWING_ROWS
    }

    pub open spec fn selected_row(&self, inventory: Inventory) -> Option<DeviceRow> {
        let rows = self.shown_rows(inventory);
        if self.cursor < rows.len() {
            Some(rows[self.cursor as int])
        } else {
            None
        }
    }

    /// The row under the cursor.
    pub fn selected<'a>(&self, inventory: &'a Inventory) -> (r: Option<&'a DeviceRow>)
        ensures
            match r {
                Some(row) => self.selected_row(*inventory) == Some(*row),
                None => self.selected_row(*inventory) is None,
            },
    {
        let rows = self.visible(inventory);
        assert(rows@.len() == behind(rows@).len());
        if self.cursor < rows.len() {
            assert(behind(rows@)[self.cursor as int] == *rows@[self.cursor as int]);
            Some(rows[self.cursor])
        } else {
            None
        }
    }
}

proof fn lemma_narrowed_members(rows: Seq<DeviceRow>, filter: Filter, query: Seq<char>)
    ensures
        narrowed(rows, filter, query).len() <= rows.len(),
        forall|i: int|
            0 <= i < narrowed(rows, filter, query).len() ==> {
                let row = #[trigger] narrowed(rows, filter, query)[i];
                rows.contains(row) && passes_filter(row, filter) && passes_query(row, query)
            },
        forall|i: int|
            0 <= i < rows.len() && passes_filter(#[trigger] rows[i], filter) && passes_query(
                rows[i],
                query,
            ) ==> narrowed(rows, filter, query).contains(rows[i]),
    decreases rows.len(),
{
    if rows.len() > 0 {
        let rest = narrowed(rows.drop_last(), filter, query);
        let whole = narrowed(rows, filter, query);
        lemma_narrowed_members(rows.drop_last(), filter, query);
        assert forall|i: int| 0 <= i < whole.len() implies {
            let row = #[trigger] whole[i];
            rows.contains(row) && passes_filter(row, filter) && passes_query(row, query)
        } by {
            if i < rest.len() {
                assert(whole[i] == rest[i]);
                let k = choose|k: int|
                    0 <= k < rows.drop_last().len() && rows.drop_last()[k] == rest[i];
                assert(rows[k] == rest[i]);
            } else {
                assert(rows[rows.len() - 1] == whole[i]);
            }
        }
        assert forall|i: int|
            0 <= i < rows.len() && passes_filter(#[trigger] rows[i], filter) && passes_query(
                rows[i],
                query,
            ) implies whole.contains(rows[i]) by {
            if i < rows.len() - 1 {
                assert(rows.drop_last()[i] == rows[i]);
                let k = choose|k: int| 0 <= k < rest.len() && rest[k] == rows[i];
                assert(whole[k] == rows[i]);
            } else {
                assert(whole[whole.len() - 1] == rows[i]);
            }
        }
    }
}

/// A list of up to eight rows is drawn whole, whatever filter and query were left in force; a
/// longer one draws exactly the rows that pass both.
pub proof fn lemma_what_the_list_draws(state: DevicesState, inventory: Inventory)
    ensures
        inventory.devices@.len() <= NARROWING_ROWS ==> state.shown_rows(inventory) == in_order(
            inventory.devices@,
        ),
        inventory.devices@.len() > NARROWING_ROWS ==> forall|row: DeviceRow|
            #![trigger state.shown_rows(inventory).contains(row)]
            state.shown_rows(inventory).contains(row) <==> in_order(inventory.devices@).contains(
                row,
            ) && passes_filter(row, state.filter) && passes_query(row, state.query@),
{
    lemma_narrowed_members(in_order(inventory.devices@), state.filter, state.query@);
}

} // verus!
