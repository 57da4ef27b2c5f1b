//! The machines of the fleet, as the client knows them now.

use vstd::prelude::*;

use crate::app::App;
use crate::cluster::{
    are_choices, fact_words, local_label, machine_choices, machine_fact_lines, machine_summary,
    machines_or_none, remotes, MachineChoice, MachineSummary, FACT_LINES,
};
use crate::text::{cat3, decimal, number, same};

verus! {

/// One line for the home: this is one machine, or how many are connected.
pub open spec fn hint_of(summary: MachineSummary) -> Seq<char> {
    if summary.mode@ == "Standalone"@ {
        "This is one machine. /machines adds your laptop and servers."@
    } else {
        "Fleet: "@ + decimal(summary.connected as nat)
            + " connected. /machines adds or repairs others."@
    }
}

impl App {
    /// What a person needs to know of the fleet: who should be here by this machine's own files,
    /// and who is by the runtime's status.
    pub fn machine_summary(&self) -> (r: MachineSummary)
        ensures
            r.summarises(self.status.value, self.fleet_profile, self.hello.node@),
    {
        machine_summary(
            self.status.value.as_ref(),
            self.fleet_profile.as_ref(),
            self.hello.node.as_str(),
        )
    }

    /// Where a new session can start right now. A machine that is expected and offline is not
    /// offered.
    pub fn machine_choices(&self) -> (r: Vec<MachineChoice>)
        ensures
            are_choices(
                r@,
                local_label(self.status.value, self.fleet_profile, self.hello.node@),
                match self.status.value {
                    Some(status) => remotes(status, self.fleet_profile),
                    None => Map::empty(),
                },
            ),
    {
        machine_choices(
            self.status.value.as_ref(),
            self.fleet_profile.as_ref(),
            self.hello.node.as_str(),
        )
    }

    /// A line for each of the first machines of the status; `facts` says of each what it offers.
    pub fn machine_fact_lines(&self, facts: &Vec<String>) -> (r: Vec<String>)
        ensures
            ({
                let machines = machines_or_none(self.status.value);
                &&& r@.len() <= FACT_LINES
                &&& r@.len() <= machines.len() && r@.len() <= facts@.len()
                &&& r@.len() == FACT_LINES || r@.len() == machines.len() || r@.len()
                    == facts@.len()
                &&& forall|i: int|
                    0 <= i < r@.len() ==> (#[trigger] r@[i])@ == fact_words(
                        machines[i],
                        facts@[i]@,
                    )
            }),
    {
        machine_fact_lines(self.status.value.as_ref(), facts)
    }

    pub fn machine_hint(&self) -> (r: String)
        ensures
            exists|summary: MachineSummary|
                #[trigger] summary.summarises(
                    self.status.value,
                    self.fleet_profile,
                    self.hello.node@,
                ) && r@ == hint_of(summary),
    {
        let summary = self.machine_summary();
        if same(summary.mode.as_str(), "Standalone") {
            "This is one machine. /machines adds your laptop and servers.".to_owned()
        } else {
            cat3(
                "Fleet: ",
                number(summary.connected).as_str(),
                " connected. /machines adds or repairs others.",
            )
        }
    }
}

} // verus!
