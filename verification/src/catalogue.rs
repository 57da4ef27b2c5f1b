//! The one table of snake_case codes that the devices view turns into sentences: reasons a read
//! was refused or a deployment stopped, what a runtime says it cannot do, and the states of a
//! deployment.

use vstd::prelude::*;

use crate::text::{cat2, cat3, occurs, occurs_at, replace, replaced, same};

verus! {

/// Reason codes that have a sentence of their own.
pub const REASON_CODES: [&'static str; 13] = [
    "host_key_changed",
    "version_mismatch",
    "fleet_present",
    "already_installed",
    "challenge_expired",
    "worker_unavailable",
    "worker_unreachable",
    "worker_timeout",
    "unknown_operation",
    "devices_busy",
    "no_data_dir",
    "ouro_path_unknown",
    "journal_unreadable",
];

/// What a runtime says it cannot do, and why.
pub const BLOCKER_CODES: [&'static str; 4] = [
    "ouro_path_unknown",
    "no_data_dir",
    "cleartext_web_bind",
    "dev_runtime",
];

/// The states a deployment's journal records.
pub const OPERATION_STATES: [&'static str; 12] = [
    "spawning",
    "inspecting",
    "awaiting_host_trust",
    "awaiting_auth",
    "awaiting_review",
    "deploying",
    "restarting_host",
    "checking_readiness",
    "completed",
    "interrupted",
    "failed",
    "cancelled",
];

/// The code is one of a list.
pub open spec fn listed(codes: Seq<&'static str>, code: Seq<char>) -> bool {
    exists|i: int| 0 <= i < codes.len() && (#[trigger] codes[i])@ == code
}

fn find(codes: &[&'static str], code: &str) -> (r: bool)
    ensures
        r == listed(codes@, code@),
{
    let mut i: usize = 0;
    while i < codes.len()
        invariant
            i <= codes@.len(),
            forall|k: int| 0 <= k < i ==> (#[trigger] codes@[k])@ != code@,
        decreases codes@.len() - i,
    {
        if same(codes[i], code) {
            assert(codes@[i as int]@ == code@);
            return true;
        }
        i += 1;
    }
    false
}

/// A reason as a sentence. A code without one is named in its own words, with spaces for its
/// underscores, so that a refusal from a newer runtime stays legible.
pub open spec fn reason_text(code: Seq<char>) -> Seq<char> {
    if code == "host_key_changed"@ {
        "this host's key has changed. That blocks the deployment and needs a separate, verified repair; it is never accepted here."@
    } else if code == "version_mismatch"@ {
        "that machine runs a different Ouroboros from this one, and nothing was replaced. Upgrade one of them to match."@
    } else if code == "fleet_present"@ {
        "that machine already belongs to a different fleet."@
    } else if code == "already_installed"@ {
        "that machine is already in this fleet under this name, so nothing was rewritten."@
    } else if code == "challenge_expired"@ {
        "a question the deployment asked went unanswered for five minutes, so the operation stopped."@
    } else if code == "worker_unavailable"@ {
        "the deployment worker is no longer reachable from this runtime."@
    } else if code == "worker_unreachable"@ {
        "the deployment worker is no longer reachable from this runtime."@
    } else if code == "worker_timeout"@ {
        "the deployment worker did not answer in time."@
    } else if code == "unknown_operation"@ {
        "this runtime has no operation with that id."@
    } else if code == "devices_busy"@ {
        "this runtime is already running as many device inventories as it allows. Try again in a moment."@
    } else if code == "no_data_dir"@ {
        "this runtime serves no durable data directory, so it holds no deployments."@
    } else if code == "ouro_path_unknown"@ {
        "this runtime does not know where its own ouro executable is, so it cannot run a deployment."@
    } else if code == "journal_unreadable"@ {
        "this operation's record on the deployment host could not be read."@
    } else {
        "the runtime named the reason "@ + replaced(code, '_', ' ') + "."@
    }
}

pub fn reason_sentence(code: &str) -> (r: String)
    ensures
        r@ == reason_text(code@),
        listed(REASON_CODES@, code@) ==> r@.len() > 12 && !occurs(r@, code@),
        !listed(REASON_CODES@, code@) ==> r@ == named_reason(code@),
{
    proof {
        lemma_each_reason_is_a_sentence(code@);
    }
    if same(code, "host_key_changed") {
        "this host's key has changed. That blocks the deployment and needs a separate, verified repair; it is never accepted here.".to_owned()
    } else if same(code, "version_mismatch") {
        "that machine runs a different Ouroboros from this one, and nothing was replaced. Upgrade one of them to match.".to_owned()
    } else if same(code, "fleet_present") {
        "that machine already belongs to a different fleet.".to_owned()
    } else if same(code, "already_installed") {
        "that machine is already in this fleet under this name, so nothing was rewritten.".to_owned()
    } else if same(code, "challenge_expired") {
        "a question the deployment asked went unanswered for five minutes, so the operation stopped.".to_owned()
    } else if same(code, "worker_unavailable") {
        "the deployment worker is no longer reachable from this runtime.".to_owned()
    } else if same(code, "worker_unreachable") {
        "the deployment worker is no longer reachable from this runtime.".to_owned()
    } else if same(code, "worker_timeout") {
        "the deployment worker did not answer in time.".to_owned()
    } else if same(code, "unknown_operation") {
        "this runtime has no operation with that id.".to_owned()
    } else if same(code, "devices_busy") {
        "this runtime is already running as many device inventories as it allows. Try again in a moment.".to_owned()
    } else if same(code, "no_data_dir") {
        "this runtime serves no durable data directory, so it holds no deployments.".to_owned()
    } else if same(code, "ouro_path_unknown") {
        "this runtime does not know where its own ouro executable is, so it cannot run a deployment.".to_owned()
    } else if same(code, "journal_unreadable") {
        "this operation's record on the deployment host could not be read.".to_owned()
    } else {
        cat3("the runtime named the reason ", replace(code, '_', ' ').as_str(), ".")
    }
}

/// A blocker as a sentence.
pub open spec fn blocker_text(code: Seq<char>) -> Seq<char> {
    if code == "ouro_path_unknown"@ {
        "This runtime cannot say where its own ouro executable is, so it has nothing to hand a deployment worker."@
    } else if code == "no_data_dir"@ {
        "This runtime serves no durable data directory, so a deployment would have nowhere to keep its journal."@
    } else if code == "cleartext_web_bind"@ {
        "This runtime publishes its web endpoint on a non-loopback address with no TLS, so credential entry is refused on this deployment host."@
    } else if code == "dev_runtime"@ {
        "This is a development runtime; the packaged ouro is what sets a machine up."@
    } else {
        "This runtime reports the blocker "@ + replaced(code, '_', ' ') + "."@
    }
}

pub fn blocker_sentence(code: &str) -> (r: String)
    ensures
        r@ == blocker_text(code@),
        listed(BLOCKER_CODES@, code@) ==> !occurs(r@, code@) && r@ != named_blocker(code@),
        !listed(BLOCKER_CODES@, code@) ==> r@ == named_blocker(code@),
{
    proof {
        lemma_each_blocker_is_explained(code@);
    }
    if same(code, "ouro_path_unknown") {
        "This runtime cannot say where its own ouro executable is, so it has nothing to hand a deployment worker.".to_owned()
    } else if same(code, "no_data_dir") {
        "This runtime serves no durable data directory, so a deployment would have nowhere to keep its journal.".to_owned()
    } else if same(code, "cleartext_web_bind") {
        "This runtime publishes its web endpoint on a non-loopback address with no TLS, so credential entry is refused on this deployment host.".to_owned()
    } else if same(code, "dev_runtime") {
        "This is a development runtime; the packaged ouro is what sets a machine up.".to_owned()
    } else {
        cat3("This runtime reports the blocker ", replace(code, '_', ' ').as_str(), ".")
    }
}

/// A journal's state as a person reads it. A state this build does not know is named as itself.
pub open spec fn state_text(code: Seq<char>) -> Seq<char> {
    if code == "spawning"@ {
        "starting the deployment worker"@
    } else if code == "inspecting"@ {
        "inspecting the target"@
    } else if code == "awaiting_host_trust"@ {
        "waiting for somebody to verify the host key"@
    } else if code == "awaiting_auth"@ {
        "waiting for a credential"@
    } else if code == "awaiting_review"@ {
        "waiting for somebody to review the plan"@
    } else if code == "deploying"@ {
        "deploying"@
    } else if code == "restarting_host"@ {
        "restarting this runtime"@
    } else if code == "checking_readiness"@ {
        "checking readiness"@
    } else if code == "completed"@ {
        "completed"@
    } else if code == "interrupted"@ {
        "interrupted"@
    } else if code == "failed"@ {
        "failed"@
    } else if code == "cancelled"@ {
        "cancelled"@
    } else if code == ""@ {
        "state not reported"@
    } else {
        code + " (a state this client does not know)"@
    }
}

pub fn operation_state(code: &str) -> (r: String)
    ensures
        r@ == state_text(code@),
        listed(OPERATION_STATES@, code@) ==> !occurs(r@, unknown_mark()),
        !listed(OPERATION_STATES@, code@) && code@ != ""@ ==> r@ == code@
            + " (a state this client does not know)"@,
{
    proof {
        lemma_every_state_has_words(code@);
    }
    if same(code, "spawning") {
        "starting the deployment worker".to_owned()
    } else if same(code, "inspecting") {
        "inspecting the target".to_owned()
    } else if same(code, "awaiting_host_trust") {
        "waiting for somebody to verify the host key".to_owned()
    } else if same(code, "awaiting_auth") {
        "waiting for a credential".to_owned()
    } else if same(code, "awaiting_review") {
        "waiting for somebody to review the plan".to_owned()
    } else if same(code, "deploying") {
        "deploying".to_owned()
    } else if same(code, "restarting_host") {
        "restarting this runtime".to_owned()
    } else if same(code, "checking_readiness") {
        "checking readiness".to_owned()
    } else if same(code, "completed") {
        "completed".to_owned()
    } else if same(code, "interrupted") {
        "interrupted".to_owned()
    } else if same(code, "failed") {
        "failed".to_owned()
    } else if same(code, "cancelled") {
        "cancelled".to_owned()
    } else if same(code, "") {
        "state not reported".to_owned()
    } else {
        cat2(code, " (a state this client does not know)")
    }
}

pub fn reason_known(code: &str) -> (r: bool)
    ensures
        r == listed(REASON_CODES@, code@),
{
    find(&REASON_CODES, code)
}

pub fn blocker_known(code: &str) -> (r: bool)
    ensures
        r == listed(BLOCKER_CODES@, code@),
{
    find(&BLOCKER_CODES, code)
}

pub fn operation_state_known(code: &str) -> (r: bool)
    ensures
        r == listed(OPERATION_STATES@, code@),
{
    find(&OPERATION_STATES, code)
}

/// No character of the text is an underscore.
pub open spec fn has_no_underscore(s: Seq<char>) -> bool {
    forall|i: int| 0 <= i < s.len() ==> #[trigger] s[i] != '_'
}

proof fn lemma_replaced_has_no_underscore(s: Seq<char>)
    ensures
        has_no_underscore(replaced(s, '_', ' ')),
{
}

/// A reason is never shown as an identifier, whether or not this build knows the code.
pub proof fn lemma_a_reason_reads_as_words(code: Seq<char>)
    ensures
        has_no_underscore(reason_text(code)),
{
    lemma_replaced_has_no_underscore(code);
    reveal_strlit("this host's key has changed. That blocks the deployment and needs a separate, verified repair; it is never accepted here.");
    reveal_strlit("that machine runs a different Ouroboros from this one, and nothing was replaced. Upgrade one of them to match.");
    reveal_strlit("that machine already belongs to a different fleet.");
    reveal_strlit("that machine is already in this fleet under this name, so nothing was rewritten.");
    reveal_strlit("a question the deployment asked went unanswered for five minutes, so the operation stopped.");
    reveal_strlit("the deployment worker is no longer reachable from this runtime.");
    reveal_strlit("the deployment worker did not answer in time.");
    reveal_strlit("this runtime has no operation with that id.");
    reveal_strlit("this runtime is already running as many device inventories as it allows. Try again in a moment.");
    reveal_strlit("this runtime serves no durable data directory, so it holds no deployments.");
    reveal_strlit("this runtime does not know where its own ouro executable is, so it cannot run a deployment.");
    reveal_strlit("this operation's record on the deployment host could not be read.");
    reveal_strlit("the runtime named the reason ");
    reveal_strlit(".");
}

/// A blocker is never shown as an identifier, whether or not this build knows the code.
pub proof fn lemma_a_blocker_reads_as_words(code: Seq<char>)
    ensures
        has_no_underscore(blocker_text(code)),
{
    lemma_replaced_has_no_underscore(code);
    reveal_strlit("This runtime cannot say where its own ouro executable is, so it has nothing to hand a deployment worker.");
    reveal_strlit("This runtime serves no durable data directory, so a deployment would have nowhere to keep its journal.");
    reveal_strlit("This runtime publishes its web endpoint on a non-loopback address with no TLS, so credential entry is refused on this deployment host.");
    reveal_strlit("This is a development runtime; the packaged ouro is what sets a machine up.");
    reveal_strlit("This runtime reports the blocker ");
    reveal_strlit(".");
}

/// A code with an underscore in it is not part of its own sentence.
pub proof fn lemma_a_code_is_not_in_its_sentence(code: Seq<char>)
    requires
        !has_no_underscore(code),
    ensures
        !occurs(reason_text(code), code),
        !occurs(blocker_text(code), code),
{
    lemma_a_reason_reads_as_words(code);
    lemma_a_blocker_reads_as_words(code);
    let k = choose|k: int| 0 <= k < code.len() && code[k] == '_';
    assert forall|at: int| !occurs_at(reason_text(code), code, at) by {
        if occurs_at(reason_text(code), code, at) {
            assert(reason_text(code).subrange(at, at + code.len())[k] == reason_text(code)[at + k]);
        }
    }
    assert forall|at: int| !occurs_at(blocker_text(code), code, at) by {
        if occurs_at(blocker_text(code), code, at) {
            assert(blocker_text(code).subrange(at, at + code.len())[k] == blocker_text(
                code,
            )[at + k]);
        }
    }
}

/// What is said of a reason this build does not know.
pub open spec fn named_reason(code: Seq<char>) -> Seq<char> {
    "the runtime named the reason "@ + replaced(code, '_', ' ') + "."@
}

/// What is said of a blocker this build does not know.
pub open spec fn named_blocker(code: Seq<char>) -> Seq<char> {
    "This runtime reports the blocker "@ + replaced(code, '_', ' ') + "."@
}

proof fn lemma_reason_codes_have_underscores(code: Seq<char>)
    requires
        listed(REASON_CODES@, code),
    ensures
        !has_no_underscore(code),
{
    reveal_strlit("host_key_changed");
    reveal_strlit("version_mismatch");
    reveal_strlit("fleet_present");
    reveal_strlit("already_installed");
    reveal_strlit("challenge_expired");
    reveal_strlit("worker_unavailable");
    reveal_strlit("worker_unreachable");
    reveal_strlit("worker_timeout");
    reveal_strlit("unknown_operation");
    reveal_strlit("devices_busy");
    reveal_strlit("no_data_dir");
    reveal_strlit("ouro_path_unknown");
    reveal_strlit("journal_unreadable");
    assert(REASON_CODES@[0]@ == "host_key_changed"@);
    assert(REASON_CODES@[1]@ == "version_mismatch"@);
    assert(REASON_CODES@[2]@ == "fleet_present"@);
    assert(REASON_CODES@[3]@ == "already_installed"@);
    assert(REASON_CODES@[4]@ == "challenge_expired"@);
    assert(REASON_CODES@[5]@ == "worker_unavailable"@);
    assert(REASON_CODES@[6]@ == "worker_unreachable"@);
    assert(REASON_CODES@[7]@ == "worker_timeout"@);
    assert(REASON_CODES@[8]@ == "unknown_operation"@);
    assert(REASON_CODES@[9]@ == "devices_busy"@);
    assert(REASON_CODES@[10]@ == "no_data_dir"@);
    assert(REASON_CODES@[11]@ == "ouro_path_unknown"@);
    assert(REASON_CODES@[12]@ == "journal_unreadable"@);
    let i = choose|i: int| 0 <= i < REASON_CODES@.len() && (#[trigger] REASON_CODES@[i])@ == code;
    assert("host_key_changed"@[4] == '_');
    assert("version_mismatch"@[7] == '_');
    assert("fleet_present"@[5] == '_');
    assert("already_installed"@[7] == '_');
    assert("challenge_expired"@[9] == '_');
    assert("worker_unavailable"@[6] == '_');
    assert("worker_unreachable"@[6] == '_');
    assert("worker_timeout"@[6] == '_');
    assert("unknown_operation"@[7] == '_');
    assert("devices_busy"@[7] == '_');
    assert("no_data_dir"@[2] == '_');
    assert("ouro_path_unknown"@[4] == '_');
    assert("journal_unreadable"@[7] == '_');
}

proof fn lemma_blocker_codes_have_underscores(code: Seq<char>)
    requires
        listed(BLOCKER_CODES@, code),
    ensures
        !has_no_underscore(code),
{
    reveal_strlit("ouro_path_unknown");
    reveal_strlit("no_data_dir");
    reveal_strlit("cleartext_web_bind");
    reveal_strlit("dev_runtime");
    assert(BLOCKER_CODES@[0]@ == "ouro_path_unknown"@);
    assert(BLOCKER_CODES@[1]@ == "no_data_dir"@);
    assert(BLOCKER_CODES@[2]@ == "cleartext_web_bind"@);
    assert(BLOCKER_CODES@[3]@ == "dev_runtime"@);
    let i = choose|i: int| 0 <= i < BLOCKER_CODES@.len() && (#[trigger] BLOCKER_CODES@[i])@ == code;
    assert("ouro_path_unknown"@[4] == '_');
    assert("no_data_dir"@[2] == '_');
    assert("cleartext_web_bind"@[9] == '_');
    assert("dev_runtime"@[3] == '_');
}

/// A reason this build knows is a sentence that does not hold the code; any other is named in its
/// own words.
pub proof fn lemma_each_reason_is_a_sentence(code: Seq<char>)
    ensures
        listed(REASON_CODES@, code) ==> reason_text(code).len() > 12 && !occurs(
            reason_text(code),
            code,
        ),
        !listed(REASON_CODES@, code) ==> reason_text(code) == named_reason(code),
{
    assert(REASON_CODES@[0]@ == "host_key_changed"@);
    assert(REASON_CODES@[1]@ == "version_mismatch"@);
    assert(REASON_CODES@[2]@ == "fleet_present"@);
    assert(REASON_CODES@[3]@ == "already_installed"@);
    assert(REASON_CODES@[4]@ == "challenge_expired"@);
    assert(REASON_CODES@[5]@ == "worker_unavailable"@);
    assert(REASON_CODES@[6]@ == "worker_unreachable"@);
    assert(REASON_CODES@[7]@ == "worker_timeout"@);
    assert(REASON_CODES@[8]@ == "unknown_operation"@);
    assert(REASON_CODES@[9]@ == "devices_busy"@);
    assert(REASON_CODES@[10]@ == "no_data_dir"@);
    assert(REASON_CODES@[11]@ == "ouro_path_unknown"@);
    assert(REASON_CODES@[12]@ == "journal_unreadable"@);
    if listed(REASON_CODES@, code) {
        lemma_reason_codes_have_underscores(code);
        lemma_a_code_is_not_in_its_sentence(code);
        lemma_known_reasons_are_long(code);
    }
}

proof fn lemma_known_reasons_are_long(code: Seq<char>)
    requires
        listed(REASON_CODES@, code),
    ensures
        reason_text(code).len() > 12,
{
    reveal_strlit("this host's key has changed. That blocks the deployment and needs a separate, verified repair; it is never accepted here.");
    reveal_strlit("that machine runs a different Ouroboros from this one, and nothing was replaced. Upgrade one of them to match.");
    reveal_strlit("that machine already belongs to a different fleet.");
    reveal_strlit("that machine is already in this fleet under this name, so nothing was rewritten.");
    reveal_strlit("a question the deployment asked went unanswered for five minutes, so the operation stopped.");
    reveal_strlit("the deployment worker is no longer reachable from this runtime.");
    reveal_strlit("the deployment worker did not answer in time.");
    reveal_strlit("this runtime has no operation with that id.");
    reveal_strlit("this runtime is already running as many device inventories as it allows. Try again in a moment.");
    reveal_strlit("this runtime serves no durable data directory, so it holds no deployments.");
    reveal_strlit("this runtime does not know where its own ouro executable is, so it cannot run a deployment.");
    reveal_strlit("this operation's record on the deployment host could not be read.");
    assert(REASON_CODES@[0]@ == "host_key_changed"@);
    assert(REASON_CODES@[1]@ == "version_mismatch"@);
    assert(REASON_CODES@[2]@ == "fleet_present"@);
    assert(REASON_CODES@[3]@ == "already_installed"@);
    assert(REASON_CODES@[4]@ == "challenge_expired"@);
    assert(REASON_CODES@[5]@ == "worker_unavailable"@);
    assert(REASON_CODES@[6]@ == "worker_unreachable"@);
    assert(REASON_CODES@[7]@ == "worker_timeout"@);
    assert(REASON_CODES@[8]@ == "unknown_operation"@);
    assert(REASON_CODES@[9]@ == "devices_busy"@);
    assert(REASON_CODES@[10]@ == "no_data_dir"@);
    assert(REASON_CODES@[11]@ == "ouro_path_unknown"@);
    assert(REASON_CODES@[12]@ == "journal_unreadable"@);
}

/// A blocker this build knows is explained in words that do not hold the code, and not in those for
/// an unknown one; any other is named in its own words.
pub proof fn lemma_each_blocker_is_explained(code: Seq<char>)
    ensures
        listed(BLOCKER_CODES@, code) ==> !occurs(blocker_text(code), code) && blocker_text(code)
            != named_blocker(code),
        !listed(BLOCKER_CODES@, code) ==> blocker_text(code) == named_blocker(code),
{
    assert(BLOCKER_CODES@[0]@ == "ouro_path_unknown"@);
    assert(BLOCKER_CODES@[1]@ == "no_data_dir"@);
    assert(BLOCKER_CODES@[2]@ == "cleartext_web_bind"@);
    assert(BLOCKER_CODES@[3]@ == "dev_runtime"@);
    if listed(BLOCKER_CODES@, code) {
        lemma_blocker_codes_have_underscores(code);
        lemma_a_code_is_not_in_its_sentence(code);
        lemma_known_blockers_are_their_own(code);
    }
}

proof fn lemma_known_blockers_are_their_own(code: Seq<char>)
    requires
        listed(BLOCKER_CODES@, code),
    ensures
        blocker_text(code) != named_blocker(code),
{
    reveal_strlit("This runtime cannot say where its own ouro executable is, so it has nothing to hand a deployment worker.");
    reveal_strlit("This runtime serves no durable data directory, so a deployment would have nowhere to keep its journal.");
    reveal_strlit("This runtime publishes its web endpoint on a non-loopback address with no TLS, so credential entry is refused on this deployment host.");
    reveal_strlit("This is a development runtime; the packaged ouro is what sets a machine up.");
    reveal_strlit("This runtime reports the blocker ");
    assert(BLOCKER_CODES@[0]@ == "ouro_path_unknown"@);
    assert(BLOCKER_CODES@[1]@ == "no_data_dir"@);
    assert(BLOCKER_CODES@[2]@ == "cleartext_web_bind"@);
    assert(BLOCKER_CODES@[3]@ == "dev_runtime"@);
    let fallback = named_blocker(code);
    assert(fallback[13] == 'r' && fallback[14] == 'e' && fallback[5] == 'r');
}

/// The words by which a state is told from one this client does not know.
pub open spec fn unknown_mark() -> Seq<char> {
    "does not know"@
}

/// The text holds no `w`, or no `k` three places before one: it cannot hold the mark.
proof fn lemma_no_mark(s: Seq<char>)
    requires
        forall|i: int| 12 <= i < s.len() && #[trigger] s[i] == 'w' ==> s[i - 3] != 'k',
    ensures
        !occurs(s, unknown_mark()),
{
    reveal_strlit("does not know");
    let mark = unknown_mark();
    assert forall|at: int| !occurs_at(s, mark, at) by {
        if occurs_at(s, mark, at) {
            let part = s.subrange(at, at + mark.len());
            assert(part[12] == s[at + 12]);
            assert(part[9] == s[at + 9]);
        }
    }
}

proof fn lemma_known_states_have_words(code: Seq<char>)
    requires
        listed(OPERATION_STATES@, code),
    ensures
        !occurs(state_text(code), unknown_mark()),
{
    reveal_strlit("starting the deployment worker");
    reveal_strlit("inspecting the target");
    reveal_strlit("waiting for somebody to verify the host key");
    reveal_strlit("waiting for a credential");
    reveal_strlit("waiting for somebody to review the plan");
    reveal_strlit("deploying");
    reveal_strlit("restarting this runtime");
    reveal_strlit("checking readiness");
    reveal_strlit("completed");
    reveal_strlit("interrupted");
    reveal_strlit("failed");
    reveal_strlit("cancelled");
    assert(OPERATION_STATES@[0]@ == "spawning"@);
    assert(OPERATION_STATES@[1]@ == "inspecting"@);
    assert(OPERATION_STATES@[2]@ == "awaiting_host_trust"@);
    assert(OPERATION_STATES@[3]@ == "awaiting_auth"@);
    assert(OPERATION_STATES@[4]@ == "awaiting_review"@);
    assert(OPERATION_STATES@[5]@ == "deploying"@);
    assert(OPERATION_STATES@[6]@ == "restarting_host"@);
    assert(OPERATION_STATES@[7]@ == "checking_readiness"@);
    assert(OPERATION_STATES@[8]@ == "completed"@);
    assert(OPERATION_STATES@[9]@ == "interrupted"@);
    assert(OPERATION_STATES@[10]@ == "failed"@);
    assert(OPERATION_STATES@[11]@ == "cancelled"@);
    lemma_no_mark(state_text(code));
}

/// Every state a journal records has words of its own; a blank one is said to be unreported, and any
/// other is named as one this client does not know.
pub proof fn lemma_every_state_has_words(code: Seq<char>)
    ensures
        listed(OPERATION_STATES@, code) ==> !occurs(state_text(code), unknown_mark()),
        code == ""@ ==> state_text(code) == "state not reported"@,
        !listed(OPERATION_STATES@, code) && code != ""@ ==> state_text(code) == code
            + " (a state this client does not know)"@,
{
    assert(OPERATION_STATES@[0]@ == "spawning"@);
    assert(OPERATION_STATES@[1]@ == "inspecting"@);
    assert(OPERATION_STATES@[2]@ == "awaiting_host_trust"@);
    assert(OPERATION_STATES@[3]@ == "awaiting_auth"@);
    assert(OPERATION_STATES@[4]@ == "awaiting_review"@);
    assert(OPERATION_STATES@[5]@ == "deploying"@);
    assert(OPERATION_STATES@[6]@ == "restarting_host"@);
    assert(OPERATION_STATES@[7]@ == "checking_readiness"@);
    assert(OPERATION_STATES@[8]@ == "completed"@);
    assert(OPERATION_STATES@[9]@ == "interrupted"@);
    assert(OPERATION_STATES@[10]@ == "failed"@);
    assert(OPERATION_STATES@[11]@ == "cancelled"@);
    if listed(OPERATION_STATES@, code) {
        lemma_known_states_have_words(code);
    }
    if code == ""@ {
        lemma_a_blank_is_no_state();
    }
}

proof fn lemma_a_blank_is_no_state()
    ensures
        ""@ != "spawning"@,
        ""@ != "inspecting"@,
        ""@ != "awaiting_host_trust"@,
        ""@ != "awaiting_auth"@,
        ""@ != "awaiting_review"@,
        ""@ != "deploying"@,
        ""@ != "restarting_host"@,
        ""@ != "checking_readiness"@,
        ""@ != "completed"@,
        ""@ != "interrupted"@,
        ""@ != "failed"@,
        ""@ != "cancelled"@,
{
    reveal_strlit("");
    reveal_strlit("spawning");
    reveal_strlit("inspecting");
    reveal_strlit("awaiting_host_trust");
    reveal_strlit("awaiting_auth");
    reveal_strlit("awaiting_review");
    reveal_strlit("deploying");
    reveal_strlit("restarting_host");
    reveal_strlit("checking_readiness");
    reveal_strlit("completed");
    reveal_strlit("interrupted");
    reveal_strlit("failed");
    reveal_strlit("cancelled");
    assert(""@.len() == 0);
    assert("spawning"@.len() == 8);
    assert("inspecting"@.len() == 10);
    assert("awaiting_host_trust"@.len() == 19);
    assert("awaiting_auth"@.len() == 13);
    assert("awaiting_review"@.len() == 15);
    assert("deploying"@.len() == 9);
    assert("restarting_host"@.len() == 15);
    assert("checking_readiness"@.len() == 18);
    assert("completed"@.len() == 9);
    assert("interrupted"@.len() == 11);
    assert("failed"@.len() == 6);
    assert("cancelled"@.len() == 9);
}

/// What is said of a reason is about that reason: it names the thing that the code names.
#[verifier::rlimit(90)]
pub proof fn lemma_a_reason_is_about_its_code(code: Seq<char>)
    ensures
        code == "host_key_changed"@ ==> occurs(reason_text(code), "host's key has changed"@),
        code == "version_mismatch"@ ==> occurs(reason_text(code), "different Ouroboros"@),
        code == "fleet_present"@ ==> occurs(reason_text(code), "different fleet"@),
        code == "already_installed"@ ==> occurs(reason_text(code), "already in this fleet"@),
        code == "challenge_expired"@ ==> occurs(reason_text(code), "unanswered"@),
        code == "worker_unavailable"@ ==> occurs(reason_text(code), "no longer reachable"@),
        code == "worker_unreachable"@ ==> occurs(reason_text(code), "no longer reachable"@),
        code == "worker_timeout"@ ==> occurs(reason_text(code), "in time"@),
        code == "unknown_operation"@ ==> occurs(reason_text(code), "no operation"@),
        code == "devices_busy"@ ==> occurs(reason_text(code), "as many device inventories"@),
        code == "no_data_dir"@ ==> occurs(reason_text(code), "no durable data directory"@),
        code == "ouro_path_unknown"@ ==> occurs(reason_text(code), "ouro executable"@),
        code == "journal_unreadable"@ ==> occurs(reason_text(code), "could not be read"@),
{
    reveal_strlit("host_key_changed");
    reveal_strlit("this host's key has changed. That blocks the deployment and needs a separate, verified repair; it is never accepted here.");
    reveal_strlit("host's key has changed");
    reveal_strlit("version_mismatch");
    reveal_strlit("that machine runs a different Ouroboros from this one, and nothing was replaced. Upgrade one of them to match.");
    reveal_strlit("different Ouroboros");
    reveal_strlit("fleet_present");
    reveal_strlit("that machine already belongs to a different fleet.");
    reveal_strlit("different fleet");
    reveal_strlit("already_installed");
    reveal_strlit("that machine is already in this fleet under this name, so nothing was rewritten.");
    reveal_strlit("already in this fleet");
    reveal_strlit("challenge_expired");
    reveal_strlit("a question the deployment asked went unanswered for five minutes, so the operation stopped.");
    reveal_strlit("unanswered");
    reveal_strlit("worker_unavailable");
    reveal_strlit("the deployment worker is no longer reachable from this runtime.");
    reveal_strlit("no longer reachable");
    reveal_strlit("worker_unreachable");
    reveal_strlit("worker_timeout");
    reveal_strlit("the deployment worker did not answer in time.");
    reveal_strlit("in time");
    reveal_strlit("unknown_operation");
    reveal_strlit("this runtime has no operation with that id.");
    reveal_strlit("no operation");
    reveal_strlit("devices_busy");
    reveal_strlit("this runtime is already running as many device inventories as it allows. Try again in a moment.");
    reveal_strlit("as many device inventories");
    reveal_strlit("no_data_dir");
    reveal_strlit("this runtime serves no durable data directory, so it holds no deployments.");
    reveal_strlit("no durable data directory");
    reveal_strlit("ouro_path_unknown");
    reveal_strlit("this runtime does not know where its own ouro executable is, so it cannot run a deployment.");
    reveal_strlit("ouro executable");
    reveal_strlit("journal_unreadable");
    reveal_strlit("this operation's record on the deployment host could not be read.");
    reveal_strlit("could not be read");
    assert("host_key_changed"@.len() == 16 && "host_key_changed"@[0] == 'h');
    assert("version_mismatch"@.len() == 16 && "version_mismatch"@[0] == 'v');
    assert("fleet_present"@.len() == 13);
    assert("already_installed"@.len() == 17 && "already_installed"@[0] == 'a');
    assert("challenge_expired"@.len() == 17 && "challenge_expired"@[0] == 'c');
    assert("worker_unavailable"@.len() == 18 && "worker_unavailable"@[0] == 'w' && "worker_unavailable"@[9] == 'a');
    assert("worker_unreachable"@.len() == 18 && "worker_unreachable"@[0] == 'w' && "worker_unreachable"@[9] == 'r');
    assert("worker_timeout"@.len() == 14);
    assert("unknown_operation"@.len() == 17 && "unknown_operation"@[0] == 'u');
    assert("devices_busy"@.len() == 12);
    assert("no_data_dir"@.len() == 11);
    assert("ouro_path_unknown"@.len() == 17 && "ouro_path_unknown"@[0] == 'o');
    assert("journal_unreadable"@.len() == 18 && "journal_unreadable"@[0] == 'j');
    if code == "host_key_changed"@ {
        assert(reason_text(code) == "this host's key has changed. That blocks the deployment and needs a separate, verified repair; it is never accepted here."@);
        assert(reason_text(code).subrange(5, 27) =~= "host's key has changed"@);
        assert(occurs_at(reason_text(code), "host's key has changed"@, 5));
    } else if code == "version_mismatch"@ {
        assert(reason_text(code) == "that machine runs a different Ouroboros from this one, and nothing was replaced. Upgrade one of them to match."@);
        assert(reason_text(code).subrange(20, 39) =~= "different Ouroboros"@);
        assert(occurs_at(reason_text(code), "different Ouroboros"@, 20));
    } else if code == "fleet_present"@ {
        assert(reason_text(code) == "that machine already belongs to a different fleet."@);
        assert(reason_text(code).subrange(34, 49) =~= "different fleet"@);
        assert(occurs_at(reason_text(code), "different fleet"@, 34));
    } else if code == "already_installed"@ {
        assert(reason_text(code) == "that machine is already in this fleet under this name, so nothing was rewritten."@);
        assert(reason_text(code).subrange(16, 37) =~= "already in this fleet"@);
        assert(occurs_at(reason_text(code), "already in this fleet"@, 16));
    } else if code == "challenge_expired"@ {
        assert(reason_text(code) == "a question the deployment asked went unanswered for five minutes, so the operation stopped."@);
        assert(reason_text(code).subrange(37, 47) =~= "unanswered"@);
        assert(occurs_at(reason_text(code), "unanswered"@, 37));
    } else if code == "worker_unavailable"@ {
        assert(reason_text(code) == "the deployment worker is no longer reachable from this runtime."@);
        assert(reason_text(code).subrange(25, 44) =~= "no longer reachable"@);
        assert(occurs_at(reason_text(code), "no longer reachable"@, 25));
    } else if code == "worker_unreachable"@ {
        assert(reason_text(code) == "the deployment worker is no longer reachable from this runtime."@);
        assert(reason_text(code).subrange(25, 44) =~= "no longer reachable"@);
        assert(occurs_at(reason_text(code), "no longer reachable"@, 25));
    } else if code == "worker_timeout"@ {
        assert(reason_text(code) == "the deployment worker did not answer in time."@);
        assert(reason_text(code).subrange(37, 44) =~= "in time"@);
        assert(occurs_at(reason_text(code), "in time"@, 37));
    } else if code == "unknown_operation"@ {
        assert(reason_text(code) == "this runtime has no operation with that id."@);
        assert(reason_text(code).subrange(17, 29) =~= "no operation"@);
        assert(occurs_at(reason_text(code), "no operation"@, 17));
    } else if code == "devices_busy"@ {
        assert(reason_text(code) == "this runtime is already running as many device inventories as it allows. Try again in a moment."@);
        assert(reason_text(code).subrange(32, 58) =~= "as many device inventories"@);
        assert(occurs_at(reason_text(code), "as many device inventories"@, 32));
    } else if code == "no_data_dir"@ {
        assert(reason_text(code) == "this runtime serves no durable data directory, so it holds no deployments."@);
        assert(reason_text(code).subrange(20, 45) =~= "no durable data directory"@);
        assert(occurs_at(reason_text(code), "no durable data directory"@, 20));
    } else if code == "ouro_path_unknown"@ {
        assert(reason_text(code) == "this runtime does not know where its own ouro executable is, so it cannot run a deployment."@);
        assert(reason_text(code).subrange(41, 56) =~= "ouro executable"@);
        assert(occurs_at(reason_text(code), "ouro executable"@, 41));
    } else if code == "journal_unreadable"@ {
        assert(reason_text(code) == "this operation's record on the deployment host could not be read."@);
        assert(reason_text(code).subrange(47, 64) =~= "could not be read"@);
        assert(occurs_at(reason_text(code), "could not be read"@, 47));
    }
}

/// So is what is said of a blocker.
#[verifier::rlimit(90)]
pub proof fn lemma_a_blocker_is_about_its_code(code: Seq<char>)
    ensures
        code == "ouro_path_unknown"@ ==> occurs(blocker_text(code), "ouro executable"@),
        code == "no_data_dir"@ ==> occurs(blocker_text(code), "no durable data directory"@),
        code == "cleartext_web_bind"@ ==> occurs(blocker_text(code), "no TLS"@),
        code == "dev_runtime"@ ==> occurs(blocker_text(code), "development runtime"@),
{
    reveal_strlit("ouro_path_unknown");
    reveal_strlit("This runtime cannot say where its own ouro executable is, so it has nothing to hand a deployment worker.");
    reveal_strlit("ouro executable");
    reveal_strlit("no_data_dir");
    reveal_strlit("This runtime serves no durable data directory, so a deployment would have nowhere to keep its journal.");
    reveal_strlit("no durable data directory");
    reveal_strlit("cleartext_web_bind");
    reveal_strlit("This runtime publishes its web endpoint on a non-loopback address with no TLS, so credential entry is refused on this deployment host.");
    reveal_strlit("no TLS");
    reveal_strlit("dev_runtime");
    reveal_strlit("This is a development runtime; the packaged ouro is what sets a machine up.");
    reveal_strlit("development runtime");
    assert("ouro_path_unknown"@.len() == 17);
    assert("no_data_dir"@.len() == 11 && "no_data_dir"@[0] == 'n');
    assert("cleartext_web_bind"@.len() == 18);
    assert("dev_runtime"@.len() == 11 && "dev_runtime"@[0] == 'd');
    if code == "ouro_path_unknown"@ {
        assert(blocker_text(code) == "This runtime cannot say where its own ouro executable is, so it has nothing to hand a deployment worker."@);
        assert(blocker_text(code).subrange(38, 53) =~= "ouro executable"@);
        assert(occurs_at(blocker_text(code), "ouro executable"@, 38));
    } else if code == "no_data_dir"@ {
        assert(blocker_text(code) == "This runtime serves no durable data directory, so a deployment would have nowhere to keep its journal."@);
        assert(blocker_text(code).subrange(20, 45) =~= "no durable data directory"@);
        assert(occurs_at(blocker_text(code), "no durable data directory"@, 20));
    } else if code == "cleartext_web_bind"@ {
        assert(blocker_text(code) == "This runtime publishes its web endpoint on a non-loopback address with no TLS, so credential entry is refused on this deployment host."@);
        assert(blocker_text(code).subrange(71, 77) =~= "no TLS"@);
        assert(occurs_at(blocker_text(code), "no TLS"@, 71));
    } else if code == "dev_runtime"@ {
        assert(blocker_text(code) == "This is a development runtime; the packaged ouro is what sets a machine up."@);
        assert(blocker_text(code).subrange(10, 29) =~= "development runtime"@);
        assert(occurs_at(blocker_text(code), "development runtime"@, 10));
    }
}

/// And what is said of the state of an operation.
#[verifier::rlimit(90)]
pub proof fn lemma_a_state_is_about_its_code(code: Seq<char>)
    ensures
        code == "spawning"@ ==> occurs(state_text(code), "starting"@),
        code == "inspecting"@ ==> occurs(state_text(code), "inspecting"@),
        code == "awaiting_host_trust"@ ==> occurs(state_text(code), "host key"@),
        code == "awaiting_auth"@ ==> occurs(state_text(code), "credential"@),
        code == "awaiting_review"@ ==> occurs(state_text(code), "review"@),
        code == "deploying"@ ==> occurs(state_text(code), "deploying"@),
        code == "restarting_host"@ ==> occurs(state_text(code), "restarting"@),
        code == "checking_readiness"@ ==> occurs(state_text(code), "readiness"@),
        code == "completed"@ ==> occurs(state_text(code), "completed"@),
        code == "interrupted"@ ==> occurs(state_text(code), "interrupted"@),
        code == "failed"@ ==> occurs(state_text(code), "failed"@),
        code == "cancelled"@ ==> occurs(state_text(code), "cancelled"@),
{
    reveal_strlit("spawning");
    reveal_strlit("starting the deployment worker");
    reveal_strlit("starting");
    reveal_strlit("inspecting");
    reveal_strlit("inspecting the target");
    reveal_strlit("awaiting_host_trust");
    reveal_strlit("waiting for somebody to verify the host key");
    reveal_strlit("host key");
    reveal_strlit("awaiting_auth");
    reveal_strlit("waiting for a credential");
    reveal_strlit("credential");
    reveal_strlit("awaiting_review");
    reveal_strlit("waiting for somebody to review the plan");
    reveal_strlit("review");
    reveal_strlit("deploying");
    reveal_strlit("restarting_host");
    reveal_strlit("restarting this runtime");
    reveal_strlit("restarting");
    reveal_strlit("checking_readiness");
    reveal_strlit("checking readiness");
    reveal_strlit("readiness");
    reveal_strlit("completed");
    reveal_strlit("interrupted");
    reveal_strlit("failed");
    reveal_strlit("cancelled");
    assert("spawning"@.len() == 8);
    assert("inspecting"@.len() == 10);
    assert("awaiting_host_trust"@.len() == 19);
    assert("awaiting_auth"@.len() == 13);
    assert("awaiting_review"@.len() == 15 && "awaiting_review"@[0] == 'a');
    assert("deploying"@.len() == 9 && "deploying"@[0] == 'd');
    assert("restarting_host"@.len() == 15 && "restarting_host"@[0] == 'r');
    assert("checking_readiness"@.len() == 18);
    assert("completed"@.len() == 9 && "completed"@[0] == 'c' && "completed"@[1] == 'o');
    assert("interrupted"@.len() == 11);
    assert("failed"@.len() == 6);
    assert("cancelled"@.len() == 9 && "cancelled"@[0] == 'c' && "cancelled"@[1] == 'a');
    if code == "spawning"@ {
        assert(state_text(code) == "starting the deployment worker"@);
        assert(state_text(code).subrange(0, 8) =~= "starting"@);
        assert(occurs_at(state_text(code), "starting"@, 0));
    } else if code == "inspecting"@ {
        assert(state_text(code) == "inspecting the target"@);
        assert(state_text(code).subrange(0, 10) =~= "inspecting"@);
        assert(occurs_at(state_text(code), "inspecting"@, 0));
    } else if code == "awaiting_host_trust"@ {
        assert(state_text(code) == "waiting for somebody to verify the host key"@);
        assert(state_text(code).subrange(35, 43) =~= "host key"@);
        assert(occurs_at(state_text(code), "host key"@, 35));
    } else if code == "awaiting_auth"@ {
        assert(state_text(code) == "waiting for a credential"@);
        assert(state_text(code).subrange(14, 24) =~= "credential"@);
        assert(occurs_at(state_text(code), "credential"@, 14));
    } else if code == "awaiting_review"@ {
        assert(state_text(code) == "waiting for somebody to review the plan"@);
        assert(state_text(code).subrange(24, 30) =~= "review"@);
        assert(occurs_at(state_text(code), "review"@, 24));
    } else if code == "deploying"@ {
        assert(state_text(code) == "deploying"@);
        assert(state_text(code).subrange(0, 9) =~= "deploying"@);
        assert(occurs_at(state_text(code), "deploying"@, 0));
    } else if code == "restarting_host"@ {
        assert(state_text(code) == "restarting this runtime"@);
        assert(state_text(code).subrange(0, 10) =~= "restarting"@);
        assert(occurs_at(state_text(code), "restarting"@, 0));
    } else if code == "checking_readiness"@ {
        assert(state_text(code) == "checking readiness"@);
        assert(state_text(code).subrange(9, 18) =~= "readiness"@);
        assert(occurs_at(state_text(code), "readiness"@, 9));
    } else if code == "completed"@ {
        assert(state_text(code) == "completed"@);
        assert(state_text(code).subrange(0, 9) =~= "completed"@);
        assert(occurs_at(state_text(code), "completed"@, 0));
    } else if code == "interrupted"@ {
        assert(state_text(code) == "interrupted"@);
        assert(state_text(code).subrange(0, 11) =~= "interrupted"@);
        assert(occurs_at(state_text(code), "interrupted"@, 0));
    } else if code == "failed"@ {
        assert(state_text(code) == "failed"@);
        assert(state_text(code).subrange(0, 6) =~= "failed"@);
        assert(occurs_at(state_text(code), "failed"@, 0));
    } else if code == "cancelled"@ {
        assert(state_text(code) == "cancelled"@);
        assert(state_text(code).subrange(0, 9) =~= "cancelled"@);
        assert(occurs_at(state_text(code), "cancelled"@, 0));
    }
}

} // verus!
