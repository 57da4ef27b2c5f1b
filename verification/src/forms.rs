//! The dialogs: what they hold, how their rows move, and what they ask for.

use vstd::arithmetic::div_mod::{lemma_mod_twice, lemma_sub_mod_noop};
use vstd::prelude::*;

use crate::json::{lemma_member_at, lemma_members_joined, lemma_no_member, Json, JsonView};
use crate::model::{ApprovalMode, Effort, Plane};
use crate::tags::{text_param, Params};
use crate::text::{cat3, contains, copy_text, heard, is_space, lower, lowered, occurs, said, same,
    trim, trimmed, trimmed_end, trimmed_start};

verus! {

// ----- rows that wrap ---------------------------------------------------------------

/// The row `delta` rows from `at`, in a list of `n` rows that wraps around.
pub open spec fn wrapped(at: int, delta: int, n: int) -> int {
    (at + delta) % n
}

pub fn wrap(at: usize, delta: isize, n: usize) -> (r: usize)
    requires
        n > 0,
    ensures
        r == wrapped(at as int, delta as int, n as int),
        r < n,
{
    let m: u128 = n as u128;
    let here: u128 = at as u128;
    if delta >= 0 {
        let r: u128 = (here + delta as u128) % m;
        r as usize
    } else {
        let back: u128 = (-(delta as i128)) as u128;
        let r: u128 = (here % m + (m - back % m)) % m;
        proof {
            let (a, b, k) = (here as int, back as int, m as int);
            assert(delta as int == -b);
            lemma_sub_mod_noop(a, b, k);
            let d = a % k - b % k;
            assert((a % k + (k - b % k)) % k == d % k) by {
                assert(a % k + (k - b % k) == d + k);
                vstd::arithmetic::div_mod::lemma_mod_add_multiples_vanish(d, k);
            }
            assert(r as int == wrapped(a, -b, k));
        }
        r as usize
    }
}

/// A step back undoes a step forward, from a row that is in the list.
pub proof fn lemma_steps_undo_each_other(at: int, delta: int, n: int)
    requires
        0 <= at < n,
    ensures
        wrapped(wrapped(at, delta, n), -delta, n) == at,
        0 <= wrapped(at, delta, n) < n,
{
    lemma_sub_mod_noop(at + delta, delta, n);
    lemma_sub_mod_noop(wrapped(at, delta, n), delta, n);
    lemma_mod_twice(at + delta, n);
    vstd::arithmetic::div_mod::lemma_small_mod(at as nat, n as nat);
}

/// As many steps as there are rows come back to the row they left.
pub proof fn lemma_a_full_round_comes_back(at: int, n: int)
    requires
        0 <= at < n,
    ensures
        wrapped(at, n, n) == at,
{
    vstd::arithmetic::div_mod::lemma_mod_add_multiples_vanish(at, n);
    vstd::arithmetic::div_mod::lemma_small_mod(at as nat, n as nat);
}

/// The row `delta` rows from `at`, which stops at either end.
pub open spec fn clamped(at: int, delta: int, len: int) -> int {
    if len == 0 {
        0
    } else if at + delta < 0 {
        0
    } else if at + delta > len - 1 {
        len - 1
    } else {
        at + delta
    }
}

pub fn clamp(at: usize, delta: isize, len: usize) -> (r: usize)
    ensures
        r == clamped(at as int, delta as int, len as int),
        len > 0 ==> r < len,
{
    if len == 0 {
        return 0;
    }
    let to: i128 = at as i128 + delta as i128;
    if to < 0 {
        0
    } else if to > (len - 1) as i128 {
        len - 1
    } else {
        to as usize
    }
}

/// The row after `choice`, which stops at the last.
pub open spec fn next_row(choice: usize, len: nat) -> usize {
    let last = if len == 0 {
        0
    } else {
        len - 1
    };
    if choice + 1 > last {
        last as usize
    } else {
        (choice + 1) as usize
    }
}

pub fn down(choice: usize, len: usize) -> (r: usize)
    ensures
        r == next_row(choice, len as nat),
{
    let last: usize = if len == 0 {
        0
    } else {
        len - 1
    };
    if choice >= last {
        last
    } else {
        choice + 1
    }
}

pub open spec fn prior_row(choice: usize) -> usize {
    if choice == 0 {
        0
    } else {
        (choice - 1) as usize
    }
}

pub fn up(choice: usize) -> (r: usize)
    ensures
        r == prior_row(choice),
{
    if choice == 0 {
        0
    } else {
        choice - 1
    }
}

// ----- approval rows ----------------------------------------------------------------

/// The rows of an approval cycler: the modes, and a row before them that says nothing.
pub const APPROVAL_ROWS: usize = 5;

/// The mode of a row. The first row states no mode, which is another thing than stating the
/// default one.
pub open spec fn mode_at(index: usize) -> Option<ApprovalMode> {
    match index {
        1 => Some(ApprovalMode::Default),
        2 => Some(ApprovalMode::Prompt),
        3 => Some(ApprovalMode::AutoEdit),
        4 => Some(ApprovalMode::AutoApprove),
        _ => None,
    }
}

pub fn approval_at(index: usize) -> (r: Option<ApprovalMode>)
    ensures
        r == mode_at(index),
        r == if 1 <= index <= ApprovalMode::ALL@.len() {
            Some(ApprovalMode::ALL@[index - 1])
        } else {
            None
        },
{
    let all = ApprovalMode::ALL;
    if index == 0 || index > all.len() {
        None
    } else {
        Some(all[index - 1])
    }
}

pub open spec fn row_of(mode: Option<ApprovalMode>) -> usize {
    match mode {
        None => 0,
        Some(ApprovalMode::Default) => 1,
        Some(ApprovalMode::Prompt) => 2,
        Some(ApprovalMode::AutoEdit) => 3,
        Some(ApprovalMode::AutoApprove) => 4,
    }
}

/// Where a mode sits in the cycler.
pub fn approval_index(mode: Option<ApprovalMode>) -> (r: usize)
    ensures
        r == row_of(mode),
{
    match mode {
        None => 0,
        Some(ApprovalMode::Default) => 1,
        Some(ApprovalMode::Prompt) => 2,
        Some(ApprovalMode::AutoEdit) => 3,
        Some(ApprovalMode::AutoApprove) => 4,
    }
}

/// A row and its mode name each other.
pub proof fn lemma_approval_rows_are_inverse(mode: Option<ApprovalMode>, index: usize)
    ensures
        mode_at(row_of(mode)) == mode,
        row_of(mode) < APPROVAL_ROWS,
        index < APPROVAL_ROWS ==> row_of(mode_at(index)) == index,
        index >= APPROVAL_ROWS ==> mode_at(index) is None,
{
}

pub open spec fn row_words(index: usize) -> Seq<char> {
    match mode_at(index) {
        None => "unset \u{2014} the plane's own default"@,
        Some(mode) => mode.word() + " \u{2014} "@ + mode.meaning(),
    }
}

/// What a row of the cycler reads as.
pub fn approval_label(index: usize) -> (r: String)
    ensures
        r@ == row_words(index),
{
    match approval_at(index) {
        None => "unset \u{2014} the plane's own default".to_owned(),
        Some(mode) => cat3(mode.as_str(), " \u{2014} ", mode.describe()),
    }
}

// ----- providers --------------------------------------------------------------------

/// A provider the runtime reports, and whether its probe found something to run.
#[derive(Debug)]
pub struct ProviderEntry {
    pub provider: String,
    pub ready: bool,
    /// The efforts its transport takes.
    pub efforts: Vec<Effort>,
}

/// A row of a provider picker that has to be able to show a stored default the runtime does not
/// report.
#[derive(Debug, PartialEq, Eq)]
pub enum ProviderChoice {
    Unset,
    Probed { name: String, ready: bool },
    /// The preferences name it and the runtime does not report it.
    Unserved { name: String },
}

impl ProviderChoice {
    pub open spec fn stored(&self) -> Option<Seq<char>> {
        match *self {
            ProviderChoice::Unset => None,
            ProviderChoice::Probed { name, .. } => Some(name@),
            ProviderChoice::Unserved { name } => Some(name@),
        }
    }

    /// The name to store, or none for the row that states none.
    pub fn name(&self) -> (r: Option<&str>)
        ensures
            heard(r) == self.stored(),
    {
        match self {
            ProviderChoice::Unset => None,
            ProviderChoice::Probed { name, .. } => Some(name.as_str()),
            ProviderChoice::Unserved { name } => Some(name.as_str()),
        }
    }
}

pub open spec fn reports(providers: Seq<ProviderEntry>, name: Seq<char>) -> bool {
    exists|i: int| 0 <= i < providers.len() && (#[trigger] providers[i]).provider@ == name
}

/// The stored default that the runtime does not report, if there is one.
pub open spec fn unserved(providers: Seq<ProviderEntry>, stored: Option<Seq<char>>) -> Option<
    Seq<char>,
> {
    match stored {
        Some(name) => {
            let name = trimmed(name);
            if name.len() > 0 && !reports(providers, name) {
                Some(name)
            } else {
                None
            }
        },
        None => None,
    }
}

/// The rows the picker offers: none, what the runtime reports, and a stored default it does not.
pub open spec fn are_provider_rows(
    rows: Seq<ProviderChoice>,
    providers: Seq<ProviderEntry>,
    stored: Option<Seq<char>>,
) -> bool {
    &&& rows.len() == 1 + providers.len() + if unserved(providers, stored) is Some {
        1int
    } else {
        0
    }
    &&& rows[0] is Unset
    &&& forall|i: int|
        0 <= i < providers.len() ==> (#[trigger] rows[i + 1]) is Probed && rows[i + 1].stored()
            == Some(providers[i].provider@) && rows[i + 1]->ready == providers[i].ready
    &&& unserved(providers, stored) is Some ==> rows.last() is Unserved && rows.last().stored()
        == unserved(providers, stored)
}

fn reported(providers: &Vec<ProviderEntry>, name: &str) -> (r: bool)
    ensures
        r == reports(providers@, name@),
{
    position_of(providers, name).is_some()
}

fn position_of(providers: &Vec<ProviderEntry>, name: &str) -> (r: Option<usize>)
    ensures
        match r {
            Some(i) => i < providers@.len() && providers@[i as int].provider@ == name@ && forall|
                k: int,
            |
                0 <= k < i ==> (#[trigger] providers@[k]).provider@ != name@,
            None => !reports(providers@, name@),
        },
        r is Some ==> reports(providers@, name@),
{
    let mut i: usize = 0;
    while i < providers.len()
        invariant
            i <= providers@.len(),
            forall|k: int| 0 <= k < i ==> (#[trigger] providers@[k]).provider@ != name@,
        decreases providers@.len() - i,
    {
        if same(providers[i].provider.as_str(), name) {
            assert(providers@[i as int].provider@ == name@);
            return Some(i);
        }
        i += 1;
    }
    None
}

pub fn provider_choices(providers: &Vec<ProviderEntry>, stored: Option<&str>) -> (r: Vec<
    ProviderChoice,
>)
    ensures
        are_provider_rows(r@, providers@, heard(stored)),
{
    let mut rows: Vec<ProviderChoice> = Vec::new();
    rows.push(ProviderChoice::Unset);
    let mut i: usize = 0;
    while i < providers.len()
        invariant
            i <= providers@.len(),
            rows@.len() == i + 1,
            rows@[0] is Unset,
            forall|k: int|
                0 <= k < i ==> (#[trigger] rows@[k + 1]) is Probed && rows@[k + 1].stored() == Some(
                    providers@[k].provider@,
                ) && rows@[k + 1]->ready == providers@[k].ready,
        decreases providers@.len() - i,
    {
        let ghost before = rows@;
        rows.push(
            ProviderChoice::Probed {
                name: providers[i].provider.clone(),
                ready: providers[i].ready,
            },
        );
        assert forall|k: int| 0 <= k < i + 1 implies (#[trigger] rows@[k + 1]) is Probed
            && rows@[k + 1].stored() == Some(providers@[k].provider@) && rows@[k + 1]->ready
            == providers@[k].ready by {
            if k < i {
                assert(before[k + 1] == rows@[k + 1]);
            }
        }
        i += 1;
    }
    let ghost before = rows@;
    if let Some(stored) = stored {
        let name = trim(stored);
        if !name.as_str().is_empty() && !reported(providers, name.as_str()) {
            rows.push(ProviderChoice::Unserved { name });
        }
    }
    assert forall|k: int| 0 <= k < providers@.len() implies (#[trigger] rows@[k + 1]) is Probed
        && rows@[k + 1].stored() == Some(providers@[k].provider@) && rows@[k + 1]->ready
        == providers@[k].ready by {
        assert(before[k + 1] == rows@[k + 1]);
    }
    rows
}

/// A stored default that says anything always has a row, so a picker never drops it.
pub proof fn lemma_a_stored_provider_has_a_row(
    rows: Seq<ProviderChoice>,
    providers: Seq<ProviderEntry>,
    stored: Seq<char>,
)
    requires
        are_provider_rows(rows, providers, Some(stored)),
        trimmed(stored).len() > 0,
    ensures
        exists|i: int|
            0 <= i < rows.len() && (#[trigger] rows[i]).stored() == Some(trimmed(stored)),
{
    let name = trimmed(stored);
    if reports(providers, name) {
        let k = choose|k: int| 0 <= k < providers.len() && providers[k].provider@ == name;
        assert(rows[k + 1].stored() == Some(name));
    } else {
        assert(rows[rows.len() - 1].stored() == Some(name));
    }
}

// ----- starting a session -----------------------------------------------------------

/// What starts a session.
#[derive(Debug)]
pub struct StartRequest {
    pub plane: Plane,
    pub provider: String,
    /// The machine to run on, by its name; empty is this one, and goes unsaid.
    pub machine: String,
    pub workspace: String,
    pub approval_mode: Option<ApprovalMode>,
    /// What a coding task is to achieve.
    pub objective: String,
    /// The id the session is asked to have; empty asks for none.
    pub id: String,
    pub model: Option<String>,
    /// What the session may do to files; unstated leaves it to the runtime.
    pub sandbox_mode: Option<String>,
    pub reasoning_effort: Option<Effort>,
}

/// Why a request does not describe a session.
#[derive(Debug, Clone, Copy, PartialEq, Eq, Structural)]
pub enum StartRefusal {
    NoProvider,
    NoObjective,
}

impl StartRefusal {
    pub open spec fn words(self) -> Seq<char> {
        match self {
            StartRefusal::NoProvider => "choose a provider before starting a session"@,
            StartRefusal::NoObjective => "a coding task needs an objective"@,
        }
    }

    pub fn message(self) -> (r: String)
        ensures
            r@ == self.words(),
    {
        match self {
            StartRefusal::NoProvider => "choose a provider before starting a session".to_owned(),
            StartRefusal::NoObjective => "a coding task needs an objective".to_owned(),
        }
    }
}

/// A member where there is something to state.
pub open spec fn stated(name: Seq<char>, text: Seq<char>) -> Seq<(Seq<char>, JsonView)> {
    if trimmed(text).len() == 0 {
        Seq::empty()
    } else {
        seq![text_param(name, trimmed(text))]
    }
}

fn state(params: Params, name: &str, text: &str) -> (r: Params)
    ensures
        r@ == params@ + stated(name@, text@),
{
    let text = trim(text);
    if text.as_str().is_empty() {
        assert(params@ + stated(name@, text@) =~= params@) by {
            assert(stated(name@, text@).len() == 0);
        }
        params
    } else {
        let ghost before = params@;
        let r = params.text(name, text.as_str());
        assert(r@ =~= before + seq![text_param(name@, text@)]);
        r
    }
}

impl StartRequest {
    /// Why this request is refused before it is sent.
    pub open spec fn refusal(&self) -> Option<StartRefusal> {
        if trimmed(self.provider@).len() == 0 {
            Some(StartRefusal::NoProvider)
        } else if self.plane == Plane::Coding && trimmed(self.objective@).len() == 0 {
            Some(StartRefusal::NoObjective)
        } else {
            None
        }
    }

    pub open spec fn members(&self) -> Seq<(Seq<char>, JsonView)> {
        let mode = match self.approval_mode {
            Some(mode) => mode.word(),
            None => Seq::empty(),
        };
        let model = match self.model {
            Some(model) => model@,
            None => Seq::empty(),
        };
        let sandbox = match self.sandbox_mode {
            Some(mode) => mode@,
            None => Seq::empty(),
        };
        let effort = match self.reasoning_effort {
            Some(effort) => effort.word(),
            None => Seq::empty(),
        };
        let objective = if self.plane == Plane::Coding {
            self.objective@
        } else {
            Seq::empty()
        };
        stated("provider"@, self.provider@) + stated("machine"@, self.machine@) + stated(
            "workspace"@,
            self.workspace@,
        ) + stated("approval_mode"@, mode) + stated("objective"@, objective) + stated("id"@, self.id@) + stated("model"@, model)
            + stated("sandbox_mode"@, sandbox) + stated("reasoning_effort"@, effort)
    }

    /// The parameters of the start: what was stated, and nothing else.
    pub fn params(&self) -> (r: Result<Json, StartRefusal>)
        ensures
            match r {
                Ok(params) => self.refusal() is None && params@ == JsonView::Object(self.members()),
                Err(refusal) => self.refusal() == Some(refusal),
            },
            r is Ok ==> (r->Ok_0)@.member("provider"@) == written(self.provider@),
            r is Ok ==> (r->Ok_0)@.member("machine"@) == written(self.machine@),
            r is Ok ==> (r->Ok_0)@.member("workspace"@) == written(self.workspace@),
            r is Ok ==> (r->Ok_0)@.member("id"@) == written(self.id@),
            r is Ok ==> (r->Ok_0)@.member("model"@) == match self.model {
                Some(model) => written(model@),
                None => None,
            },
            r is Ok ==> (r->Ok_0)@.member("sandbox_mode"@) == match self.sandbox_mode {
                Some(mode) => written(mode@),
                None => None,
            },
    {
        if trim(self.provider.as_str()).as_str().is_empty() {
            return Err(StartRefusal::NoProvider);
        }
        if self.plane == Plane::Coding && trim(self.objective.as_str()).as_str().is_empty() {
            return Err(StartRefusal::NoObjective);
        }
        let params = Params::new();
        let params = state(params, "provider", self.provider.as_str());
        let params = state(params, "machine", self.machine.as_str());
        let params = state(params, "workspace", self.workspace.as_str());
        let params = state(
            params,
            "approval_mode",
            match self.approval_mode {
                Some(mode) => mode.as_str(),
                None => "",
            },
        );
        let params = state(
            params,
            "objective",
            if self.plane == Plane::Coding {
                self.objective.as_str()
            } else {
                ""
            },
        );
        let params = state(params, "id", self.id.as_str());
        let params = state(
            params,
            "model",
            match &self.model {
                Some(model) => model.as_str(),
                None => "",
            },
        );
        let params = state(
            params,
            "sandbox_mode",
            match &self.sandbox_mode {
                Some(mode) => mode.as_str(),
                None => "",
            },
        );
        let params = state(
            params,
            "reasoning_effort",
            match self.reasoning_effort {
                Some(effort) => effort.as_str(),
                None => "",
            },
        );
        proof {
            reveal_strlit("");
            assert(""@ =~= Seq::empty());
            assert(params@ =~= self.members());
            lemma_a_start_states_each_field(*self);
        }
        Ok(params.done())
    }

    pub fn method(&self) -> (r: String)
        ensures
            r@ == self.plane.method_of("start"@),
    {
        self.plane.method("start")
    }

    pub fn copy(&self) -> (r: StartRequest)
        ensures
            r.same_as(*self),
    {
        StartRequest {
            plane: self.plane,
            provider: self.provider.clone(),
            machine: self.machine.clone(),
            workspace: self.workspace.clone(),
            approval_mode: self.approval_mode,
            objective: self.objective.clone(),
            id: self.id.clone(),
            model: copy_text(&self.model),
            sandbox_mode: copy_text(&self.sandbox_mode),
            reasoning_effort: self.reasoning_effort,
        }
    }

    pub open spec fn same_as(&self, other: StartRequest) -> bool {
        &&& self.plane == other.plane
        &&& self.provider@ == other.provider@
        &&& self.machine@ == other.machine@
        &&& self.workspace@ == other.workspace@
        &&& self.approval_mode == other.approval_mode
        &&& self.objective@ == other.objective@
        &&& self.id@ == other.id@
        &&& said(self.model) == said(other.model)
        &&& said(self.sandbox_mode) == said(other.sandbox_mode)
        &&& self.reasoning_effort == other.reasoning_effort
    }
}

/// A field as a member: its text without the white space round it. A blank field is no member.
pub open spec fn written(text: Seq<char>) -> Option<JsonView> {
    if trimmed(text) == Seq::<char>::empty() {
        None
    } else {
        Some(JsonView::Text(trimmed(text)))
    }
}

proof fn lemma_stated(name: Seq<char>, text: Seq<char>, wanted: Seq<char>)
    ensures
        JsonView::Object(stated(name, text)).member(wanted) == if name == wanted {
            written(text)
        } else {
            None
        },
{
    let members = stated(name, text);
    if trimmed(text).len() == 0 {
        assert(trimmed(text) =~= Seq::empty());
        lemma_no_member(members, wanted);
    } else if name == wanted {
        lemma_member_at(members, wanted, 0);
    } else {
        lemma_no_member(members, wanted);
    }
}

/// What a name finds among the members of one field put behind those of others.
proof fn lemma_stated_last(
    members: Seq<(Seq<char>, JsonView)>,
    name: Seq<char>,
    text: Seq<char>,
    wanted: Seq<char>,
)
    ensures
        JsonView::Object(members + stated(name, text)).member(wanted) == match JsonView::Object(
            members,
        ).member(wanted) {
            Some(value) => Some(value),
            None => if name == wanted {
                written(text)
            } else {
                None
            },
        },
{
    lemma_members_joined(members, stated(name, text), wanted);
    lemma_stated(name, text, wanted);
}

proof fn lemma_field_names()
    ensures
        "provider"@.len() == 8,
        "machine"@.len() == 7,
        "workspace"@.len() == 9 && "workspace"@[0] == 'w',
        "approval_mode"@.len() == 13,
        "objective"@.len() == 9 && "objective"@[0] == 'o',
        "id"@.len() == 2,
        "model"@.len() == 5,
        "sandbox_mode"@.len() == 12,
        "reasoning_effort"@.len() == 16,
{
    reveal_strlit("provider");
    reveal_strlit("machine");
    reveal_strlit("workspace");
    reveal_strlit("approval_mode");
    reveal_strlit("objective");
    reveal_strlit("id");
    reveal_strlit("model");
    reveal_strlit("sandbox_mode");
    reveal_strlit("reasoning_effort");
}

/// Which field a name finds, if the request has it.
#[verifier::rlimit(60)]
proof fn lemma_start_member(request: StartRequest, wanted: Seq<char>)
    ensures
        JsonView::Object(request.members()).member(wanted) == if wanted == "provider"@ {
            written(request.provider@)
        } else if wanted == "machine"@ {
            written(request.machine@)
        } else if wanted == "workspace"@ {
            written(request.workspace@)
        } else if wanted == "approval_mode"@ {
            match request.approval_mode {
                Some(mode) => written(mode.word()),
                None => None,
            }
        } else if wanted == "objective"@ {
            if request.plane == Plane::Coding {
                written(request.objective@)
            } else {
                None
            }
        } else if wanted == "id"@ {
            written(request.id@)
        } else if wanted == "model"@ {
            match request.model {
                Some(model) => written(model@),
                None => None,
            }
        } else if wanted == "sandbox_mode"@ {
            match request.sandbox_mode {
                Some(mode) => written(mode@),
                None => None,
            }
        } else if wanted == "reasoning_effort"@ {
            match request.reasoning_effort {
                Some(effort) => written(effort.word()),
                None => None,
            }
        } else {
            None
        },
{
    lemma_field_names();
    let mode = match request.approval_mode {
        Some(mode) => mode.word(),
        None => Seq::empty(),
    };
    let model = match request.model {
        Some(model) => model@,
        None => Seq::empty(),
    };
    let sandbox = match request.sandbox_mode {
        Some(mode) => mode@,
        None => Seq::empty(),
    };
    let effort = match request.reasoning_effort {
        Some(effort) => effort.word(),
        None => Seq::empty(),
    };
    let objective = if request.plane == Plane::Coding {
        request.objective@
    } else {
        Seq::empty()
    };
    assert(trimmed(Seq::<char>::empty()) == Seq::<char>::empty());
    let m1 = stated("provider"@, request.provider@);
    let m2 = m1 + stated("machine"@, request.machine@);
    let m3 = m2 + stated("workspace"@, request.workspace@);
    let m4 = m3 + stated("approval_mode"@, mode);
    let m5 = m4 + stated("objective"@, objective);
    let m6 = m5 + stated("id"@, request.id@);
    let m7 = m6 + stated("model"@, model);
    let m8 = m7 + stated("sandbox_mode"@, sandbox);
    let m9 = m8 + stated("reasoning_effort"@, effort);
    assert(request.members() == m9);
    lemma_stated("provider"@, request.provider@, wanted);
    lemma_stated_last(m1, "machine"@, request.machine@, wanted);
    lemma_stated_last(m2, "workspace"@, request.workspace@, wanted);
    lemma_stated_last(m3, "approval_mode"@, mode, wanted);
    lemma_stated_last(m4, "objective"@, objective, wanted);
    lemma_stated_last(m5, "id"@, request.id@, wanted);
    lemma_stated_last(m6, "model"@, model, wanted);
    lemma_stated_last(m7, "sandbox_mode"@, sandbox, wanted);
    lemma_stated_last(m8, "reasoning_effort"@, effort, wanted);
}

pub(crate) proof fn lemma_a_word_is_written_whole(word: Seq<char>)
    requires
        word.len() > 0,
        !is_space(word[0]),
        !is_space(word.last()),
    ensures
        written(word) == Some(JsonView::Text(word)),
{
    assert(trimmed_start(word) == word);
    assert(trimmed_end(word) == word);
}

/// Every field of a start request that is filled in is found under its own name, and a blank one
/// is not there at all. The objective belongs to coding tasks alone.
#[verifier::rlimit(60)]
pub proof fn lemma_a_start_states_each_field(request: StartRequest)
    ensures
        ({
            let params = JsonView::Object(request.members());
            &&& params.member("provider"@) == written(request.provider@)
            &&& params.member("machine"@) == written(request.machine@)
            &&& params.member("workspace"@) == written(request.workspace@)
            &&& params.member("objective"@) == if request.plane == Plane::Coding {
                written(request.objective@)
            } else {
                None
            }
            &&& params.member("id"@) == written(request.id@)
            &&& params.member("model"@) == match request.model {
                Some(model) => written(model@),
                None => None,
            }
            &&& params.member("sandbox_mode"@) == match request.sandbox_mode {
                Some(mode) => written(mode@),
                None => None,
            }
        }),
{
    lemma_field_names();
    lemma_start_member(request, "provider"@);
    lemma_start_member(request, "machine"@);
    lemma_start_member(request, "workspace"@);
    lemma_start_member(request, "objective"@);
    lemma_start_member(request, "id"@);
    lemma_start_member(request, "model"@);
    lemma_start_member(request, "sandbox_mode"@);
}

/// The choices of a start request go out as the gateway's own words for them, and one that was not
/// made goes unsaid.
#[verifier::rlimit(60)]
pub proof fn lemma_a_start_states_its_choices(request: StartRequest)
    ensures
        ({
            let params = JsonView::Object(request.members());
            &&& params.member("approval_mode"@) == match request.approval_mode {
                Some(ApprovalMode::Default) => Some(JsonView::Text("default"@)),
                Some(ApprovalMode::Prompt) => Some(JsonView::Text("prompt"@)),
                Some(ApprovalMode::AutoEdit) => Some(JsonView::Text("auto_edit"@)),
                Some(ApprovalMode::AutoApprove) => Some(JsonView::Text("auto_approve"@)),
                None => None,
            }
            &&& params.member("reasoning_effort"@) == match request.reasoning_effort {
                Some(Effort::Low) => Some(JsonView::Text("low"@)),
                Some(Effort::Medium) => Some(JsonView::Text("medium"@)),
                Some(Effort::High) => Some(JsonView::Text("high"@)),
                None => None,
            }
        }),
{
    lemma_field_names();
    lemma_start_member(request, "approval_mode"@);
    lemma_start_member(request, "reasoning_effort"@);
    reveal_strlit("default");
    reveal_strlit("prompt");
    reveal_strlit("auto_edit");
    reveal_strlit("auto_approve");
    reveal_strlit("low");
    reveal_strlit("medium");
    reveal_strlit("high");
    if let Some(mode) = request.approval_mode {
        lemma_a_word_is_written_whole(mode.word());
    }
    if let Some(effort) = request.reasoning_effort {
        lemma_a_word_is_written_whole(effort.word());
    }
}

/// A start names nothing but its fields.
pub proof fn lemma_a_start_states_nothing_else(request: StartRequest, name: Seq<char>)
    requires
        name != "provider"@,
        name != "machine"@,
        name != "workspace"@,
        name != "approval_mode"@,
        name != "objective"@,
        name != "id"@,
        name != "model"@,
        name != "sandbox_mode"@,
        name != "reasoning_effort"@,
    ensures
        JsonView::Object(request.members()).member(name) is None,
{
    lemma_start_member(request, name);
}

#[derive(Debug, Clone, Copy, PartialEq, Eq, Structural)]
pub enum NewField {
    Plane,
    Provider,
    Workspace,
    ApprovalMode,
    /// Only on the coding plane, where the objective is required.
    Objective,
    Start,
}

/// The form that turns starting a session into a set of stated choices. What the preferences
/// supply is where its cursor starts, never what gets sent.
#[derive(Debug)]
pub struct NewSession {
    pub field: NewField,
    pub request: StartRequest,
    /// A row of the provider list.
    pub provider: usize,
    pub approval: usize,
    /// The start is in flight.
    pub pending: bool,
    /// Why the last attempt did not start a session.
    pub error: Option<String>,
    /// The provider the preferences name, until the list is known or the operator chose.
    pub wanted_provider: Option<String>,
}

/// The rows of the form on a plane.
pub open spec fn form_rows(plane: Plane) -> Seq<NewField> {
    if plane == Plane::Coding {
        seq![
            NewField::Plane,
            NewField::Provider,
            NewField::Objective,
            NewField::Workspace,
            NewField::ApprovalMode,
            NewField::Start,
        ]
    } else {
        seq![
            NewField::Plane,
            NewField::Provider,
            NewField::Workspace,
            NewField::ApprovalMode,
            NewField::Start,
        ]
    }
}

/// The row of a field, or the first where the plane has no such row.
pub open spec fn form_row(plane: Plane, field: NewField) -> int {
    let rows = form_rows(plane);
    if rows.contains(field) {
        rows.index_of(field)
    } else {
        0
    }
}

fn row_of_field(rows: &Vec<NewField>, field: NewField) -> (r: usize)
    requires
        rows@.no_duplicates(),
        rows@.len() > 0,
    ensures
        r < rows@.len(),
        r == if rows@.contains(field) {
            rows@.index_of(field)
        } else {
            0
        },
{
    let mut i: usize = 0;
    while i < rows.len()
        invariant
            i <= rows@.len(),
            rows@.len() > 0,
            rows@.no_duplicates(),
            forall|k: int| 0 <= k < i ==> #[trigger] rows@[k] != field,
        decreases rows@.len() - i,
    {
        if rows[i] == field {
            assert(rows@.contains(field));
            assert(rows@[rows@.index_of(field)] == field);
            return i;
        }
        i += 1;
    }
    0
}

proof fn lemma_form_rows(plane: Plane)
    ensures
        form_rows(plane).no_duplicates(),
        form_rows(plane).len() == if plane == Plane::Coding {
            6int
        } else {
            5
        },
{
}

impl NewSession {
    pub fn new(
        plane: Plane,
        workspace: String,
        approval: Option<ApprovalMode>,
        wanted: Option<String>,
    ) -> (r: NewSession)
        ensures
            r.field == NewField::Provider,
            r.request.plane == plane,
            r.request.workspace == workspace,
            r.request.provider@.len() == 0 && r.request.objective@.len() == 0,
            r.request.id@.len() == 0 && r.request.model is None,
            r.request.machine@.len() == 0,
            r.request.approval_mode is None,
            r.request.sandbox_mode is None && r.request.reasoning_effort is None,
            r.provider == 0,
            r.approval == row_of(approval),
            !r.pending,
            r.error is None,
            r.wanted_provider == wanted,
    {
        NewSession {
            field: NewField::Provider,
            request: StartRequest {
                plane,
                provider: String::new(),
                machine: String::new(),
                workspace,
                approval_mode: None,
                objective: String::new(),
                id: String::new(),
                model: None,
                sandbox_mode: None,
                reasoning_effort: None,
            },
            provider: 0,
            approval: approval_index(approval),
            pending: false,
            error: None,
            wanted_provider: wanted,
        }
    }

    /// Puts the cursor on the provider the preferences name, once the list is known. The name
    /// comes back where the runtime does not report it. A default is placed once; the cursor is
    /// the operator's afterwards.
    pub fn place_provider(&mut self, providers: &Vec<ProviderEntry>) -> (r: Option<String>)
        ensures
            match old(self).wanted_provider {
                Some(wanted) => if providers@.len() == 0 {
                    r is None && *final(self) == *old(self)
                } else {
                    &&& *final(self) == (NewSession {
                        wanted_provider: None,
                        provider: final(self).provider,
                        ..*old(self)
                    })
                    &&& if reports(providers@, wanted@) {
                        &&& r is None
                        &&& final(self).provider < providers@.len()
                        &&& providers@[final(self).provider as int].provider@ == wanted@
                        &&& forall|k: int|
                            0 <= k < final(self).provider ==> (
                            #[trigger] providers@[k]).provider@ != wanted@
                    } else {
                        said(r) == Some(wanted@) && final(self).provider == old(self).provider
                    }
                },
                None => r is None && *final(self) == *old(self),
            },
    {
        let wanted = match &self.wanted_provider {
            Some(wanted) => wanted.clone(),
            None => {
                return None;
            },
        };
        if providers.len() == 0 {
            return None;
        }
        self.wanted_provider = None;
        match position_of(providers, wanted.as_str()) {
            Some(index) => {
                self.provider = index;
                None
            },
            None => Some(wanted),
        }
    }

    /// The rows this plane has.
    pub fn fields(&self) -> (r: Vec<NewField>)
        ensures
            r@ == form_rows(self.request.plane),
    {
        let mut fields: Vec<NewField> = Vec::new();
        fields.push(NewField::Plane);
        fields.push(NewField::Provider);
        if self.request.plane == Plane::Coding {
            fields.push(NewField::Objective);
        }
        fields.push(NewField::Workspace);
        fields.push(NewField::ApprovalMode);
        fields.push(NewField::Start);
        assert(fields@ =~= form_rows(self.request.plane));
        fields
    }

    pub fn approval_mode(&self) -> (r: Option<ApprovalMode>)
        ensures
            r == mode_at(self.approval),
    {
        approval_at(self.approval)
    }

    pub fn approval_label(&self) -> (r: String)
        ensures
            r@ == row_words(self.approval),
    {
        approval_label(self.approval)
    }

    /// The request as the rows read now.
    pub fn resolved(&self, providers: &Vec<ProviderEntry>) -> (r: StartRequest)
        ensures
            r.plane == self.request.plane,
            r.machine@ == self.request.machine@,
            r.workspace@ == self.request.workspace@,
            r.objective@ == self.request.objective@,
            r.id@ == self.request.id@,
            said(r.model) == said(self.request.model),
            said(r.sandbox_mode) == said(self.request.sandbox_mode),
            r.reasoning_effort == self.request.reasoning_effort,
            r.approval_mode == mode_at(self.approval),
            r.provider@ == if self.provider < providers@.len() {
                providers@[self.provider as int].provider@
            } else {
                Seq::empty()
            },
    {
        let mut request = self.request.copy();
        request.provider = if self.provider < providers.len() {
            providers[self.provider].provider.clone()
        } else {
            String::new()
        };
        request.approval_mode = self.approval_mode();
        request
    }

    /// Moves to another row, around the ends.
    pub fn move_field(&mut self, delta: isize)
        ensures
            ({
                let rows = form_rows(old(self).request.plane);
                *final(self) == (NewSession {
                    field: rows[wrapped(
                        form_row(old(self).request.plane, old(self).field),
                        delta as int,
                        rows.len() as int,
                    )],
                    ..*old(self)
                })
            }),
    {
        let fields = self.fields();
        proof {
            lemma_form_rows(self.request.plane);
        }
        let at: usize = row_of_field(&fields, self.field);
        let next: usize = wrap(at, delta, fields.len());
        self.field = fields[next];
    }

    /// Steps through the values of the row the cursor is on.
    pub open spec fn cycled(&self, delta: int, providers: nat) -> NewSession {
        match self.field {
            NewField::Plane => NewSession {
                request: StartRequest {
                    plane: match self.request.plane {
                        Plane::Interactive => Plane::Coding,
                        Plane::Coding => Plane::Interactive,
                    },
                    ..self.request
                },
                ..*self
            },
            NewField::Provider => if providers > 0 {
                NewSession {
                    wanted_provider: None,
                    provider: wrapped(self.provider as int, delta, providers as int) as usize,
                    ..*self
                }
            } else {
                *self
            },
            NewField::ApprovalMode => NewSession {
                approval: wrapped(self.approval as int, delta, APPROVAL_ROWS as int) as usize,
                ..*self
            },
            _ => *self,
        }
    }

    pub fn cycle(&mut self, delta: isize, providers: usize)
        ensures
            *final(self) == old(self).cycled(delta as int, providers as nat),
    {
        match self.field {
            NewField::Plane => {
                self.request.plane = match self.request.plane {
                    Plane::Interactive => Plane::Coding,
                    Plane::Coding => Plane::Interactive,
                };
            },
            NewField::Provider => {
                if providers > 0 {
                    self.wanted_provider = None;
                    self.provider = wrap(self.provider, delta, providers);
                }
            },
            NewField::ApprovalMode => {
                self.approval = wrap(self.approval, delta, APPROVAL_ROWS);
            },
            _ => {},
        }
    }

    /// The row the cursor is on takes text.
    pub open spec fn takes_text(&self) -> bool {
        self.field is Workspace || self.field is Objective
    }

    /// The text of the row the cursor is on.
    pub open spec fn text(&self) -> Seq<char> {
        if self.field is Workspace {
            self.request.workspace@
        } else {
            self.request.objective@
        }
    }

    /// The form with another text in the row the cursor is on.
    pub open spec fn holds(&self, after: NewSession, text: Seq<char>) -> bool {
        &&& after.text() == text
        &&& after == (NewSession {
            request: StartRequest {
                workspace: if self.field is Workspace {
                    after.request.workspace
                } else {
                    self.request.workspace
                },
                objective: if self.field is Objective {
                    after.request.objective
                } else {
                    self.request.objective
                },
                ..self.request
            },
            ..*self
        })
    }

    /// Types into the row the cursor is on, where it takes text.
    pub fn type_in(&mut self, text: &str) -> (r: bool)
        ensures
            r == old(self).takes_text(),
            if r {
                old(self).holds(*final(self), old(self).text() + text@)
            } else {
                *final(self) == *old(self)
            },
    {
        match self.field {
            NewField::Workspace => {
                self.request.workspace.append(text);
                true
            },
            NewField::Objective => {
                self.request.objective.append(text);
                true
            },
            _ => false,
        }
    }

    /// Takes the last character back, where there is one.
    pub fn erase(&mut self) -> (r: bool)
        ensures
            r == old(self).takes_text(),
            if r {
                old(self).holds(*final(self), shortened(old(self).text()))
            } else {
                *final(self) == *old(self)
            },
    {
        match self.field {
            NewField::Workspace => {
                self.request.workspace = shorten(self.request.workspace.as_str());
                true
            },
            NewField::Objective => {
                self.request.objective = shorten(self.request.objective.as_str());
                true
            },
            _ => false,
        }
    }
}

/// A text without its last character.
pub open spec fn shortened(text: Seq<char>) -> Seq<char> {
    if text.len() == 0 {
        text
    } else {
        text.drop_last()
    }
}

pub fn shorten(text: &str) -> (r: String)
    ensures
        r@ == shortened(text@),
{
    let chars = crate::text::chars_of(text);
    let n: usize = chars.len();
    if n == 0 {
        assert(text@ =~= Seq::empty());
        return String::new();
    }
    let r = crate::text::slice_text(&chars, 0, n - 1);
    assert(r@ =~= text@.drop_last());
    r
}

/// Cycling the plane never leaves the cursor on a row the plane does not have.
pub proof fn lemma_the_cursor_stays_on_a_row(form: NewSession, delta: int, providers: nat)
    requires
        form_rows(form.request.plane).contains(form.field),
    ensures
        form_rows(form.cycled(delta, providers).request.plane).contains(
            form.cycled(delta, providers).field,
        ),
{
    let after = form.cycled(delta, providers);
    if form.field is Plane {
        assert(form_rows(after.request.plane)[0] == NewField::Plane);
    }
}

// ----- settings ---------------------------------------------------------------------

#[derive(Debug, Clone, Copy, PartialEq, Eq, Structural)]
pub enum SettingsField {
    Provider,
    Workspace,
    ApprovalMode,
    Save,
}

impl SettingsField {
    pub const ALL: [SettingsField; 4] = [
        SettingsField::Provider,
        SettingsField::Workspace,
        SettingsField::ApprovalMode,
        SettingsField::Save,
    ];

    pub open spec fn rank(self) -> int {
        match self {
            SettingsField::Provider => 0,
            SettingsField::Workspace => 1,
            SettingsField::ApprovalMode => 2,
            SettingsField::Save => 3,
        }
    }

    fn row(self) -> (r: usize)
        ensures
            r == self.rank(),
            r < 4,
    {
        match self {
            SettingsField::Provider => 0,
            SettingsField::Workspace => 1,
            SettingsField::ApprovalMode => 2,
            SettingsField::Save => 3,
        }
    }
}

/// This client's own preferences, as the settings overlay edits them.
#[derive(Debug)]
pub struct Settings {
    pub field: SettingsField,
    /// A row of [`provider_choices`], where the first states none.
    pub provider: usize,
    pub workspace: String,
    pub approval: usize,
    pub wanted_provider: Option<String>,
    /// Something was typed or cycled.
    pub edited: bool,
}

impl Settings {
    /// Puts the cursor on the stored provider, once the list is known.
    pub fn place_provider(&mut self, choices: &Vec<ProviderChoice>)
        ensures
            if old(self).wanted_provider is None || choices@.len() < 2 {
                *final(self) == *old(self)
            } else {
                let wanted = old(self).wanted_provider->0@;
                &&& *final(self) == (Settings {
                    wanted_provider: None,
                    provider: final(self).provider,
                    ..*old(self)
                })
                &&& if exists|i: int|
                    0 <= i < choices@.len() && (#[trigger] choices@[i]).stored() == Some(wanted) {
                    &&& final(self).provider < choices@.len()
                    &&& choices@[final(self).provider as int].stored() == Some(wanted)
                    &&& forall|k: int|
                        0 <= k < final(self).provider ==> (#[trigger] choices@[k]).stored() != Some(
                            wanted,
                        )
                } else {
                    final(self).provider == old(self).provider
                }
            },
    {
        let wanted = match &self.wanted_provider {
            Some(wanted) => wanted.clone(),
            None => {
                return;
            },
        };
        // The first row is always there, so a list of one is a list that has not arrived.
        if choices.len() < 2 {
            return;
        }
        let ghost start = *self;
        self.wanted_provider = None;
        let mut i: usize = 0;
        while i < choices.len()
            invariant
                i <= choices@.len(),
                *self == (Settings { wanted_provider: None, ..start }),
                start == *old(self),
                start.wanted_provider is Some,
                choices@.len() >= 2,
                start.wanted_provider->0@ == wanted@,
                forall|k: int|
                    0 <= k < i ==> (#[trigger] choices@[k]).stored() != Some(wanted@),
            decreases choices@.len() - i,
        {
            let hit = match choices[i].name() {
                Some(name) => same(name, wanted.as_str()),
                None => false,
            };
            if hit {
                assert(choices@[i as int].stored() == Some(wanted@));
                self.provider = i;
                return;
            }
            i += 1;
        }
    }

    pub fn approval_label(&self) -> (r: String)
        ensures
            r@ == row_words(self.approval),
    {
        approval_label(self.approval)
    }

    pub fn move_field(&mut self, delta: isize)
        ensures
            *final(self) == (Settings {
                field: SettingsField::ALL@[wrapped(old(self).field.rank(), delta as int, 4)],
                ..*old(self)
            }),
    {
        let all = SettingsField::ALL;
        let next: usize = wrap(self.field.row(), delta, 4);
        self.field = all[next];
    }

    pub open spec fn cycled(&self, delta: int, providers: nat) -> Settings {
        match self.field {
            SettingsField::Provider => if providers > 0 {
                Settings {
                    wanted_provider: None,
                    edited: true,
                    provider: wrapped(self.provider as int, delta, providers as int) as usize,
                    ..*self
                }
            } else {
                *self
            },
            SettingsField::ApprovalMode => Settings {
                edited: true,
                approval: wrapped(self.approval as int, delta, APPROVAL_ROWS as int) as usize,
                ..*self
            },
            _ => *self,
        }
    }

    pub fn cycle(&mut self, delta: isize, providers: usize)
        ensures
            *final(self) == old(self).cycled(delta as int, providers as nat),
    {
        match self.field {
            SettingsField::Provider => {
                if providers > 0 {
                    self.wanted_provider = None;
                    self.edited = true;
                    self.provider = wrap(self.provider, delta, providers);
                }
            },
            SettingsField::ApprovalMode => {
                self.edited = true;
                self.approval = wrap(self.approval, delta, APPROVAL_ROWS);
            },
            _ => {},
        }
    }

    /// Types into the workspace row, where the cursor is on it.
    pub fn type_in(&mut self, text: &str) -> (r: bool)
        ensures
            r == (old(self).field is Workspace),
            if r {
                &&& final(self).workspace@ == old(self).workspace@ + text@
                &&& *final(self) == (Settings {
                    workspace: final(self).workspace,
                    edited: true,
                    ..*old(self)
                })
            } else {
                *final(self) == *old(self)
            },
    {
        match self.field {
            SettingsField::Workspace => {
                self.workspace.append(text);
                self.edited = true;
                true
            },
            _ => false,
        }
    }

    pub fn erase(&mut self) -> (r: bool)
        ensures
            r == (old(self).field is Workspace),
            if r {
                &&& final(self).workspace@ == shortened(old(self).workspace@)
                &&& *final(self) == (Settings {
                    workspace: final(self).workspace,
                    edited: true,
                    ..*old(self)
                })
            } else {
                *final(self) == *old(self)
            },
    {
        match self.field {
            SettingsField::Workspace => {
                self.workspace = shorten(self.workspace.as_str());
                self.edited = true;
                true
            },
            _ => false,
        }
    }
}

// ----- commands ---------------------------------------------------------------------

#[derive(Debug, Clone, Copy, PartialEq, Eq, Structural)]
pub enum Command {
    NewSession,
    SwitchSession,
    SessionDetails,
    ConnectChatGpt,
    Runtime,
    Agents,
    Teams,
    Nodes,
    Plans,
    Upgrades,
    Logs,
    Settings,
}

impl Command {
    pub const ALL: [Command; 12] = [
        Command::NewSession,
        Command::SwitchSession,
        Command::SessionDetails,
        Command::ConnectChatGpt,
        Command::Runtime,
        Command::Agents,
        Command::Teams,
        Command::Nodes,
        Command::Plans,
        Command::Upgrades,
        Command::Logs,
        Command::Settings,
    ];

    pub open spec fn group_name(self) -> Seq<char> {
        match self {
            Command::NewSession
            | Command::SwitchSession
            | Command::SessionDetails
            | Command::ConnectChatGpt => "Coding"@,
            _ => "Runtime & distribution"@,
        }
    }

    pub fn group(self) -> (r: &'static str)
        ensures
            r@ == self.group_name(),
    {
        match self {
            Command::NewSession
            | Command::SwitchSession
            | Command::SessionDetails
            | Command::ConnectChatGpt => "Coding",
            _ => "Runtime & distribution",
        }
    }

    pub open spec fn name(self) -> Seq<char> {
        match self {
            Command::NewSession => "New session"@,
            Command::SwitchSession => "Switch session"@,
            Command::SessionDetails => "Toggle session details"@,
            Command::ConnectChatGpt => "Connect ChatGPT"@,
            Command::Runtime => "Runtime & distribution"@,
            Command::Agents => "Agents"@,
            Command::Teams => "Teams"@,
            Command::Nodes => "Nodes"@,
            Command::Plans => "Plans & control"@,
            Command::Upgrades => "Upgrades"@,
            Command::Logs => "Logs"@,
            Command::Settings => "Settings"@,
        }
    }

    pub fn label(self) -> (r: &'static str)
        ensures
            r@ == self.name(),
    {
        match self {
            Command::NewSession => "New session",
            Command::SwitchSession => "Switch session",
            Command::SessionDetails => "Toggle session details",
            Command::ConnectChatGpt => "Connect ChatGPT",
            Command::Runtime => "Runtime & distribution",
            Command::Agents => "Agents",
            Command::Teams => "Teams",
            Command::Nodes => "Nodes",
            Command::Plans => "Plans & control",
            Command::Upgrades => "Upgrades",
            Command::Logs => "Logs",
            Command::Settings => "Settings",
        }
    }

    pub open spec fn keys(self) -> Seq<char> {
        match self {
            Command::NewSession => "n"@,
            Command::SwitchSession => "s"@,
            Command::SessionDetails => "ctrl+e"@,
            Command::ConnectChatGpt => "c"@,
            Command::Runtime => "dist"@,
            Command::Agents => "ag"@,
            Command::Teams => "tm"@,
            Command::Nodes => "nd"@,
            Command::Plans => "pl"@,
            Command::Upgrades => "up"@,
            Command::Logs => "lg"@,
            Command::Settings => "st"@,
        }
    }

    pub fn shortcut(self) -> (r: &'static str)
        ensures
            r@ == self.keys(),
    {
        match self {
            Command::NewSession => "n",
            Command::SwitchSession => "s",
            Command::SessionDetails => "ctrl+e",
            Command::ConnectChatGpt => "c",
            Command::Runtime => "dist",
            Command::Agents => "ag",
            Command::Teams => "tm",
            Command::Nodes => "nd",
            Command::Plans => "pl",
            Command::Upgrades => "up",
            Command::Logs => "lg",
            Command::Settings => "st",
        }
    }

    pub open spec fn answers(self, query: Seq<char>) -> bool {
        let query = lowered(trimmed(query));
        ||| query.len() == 0
        ||| occurs(lowered(self.name()), query)
        ||| occurs(lowered(self.group_name()), query)
        ||| occurs(self.keys(), query)
    }

    /// The command is one the query could mean.
    pub fn fits(self, query: &str) -> (r: bool)
        ensures
            r == self.answers(query@),
    {
        let query = lower(trim(query).as_str());
        query.as_str().is_empty() || contains(lower(self.label()).as_str(), query.as_str())
            || contains(lower(self.group()).as_str(), query.as_str()) || contains(
            self.shortcut(),
            query.as_str(),
        )
    }

    /// The command a line of input names.
    pub open spec fn spelled(input: Seq<char>) -> Option<Command> {
        let word = trimmed(input);
        if word == "/new"@ {
            Some(Command::NewSession)
        } else if word == "/switch"@ {
            Some(Command::SwitchSession)
        } else if word == "/details"@ {
            Some(Command::SessionDetails)
        } else if word == "/connect"@ {
            Some(Command::ConnectChatGpt)
        } else if word == "/runtime"@ {
            Some(Command::Runtime)
        } else if word == "/agents"@ {
            Some(Command::Agents)
        } else if word == "/teams"@ {
            Some(Command::Teams)
        } else if word == "/plans"@ {
            Some(Command::Plans)
        } else if word == "/upgrades"@ {
            Some(Command::Upgrades)
        } else if word == "/logs"@ {
            Some(Command::Logs)
        } else if word == "/settings"@ {
            Some(Command::Settings)
        } else {
            None
        }
    }
}

/// What a line of input that begins with a slash does.
#[derive(Debug, Clone, Copy, PartialEq, Eq, Structural)]
pub enum Slash {
    Run(Command),
    Help,
    Quit,
    /// The line is taken, and nothing else happens.
    Clear,
}

pub open spec fn slash_of(input: Seq<char>) -> Option<Slash> {
    let word = trimmed(input);
    match Command::spelled(input) {
        Some(command) => Some(Slash::Run(command)),
        None => if word == "/help"@ {
            Some(Slash::Help)
        } else if word == "/quit"@ {
            Some(Slash::Quit)
        } else if word == "/clear"@ {
            Some(Slash::Clear)
        } else {
            None
        },
    }
}

pub fn slash(input: &str) -> (r: Option<Slash>)
    ensures
        r == slash_of(input@),
{
    let word = trim(input);
    let word = word.as_str();
    if same(word, "/new") {
        Some(Slash::Run(Command::NewSession))
    } else if same(word, "/switch") {
        Some(Slash::Run(Command::SwitchSession))
    } else if same(word, "/details") {
        Some(Slash::Run(Command::SessionDetails))
    } else if same(word, "/connect") {
        Some(Slash::Run(Command::ConnectChatGpt))
    } else if same(word, "/runtime") {
        Some(Slash::Run(Command::Runtime))
    } else if same(word, "/agents") {
        Some(Slash::Run(Command::Agents))
    } else if same(word, "/teams") {
        Some(Slash::Run(Command::Teams))
    } else if same(word, "/plans") {
        Some(Slash::Run(Command::Plans))
    } else if same(word, "/upgrades") {
        Some(Slash::Run(Command::Upgrades))
    } else if same(word, "/logs") {
        Some(Slash::Run(Command::Logs))
    } else if same(word, "/settings") {
        Some(Slash::Run(Command::Settings))
    } else if same(word, "/help") {
        Some(Slash::Help)
    } else if same(word, "/quit") {
        Some(Slash::Quit)
    } else if same(word, "/clear") {
        Some(Slash::Clear)
    } else {
        None
    }
}

#[derive(Debug)]
pub struct CommandPalette {
    pub query: String,
    pub selected: usize,
}

/// The first command the query could mean, or the first of all.
pub open spec fn best(query: Seq<char>, at: usize) -> bool {
    &&& at < Command::ALL@.len()
    &&& if exists|i: int|
        0 <= i < Command::ALL@.len() && (#[trigger] Command::ALL@[i]).answers(query) {
        &&& Command::ALL@[at as int].answers(query)
        &&& forall|i: int| 0 <= i < at ==> !(#[trigger] Command::ALL@[i]).answers(query)
    } else {
        at == 0
    }
}

impl CommandPalette {
    pub fn new() -> (r: CommandPalette)
        ensures
            r.query@.len() == 0,
            r.selected == 0,
    {
        CommandPalette { query: String::new(), selected: 0 }
    }

    pub fn visible(&self) -> (r: Vec<Command>)
        ensures
            r@ == Command::ALL@,
    {
        let all = Command::ALL;
        let mut out: Vec<Command> = Vec::new();
        let mut i: usize = 0;
        while i < all.len()
            invariant
                i <= all@.len(),
                all@ == Command::ALL@,
                out@ == all@.take(i as int),
            decreases all@.len() - i,
        {
            out.push(all[i]);
            assert(out@ =~= all@.take(i + 1));
            i += 1;
        }
        assert(all@.take(i as int) =~= all@);
        out
    }

    pub fn first_match(&self) -> (r: usize)
        ensures
            best(self.query@, r),
    {
        let all = Command::ALL;
        let mut i: usize = 0;
        while i < all.len()
            invariant
                i <= all@.len(),
                all@ == Command::ALL@,
                forall|k: int| 0 <= k < i ==> !(#[trigger] Command::ALL@[k]).answers(self.query@),
            decreases all@.len() - i,
        {
            if all[i].fits(self.query.as_str()) {
                assert(Command::ALL@[i as int].answers(self.query@));
                return i;
            }
            i += 1;
        }
        0
    }
}

// ----- the account ------------------------------------------------------------------

#[derive(Debug, Clone, Copy, PartialEq, Eq, Structural)]
pub enum AccountFlow {
    Browser,
    DeviceCode,
}

impl AccountFlow {
    pub open spec fn word(self) -> Seq<char> {
        match self {
            AccountFlow::Browser => "browser"@,
            AccountFlow::DeviceCode => "device_code"@,
        }
    }

    pub fn as_str(self) -> (r: &'static str)
        ensures
            r@ == self.word(),
    {
        match self {
            AccountFlow::Browser => "browser",
            AccountFlow::DeviceCode => "device_code",
        }
    }
}

#[derive(Debug)]
pub struct AccountDialog {
    pub pending: bool,
    pub flow: AccountFlow,
    pub login_id: Option<String>,
    pub url: Option<String>,
    pub code: Option<String>,
    pub error: Option<String>,
}

impl AccountDialog {
    pub open spec fn opened(flow: AccountFlow, pending: bool) -> AccountDialog {
        AccountDialog { pending, flow, login_id: None, url: None, code: None, error: None }
    }

    pub fn new(flow: AccountFlow) -> (r: AccountDialog)
        ensures
            r == AccountDialog::opened(flow, true),
    {
        AccountDialog { pending: true, flow, login_id: None, url: None, code: None, error: None }
    }

    /// The login that closing this dialog has to cancel.
    pub open spec fn abandoned(&self) -> Option<Seq<char>> {
        if self.pending {
            said(self.login_id)
        } else {
            None
        }
    }
}

} // verus!
