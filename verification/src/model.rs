//! The small vocabulary the panels share: planes, approvals, sessions and their declared
//! capabilities.

use vstd::prelude::*;

use crate::text::{agree, cat3, copy_text, earlier, lemma_precedes_irreflexive, lemma_precedes_total,
    lemma_precedes_transitive, precedes, said, same};

verus! {

/// The two kinds of session a runtime serves.
#[derive(Debug, Clone, Copy, PartialEq, Eq, Structural, Hash)]
pub enum Plane {
    Interactive,
    Coding,
}

impl Plane {
    pub open spec fn word(self) -> Seq<char> {
        match self {
            Plane::Interactive => "interactive"@,
            Plane::Coding => "coding"@,
        }
    }

    pub fn as_str(self) -> (r: &'static str)
        ensures
            r@ == self.word(),
    {
        match self {
            Plane::Interactive => "interactive",
            Plane::Coding => "coding",
        }
    }

    /// The method a verb is called by on this plane.
    pub open spec fn method_of(self, verb: Seq<char>) -> Seq<char> {
        self.word() + "."@ + verb
    }

    pub fn method(self, verb: &str) -> (r: String)
        ensures
            r@ == self.method_of(verb@),
    {
        cat3(self.as_str(), ".", verb)
    }

    /// Interactive sessions come before coding ones.
    pub open spec fn rank(self) -> int {
        match self {
            Plane::Interactive => 0,
            Plane::Coding => 1,
        }
    }
}

#[derive(Debug, Clone, Copy, PartialEq, Eq, Structural)]
pub enum ApprovalDecision {
    Approve,
    Deny,
}

impl ApprovalDecision {
    pub open spec fn word(self) -> Seq<char> {
        match self {
            ApprovalDecision::Approve => "approve"@,
            ApprovalDecision::Deny => "deny"@,
        }
    }

    pub fn as_str(self) -> (r: &'static str)
        ensures
            r@ == self.word(),
    {
        match self {
            ApprovalDecision::Approve => "approve",
            ApprovalDecision::Deny => "deny",
        }
    }
}

#[derive(Debug, Clone, Copy, PartialEq, Eq, Structural)]
pub enum ApprovalScope {
    Once,
    Session,
}

impl ApprovalScope {
    pub open spec fn word(self) -> Seq<char> {
        match self {
            ApprovalScope::Once => "once"@,
            ApprovalScope::Session => "session"@,
        }
    }

    pub fn as_str(self) -> (r: &'static str)
        ensures
            r@ == self.word(),
    {
        match self {
            ApprovalScope::Once => "once",
            ApprovalScope::Session => "session",
        }
    }
}

/// How much a session asks before it acts. `Default` is itself a value a start request can
/// state, which is a different statement from stating none.
#[derive(Debug, Clone, Copy, PartialEq, Eq, Structural)]
pub enum ApprovalMode {
    Default,
    Prompt,
    AutoEdit,
    AutoApprove,
}

impl ApprovalMode {
    pub const ALL: [ApprovalMode; 4] = [
        ApprovalMode::Default,
        ApprovalMode::Prompt,
        ApprovalMode::AutoEdit,
        ApprovalMode::AutoApprove,
    ];

    pub open spec fn word(self) -> Seq<char> {
        match self {
            ApprovalMode::Default => "default"@,
            ApprovalMode::Prompt => "prompt"@,
            ApprovalMode::AutoEdit => "auto_edit"@,
            ApprovalMode::AutoApprove => "auto_approve"@,
        }
    }

    pub fn as_str(self) -> (r: &'static str)
        ensures
            r@ == self.word(),
    {
        match self {
            ApprovalMode::Default => "default",
            ApprovalMode::Prompt => "prompt",
            ApprovalMode::AutoEdit => "auto_edit",
            ApprovalMode::AutoApprove => "auto_approve",
        }
    }

    pub open spec fn meaning(self) -> Seq<char> {
        match self {
            ApprovalMode::Default => "the provider's own policy"@,
            ApprovalMode::Prompt => "ask before actions"@,
            ApprovalMode::AutoEdit => "ask except for file edits"@,
            ApprovalMode::AutoApprove => "never ask"@,
        }
    }

    pub fn describe(self) -> (r: &'static str)
        ensures
            r@ == self.meaning(),
    {
        match self {
            ApprovalMode::Default => "the provider's own policy",
            ApprovalMode::Prompt => "ask before actions",
            ApprovalMode::AutoEdit => "ask except for file edits",
            ApprovalMode::AutoApprove => "never ask",
        }
    }

    /// The mode a stored word names. A word this build cannot name is no mode.
    pub open spec fn named(word: Seq<char>) -> Option<ApprovalMode> {
        if word == "default"@ {
            Some(ApprovalMode::Default)
        } else if word == "prompt"@ {
            Some(ApprovalMode::Prompt)
        } else if word == "auto_edit"@ {
            Some(ApprovalMode::AutoEdit)
        } else if word == "auto_approve"@ {
            Some(ApprovalMode::AutoApprove)
        } else {
            None
        }
    }

    pub fn parse(word: &str) -> (r: Option<ApprovalMode>)
        ensures
            r == ApprovalMode::named(word@),
    {
        if same(word, "default") {
            Some(ApprovalMode::Default)
        } else if same(word, "prompt") {
            Some(ApprovalMode::Prompt)
        } else if same(word, "auto_edit") {
            Some(ApprovalMode::AutoEdit)
        } else if same(word, "auto_approve") {
            Some(ApprovalMode::AutoApprove)
        } else {
            None
        }
    }
}

/// The word of a mode names that mode again.
pub proof fn lemma_approval_words_round_trip(mode: ApprovalMode)
    ensures
        ApprovalMode::named(mode.word()) == Some(mode),
{
    reveal_strlit("default");
    reveal_strlit("prompt");
    reveal_strlit("auto_edit");
    reveal_strlit("auto_approve");
    assert("default"@.len() == 7);
    assert("prompt"@.len() == 6);
    assert("auto_edit"@.len() == 9);
    assert("auto_approve"@.len() == 12);
}

#[derive(Debug, Clone, Copy, PartialEq, Eq, Structural)]
pub enum Effort {
    Low,
    Medium,
    High,
}

impl Effort {
    pub open spec fn word(self) -> Seq<char> {
        match self {
            Effort::Low => "low"@,
            Effort::Medium => "medium"@,
            Effort::High => "high"@,
        }
    }

    pub fn as_str(self) -> (r: &'static str)
        ensures
            r@ == self.word(),
    {
        match self {
            Effort::Low => "low",
            Effort::Medium => "medium",
            Effort::High => "high",
        }
    }

    pub open spec fn named(word: Seq<char>) -> Option<Effort> {
        if word == "low"@ {
            Some(Effort::Low)
        } else if word == "medium"@ {
            Some(Effort::Medium)
        } else if word == "high"@ {
            Some(Effort::High)
        } else {
            None
        }
    }

    pub fn parse(word: &str) -> (r: Option<Effort>)
        ensures
            r == Effort::named(word@),
    {
        if same(word, "low") {
            Some(Effort::Low)
        } else if same(word, "medium") {
            Some(Effort::Medium)
        } else if same(word, "high") {
            Some(Effort::High)
        } else {
            None
        }
    }
}

/// One answer a plan exit offers: its wire word, and the plain approval it falls back to where a
/// gateway takes no such word.
#[derive(Debug, Clone, PartialEq, Eq)]
pub struct PlanChoice {
    pub word: String,
    pub decision: ApprovalDecision,
    pub scope: ApprovalScope,
}

/// What the runtime says of a transport's ability: yes, no, or nothing.
#[derive(Debug, Clone, Copy, PartialEq, Eq, Structural)]
pub enum Capability {
    Yes,
    No,
    Unreported,
}

impl Capability {
    /// Only a declared ability is offered.
    pub fn offered(self) -> (r: bool)
        ensures
            r == (self is Yes),
    {
        match self {
            Capability::Yes => true,
            _ => false,
        }
    }
}

#[derive(Debug, Clone, Copy, PartialEq, Eq, Structural)]
pub struct Capabilities {
    pub interrupt: Capability,
    pub dynamic_configuration: Capability,
}

/// A session's status, as the runtime words it, and whether no more work will come of it.
#[derive(Debug, Clone, PartialEq, Eq)]
pub struct SessionStatus {
    pub word: String,
    pub terminal: bool,
}

/// One row of a session list.
#[derive(Debug, Clone, PartialEq, Eq)]
pub struct SessionInfo {
    pub plane: Plane,
    pub id: String,
    pub title: Option<String>,
    pub status: SessionStatus,
    pub provider: Option<String>,
    pub model: Option<String>,
    pub workspace: Option<String>,
    /// The owning node.
    pub node: Option<String>,
    /// The time of the last activity, in a form that sorts by time.
    pub updated_at: Option<String>,
    pub approval_mode: Option<String>,
    pub sandbox_mode: Option<String>,
    pub reasoning_effort: Option<Effort>,
    pub plan: bool,
    /// The owner is offline, and this is what was last known of the session.
    pub last_known: bool,
    pub capabilities: Capabilities,
    pub usage: Option<SessionUsage>,
}

#[derive(Debug, Clone, PartialEq, Eq)]
pub struct SessionUsage {
    pub input_tokens: Option<u64>,
    pub output_tokens: Option<u64>,
    pub cache_read_tokens: Option<u64>,
    pub cache_creation_tokens: Option<u64>,
    pub total_tokens: Option<u64>,
    pub turns_with_usage: Option<u64>,
    pub context_window: Option<u64>,
    /// The cost in dollars, as the runtime printed it.
    pub cost_usd: Option<String>,
}

impl SessionUsage {
    pub open spec fn same_as(&self, other: SessionUsage) -> bool {
        &&& said(self.cost_usd) == said(other.cost_usd)
        &&& *self == (SessionUsage { cost_usd: self.cost_usd, ..other })
    }

    pub fn copy(&self) -> (r: SessionUsage)
        ensures
            r.same_as(*self),
    {
        SessionUsage {
            input_tokens: self.input_tokens,
            output_tokens: self.output_tokens,
            cache_read_tokens: self.cache_read_tokens,
            cache_creation_tokens: self.cache_creation_tokens,
            total_tokens: self.total_tokens,
            turns_with_usage: self.turns_with_usage,
            context_window: self.context_window,
            cost_usd: copy_text(&self.cost_usd),
        }
    }
}

// ----- the order of the session list ------------------------------------------------

/// `None` sorts before any time.
pub open spec fn time_before(a: Option<Seq<char>>, b: Option<Seq<char>>) -> bool {
    match (a, b) {
        (None, Some(_)) => true,
        (Some(a), Some(b)) => precedes(a, b),
        _ => false,
    }
}

/// The newest activity first, and ties by plane, then by id.
pub open spec fn listed_before(a: SessionInfo, b: SessionInfo) -> bool {
    if said(a.updated_at) != said(b.updated_at) {
        time_before(said(b.updated_at), said(a.updated_at))
    } else if a.plane != b.plane {
        a.plane.rank() < b.plane.rank()
    } else {
        precedes(a.id@, b.id@)
    }
}

fn time_earlier(a: &Option<String>, b: &Option<String>) -> (r: bool)
    ensures
        r == time_before(said(*a), said(*b)),
{
    match (a, b) {
        (None, Some(_)) => true,
        (Some(a), Some(b)) => earlier(a.as_str(), b.as_str()),
        _ => false,
    }
}

pub fn goes_before(a: &SessionInfo, b: &SessionInfo) -> (r: bool)
    ensures
        r == listed_before(*a, *b),
{
    if !agree(&a.updated_at, &b.updated_at) {
        time_earlier(&b.updated_at, &a.updated_at)
    } else if a.plane != b.plane {
        a.plane == Plane::Interactive
    } else {
        earlier(a.id.as_str(), b.id.as_str())
    }
}

/// Of two sessions, one is listed before the other unless plane, id and time all agree.
pub proof fn lemma_the_list_order_is_total(a: SessionInfo, b: SessionInfo)
    ensures
        listed_before(a, b) || listed_before(b, a) || (said(a.updated_at) == said(b.updated_at)
            && a.plane == b.plane && a.id@ == b.id@),
        !(listed_before(a, b) && listed_before(b, a)),
{
    lemma_precedes_total(a.id@, b.id@);
    if a.updated_at is Some && b.updated_at is Some {
        lemma_precedes_total(a.updated_at->0@, b.updated_at->0@);
        if precedes(a.updated_at->0@, b.updated_at->0@) && precedes(
            b.updated_at->0@,
            a.updated_at->0@,
        ) {
            lemma_precedes_transitive(a.updated_at->0@, b.updated_at->0@, a.updated_at->0@);
            lemma_precedes_irreflexive(a.updated_at->0@);
        }
    }
    if precedes(a.id@, b.id@) && precedes(b.id@, a.id@) {
        lemma_precedes_transitive(a.id@, b.id@, a.id@);
        lemma_precedes_irreflexive(a.id@);
    }
}

pub proof fn lemma_the_list_order_is_transitive(a: SessionInfo, b: SessionInfo, c: SessionInfo)
    requires
        listed_before(a, b),
        listed_before(b, c),
    ensures
        listed_before(a, c),
{
    let (x, y, z) = (said(a.updated_at), said(b.updated_at), said(c.updated_at));
    if x is Some && y is Some && z is Some {
        if precedes(z->0, y->0) && precedes(y->0, x->0) {
            lemma_precedes_transitive(z->0, y->0, x->0);
            lemma_precedes_irreflexive(x->0);
        }
    }
    if precedes(a.id@, b.id@) && precedes(b.id@, c.id@) {
        lemma_precedes_transitive(a.id@, b.id@, c.id@);
    }
}

} // verus!
