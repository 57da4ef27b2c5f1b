//! Screen-reader mode and reduced motion: the two settings that change *what* is drawn
//! rather than what colour it is drawn in.
//!
//! Screen-reader mode swaps the vocabulary: a box becomes a label, a truncation marker becomes
//! a sentence, and a menu row gets a number a person can type. [`Label`] is the whole list of
//! labels. [`resolve`] is a function of the four things that decide the settings.

use vstd::prelude::*;

use crate::text::{
    cat2, cat3, count, decimal, lower, lowered, same, trim, trimmed,
};

verus! {

/// What the accessibility settings resolved to.
#[derive(Debug, Clone, Copy, PartialEq, Eq, Structural)]
pub struct Settings {
    pub screen_reader: bool,
    pub reduced_motion: bool,
}

impl Default for Settings {
    fn default() -> (r: Settings)
        ensures
            !r.screen_reader,
            !r.reduced_motion,
    {
        Settings { screen_reader: false, reduced_motion: false }
    }
}

/// The environment variables that can turn either of these on, read once so that [`resolve`]
/// stays a function of its arguments.
#[derive(Debug, Clone)]
pub struct Env {
    /// `OURO_SCREEN_READER`. Any value but `0`, `false`, `no` or empty turns it on.
    pub screen_reader: Option<String>,
    /// `OURO_REDUCED_MOTION`, and the cross-platform spelling terminals increasingly export.
    pub reduced_motion: Option<String>,
}

impl Default for Env {
    fn default() -> (r: Env)
        ensures
            r.screen_reader is None,
            r.reduced_motion is None,
    {
        Env { screen_reader: None, reduced_motion: None }
    }
}

/// Whether a variable is *asserting* something: it exists, and it is none of the spellings
/// that mean "no".
pub open spec fn asserts_on(value: Option<String>) -> bool {
    match value {
        None => false,
        Some(value) => {
            let word = trimmed(value@);
            &&& word.len() > 0
            &&& word != "0"@
            &&& lowered(word) != "false"@
            &&& lowered(word) != "no"@
        },
    }
}

fn asserted(value: &Option<String>) -> (r: bool)
    ensures
        r == asserts_on(*value),
{
    match value {
        None => false,
        Some(value) => {
            let word = trim(value.as_str());
            if word.as_str().is_empty() || same(word.as_str(), "0") {
                false
            } else {
                let small = lower(word.as_str());
                !same(small.as_str(), "false") && !same(small.as_str(), "no")
            }
        },
    }
}

/// The `[accessibility]` table as the configuration read it.
///
/// A trait rather than a struct so that this module and the configuration do not depend on
/// each other.
pub trait Accessibility: Copy {
    spec fn wants_screen_reader(self) -> bool;

    spec fn wants_reduced_motion(self) -> bool;

    fn screen_reader(self) -> (r: bool)
        ensures
            r == self.wants_screen_reader(),
    ;

    fn reduced_motion(self) -> (r: bool)
        ensures
            r == self.wants_reduced_motion(),
    ;
}

impl Accessibility for Settings {
    open spec fn wants_screen_reader(self) -> bool {
        self.screen_reader
    }

    open spec fn wants_reduced_motion(self) -> bool {
        self.reduced_motion
    }

    fn screen_reader(self) -> bool {
        self.screen_reader
    }

    fn reduced_motion(self) -> bool {
        self.reduced_motion
    }
}

/// Which settings a config file, a flag and the environment add up to.
///
/// Any of the three turning something on turns it on. Screen-reader mode implies reduced
/// motion, and that implication is one-way.
pub fn resolve<A: Accessibility>(config: A, flag: bool, env: &Env) -> (r: Settings)
    ensures
        r.screen_reader == (flag || config.wants_screen_reader() || asserts_on(env.screen_reader)),
        r.reduced_motion == (r.screen_reader || config.wants_reduced_motion() || asserts_on(
            env.reduced_motion,
        )),
{
    let screen_reader = flag || config.screen_reader() || asserted(&env.screen_reader);
    let reduced_motion = screen_reader || config.reduced_motion() || asserted(&env.reduced_motion);
    Settings { screen_reader, reduced_motion }
}

/// What a line of the transcript is, said in a word.
#[derive(Debug, Clone, Copy, PartialEq, Eq, Structural)]
pub enum Label {
    You,
    Agent,
    Thinking,
    Tool,
    ToolError,
    Error,
    Warning,
    ApprovalNeeded,
}

pub open spec fn label_text(label: Label) -> Seq<char> {
    match label {
        Label::You => "you:"@,
        Label::Agent => "agent:"@,
        Label::Thinking => "thinking:"@,
        Label::Tool => "tool:"@,
        Label::ToolError => "tool error:"@,
        Label::Error => "error:"@,
        Label::Warning => "warning:"@,
        Label::ApprovalNeeded => "approval needed:"@,
    }
}

impl Label {
    /// Every label.
    pub const ALL: [Label; 8] = [
        Label::You,
        Label::Agent,
        Label::Thinking,
        Label::Tool,
        Label::ToolError,
        Label::Error,
        Label::Warning,
        Label::ApprovalNeeded,
    ];

    /// The prefix, colon included. The colon is what makes a label sound like one when it is
    /// spoken rather than seen.
    pub fn as_str(self) -> (r: &'static str)
        ensures
            r@ == label_text(self),
    {
        match self {
            Label::You => "you:",
            Label::Agent => "agent:",
            Label::Thinking => "thinking:",
            Label::Tool => "tool:",
            Label::ToolError => "tool error:",
            Label::Error => "error:",
            Label::Warning => "warning:",
            Label::ApprovalNeeded => "approval needed:",
        }
    }
}

/// A label is lower-case words, and its only colon is its last character.
pub proof fn lemma_label_is_words_and_a_colon(label: Label)
    ensures
        label_text(label).len() > 0,
        label_text(label).last() == ':',
        forall|i: int|
            0 <= i < label_text(label).len() - 1 ==> {
                let c = #[trigger] label_text(label)[i];
                c == ' ' || 'a' <= c <= 'z'
            },
{
    reveal_strlit("you:");
    reveal_strlit("agent:");
    reveal_strlit("thinking:");
    reveal_strlit("tool:");
    reveal_strlit("tool error:");
    reveal_strlit("error:");
    reveal_strlit("warning:");
    reveal_strlit("approval needed:");
}

/// Two labels that read the same are the same label.
pub proof fn lemma_labels_are_distinct(a: Label, b: Label)
    requires
        label_text(a) == label_text(b),
    ensures
        a == b,
{
    reveal_strlit("you:");
    reveal_strlit("agent:");
    reveal_strlit("thinking:");
    reveal_strlit("tool:");
    reveal_strlit("tool error:");
    reveal_strlit("error:");
    reveal_strlit("warning:");
    reveal_strlit("approval needed:");
    assert("you:"@.len() == 4);
    assert("agent:"@.len() == 6 && "agent:"@[0] == 'a');
    assert("thinking:"@.len() == 9);
    assert("tool:"@.len() == 5);
    assert("tool error:"@.len() == 11);
    assert("error:"@.len() == 6 && "error:"@[0] == 'e');
    assert("warning:"@.len() == 8);
    assert("approval needed:"@.len() == 16);
}

/// A truncation marker, spelled out: the same fact as `… +12 lines`, as a sentence.
pub open spec fn omitted_text(count: nat, what: Seq<char>, key: Seq<char>) -> Seq<char> {
    decimal(count) + " more "@ + what + (if count == 1 {
        ""@
    } else {
        "s"@
    }) + " not shown here; press "@ + key + " to show all"@
}

pub fn omitted(count: usize, what: &str, key: &str) -> (r: String)
    ensures
        r@ == omitted_text(count as nat, what@, key@),
{
    let mut out = cat3(crate::text::count(count).as_str(), " more ", what);
    out.append(
        if count == 1 {
            ""
        } else {
            "s"
        },
    );
    out.append(" not shown here; press ");
    out.append(key);
    out.append(" to show all");
    out
}

pub open spec fn row_number_of(index: nat) -> Option<nat> {
    if index < 9 {
        Some(index + 1)
    } else {
        None
    }
}

/// A menu row's number: one to nine, then nothing. Past nine there is no single digit to press.
pub fn row_number(index: usize) -> (r: Option<usize>)
    ensures
        match r {
            Some(n) => row_number_of(index as nat) == Some(n as nat),
            None => row_number_of(index as nat) is None,
        },
{
    if index < 9 {
        Some(index + 1)
    } else {
        None
    }
}

pub open spec fn digit_row(c: char) -> Option<nat> {
    if '1' <= c <= '9' {
        Some((c as nat - '1' as nat) as nat)
    } else {
        None
    }
}

/// The row a keystroke names, or `None` for a key that is not one of the nine digits.
pub fn row_for_digit(character: char) -> (r: Option<usize>)
    ensures
        match r {
            Some(n) => digit_row(character) == Some(n as nat),
            None => digit_row(character) is None,
        },
{
    if '1' <= character && character <= '9' {
        Some((character as usize) - ('1' as usize))
    } else {
        None
    }
}

/// The digit drawn before a row selects that row, and every digit that selects a row is drawn
/// before it.
pub proof fn lemma_the_number_drawn_selects_the_row(index: nat, c: char)
    ensures
        digit_row(c) == Some(index) <==> (row_number_of(index) is Some && c == crate::text::digit(
            row_number_of(index)->0,
        )),
{
    if index < 9 {
        assert(crate::text::digit(index + 1) as nat == 49 + index);
    }
}

pub open spec fn numbered_text(index: nat, text: Seq<char>) -> Seq<char> {
    match row_number_of(index) {
        Some(n) => decimal(n) + ". "@ + text,
        None => "   "@ + text,
    }
}

/// A menu row's label with its number in front, or indented past the ninth.
pub fn numbered(index: usize, text: &str) -> (r: String)
    ensures
        r@ == numbered_text(index as nat, text@),
{
    match row_number(index) {
        Some(n) => cat3(count(n).as_str(), ". ", text),
        None => cat2("   ", text),
    }
}

/// OSC 133 semantic-prompt markers: the first opens a prompt region and the second closes it.
pub const PROMPT_START: &'static str = "\x1b]133;A\x07";

pub const PROMPT_END: &'static str = "\x1b]133;B\x07";

} // verus!
