//! What the text that is shown reads back as: the counts in a label are the counts it was made of.

use vstd::prelude::*;

use crate::cells::{
    Cell, DiffCell, Exploration, ImageCell, Plan, Speaker, SubagentCell, ThinkingState, ToolCell,
    ToolState, Usage,
};
use crate::clock::{digits_end, digits_value, is_digits};
use crate::desktop::{
    call_lines, diff_label, edit_line, face_of, offered_choices, standard_choices, step_lines,
    step_mark, wordless, ApprovalDetail, ApprovalDiff, ApprovalEdit, DesktopCellKind, DesktopTone,
};
use crate::model::{ApprovalDecision, ApprovalScope};
use crate::text::{
    decimal, digit, is_ascii_digit, joined, lemma_what_is_joined_comes_apart, replaced, said, split,
};

verus! {

/// The number that is written at a place of a text.
pub open spec fn number_at(s: Seq<char>, at: nat) -> int {
    digits_value(s.subrange(at as int, digits_end(s, at) as int))
}

/// A number that is written out reads back as itself.
pub proof fn lemma_a_number_reads_back(n: nat)
    ensures
        is_digits(decimal(n)),
        digits_value(decimal(n)) == n,
    decreases n,
{
    let s = decimal(n);
    if n < 10 {
        assert(s.drop_last() =~= Seq::empty());
        assert(s.last() == digit(n));
        assert(digits_value(s.drop_last()) == 0);
    } else {
        lemma_a_number_reads_back(n / 10);
        assert(s.drop_last() =~= decimal(n / 10));
        assert(s.last() == digit(n % 10));
    }
}

proof fn lemma_digits_end(s: Seq<char>, at: nat, end: nat)
    requires
        at <= end <= s.len(),
        forall|i: int| at <= i < end ==> is_ascii_digit(#[trigger] s[i]),
        end == s.len() || !is_ascii_digit(s[end as int]),
    ensures
        digits_end(s, at) == end,
    decreases end - at,
{
    if at < end {
        assert(is_ascii_digit(s[at as int]));
        lemma_digits_end(s, at + 1, end);
    }
}

/// A number between two other texts reads back, where no digit follows it.
pub proof fn lemma_a_number_inside_reads_back(s: Seq<char>, head: Seq<char>, n: nat, tail: Seq<char>)
    requires
        s == head + decimal(n) + tail,
        tail.len() == 0 || !is_ascii_digit(tail[0]),
    ensures
        number_at(s, head.len()) == n,
        digits_end(s, head.len()) == head.len() + decimal(n).len(),
        s.skip(digits_end(s, head.len()) as int) == tail,
        s.take(head.len() as int) == head,
{
    let d = decimal(n);
    lemma_a_number_reads_back(n);
    let end = (head.len() + d.len()) as nat;
    assert forall|i: int| head.len() <= i < end implies is_ascii_digit(#[trigger] s[i]) by {
        assert(s[i] == d[i - head.len()]);
    }
    if tail.len() > 0 {
        assert(s[end as int] == tail[0]);
    }
    lemma_digits_end(s, head.len(), end);
    assert(s.subrange(head.len() as int, end as int) =~= d);
    assert(s.skip(end as int) =~= tail);
    assert(s.take(head.len() as int) =~= head);
}

/// The two counts of a change, as a reader finds them: a number right behind a plus sign, a blank,
/// a minus sign and a number right behind it. `end` is where the second number ends.
pub open spec fn reads_as_change(
    s: Seq<char>,
    plus: nat,
    additions: nat,
    deletions: nat,
    end: nat,
) -> bool {
    let minus = digits_end(s, plus + 1) + 1;
    &&& plus < minus < end <= s.len()
    &&& s[plus as int] == '+'
    &&& number_at(s, plus + 1) == additions
    &&& s[minus - 1] == ' '
    &&& s[minus as int] == '\u{2212}'
    &&& number_at(s, minus + 1) == deletions
    &&& end == digits_end(s, minus + 1)
}

#[verifier::rlimit(60)]
proof fn lemma_reads_as_change(
    s: Seq<char>,
    head: Seq<char>,
    additions: nat,
    deletions: nat,
    tail: Seq<char>,
)
    requires
        s == head + decimal(additions) + " \u{2212}"@ + decimal(deletions) + tail,
        head.len() > 0,
        head.last() == '+',
        tail.len() == 0 || !is_ascii_digit(tail[0]),
    ensures
        reads_as_change(
            s,
            (head.len() - 1) as nat,
            additions,
            deletions,
            head.len() + decimal(additions).len() + 2 + decimal(deletions).len(),
        ),
        s.skip(
            (head.len() + decimal(additions).len() + 2 + decimal(deletions).len()) as int,
        ) == tail,
{
    reveal_strlit(" \u{2212}");
    let sign = " \u{2212}"@;
    let rest = sign + decimal(deletions) + tail;
    let before = head + decimal(additions) + sign;
    lemma_a_number_reads_back(deletions);
    assert(s =~= head + decimal(additions) + rest);
    assert(rest[0] == ' ');
    lemma_a_number_inside_reads_back(s, head, additions, rest);
    assert(s =~= before + decimal(deletions) + tail);
    lemma_a_number_inside_reads_back(s, before, deletions, tail);
    assert(s[head.len() - 1] == head.last());
    assert(s[before.len() - 2] == sign[0]);
    assert(s[before.len() - 1] == sign[1]);
}

/// The row of a diff begins with the path, or with the word for one that is not known. The number
/// behind its plus sign is how many lines were added, the one behind its minus sign how many were
/// removed, and what follows says whether the change waits for an approval.
#[verifier::rlimit(60)]
pub proof fn lemma_a_diff_row_counts_its_lines(diff: DiffCell)
    ensures
        ({
            let label = face_of(Cell::Diff(diff)).label;
            let shown = match diff.path {
                Some(path) => path@,
                None => "Diff"@,
            };
            let end = digits_end(label, digits_end(label, shown.len() + 4) + 2);
            &&& label.take(shown.len() as int) == shown
            &&& label.subrange(shown.len() as int, shown.len() as int + 4) == " \u{b7} +"@
            &&& reads_as_change(
                label,
                shown.len() + 3,
                diff.additions as nat,
                diff.deletions as nat,
                end,
            )
            &&& label.skip(end as int) == if diff.pending_approval {
                " \u{b7} awaiting approval"@
            } else {
                Seq::empty()
            }
        }),
        face_of(Cell::Diff(diff)).body == diff.text@,
{
    reveal_strlit(" \u{b7} +");
    reveal_strlit(" \u{b7} awaiting approval");
    reveal_strlit("");
    reveal_strlit("Diff");
    let label = face_of(Cell::Diff(diff)).label;
    let shown = match diff.path {
        Some(path) => path@,
        None => "Diff"@,
    };
    let head = shown + " \u{b7} +"@;
    let tail = if diff.pending_approval {
        " \u{b7} awaiting approval"@
    } else {
        ""@
    };
    assert(label =~= head + decimal(diff.additions as nat) + " \u{2212}"@ + decimal(
        diff.deletions as nat,
    ) + tail);
    lemma_reads_as_change(label, head, diff.additions as nat, diff.deletions as nat, tail);
    assert(label.take(shown.len() as int) =~= shown);
    assert(label.subrange(shown.len() as int, shown.len() as int + 4) =~= " \u{b7} +"@);
    assert(""@ =~= Seq::<char>::empty());
}

proof fn lemma_excerpt_begins_with_a_blank()
    ensures
        " \u{b7} excerpt"@.len() > 0,
        " \u{b7} excerpt"@[0] == ' ',
{
    reveal_strlit(" \u{b7} excerpt");
}

proof fn lemma_first_apart(
    a: Seq<char>,
    b: Seq<char>,
    c: Seq<char>,
    d: Seq<char>,
    e: Seq<char>,
    f: Seq<char>,
)
    ensures
        a + b + c + d + e + f == a + (b + c + d + e + f),
{
    assert(a + b + c + d + e + f =~= a + (b + c + d + e + f));
}

proof fn lemma_a_number_first_reads_back(s: Seq<char>, n: nat, tail: Seq<char>)
    requires
        s == decimal(n) + tail,
        tail.len() == 0 || !is_ascii_digit(tail[0]),
    ensures
        number_at(s, 0) == n,
        digits_end(s, 0) == decimal(n).len(),
{
    let none = Seq::<char>::empty();
    assert(s =~= none + decimal(n) + tail);
    lemma_a_number_inside_reads_back(s, none, n, tail);
}

proof fn lemma_noun_of_files(body: Seq<char>, count: Seq<char>, rest: Seq<char>)
    requires
        body == count + rest,
        rest.len() >= 10,
        rest.take(10) == " files \u{b7} +"@,
    ensures
        body.subrange(count.len() as int, count.len() as int + 9) == " files \u{b7} "@,
{
    reveal_strlit(" files \u{b7} +");
    reveal_strlit(" files \u{b7} ");
    assert forall|i: int| 0 <= i < 9 implies #[trigger] body.subrange(
        count.len() as int,
        count.len() as int + 9,
    )[i] == " files \u{b7} "@[i] by {
        assert(rest.take(10)[i] == rest[i]);
    }
    assert(body.subrange(count.len() as int, count.len() as int + 9) =~= " files \u{b7} "@);
}

/// The summary of a change begins with the number of files. The number behind its plus sign is how
/// many lines were added, the one behind its minus sign how many were removed.
#[verifier::rlimit(60)]
pub proof fn lemma_a_change_summary_counts_its_lines(
    files: u64,
    additions: u64,
    deletions: u64,
    in_excerpt: bool,
)
    ensures
        ({
            let body = face_of(Cell::DiffStat { files, additions, deletions, in_excerpt }).body;
            let plus = digits_end(body, 0) + 9;
            let end = digits_end(body, digits_end(body, plus + 1) + 2);
            &&& number_at(body, 0) == files
            &&& body.subrange(digits_end(body, 0) as int, plus as int) == " files \u{b7} "@
            &&& reads_as_change(body, plus, additions as nat, deletions as nat, end)
            &&& body.skip(end as int) == if in_excerpt {
                " \u{b7} excerpt"@
            } else {
                Seq::empty()
            }
        }),
{
    reveal_strlit(" files \u{b7} +");
    reveal_strlit("");
    let body = face_of(Cell::DiffStat { files, additions, deletions, in_excerpt }).body;
    let count = decimal(files as nat);
    let noun = " files \u{b7} +"@;
    let tail = if in_excerpt {
        " \u{b7} excerpt"@
    } else {
        ""@
    };
    let (more, less) = (decimal(additions as nat), decimal(deletions as nat));
    assert(""@ =~= Seq::<char>::empty());
    lemma_excerpt_begins_with_a_blank();
    lemma_reads_as_change(body, count + noun, additions as nat, deletions as nat, tail);
    lemma_first_apart(count, noun, more, " \u{2212}"@, less, tail);
    let rest = noun + more + " \u{2212}"@ + less + tail;
    assert(rest[0] == noun[0]);
    lemma_a_number_first_reads_back(body, files as nat, rest);
    assert(rest.take(10) =~= noun);
    lemma_noun_of_files(body, count, rest);
}

// ----- the other rows ---------------------------------------------------------------

/// A message is said by whoever said it, and says what they said.
pub proof fn lemma_a_message_row_names_its_speaker(speaker: Speaker, text: String, streaming: bool)
    ensures
        ({
            let face = face_of(Cell::Message { speaker, text, streaming });
            &&& face.label == "You"@ <==> speaker == Speaker::You
            &&& face.label == "Agent"@ <==> speaker == Speaker::Agent
            &&& face.tone == DesktopTone::Accent <==> speaker == Speaker::Agent
            &&& face.body == text@
            &&& face.streaming == streaming
        }),
{
    reveal_strlit("You");
    reveal_strlit("Agent");
    assert("You"@.len() != "Agent"@.len());
}

/// A row of thinking says how many lines it holds, and is live while they are written.
#[verifier::rlimit(60)]
pub proof fn lemma_a_thinking_row_counts_its_lines(text: String, lines: u64, state: ThinkingState)
    ensures
        ({
            let face = face_of(Cell::Thinking { text, lines, state });
            &&& face.label.take(11) == "Thinking \u{b7} "@
            &&& number_at(face.label, 11) == lines
            &&& face.label.skip(digits_end(face.label, 11) as int) == if lines == 1 {
                " line"@
            } else {
                " lines"@
            }
            &&& face.body == text@
            &&& face.streaming <==> state == ThinkingState::Tail
        }),
{
    reveal_strlit("Thinking \u{b7} ");
    reveal_strlit(" line");
    reveal_strlit(" lines");
    reveal_strlit("s");
    reveal_strlit("");
    let label = face_of(Cell::Thinking { text, lines, state }).label;
    let tail = if lines == 1 {
        " line"@
    } else {
        " lines"@
    };
    assert(label =~= "Thinking \u{b7} "@ + decimal(lines as nat) + tail);
    lemma_a_number_inside_reads_back(label, "Thinking \u{b7} "@, lines as nat, tail);
}

/// A plan says how many steps it has and lists those it holds in order, one to a line: a check mark
/// leads one that is done, an arrow one that is under way, a ring one that waits.
#[verifier::rlimit(60)]
pub proof fn lemma_a_plan_row_marks_its_steps(plan: Plan, k: int)
    requires
        0 <= k < plan.steps@.len(),
    ensures
        ({
            let face = face_of(Cell::Plan(plan));
            let lines = step_lines(plan.steps@);
            let step = plan.steps@[k];
            &&& number_at(face.label, 7) == plan.step_count
            &&& face.body == joined(lines, "\n"@)
            &&& lines.len() == plan.steps@.len()
            &&& lines[k][0] == '\u{2713}' <==> step.status is Done
            &&& lines[k][0] == '\u{2192}' <==> step.status is InProgress
            &&& lines[k][0] == '\u{25cb}' <==> step.status is Pending
            &&& lines[k][1] == ' '
            &&& lines[k].len() == step.text@.len() + 2
            &&& forall|i: int|
                0 <= i < step.text@.len() && step.text@[i] != '\n' ==> #[trigger] lines[k][i + 2]
                    == step.text@[i]
        }),
{
    reveal_strlit("Plan \u{b7} ");
    reveal_strlit(" steps");
    reveal_strlit("\u{2713}");
    reveal_strlit("\u{2192}");
    reveal_strlit("\u{25cb}");
    reveal_strlit("\u{b7}");
    reveal_strlit(" ");
    let label = face_of(Cell::Plan(plan)).label;
    lemma_a_number_inside_reads_back(
        label,
        "Plan \u{b7} "@,
        plan.step_count as nat,
        " steps"@,
    );
    let step = plan.steps@[k];
    let line = step_lines(plan.steps@)[k];
    assert(line == step_mark(step.status) + " "@ + replaced(step.text@, '\n', ' '));
}

/// The body of a plan reads back line by line: one line for each step it holds, in their order.
#[verifier::rlimit(60)]
pub proof fn lemma_a_plan_row_has_a_line_for_each_step(plan: Plan)
    requires
        plan.steps@.len() > 0,
    ensures
        split(face_of(Cell::Plan(plan)).body, '\n').len() == plan.steps@.len(),
        forall|k: int|
            0 <= k < plan.steps@.len() ==> (#[trigger] split(
                face_of(Cell::Plan(plan)).body,
                '\n',
            )[k]).skip(2) == replaced(plan.steps@[k].text@, '\n', ' '),
{
    reveal_strlit("\n");
    reveal_strlit("\u{2713}");
    reveal_strlit("\u{2192}");
    reveal_strlit("\u{25cb}");
    reveal_strlit("\u{b7}");
    reveal_strlit(" ");
    let lines = step_lines(plan.steps@);
    assert("\n"@ =~= seq!['\n']);
    assert forall|k: int| 0 <= k < lines.len() implies !(#[trigger] lines[k]).contains('\n') by {
        let step = plan.steps@[k];
        let text = replaced(step.text@, '\n', ' ');
        let line = step_mark(step.status) + " "@ + text;
        assert(lines[k] == line);
        if line.contains('\n') {
            let i = choose|i: int| 0 <= i < line.len() && line[i] == '\n';
            if i >= 2 {
                assert(line[i] == text[i - 2]);
            }
        }
    }
    lemma_what_is_joined_comes_apart(lines, '\n');
    assert forall|k: int| 0 <= k < plan.steps@.len() implies (#[trigger] split(
        face_of(Cell::Plan(plan)).body,
        '\n',
    )[k]).skip(2) == replaced(plan.steps@[k].text@, '\n', ' ') by {
        assert(lines[k].skip(2) =~= replaced(plan.steps@[k].text@, '\n', ' '));
    }
}

/// A row of usage begins with the tokens that were used, and ends with what they cost where that
/// is known.
#[verifier::rlimit(60)]
pub proof fn lemma_a_usage_row_counts_its_tokens(usage: Usage)
    ensures
        ({
            let body = face_of(Cell::Usage(usage)).body;
            let end = digits_end(body, 0) as int;
            &&& number_at(body, 0) == match usage.total_tokens {
                Some(n) => n as int,
                None => 0,
            }
            &&& body.skip(end) == match usage.cost_usd {
                Some(cost) => " tokens \u{b7} $"@ + cost@,
                None => " tokens"@,
            }
        }),
{
    reveal_strlit(" tokens");
    reveal_strlit(" \u{b7} $");
    reveal_strlit(" tokens \u{b7} $");
    let body = face_of(Cell::Usage(usage)).body;
    let n = match usage.total_tokens {
        Some(n) => n as nat,
        None => 0,
    };
    let tail = match usage.cost_usd {
        Some(cost) => " tokens \u{b7} $"@ + cost@,
        None => " tokens"@,
    };
    assert(body =~= Seq::<char>::empty() + decimal(n) + tail);
    lemma_a_number_inside_reads_back(body, Seq::empty(), n, tail);
}

/// The row of a tool is live exactly while the tool runs, and an error exactly where it failed. Its
/// identity is that of the call.
pub proof fn lemma_a_tool_row_shows_how_it_stands(tool: ToolCell)
    ensures
        ({
            let face = face_of(Cell::Tool(tool));
            &&& face.streaming <==> tool.state == ToolState::Running
            &&& face.tone == DesktopTone::Error <==> tool.state == ToolState::Failed
            &&& face.label == tool.summary@
            &&& face.key is Some <==> tool.call_id is Some
            &&& tool.call_id is Some ==> face.key == Some("tool:"@ + tool.call_id->0@)
            &&& tool.output is None ==> face.body.len() == 0
        }),
{
}

/// Two calls have one identity only where they are the same call.
pub proof fn lemma_tool_rows_are_told_apart(a: ToolCell, b: ToolCell)
    requires
        a.call_id is Some,
        face_of(Cell::Tool(a)).key == face_of(Cell::Tool(b)).key,
    ensures
        b.call_id is Some,
        a.call_id->0@ == b.call_id->0@,
{
    let prefix = "tool:"@;
    let (x, y) = (prefix + a.call_id->0@, prefix + b.call_id->0@);
    assert(x == y);
    assert(x.skip(prefix.len() as int) =~= a.call_id->0@);
    assert(y.skip(prefix.len() as int) =~= b.call_id->0@);
}

/// A group of reads says how many there were and lists them in order, and is live until it is done.
#[verifier::rlimit(60)]
pub proof fn lemma_an_exploration_counts_its_calls(group: Exploration)
    ensures
        ({
            let face = face_of(Cell::Exploration(group));
            let at: nat = if group.done {
                9
            } else {
                10
            };
            &&& face.label.take(at as int) == if group.done {
                "Explored "@
            } else {
                "Exploring "@
            }
            &&& number_at(face.label, at) == group.total
            &&& face.streaming <==> !group.done
            &&& face.body == joined(call_lines(group.calls@), "\n"@)
            &&& call_lines(group.calls@).len() == group.calls@.len()
            &&& forall|k: int|
                0 <= k < group.calls@.len() ==> #[trigger] call_lines(group.calls@)[k]
                    == group.calls@[k].summary@
        }),
{
    reveal_strlit("Explored ");
    reveal_strlit("Exploring ");
    reveal_strlit(" items");
    reveal_strlit(" items\u{2026}");
    let label = face_of(Cell::Exploration(group)).label;
    if group.done {
        lemma_a_number_inside_reads_back(label, "Explored "@, group.total as nat, " items"@);
    } else {
        lemma_a_number_inside_reads_back(
            label,
            "Exploring "@,
            group.total as nat,
            " items\u{2026}"@,
        );
    }
}

/// The caption of a picture gives its width before its height.
#[verifier::rlimit(60)]
pub proof fn lemma_a_caption_gives_width_and_height(image: ImageCell)
    requires
        image.pixels is Some,
    ensures
        ({
            let caption = image.caption();
            let at = image.named@.len() + 3;
            let by = digits_end(caption, at);
            &&& caption.take(image.named@.len() as int) == image.named@
            &&& number_at(caption, at) == (image.pixels->0).0
            &&& by < caption.len()
            &&& caption[by as int] == '\u{d7}'
            &&& number_at(caption, by + 1) == (image.pixels->0).1
        }),
{
    reveal_strlit(" \u{b7} ");
    reveal_strlit("\u{d7}");
    reveal_strlit(" ");
    let caption = image.caption();
    let (width, height) = ((image.pixels->0).0 as nat, (image.pixels->0).1 as nat);
    let format = match image.format {
        Some(format) => " "@ + format@,
        None => Seq::empty(),
    };
    let note = match image.note {
        Some(note) => " \u{b7} "@ + note@,
        None => Seq::empty(),
    };
    let tail = format + note;
    let head = image.named@ + " \u{b7} "@;
    let rest = "\u{d7}"@ + decimal(height) + tail;
    assert(caption =~= head + decimal(width) + rest);
    assert(rest[0] == '\u{d7}');
    lemma_a_number_inside_reads_back(caption, head, width, rest);
    let before = head + decimal(width) + "\u{d7}"@;
    assert(caption =~= before + decimal(height) + tail);
    if tail.len() > 0 {
        assert(tail[0] == ' ');
    }
    lemma_a_number_inside_reads_back(caption, before, height, tail);
    assert(caption[before.len() - 1] == '\u{d7}');
    assert(caption.take(image.named@.len() as int) =~= image.named@);
}

/// A picture that was recorded is shown with its own width and height; one that was not stays a
/// file row.
pub proof fn lemma_a_picture_keeps_its_shape(image: ImageCell)
    ensures
        ({
            let kind = face_of(Cell::Image(image)).kind;
            &&& kind is File <==> image.sha is None
            &&& image.sha is Some ==> {
                &&& kind matches DesktopCellKind::Image { sha, width, height, .. }
                &&& sha == image.sha
                &&& width == match image.pixels {
                    Some((w, _)) => Some(w),
                    None => None,
                }
                &&& height == match image.pixels {
                    Some((_, h)) => Some(h),
                    None => None,
                }
            }
        }),
{
}

/// The row of a child agent is live until the child has settled. Only a settled child is a success
/// or an error: a success where it completed, an error where it failed or ran out of time.
pub proof fn lemma_a_child_is_judged_when_it_settles(child: SubagentCell)
    ensures
        ({
            let face = face_of(Cell::Subagent(child));
            &&& face.streaming <==> !child.settled
            &&& face.tone == DesktopTone::Success <==> child.settled && said(child.status) == Some(
                "completed"@,
            )
            &&& face.tone == DesktopTone::Error <==> child.settled && (said(child.status) == Some(
                "failed"@,
            ) || said(child.status) == Some("timed_out"@))
            &&& face.key is Some <==> child.task_id is Some
        }),
{
    reveal_strlit("completed");
    reveal_strlit("failed");
    reveal_strlit("timed_out");
    assert("completed"@.len() == 9 && "completed"@[0] == 'c');
    assert("timed_out"@.len() == 9 && "timed_out"@[0] == 't');
    assert("failed"@.len() == 6);
}

/// What a child has used is listed with its input before its output.
#[verifier::rlimit(60)]
pub proof fn lemma_a_child_counts_what_it_used(child: SubagentCell)
    requires
        child.input_tokens is Some,
        child.output_tokens is Some,
    ensures
        child.facts().len() > 0,
        ({
            let last = child.facts().last();
            let end = digits_end(last, 0);
            &&& number_at(last, 0) == child.input_tokens->0
            &&& last.subrange(end as int, end as int + 6) == " in / "@
            &&& number_at(last, end + 6) == child.output_tokens->0
        }),
{
    reveal_strlit(" in / ");
    reveal_strlit(" out tokens");
    let (input, output) = (child.input_tokens->0 as nat, child.output_tokens->0 as nat);
    let last = child.facts().last();
    let middle = " in / "@;
    let tail = " out tokens"@;
    let rest = middle + decimal(output) + tail;
    assert(last =~= Seq::<char>::empty() + decimal(input) + rest);
    assert(rest[0] == ' ');
    lemma_a_number_inside_reads_back(last, Seq::empty(), input, rest);
    let head = decimal(input) + middle;
    assert(last =~= head + decimal(output) + tail);
    lemma_a_number_inside_reads_back(last, head, output, tail);
    assert(last.subrange(decimal(input).len() as int, decimal(input).len() as int + 6) =~= middle);
}

// ----- approval cards ---------------------------------------------------------------

/// The change on an approval card is counted as a diff row counts it.
#[verifier::rlimit(60)]
pub proof fn lemma_a_card_counts_the_lines_of_its_change(diff: ApprovalDiff, excerpted: bool)
    ensures
        ({
            let label = diff_label(diff, excerpted);
            let plus = match diff.path {
                Some(path) => path@.len() + 3,
                None => 0,
            };
            let end = digits_end(label, digits_end(label, plus + 1) + 2);
            &&& reads_as_change(label, plus, diff.additions as nat, diff.deletions as nat, end)
            &&& label.skip(end as int) == if excerpted || diff.truncated {
                " \u{b7} excerpt"@
            } else {
                Seq::empty()
            }
            &&& diff.path is Some ==> label.take(diff.path->0@.len() as int) == diff.path->0@
        }),
{
    reveal_strlit(" \u{b7} ");
    reveal_strlit("+");
    reveal_strlit(" \u{b7} excerpt");
    reveal_strlit("");
    let label = diff_label(diff, excerpted);
    let head = match diff.path {
        Some(path) => path@ + " \u{b7} "@ + "+"@,
        None => "+"@,
    };
    let tail = if excerpted || diff.truncated {
        " \u{b7} excerpt"@
    } else {
        ""@
    };
    assert(label =~= head + decimal(diff.additions as nat) + " \u{2212}"@ + decimal(
        diff.deletions as nat,
    ) + tail);
    lemma_reads_as_change(label, head, diff.additions as nat, diff.deletions as nat, tail);
    if let Some(path) = diff.path {
        assert(label.take(path@.len() as int) =~= path@);
    }
    assert(""@ =~= Seq::<char>::empty());
}

/// An edit is sized from what was there to what will be.
#[verifier::rlimit(60)]
pub proof fn lemma_an_edit_is_sized_from_old_to_new(edit: ApprovalEdit)
    ensures
        ({
            let line = edit_line(edit);
            let at = edit.path@.len() + edit.kind@.len() + 6;
            let end = digits_end(line, at);
            &&& line.take(edit.path@.len() as int) == edit.path@
            &&& number_at(line, at) == edit.old_bytes
            &&& line.subrange(end as int, end as int + 3) == " \u{2192} "@
            &&& number_at(line, end + 3) == edit.new_bytes
        }),
{
    reveal_strlit(" \u{b7} ");
    reveal_strlit(" \u{2192} ");
    reveal_strlit(" bytes");
    let line = edit_line(edit);
    let (was, will) = (decimal(edit.old_bytes as nat), decimal(edit.new_bytes as nat));
    let head = edit.path@ + " \u{b7} "@ + edit.kind@ + " \u{b7} "@;
    let arrow = " \u{2192} "@;
    let rest = arrow + will + " bytes"@;
    assert(line =~= head + was + rest);
    assert(rest[0] == ' ');
    lemma_a_number_inside_reads_back(line, head, edit.old_bytes as nat, rest);
    let before = head + was + arrow;
    assert(line =~= before + will + " bytes"@);
    lemma_a_number_inside_reads_back(line, before, edit.new_bytes as nat, " bytes"@);
    let end = head.len() + was.len();
    assert(line.subrange(end as int, end as int + 3) =~= arrow);
    assert(line.take(edit.path@.len() as int) =~= edit.path@);
}

/// The answers that every card can offer do what they say: to allow approves and to deny denies,
/// and only an answer for the session outlasts the request.
#[verifier::rlimit(60)]
pub proof fn lemma_the_standard_answers_do_what_they_say(k: int)
    requires
        0 <= k < standard_choices().len(),
    ensures
        ({
            let row = standard_choices()[k];
            &&& row.decision == Some(ApprovalDecision::Approve) <==> row.label.take(5) == "Allow"@
            &&& row.decision == Some(ApprovalDecision::Deny) <==> row.label.take(4) == "Deny"@
            &&& row.scope == Some(ApprovalScope::Once) <==> row.label.skip(row.label.len() - 4)
                == "once"@
            &&& row.scope == Some(ApprovalScope::Session) <==> row.label.skip(row.label.len() - 7)
                == "session"@
            &&& row.plan is None
        }),
        standard_choices().len() == 4,
{
    reveal_strlit("Allow once");
    reveal_strlit("Allow for session");
    reveal_strlit("Deny once");
    reveal_strlit("Deny for session");
    reveal_strlit("Allow");
    reveal_strlit("Deny");
    reveal_strlit("once");
    reveal_strlit("session");
    let row = standard_choices()[k];
    assert("Allow"@[0] == 'A' && "Deny"@[0] == 'D' && "once"@[0] == 'o' && "session"@[0] == 's');
    let n = row.label.len() as int;
    assert(row.label.take(5)[0] == row.label[0]);
    assert(row.label.take(4)[0] == row.label[0]);
    assert(row.label.skip(n - 4)[0] == row.label[n - 4]);
    assert(row.label.skip(n - 7)[0] == row.label[n - 7]);
    if row.label[0] == 'A' {
        assert(row.label.take(5) =~= "Allow"@);
    } else {
        assert(row.label.take(4) =~= "Deny"@);
    }
    if row.label[n - 4] == 'o' {
        assert(row.label.skip(n - 4) =~= "once"@);
    } else {
        assert(row.label.skip(n - 7) =~= "session"@);
    }
}

/// An answer that a request lists is offered under its own name, and decides what it stands for.
pub proof fn lemma_a_listed_answer_is_offered_as_listed(detail: ApprovalDetail, k: int)
    requires
        detail.plan is None,
        forall|i: int| 0 <= i < detail.options@.len() ==> (#[trigger] detail.options@[i]).answer is None,
        0 <= k < detail.options@.len(),
    ensures
        offered_choices(detail).len() == detail.options@.len(),
        ({
            let (row, option) = (offered_choices(detail)[k], detail.options@[k]);
            &&& row.label == option.name@
            &&& match option.mapped {
                Some((decision, scope)) => row.decision == Some(decision) && row.scope == Some(
                    scope,
                ),
                None => row.decision is None && row.scope is None,
            }
        }),
{
}

/// A request that lists an answer in words of its own keeps the standard answers.
pub proof fn lemma_an_answer_in_words_is_not_offered(detail: ApprovalDetail, k: int)
    requires
        detail.plan is None,
        0 <= k < detail.options@.len(),
        detail.options@[k].answer is Some,
    ensures
        offered_choices(detail).len() == 4,
        forall|i: int|
            0 <= i < 4 ==> (#[trigger] offered_choices(detail)[i]).decision is Some,
{
    assert(!wordless(detail.options@));
}

} // verus!
