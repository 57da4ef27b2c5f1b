//! The page a one-shot status command prints.
//!
//! Nothing here knows the name of a plane. The availability matrix is whatever members the
//! runtime sent, in name order, so a plane added upstream appears without a change here.

use vstd::prelude::*;

use crate::clock::digits_end;
use crate::json::{items_view, members_view, Json, Member, JsonView};
use crate::readings::{lemma_a_number_inside_reads_back, number_at};
use crate::text::{
    cat2, cat3, cat4, count, decimal, earlier, is_control, join, joined,
    lemma_plain_has_no_control, number, pad, padded, page, plain, plain_text, precedes, texts,
    to_page,
};
use crate::wire::Hello;

verus! {

pub open spec fn or_unknown(s: Seq<char>) -> Seq<char> {
    if s.len() == 0 {
        "unknown"@
    } else {
        s
    }
}

fn blank_as_unknown(value: &str) -> (r: &str)
    ensures
        r@ == or_unknown(value@),
{
    if value.is_empty() {
        "unknown"
    } else {
        value
    }
}

/// The header's lines: who answered, at what scope, speaking what.
pub open spec fn hello_lines(address: Seq<char>, hello: Hello) -> Seq<Seq<char>> {
    seq![
        "connected to "@ + address,
        "  server     "@ + plain_text(or_unknown(hello.server@)),
        "  node       "@ + plain_text(or_unknown(hello.node@)),
        "  role       "@ + plain_text(or_unknown(hello.role@)),
        "  scope      "@ + plain_text(or_unknown(hello.scope@)),
        "  protocol   "@ + decimal(hello.protocol as nat),
        "  methods    "@ + decimal(hello.methods@.len()),
    ]
}

pub fn render_hello(address: &str, hello: &Hello) -> (r: String)
    ensures
        r@ == page(hello_lines(address@, *hello)),
{
    let mut lines: Vec<String> = Vec::new();
    lines.push(cat2("connected to ", address));
    lines.push(cat2("  server     ", plain(blank_as_unknown(hello.server.as_str())).as_str()));
    lines.push(cat2("  node       ", plain(blank_as_unknown(hello.node.as_str())).as_str()));
    lines.push(cat2("  role       ", plain(blank_as_unknown(hello.role.as_str())).as_str()));
    lines.push(cat2("  scope      ", plain(blank_as_unknown(hello.scope.as_str())).as_str()));
    lines.push(cat2("  protocol   ", number(hello.protocol).as_str()));
    lines.push(cat2("  methods    ", count(hello.methods.len()).as_str()));
    assert(texts(lines@) =~= hello_lines(address@, *hello));
    to_page(&lines)
}

/// One value: text is itself, and anything else keeps its JSON shape.
pub open spec fn shown(value: JsonView) -> Seq<char> {
    plain_text(value.brief())
}

pub(crate) fn render_value(value: &Json) -> (r: String)
    ensures
        r@ == shown(value@),
{
    plain(value.in_brief().as_str())
}

/// A value where there is one, and a dash where there is none.
pub open spec fn shown_or_dash(value: Option<JsonView>) -> Seq<char> {
    match value {
        Some(value) => shown(value),
        None => "-"@,
    }
}

fn or_dash(value: Option<&Json>) -> (r: String)
    ensures
        match value {
            Some(v) => r@ == shown(v@),
            None => r@ == "-"@,
        },
{
    match value {
        Some(v) => render_value(v),
        None => "-".to_owned(),
    }
}

fn scalar(status: &Json, key: &str) -> (r: String)
    ensures
        r@ == shown_or_dash(status@.member(key@)),
{
    or_dash(status.get(key))
}

/// How many items a list member holds; an absent list is a dash and not a zero.
pub open spec fn count_text(status: JsonView, key: Seq<char>) -> Seq<char> {
    match status.member_list(key) {
        Some(items) => decimal(items.len()),
        None => "-"@,
    }
}

fn count_of(status: &Json, key: &str) -> (r: String)
    ensures
        r@ == count_text(status@, key@),
{
    match status.get_array(key) {
        Some(items) => count(items.len()),
        None => "-".to_owned(),
    }
}

pub open spec fn mode_text(status: JsonView, key: Seq<char>) -> Seq<char> {
    match status.member(key) {
        Some(value) => shown_or_dash(value.member("mode"@)),
        None => "-"@,
    }
}

fn mode(status: &Json, key: &str) -> (r: String)
    ensures
        r@ == mode_text(status@, key@),
{
    match status.get(key) {
        Some(value) => or_dash(value.get("mode")),
        None => "-".to_owned(),
    }
}

pub open spec fn forge_text(status: JsonView) -> Seq<char> {
    match status.member("forge"@) {
        None => "-"@,
        Some(JsonView::Null) => "-"@,
        Some(forge) => "signer="@ + shown_or_dash(forge.member("signer"@)) + " live="@
            + shown_or_dash(forge.member("live_count"@)) + (match forge.member_truth(
            "admit_possible?"@,
        ) {
            Some(true) => " admit=yes"@,
            Some(false) => " admit=no"@,
            None => " admit=?"@,
        }),
    }
}

fn forge(status: &Json) -> (r: String)
    ensures
        r@ == forge_text(status@),
{
    match status.get("forge") {
        None => "-".to_owned(),
        Some(forge) => match forge {
            Json::Null => "-".to_owned(),
            _ => {
                let signer = or_dash(forge.get("signer"));
                let live = or_dash(forge.get("live_count"));
                let mut out = cat4("signer=", signer.as_str(), " live=", live.as_str());
                out.append(
                    match forge.get_bool("admit_possible?") {
                        Some(true) => " admit=yes",
                        Some(false) => " admit=no",
                        None => " admit=?",
                    },
                );
                out
            },
        },
    }
}

/// Formation and distribution are reported separately; whatever of them is present is shown,
/// and a report with neither is shown whole.
pub open spec fn cluster_parts(cluster: JsonView) -> Seq<Seq<char>> {
    let formation = match cluster.member("formation"@) {
        Some(f) => f.member("strategy"@),
        None => None,
    };
    let first = match formation {
        Some(strategy) => seq!["strategy="@ + shown(strategy)],
        None => Seq::empty(),
    };
    match cluster.member("distributed"@) {
        Some(distributed) => first.push("distributed="@ + shown(distributed)),
        None => first,
    }
}

pub open spec fn cluster_text(status: JsonView) -> Seq<char> {
    match status.member("cluster"@) {
        None => "-"@,
        Some(cluster) => if cluster_parts(cluster).len() == 0 {
            shown(cluster)
        } else {
            joined(cluster_parts(cluster), " "@)
        },
    }
}

fn cluster(status: &Json) -> (r: String)
    ensures
        r@ == cluster_text(status@),
{
    let cluster = match status.get("cluster") {
        None => {
            return "-".to_owned();
        },
        Some(cluster) => cluster,
    };
    let mut parts: Vec<String> = Vec::new();
    let strategy = match cluster.get("formation") {
        Some(formation) => formation.get("strategy"),
        None => None,
    };
    if let Some(strategy) = strategy {
        parts.push(cat2("strategy=", render_value(strategy).as_str()));
    }
    if let Some(distributed) = cluster.get("distributed") {
        parts.push(cat2("distributed=", render_value(distributed).as_str()));
    }
    assert(texts(parts@) =~= cluster_parts(cluster@));
    if parts.len() == 0 {
        render_value(cluster)
    } else {
        join(&parts, " ")
    }
}

pub open spec fn shown_all(items: Seq<JsonView>) -> Seq<Seq<char>> {
    items.map_values(|v: JsonView| shown(v))
}

pub open spec fn connected_text(status: JsonView) -> Seq<char> {
    match status.member_list("connected_nodes"@) {
        Some(nodes) => if nodes.len() == 0 {
            "none"@
        } else {
            joined(shown_all(nodes), ", "@)
        },
        None => "-"@,
    }
}

fn connected_nodes(status: &Json) -> (r: String)
    ensures
        r@ == connected_text(status@),
{
    match status.get_array("connected_nodes") {
        Some(nodes) => {
            if nodes.len() == 0 {
                return "none".to_owned();
            }
            let mut parts: Vec<String> = Vec::new();
            let mut i: usize = 0;
            while i < nodes.len()
                invariant
                    i <= nodes@.len(),
                    parts@.len() == i,
                    forall|k: int| 0 <= k < i ==> (#[trigger] parts@[k])@ == shown(nodes@[k]@),
                decreases nodes@.len() - i,
            {
                parts.push(render_value(&nodes[i]));
                i += 1;
            }
            assert(texts(parts@) =~= shown_all(items_view(nodes@)));
            join(&parts, ", ")
        },
        None => "-".to_owned(),
    }
}

// ----- the availability matrix ------------------------------------------------------

/// Where a name belongs in a list that is in name order: after every name up to it.
pub open spec fn rank(ordered: Seq<(Seq<char>, JsonView)>, name: Seq<char>) -> int
    decreases ordered.len(),
{
    if ordered.len() == 0 || !precedes(name, ordered.last().0) {
        ordered.len() as int
    } else {
        rank(ordered.drop_last(), name)
    }
}

/// The members in name order; members of one name keep the order they came in.
pub open spec fn in_name_order(members: Seq<(Seq<char>, JsonView)>) -> Seq<(Seq<char>, JsonView)>
    decreases members.len(),
{
    if members.len() == 0 {
        members
    } else {
        let rest = in_name_order(members.drop_last());
        rest.insert(rank(rest, members.last().0), members.last())
    }
}

proof fn lemma_rank_bounds(ordered: Seq<(Seq<char>, JsonView)>, name: Seq<char>)
    ensures
        0 <= rank(ordered, name) <= ordered.len(),
    decreases ordered.len(),
{
    if ordered.len() > 0 && precedes(name, ordered.last().0) {
        lemma_rank_bounds(ordered.drop_last(), name);
    }
}

proof fn lemma_rank_splits(ordered: Seq<(Seq<char>, JsonView)>, name: Seq<char>)
    requires
        forall|i: int, j: int|
            0 <= i < j < ordered.len() ==> !precedes((#[trigger] ordered[j]).0, (
            #[trigger] ordered[i]).0),
    ensures
        0 <= rank(ordered, name) <= ordered.len(),
        forall|i: int|
            0 <= i < rank(ordered, name) ==> !precedes(name, (#[trigger] ordered[i]).0),
        forall|i: int|
            rank(ordered, name) <= i < ordered.len() ==> precedes(name, (#[trigger] ordered[i]).0),
    decreases ordered.len(),
{
    lemma_rank_bounds(ordered, name);
    if ordered.len() > 0 {
        let last = ordered.last().0;
        if precedes(name, last) {
            let rest = ordered.drop_last();
            assert forall|i: int, j: int| 0 <= i < j < rest.len() implies !precedes(
                (#[trigger] rest[j]).0,
                (#[trigger] rest[i]).0,
            ) by {
                assert(rest[i] == ordered[i] && rest[j] == ordered[j]);
            }
            lemma_rank_splits(rest, name);
            assert forall|i: int| 0 <= i < rank(ordered, name) implies !precedes(
                name,
                (#[trigger] ordered[i]).0,
            ) by {
                assert(rest[i] == ordered[i]);
            }
            assert forall|i: int| rank(ordered, name) <= i < ordered.len() implies precedes(
                name,
                (#[trigger] ordered[i]).0,
            ) by {
                if i < rest.len() {
                    assert(rest[i] == ordered[i]);
                }
            }
        } else {
            assert forall|i: int| 0 <= i < ordered.len() implies !precedes(
                name,
                (#[trigger] ordered[i]).0,
            ) by {
                if i < ordered.len() - 1 && precedes(name, ordered[i].0) {
                    assert(!precedes(ordered[ordered.len() - 1].0, ordered[i].0));
                    crate::text::lemma_precedes_total(last, ordered[i].0);
                    if precedes(ordered[i].0, last) {
                        crate::text::lemma_precedes_transitive(name, ordered[i].0, last);
                    }
                }
            }
        }
    }
}

/// The matrix lists exactly the members the runtime sent, and in name order.
pub proof fn lemma_matrix_is_sorted(members: Seq<(Seq<char>, JsonView)>)
    ensures
        in_name_order(members).to_multiset() == members.to_multiset(),
        in_name_order(members).len() == members.len(),
        forall|i: int, j: int|
            0 <= i < j < members.len() ==> !precedes(
                (#[trigger] in_name_order(members)[j]).0,
                (#[trigger] in_name_order(members)[i]).0,
            ),
    decreases members.len(),
{
    broadcast use vstd::seq_lib::group_to_multiset_ensures;

    if members.len() > 0 {
        let rest = in_name_order(members.drop_last());
        let name = members.last().0;
        lemma_matrix_is_sorted(members.drop_last());
        lemma_rank_splits(rest, name);
        let at = rank(rest, name);
        let whole = in_name_order(members);
        assert(members =~= members.drop_last().push(members.last()));
        assert(whole =~= rest.insert(at, members.last()));
        assert forall|i: int, j: int| 0 <= i < j < members.len() implies !precedes(
            (#[trigger] whole[j]).0,
            (#[trigger] whole[i]).0,
        ) by {
            let left = if i < at {
                i
            } else {
                i - 1
            };
            let right = if j < at {
                j
            } else {
                j - 1
            };
            if i == at {
                assert(whole[j] == rest[j - 1]);
                assert(precedes(name, rest[j - 1].0));
                if precedes(rest[j - 1].0, name) {
                    crate::text::lemma_precedes_transitive(name, rest[j - 1].0, name);
                    crate::text::lemma_precedes_irreflexive(name);
                }
            } else if j == at {
                assert(whole[i] == rest[i]);
            } else {
                assert(whole[i] == rest[left] && whole[j] == rest[right]);
            }
        }
    }
}

fn in_order(members: &Vec<Member>) -> (r: Vec<usize>)
    ensures
        r@.len() == members@.len(),
        forall|i: int| 0 <= i < r@.len() ==> (#[trigger] r@[i]) < members@.len(),
        picked(members@, r@) == in_name_order(members_view(members@)),
{
    let ghost said = members_view(members@);
    let mut order: Vec<usize> = Vec::new();
    let mut n: usize = 0;
    assert(picked(members@, order@) =~= in_name_order(said.take(0)));
    while n < members.len()
        invariant
            n <= members@.len(),
            said == members_view(members@),
            order@.len() == n,
            forall|i: int| 0 <= i < order@.len() ==> (#[trigger] order@[i]) < members@.len(),
            picked(members@, order@) == in_name_order(said.take(n as int)),
        decreases members@.len() - n,
    {
        let ghost before = picked(members@, order@);
        let ghost name = members@[n as int].name@;
        let mut at: usize = n;
        assert(before.take(n as int) =~= before);
        while at > 0 && earlier(members[n].name.as_str(), members[order[at - 1]].name.as_str())
            invariant
                at <= n < members@.len(),
                order@.len() == n,
                forall|i: int| 0 <= i < order@.len() ==> (#[trigger] order@[i]) < members@.len(),
                before == picked(members@, order@),
                name == members@[n as int].name@,
                rank(before.take(at as int), name) == rank(before, name),
            decreases at,
        {
            assert(before.take(at as int).last() == before[at - 1]);
            assert(before.take(at as int).drop_last() =~= before.take(at - 1));
            at -= 1;
        }
        proof {
            if at > 0 {
                assert(before.take(at as int).last() == before[at - 1]);
            }
            assert(rank(before, name) == at);
            let last = said.take(n + 1);
            assert(last.drop_last() =~= said.take(n as int));
            assert(last.last() == said[n as int]);
            assert(picked(members@, order@.insert(at as int, n)) =~= before.insert(
                at as int,
                said[n as int],
            ));
        }
        order.insert(at, n);
        n += 1;
    }
    assert(said.take(n as int) =~= said);
    order
}

/// The members at the given positions.
spec fn picked(members: Seq<Member>, order: Seq<usize>) -> Seq<(Seq<char>, JsonView)> {
    order.map_values(|i: usize| (members[i as int].name@, members[i as int].value@))
}

/// The widest name, in bytes.
pub open spec fn widest(members: Seq<(Seq<char>, JsonView)>) -> nat
    decreases members.len(),
{
    if members.len() == 0 {
        1
    } else {
        let rest = widest(members.drop_last());
        let size = byte_len(members.last().0);
        if size > rest {
            size
        } else {
            rest
        }
    }
}

/// How many bytes a piece of text takes in UTF-8, as far as a machine counts them.
pub open spec fn byte_len(s: Seq<char>) -> nat {
    (vstd::utf8::encode_utf8(s).len() as usize) as nat
}

pub open spec fn plane_line(member: (Seq<char>, JsonView), width: nat) -> Seq<char> {
    "    "@ + padded(plain_text(member.0), width) + "  "@ + shown(member.1)
}

pub open spec fn availability_lines(status: JsonView) -> Seq<Seq<char>> {
    let missing = seq!["    (the runtime reported no availability map)"@];
    match status.member("availability"@) {
        Some(JsonView::Object(members)) => if members.len() == 0 {
            missing
        } else {
            let planes = in_name_order(members);
            planes.map_values(|m: (Seq<char>, JsonView)| plane_line(m, widest(members)))
        },
        _ => missing,
    }
}

fn push_availability(lines: &mut Vec<String>, status: &Json)
    ensures
        texts(final(lines)@) == texts(old(lines)@) + availability_lines(status@),
{
    if let Some(Json::Object(members)) = status.get("availability") {
        proof {
            crate::json::lemma_object_view(members@);
        }
        if members.len() > 0 {
            let ghost said = members_view(members@);
            let mut width: usize = 1;
            let mut i: usize = 0;
            while i < members.len()
                invariant
                    i <= members@.len(),
                    said == members_view(members@),
                    width == widest(said.take(i as int)),
                decreases members@.len() - i,
            {
                assert(said.take(i + 1).drop_last() =~= said.take(i as int));
                let size: usize = members[i].name.as_str().len();
                if size > width {
                    width = size;
                }
                i += 1;
            }
            assert(said.take(i as int) =~= said);
            let order = in_order(members);
            let ghost planes = in_name_order(said);
            let ghost start = texts(lines@);
            let mut k: usize = 0;
            assert(start + Seq::<Seq<char>>::empty() =~= start);
            while k < order.len()
                invariant
                    k <= order@.len(),
                    order@.len() == planes.len(),
                    forall|i: int| 0 <= i < order@.len() ==> (#[trigger] order@[i]) < members@.len(),
                    picked(members@, order@) == planes,
                    texts(lines@) == start + planes.take(k as int).map_values(
                        |m: (Seq<char>, JsonView)| plane_line(m, width as nat),
                    ),
                decreases order@.len() - k,
            {
                let ghost f = |m: (Seq<char>, JsonView)| plane_line(m, width as nat);
                let ghost prior = lines@;
                let member = &members[order[k]];
                assert(planes[k as int] == picked(members@, order@)[k as int]);
                let line = cat4(
                    "    ",
                    pad(plain(member.name.as_str()).as_str(), width).as_str(),
                    "  ",
                    render_value(&member.value).as_str(),
                );
                proof {
                    assert(texts(prior.push(line)) =~= texts(prior).push(line@));
                    assert(planes.take(k + 1) =~= planes.take(k as int).push(planes[k as int]));
                    assert(planes.take(k + 1).map_values(f) =~= planes.take(k as int).map_values(
                        f,
                    ).push(line@));
                }
                lines.push(line);
                k += 1;
            }
            assert(planes.take(k as int) =~= planes);
            return;
        }
    }
    let ghost prior = lines@;
    let line = "    (the runtime reported no availability map)".to_owned();
    assert(texts(prior.push(line)) =~= texts(prior) + seq![line@]);
    lines.push(line);
}

// ----- the page ---------------------------------------------------------------------

pub open spec fn posture(status: JsonView) -> Seq<char> {
    match status.member("availability"@) {
        Some(availability) => match availability.member_text("control"@) {
            Some(posture) => plain_text(posture),
            None => "unknown"@,
        },
        None => "unknown"@,
    }
}

pub open spec fn control_runs(status: JsonView) -> nat {
    match status.member("control"@) {
        Some(control) => match control.member_list("runs"@) {
            Some(runs) => runs.len(),
            None => 0,
        },
        None => 0,
    }
}

/// The page's lines: availability first, because a plane that is down explains everything
/// under it, then the counts.
pub open spec fn status_lines(status: JsonView) -> Seq<Seq<char>> {
    seq![
        "runtime.status"@,
        "  node         "@ + shown_or_dash(status.member("node"@)),
        "  role         "@ + shown_or_dash(status.member("role"@)),
        "  cluster      "@ + cluster_text(status),
        "  connected    "@ + connected_text(status),
        "  availability"@,
    ] + availability_lines(status) + seq![
        "  agents       "@ + count_text(status, "agents"@),
        "  interactive  "@ + count_text(status, "interactive_sessions"@),
        "  coding       "@ + count_text(status, "coding_tasks"@),
        "  teams        "@ + count_text(status, "teams"@),
        "  plans        "@ + count_text(status, "orchestration_plans"@),
        "  control      "@ + posture(status) + " ("@ + decimal(control_runs(status)) + " runs)"@,
        "  upgrade      "@ + mode_text(status, "upgrade"@),
        "  release      "@ + mode_text(status, "release"@),
        "  forge        "@ + forge_text(status),
    ]
}

pub fn render_status(status: &Json) -> (r: String)
    ensures
        r@ == page(status_lines(status@)),
        forall|i: int| 0 <= i < r@.len() && is_control(#[trigger] r@[i]) ==> r@[i] == '\n',
{
    proof {
        lemma_the_page_holds_no_control_character(status@);
    }
    let mut lines: Vec<String> = Vec::new();
    lines.push("runtime.status".to_owned());
    lines.push(cat2("  node         ", scalar(status, "node").as_str()));
    lines.push(cat2("  role         ", scalar(status, "role").as_str()));
    lines.push(cat2("  cluster      ", cluster(status).as_str()));
    lines.push(cat2("  connected    ", connected_nodes(status).as_str()));
    lines.push("  availability".to_owned());
    let ghost head = texts(lines@);
    push_availability(&mut lines, status);
    let ghost middle = lines@;
    let posture_word = match status.get("availability") {
        Some(availability) => match availability.get_str("control") {
            Some(posture) => plain(posture),
            None => "unknown".to_owned(),
        },
        None => "unknown".to_owned(),
    };
    let runs: usize = match status.get("control") {
        Some(control) => match control.get_array("runs") {
            Some(runs) => runs.len(),
            None => 0,
        },
        None => 0,
    };
    lines.push(cat2("  agents       ", count_of(status, "agents").as_str()));
    lines.push(cat2("  interactive  ", count_of(status, "interactive_sessions").as_str()));
    lines.push(cat2("  coding       ", count_of(status, "coding_tasks").as_str()));
    lines.push(cat2("  teams        ", count_of(status, "teams").as_str()));
    lines.push(cat2("  plans        ", count_of(status, "orchestration_plans").as_str()));
    let mut control = cat3("  control      ", posture_word.as_str(), " (");
    control.append(count(runs).as_str());
    control.append(" runs)");
    lines.push(control);
    lines.push(cat2("  upgrade      ", mode(status, "upgrade").as_str()));
    lines.push(cat2("  release      ", mode(status, "release").as_str()));
    lines.push(cat2("  forge        ", forge(status).as_str()));
    proof {
        let whole = status_lines(status@);
        let tail = whole.skip((head.len() + availability_lines(status@).len()) as int);
        assert(texts(middle) == head + availability_lines(status@));
        assert(texts(lines@) =~= texts(middle) + tail);
        assert(texts(lines@) =~= whole);
    }
    to_page(&lines)
}

// ----- laws -------------------------------------------------------------------------

/// The text holds no control character.
pub open spec fn is_clean(s: Seq<char>) -> bool {
    forall|i: int| 0 <= i < s.len() ==> !is_control(#[trigger] s[i])
}

pub open spec fn all_clean(lines: Seq<Seq<char>>) -> bool {
    forall|i: int| 0 <= i < lines.len() ==> is_clean(#[trigger] lines[i])
}

proof fn lemma_clean_end(a: Seq<char>, b: Seq<char>)
    requires
        is_clean(a),
        is_clean(b),
    ensures
        is_clean(a + b),
{
}

proof fn lemma_shown_is_clean(value: JsonView)
    ensures
        is_clean(shown(value)),
{
    lemma_plain_has_no_control(value.brief());
}

proof fn lemma_shown_or_dash_is_clean(value: Option<JsonView>)
    ensures
        is_clean(shown_or_dash(value)),
{
    reveal_strlit("-");
    if value is Some {
        lemma_shown_is_clean(value->0);
    }
}

proof fn lemma_decimal_is_clean(n: nat)
    ensures
        is_clean(decimal(n)),
    decreases n,
{
    if n >= 10 {
        lemma_decimal_is_clean(n / 10);
    }
}

proof fn lemma_joined_is_clean(parts: Seq<Seq<char>>, separator: Seq<char>)
    requires
        all_clean(parts),
        is_clean(separator),
    ensures
        is_clean(joined(parts, separator)),
    decreases parts.len(),
{
    if parts.len() > 1 {
        lemma_joined_is_clean(parts.drop_last(), separator);
        lemma_clean_end(joined(parts.drop_last(), separator), separator);
        lemma_clean_end(joined(parts.drop_last(), separator) + separator, parts.last());
    }
}

proof fn lemma_cluster_is_clean(status: JsonView)
    ensures
        is_clean(cluster_text(status)),
{
    reveal_strlit("-");
    reveal_strlit(" ");
    reveal_strlit("strategy=");
    reveal_strlit("distributed=");
    if let Some(cluster) = status.member("cluster"@) {
        lemma_shown_is_clean(cluster);
        if let Some(distributed) = cluster.member("distributed"@) {
            lemma_shown_is_clean(distributed);
        }
        if let Some(formation) = cluster.member("formation"@) {
            if let Some(strategy) = formation.member("strategy"@) {
                lemma_shown_is_clean(strategy);
            }
        }
        lemma_joined_is_clean(cluster_parts(cluster), " "@);
    }
}

proof fn lemma_connected_is_clean(status: JsonView)
    ensures
        is_clean(connected_text(status)),
{
    reveal_strlit("-");
    reveal_strlit(", ");
    reveal_strlit("none");
    if let Some(nodes) = status.member_list("connected_nodes"@) {
        assert forall|i: int| 0 <= i < nodes.len() implies is_clean(
            #[trigger] shown_all(nodes)[i],
        ) by {
            lemma_shown_is_clean(nodes[i]);
        }
        lemma_joined_is_clean(shown_all(nodes), ", "@);
    }
}

proof fn lemma_forge_is_clean(status: JsonView)
    ensures
        is_clean(forge_text(status)),
{
    reveal_strlit("-");
    reveal_strlit("signer=");
    reveal_strlit(" live=");
    reveal_strlit(" admit=yes");
    reveal_strlit(" admit=no");
    reveal_strlit(" admit=?");
    if let Some(forge) = status.member("forge"@) {
        lemma_shown_or_dash_is_clean(forge.member("signer"@));
        lemma_shown_or_dash_is_clean(forge.member("live_count"@));
    }
}

proof fn lemma_availability_is_clean(status: JsonView)
    ensures
        all_clean(availability_lines(status)),
{
    reveal_strlit("    ");
    reveal_strlit("  ");
    reveal_strlit("    (the runtime reported no availability map)");
    if let Some(JsonView::Object(members)) = status.member("availability"@) {
        let planes = in_name_order(members);
        let width = widest(members);
        assert forall|i: int| 0 <= i < planes.len() implies is_clean(
            #[trigger] plane_line(planes[i], width),
        ) by {
            lemma_plain_has_no_control(planes[i].0);
            lemma_shown_is_clean(planes[i].1);
        }
    }
}

proof fn lemma_counts_are_clean(status: JsonView)
    ensures
        forall|key: Seq<char>| is_clean(#[trigger] count_text(status, key)),
        forall|key: Seq<char>| is_clean(#[trigger] mode_text(status, key)),
        is_clean(posture(status)),
        is_clean(decimal(control_runs(status))),
{
    reveal_strlit("-");
    reveal_strlit("unknown");
    assert forall|key: Seq<char>| is_clean(#[trigger] count_text(status, key)) by {
        if let Some(items) = status.member_list(key) {
            lemma_decimal_is_clean(items.len());
        }
    }
    assert forall|key: Seq<char>| is_clean(#[trigger] mode_text(status, key)) by {
        if let Some(value) = status.member(key) {
            lemma_shown_or_dash_is_clean(value.member("mode"@));
        }
    }
    if let Some(availability) = status.member("availability"@) {
        if let Some(posture) = availability.member_text("control"@) {
            lemma_plain_has_no_control(posture);
        }
    }
    lemma_decimal_is_clean(control_runs(status));
}

proof fn lemma_titles_are_clean()
    ensures
        all_clean(
            seq![
                "runtime.status"@,
                "  node         "@,
                "  role         "@,
                "  cluster      "@,
                "  connected    "@,
                "  availability"@,
                "  agents       "@,
                "  interactive  "@,
                "  coding       "@,
                "  teams        "@,
                "  plans        "@,
                "  control      "@,
                " ("@,
                " runs)"@,
                "  upgrade      "@,
                "  release      "@,
                "  forge        "@,
            ],
        ),
{
    reveal_strlit("runtime.status");
    reveal_strlit("  node         ");
    reveal_strlit("  role         ");
    reveal_strlit("  cluster      ");
    reveal_strlit("  connected    ");
    reveal_strlit("  availability");
    reveal_strlit("  agents       ");
    reveal_strlit("  interactive  ");
    reveal_strlit("  coding       ");
    reveal_strlit("  teams        ");
    reveal_strlit("  plans        ");
    reveal_strlit("  control      ");
    reveal_strlit(" (");
    reveal_strlit(" runs)");
    reveal_strlit("  upgrade      ");
    reveal_strlit("  release      ");
    reveal_strlit("  forge        ");
}

proof fn lemma_page_is_clean(lines: Seq<Seq<char>>)
    requires
        all_clean(lines),
    ensures
        forall|i: int|
            0 <= i < page(lines).len() && is_control(#[trigger] page(lines)[i]) ==> page(lines)[i]
                == '\n',
    decreases lines.len(),
{
    if lines.len() > 0 {
        let rest = lines.drop_last();
        assert forall|i: int| 0 <= i < rest.len() implies is_clean(#[trigger] rest[i]) by {
            assert(is_clean(lines[i]));
        }
        lemma_page_is_clean(rest);
        assert(is_clean(lines[lines.len() - 1]));
        let before = page(rest);
        assert forall|i: int|
            0 <= i < page(lines).len() && is_control(#[trigger] page(lines)[i]) implies page(
            lines,
        )[i] == '\n' by {
            if i < before.len() {
                assert(page(lines)[i] == before[i]);
            } else if i < before.len() + lines.last().len() {
                assert(page(lines)[i] == lines.last()[i - before.len()]);
            }
        }
    }
}

/// Whatever the gateway sent, no line of the page holds a control character, and the page none but
/// the ends of its lines.
pub proof fn lemma_the_page_holds_no_control_character(status: JsonView)
    ensures
        forall|i: int|
            0 <= i < page(status_lines(status)).len() && is_control(
                #[trigger] page(status_lines(status))[i],
            ) ==> page(status_lines(status))[i] == '\n',
        forall|i: int, j: int|
            0 <= i < status_lines(status).len() && 0 <= j < status_lines(status)[i].len()
                ==> !is_control(#[trigger] status_lines(status)[i][j]),
{
    let titles = seq![
        "runtime.status"@,
        "  node         "@,
        "  role         "@,
        "  cluster      "@,
        "  connected    "@,
        "  availability"@,
        "  agents       "@,
        "  interactive  "@,
        "  coding       "@,
        "  teams        "@,
        "  plans        "@,
        "  control      "@,
        " ("@,
        " runs)"@,
        "  upgrade      "@,
        "  release      "@,
        "  forge        "@,
    ];
    lemma_titles_are_clean();
    assert forall|i: int| 0 <= i < 17 implies is_clean(#[trigger] titles[i]) by {}
    lemma_shown_or_dash_is_clean(status.member("node"@));
    lemma_shown_or_dash_is_clean(status.member("role"@));
    lemma_cluster_is_clean(status);
    lemma_connected_is_clean(status);
    lemma_forge_is_clean(status);
    lemma_availability_is_clean(status);
    lemma_counts_are_clean(status);
    let head = seq![
        titles[0],
        titles[1] + shown_or_dash(status.member("node"@)),
        titles[2] + shown_or_dash(status.member("role"@)),
        titles[3] + cluster_text(status),
        titles[4] + connected_text(status),
        titles[5],
    ];
    let tail = seq![
        titles[6] + count_text(status, "agents"@),
        titles[7] + count_text(status, "interactive_sessions"@),
        titles[8] + count_text(status, "coding_tasks"@),
        titles[9] + count_text(status, "teams"@),
        titles[10] + count_text(status, "orchestration_plans"@),
        titles[11] + posture(status) + titles[12] + decimal(control_runs(status)) + titles[13],
        titles[14] + mode_text(status, "upgrade"@),
        titles[15] + mode_text(status, "release"@),
        titles[16] + forge_text(status),
    ];
    assert(status_lines(status) =~= head + availability_lines(status) + tail);
    assert(all_clean(head));
    assert(all_clean(tail));
    assert(all_clean(head + availability_lines(status) + tail));
    lemma_page_is_clean(status_lines(status));
}

/// A line that counts: behind its head stands how many entries a list has, or a dash where there is
/// no list.
pub open spec fn counts_entries(line: Seq<char>, head: Seq<char>, list: Option<JsonView>) -> bool {
    &&& line.take(15) == head
    &&& match list {
        Some(JsonView::List(items)) => number_at(line, 15) == items.len() && digits_end(line, 15)
            == line.len(),
        _ => line.skip(15) == "-"@,
    }
}

proof fn lemma_counts_entries(status: JsonView, head: Seq<char>, key: Seq<char>)
    requires
        head.len() == 15,
    ensures
        counts_entries(head + count_text(status, key), head, status.member(key)),
{
    let line = head + count_text(status, key);
    assert(line.take(15) =~= head);
    match status.member(key) {
        Some(JsonView::List(items)) => {
            assert(line =~= head + decimal(items.len()) + Seq::<char>::empty());
            lemma_a_number_inside_reads_back(line, head, items.len(), Seq::empty());
        },
        _ => {
            assert(line.skip(15) =~= "-"@);
        },
    }
}

/// The page of a runtime's status counts each list that the runtime reported on the line that is
/// named for it, under the availability of its planes.
#[verifier::rlimit(60)]
pub proof fn lemma_the_page_counts_what_was_reported(status: JsonView)
    ensures
        ({
            let lines = status_lines(status);
            let n = lines.len();
            &&& n >= 16
            &&& counts_entries(lines[n - 9], "  agents       "@, status.member("agents"@))
            &&& counts_entries(
                lines[n - 8],
                "  interactive  "@,
                status.member("interactive_sessions"@),
            )
            &&& counts_entries(lines[n - 7], "  coding       "@, status.member("coding_tasks"@))
            &&& counts_entries(lines[n - 6], "  teams        "@, status.member("teams"@))
            &&& counts_entries(
                lines[n - 5],
                "  plans        "@,
                status.member("orchestration_plans"@),
            )
        }),
{
    reveal_strlit("  agents       ");
    reveal_strlit("  interactive  ");
    reveal_strlit("  coding       ");
    reveal_strlit("  teams        ");
    reveal_strlit("  plans        ");
    lemma_counts_entries(status, "  agents       "@, "agents"@);
    lemma_counts_entries(status, "  interactive  "@, "interactive_sessions"@);
    lemma_counts_entries(status, "  coding       "@, "coding_tasks"@);
    lemma_counts_entries(status, "  teams        "@, "teams"@);
    lemma_counts_entries(status, "  plans        "@, "orchestration_plans"@);
    match status.member("availability"@) {
        Some(JsonView::Object(members)) => {
            if members.len() > 0 {
                lemma_matrix_is_sorted(members);
                assert(availability_lines(status).len() == in_name_order(members).len());
            }
        },
        _ => {},
    }
    assert(availability_lines(status).len() >= 1);
}

/// The line of the control plane ends with how many runs it has.
#[verifier::rlimit(60)]
pub proof fn lemma_the_page_counts_control_runs(status: JsonView, control: JsonView, runs: Seq<JsonView>)
    requires
        status.member("control"@) == Some(control),
        control.member("runs"@) == Some(JsonView::List(runs)),
    ensures
        ({
            let lines = status_lines(status);
            let line = lines[lines.len() - 4];
            let at = 15 + posture(status).len() + 2;
            &&& line.take(15) == "  control      "@
            &&& line[at - 1] == '('
            &&& number_at(line, at) == runs.len()
            &&& line.skip(digits_end(line, at) as int) == " runs)"@
        }),
{
    reveal_strlit("  control      ");
    reveal_strlit(" (");
    reveal_strlit(" runs)");
    let lines = status_lines(status);
    let line = lines[lines.len() - 4];
    let head = "  control      "@ + posture(status) + " ("@;
    assert(line =~= head + decimal(runs.len()) + " runs)"@);
    lemma_a_number_inside_reads_back(line, head, runs.len(), " runs)"@);
    assert(line.take(15) =~= "  control      "@);
    assert(line[head.len() - 1] == head.last());
}

/// The header counts the methods that the gateway serves and names the protocol that it speaks.
pub proof fn lemma_the_header_names_protocol_and_methods(address: Seq<char>, hello: Hello)
    ensures
        ({
            let lines = hello_lines(address, hello);
            &&& lines[0] == "connected to "@ + address
            &&& lines[5].take(13) == "  protocol   "@
            &&& number_at(lines[5], 13) == hello.protocol
            &&& lines[6].take(13) == "  methods    "@
            &&& number_at(lines[6], 13) == hello.methods@.len()
        }),
{
    reveal_strlit("  protocol   ");
    reveal_strlit("  methods    ");
    let lines = hello_lines(address, hello);
    let none = Seq::<char>::empty();
    assert(lines[5] =~= "  protocol   "@ + decimal(hello.protocol as nat) + none);
    lemma_a_number_inside_reads_back(lines[5], "  protocol   "@, hello.protocol as nat, none);
    assert(lines[6] =~= "  methods    "@ + decimal(hello.methods@.len()) + none);
    lemma_a_number_inside_reads_back(lines[6], "  methods    "@, hello.methods@.len(), none);
}

/// A forge is said to admit exactly where the runtime says that it can.
#[verifier::rlimit(60)]
pub proof fn lemma_the_page_says_whether_a_forge_admits(status: JsonView, forge: JsonView)
    requires
        status.member("forge"@) == Some(forge),
        !(forge is Null),
    ensures
        ({
            let words = forge_text(status);
            let end = words.len();
            &&& words.skip(end - 4) == "=yes"@ <==> forge.member("admit_possible?"@) == Some(
                JsonView::Bool(true),
            )
            &&& words.skip(end - 3) == "=no"@ <==> forge.member("admit_possible?"@) == Some(
                JsonView::Bool(false),
            )
        }),
{
    reveal_strlit(" admit=yes");
    reveal_strlit(" admit=no");
    reveal_strlit(" admit=?");
    reveal_strlit("=yes");
    reveal_strlit("=no");
    reveal_strlit("signer=");
    let words = forge_text(status);
    let n = words.len() as int;
    let last = match forge.member_truth("admit_possible?"@) {
        Some(true) => " admit=yes"@,
        Some(false) => " admit=no"@,
        None => " admit=?"@,
    };
    let head = "signer="@ + shown_or_dash(forge.member("signer"@)) + " live="@ + shown_or_dash(
        forge.member("live_count"@),
    );
    assert(words =~= head + last);
    assert(words.skip(n - 4).last() == last.last());
    assert(words.skip(n - 3).last() == last.last());
    assert("=yes"@.last() == 's' && "=no"@.last() == 'o');
    if last == " admit=yes"@ {
        assert(words.skip(n - 4) =~= "=yes"@);
    }
    if last == " admit=no"@ {
        assert(words.skip(n - 3) =~= "=no"@);
    }
}

} // verus!
