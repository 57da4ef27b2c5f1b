use ouroboros_tui::json::{Json, Member};
use ouroboros_tui::status::{render_hello, render_status};
use ouroboros_tui::wire::Hello;

fn convert(value: &serde_json::Value) -> Json {
    match value {
        serde_json::Value::Null => Json::Null,
        serde_json::Value::Bool(b) => Json::Bool(*b),
        serde_json::Value::Number(n) => match (n.as_u64(), n.as_i64()) {
            (Some(n), _) => Json::Unsigned(n),
            (None, Some(n)) => Json::Negative(n),
            (None, None) => Json::Decimal(n.to_string()),
        },
        serde_json::Value::String(text) => Json::Text(text.clone()),
        serde_json::Value::Array(items) => Json::List(items.iter().map(convert).collect()),
        serde_json::Value::Object(members) => Json::Object(
            members
                .iter()
                .map(|(name, value)| Member { name: name.clone(), value: convert(value) })
                .collect(),
        ),
    }
}

fn json(text: &str) -> Json {
    convert(&serde_json::from_str::<serde_json::Value>(text).expect("a document"))
}

#[test]
fn renders_a_tri_state_availability_matrix_in_sorted_order() {
    let status = json(
        r#"{
            "node": "nonode@nohost",
            "role": "core",
            "availability": {
                "workspace": "disabled",
                "cluster": "available",
                "mesh": "unavailable"
            }
        }"#,
    );

    let page = render_status(&status);
    let planes: Vec<&str> = page.lines().filter(|line| line.starts_with("    ")).collect();

    assert_eq!(planes.len(), 3);
    assert!(planes[0].contains("cluster") && planes[0].contains("available"));
    assert!(planes[1].contains("mesh") && planes[1].contains("unavailable"));
    assert!(planes[2].contains("workspace") && planes[2].contains("disabled"));
}

#[test]
fn a_plane_this_build_never_heard_of_still_renders() {
    let status = json(r#"{ "availability": { "forged_capability_lane": "available" } }"#);

    assert!(render_status(&status).contains("forged_capability_lane"));
}

#[test]
fn a_missing_availability_map_is_said_out_loud() {
    assert!(render_status(&json("{}")).contains("no availability map"));
}

#[test]
fn counts_come_from_list_lengths() {
    let status = json(
        r#"{
            "agents": [{ "id": "a" }, { "id": "b" }],
            "interactive_sessions": [],
            "availability": { "control": "available" },
            "control": { "runs": [{ "id": "r" }] }
        }"#,
    );

    let page = render_status(&status);

    assert!(page.contains("agents       2"), "{page}");
    assert!(page.contains("interactive  0"), "{page}");
    assert!(page.contains("coding       -"), "an absent list is not a zero");
    assert!(page.contains("available (1 runs)"));
}

#[test]
fn forge_posture_is_rendered_from_whatever_the_runtime_sent() {
    let status = json(
        r#"{
            "forge": {
                "signer": "deny",
                "admit_possible?": false,
                "live_count": 0,
                "live": []
            }
        }"#,
    );

    assert!(
        render_status(&status).contains("signer=deny live=0 admit=no"),
        "{}",
        render_status(&status)
    );
}

#[test]
fn cluster_reports_formation_and_distribution_rather_than_one_invented_word() {
    let status = json(
        r#"{
            "cluster": {
                "distributed": false,
                "formation": { "strategy": "none", "supervised": false }
            }
        }"#,
    );

    assert!(render_status(&status).contains("strategy=none distributed=false"));
}

#[test]
fn an_unrecognized_cluster_status_is_still_shown() {
    let status = json(r#"{ "cluster": { "something_new": 1 } }"#);

    assert!(render_status(&status).contains("something_new"));
}

#[test]
fn a_hello_with_empty_fields_says_unknown_rather_than_nothing() {
    let page = render_hello("127.0.0.1:1", &Hello::default());

    assert!(page.contains("server     unknown"));
    assert!(page.contains("protocol   0"));
}

#[test]
fn gateway_strings_reach_the_page_without_control_characters() {
    let status = json(
        "{ \"node\": \"core@\\u001bevil\", \"availability\": { \"mesh\": \"\\u009b4m red\" } }",
    );

    let page = render_status(&status);

    assert!(!page.contains('\u{1b}'), "{page}");
    assert!(!page.contains('\u{9b}'), "{page}");
    assert!(page.contains("core@ evil"), "{page}");
}

#[test]
fn a_value_is_quoted_as_it_is_written() {
    let status = json("{ \"cluster\": { \"odd \\\"key\\\"\": \"a\\nb\" } }");

    let page = render_status(&status);

    assert!(page.contains(r#""odd \"key\"""#), "{page}");
    assert!(page.contains(r#"a\nb"#), "{page}");
}

#[test]
fn no_line_of_the_page_holds_a_control_character() {
    let status = json(
        r#"{"availability": {"control": "\u001b[2J", "me\u0007sh": {"a\u009b": ["\u007f"]}}}"#,
    );
    let page = render_status(&status);
    assert!(!page.chars().any(|c| c.is_control() && c != '\n'), "{page:?}");
    assert!(page.contains("  control       [2J (0 runs)"), "{page}");
    assert!(page.contains("    me sh"), "{page}");
}
