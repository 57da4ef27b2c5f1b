use ouroboros_tui::clock::{epoch_seconds, relative_time};
use ouroboros_tui::devices::{
    devices_refusal, identity, last_error, parse_state, DeploymentHost, DeviceRow, DeviceState,
    DevicesState, Discovery, Filter, Inventory, OperationSummary, OperationTarget, Recipe, Refusal,
    FIELD_COLUMNS, IDENTITY_LIMIT, MESSAGE_COLUMNS, NAME_COLUMNS,
};
use ouroboros_tui::devices_view::{
    unknown_keys_line, COMMAND_COLUMNS, COMMAND_LIMIT, COMMAND_PANE_COLUMNS, FULL_ROW_COLUMNS,
    ROW_COLUMNS_BEFORE_COMMAND, ROW_FIELD_COLUMNS,
};
use ouroboros_tui::fleet::{canonical_host, machine_argument, scrub, validate_machine};
use ouroboros_tui::json::{Json, Member};
use ouroboros_tui::wire::{ClientError, ErrorCode, RpcError};
use unicode_width::UnicodeWidthStr;

/// Some time in 2023.
const NOW: u64 = 1_700_000_000;

fn convert(value: &serde_json::Value) -> Json {
    match value {
        serde_json::Value::Null => Json::Null,
        serde_json::Value::Bool(b) => Json::Bool(*b),
        serde_json::Value::Number(n) => match (n.as_u64(), n.as_i64()) {
            (Some(n), _) => Json::Unsigned(n),
            (None, Some(n)) => Json::Negative(n),
            (None, None) => Json::Decimal(n.to_string()),
        },
        serde_json::Value::String(text) => Json::Text(text.clone()),
        serde_json::Value::Array(items) => Json::List(items.iter().map(convert).collect()),
        serde_json::Value::Object(members) => Json::Object(
            members
                .iter()
                .map(|(name, value)| Member { name: name.clone(), value: convert(value) })
                .collect(),
        ),
    }
}

fn json(text: &str) -> Json {
    convert(&serde_json::from_str::<serde_json::Value>(text).expect("a document"))
}

fn object(members: Vec<(&str, Json)>) -> Json {
    Json::Object(
        members
            .into_iter()
            .map(|(name, value)| Member { name: name.to_string(), value })
            .collect(),
    )
}

fn row(state: &str) -> DeviceRow {
    DeviceRow {
        state: state.into(),
        ..Default::default()
    }
}

#[test]
fn a_state_code_maps_to_the_words_the_cli_prints() {
    for state in [
        DeviceState::ThisDevice,
        DeviceState::ThisDeviceWithoutProfile,
        DeviceState::FleetMember,
        DeviceState::FleetMemberNotVisible,
        DeviceState::DiscoveredInstallationUnknown,
        DeviceState::PeerOffline,
        DeviceState::UnsupportedPlatform,
        DeviceState::NoUsableIpv4,
    ] {
        let code = state.code().to_string();

        assert_eq!(
            parse_state(&code),
            Some(state),
            "{code} does not round-trip through the view's own table"
        );

        let row = DeviceRow {
            state: code.clone(),
            ..Default::default()
        };
        assert_eq!(
            row.state_label(),
            state.label(),
            "{code} does not print the CLI's words"
        );
    }
}

#[test]
fn every_state_lands_on_one_of_the_columns_words() {
    const WORDS: [&str; 5] = [
        "in the fleet",
        "in the fleet \u{b7} not connected",
        "not set up",
        "can't run Ouroboros",
        "offline",
    ];

    for code in [
        "this_device",
        "this_device_without_profile",
        "fleet_member",
        "fleet_member_not_visible",
        "fleet_member_connected",
        "discovered_installation_unknown",
        "peer_offline",
        "unsupported_platform",
        "no_usable_ipv4",
    ] {
        let word = row(code).ouroboros_word();
        assert!(
            WORDS.contains(&word.as_str()),
            "{code} drew {word}, which is not one of the column's words"
        );
    }

    let unknown = row("quantum_entangled").ouroboros_word();
    assert!(
        unknown.contains("quantum_entangled") && unknown.contains("does not know"),
        "an unknown state must name itself: {unknown}"
    );
}

#[test]
fn each_row_prints_the_one_command_for_it() {
    let standalone = DeviceRow {
        state: "this_device_without_profile".into(),
        suggested_machine: Some("operator-laptop".into()),
        ..Default::default()
    };
    assert_eq!(
        standalone.recipe(),
        Recipe::Command("ouro fleet setup --machine operator-laptop".into())
    );

    let peer = DeviceRow {
        state: "discovered_installation_unknown".into(),
        address: Some("100.64.12.44".into()),
        suggested_machine: Some("build-linux".into()),
        ..Default::default()
    };
    assert_eq!(
        peer.recipe(),
        Recipe::Command("ouro fleet add USER@100.64.12.44 --machine build-linux".into()),
        "the account is unknown, so USER@ is literal"
    );

    let member = DeviceRow {
        state: "fleet_member".into(),
        machine: Some("pi".into()),
        ..Default::default()
    };
    assert_eq!(
        member.recipe(),
        Recipe::Command("ouro fleet leave --machine pi --user USER".into())
    );

    let here = DeviceRow {
        state: "this_device".into(),
        machine: Some("studio".into()),
        ..Default::default()
    };
    assert_eq!(here.recipe(), Recipe::Command("ouro fleet leave".into()));

    for code in ["peer_offline", "unsupported_platform", "no_usable_ipv4"] {
        assert_eq!(
            row(code).recipe(),
            Recipe::Nothing,
            "{code} must offer no command"
        );
        assert!(
            row(code).no_recipe_reason().is_some(),
            "{code} must say why"
        );
    }

    let nameless = DeviceRow {
        state: "discovered_installation_unknown".into(),
        name: "Monocursive's MacBook Pro".into(),
        ..Default::default()
    };
    assert_eq!(
        nameless.recipe(),
        Recipe::Command("ouro fleet add USER@ADDRESS --machine NAME".into()),
        "a display name is never a machine name"
    );
}

#[test]
fn an_argument_that_is_not_one_becomes_the_placeholder() {
    for good in ["pi", "build-linux", "studio2", "a", &"g".repeat(40)] {
        assert_eq!(machine_argument(good).as_deref(), Some(good), "{good}");
        assert!(validate_machine(good), "{good}");
    }

    for bad in [
        "",
        " ",
        "-leading-hyphen",
        "trailing-",
        "under_score",
        "a_b-c",
        "two words",
        "pi\u{1b}[2K\u{1b}[1G--machine pwned",
        "pi [2K [1G--machine pwned",
        "pi ouro fleet add USER@evil.example --machine pwned",
        "pi;rm -rf ~",
        "pi$(id)",
        "pi\u{a0}--machine pwned",
        "pi\u{200b}x",
        &"g".repeat(41),
    ] {
        assert_eq!(machine_argument(bad), None, "{bad:?} was printed as a name");
    }

    for good in ["100.64.0.11", "10.0.0.2", "pi.tailnet-example.ts.net"] {
        assert_eq!(canonical_host(good).as_deref(), Some(good), "{good}");
        assert!(canonical_host(good).is_some(), "{good}");
    }

    assert_eq!(
        canonical_host("PI.Tailnet-Example.TS.NET.").as_deref(),
        Some("pi.tailnet-example.ts.net")
    );

    for bad in [
        "",
        "fd7a::1",
        "8.8.8.8",
        "100.64.0.11 --machine pwned",
        "evil@100.64.0.11",
        "100.64.0.11;curl evil",
        "100.64.0.11\u{1b}[1G",
        &"1".repeat(255),
    ] {
        assert_eq!(
            canonical_host(bad),
            None,
            "{bad:?} was printed as an address"
        );
    }

    let hostile = DeviceRow {
        state: "discovered_installation_unknown".into(),
        address: Some("100.64.0.11 --machine pwned".into()),
        suggested_machine: Some("pi ouro fleet add USER@evil --machine pwned".into()),
        ..Default::default()
    };
    assert_eq!(
        hostile.recipe(),
        Recipe::Command("ouro fleet add USER@ADDRESS --machine NAME".into())
    );
}

#[test]
fn an_operation_underway_takes_the_command_off_the_row() {
    let peer = DeviceRow {
        state: "discovered_installation_unknown".into(),
        address: Some("100.64.12.44".into()),
        suggested_machine: Some("build-linux".into()),
        ..Default::default()
    };

    let with_state = |state: &str| Inventory {
        devices: vec![peer.clone()],
        operations: vec![OperationSummary {
            operation: "op-1".into(),
            state: Some(state.into()),
            kind: Some("add".into()),
            target: Some(OperationTarget {
                address: Some("100.64.12.44".into()),
                ..Default::default()
            }),
            readable: true,
            ..Default::default()
        }],
        ..Default::default()
    };

    for going in ["inspecting", "deploying", "awaiting_review"] {
        let inventory = with_state(going);
        assert_eq!(
            inventory.recipe(&peer),
            Recipe::Nothing,
            "{going} still offered a command"
        );
        assert_eq!(inventory.ouroboros_word(&peer), "setting up\u{2026}");
    }

    let failed = with_state("failed");
    assert_eq!(failed.ouroboros_word(&peer), "setup failed");
    assert!(
        matches!(failed.recipe(&peer), Recipe::Command(_)),
        "a stopped operation leaves the row its command"
    );

    let unknown = with_state("teleporting");
    assert_eq!(unknown.recipe(&peer), Recipe::Nothing);
    assert_eq!(unknown.ouroboros_word(&peer), "setting up\u{2026}");

    let unreadable = Inventory {
        devices: vec![peer.clone()],
        operations: vec![OperationSummary {
            operation: "op-9".into(),
            target: Some(OperationTarget {
                address: Some("100.64.12.44".into()),
                ..Default::default()
            }),
            readable: false,
            ..Default::default()
        }],
        ..Default::default()
    };
    assert!(matches!(unreadable.recipe(&peer), Recipe::Command(_)));
    assert!(unreadable.operations[0]
        .state_label()
        .contains("could not be read"));
}

#[test]
fn a_removal_is_not_announced_as_a_setup() {
    let member = DeviceRow {
        state: "fleet_member".into(),
        machine: Some("pi".into()),
        ..Default::default()
    };

    let inventory = |state: &str| Inventory {
        devices: vec![member.clone()],
        operations: vec![OperationSummary {
            operation: "op-2".into(),
            state: Some(state.into()),
            kind: Some("leave".into()),
            target: Some(OperationTarget {
                machine: Some("pi".into()),
                ..Default::default()
            }),
            readable: true,
            ..Default::default()
        }],
        ..Default::default()
    };

    assert_eq!(
        inventory("deploying").ouroboros_word(&member),
        "removing\u{2026}"
    );
    assert_eq!(
        inventory("failed").ouroboros_word(&member),
        "removal failed"
    );
    assert_eq!(
        inventory("completed").ouroboros_word(&member),
        "removed just now"
    );
}

#[test]
fn an_operation_is_matched_to_its_row_by_target() {
    let alpha = DeviceRow {
        state: "discovered_installation_unknown".into(),
        name: "alpha".into(),
        address: Some("100.64.0.1".into()),
        suggested_machine: Some("alpha".into()),
        ..Default::default()
    };
    let bravo = DeviceRow {
        address: Some("100.64.0.2".into()),
        name: "bravo".into(),
        suggested_machine: Some("bravo".into()),
        ..alpha.clone()
    };

    let inventory = Inventory {
        devices: vec![alpha.clone(), bravo.clone()],
        operations: vec![OperationSummary {
            operation: "op-3".into(),
            state: Some("deploying".into()),
            kind: Some("add".into()),
            target: Some(OperationTarget {
                address: Some("100.64.0.2".into()),
                ..Default::default()
            }),
            readable: true,
            ..Default::default()
        }],
        ..Default::default()
    };

    assert!(matches!(inventory.recipe(&alpha), Recipe::Command(_)));
    assert_eq!(inventory.recipe(&bravo), Recipe::Nothing);
    assert_eq!(inventory.ouroboros_word(&alpha), "not set up");

    assert_eq!(OperationTarget::decode(&json(r#"{"port": 22}"#)), None);

    let member = DeviceRow {
        state: "fleet_member".into(),
        name: "raspberrypi".into(),
        machine: Some("pi".into()),
        ..Default::default()
    };
    let by_hostname = OperationTarget {
        machine: Some("raspberrypi".into()),
        address: None,
    };
    assert!(
        !by_hostname.is(&member),
        "an operation was matched to a member by its display name"
    );
    assert!(OperationTarget {
        machine: Some("pi".into()),
        address: None,
    }
    .is(&member));
}

#[test]
fn two_hosts_that_differ_past_the_column_budget_are_two_rows() {
    let prefix = "a".repeat(75);
    let mine = format!("{prefix}1.example.ts.net");
    let theirs = format!("{prefix}2.example.ts.net");

    let row = |address: &str| {
        DeviceRow::decode(&object(vec![
            ("name", Json::Text("peer".to_string())),
            ("state", Json::Text("discovered_installation_unknown".to_string())),
            ("address", Json::Text(address.to_string())),
            ("online", Json::Bool(true)),
        ]))
    };

    let (alpha, bravo) = (row(&mine), row(&theirs));

    assert_eq!(alpha.address, bravo.address, "the cut is what it was");
    assert_ne!(alpha.address_identity(), bravo.address_identity());

    let target = OperationTarget::decode(&object(vec![("address", Json::Text(theirs.clone()))]))
        .expect("a target with an address");

    assert!(target.is(&bravo), "the operation lost its own row");
    assert!(
        !target.is(&alpha),
        "an operation against {theirs} was matched to {mine}"
    );

    assert_eq!(
        identity(Some(&Json::Text("z".repeat(4_000))))
            .expect("an identity")
            .chars()
            .count(),
        IDENTITY_LIMIT
    );
    assert_eq!(identity(Some(&Json::Text(String::new()))), None);
    assert_eq!(identity(Some(&Json::Unsigned(7))), None);

    let handmade = DeviceRow {
        address: Some("100.64.0.1".into()),
        machine: Some("pi".into()),
        ..Default::default()
    };
    assert_eq!(handmade.address_identity(), Some("100.64.0.1"));
    assert_eq!(handmade.machine_identity(), Some("pi"));
}

#[test]
fn a_last_error_is_decoded_from_either_shape_and_never_invented() {
    assert_eq!(
        last_error(Some(&Json::Text("the worker stopped".to_string()))).as_deref(),
        Some("the worker stopped")
    );

    let structured = last_error(Some(&json(r#"{
        "reason": "host_key_changed",
        "detail": "ssh said the key is different"
    }"#)))
    .expect("a sentence");
    assert!(
        structured.contains("host's key has changed"),
        "the reason is a sentence: {structured}"
    );
    assert!(
        structured.contains("ssh said the key is different"),
        "the detail is kept: {structured}"
    );

    let future = last_error(Some(&json(r#"{"reason": "from_the_future"}"#))).expect("a sentence");
    assert!(future.contains("from the future"), "{future}");

    assert_eq!(last_error(None), None);
    assert_eq!(last_error(Some(&Json::Null)), None);
    assert_eq!(last_error(Some(&Json::Unsigned(7))), None);
}

#[test]
fn a_document_without_the_withdrawn_keys_still_decodes() {
    let inventory = Inventory::decode(&json(r#"{
        "host": {
            "hostname": "studio",
            "user": "ada",
            "os": "darwin",
            "capabilities": { "deploy": true, "reasons": [] }
        },
        "fleet_name": "studio",
        "discovery": { "code": "ok", "visible_peers": 1 },
        "devices": [{
            "name": "pi", "machine": "pi", "os": "linux",
            "address": "100.64.0.2", "online": true, "state": "fleet_member"
        }],
        "operations": [{
            "operation": "op-4", "kind": "add", "state": "deploying",
            "target": { "address": "100.64.0.2" }, "running": true
        }],
        "unknown": ["fleet_protocol_revision"]
    }"#));

    assert_eq!(inventory.host.hostname, "studio");
    assert_eq!(inventory.devices.len(), 1);
    assert!(inventory.operations[0].running);
    assert!(inventory.operations[0].underway());
    assert_eq!(
        inventory.unknown,
        vec!["fleet_protocol_revision".to_string()]
    );

    let legacy = Inventory::decode(&json(r#"{
        "host": { "hostname": "studio", "user": "ada", "issuer": true },
        "devices": [],
        "operations": [{
            "operation": "op-5", "owner": "ada", "attached": true,
            "target": { "machine": "pi" }
        }]
    }"#));
    assert_eq!(legacy.operations[0].operation, "op-5");
    assert!(
        !legacy.operations[0].running,
        "no `running` key is not running"
    );
    assert!(!legacy.operations[0].underway(), "no state is not underway");
}

#[test]
fn every_discovery_code_keeps_the_cli_wording() {
    for code in [
        "ok",
        "no_visible_peers",
        "client_missing",
        "signed_out",
        "permission_denied",
        "unavailable",
    ] {
        let name = code.to_string();

        let discovery = Discovery {
            code: name.clone(),
            detail: None,
            visible_peers: 3,
        };

        assert!(
            !discovery.headline().is_empty(),
            "{name} has no headline of its own"
        );

        match discovery.answered() {
            true => assert_eq!(discovery.notice(), None, "{name} drew a failure notice"),
            false => {
                let notice = discovery.notice().expect("a notice");
                assert!(
                    notice.contains("Devices already in the fleet are still listed."),
                    "{name} dropped the repair: {notice}"
                );
                assert!(
                    !notice.contains("older than the client"),
                    "{name} still guesses at a version mismatch"
                );
            }
        }
    }
}

#[test]
fn the_status_line_says_either_no_fleet_or_how_much_of_one_is_here() {
    let standalone = Inventory {
        host: DeploymentHost {
            os: Some("darwin".into()),
            ..Default::default()
        },
        devices: vec![row("this_device_without_profile")],
        ..Default::default()
    };
    assert_eq!(standalone.status_line(), "This Mac is not in a fleet yet");
    assert!(standalone.standalone());

    let fleet = Inventory {
        fleet_name: Some("studio".into()),
        devices: vec![
            DeviceRow {
                state: "this_device".into(),
                machine: Some("studio".into()),
                ..Default::default()
            },
            DeviceRow {
                state: "fleet_member".into(),
                machine: Some("pi".into()),
                connected: Some(false),
                ..Default::default()
            },
        ],
        ..Default::default()
    };
    assert_eq!(
        fleet.status_line(),
        "studio \u{b7} 1 of 2 machines connected"
    );
    assert!(fleet.describes_a_fleet());
}

#[test]
fn a_document_with_no_machines_states_that_rather_than_a_fleet() {
    for devices in [Vec::new(), vec![row("discovered_installation_unknown")]] {
        let empty = devices.is_empty();
        let inventory = Inventory {
            devices,
            ..Default::default()
        };

        let line = inventory.status_line();
        assert!(
            !line.contains("0 of 0 machine"),
            "a document with no machines drew `{line}`"
        );
        assert!(
            !inventory.describes_a_fleet(),
            "`{line}` would be drawn in the healthy colour"
        );
        assert_eq!(
            line,
            if empty {
                "This runtime reported no devices."
            } else {
                "This runtime reported no fleet."
            },
            "{line}"
        );
    }

    let named = Inventory {
        fleet_name: Some("studio".into()),
        devices: vec![row("discovered_installation_unknown")],
        ..Default::default()
    };
    assert_eq!(
        named.status_line(),
        "studio \u{b7} this runtime listed none of its machines"
    );
    assert!(!named.describes_a_fleet());
}

#[test]
fn the_self_row_takes_its_noun_from_the_host_os() {
    for (os, label) in [
        (Some("darwin"), "This Mac"),
        (Some("macos"), "This Mac"),
        (Some("linux"), "This machine"),
        (None, "This machine"),
    ] {
        let host = DeploymentHost {
            os: os.map(str::to_string),
            ..Default::default()
        };
        assert_eq!(host.self_label(), label);
    }
}

#[test]
fn the_deploying_from_line_names_the_host_and_its_account() {
    let host = DeploymentHost {
        hostname: "studio".into(),
        user: "ada".into(),
        ..Default::default()
    };
    assert_eq!(host.actions_line(), "Actions run on studio as ada.");
}




fn refused(code: ErrorCode, reason: Option<&str>) -> ClientError {
    ClientError::Rpc(RpcError {
        code,
        message: "refused".into(),
        data: reason.map(|reason| object(vec![("reason", Json::Text(reason.to_string()))])),
    })
}

#[test]
fn a_refusal_distinguishes_an_absent_capability_from_a_denied_permission() {
    assert_eq!(
        devices_refusal(&refused(ErrorCode::MethodNotFound, None)),
        Refusal::CapabilityAbsent
    );
    assert_eq!(
        devices_refusal(&refused(ErrorCode::ScopeDenied, None)),
        Refusal::NotAdministrator
    );

    let sentences = [
        Refusal::CapabilityAbsent.sentence(),
        Refusal::NotAdministrator.sentence(),
    ];
    assert_ne!(sentences[0], sentences[1]);
    for sentence in sentences {
        assert!(sentence.contains("fleet.status"), "{sentence}");
    }

    let busy = devices_refusal(&refused(ErrorCode::InvalidParams, Some("devices_busy")));
    match busy {
        Refusal::Other(sentence) => {
            assert!(
                sentence.contains("as many device inventories"),
                "{sentence}"
            );
            assert!(!sentence.contains("devices_busy"), "{sentence}");
        }
        other => panic!("expected a sentence, got {other:?}"),
    }
}

#[test]
fn a_zero_width_character_never_reaches_the_screen() {
    let drawn = scrub("bui\u{200b}ld-linux", NAME_COLUMNS);
    assert_eq!(drawn, "build-linux");
    assert!(!drawn.contains('\u{200b}'));

    let hostile = scrub("\u{1b}[2J\u{202e}evil\tname", ROW_FIELD_COLUMNS);
    assert!(!hostile.contains('\u{1b}'));
    assert!(!hostile.contains('\u{202e}'));
    assert!(!hostile.contains('\t'));
}

#[test]
fn a_column_is_a_fact_about_the_row_not_an_alignment() {
    let wide = ouroboros_tui::fleet::column(&"x".repeat(200), NAME_COLUMNS);
    assert_eq!(
        UnicodeWidthStr::width(wide.as_str()),
        NAME_COLUMNS + 2,
        "a long value moved its own column: {wide}"
    );
    assert!(wide.contains('\u{2026}'), "the cut is invisible: {wide}");

    for name in [
        "pi",
        "\u{5bb6}".repeat(20).as_str(),
        "e\u{301}\u{302}looong",
        "emoji-\u{1f468}\u{200d}\u{1f469}\u{200d}\u{1f467}",
        "",
    ] {
        let cell = ouroboros_tui::fleet::column(name, NAME_COLUMNS);
        assert_eq!(
            UnicodeWidthStr::width(cell.as_str()),
            NAME_COLUMNS + 2,
            "{name:?} moved the column after it: {cell:?}"
        );
    }
}

#[test]
fn the_row_budget_is_one_hundred_and_forty_and_the_pane_cuts_nothing() {
    assert_eq!(FULL_ROW_COLUMNS, 140);
    assert_eq!(ROW_COLUMNS_BEFORE_COMMAND + COMMAND_COLUMNS, 140);

    let longest = DeviceRow {
        state: "discovered_installation_unknown".into(),
        address: Some("a".repeat(64)),
        suggested_machine: Some("m".repeat(40)),
        ..Default::default()
    };
    let command = longest.recipe().command().expect("a command").to_string();

    assert!(
        command.chars().count() > COMMAND_LIMIT,
        "the row's ceiling is above the longest command, which would make the pane \
         pointless: {} columns",
        command.chars().count()
    );
    assert_eq!(
        scrub(&command, COMMAND_PANE_COLUMNS),
        command,
        "the pane cut a command this client composed"
    );
}

#[test]
fn the_filter_and_the_search_appear_past_eight_rows_and_narrow_one_list() {
    let mut inventory = Inventory::default();
    for index in 0..4 {
        inventory.devices.push(DeviceRow {
            name: format!("peer-{index}"),
            state: "discovered_installation_unknown".into(),
            ..Default::default()
        });
    }

    let mut state = DevicesState {
        filter: Filter::Fleet,
        query: "peer-1".into(),
        ..Default::default()
    };

    assert!(!state.narrowing(&inventory));
    assert_eq!(
        state.visible(&inventory).len(),
        4,
        "a short list must ignore a filter and a query it never offered"
    );

    for index in 4..12 {
        inventory.devices.push(DeviceRow {
            name: format!("peer-{index}"),
            state: "discovered_installation_unknown".into(),
            ..Default::default()
        });
    }

    assert!(state.narrowing(&inventory));
    state.filter = Filter::All;
    assert_eq!(
        state.visible(&inventory).len(),
        3,
        "peer-1, peer-10 and peer-11 all contain the query"
    );

    state.query.clear();
    state.filter = Filter::Fleet;
    assert!(state.visible(&inventory).is_empty());
    assert_eq!(Filter::All.next(), Filter::Fleet);
    assert_eq!(Filter::Fleet.next(), Filter::Available);
    assert_eq!(Filter::Available.next(), Filter::All);
}

#[test]
fn the_self_row_is_first_ahead_of_a_member_and_a_peer() {
    let member = DeviceRow {
        state: "fleet_member".into(),
        machine: Some("pi".into()),
        ..Default::default()
    };

    for this_machine in [
        DeviceRow {
            state: "this_device_without_profile".into(),
            ..Default::default()
        },
        DeviceRow {
            state: "this_device".into(),
            machine: Some("studio".into()),
            ..Default::default()
        },
    ] {
        let state = this_machine.state.clone();
        let inventory = Inventory {
            devices: vec![
                row("discovered_installation_unknown"),
                member.clone(),
                this_machine,
            ],
            ..Default::default()
        };

        let ordered = inventory.ordered();
        assert_eq!(ordered[0].state, state, "the self row is not first");
        assert_eq!(ordered[1].state, "fleet_member", "the member is not second");
        assert_eq!(
            ordered[2].state, "discovered_installation_unknown",
            "the peer is not last"
        );
        assert!(inventory.is_self(ordered[0]));
        assert!(ordered[0].in_fleet(), "the self row sorted with the peers");
    }
}

#[test]
fn presence_is_relative_on_the_row_and_exact_in_the_details() {
    let seen = DeviceRow {
        online: Some(false),
        last_seen: Some("2020-01-01T00:00:00Z".into()),
        ..Default::default()
    };

    assert!(seen.presence_short(NOW).contains("seen"));
    assert!(!seen.presence_short(NOW).contains("2020-01-01"));
    assert_eq!(seen.presence(), "offline, last seen 2020-01-01T00:00:00Z");

    assert_eq!(relative_time("2999-01-01T00:00:00Z", NOW), None);
    assert_eq!(relative_time("not a timestamp", NOW), None);
    assert_eq!(epoch_seconds("1970-01-01T00:00:00Z"), Some(0));
}

#[test]
fn a_hostile_last_seen_is_scrubbed_like_any_other_field() {
    let row = DeviceRow::decode(&object(vec![
        ("name", Json::Text("peer".to_string())),
        ("state", Json::Text("peer_offline".to_string())),
        ("online", Json::Bool(false)),
        (
            "last_seen",
            Json::Text(
                "\u{1b}[2J\u{202e}2020-01-01T00:00:00Z\n\n  studio  in the fleet".to_string(),
            ),
        ),
    ]));

    for drawn in [row.presence(), row.presence_short(NOW)] {
        assert!(!drawn.contains('\u{1b}'), "{drawn:?}");
        assert!(!drawn.contains('\u{202e}'), "{drawn:?}");
        assert!(!drawn.contains('\n'), "{drawn:?}");
        assert!(
            drawn.chars().count() <= FIELD_COLUMNS + 32,
            "the field is unbounded: {drawn:?}"
        );
    }
}

#[test]
fn the_unknown_key_list_names_a_few_and_counts_the_rest() {
    let one = unknown_keys_line(&vec!["fleet_protocol_revision".to_string()]);
    assert!(one.contains("fleet_protocol_revision"), "{one}");
    assert!(!one.contains("other key"), "{one}");

    let five: Vec<String> = (0..5).map(|index| format!("key_{index}")).collect();
    let line = unknown_keys_line(&five);
    assert!(line.contains("key_0") && line.contains("key_3"), "{line}");
    assert!(!line.contains("key_4"), "{line}");
    assert!(line.contains("and 1 other key,"), "{line}");

    let many: Vec<String> = (0..5_000)
        .map(|index| format!("key_{index}_{}", "z".repeat(80)))
        .collect();
    let line = unknown_keys_line(&many);
    assert!(line.chars().count() <= MESSAGE_COLUMNS, "{}", line.len());
    assert!(line.contains("4996 other keys"), "{line}");
    assert!(line.contains("key_0_zzz"), "{line}");
}
