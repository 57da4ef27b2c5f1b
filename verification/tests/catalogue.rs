use ouroboros_tui::catalogue::{
    blocker_known, blocker_sentence, operation_state, operation_state_known, reason_known,
    reason_sentence, BLOCKER_CODES, OPERATION_STATES, REASON_CODES,
};
use ouroboros_tui::devices::DeploymentHost;

#[test]
fn every_catalogued_code_has_a_dedicated_sentence() {
    for code in REASON_CODES {
        let sentence = reason_sentence(code);
        assert!(!sentence.contains(code), "{code} printed as its identifier: {sentence}");
        assert!(sentence.len() > 12, "{code} has no explanation");
    }

    for code in BLOCKER_CODES {
        let sentence = blocker_sentence(code);
        assert!(!sentence.contains(code), "{code} printed as its identifier: {sentence}");
    }

    for code in OPERATION_STATES {
        let sentence = operation_state(code);
        assert!(!sentence.contains("does not know"), "{code} fell through: {sentence}");
    }
}

#[test]
fn each_blocker_is_explained_in_words() {
    for code in BLOCKER_CODES {
        let sentence = blocker_sentence(code);
        assert!(blocker_known(code), "{code} is not catalogued");
        assert!(!sentence.contains(code), "{code} printed as its identifier: {sentence}");
    }

    let host = DeploymentHost { reasons: vec!["dev_runtime".into()], ..Default::default() };
    assert!(host.blocker().is_some_and(|sentence| sentence.contains("development runtime")));
    assert_eq!(DeploymentHost::default().blocker(), None);
}

#[test]
fn every_operation_state_has_words() {
    for code in OPERATION_STATES {
        assert!(operation_state_known(code), "{code} is not catalogued");
        let sentence = operation_state(code);
        assert!(!sentence.contains("does not know"), "{code} fell through: {sentence}");
    }

    assert!(operation_state("from_the_future").contains("does not know"));
}

#[test]
fn each_refusal_reason_reads_as_a_sentence() {
    for reason in REASON_CODES {
        assert!(reason_known(reason), "{reason} is not catalogued");
        let sentence = reason_sentence(reason);
        assert!(!sentence.contains(reason), "{reason} printed as its identifier: {sentence}");
    }

    let unknown = reason_sentence("from_the_future");
    assert!(unknown.contains("from the future"), "{unknown}");
}
