use praxis_ai::chat_completions::operation_specs;
use praxis_ai::registry_check::{check, check_loaded, compare, tally, Comparison, OperationKey, SpecOperation};

fn drift(comparison: Comparison) -> Option<String> {
    match comparison {
        Comparison::Agrees => None,
        Comparison::Drifted(reason) => Some(reason),
    }
}

fn operation(method: &str, path: &str, id: Option<&str>) -> SpecOperation {
    SpecOperation {
        key: OperationKey {
            method: method.to_owned(),
            path: path.to_owned(),
        },
        operation_id: id.map(|id| id.to_owned()),
    }
}

fn pinned() -> Vec<SpecOperation> {
    operation_specs()
        .iter()
        .map(|spec| operation(spec.method.as_str(), spec.spec_path, Some(spec.operation_id)))
        .collect()
}

#[test]
fn registered_operation_matching_the_specification_agrees() {
    assert!(
        drift(compare(
            "POST",
            "/chat/completions",
            "createChatCompletion",
            Some("createChatCompletion"),
            false
        ))
        .is_none()
    );
}

#[test]
fn registered_operation_with_a_different_id_is_drift() {
    let reason = drift(compare(
        "POST",
        "/chat/completions",
        "createChatCompletionTypo",
        Some("createChatCompletion"),
        false,
    ))
    .expect("a mismatched ID must be reported");
    assert!(reason.contains("createChatCompletionTypo") && reason.contains("createChatCompletion"));
}

#[test]
fn drift_reasons_are_exact() {
    assert_eq!(
        drift(compare("GET", "/p", "a", Some("b"), false)).as_deref(),
        Some("GET /p registers operation ID a but the pinned specification says b")
    );
    assert_eq!(
        drift(compare("GET", "/p", "a", None, false)).as_deref(),
        Some("GET /p is registered but absent from the pinned specification")
    );
    assert_eq!(
        drift(compare("GET", "/p", "a", Some("a"), true)).as_deref(),
        Some("GET /p is declared a Praxis protocol extension but the pinned specification now defines it as a")
    );
    assert_eq!(drift(compare("GET", "/p", "a", None, true)), None);
}

#[test]
fn matching_specification_passes() {
    assert_eq!(
        check(&pinned()).unwrap(),
        "chat completions registry matches the pinned specification: 6 operations checked, 0 protocol extensions"
    );
}

#[test]
fn every_drifted_operation_is_reported_in_registry_order() {
    let mut operations = pinned();
    operations[4].operation_id = Some("removeChatCompletion".to_owned());
    operations.remove(1);
    assert_eq!(
        check(&operations).unwrap_err(),
        "POST /chat/completions is registered but absent from the pinned specification\n\
         DELETE /chat/completions/{completion_id} registers operation ID deleteChatCompletion \
         but the pinned specification says removeChatCompletion"
    );
    let counts = tally(&operations);
    assert_eq!((counts.checked, counts.extensions, counts.failures.len()), (6, 0, 2));
}

#[test]
fn first_operation_with_the_key_decides() {
    let mut operations = pinned();
    operations.insert(0, operation("GET", "/chat/completions", None));
    assert_eq!(
        check(&operations).unwrap_err(),
        "GET /chat/completions is registered but absent from the pinned specification"
    );
}

#[test]
fn empty_specification_reports_every_operation() {
    assert_eq!(check(&[]).unwrap_err().lines().count(), operation_specs().len());
}

#[test]
fn failed_load_is_returned_unchanged() {
    assert_eq!(check_loaded(Err("no such file".to_owned())).unwrap_err(), "no such file");
}

#[test]
fn loaded_operations_are_checked() {
    assert_eq!(check_loaded(Ok(pinned())), check(&pinned()));
    assert!(check_loaded(Ok(pinned())).is_ok());
    assert_eq!(check_loaded(Ok(Vec::new())), check(&[]));
    assert!(check_loaded(Ok(Vec::new())).is_err());
}
