use xnode_controller::reconcile::ControllerCache;
use xnode_controller::{
    new_os_config, os_block_end, os_block_start, Error, XnodeControllerError,
    XnodeControllerErrorInner,
};

#[test]
fn markers_follow_identity() {
    assert_eq!(os_block_start("n1"), "# START XNODE CONTROLLER n1");
    assert_eq!(os_block_end("n1"), "# END XNODE CONTROLLER n1");
}

#[test]
fn fresh_block_inserted_inside_user_config() {
    let doc = "# START USER CONFIG\nblock {\n}\n";
    let got = new_os_config(doc, "n1", "owner = alice;").expect("anchor present");
    let expected = "# START USER CONFIG\nblock {\n\n# START XNODE CONTROLLER n1\nowner = alice;\n# END XNODE CONTROLLER n1\n\n}\n";
    assert!(got.contains(expected));
    assert_eq!(got, expected);
}

#[test]
fn clearing_the_controller_keeps_the_markers() {
    let doc = "# START USER CONFIG\nblock {\n}\n";
    let with_alice = new_os_config(doc, "n1", "owner = alice;").expect("anchor present");
    // The desired decision becomes "no controller": an empty fragment.
    let cleared = new_os_config(&with_alice, "n1", "").expect("block present");
    let expected = "# START USER CONFIG\nblock {\n\n# START XNODE CONTROLLER n1\n\n# END XNODE CONTROLLER n1\n\n}\n";
    assert_eq!(cleared, expected);
}

#[test]
fn round_trip_replaces_only_the_block() {
    let doc = "# START USER CONFIG\nblock {\nkeep = 1;\n}\ntrailer\n";
    let first = new_os_config(doc, "n1", "owner = alice;").expect("anchor present");
    let second = new_os_config(&first, "n1", "owner = bob;").expect("block present");
    // Everything before the inserted block is byte-identical.
    let prefix = "# START USER CONFIG\nblock {";
    assert!(first.starts_with(prefix));
    assert!(second.starts_with(prefix));
    assert_eq!(
        second,
        "# START USER CONFIG\nblock {\n\n# START XNODE CONTROLLER n1\nowner = bob;\n# END XNODE CONTROLLER n1\n\nkeep = 1;\n}\ntrailer\n"
    );
    // Applying the first decision again reproduces the first document.
    let third = new_os_config(&second, "n1", "owner = alice;").expect("block present");
    assert_eq!(third, first);
}

#[test]
fn existing_block_updated_in_place() {
    let doc = "top\n# START XNODE CONTROLLER n1\nold\n# END XNODE CONTROLLER n1\nbottom\n";
    let got = new_os_config(doc, "n1", "new").expect("block present");
    assert_eq!(
        got,
        "top\n# START XNODE CONTROLLER n1\nnew\n# END XNODE CONTROLLER n1\nbottom\n"
    );
}

#[test]
fn no_insertion_point_is_an_error() {
    let doc = "just some config\n";
    let err = new_os_config(doc, "n1", "owner = alice;").expect_err("no anchor, no block");
    assert_eq!(err.message(), "No User Config");
}

#[test]
fn anchor_without_brace_is_an_error() {
    let doc = "# START USER CONFIG\nno brace follows\n";
    let err = new_os_config(doc, "n1", "owner = alice;").expect_err("no brace after anchor");
    assert_eq!(err.message(), "No User Config");
}

#[test]
fn error_kinds() {
    let own = Error::XnodeControllerError(XnodeControllerError::new(
        XnodeControllerErrorInner::NoUserConfig,
    ));
    assert!(matches!(own, Error::XnodeControllerError(_)));
    let sdk = Error::XnodeManagerSDKError(xnode_manager_sdk::utils::Error::XnodeManagerSDKError(
        xnode_manager_sdk::utils::XnodeManagerSDKError {},
    ));
    assert!(matches!(sdk, Error::XnodeManagerSDKError(_)));
}

#[test]
fn cache_dedup_suppresses_second_apply() {
    let mut cache = ControllerCache::new();
    let decision = Some(String::from("alice"));
    // First tick: nothing recorded yet, an apply is owed.
    assert!(cache.needs_update("n1", &decision));
    cache.finish_apply("n1", &decision, true);
    // Second tick, same decision: the applier must not run again.
    assert!(!cache.needs_update("n1", &decision));
    // A different decision is applied again.
    let other = Some(String::from("bob"));
    assert!(cache.needs_update("n1", &other));
    // So is clearing the controller.
    assert!(cache.needs_update("n1", &None));
}

#[test]
fn cache_failed_apply_is_retried() {
    let mut cache = ControllerCache::new();
    let decision = Some(String::from("alice"));
    assert!(cache.needs_update("n1", &decision));
    // The apply fails: the cache entry is unchanged.
    cache.finish_apply("n1", &decision, false);
    // The next tick with the same desired decision re-attempts the apply.
    assert!(cache.needs_update("n1", &decision));
    cache.finish_apply("n1", &decision, true);
    assert!(!cache.needs_update("n1", &decision));
}

#[test]
fn cache_records_no_controller_distinctly() {
    let mut cache = ControllerCache::new();
    // An entry recording "no controller" differs from no entry at all.
    assert!(cache.needs_update("n1", &None));
    cache.record("n1", &None);
    assert!(!cache.needs_update("n1", &None));
    assert!(cache.needs_update("n1", &Some(String::from("alice"))));
}

#[test]
fn cache_keys_nodes_independently() {
    let mut cache = ControllerCache::new();
    let alice = Some(String::from("alice"));
    let bob = Some(String::from("bob"));
    cache.record("n1", &alice);
    cache.record("n2", &bob);
    assert!(!cache.needs_update("n1", &alice));
    assert!(!cache.needs_update("n2", &bob));
    assert!(cache.needs_update("n1", &bob));
    cache.record("n1", &bob);
    assert!(!cache.needs_update("n1", &bob));
    assert!(!cache.needs_update("n2", &bob));
}
