use xnode_controller::utils::string::{add_user_config, find, outside};

#[test]
fn find_first_occurrence() {
    let doc = "one two two three";
    assert_eq!(find(doc, "two"), Some(4));
    assert_eq!(find(doc, "three"), Some(12));
    assert_eq!(find(doc, "four"), None);
    assert_eq!(find(doc, ""), Some(0));
}

#[test]
fn outside_start_marker_absent() {
    assert_eq!(outside("no markers here", "# S", "# E"), None);
}

#[test]
fn outside_end_marker_absent() {
    assert_eq!(outside("prefix # S interior", "# S", "# E"), None);
}

#[test]
fn outside_end_marker_only_before_start() {
    // The end marker occurs, but not after the start marker.
    assert_eq!(outside("# E early # S tail", "# S", "# E"), None);
}

#[test]
fn outside_splits_around_interior() {
    let doc = "head # S interior # E tail";
    let (before, after) = outside(doc, "# S", "# E").expect("both markers present");
    assert_eq!(before, "head # S");
    assert_eq!(after, "# E tail");
    // Concatenating prefix + anything + suffix reproduces the markers.
    let rebuilt = format!("{}{}{}", before, " other ", after);
    assert_eq!(rebuilt, "head # S other # E tail");
}

#[test]
fn outside_boundaries_idempotent() {
    // Replacing the interior and locating again yields the same boundaries.
    let doc = "head # S old # E tail";
    let (before, after) = outside(doc, "# S", "# E").expect("both markers present");
    let replaced = format!("{}{}{}", before, " new interior ", after);
    let (before2, after2) = outside(&replaced, "# S", "# E").expect("markers kept");
    assert_eq!(before2, before);
    assert_eq!(after2, after);
}

#[test]
fn add_user_config_anchor_absent() {
    assert_eq!(add_user_config("config {\n}\n", "# START USER CONFIG", "x"), None);
}

#[test]
fn add_user_config_no_brace_after_anchor() {
    // The anchor exists but no `{` follows anywhere after it.
    assert_eq!(add_user_config("head { # A tail", "# A", "x"), None);
}

#[test]
fn add_user_config_inserts_after_first_brace() {
    let doc = "# A\nregion {\ninner\n}\n";
    let got = add_user_config(doc, "# A", "NEW").expect("anchor and brace present");
    assert_eq!(got, "# A\nregion {NEW\ninner\n}\n");
    // The result grew by exactly the inserted text's length and the prefix
    // through the brace is unchanged.
    assert_eq!(got.len(), doc.len() + "NEW".len());
    assert!(got.starts_with("# A\nregion {"));
}
