//! What the activity line says.

use otto_tui::narration::{narration_word, tool_action, words};

#[test]
fn narration_word_is_deterministic() {
    assert_eq!(narration_word(0), narration_word(0));
    assert_eq!(narration_word(7), narration_word(7));
}

#[test]
fn narration_word_always_in_list() {
    for r in 0..100u32 {
        assert!(
            words().contains(&narration_word(r)),
            "rotation {r} out of list"
        );
    }
}

#[test]
fn narration_word_varies_across_windows() {
    let distinct: std::collections::HashSet<_> = (0..8u32).map(narration_word).collect();
    assert!(
        distinct.len() > 1,
        "narration word never changed across 8 windows"
    );
}

#[test]
fn tool_action_read() {
    assert_eq!(tool_action("read", "README.md"), "Reading README.md");
}

#[test]
fn tool_action_bash_strips_leading_name() {
    assert_eq!(tool_action("bash", "bash ls -F"), "Running ls -F");
}

#[test]
fn tool_action_edit_and_write() {
    assert_eq!(tool_action("edit", "state.rs"), "Editing state.rs");
    assert_eq!(tool_action("write", "new.rs"), "Writing new.rs");
}

#[test]
fn tool_action_search_and_fetch_and_task() {
    assert_eq!(tool_action("grep", "TODO"), "Searching TODO");
    assert_eq!(tool_action("webfetch", "https://x"), "Fetching https://x");
    assert_eq!(
        tool_action("task", "explore repo"),
        "Delegating explore repo"
    );
}

#[test]
fn tool_action_unknown_name_title_cased() {
    assert_eq!(tool_action("frobnicate", "frobnicate x"), "Frobnicate x");
}

#[test]
fn tool_action_verb_alone_when_no_arg() {
    assert_eq!(tool_action("bash", "bash"), "Running");
    assert_eq!(tool_action("read", "read"), "Reading");
}
