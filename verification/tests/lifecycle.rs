//! Widget lifecycle: identity allocation, storage round trips, and the
//! drop-notification protocol.

use datatui::commands::{ListCommand, PluginState, TextCommand};
use datatui::host::HostValue;
use datatui::registry::WidgetRegistry;
use datatui::widgets::{WidgetConfig, WidgetRef};

#[test]
fn identity_uniqueness_sequence() {
    let mut state = PluginState::new();
    let list = ListCommand;
    let text = TextCommand;
    let mut ids = Vec::new();
    for i in 0..5u32 {
        let r = if i % 2 == 0 {
            list.run(&mut state, vec!["a".to_string()], None, false, None)
        } else {
            text.run(&mut state, "t".to_string(), false, false, None)
        };
        ids.push(r.id);
    }
    for i in 0..ids.len() {
        for j in (i + 1)..ids.len() {
            assert!(ids[i] < ids[j]);
            assert_ne!(ids[i], ids[j]);
        }
    }
}

#[test]
fn round_trip_list_storage() {
    let mut state = PluginState::new();
    let cmd = ListCommand;
    let r = cmd.run(
        &mut state,
        vec!["a".to_string(), "b".to_string(), "c".to_string()],
        None,
        false,
        Some("T".to_string()),
    );
    match state.registry.get(r.id) {
        Some(WidgetConfig::List { items, selected, scrollable, title }) => {
            assert_eq!(items, &vec!["a".to_string(), "b".to_string(), "c".to_string()]);
            assert_eq!(*selected, None);
            assert!(!*scrollable);
            assert_eq!(title.as_deref(), Some("T"));
        }
        _ => panic!("expected the stored list definition"),
    }
}

#[test]
fn round_trip_text_storage() {
    let mut state = PluginState::new();
    let cmd = TextCommand;
    let r = cmd.run(&mut state, "hello".to_string(), true, false, None);
    match state.registry.get(r.id) {
        Some(WidgetConfig::Text { content, wrap, scrollable, title }) => {
            assert_eq!(content, "hello");
            assert!(*wrap);
            assert!(!*scrollable);
            assert_eq!(*title, None);
        }
        _ => panic!("expected the stored text definition"),
    }
}

#[test]
fn drop_removes_widget() {
    let mut state = PluginState::new();
    let cmd = ListCommand;
    let r = cmd.run(&mut state, vec!["x".to_string()], None, false, None);
    assert!(state.registry.get(r.id).is_some());

    state.custom_value_dropped(&HostValue::Widget(r));
    assert!(state.registry.get(r.id).is_none());

    // A second notification for the same identity is a silent no-op.
    state.custom_value_dropped(&HostValue::Widget(r));
    assert!(state.registry.get(r.id).is_none());
}

#[test]
fn drop_of_other_value_is_noop() {
    let mut state = PluginState::new();
    let cmd = TextCommand;
    let r = cmd.run(&mut state, "keep".to_string(), false, false, None);
    state.custom_value_dropped(&HostValue::Int(42));
    state.custom_value_dropped(&HostValue::Str("widget".to_string()));
    assert!(state.registry.get(r.id).is_some());
}

#[test]
fn identity_never_reused_after_removal() {
    let mut state = PluginState::new();
    let cmd = TextCommand;
    let r1 = cmd.run(&mut state, "one".to_string(), false, false, None);
    state.custom_value_dropped(&HostValue::Widget(r1));
    let r2 = cmd.run(&mut state, "two".to_string(), false, false, None);
    assert!(r2.id > r1.id);
}

#[test]
fn remove_absent_identity_reports_absent() {
    let mut reg = WidgetRegistry::new();
    assert!(!reg.remove(12345));
}

#[test]
fn insert_overwrites_same_identity() {
    let mut reg = WidgetRegistry::new();
    let id = reg.allocate_identity();
    reg.insert(
        id,
        WidgetConfig::Text { content: "old".to_string(), wrap: false, scrollable: false, title: None },
    );
    reg.insert(
        id,
        WidgetConfig::Text { content: "new".to_string(), wrap: false, scrollable: false, title: None },
    );
    match reg.get(id) {
        Some(WidgetConfig::Text { content, .. }) => assert_eq!(content, "new"),
        _ => panic!("expected the overwritten definition"),
    }
}

#[test]
fn lookup_of_unknown_reference_is_absent() {
    let state = PluginState::new();
    let ghost_ref = WidgetRef { id: 7 };
    assert!(state.registry.get(ghost_ref.id).is_none());
}
