//! The command surface: the session state machine, rendering, event
//! records, argument validation and error messages.

use datatui::commands::{EventsCommand, InitCommand, ListCommand, PluginState, RenderCommand,
    TerminateCommand, TextCommand};
use datatui::errors::UiError;
use datatui::events::{format_key_code, format_modifiers, InputEvent, KeyCode, Modifiers};
use datatui::host::HostValue;
use datatui::layout::Area;
use datatui::session::SessionState;
use datatui::widgets::{WidgetConfig, WidgetRef};

fn surface() -> Area {
    Area::full(100, 20)
}

#[test]
fn session_idempotence() {
    let mut state = PluginState::new();
    let terminate = TerminateCommand;

    // Terminating when already uninitialized succeeds without error.
    assert!(terminate.run(&mut state, true).is_ok());
    assert_eq!(state.session, SessionState::Uninitialized);

    // Rendering when uninitialized fails, telling the caller to init.
    let text = TextCommand;
    let r = text.run(&mut state, "hi".to_string(), false, false, None);
    let render = RenderCommand;
    match render.run(&state, &HostValue::Widget(r), surface()) {
        Err(UiError::NotInitialized) => {}
        _ => panic!("expected the not-initialized error"),
    }
}

#[test]
fn init_failure_reports_terminal_error() {
    let mut state = PluginState::new();
    let init = InitCommand;
    match init.run(&mut state, false) {
        Err(UiError::Terminal) => {}
        _ => panic!("expected the terminal error"),
    }
    assert_eq!(state.session, SessionState::Uninitialized);
}

#[test]
fn terminate_failure_still_clears_session() {
    let mut state = PluginState::new();
    let init = InitCommand;
    assert!(init.run(&mut state, true).is_ok());
    assert_eq!(state.session, SessionState::Active);

    let terminate = TerminateCommand;
    match terminate.run(&mut state, false) {
        Err(UiError::Terminal) => {}
        _ => panic!("expected the terminal error"),
    }
    // State consistency takes priority: the session is cleared anyway.
    assert_eq!(state.session, SessionState::Uninitialized);
}

#[test]
fn end_to_end_scenario() {
    let mut state = PluginState::new();
    let init = InitCommand;
    assert!(init.run(&mut state, true).is_ok());

    let list = ListCommand;
    let r1 = list.run(
        &mut state,
        vec!["x".to_string(), "y".to_string()],
        None,
        false,
        Some("L".to_string()),
    );
    let text = TextCommand;
    let r2 = text.run(&mut state, "hi".to_string(), false, false, None);

    let input = HostValue::Record(vec![(
        "layout".to_string(),
        HostValue::Record(vec![
            ("direction".to_string(), HostValue::Str("vertical".to_string())),
            (
                "panes".to_string(),
                HostValue::List(vec![
                    HostValue::Record(vec![
                        ("widget".to_string(), HostValue::Widget(r1)),
                        ("size".to_string(), HostValue::Str("50%".to_string())),
                    ]),
                    HostValue::Record(vec![
                        ("widget".to_string(), HostValue::Widget(r2)),
                        ("size".to_string(), HostValue::Str("*".to_string())),
                    ]),
                ]),
            ),
        ]),
    )]);

    let render = RenderCommand;
    let steps = render.run(&state, &input, surface()).expect("the render plan");
    assert_eq!(steps.len(), 2);
    assert_eq!(steps[0].area, Area { x: 0, y: 0, width: 100, height: 10 });
    assert_eq!(steps[1].area, Area { x: 0, y: 10, width: 100, height: 10 });
    match &steps[0].widget {
        WidgetConfig::List { items, title, .. } => {
            assert_eq!(items, &vec!["x".to_string(), "y".to_string()]);
            assert_eq!(title.as_deref(), Some("L"));
        }
        _ => panic!("expected the list widget first"),
    }
    match &steps[1].widget {
        WidgetConfig::Text { content, .. } => assert_eq!(content, "hi"),
        _ => panic!("expected the text widget second"),
    }

    let terminate = TerminateCommand;
    assert!(terminate.run(&mut state, true).is_ok());
    assert_eq!(state.session, SessionState::Uninitialized);
}

#[test]
fn render_single_widget_plan() {
    let mut state = PluginState::new();
    let init = InitCommand;
    assert!(init.run(&mut state, true).is_ok());
    let text = TextCommand;
    let r = text.run(&mut state, "solo".to_string(), true, false, Some("T".to_string()));

    let render = RenderCommand;
    let steps = render.run(&state, &HostValue::Widget(r), surface()).expect("the render plan");
    assert_eq!(steps.len(), 1);
    assert_eq!(steps[0].area, surface());
    match &steps[0].widget {
        WidgetConfig::Text { content, wrap, title, .. } => {
            assert_eq!(content, "solo");
            assert!(*wrap);
            assert_eq!(title.as_deref(), Some("T"));
        }
        _ => panic!("expected the text widget"),
    }
}

#[test]
fn render_unknown_widget_names_identity() {
    let mut state = PluginState::new();
    let init = InitCommand;
    assert!(init.run(&mut state, true).is_ok());

    let render = RenderCommand;
    let missing = WidgetRef { id: 9999 };
    match render.run(&state, &HostValue::Widget(missing), surface()) {
        Err(e) => {
            match &e {
                UiError::WidgetNotFound(id) => assert_eq!(*id, 9999),
                _ => panic!("expected the widget-not-found error"),
            }
            assert_eq!(e.message(), "Widget with ID 9999 not found");
        }
        Ok(_) => panic!("expected an error"),
    }
}

#[test]
fn render_unknown_widget_precedes_session_check() {
    // The widget lookup happens before the session check, so an unknown
    // reference is reported even when the session is uninitialized.
    let state = PluginState::new();
    let render = RenderCommand;
    match render.run(&state, &HostValue::Widget(WidgetRef { id: 3 }), surface()) {
        Err(UiError::WidgetNotFound(3)) => {}
        _ => panic!("expected the widget-not-found error"),
    }
}

#[test]
fn render_rejects_other_input() {
    let mut state = PluginState::new();
    let init = InitCommand;
    assert!(init.run(&mut state, true).is_ok());
    let render = RenderCommand;
    match render.run(&state, &HostValue::Int(5), surface()) {
        Err(UiError::InvalidArgument { field, pane }) => {
            assert_eq!(field, "input");
            assert_eq!(pane, None);
        }
        _ => panic!("expected the invalid-argument error"),
    }
}

#[test]
fn events_timeout_resolution() {
    let events = EventsCommand;
    assert_eq!(events.timeout_millis(None), 100);
    assert_eq!(events.timeout_millis(Some(250_000_000)), 250);
    assert_eq!(events.timeout_millis(Some(999_999)), 0);
    assert_eq!(events.timeout_millis(Some(-5)), 0);
}

#[test]
fn events_run_wraps_one_record() {
    let events = EventsCommand;
    let polled = InputEvent::Key {
        code: KeyCode::Enter,
        modifiers: Modifiers { control: true, ..Modifiers::none() },
    };
    let out = events.run(Some(polled), 1234);
    assert_eq!(out.len(), 1);
    match &out[0] {
        HostValue::Record(fields) => {
            assert_eq!(fields.len(), 4);
            assert_eq!(fields[0].0, "type");
            match &fields[0].1 {
                HostValue::Str(s) => assert_eq!(s, "key"),
                _ => panic!("expected a string type tag"),
            }
            assert_eq!(fields[1].0, "key");
            match &fields[1].1 {
                HostValue::Str(s) => assert_eq!(s, "Enter"),
                _ => panic!("expected the key name"),
            }
            assert_eq!(fields[2].0, "modifiers");
            match &fields[2].1 {
                HostValue::List(ms) => {
                    assert_eq!(ms.len(), 1);
                    match &ms[0] {
                        HostValue::Str(s) => assert_eq!(s, "Ctrl"),
                        _ => panic!("expected a modifier name"),
                    }
                }
                _ => panic!("expected the modifiers list"),
            }
            assert_eq!(fields[3].0, "timestamp");
            match &fields[3].1 {
                HostValue::Int(ts) => assert_eq!(*ts, 1234),
                _ => panic!("expected the timestamp"),
            }
        }
        _ => panic!("expected a record"),
    }
}

#[test]
fn events_run_empty_on_timeout() {
    let events = EventsCommand;
    assert!(events.run(None, 55).is_empty());
}

#[test]
fn resize_event_record_fields() {
    let events = EventsCommand;
    let out = events.run(Some(InputEvent::Resize { width: 80, height: 24 }), 7);
    match &out[0] {
        HostValue::Record(fields) => {
            assert_eq!(fields[0].0, "type");
            match &fields[0].1 {
                HostValue::Str(s) => assert_eq!(s, "resize"),
                _ => panic!("expected the type tag"),
            }
            match (&fields[1].1, &fields[2].1) {
                (HostValue::Int(w), HostValue::Int(h)) => {
                    assert_eq!(*w, 80);
                    assert_eq!(*h, 24);
                }
                _ => panic!("expected the dimensions"),
            }
        }
        _ => panic!("expected a record"),
    }
}

#[test]
fn key_code_formatting_exact() {
    assert_eq!(format_key_code(KeyCode::F(5)), "F5");
    assert_eq!(format_key_code(KeyCode::F(12)), "F12");
    assert_eq!(format_key_code(KeyCode::Char('x')), "x");
    assert_eq!(format_key_code(KeyCode::Esc), "Escape");
    assert_eq!(format_key_code(KeyCode::Backspace), "Backspace");
    assert_eq!(format_key_code(KeyCode::PageDown), "PageDown");
}

#[test]
fn modifiers_reported_in_order() {
    let m = Modifiers {
        control: true,
        alt: false,
        shift: true,
        super_key: false,
        hyper: false,
        meta: true,
    };
    let out = format_modifiers(m);
    let names: Vec<&str> = out
        .iter()
        .map(|v| match v {
            HostValue::Str(s) => s.as_str(),
            _ => panic!("expected a name"),
        })
        .collect();
    assert_eq!(names, vec!["Ctrl", "Shift", "Meta"]);
}

#[test]
fn validate_selected_flag() {
    let list = ListCommand;
    assert_eq!(list.validate_selected(None).unwrap(), None);
    assert_eq!(list.validate_selected(Some(3)).unwrap(), Some(3));
    match list.validate_selected(Some(-1)) {
        Err(UiError::InvalidArgument { field, pane }) => {
            assert_eq!(field, "selected");
            assert_eq!(pane, None);
        }
        _ => panic!("expected the invalid-argument error"),
    }
}

#[test]
fn error_messages_exact() {
    assert_eq!(
        UiError::NotInitialized.message(),
        "Terminal not initialized. Run 'datatui init' first."
    );
    assert_eq!(UiError::WidgetNotFound(7).message(), "Widget with ID 7 not found");
    assert_eq!(UiError::Terminal.message(), "Terminal operation failed");
    assert_eq!(
        UiError::InvalidArgument { field: "size".to_string(), pane: Some(2) }.message(),
        "Invalid or missing field 'size' in pane 2"
    );
    assert_eq!(
        UiError::InvalidArgument { field: "layout".to_string(), pane: None }.message(),
        "Invalid or missing field 'layout'"
    );
}

#[test]
fn command_names_match_surface() {
    assert_eq!(InitCommand.name(), "datatui init");
    assert_eq!(TerminateCommand.name(), "datatui terminate");
    assert_eq!(EventsCommand.name(), "datatui events");
    assert_eq!(ListCommand.name(), "datatui list");
    assert_eq!(TextCommand.name(), "datatui text");
    assert_eq!(RenderCommand.name(), "datatui render");
    assert_eq!(RenderCommand.description(), "Render UI layout to terminal");
}
