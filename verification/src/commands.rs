//! The host-invocable command surface: construct widgets, acquire and
//! release the terminal session, poll events, and render. Each command's
//! `run` holds every decision the command makes; the surrounding process
//! only performs the OS work the result calls for and reports its
//! outcome.

use vstd::prelude::*;
use crate::errors::{ErrorView, UiError};
use crate::events::{event_record, spec_event_record, InputEvent};
use crate::host::{hvals_of, lemma_hvals_of_index, spec_decode_layout, HVal, HostValue};
use crate::layout::{layout_plan, spec_horizontal, spec_plan, Area, RenderStep, RenderStepView};
use crate::registry::WidgetRegistry;
use crate::session::SessionState;
use crate::widgets::{LayoutConfig, WidgetConfig, WidgetRef, WidgetView};

verus! {

/// The plugin's whole mutable state: the widget registry and the session
/// flag. The surrounding process holds the actual terminal handle
/// alongside, live exactly while the session is `Active`.
pub struct PluginState {
    pub registry: WidgetRegistry,
    pub session: SessionState,
}

impl PluginState {
    /// The state is well formed when its registry is.
    pub open spec fn wf(&self) -> bool {
        self.registry.wf()
    }

    pub fn new() -> (r: Self)
        ensures
            r.wf(),
            r.session is Uninitialized,
            r.registry@ == Map::<u64, WidgetView>::empty(),
            r.registry.next_identity() == 0,
    {
        PluginState { registry: WidgetRegistry::new(), session: SessionState::Uninitialized }
    }

    /// The drop-notification handler: an idempotent dispatch over the
    /// dropped value's tag. A widget reference removes its identity from
    /// the registry — removing an absent identity is a silent no-op — and
    /// any other value is ignored. Delivery is not assumed to be
    /// exactly-once.
    pub fn custom_value_dropped(&mut self, dropped: &HostValue)
        requires
            old(self).wf(),
        ensures
            final(self).wf(),
            final(self).session == old(self).session,
            final(self).registry.next_identity() == old(self).registry.next_identity(),
            match dropped {
                HostValue::Widget(w) => final(self).registry@ == old(self).registry@.remove(
                    w.id,
                ),
                _ => final(self).registry@ == old(self).registry@,
            },
    {
        match dropped {
            HostValue::Widget(w) => {
                self.registry.remove(w.id);
            },
            _ => {},
        }
    }
}

/// Law: after a widget reference's drop notification is delivered, a
/// lookup of its identity finds nothing; and delivering a notification
/// for an identity that is already absent leaves the stored definitions
/// exactly as they were.
pub proof fn lemma_drop_removal(defs: Map<u64, WidgetView>, id: u64)
    ensures
        !defs.remove(id).contains_key(id),
        !defs.contains_key(id) ==> defs.remove(id) == defs,
{
    if !defs.contains_key(id) {
        assert(defs.remove(id) =~= defs);
    }
}

/// The command that puts the terminal into TUI mode.
pub struct InitCommand;

impl InitCommand {
    /// The command's name on the host's surface.
    pub fn name(&self) -> (r: &'static str)
        ensures
            r@ == "datatui init"@,
    {
        "datatui init"
    }

    /// The command's one-line description.
    pub fn description(&self) -> (r: &'static str)
        ensures
            r@ == "Initialize terminal for TUI mode"@,
    {
        "Initialize terminal for TUI mode"
    }

    /// Runs the command. `os_ok` reports whether raw mode and the
    /// alternate screen were entered: on success the session is `Active`;
    /// on failure the state is untouched and a terminal error is
    /// returned. The registry is never touched.
    pub fn run(&self, state: &mut PluginState, os_ok: bool) -> (r: Result<(), UiError>)
        ensures
            final(state).registry == old(state).registry,
            os_ok ==> final(state).session is Active && r is Ok,
            !os_ok ==> final(state).session == old(state).session && match r {
                Ok(_) => false,
                Err(e) => e@ is Terminal,
            },
    {
        state.session.apply_init(os_ok)
    }
}

/// The command that restores the terminal to normal mode.
pub struct TerminateCommand;

impl TerminateCommand {
    /// The command's name on the host's surface.
    pub fn name(&self) -> (r: &'static str)
        ensures
            r@ == "datatui terminate"@,
    {
        "datatui terminate"
    }

    /// The command's one-line description.
    pub fn description(&self) -> (r: &'static str)
        ensures
            r@ == "Restore terminal to normal mode"@,
    {
        "Restore terminal to normal mode"
    }

    /// Runs the command. The session is cleared before the OS-level
    /// restore is attempted, so the state is `Uninitialized` afterwards
    /// whatever `restore_ok` reports; a failed restore is still reported.
    /// Terminating when already `Uninitialized` succeeds. The registry is
    /// never touched.
    pub fn run(&self, state: &mut PluginState, restore_ok: bool) -> (r: Result<(), UiError>)
        ensures
            final(state).registry == old(state).registry,
            final(state).session is Uninitialized,
            restore_ok <==> r is Ok,
            !restore_ok ==> match r {
                Ok(_) => false,
                Err(e) => e@ is Terminal,
            },
    {
        state.session.apply_terminate(restore_ok)
    }
}

/// The command that polls the input device for events.
pub struct EventsCommand;

impl EventsCommand {
    /// The command's name on the host's surface.
    pub fn name(&self) -> (r: &'static str)
        ensures
            r@ == "datatui events"@,
    {
        "datatui events"
    }

    /// The command's one-line description.
    pub fn description(&self) -> (r: &'static str)
        ensures
            r@ == "Get terminal events"@,
    {
        "Get terminal events"
    }

    /// Resolves the polling timeout from the host's optional duration
    /// flag, given in nanoseconds: the wait is that many whole
    /// milliseconds, a negative duration waits not at all, and an absent
    /// flag defaults to one hundred milliseconds.
    pub fn timeout_millis(&self, flag_nanos: Option<i64>) -> (r: u64)
        ensures
            r as int == match flag_nanos {
                Some(n) => if n >= 0 {
                    n / 1_000_000
                } else {
                    0
                },
                None => 100,
            },
    {
        match flag_nanos {
            Some(n) => if n >= 0 {
                (n / 1_000_000) as u64
            } else {
                0
            },
            None => 100,
        }
    }

    /// Runs the command on the outcome of one poll: at most one event was
    /// seen, and its record — carrying the caller-observed timestamp —
    /// is the whole result. A poll that timed out yields an empty list.
    pub fn run(&self, polled: Option<InputEvent>, timestamp_millis: i64) -> (r: Vec<HostValue>)
        ensures
            hvals_of(r@) == match polled {
                Some(e) => seq![HVal::Record(spec_event_record(e@, timestamp_millis))],
                None => Seq::<HVal>::empty(),
            },
    {
        let mut out: Vec<HostValue> = Vec::new();
        match polled {
            Some(e) => {
                let fields = event_record(&e, timestamp_millis);
                out.push(HostValue::Record(fields));
            },
            None => {},
        }
        proof {
            lemma_hvals_of_index(out@);
            assert(hvals_of(out@) =~= match polled {
                Some(e) => seq![HVal::Record(spec_event_record(e@, timestamp_millis))],
                None => Seq::<HVal>::empty(),
            });
        }
        out
    }
}

/// The command that constructs a list widget.
pub struct ListCommand;

impl ListCommand {
    /// The command's name on the host's surface.
    pub fn name(&self) -> (r: &'static str)
        ensures
            r@ == "datatui list"@,
    {
        "datatui list"
    }

    /// The command's one-line description.
    pub fn description(&self) -> (r: &'static str)
        ensures
            r@ == "Create a list widget"@,
    {
        "Create a list widget"
    }

    /// Validates the optional selected-index flag: a negative index, or
    /// one this machine cannot address, is rejected naming the field.
    pub fn validate_selected(&self, flag: Option<i64>) -> (r: Result<Option<usize>, UiError>)
        ensures
            flag is None ==> r == Ok::<Option<usize>, UiError>(None),
            match flag {
                Some(n) => {
                    if 0 <= n <= usize::MAX {
                        r == Ok::<Option<usize>, UiError>(Some(n as usize))
                    } else {
                        match r {
                            Ok(_) => false,
                            Err(e) => e@ == (ErrorView::InvalidArgument {
                                field: "selected"@,
                                pane: None,
                            }),
                        }
                    }
                },
                None => true,
            },
    {
        match flag {
            None => Ok(None),
            Some(n) => {
                if n < 0 {
                    Err(
                        UiError::InvalidArgument {
                            field: String::from_str("selected"),
                            pane: None,
                        },
                    )
                } else {
                    let u = n as u64;
                    if u > usize::MAX as u64 {
                        Err(
                            UiError::InvalidArgument {
                                field: String::from_str("selected"),
                                pane: None,
                            },
                        )
                    } else {
                        Ok(Some(u as usize))
                    }
                }
            },
        }
    }

    /// Runs the command: allocates a fresh identity, stores the list
    /// definition built from the validated arguments, and hands back the
    /// opaque reference the host will hold.
    pub fn run(
        &self,
        state: &mut PluginState,
        items: Vec<String>,
        selected: Option<usize>,
        scrollable: bool,
        title: Option<String>,
    ) -> (r: WidgetRef)
        requires
            old(state).wf(),
            old(state).registry.next_identity() < u64::MAX,
        ensures
            final(state).wf(),
            final(state).session == old(state).session,
            r.id == old(state).registry.next_identity(),
            final(state).registry.next_identity() == r.id + 1,
            final(state).registry@ == old(state).registry@.insert(
                r.id,
                WidgetView::List {
                    items: items.deep_view(),
                    selected,
                    scrollable,
                    title: title.deep_view(),
                },
            ),
    {
        let id = state.registry.allocate_identity();
        state.registry.insert(id, WidgetConfig::List { items, selected, scrollable, title });
        WidgetRef { id }
    }
}

/// The command that constructs a text widget.
pub struct TextCommand;

impl TextCommand {
    /// The command's name on the host's surface.
    pub fn name(&self) -> (r: &'static str)
        ensures
            r@ == "datatui text"@,
    {
        "datatui text"
    }

    /// The command's one-line description.
    pub fn description(&self) -> (r: &'static str)
        ensures
            r@ == "Create a text widget"@,
    {
        "Create a text widget"
    }

    /// Runs the command: allocates a fresh identity, stores the text
    /// definition built from the arguments, and hands back the opaque
    /// reference the host will hold.
    pub fn run(
        &self,
        state: &mut PluginState,
        content: String,
        wrap: bool,
        scrollable: bool,
        title: Option<String>,
    ) -> (r: WidgetRef)
        requires
            old(state).wf(),
            old(state).registry.next_identity() < u64::MAX,
        ensures
            final(state).wf(),
            final(state).session == old(state).session,
            r.id == old(state).registry.next_identity(),
            final(state).registry.next_identity() == r.id + 1,
            final(state).registry@ == old(state).registry@.insert(
                r.id,
                WidgetView::Text {
                    content: content@,
                    wrap,
                    scrollable,
                    title: title.deep_view(),
                },
            ),
    {
        let id = state.registry.allocate_identity();
        state.registry.insert(id, WidgetConfig::Text { content, wrap, scrollable, title });
        WidgetRef { id }
    }
}

/// The command that renders a widget or a layout to the terminal.
pub struct RenderCommand;

/// What a render call yields, given the stored definitions, whether the
/// session is active, the render input, and the drawing surface. A widget
/// reference renders that one widget over the whole surface — an unknown
/// reference is reported before the session is checked, as the lookup
/// happens first. A record is decoded as a layout — decode errors come
/// before the session check — and rendered pane by pane, skipping panes
/// whose widget is gone. Any other input is rejected.
pub open spec fn spec_render(
    defs: Map<u64, WidgetView>,
    active: bool,
    input: HostValue,
    area: Area,
) -> Result<Seq<RenderStepView>, ErrorView> {
    match input {
        HostValue::Widget(w) => if !defs.contains_key(w.id) {
            Err(ErrorView::WidgetNotFound(w.id))
        } else if !active {
            Err(ErrorView::NotInitialized)
        } else {
            Ok(seq![RenderStepView { area, widget: defs[w.id] }])
        },
        HostValue::Record(fields) => match spec_decode_layout(fields@) {
            Ok(lv) => if !active {
                Err(ErrorView::NotInitialized)
            } else {
                Ok(
                    spec_plan(
                        defs,
                        lv.panes,
                        area,
                        spec_horizontal(lv.direction),
                        lv.panes.len() as int,
                    ),
                )
            },
            Err(e) => Err(e),
        },
        _ => Err(ErrorView::InvalidArgument { field: "input"@, pane: None }),
    }
}

impl RenderCommand {
    /// The command's name on the host's surface.
    pub fn name(&self) -> (r: &'static str)
        ensures
            r@ == "datatui render"@,
    {
        "datatui render"
    }

    /// The command's one-line description.
    pub fn description(&self) -> (r: &'static str)
        ensures
            r@ == "Render UI layout to terminal"@,
    {
        "Render UI layout to terminal"
    }

    /// Runs the command: computes the render plan — the sub-areas and
    /// widget definitions the surrounding process must draw — or the
    /// error the host is to see.
    pub fn run(&self, state: &PluginState, input: &HostValue, area: Area) -> (r: Result<
        Vec<RenderStep>,
        UiError,
    >)
        requires
            state.wf(),
            area.x + area.width <= u16::MAX,
            area.y + area.height <= u16::MAX,
        ensures
            match r {
                Ok(steps) => spec_render(state.registry@, state.session is Active, *input, area)
                    == Ok::<Seq<RenderStepView>, ErrorView>(steps.deep_view()),
                Err(e) => spec_render(state.registry@, state.session is Active, *input, area)
                    == Err::<Seq<RenderStepView>, ErrorView>(e@),
            },
    {
        match input {
            HostValue::Widget(w) => match state.registry.get(w.id) {
                None => Err(UiError::WidgetNotFound(w.id)),
                Some(config) => match state.session.require_active() {
                    Err(e) => Err(e),
                    Ok(_) => {
                        let mut steps: Vec<RenderStep> = Vec::new();
                        steps.push(RenderStep { area, widget: config.duplicate() });
                        proof {
                            assert(steps.deep_view() =~= seq![
                                RenderStepView { area, widget: state.registry@[w.id] },
                            ]);
                        }
                        Ok(steps)
                    },
                },
            },
            HostValue::Record(fields) => match LayoutConfig::from_record(fields) {
                Err(e) => Err(e),
                Ok(cfg) => match state.session.require_active() {
                    Err(e) => Err(e),
                    Ok(_) => Ok(layout_plan(&state.registry, &cfg, area)),
                },
            },
            _ => Err(
                UiError::InvalidArgument { field: String::from_str("input"), pane: None },
            ),
        }
    }
}

} // verus!
