use crate::actions::{
    is_pressed, maintain_actions, maintained, performing_actions, Actions, PointerButton,
};
use crate::canvas::{
    cleanup_empty_tables, clear_actions, finish_actions, make_table, Canvas, CanvasModel,
};
use crate::geometry::{CellScale, Point};
use crate::player::{Tool, User};
use vstd::prelude::*;

verus! {

/// The lifecycle of the application.
#[derive(Clone, Copy, Debug, PartialEq, Eq, Structural)]
pub enum AppState {
    Loading,
    Running,
    Cleanup,
}

/// Where the user's input goes.
#[derive(Clone, Copy, Debug, PartialEq, Eq, Structural)]
pub enum UserState {
    /// The application is not running yet.
    Inactive,
    /// The pointer is over the sidebar.
    Sidebar,
    /// The pointer is over the canvas and may draw.
    Drawing,
}

/// How the pointer relates to one sidebar element this frame.
#[derive(Clone, Copy, Debug, PartialEq, Eq, Structural)]
pub enum Interaction {
    Pressed,
    Hovered,
    Idle,
}

/// The pointer hovers over, or presses, some sidebar element.
pub open spec fn pointer_over_ui(ui: Seq<Interaction>) -> bool {
    exists|i: int| 0 <= i < ui.len() && #[trigger] ui[i] != Interaction::Idle
}

/// The mode that this frame's sidebar interactions call for.
pub open spec fn ui_mode(ui: Seq<Interaction>) -> UserState {
    if pointer_over_ui(ui) {
        UserState::Sidebar
    } else {
        UserState::Drawing
    }
}

/// Chooses between the sidebar and the canvas from the interactions of the
/// sidebar's elements.
pub fn check_if_in_ui(ui: &[Interaction]) -> (r: UserState)
    ensures
        r == ui_mode(ui@),
{
    let mut i: usize = 0;
    while i < ui.len()
        invariant
            0 <= i <= ui@.len(),
            forall|j: int| 0 <= j < i ==> #[trigger] ui@[j] == Interaction::Idle,
        decreases ui@.len() - i,
    {
        match ui[i] {
            Interaction::Pressed | Interaction::Hovered => {
                return UserState::Sidebar;
            },
            Interaction::Idle => {},
        }
        i = i + 1;
    }
    UserState::Drawing
}

/// Whether the table-building step runs: an action is in progress and the
/// user holds `tool`.
pub fn using_tool(tool: Tool, user: &User, action: &Actions) -> (r: bool)
    ensures
        r == (action.button_push is Some && user.current_tool == tool),
{
    performing_actions(action) && user.current_tool == tool
}

/// One frame of input: the pointer position in world coordinates (`None`
/// outside the canvas), the buttons held, pressed and released, and the
/// pointer's interaction with each sidebar element.
pub struct FrameInput {
    pub pointer: Option<Point>,
    pub pressed: Vec<PointerButton>,
    pub just_pressed: Vec<PointerButton>,
    pub just_released: Vec<PointerButton>,
    pub ui: Vec<Interaction>,
}

pub struct FrameModel {
    pub pointer: Option<Point>,
    pub pressed: Seq<PointerButton>,
    pub just_pressed: Seq<PointerButton>,
    pub just_released: Seq<PointerButton>,
    pub ui: Seq<Interaction>,
}

impl View for FrameInput {
    type V = FrameModel;

    open spec fn view(&self) -> FrameModel {
        FrameModel {
            pointer: self.pointer,
            pressed: self.pressed@,
            just_pressed: self.just_pressed@,
            just_released: self.just_released@,
            ui: self.ui@,
        }
    }
}

impl FrameModel {
    /// Some button was pressed or released this frame.
    pub open spec fn has_button_edge(self) -> bool {
        self.just_pressed.len() > 0 || self.just_released.len() > 0
    }

    /// `driving`, the button that drives the action, was released this frame.
    pub open spec fn releases(self, driving: Option<PointerButton>) -> bool {
        driving matches Some(b) && self.just_released.contains(b)
    }
}

/// The whole interactive state.
pub struct Session {
    pub app: AppState,
    pub mode: UserState,
    pub actions: Actions,
    pub canvas: Canvas,
    pub user: User,
}

pub struct SessionModel {
    pub app: AppState,
    pub mode: UserState,
    pub actions: Actions,
    pub canvas: CanvasModel,
    pub user: User,
}

impl View for Session {
    type V = SessionModel;

    open spec fn view(&self) -> SessionModel {
        SessionModel {
            app: self.app,
            mode: self.mode,
            actions: self.actions,
            canvas: self.canvas@,
            user: self.user,
        }
    }
}

impl SessionModel {
    /// Outside drawing mode no action is in progress and no preview exists.
    pub open spec fn wf(self) -> bool {
        &&& self.user.wf()
        &&& self.canvas.wf()
        &&& self.mode != UserState::Drawing ==> self.actions == Actions::idle()
            && self.canvas.preview is None
    }

    /// The state after switching to `next`; leaving drawing mode drops the
    /// action and its preview.
    pub open spec fn switched_to(self, next: UserState) -> SessionModel {
        if self.mode == UserState::Drawing && next != UserState::Drawing {
            SessionModel {
                mode: next,
                actions: Actions::idle(),
                canvas: self.canvas.discarded(),
                ..self
            }
        } else {
            SessionModel { mode: next, ..self }
        }
    }

    /// The UI step: on a frame with a button edge, the sidebar decides the mode.
    pub open spec fn after_ui(self, input: FrameModel) -> SessionModel {
        if self.app == AppState::Running && input.has_button_edge() {
            self.switched_to(ui_mode(input.ui))
        } else {
            self
        }
    }

    /// The canvas step: track the pointer, then build the table.
    pub open spec fn after_canvas(self, input: FrameModel) -> SessionModel {
        if self.app == AppState::Running && self.mode == UserState::Drawing {
            let a = maintained(self.actions, input.pointer, input.pressed);
            SessionModel {
                actions: a,
                canvas: if a.button_push is Some && self.user.current_tool == Tool::Table {
                    self.canvas.with_table_from(a, self.user.current_config.cell_dimensions)
                } else {
                    self.canvas
                },
                ..self
            }
        } else {
            self
        }
    }

    /// The action-finished step: when the button `driving` that drove the
    /// action (as it stood before the canvas step) is released while
    /// drawing, drop a degenerate preview, keep any other, and end the action.
    pub open spec fn after_finish(
        self,
        input: FrameModel,
        driving: Option<PointerButton>,
    ) -> SessionModel {
        if self.app == AppState::Running && self.mode == UserState::Drawing && input.releases(
            driving,
        ) {
            SessionModel {
                actions: Actions::idle(),
                canvas: self.canvas.without_degenerate_preview().committed(),
                ..self
            }
        } else {
            self
        }
    }

    /// One whole frame: UI, then canvas, then action-finished.
    pub open spec fn after_frame(self, input: FrameModel) -> SessionModel {
        let u = self.after_ui(input);
        u.after_canvas(input).after_finish(input, u.actions.button_push)
    }
}

impl Session {
    /// A session that is still loading, with no tables.
    pub fn new(cell_dimensions: CellScale) -> (r: Session)
        requires
            cell_dimensions.wf(),
        ensures
            r@.app == AppState::Loading,
            r@.mode == UserState::Inactive,
            r@.actions == Actions::idle(),
            r@.canvas.tables.len() == 0,
            r@.canvas.preview is None,
            r@.user == User::spec_new(cell_dimensions),
            r@.wf(),
    {
        Session {
            app: AppState::Loading,
            mode: UserState::Inactive,
            actions: Actions::new(),
            canvas: Canvas::new(),
            user: User::new(cell_dimensions),
        }
    }

    /// Enters the running state, with the pointer on the canvas.
    pub fn canvas_start(&mut self)
        requires
            old(self)@.wf(),
        ensures
            final(self)@ == (SessionModel {
                app: AppState::Running,
                mode: UserState::Drawing,
                ..old(self)@
            }),
            final(self)@.wf(),
    {
        self.app = AppState::Running;
        self.mode = UserState::Drawing;
    }

    /// Switches the input mode; leaving drawing mode ends the action and
    /// throws its preview table away.
    pub fn switch_to(&mut self, next: UserState)
        requires
            old(self)@.wf(),
        ensures
            final(self)@ == old(self)@.switched_to(next),
            final(self)@.wf(),
    {
        if self.mode == UserState::Drawing && next != UserState::Drawing {
            clear_actions(&mut self.actions, &mut self.canvas);
        }
        self.mode = next;
    }

    /// The UI step of a frame.
    pub fn ui_phase(&mut self, input: &FrameInput)
        requires
            old(self)@.wf(),
        ensures
            final(self)@ == old(self)@.after_ui(input@),
            final(self)@.wf(),
    {
        if self.app == AppState::Running && (input.just_pressed.len() > 0
            || input.just_released.len() > 0) {
            let next = check_if_in_ui(input.ui.as_slice());
            self.switch_to(next);
        }
    }

    /// The canvas step of a frame.
    pub fn canvas_phase(&mut self, input: &FrameInput)
        requires
            old(self)@.wf(),
        ensures
            final(self)@ == old(self)@.after_canvas(input@),
            final(self)@.wf(),
    {
        if self.app == AppState::Running && self.mode == UserState::Drawing {
            maintain_actions(&mut self.actions, input.pointer, input.pressed.as_slice());
            if using_tool(Tool::Table, &self.user, &self.actions) {
                make_table(&mut self.canvas, &self.actions, self.user.current_config.cell_dimensions);
            }
        }
    }

    /// The action-finished step of a frame; `driving` is the button that
    /// drove the action before this frame's canvas step.
    pub fn action_finished_phase(&mut self, input: &FrameInput, driving: Option<PointerButton>)
        requires
            old(self)@.wf(),
        ensures
            final(self)@ == old(self)@.after_finish(input@, driving),
            final(self)@.wf(),
    {
        let released = match driving {
            Some(b) => is_pressed(input.just_released.as_slice(), b),
            None => false,
        };
        if self.app == AppState::Running && self.mode == UserState::Drawing && released {
            cleanup_empty_tables(&mut self.canvas);
            finish_actions(&mut self.actions, &mut self.canvas);
        }
    }

    /// Runs one frame: the UI step, the canvas step, then the
    /// action-finished step.
    pub fn run_frame(&mut self, input: &FrameInput)
        requires
            old(self)@.wf(),
        ensures
            final(self)@ == old(self)@.after_frame(input@),
            final(self)@.wf(),
    {
        self.ui_phase(input);
        let driving = self.actions.button_push;
        self.canvas_phase(input);
        self.action_finished_phase(input, driving);
    }

    /// A press on a sidebar tool button selects its tool.
    pub fn select_tool(&mut self, tool: Tool)
        requires
            old(self)@.wf(),
        ensures
            final(self)@ == (SessionModel {
                user: User { current_tool: tool, ..old(self)@.user },
                ..old(self)@
            }),
            final(self)@.wf(),
    {
        self.user.current_tool = tool;
    }
}

/// A press that lands on the sidebar starts no action and leaves no
/// preview table, wherever the pointer is in the world.
pub proof fn lemma_sidebar_press_starts_nothing(s: SessionModel, input: FrameModel)
    requires
        s.wf(),
        s.app == AppState::Running,
        input.just_pressed.len() > 0,
        pointer_over_ui(input.ui),
    ensures
        s.after_frame(input).mode == UserState::Sidebar,
        s.after_frame(input).actions == Actions::idle(),
        s.after_frame(input).canvas.preview is None,
        s.after_frame(input).canvas.tables == s.canvas.tables,
{
}

/// When the release of the driving button leaves the preview table with
/// no rows or no columns, the frame ends with no preview and no new table.
pub proof fn lemma_degenerate_release_leaves_nothing(s: SessionModel, input: FrameModel)
    requires
        s.wf(),
        s.app == AppState::Running,
        s.mode == UserState::Drawing,
        !pointer_over_ui(input.ui),
        s.actions.button_push matches Some(b) && input.just_released.contains(b),
        s.after_ui(input).after_canvas(input).canvas.preview matches Some(t) && t.is_degenerate(),
    ensures
        s.after_frame(input).actions == Actions::idle(),
        s.after_frame(input).canvas.preview is None,
        s.after_frame(input).canvas.tables == s.canvas.tables,
{
}

} // verus!
