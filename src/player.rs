use crate::geometry::CellScale;
use vstd::prelude::*;

verus! {

/// The tools a user can draw with.
#[derive(Clone, Copy, Debug, PartialEq, Eq, Structural)]
pub enum Tool {
    Table,
}

/// Per-user drawing settings.
#[derive(Clone, Copy, Debug, PartialEq, Eq, Structural)]
pub struct UserConfig {
    pub cell_dimensions: CellScale,
}

/// The active user: the selected tool and its settings.
#[derive(Clone, Copy, Debug, PartialEq, Eq, Structural)]
pub struct User {
    pub current_tool: Tool,
    pub current_config: UserConfig,
}

impl User {
    pub open spec fn wf(self) -> bool {
        self.current_config.cell_dimensions.wf()
    }

    pub open spec fn spec_new(cell_dimensions: CellScale) -> User {
        User { current_tool: Tool::Table, current_config: UserConfig { cell_dimensions } }
    }

    /// The user a session starts with: the table tool and the given cell size.
    pub fn new(cell_dimensions: CellScale) -> (r: User)
        ensures
            r == User::spec_new(cell_dimensions),
    {
        User { current_tool: Tool::Table, current_config: UserConfig { cell_dimensions } }
    }
}

} // verus!
