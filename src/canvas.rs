use crate::actions::{reset_action, Actions};
use crate::geometry::CellScale;
use crate::table::{TableHead, TableModel};
use vstd::prelude::*;

verus! {

/// The state of the canvas: the finished tables, and the one table being
/// drawn, if any, shown as a preview until its action finishes.
pub struct CanvasModel {
    pub tables: Seq<TableModel>,
    pub preview: Option<TableModel>,
}

impl CanvasModel {
    pub open spec fn wf(self) -> bool {
        &&& self.preview matches Some(t) ==> t.wf()
        &&& forall|i: int| 0 <= i < self.tables.len() ==> #[trigger] self.tables[i].wf()
    }

    /// The canvas after one table-building step of `action`: the first step
    /// places an empty preview table at the press point; later steps resize
    /// the preview to the current drag.
    pub open spec fn with_table_from(self, action: Actions, scale: CellScale) -> CanvasModel {
        CanvasModel {
            preview: Some(
                match self.preview {
                    None => TableModel::empty_at(action.from),
                    Some(t) => t.resized(action.to, scale),
                },
            ),
            ..self
        }
    }

    /// The canvas with a preview table that has no rows or no columns removed.
    pub open spec fn without_degenerate_preview(self) -> CanvasModel {
        match self.preview {
            Some(t) => if t.is_degenerate() {
                CanvasModel { preview: None, ..self }
            } else {
                self
            },
            None => self,
        }
    }

    /// The canvas with its preview table, if any, kept as a finished table.
    pub open spec fn committed(self) -> CanvasModel {
        match self.preview {
            Some(t) => CanvasModel { tables: self.tables.push(t), preview: None },
            None => self,
        }
    }

    /// The canvas with its preview table, if any, thrown away.
    pub open spec fn discarded(self) -> CanvasModel {
        CanvasModel { preview: None, ..self }
    }
}

/// The tables on the canvas.
pub struct Canvas {
    pub tables: Vec<TableHead>,
    pub preview: Option<TableHead>,
}

impl View for Canvas {
    type V = CanvasModel;

    open spec fn view(&self) -> CanvasModel {
        CanvasModel {
            tables: self.tables@.map_values(|t: TableHead| t@),
            preview: match self.preview {
                Some(t) => Some(t@),
                None => None,
            },
        }
    }
}

impl Canvas {
    /// An empty canvas.
    pub fn new() -> (r: Canvas)
        ensures
            r@.tables == Seq::<TableModel>::empty(),
            r@.preview is None,
            r@.wf(),
    {
        let r = Canvas { tables: Vec::new(), preview: None };
        assert(r@.tables =~= Seq::<TableModel>::empty());
        r
    }
}

/// One table-building step for an action in progress: places the preview
/// table at the press point on the first step, and resizes it to the drag
/// on every later step.
pub fn make_table(canvas: &mut Canvas, action: &Actions, scale: CellScale)
    requires
        old(canvas)@.wf(),
        scale.wf(),
    ensures
        final(canvas)@ == old(canvas)@.with_table_from(*action, scale),
        final(canvas)@.wf(),
{
    let preview = canvas.preview.take();
    match preview {
        None => {
            canvas.preview = Some(TableHead::with_transform(action.from));
        },
        Some(mut t) => {
            t.resize_to(action.to, scale);
            canvas.preview = Some(t);
        },
    }
}

/// Removes the preview table when it has no rows or no columns.
pub fn cleanup_empty_tables(canvas: &mut Canvas)
    requires
        old(canvas)@.wf(),
    ensures
        final(canvas)@ == old(canvas)@.without_degenerate_preview(),
        final(canvas)@.wf(),
{
    let degenerate = match &canvas.preview {
        Some(t) => t.num_rows == 0 || t.num_columns == 0,
        None => false,
    };
    if degenerate {
        canvas.preview = None;
    }
}

/// Ends the action normally: the preview table becomes a finished table.
pub fn finish_actions(action: &mut Actions, canvas: &mut Canvas)
    requires
        old(canvas)@.wf(),
    ensures
        *final(action) == Actions::idle(),
        final(canvas)@ == old(canvas)@.committed(),
        final(canvas)@.wf(),
{
    reset_action(action);
    let preview = canvas.preview.take();
    match preview {
        Some(t) => {
            canvas.tables.push(t);
            assert(canvas@.tables =~= old(canvas)@.tables.push(t@));
        },
        None => {},
    }
}

/// Ends the action abruptly: the preview table is thrown away whatever its
/// size.
pub fn clear_actions(action: &mut Actions, canvas: &mut Canvas)
    requires
        old(canvas)@.wf(),
    ensures
        *final(action) == Actions::idle(),
        final(canvas)@ == old(canvas)@.discarded(),
        final(canvas)@.wf(),
{
    reset_action(action);
    canvas.preview = None;
}

} // verus!
