use vstd::prelude::*;

use crate::record::{RecordView, StatusRecord};
use crate::render::{frame_text, max_nat, DisplayState};
use crate::snapshot::{as_map, Snapshot};

verus! {

/// The status collector together with its display: the snapshot of workers
/// heard from, the rows drawn so far, and whether the view is redrawn in place.
pub struct WorkerStatuses {
    pub list: Snapshot,
    pub display: DisplayState,
    pub keep_watching: bool,
}

impl WorkerStatuses {
    pub open spec fn well_formed(&self) -> bool {
        self.list.well_formed()
    }

    /// No worker yet, nothing drawn, one-shot display.
    pub fn new() -> (r: WorkerStatuses)
        ensures
            r.well_formed(),
            r.list@ == Seq::<RecordView>::empty(),
            r.display.max_rows == 0,
            !r.keep_watching,
    {
        WorkerStatuses { list: Snapshot::new(), display: DisplayState::new(), keep_watching: false }
    }

    /// Switches to continuous display: each dump moves the cursor back to redraw in place.
    pub fn set_keep_watching(&mut self)
        ensures
            final(self).keep_watching,
            final(self).list == old(self).list,
            final(self).display == old(self).display,
    {
        self.keep_watching = true;
    }

    /// Merges a record, replacing any earlier one of the same worker.
    pub fn insert(&mut self, record: StatusRecord)
        requires
            old(self).well_formed(),
        ensures
            final(self).well_formed(),
            as_map(final(self).list@) == as_map(old(self).list@).insert(record@.worker_id, record@),
            final(self).display == old(self).display,
            final(self).keep_watching == old(self).keep_watching,
    {
        self.list.merge(record);
    }

    /// Empties the snapshot for a new collection window.
    pub fn clear(&mut self)
        ensures
            final(self).well_formed(),
            final(self).list@ == Seq::<RecordView>::empty(),
            final(self).display == old(self).display,
            final(self).keep_watching == old(self).keep_watching,
    {
        self.list.clear();
    }

    /// Renders the current snapshot and returns the text to write to the terminal.
    pub fn dump(&mut self) -> (r: String)
        ensures
            r@ == frame_text(old(self).list@, old(self).display.max_rows as nat, old(self).keep_watching),
            final(self).display.max_rows == max_nat(old(self).display.max_rows as nat, old(self).list@.len()),
            final(self).list == old(self).list,
            final(self).keep_watching == old(self).keep_watching,
    {
        self.display.render(&self.list, self.keep_watching)
    }
}

} // verus!
