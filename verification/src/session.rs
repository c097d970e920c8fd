use vstd::prelude::*;

use crate::errors::EngineError;
use crate::pathops::base_name_of;
use crate::pathops::base_name_spec;

verus! {

/// Tracks which listed entry, if any, is currently selected. The model is
/// scoped to the most recent listing: it is told that listing's length on
/// every rebuild and drops the old selection then, since an index into a
/// stale listing means nothing.
pub struct SelectionModel {
    pub listing_len: usize,
    pub selected: Option<usize>,
}

impl SelectionModel {
    /// The selection, when present, points inside the current listing.
    pub open spec fn wf(&self) -> bool {
        match self.selected {
            Some(i) => i < self.listing_len,
            None => true,
        }
    }

    pub fn new() -> (r: SelectionModel)
        ensures
            r.wf(),
            r.selected is None,
            r.listing_len == 0,
    {
        SelectionModel { listing_len: 0, selected: None }
    }

    /// Record the length of a freshly built listing. The old selection was
    /// scoped to the old listing, so it is dropped.
    pub fn set_listing(&mut self, len: usize)
        ensures
            final(self).wf(),
            final(self).listing_len == len,
            final(self).selected is None,
    {
        self.listing_len = len;
        self.selected = None;
    }

    /// Select the entry at `index` in the current listing. An out-of-range
    /// index is the caller's error — nothing is clamped — and leaves the
    /// selection as it was.
    pub fn select(&mut self, index: usize) -> (r: Result<(), EngineError>)
        requires
            old(self).wf(),
        ensures
            final(self).wf(),
            final(self).listing_len == old(self).listing_len,
            r is Ok <==> index < old(self).listing_len,
            match r {
                Ok(_) => final(self).selected == Some(index),
                Err(e) => e is IndexOutOfRange && final(self).selected == old(self).selected,
            },
    {
        if index < self.listing_len {
            self.selected = Some(index);
            Ok(())
        } else {
            Err(EngineError::IndexOutOfRange)
        }
    }

    pub fn clear(&mut self)
        ensures
            final(self).wf(),
            final(self).listing_len == old(self).listing_len,
            final(self).selected is None,
    {
        self.selected = None;
    }

    pub fn current(&self) -> (r: Option<usize>)
        ensures
            r == self.selected,
    {
        self.selected
    }
}

/// Holds at most one pending copy source. A copy action sets it; a paste
/// consumes it without clearing it; a paste with nothing set is refused by
/// the caller, which finds `None` here.
pub struct ClipboardController {
    pub source: Option<String>,
}

impl ClipboardController {
    pub fn new() -> (r: ClipboardController)
        ensures
            r.source is None,
    {
        ClipboardController { source: None }
    }

    /// Remember the path of the entry to copy, replacing any earlier one.
    pub fn copy(&mut self, path: String)
        ensures
            final(self).source == Some(path),
    {
        self.source = Some(path);
    }

    /// The pending source, if any. Reading it does not clear it.
    pub fn source(&self) -> (r: Option<&String>)
        ensures
            match r {
                Some(p) => self.source == Some(*p),
                None => self.source is None,
            },
    {
        match &self.source {
            Some(p) => Some(p),
            None => None,
        }
    }
}

/// A committed rename edit, ready for conflict resolution: the entry to
/// rename and the requested new name.
pub struct RenameRequest {
    pub old_path: String,
    pub new_name: String,
}

/// The in-place rename edit: idle until a rename is initiated on an entry,
/// editing until the edit is committed, then idle again.
pub struct RenameController {
    pub active: bool,
    pub target_path: String,
    pub edited_text: String,
}

impl RenameController {
    pub fn new() -> (r: RenameController)
        ensures
            !r.active,
            r.edited_text@.len() == 0,
    {
        RenameController { active: false, target_path: String::new(), edited_text: String::new() }
    }

    /// Start editing the entry at `target_path`, seeding the text with the
    /// entry's current name.
    pub fn begin(&mut self, target_path: String)
        requires
            !old(self).active,
        ensures
            final(self).active,
            final(self).target_path == target_path,
            final(self).edited_text@ == base_name_spec(target_path@),
    {
        self.edited_text = base_name_of(target_path.as_str());
        self.target_path = target_path;
        self.active = true;
    }

    /// The edit box writes the text back while editing.
    pub fn set_text(&mut self, text: String)
        requires
            old(self).active,
        ensures
            final(self).active,
            final(self).target_path == old(self).target_path,
            final(self).edited_text == text,
    {
        self.edited_text = text;
    }

    /// Commit the edit: valid only while editing and only with a non-empty
    /// name — a rename must not be attempted with an empty one. Hands back
    /// the request to resolve and perform, and returns to idle with the
    /// text cleared.
    pub fn commit(&mut self) -> (r: RenameRequest)
        requires
            old(self).active,
            old(self).edited_text@.len() > 0,
        ensures
            !final(self).active,
            final(self).edited_text@.len() == 0,
            r.old_path == old(self).target_path,
            r.new_name == old(self).edited_text,
    {
        let r = RenameRequest {
            old_path: self.target_path.clone(),
            new_name: self.edited_text.clone(),
        };
        self.active = false;
        self.edited_text = String::new();
        r
    }
}

} // verus!
