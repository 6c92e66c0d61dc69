//! Intents: the remote operations that reconciliation decides on.

use vstd::prelude::*;
use crate::models::{FileRow, RecordView};

verus! {

/// What an intent says.
pub enum IntentView {
    Upload(RecordView),
    Delete(Seq<char>),
}

/// A decision to upload a record, or to delete the file at a path.
pub enum Intent {
    Upload(FileRow),
    Delete(String),
}

impl View for Intent {
    type V = IntentView;

    open spec fn view(&self) -> IntentView {
        match self {
            Intent::Upload(r) => IntentView::Upload(r@),
            Intent::Delete(p) => IntentView::Delete(p@),
        }
    }
}

/// The views of a sequence of intents.
pub open spec fn intent_views(v: Seq<Intent>) -> Seq<IntentView> {
    v.map_values(|x: Intent| x@)
}

} // verus!
