//! Command-line actions of the maintenance tool, and the layout helpers that the
//! commands share.
use vstd::prelude::*;

pub mod docs_cmd;
pub mod java;
pub mod list;
pub mod pdf;
pub mod util;

verus! {

/// What `dm docs` does.
#[allow(inconsistent_fields)]
pub enum DocsAction {
    List { category: Option<String> },
    Info { doc_id: String },
    Create { doc_id: String, title: String, category: String },
    Mkdir { name: String },
    Import { file: String, id: Option<String>, title: Option<String>, category: String },
    Update {
        doc_id: String,
        title: Option<String>,
        category: Option<String>,
        content: Option<String>,
        file: Option<String>,
    },
    Delete { doc_id: String },
}

/// What `dm maintenance` does.
#[allow(inconsistent_fields)]
pub enum MaintenanceAction {
    List { category: Option<String> },
    Create { title: String, description: String, category: String, operator: String },
    Complete { record_id: String, result: String },
}

/// What `dm check-config` does.
pub enum CheckConfigAction {
    Get { check_id: String, json: bool },
    Save { check_id: String, values: Vec<String> },
    Import { file: String },
    Export { output: Option<String> },
    Template { output: Option<String> },
}

} // verus!
