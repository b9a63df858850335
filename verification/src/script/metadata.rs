//! Script metadata as `.dm.toml` describes it.
use vstd::prelude::*;

verus! {

pub struct ScriptParam {
    pub name: String,
    pub description: String,
    pub param_type: String,
    pub default: Option<String>,
    pub required: bool,
}

pub struct ScriptMetadata {
    pub name: String,
    pub description: String,
    pub feature: String,
    pub example: String,
    pub version: String,
    pub author: String,
    pub category: String,
    pub params: Vec<ScriptParam>,
}

/// Version assumed when `.dm.toml` gives none.
pub fn default_version() -> (r: String)
    ensures
        r@ == "1.0.0"@,
{
    "1.0.0".to_owned()
}

/// Category assumed when `.dm.toml` gives none.
pub fn default_category() -> (r: String)
    ensures
        r@ == "未分类"@,
{
    "未分类".to_owned()
}

} // verus!
