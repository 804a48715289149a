//! Value types of the plugin registry's API surface.

use vstd::prelude::*;

verus! {

/// The kind of a registered plugin.
#[derive(Clone, Copy, Debug, PartialEq, Eq, Structural)]
pub enum PluginType {
    Generator,
    Analyzer,
}

impl PluginType {
    /// The wire name of the plugin kind.
    pub fn kind_name(&self) -> (r: &'static str)
        ensures
            self is Generator ==> r@ == "generator"@,
            self is Analyzer ==> r@ == "analyzer"@,
    {
        match self {
            PluginType::Generator => "generator",
            PluginType::Analyzer => "analyzer",
        }
    }
}

/// Deployment succeeded; the response carries no data.
#[derive(Clone, Copy, Debug, PartialEq, Eq, Structural)]
pub struct DeployPluginResponse {}

/// Teardown succeeded; the response carries no data.
#[derive(Clone, Copy, Debug, PartialEq, Eq, Structural)]
pub struct TearDownPluginResponse {}

} // verus!
