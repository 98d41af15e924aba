//! Tools as the model sees them.
use vstd::prelude::*;
use vstd::string::*;

use crate::json::{Json, JsonView};

verus! {

/// What the model sees: name, description, and a JSON Schema for the arguments.
#[derive(Debug, PartialEq)]
pub struct ToolSchema {
    pub name: String,
    pub description: String,
    pub parameters: Json,
}

pub struct ToolView {
    pub name: Seq<char>,
    pub description: Seq<char>,
    pub parameters: JsonView,
}

impl View for ToolSchema {
    type V = ToolView;

    open spec fn view(&self) -> ToolView {
        ToolView {
            name: self.name@,
            description: self.description@,
            parameters: self.parameters@,
        }
    }
}

impl Clone for ToolSchema {
    fn clone(&self) -> (copy: Self)
        ensures
            copy@ == self@,
    {
        ToolSchema {
            name: self.name.clone(),
            description: self.description.clone(),
            parameters: self.parameters.clone(),
        }
    }
}

/// The views of a list of tools.
pub open spec fn tool_views(tools: Seq<ToolSchema>) -> Seq<ToolView> {
    tools.map_values(|tool: ToolSchema| tool@)
}

} // verus!
