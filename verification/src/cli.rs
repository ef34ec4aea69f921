//! Command-line argument payloads and the decisions they imply; the outer
//! binary parses arguments into these and performs the chosen action.

use vstd::prelude::*;

use crate::project::opt_string_view;

verus! {

/// Arguments of the configuration command: edit the global configuration
/// with the default editor, set one value, or list the settings.
#[derive(Debug)]
pub struct Config {
    /// Setting to change; left empty, the configuration is opened instead.
    pub setting: Option<String>,
    /// Value to set the setting to; left empty, the default value is used.
    pub value: Option<String>,
    /// List all available settings.
    pub list: bool,
}

pub ghost struct ConfigV {
    pub setting: Option<Seq<char>>,
    pub value: Option<Seq<char>>,
    pub list: bool,
}

impl View for Config {
    type V = ConfigV;

    open spec fn view(&self) -> ConfigV {
        ConfigV {
            setting: opt_string_view(self.setting),
            value: opt_string_view(self.value),
            list: self.list,
        }
    }
}

/// What the configuration command decided to do.
#[derive(Debug)]
pub enum ConfigAction {
    /// Print the available settings.
    List,
    /// Set a setting to a value.
    SetValue { setting: String, value: String },
    /// Reset a setting to its default.
    ResetToDefault { setting: String },
    /// Open the configuration file in the editor.
    OpenEditor,
}

pub ghost enum ConfigActionV {
    List,
    SetValue { setting: Seq<char>, value: Seq<char> },
    ResetToDefault { setting: Seq<char> },
    OpenEditor,
}

impl View for ConfigAction {
    type V = ConfigActionV;

    open spec fn view(&self) -> ConfigActionV {
        match self {
            ConfigAction::List => ConfigActionV::List,
            ConfigAction::SetValue { setting, value } => ConfigActionV::SetValue {
                setting: setting@,
                value: value@,
            },
            ConfigAction::ResetToDefault { setting } => ConfigActionV::ResetToDefault {
                setting: setting@,
            },
            ConfigAction::OpenEditor => ConfigActionV::OpenEditor,
        }
    }
}

/// The action the arguments call for: listing wins, then setting or
/// resetting a named setting, then opening the editor.
pub open spec fn spec_config_action(c: ConfigV) -> ConfigActionV {
    if c.list {
        ConfigActionV::List
    } else {
        match (c.setting, c.value) {
            (Some(s), Some(v)) => ConfigActionV::SetValue { setting: s, value: v },
            (Some(s), None) => ConfigActionV::ResetToDefault { setting: s },
            _ => ConfigActionV::OpenEditor,
        }
    }
}

impl Config {
    /// Decide what to do for these arguments.
    pub fn plan(self) -> (r: ConfigAction)
        ensures
            r@ == spec_config_action(self@),
    {
        if self.list {
            return ConfigAction::List;
        }
        match (self.setting, self.value) {
            (Some(setting), Some(value)) => ConfigAction::SetValue { setting, value },
            (Some(setting), None) => ConfigAction::ResetToDefault { setting },
            _ => ConfigAction::OpenEditor,
        }
    }
}

/// Arguments of the editor-integration command: connect to an MCP endpoint
/// over standard input and output.
#[derive(Debug)]
pub struct ConnectMcp {
    /// Whether to run in client mode; currently a server over standard
    /// input and output is always run.
    pub client: bool,
}

impl View for ConnectMcp {
    type V = bool;

    open spec fn view(&self) -> bool {
        self.client
    }
}

} // verus!
