//! What a key asks of the world around the editor.

use crate::autocomplete::AutocompleteKind;
use crate::state::PropertyScope;
use vstd::prelude::*;

verus! {

/// What has to be done outside after a key was handled.
#[derive(Debug)]
pub enum Effect {
    /// Nothing.
    Nothing,
    /// Leave the editor.
    Quit,
    /// Look up candidates for the completion popup.
    Candidates { kind: AutocompleteKind, query: String },
    /// Write the pending edit, then list the properties.
    OpenProperties { scope: PropertyScope },
    /// Open the highlighted row of the quick switcher.
    AcceptQuickSwitch,
    /// Look up the rows of the quick switcher again.
    RefreshQuickSwitch,
    /// Open the highlighted hit of the search.
    AcceptSearch,
    /// Search again.
    RefreshSearch,
    /// Run a command line.
    RunCommand { line: String },
    /// Run the highlighted row of the command palette.
    AcceptSlash,
    /// Look up the rows of the command palette again.
    RefreshSlash,
    /// Use the highlighted template.
    AcceptTemplate,
    /// Look up the rows of the template picker again.
    RefreshTemplates,
    /// Open the page of a reminder.
    OpenReminder { slug: String },
    /// Put the reminder of a block off, by the preset of this number.
    SnoozeReminder { block_id: u128, preset: usize },
    /// Look up a plugin's settings again.
    DescribeSettings { entry: usize, plugin_id: String },
    /// Write a plugin's setting, then look them up again.
    WriteSetting { entry: usize, plugin_id: String, key: String, secret: bool, value: String },
}

/// An effect as a value.
pub ghost enum EffectValue {
    Nothing,
    Quit,
    Candidates { kind: AutocompleteKind, query: Seq<char> },
    OpenProperties { scope: PropertyScope },
    AcceptQuickSwitch,
    RefreshQuickSwitch,
    AcceptSearch,
    RefreshSearch,
    RunCommand { line: Seq<char> },
    AcceptSlash,
    RefreshSlash,
    AcceptTemplate,
    RefreshTemplates,
    OpenReminder { slug: Seq<char> },
    SnoozeReminder { block_id: u128, preset: int },
    DescribeSettings { entry: int, plugin_id: Seq<char> },
    WriteSetting {
        entry: int,
        plugin_id: Seq<char>,
        key: Seq<char>,
        secret: bool,
        value: Seq<char>,
    },
}

impl View for Effect {
    type V = EffectValue;

    open spec fn view(&self) -> EffectValue {
        match self {
            Effect::Nothing => EffectValue::Nothing,
            Effect::Quit => EffectValue::Quit,
            Effect::Candidates { kind, query } => EffectValue::Candidates {
                kind: *kind,
                query: query@,
            },
            Effect::OpenProperties { scope } => EffectValue::OpenProperties { scope: *scope },
            Effect::AcceptQuickSwitch => EffectValue::AcceptQuickSwitch,
            Effect::RefreshQuickSwitch => EffectValue::RefreshQuickSwitch,
            Effect::AcceptSearch => EffectValue::AcceptSearch,
            Effect::RefreshSearch => EffectValue::RefreshSearch,
            Effect::RunCommand { line } => EffectValue::RunCommand { line: line@ },
            Effect::AcceptSlash => EffectValue::AcceptSlash,
            Effect::RefreshSlash => EffectValue::RefreshSlash,
            Effect::AcceptTemplate => EffectValue::AcceptTemplate,
            Effect::RefreshTemplates => EffectValue::RefreshTemplates,
            Effect::OpenReminder { slug } => EffectValue::OpenReminder { slug: slug@ },
            Effect::SnoozeReminder { block_id, preset } => EffectValue::SnoozeReminder {
                block_id: *block_id,
                preset: *preset as int,
            },
            Effect::DescribeSettings { entry, plugin_id } => EffectValue::DescribeSettings {
                entry: *entry as int,
                plugin_id: plugin_id@,
            },
            Effect::WriteSetting { entry, plugin_id, key, secret, value } => {
                EffectValue::WriteSetting {
                    entry: *entry as int,
                    plugin_id: plugin_id@,
                    key: key@,
                    secret: *secret,
                    value: value@,
                }
            },
        }
    }
}

} // verus!
