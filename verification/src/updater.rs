//! Update bookkeeping: the persisted update status and the decisions about
//! when to check which component. The surrounding process does the network
//! and file work; the decisions here are pure.

use vstd::prelude::*;

use crate::project::opt_string_view;

verus! {

/// The bundled templates' version.
pub const TEMPLATES_VERSION: u8 = 1;

/// How many seconds must pass between automatic update checks.
pub const UPDATE_CHECK_INTERVAL: u64 = 3600;

/// The persisted update status: when updates were last checked, and the
/// versions of the installed components.
#[derive(Debug, PartialEq)]
pub struct UpdateStatus {
    /// Seconds since the epoch at the last check.
    pub last_checked: u64,
    pub plugin_version: String,
    pub templates_version: u8,
    pub vscode_version: String,
}

pub ghost struct UpdateStatusV {
    pub last_checked: u64,
    pub plugin_version: Seq<char>,
    pub templates_version: u8,
    pub vscode_version: Seq<char>,
}

impl View for UpdateStatus {
    type V = UpdateStatusV;

    open spec fn view(&self) -> UpdateStatusV {
        UpdateStatusV {
            last_checked: self.last_checked,
            plugin_version: self.plugin_version@,
            templates_version: self.templates_version,
            vscode_version: self.vscode_version@,
        }
    }
}

impl Default for UpdateStatus {
    /// The epoch start, no versions known, the bundled templates.
    fn default() -> (r: UpdateStatus)
        ensures
            r@.last_checked == 0,
            r@.plugin_version == Seq::<char>::empty(),
            r@.templates_version == TEMPLATES_VERSION,
            r@.vscode_version == Seq::<char>::empty(),
    {
        let r = UpdateStatus {
            last_checked: 0,
            plugin_version: String::new(),
            templates_version: TEMPLATES_VERSION,
            vscode_version: String::new(),
        };
        proof {
            assert(r@.plugin_version =~= Seq::<char>::empty());
            assert(r@.vscode_version =~= Seq::<char>::empty());
        }
        r
    }
}

/// Repair a possibly missing or corrupted persisted status: a parsed status
/// is kept as is; otherwise a fresh one is built from what could be
/// detected.
pub fn status_or_default(
    parsed: Option<UpdateStatus>,
    plugin_version: String,
    detected_vscode: Option<String>,
) -> (r: UpdateStatus)
    ensures
        match parsed {
            Some(s) => r@ == s@,
            None => r@.last_checked == 0 && r@.plugin_version == plugin_version@
                && r@.templates_version == TEMPLATES_VERSION && r@.vscode_version == (
            match opt_string_view(detected_vscode) {
                Some(v) => v,
                None => "0.0.0"@,
            }),
        },
{
    match parsed {
        Some(s) => s,
        None => {
            let vscode_version = match detected_vscode {
                Some(v) => v,
                None => String::from_str("0.0.0"),
            };
            UpdateStatus {
                last_checked: 0,
                plugin_version,
                templates_version: TEMPLATES_VERSION,
                vscode_version,
            }
        }
    }
}

/// What a periodic check decided to do.
#[derive(Debug, PartialEq, Eq, Structural, Clone, Copy)]
pub struct UpdateCheckPlan {
    /// Whether any checking happens at all.
    pub proceed: bool,
    pub check_plugin: bool,
    pub check_templates: bool,
    pub check_vscode: bool,
    /// The value `last_checked` is advanced to when the check proceeds.
    pub new_last_checked: u64,
}

impl View for UpdateCheckPlan {
    type V = UpdateCheckPlan;

    open spec fn view(&self) -> UpdateCheckPlan {
        *self
    }
}

/// Whether a check is due: the last one lies at least the interval in the
/// past, or in the future (a clock step backwards counts as due).
pub open spec fn spec_check_due(last_checked: u64, now: u64) -> bool {
    now < last_checked || now - last_checked >= UPDATE_CHECK_INTERVAL
}

/// Decide a periodic update check: skipped entirely within an hour of the
/// previous one; otherwise the plugin and templates are checked as asked,
/// and the editor extension always.
pub fn check_for_updates(status: &UpdateStatus, now: u64, plugin: bool, templates: bool) -> (r:
    UpdateCheckPlan)
    ensures
        r.proceed == spec_check_due(status@.last_checked, now),
        r.proceed ==> r.check_plugin == plugin && r.check_templates == templates
            && r.check_vscode && r.new_last_checked == now,
        !r.proceed ==> !r.check_plugin && !r.check_templates && !r.check_vscode
            && r.new_last_checked == status@.last_checked,
{
    let due = if now < status.last_checked {
        true
    } else {
        now - status.last_checked >= UPDATE_CHECK_INTERVAL
    };
    if due {
        UpdateCheckPlan {
            proceed: true,
            check_plugin: plugin,
            check_templates: templates,
            check_vscode: true,
            new_last_checked: now,
        }
    } else {
        UpdateCheckPlan {
            proceed: false,
            check_plugin: false,
            check_templates: false,
            check_vscode: false,
            new_last_checked: status.last_checked,
        }
    }
}

/// Whether the command-line tool itself should look for a new release:
/// always when forced, otherwise only when a check is due.
pub fn should_check_cli(status: &UpdateStatus, now: u64, force: bool) -> (r: bool)
    ensures
        r == (force || spec_check_due(status@.last_checked, now)),
{
    if force {
        true
    } else if now < status.last_checked {
        true
    } else {
        now - status.last_checked >= UPDATE_CHECK_INTERVAL
    }
}

/// Decide a template refresh: installed when the recorded version is older
/// than the bundled one or when forced; the recorded version then follows
/// the bundled one.
pub fn update_templates(status: &mut UpdateStatus, force: bool) -> (r: bool)
    ensures
        r == (old(status)@.templates_version < TEMPLATES_VERSION || force),
        r ==> final(status)@ == (UpdateStatusV {
            templates_version: TEMPLATES_VERSION,
            ..old(status)@
        }),
        !r ==> final(status)@ == old(status)@,
{
    if status.templates_version < TEMPLATES_VERSION || force {
        status.templates_version = TEMPLATES_VERSION;
        true
    } else {
        false
    }
}

} // verus!
