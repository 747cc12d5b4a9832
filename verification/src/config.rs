//! The tool's configuration: directory paths and display toggles. Loading
//! and saving the JSON file happens outside the library; the settings screen
//! logic — which row holds which value, what a toggle or an edit does — is
//! decided here.

use vstd::prelude::*;
use vstd::string::StringExecFns;

verus! {

/// The persisted settings.
pub struct Config {
    pub btr_pool_dir: String,
    pub snapshots_dir: String,
    pub auto_cleanup: bool,
    pub confirm_actions: bool,
    pub show_timestamps: bool,
    pub theme: String,
}

impl Clone for Config {
    fn clone(&self) -> (c: Self)
        ensures
            c.btr_pool_dir@ == self.btr_pool_dir@,
            c.snapshots_dir@ == self.snapshots_dir@,
            c.auto_cleanup == self.auto_cleanup,
            c.confirm_actions == self.confirm_actions,
            c.show_timestamps == self.show_timestamps,
            c.theme@ == self.theme@,
    {
        Config {
            btr_pool_dir: self.btr_pool_dir.clone(),
            snapshots_dir: self.snapshots_dir.clone(),
            auto_cleanup: self.auto_cleanup,
            confirm_actions: self.confirm_actions,
            show_timestamps: self.show_timestamps,
            theme: self.theme.clone(),
        }
    }
}

impl Default for Config {
    /// The settings used until a saved file overrides them.
    fn default() -> (c: Self)
        ensures
            c.btr_pool_dir@ == "/mnt/btr_pool"@,
            c.snapshots_dir@ == "/mnt/btr_pool/btrbk_snapshots"@,
            c.auto_cleanup == false,
            c.confirm_actions == true,
            c.show_timestamps == true,
            c.theme@ == "default"@,
    {
        Config {
            btr_pool_dir: String::from_str("/mnt/btr_pool"),
            snapshots_dir: String::from_str("/mnt/btr_pool/btrbk_snapshots"),
            auto_cleanup: false,
            confirm_actions: true,
            show_timestamps: true,
            theme: String::from_str("default"),
        }
    }
}

/// Flips the boolean setting a row holds; rows holding text are left alone.
pub fn toggle_setting(c: &mut Config, row: usize)
    ensures
        final(c).auto_cleanup == if row == 2 {
            !old(c).auto_cleanup
        } else {
            old(c).auto_cleanup
        },
        final(c).confirm_actions == if row == 3 {
            !old(c).confirm_actions
        } else {
            old(c).confirm_actions
        },
        final(c).show_timestamps == if row == 4 {
            !old(c).show_timestamps
        } else {
            old(c).show_timestamps
        },
        final(c).btr_pool_dir == old(c).btr_pool_dir,
        final(c).snapshots_dir == old(c).snapshots_dir,
        final(c).theme == old(c).theme,
{
    if row == 2 {
        c.auto_cleanup = !c.auto_cleanup;
    } else if row == 3 {
        c.confirm_actions = !c.confirm_actions;
    } else if row == 4 {
        c.show_timestamps = !c.show_timestamps;
    }
}

/// Stores an edited text value into the directory setting a row holds;
/// rows holding booleans are left alone.
pub fn apply_text_setting(c: &mut Config, row: usize, value: String)
    ensures
        final(c).btr_pool_dir == if row == 0 {
            value
        } else {
            old(c).btr_pool_dir
        },
        final(c).snapshots_dir == if row == 1 {
            value
        } else {
            old(c).snapshots_dir
        },
        final(c).auto_cleanup == old(c).auto_cleanup,
        final(c).confirm_actions == old(c).confirm_actions,
        final(c).show_timestamps == old(c).show_timestamps,
        final(c).theme == old(c).theme,
{
    if row == 0 {
        c.btr_pool_dir = value;
    } else if row == 1 {
        c.snapshots_dir = value;
    }
}

/// What the settings screen shows for a row's value: the directory itself
/// for the text rows, `Yes` or `No` for the toggles, nothing else.
pub open spec fn setting_value_spec(c: Config, row: int) -> Seq<char> {
    if row == 0 {
        c.btr_pool_dir@
    } else if row == 1 {
        c.snapshots_dir@
    } else if row == 2 {
        yes_no(c.auto_cleanup)
    } else if row == 3 {
        yes_no(c.confirm_actions)
    } else if row == 4 {
        yes_no(c.show_timestamps)
    } else {
        Seq::empty()
    }
}

/// `Yes` or `No`.
pub open spec fn yes_no(b: bool) -> Seq<char> {
    if b {
        "Yes"@
    } else {
        "No"@
    }
}

/// Renders a row's value for the settings screen.
pub fn setting_value(c: &Config, row: usize) -> (r: String)
    ensures
        r@ == setting_value_spec(*c, row as int),
{
    if row == 0 {
        c.btr_pool_dir.clone()
    } else if row == 1 {
        c.snapshots_dir.clone()
    } else if row == 2 {
        yes_no_exec(c.auto_cleanup)
    } else if row == 3 {
        yes_no_exec(c.confirm_actions)
    } else if row == 4 {
        yes_no_exec(c.show_timestamps)
    } else {
        String::new()
    }
}

/// Renders a toggle's value.
fn yes_no_exec(b: bool) -> (r: String)
    ensures
        r@ == yes_no(b),
{
    if b {
        String::from_str("Yes")
    } else {
        String::from_str("No")
    }
}

/// What the settings screen shows for a row's label.
pub open spec fn setting_label_spec(row: int) -> Seq<char> {
    if row == 0 {
        "BTR Pool Directory"@
    } else if row == 1 {
        "Snapshots Directory"@
    } else if row == 2 {
        "Auto Cleanup .BROKEN"@
    } else if row == 3 {
        "Confirm Actions"@
    } else if row == 4 {
        "Show Timestamps"@
    } else {
        Seq::empty()
    }
}

/// Renders a row's label for the settings screen.
pub fn setting_label(row: usize) -> (r: String)
    ensures
        r@ == setting_label_spec(row as int),
{
    if row == 0 {
        String::from_str("BTR Pool Directory")
    } else if row == 1 {
        String::from_str("Snapshots Directory")
    } else if row == 2 {
        String::from_str("Auto Cleanup .BROKEN")
    } else if row == 3 {
        String::from_str("Confirm Actions")
    } else if row == 4 {
        String::from_str("Show Timestamps")
    } else {
        String::new()
    }
}

} // verus!
