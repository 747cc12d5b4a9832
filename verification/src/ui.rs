//! Key-binding dispatch, list navigation, the status line, the text-edit
//! buffer of the settings screen, and the small layout computations of the
//! fixed screens. Reading keys and drawing happens outside the library; the
//! decisions — what a key does, where the selection may move, what is shown
//! — are made here.

use vstd::prelude::*;
use vstd::string::StringExecFns;

verus! {

/// The key codes the tool reacts to beyond plain characters, as the
/// terminal reports them.
pub const KEY_UP_CODE: i32 = 259;

pub const KEY_DOWN_CODE: i32 = 258;

pub const KEY_LEFT_CODE: i32 = 260;

pub const KEY_RIGHT_CODE: i32 = 261;

pub const KEY_BACKSPACE_CODE: i32 = 263;

pub const KEY_ENTER_LF: i32 = 10;

pub const KEY_ENTER_CR: i32 = 13;

pub const KEY_ESC: i32 = 27;

/// Which screen is showing.
#[derive(Clone, Copy, PartialEq, Eq, Structural, Debug)]
pub enum Screen {
    Main,
    Settings,
}

/// What a key asks for on the main screen.
#[derive(Clone, Copy, PartialEq, Eq, Structural, Debug)]
pub enum MainAction {
    MoveUp,
    MoveDown,
    MoveLeft,
    MoveRight,
    Select,
    OpenSettings,
    Refresh,
    RebootKey,
    PurgeKey,
    CleanKey,
    SnapshotKey,
    NoOp,
}

/// The main screen's key binding.
pub open spec fn main_key_spec(key: i32) -> MainAction {
    if key == KEY_UP_CODE {
        MainAction::MoveUp
    } else if key == KEY_DOWN_CODE {
        MainAction::MoveDown
    } else if key == KEY_LEFT_CODE {
        MainAction::MoveLeft
    } else if key == KEY_RIGHT_CODE {
        MainAction::MoveRight
    } else if key == KEY_ENTER_LF || key == KEY_ENTER_CR {
        MainAction::Select
    } else if key == 115 || key == 83 {
        MainAction::OpenSettings
    } else if key == 114 || key == 82 {
        MainAction::Refresh
    } else if key == 104 || key == 72 {
        MainAction::RebootKey
    } else if key == 112 || key == 80 {
        MainAction::PurgeKey
    } else if key == 98 || key == 66 {
        MainAction::CleanKey
    } else if key == 105 || key == 73 {
        MainAction::SnapshotKey
    } else {
        MainAction::NoOp
    }
}

/// Dispatches a key on the main screen.
pub fn main_key_action(key: i32) -> (r: MainAction)
    ensures
        r == main_key_spec(key),
{
    if key == KEY_UP_CODE {
        MainAction::MoveUp
    } else if key == KEY_DOWN_CODE {
        MainAction::MoveDown
    } else if key == KEY_LEFT_CODE {
        MainAction::MoveLeft
    } else if key == KEY_RIGHT_CODE {
        MainAction::MoveRight
    } else if key == KEY_ENTER_LF || key == KEY_ENTER_CR {
        MainAction::Select
    } else if key == 115 || key == 83 {
        MainAction::OpenSettings
    } else if key == 114 || key == 82 {
        MainAction::Refresh
    } else if key == 104 || key == 72 {
        MainAction::RebootKey
    } else if key == 112 || key == 80 {
        MainAction::PurgeKey
    } else if key == 98 || key == 66 {
        MainAction::CleanKey
    } else if key == 105 || key == 73 {
        MainAction::SnapshotKey
    } else {
        MainAction::NoOp
    }
}

/// What a key asks for on the settings screen.
#[derive(Clone, Copy, PartialEq, Eq, Structural, Debug)]
pub enum SettingsAction {
    MoveUp,
    MoveDown,
    Edit,
    Toggle,
    Save,
    Back,
    NoOp,
}

/// The settings screen's key binding.
pub open spec fn settings_key_spec(key: i32) -> SettingsAction {
    if key == KEY_UP_CODE {
        SettingsAction::MoveUp
    } else if key == KEY_DOWN_CODE {
        SettingsAction::MoveDown
    } else if key == KEY_ENTER_LF || key == KEY_ENTER_CR {
        SettingsAction::Edit
    } else if key == 32 {
        SettingsAction::Toggle
    } else if key == 115 || key == 83 {
        SettingsAction::Save
    } else if key == KEY_ESC {
        SettingsAction::Back
    } else {
        SettingsAction::NoOp
    }
}

/// Dispatches a key on the settings screen.
pub fn settings_key_action(key: i32) -> (r: SettingsAction)
    ensures
        r == settings_key_spec(key),
{
    if key == KEY_UP_CODE {
        SettingsAction::MoveUp
    } else if key == KEY_DOWN_CODE {
        SettingsAction::MoveDown
    } else if key == KEY_ENTER_LF || key == KEY_ENTER_CR {
        SettingsAction::Edit
    } else if key == 32 {
        SettingsAction::Toggle
    } else if key == 115 || key == 83 {
        SettingsAction::Save
    } else if key == KEY_ESC {
        SettingsAction::Back
    } else {
        SettingsAction::NoOp
    }
}

/// Moves the settings selection within its five rows.
pub fn settings_nav(row: usize, action: SettingsAction) -> (r: usize)
    requires
        row <= 4,
    ensures
        r <= 4,
        action == SettingsAction::MoveUp ==> r == if row > 0 {
            (row - 1) as int
        } else {
            0
        },
        action == SettingsAction::MoveDown ==> r == if row < 4 {
            row + 1
        } else {
            4int
        },
        action != SettingsAction::MoveUp && action != SettingsAction::MoveDown ==> r == row,
{
    match action {
        SettingsAction::MoveUp => if row > 0 {
            row - 1
        } else {
            row
        },
        SettingsAction::MoveDown => if row < 4 {
            row + 1
        } else {
            row
        },
        _ => row,
    }
}

/// A position in the snapshot listing: a column (group) and a row within it.
#[derive(Clone, Copy, PartialEq, Eq, Structural, Debug)]
pub struct Selection {
    pub row: usize,
    pub col: usize,
}

/// The column a selection lands in once the listing has `n` columns: a
/// selection past the end is pulled back to the last column.
pub open spec fn clamped_col(sel: Selection, n: int) -> int {
    if sel.col >= n {
        n - 1
    } else {
        sel.col as int
    }
}

/// Where the selection moves on a navigation key, over the per-column entry
/// counts. Up and down stay within the column; left and right change column
/// and pull the row into the new column's range, or to its top when it is
/// empty.
pub open spec fn navigate_spec(sel: Selection, action: MainAction, lens: Seq<usize>) -> Selection {
    let col = clamped_col(sel, lens.len() as int);
    let count = lens[col] as int;
    if action == MainAction::MoveUp {
        Selection { row: if sel.row > 0 { (sel.row - 1) as usize } else { sel.row }, col: col as usize }
    } else if action == MainAction::MoveDown {
        Selection {
            row: if sel.row + 1 < count {
                (sel.row + 1) as usize
            } else {
                sel.row
            },
            col: col as usize,
        }
    } else if action == MainAction::MoveLeft {
        if col > 0 {
            adjusted_to(sel.row, (col - 1) as usize, lens)
        } else {
            Selection { row: sel.row, col: col as usize }
        }
    } else if action == MainAction::MoveRight {
        if col + 1 < lens.len() {
            adjusted_to(sel.row, (col + 1) as usize, lens)
        } else {
            Selection { row: sel.row, col: col as usize }
        }
    } else {
        Selection { row: sel.row, col: col as usize }
    }
}

/// The selection after switching to `col`: the row is kept when the new
/// column is long enough, pulled to its last entry when not, and to the top
/// of an empty column.
pub open spec fn adjusted_to(row: usize, col: usize, lens: Seq<usize>) -> Selection {
    let n = lens[col as int] as int;
    if n == 0 {
        Selection { row: 0, col }
    } else if row >= n {
        Selection { row: (n - 1) as usize, col }
    } else {
        Selection { row, col }
    }
}

/// Applies a navigation key to the selection.
pub fn navigate(sel: Selection, action: MainAction, lens: &Vec<usize>) -> (r: Selection)
    requires
        lens@.len() > 0,
    ensures
        r == navigate_spec(sel, action, lens@),
        r.col < lens@.len(),
{
    let ncols = lens.len();
    let col = if sel.col >= ncols {
        ncols - 1
    } else {
        sel.col
    };
    let count = lens[col];
    match action {
        MainAction::MoveUp => Selection {
            row: if sel.row > 0 {
                sel.row - 1
            } else {
                sel.row
            },
            col,
        },
        MainAction::MoveDown => Selection {
            row: if sel.row < usize::MAX && sel.row + 1 < count {
                sel.row + 1
            } else {
                sel.row
            },
            col,
        },
        MainAction::MoveLeft => if col > 0 {
            adjust_to(sel.row, col - 1, lens)
        } else {
            Selection { row: sel.row, col }
        },
        MainAction::MoveRight => if col + 1 < ncols {
            adjust_to(sel.row, col + 1, lens)
        } else {
            Selection { row: sel.row, col }
        },
        _ => Selection { row: sel.row, col },
    }
}

/// Switches the selection to `col`, pulling the row into range.
fn adjust_to(row: usize, col: usize, lens: &Vec<usize>) -> (r: Selection)
    requires
        (col as int) < lens@.len(),
    ensures
        r == adjusted_to(row, col, lens@),
{
    let n = lens[col];
    if n == 0 {
        Selection { row: 0, col }
    } else if row >= n {
        Selection { row: n - 1, col }
    } else {
        Selection { row, col }
    }
}

/// A transient status message with its remaining display time, plus the
/// persistent reboot reminder once a restore has succeeded.
pub struct StatusLine {
    pub message: String,
    pub timeout: i32,
}

/// What the status area shows on one redraw.
pub enum StatusDisplay {
    /// The persistent reboot reminder.
    RebootWarning,
    /// The transient message.
    Message(String),
    /// Nothing.
    Nothing,
}

impl StatusLine {
    /// An empty status line.
    pub fn new() -> (s: Self)
        ensures
            s.message@ == Seq::<char>::empty(),
            s.timeout == 0,
    {
        StatusLine { message: String::new(), timeout: 0 }
    }

    /// Replaces the message and its remaining display time.
    pub fn set(&mut self, message: String, timeout: i32)
        ensures
            final(self).message == message,
            final(self).timeout == timeout,
    {
        self.message = message;
        self.timeout = timeout;
    }

    /// One redraw of the status area. The reboot reminder wins and keeps the
    /// transient message pending; otherwise a pending message is shown and
    /// its time decremented, and once the time is spent the message is
    /// dropped.
    pub fn tick(&mut self, reboot_needed: bool) -> (d: StatusDisplay)
        ensures
            reboot_needed ==> d == StatusDisplay::RebootWarning && *final(self) == *old(self),
            !reboot_needed && old(self).message@.len() > 0 && old(self).timeout > 0 ==> (match d {
                StatusDisplay::Message(m) => m@ == old(self).message@,
                _ => false,
            }) && final(self).message == old(self).message && final(self).timeout == old(
                self,
            ).timeout - 1,
            !reboot_needed && !(old(self).message@.len() > 0 && old(self).timeout > 0) && old(
                self,
            ).timeout <= 0 ==> d == StatusDisplay::Nothing && final(self).message@
                == Seq::<char>::empty() && final(self).timeout == old(self).timeout,
            !reboot_needed && !(old(self).message@.len() > 0 && old(self).timeout > 0) && old(
                self,
            ).timeout > 0 ==> d == StatusDisplay::Nothing && *final(self) == *old(self),
    {
        if reboot_needed {
            StatusDisplay::RebootWarning
        } else if !self.message.as_str().is_empty() && self.timeout > 0 {
            let m = self.message.clone();
            self.timeout = self.timeout - 1;
            StatusDisplay::Message(m)
        } else if self.timeout <= 0 {
            self.message = String::new();
            StatusDisplay::Nothing
        } else {
            StatusDisplay::Nothing
        }
    }
}

/// What a key does to the text-edit buffer of the settings screen.
#[derive(Clone, Copy, PartialEq, Eq, Structural, Debug)]
pub enum EditEvent {
    /// The edit is confirmed.
    Submit,
    /// The edit is abandoned.
    Cancel,
    /// The buffer was (possibly) changed; keep editing.
    Edited,
}

/// One key of free-text editing over an ASCII buffer: enter submits, escape
/// cancels, backspace deletes the last byte, a printable character is
/// appended, anything else is ignored.
pub fn edit_buffer_step(buf: &mut Vec<u8>, key: i32) -> (e: EditEvent)
    ensures
        key == KEY_ENTER_LF || key == KEY_ENTER_CR ==> e == EditEvent::Submit && final(buf)@ == old(buf)@,
        key == KEY_ESC ==> e == EditEvent::Cancel && final(buf)@ == old(buf)@,
        (key == KEY_BACKSPACE_CODE || key == 127 || key == 8) && old(buf)@.len() > 0 ==> e
            == EditEvent::Edited && final(buf)@ == old(buf)@.drop_last(),
        (key == KEY_BACKSPACE_CODE || key == 127 || key == 8) && old(buf)@.len() == 0 ==> e
            == EditEvent::Edited && final(buf)@ == old(buf)@,
        32 <= key < 127 ==> e == EditEvent::Edited && final(buf)@ == old(buf)@.push(key as u8),
        !(key == KEY_ENTER_LF || key == KEY_ENTER_CR || key == KEY_ESC || key == KEY_BACKSPACE_CODE
            || key == 127 || key == 8 || 32 <= key < 127) ==> e == EditEvent::Edited && final(buf)@
            == old(buf)@,
{
    if key == KEY_ENTER_LF || key == KEY_ENTER_CR {
        EditEvent::Submit
    } else if key == KEY_ESC {
        EditEvent::Cancel
    } else if key == KEY_BACKSPACE_CODE || key == 127 || key == 8 {
        if buf.len() > 0 {
            let _ = buf.pop();
            proof {
                assert(buf@ =~= old(buf)@.drop_last());
            }
        }
        EditEvent::Edited
    } else if 32 <= key && key < 127 {
        buf.push(key as u8);
        EditEvent::Edited
    } else {
        EditEvent::Edited
    }
}

/// ASCII whitespace, as trimming treats it.
pub open spec fn is_ascii_space(b: u8) -> bool {
    b == 32 || b == 9 || b == 10 || b == 13
}

/// The first index of `s` holding something other than whitespace.
pub open spec fn first_nonspace(s: Seq<u8>, from: int) -> int
    decreases s.len() - from,
{
    if from < 0 || from >= s.len() {
        s.len() as int
    } else if is_ascii_space(s[from]) {
        first_nonspace(s, from + 1)
    } else {
        from
    }
}

/// The index after the last non-whitespace byte of `s`.
pub open spec fn last_nonspace_end(s: Seq<u8>) -> int
    decreases s.len(),
{
    if s.len() == 0 {
        0
    } else if is_ascii_space(s.last()) {
        last_nonspace_end(s.drop_last())
    } else {
        s.len() as int
    }
}

/// `s` without leading and trailing ASCII whitespace.
pub open spec fn trimmed(s: Seq<u8>) -> Seq<u8> {
    let a = first_nonspace(s, 0);
    let b = last_nonspace_end(s);
    if a < b {
        s.subrange(a, b)
    } else {
        Seq::empty()
    }
}

/// Trims ASCII whitespace off both ends, as a confirmed edit is stored.
pub fn trim_ascii(v: &Vec<u8>) -> (r: Vec<u8>)
    ensures
        r@ == trimmed(v@),
{
    let len = v.len();
    let mut a: usize = 0;
    while a < len && (v[a] == 32 || v[a] == 9 || v[a] == 10 || v[a] == 13)
        invariant
            a <= len,
            len == v@.len(),
            first_nonspace(v@, 0) == first_nonspace(v@, a as int),
        decreases len - a,
    {
        a = a + 1;
    }
    let mut b: usize = len;
    proof {
        assert(v@.subrange(0, len as int) =~= v@);
    }
    while b > a && (v[b - 1] == 32 || v[b - 1] == 9 || v[b - 1] == 10 || v[b - 1] == 13)
        invariant
            a <= b <= len,
            len == v@.len(),
            a == first_nonspace(v@, 0),
            a < len ==> !is_ascii_space(v@[a as int]),
            last_nonspace_end(v@) == last_nonspace_end(v@.subrange(0, b as int)),
        decreases b,
    {
        proof {
            assert(v@.subrange(0, b as int).drop_last() =~= v@.subrange(0, b - 1));
            assert(v@.subrange(0, b as int).last() == v@[b - 1]);
        }
        b = b - 1;
    }
    let mut out: Vec<u8> = Vec::new();
    let mut i: usize = a;
    while i < b
        invariant
            a <= i <= b <= len,
            len == v@.len(),
            out@ == v@.subrange(a as int, i as int),
        decreases b - i,
    {
        out.push(v[i]);
        proof {
            assert(out@ =~= v@.subrange(a as int, i + 1));
        }
        i = i + 1;
    }
    proof {
        lemma_first_nonspace(v@, 0);
        if b > a {
            assert(v@.subrange(0, b as int).last() == v@[b - 1]);
            assert(!is_ascii_space(v@[b - 1]));
            assert(last_nonspace_end(v@.subrange(0, b as int)) == b);
            assert(out@ =~= trimmed(v@));
        } else {
            lemma_last_nonspace_le(v@.subrange(0, b as int));
            assert(out@ =~= Seq::<u8>::empty());
            assert(trimmed(v@) =~= Seq::<u8>::empty());
        }
    }
    out
}

proof fn lemma_first_nonspace(s: Seq<u8>, from: int)
    requires
        0 <= from <= s.len(),
    ensures
        from <= first_nonspace(s, from) <= s.len(),
        first_nonspace(s, from) < s.len() ==> !is_ascii_space(s[first_nonspace(s, from)]),
    decreases s.len() - from,
{
    if from < s.len() && is_ascii_space(s[from]) {
        lemma_first_nonspace(s, from + 1);
    }
}

proof fn lemma_last_nonspace_le(s: Seq<u8>)
    ensures
        0 <= last_nonspace_end(s) <= s.len(),
    decreases s.len(),
{
    if s.len() > 0 && is_ascii_space(s.last()) {
        lemma_last_nonspace_le(s.drop_last());
    }
}

/// The footer's key bindings, with the reboot key shown once one is pending.
pub fn footer_text(reboot_needed: bool) -> (r: String)
    ensures
        reboot_needed ==> r@ == footer_with_reboot(),
        !reboot_needed ==> r@ == footer_plain(),
{
    if reboot_needed {
        String::from_str(
            "Up/Down: Navigate | Left/Right: Switch | ENTER: Select | S: Settings | R: Refresh | I: Snapshot | P: Purge OLD | B: Clean BROKEN | H: REBOOT | Q: Quit",
        )
    } else {
        String::from_str(
            "Up/Down: Navigate | Left/Right: Switch | ENTER: Select | S: Settings | R: Refresh | I: Snapshot | P: Purge OLD | B: Clean BROKEN | Q: Quit",
        )
    }
}

/// The footer once a reboot is pending.
pub open spec fn footer_with_reboot() -> Seq<char> {
    "Up/Down: Navigate | Left/Right: Switch | ENTER: Select | S: Settings | R: Refresh | I: Snapshot | P: Purge OLD | B: Clean BROKEN | H: REBOOT | Q: Quit"@
}

/// The footer before any restore has succeeded.
pub open spec fn footer_plain() -> Seq<char> {
    "Up/Down: Navigate | Left/Right: Switch | ENTER: Select | S: Settings | R: Refresh | I: Snapshot | P: Purge OLD | B: Clean BROKEN | Q: Quit"@
}

/// What `str::to_uppercase` returns for a string.
pub uninterp spec fn upper_of(s: Seq<char>) -> Seq<char>;

/// Relies on str::to_uppercase: the result depends on the characters alone,
/// and an empty string stays empty.
#[verifier::external_body]
fn uppercase(s: &str) -> (r: String)
    ensures
        r@ == upper_of(s@),
        s@.len() == 0 ==> r@.len() == 0,
{
    s.to_uppercase()
}

/// The header over one listing column: the group's prefix in upper case,
/// with the number of snapshots it holds.
pub fn column_header(prefix: &str, count: usize) -> (r: String)
    ensures
        r@ == upper_of(prefix@) + " ("@ + crate::stamp::dec_str(count as int) + ")"@,
{
    let mut out = uppercase(prefix);
    out.append(" (");
    crate::stamp::push_decimal(&mut out, count);
    out.append(")");
    proof {
        assert(out@ =~= upper_of(prefix@) + " ("@ + crate::stamp::dec_str(count as int) + ")"@);
    }
    out
}

/// Interprets a key inside a yes/no dialog: `y` confirms, `n` and escape
/// decline, anything else keeps waiting.
pub fn confirm_key(key: i32) -> (r: Option<bool>)
    ensures
        key == 121 || key == 89 ==> r == Some(true),
        key == 110 || key == 78 || key == KEY_ESC ==> r == Some(false),
        !(key == 121 || key == 89 || key == 110 || key == 78 || key == KEY_ESC) ==> r is None,
{
    if key == 121 || key == 89 {
        Some(true)
    } else if key == 110 || key == 78 || key == KEY_ESC {
        Some(false)
    } else {
        None
    }
}

/// The width of one listing column: the usable width split evenly.
pub fn column_width(width: i32, num_cols: usize) -> (w: i32)
    requires
        4 <= width <= 100000,
        1 <= num_cols <= 100000,
    ensures
        w == (width - 4) as int / (num_cols as int),
        w >= 0,
{
    (width - 4) / (num_cols as i32)
}

/// The length a line is cut to so it fits a width.
pub fn truncated_len(len: usize, max: usize) -> (r: usize)
    ensures
        r == if len <= max {
            len as int
        } else {
            max as int
        },
{
    if len <= max {
        len
    } else {
        max
    }
}

} // verus!
