//! The restore procedure: rename the live subvolume aside, snapshot the
//! chosen backup into its place, verify the result, and roll back on failure.
//!
//! The procedure is a state machine. Each phase names one external command
//! (`mv`, `btrfs subvolume snapshot`, a verification pass, `btrfs subvolume
//! delete`); the runner outside the library executes it and reports success
//! or failure, and `advance` moves to the next phase. The effect of each
//! command on the two paths involved is modelled by `apply_step`, and the
//! lemmas at the end prove the rollback guarantees over that model.

use vstd::prelude::*;
use vstd::string::StrSliceExecFns;
use vstd::string::StringExecFns;

use crate::scan::root_prefix;
use crate::stamp::Stamp;
use crate::stamp::compact_form;
use crate::stamp::compact_stamp;
use crate::stamp::stamp_renderable;
use crate::strkit::joined_path;
use crate::strkit::path_join;
use crate::strkit::str_eq_exec;

verus! {

/// The logical subvolume name for a snapshot type: `@` for the root type
/// (named `root` or left empty), `@<type>` otherwise.
pub open spec fn subvol_name_spec(t: Seq<char>) -> Seq<char> {
    if t.len() == 0 || t == "root"@ {
        root_prefix()
    } else {
        root_prefix() + t
    }
}

/// Builds the subvolume name for a snapshot type.
pub fn subvol_name_of_type(t: &str) -> (r: String)
    ensures
        r@ == subvol_name_spec(t@),
{
    proof {
        reveal_strlit("@");
        assert("@"@ =~= root_prefix());
    }
    if t.unicode_len() == 0 || str_eq_exec(t, "root") {
        String::from_str("@")
    } else {
        let r = crate::strkit::str_concat("@", t);
        proof {
            assert(r@ =~= subvol_name_spec(t@));
        }
        r
    }
}

/// The snapshot type a listing prefix selects: `root` for the bare `@`,
/// the prefix without its leading `@` otherwise, and the prefix itself
/// when it does not carry one.
pub open spec fn type_of_prefix_spec(p: Seq<char>) -> Seq<char> {
    if p == root_prefix() {
        "root"@
    } else if p.len() > 0 && p[0] == '@' {
        p.skip(1)
    } else {
        p
    }
}

/// Derives the snapshot type from a listing prefix.
pub fn type_of_prefix(p: &str) -> (r: String)
    ensures
        r@ == type_of_prefix_spec(p@),
{
    proof {
        reveal_strlit("@");
        assert("@"@ =~= root_prefix());
    }
    if str_eq_exec(p, "@") {
        String::from_str("root")
    } else {
        let len = p.unicode_len();
        if len > 0 && p.get_char(0) == '@' {
            let s = p.substring_char(1, len);
            proof {
                assert(p@.subrange(1, p@.len() as int) =~= p@.skip(1));
            }
            String::from_str(s)
        } else {
            String::from_str(p)
        }
    }
}

/// The name a restore moves the live subvolume aside under:
/// `<subvolume>.BROKEN.<compact timestamp>`, unique per attempt.
pub open spec fn broken_name_spec(subvol: Seq<char>, t: Stamp) -> Seq<char> {
    subvol + ".BROKEN."@ + compact_form(t)
}

/// Builds the moved-aside name for a subvolume at a timestamp.
pub fn broken_entry_name(subvol: &str, t: &Stamp) -> (r: String)
    requires
        stamp_renderable(*t),
    ensures
        r@ == broken_name_spec(subvol@, *t),
{
    let stamp = compact_stamp(t);
    let mut out = String::from_str(subvol);
    out.append(".BROKEN.");
    out.append(stamp.as_str());
    proof {
        assert(out@ =~= broken_name_spec(subvol@, *t));
    }
    out
}

/// Pins a wall-clock reading into the renderable range: a year outside four
/// digits is clamped, everything else is kept as read.
pub fn clamp_stamp(t: Stamp) -> (r: Stamp)
    requires
        crate::stamp::stamp_field_ranges(t),
    ensures
        stamp_renderable(r),
        stamp_renderable(t) ==> r == t,
{
    let year: i32 = if t.year < 0 {
        0
    } else if t.year > 9999 {
        9999
    } else {
        t.year
    };
    Stamp { year, month: t.month, day: t.day, hour: t.hour, minute: t.minute, second: t.second }
}

/// How one restore attempt ended.
#[derive(Clone, Copy, PartialEq, Eq, Structural, Debug)]
pub enum RestoreOutcome {
    /// The snapshot is in place and verified.
    Succeeded,
    /// The very first step, moving the live subvolume aside, failed:
    /// nothing was changed.
    FailedUntouched,
    /// A later step failed and the original subvolume is back at the live
    /// path.
    RolledBack,
    /// Rolling back itself failed: the original is still at the moved-aside
    /// path and needs manual recovery.
    Stranded,
}

/// The phase of a restore attempt; each non-terminal phase names the external
/// command to run next.
#[derive(Clone, Copy, PartialEq, Eq, Structural, Debug)]
pub enum RestorePhase {
    /// `mv` the live subvolume to the moved-aside path.
    MoveAside,
    /// `btrfs subvolume snapshot` the source into the live path.
    TakeSnapshot,
    /// Verify the restored subvolume.
    Verify,
    /// Verification failed: `btrfs subvolume delete` the bad live subvolume.
    DropBad,
    /// `mv` the moved-aside subvolume back to the live path.
    RollBack,
    /// Verified, with automatic cleanup on: `btrfs subvolume delete` the
    /// moved-aside subvolume.
    Cleanup,
    /// The attempt is over.
    Done(RestoreOutcome),
}

/// The next phase after the current phase's command reports `ok`.
///
/// A failed move-aside aborts with nothing changed. A failed snapshot rolls
/// back. A failed verification drops the bad subvolume (its deletion result
/// is not consulted, as the roll-back move is attempted regardless) and rolls
/// back. A failed cleanup still counts as success: the restore itself held,
/// only the safety copy stays behind.
pub open spec fn step_phase(p: RestorePhase, auto_cleanup: bool, ok: bool) -> RestorePhase {
    match p {
        RestorePhase::MoveAside => if ok {
            RestorePhase::TakeSnapshot
        } else {
            RestorePhase::Done(RestoreOutcome::FailedUntouched)
        },
        RestorePhase::TakeSnapshot => if ok {
            RestorePhase::Verify
        } else {
            RestorePhase::RollBack
        },
        RestorePhase::Verify => if ok {
            if auto_cleanup {
                RestorePhase::Cleanup
            } else {
                RestorePhase::Done(RestoreOutcome::Succeeded)
            }
        } else {
            RestorePhase::DropBad
        },
        RestorePhase::DropBad => RestorePhase::RollBack,
        RestorePhase::RollBack => if ok {
            RestorePhase::Done(RestoreOutcome::RolledBack)
        } else {
            RestorePhase::Done(RestoreOutcome::Stranded)
        },
        RestorePhase::Cleanup => RestorePhase::Done(RestoreOutcome::Succeeded),
        RestorePhase::Done(o) => RestorePhase::Done(o),
    }
}

/// What a path can hold in the model: the subvolume that was live before the
/// attempt, or the snapshot the attempt creates.
pub enum SlotContent {
    Original,
    Restored,
}

/// The two paths the procedure touches: the live path and the moved-aside
/// path. The source snapshot is only ever read.
pub struct FsModel {
    pub live: Option<SlotContent>,
    pub backup: Option<SlotContent>,
}

/// Before the attempt: the original subvolume is live, nothing is aside.
pub open spec fn initial_fs() -> FsModel {
    FsModel { live: Some(SlotContent::Original), backup: None }
}

/// The effect of the current phase's command on the model, given the success
/// report. A failed command changes nothing: a rename either happens whole or
/// not at all, and a failed snapshot creation leaves no destination behind.
/// A rename reported successful is modelled as placing its source at its
/// target path; the runner reports success only when the target was free.
pub open spec fn apply_step(p: RestorePhase, fs: FsModel, ok: bool) -> FsModel {
    if !ok {
        fs
    } else {
        match p {
            RestorePhase::MoveAside => FsModel { live: None, backup: fs.live },
            RestorePhase::TakeSnapshot => FsModel {
                live: Some(SlotContent::Restored),
                backup: fs.backup,
            },
            RestorePhase::Verify => fs,
            RestorePhase::DropBad => FsModel { live: None, backup: fs.backup },
            RestorePhase::RollBack => FsModel { live: fs.backup, backup: None },
            RestorePhase::Cleanup => FsModel { live: fs.live, backup: None },
            RestorePhase::Done(_) => fs,
        }
    }
}

/// Runs the machine over a sequence of success reports, one per executed
/// command, stopping at a terminal phase.
pub open spec fn run_steps(p: RestorePhase, fs: FsModel, auto_cleanup: bool, oks: Seq<bool>) -> (
    RestorePhase,
    FsModel,
)
    decreases oks.len(),
{
    if oks.len() == 0 || p is Done {
        (p, fs)
    } else {
        run_steps(
            step_phase(p, auto_cleanup, oks[0]),
            apply_step(p, fs, oks[0]),
            auto_cleanup,
            oks.drop_first(),
        )
    }
}

/// What holds of the filesystem in each phase, starting from `initial_fs`.
pub open spec fn phase_fs_inv(p: RestorePhase, fs: FsModel) -> bool {
    match p {
        RestorePhase::MoveAside => fs == initial_fs(),
        RestorePhase::TakeSnapshot => fs.live is None && fs.backup == Some(SlotContent::Original),
        RestorePhase::Verify => fs.live == Some(SlotContent::Restored) && fs.backup == Some(
            SlotContent::Original,
        ),
        RestorePhase::DropBad => fs.live == Some(SlotContent::Restored) && fs.backup == Some(
            SlotContent::Original,
        ),
        RestorePhase::RollBack => (fs.live is None || fs.live == Some(SlotContent::Restored))
            && fs.backup == Some(SlotContent::Original),
        RestorePhase::Cleanup => fs.live == Some(SlotContent::Restored) && fs.backup == Some(
            SlotContent::Original,
        ),
        RestorePhase::Done(o) => match o {
            RestoreOutcome::Succeeded => fs.live == Some(SlotContent::Restored),
            RestoreOutcome::FailedUntouched => fs == initial_fs(),
            RestoreOutcome::RolledBack => fs.live == Some(SlotContent::Original)
                && fs.backup is None,
            RestoreOutcome::Stranded => fs.backup == Some(SlotContent::Original),
        },
    }
}

/// One command preserves the per-phase filesystem facts.
pub proof fn lemma_step_preserves_inv(p: RestorePhase, fs: FsModel, auto_cleanup: bool, ok: bool)
    requires
        phase_fs_inv(p, fs),
    ensures
        phase_fs_inv(step_phase(p, auto_cleanup, ok), apply_step(p, fs, ok)),
{
}

/// Whatever the success reports were, the per-phase facts hold where a run
/// from the start ends up.
pub proof fn lemma_run_preserves_inv(
    p: RestorePhase,
    fs: FsModel,
    auto_cleanup: bool,
    oks: Seq<bool>,
)
    requires
        phase_fs_inv(p, fs),
    ensures
        phase_fs_inv(
            run_steps(p, fs, auto_cleanup, oks).0,
            run_steps(p, fs, auto_cleanup, oks).1,
        ),
    decreases oks.len(),
{
    if oks.len() > 0 && !(p is Done) {
        lemma_step_preserves_inv(p, fs, auto_cleanup, oks[0]);
        lemma_run_preserves_inv(
            step_phase(p, auto_cleanup, oks[0]),
            apply_step(p, fs, oks[0]),
            auto_cleanup,
            oks.drop_first(),
        );
    }
}

/// However a run from the start ends, short of verified success the original
/// subvolume still exists, at the live path or at the moved-aside path.
pub proof fn lemma_original_never_lost(auto_cleanup: bool, oks: Seq<bool>)
    ensures
        ({
            let (p, fs) = run_steps(RestorePhase::MoveAside, initial_fs(), auto_cleanup, oks);
            p != RestorePhase::Done(RestoreOutcome::Succeeded) ==> fs.live == Some(
                SlotContent::Original,
            ) || fs.backup == Some(SlotContent::Original)
        }),
{
    lemma_run_preserves_inv(RestorePhase::MoveAside, initial_fs(), auto_cleanup, oks);
}

/// A snapshot-creation failure after a successful move-aside is rolled back:
/// the run ends with the live path holding the original content again and
/// nothing left at the moved-aside path.
pub proof fn lemma_snapshot_failure_rolls_back(auto_cleanup: bool)
    ensures
        ({
            let (p, fs) = run_steps(
                RestorePhase::MoveAside,
                initial_fs(),
                auto_cleanup,
                seq![true, false, true],
            );
            p == RestorePhase::Done(RestoreOutcome::RolledBack) && fs.live == Some(
                SlotContent::Original,
            ) && fs.backup is None
        }),
{
    reveal_with_fuel(run_steps, 5);
    let oks = seq![true, false, true];
    assert(oks.drop_first() =~= seq![false, true]);
    assert(seq![false, true].drop_first() =~= seq![true]);
    assert(seq![true].drop_first() =~= Seq::<bool>::empty());
}

/// A verification failure after a successful snapshot is fully rolled back:
/// the newly created subvolume is gone, the live path holds the original
/// content again, and nothing is left at the moved-aside path.
pub proof fn lemma_verify_failure_rolls_back(auto_cleanup: bool)
    ensures
        ({
            let (p, fs) = run_steps(
                RestorePhase::MoveAside,
                initial_fs(),
                auto_cleanup,
                seq![true, true, false, true, true],
            );
            p == RestorePhase::Done(RestoreOutcome::RolledBack) && fs.live == Some(
                SlotContent::Original,
            ) && fs.backup is None && fs.live != Some(SlotContent::Restored)
        }),
{
    reveal_with_fuel(run_steps, 7);
    let oks = seq![true, true, false, true, true];
    assert(oks.drop_first() =~= seq![true, false, true, true]);
    assert(seq![true, false, true, true].drop_first() =~= seq![false, true, true]);
    assert(seq![false, true, true].drop_first() =~= seq![true, true]);
    assert(seq![true, true].drop_first() =~= seq![true]);
    assert(seq![true].drop_first() =~= Seq::<bool>::empty());
}

/// One path the verification of a root-like subvolume requires.
pub struct RequiredPath {
    pub rel: String,
    pub must_be_file: bool,
}

/// The content check a snapshot type's verification applies, beyond the
/// subvolume existing and being accepted by the filesystem.
pub enum ContentCheck {
    /// A fixed set of paths must exist under the subvolume.
    RequiredPaths(Vec<RequiredPath>),
    /// The subvolume must be listable and hold at least one entry.
    NonEmpty,
    /// The subvolume must merely be listable.
    Listable,
}

/// The relative paths and kinds a `RequiredPaths` check carries.
pub open spec fn required_view(v: Seq<RequiredPath>) -> Seq<(Seq<char>, bool)> {
    v.map_values(|p: RequiredPath| (p.rel@, p.must_be_file))
}

/// What a root subvolume must hold: the essential directories, and the two
/// files without which the system cannot boot sensibly.
pub open spec fn root_required_spec() -> Seq<(Seq<char>, bool)> {
    seq![
        ("etc"@, false),
        ("usr"@, false),
        ("var"@, false),
        ("bin"@, false),
        ("etc/fstab"@, true),
        ("etc/passwd"@, true),
    ]
}

/// The content check for a snapshot type: required paths for `root`,
/// non-emptiness for `home`, listability for `games`, and no check — meaning
/// verification fails — for anything else.
pub fn content_check_for_type(t: &str) -> (r: Option<ContentCheck>)
    ensures
        t@ == "root"@ ==> (r matches Some(ContentCheck::RequiredPaths(v)) && required_view(v@)
            == root_required_spec()),
        t@ == "home"@ ==> r == Some(ContentCheck::NonEmpty),
        t@ == "games"@ ==> r == Some(ContentCheck::Listable),
        t@ != "root"@ && t@ != "home"@ && t@ != "games"@ ==> r is None,
{
    proof {
        reveal_strlit("root");
        reveal_strlit("home");
        reveal_strlit("games");
        assert("root"@[0] == 'r' && "home"@[0] == 'h' && "games"@[0] == 'g');
        assert("root"@ != "home"@);
        assert("root"@ != "games"@);
        assert("home"@ != "games"@);
    }
    if str_eq_exec(t, "root") {
        let mut v: Vec<RequiredPath> = Vec::new();
        v.push(RequiredPath { rel: String::from_str("etc"), must_be_file: false });
        v.push(RequiredPath { rel: String::from_str("usr"), must_be_file: false });
        v.push(RequiredPath { rel: String::from_str("var"), must_be_file: false });
        v.push(RequiredPath { rel: String::from_str("bin"), must_be_file: false });
        v.push(RequiredPath { rel: String::from_str("etc/fstab"), must_be_file: true });
        v.push(RequiredPath { rel: String::from_str("etc/passwd"), must_be_file: true });
        proof {
            assert(required_view(v@) =~~= root_required_spec());
        }
        Some(ContentCheck::RequiredPaths(v))
    } else if str_eq_exec(t, "home") {
        Some(ContentCheck::NonEmpty)
    } else if str_eq_exec(t, "games") {
        Some(ContentCheck::Listable)
    } else {
        None
    }
}

/// Whether every probe of a `RequiredPaths` check passed.
pub fn all_passed(results: &Vec<bool>) -> (r: bool)
    ensures
        r == (forall|k: int| 0 <= k < results@.len() ==> results@[k]),
{
    let mut i: usize = 0;
    while i < results.len()
        invariant
            i <= results@.len(),
            forall|k: int| 0 <= k < i ==> results@[k],
        decreases results@.len() - i,
    {
        if !results[i] {
            return false;
        }
        i = i + 1;
    }
    true
}

/// The verification verdict over a restored subvolume: it must exist, be
/// accepted by the filesystem as a subvolume, and pass its type's content
/// check.
pub fn restore_verified(exists: bool, is_subvol: bool, content_ok: bool) -> (r: bool)
    ensures
        r == (exists && is_subvol && content_ok),
{
    exists && is_subvol && content_ok
}

/// One external command for the runner to execute.
pub enum RestoreCommand {
    /// `mv <from> <to>`.
    MovePath { from: String, to: String },
    /// `btrfs subvolume snapshot <src> <dst>`.
    SnapshotSubvol { src: String, dst: String },
    /// The verification pass over the restored subvolume.
    CheckSubvol { path: String, subvol_type: String },
    /// `btrfs subvolume delete <path>`.
    DeleteSubvol { path: String },
}

/// One restore attempt: the paths involved and the current phase.
pub struct RestoreMachine {
    pub phase: RestorePhase,
    pub auto_cleanup: bool,
    pub subvol_type: String,
    pub live_path: String,
    pub backup_path: String,
    pub source_path: String,
    pub stamp: Stamp,
}

/// The command the runner must execute in the machine's current phase.
pub open spec fn command_of(m: RestoreMachine) -> Option<RestoreCommand> {
    match m.phase {
        RestorePhase::MoveAside => Some(
            RestoreCommand::MovePath { from: m.live_path, to: m.backup_path },
        ),
        RestorePhase::TakeSnapshot => Some(
            RestoreCommand::SnapshotSubvol { src: m.source_path, dst: m.live_path },
        ),
        RestorePhase::Verify => Some(
            RestoreCommand::CheckSubvol { path: m.live_path, subvol_type: m.subvol_type },
        ),
        RestorePhase::DropBad => Some(RestoreCommand::DeleteSubvol { path: m.live_path }),
        RestorePhase::RollBack => Some(
            RestoreCommand::MovePath { from: m.backup_path, to: m.live_path },
        ),
        RestorePhase::Cleanup => Some(RestoreCommand::DeleteSubvol { path: m.backup_path }),
        RestorePhase::Done(_) => None,
    }
}

impl RestoreMachine {
    /// Starts a restore of `snapshot` over the subvolume that `snapshot_type`
    /// names. The moved-aside path carries the current wall-clock time so
    /// that repeated failed attempts do not collide.
    pub fn new(
        pool_dir: &str,
        snapshots_dir: &str,
        snapshot: &str,
        snapshot_type: &str,
        auto_cleanup: bool,
    ) -> (m: RestoreMachine)
        ensures
            m.phase == RestorePhase::MoveAside,
            m.auto_cleanup == auto_cleanup,
            m.subvol_type@ == snapshot_type@,
            m.live_path@ == joined_path(pool_dir@, subvol_name_spec(snapshot_type@)),
            m.backup_path@ == joined_path(
                pool_dir@,
                broken_name_spec(subvol_name_spec(snapshot_type@), m.stamp),
            ),
            m.source_path@ == joined_path(snapshots_dir@, snapshot@),
            stamp_renderable(m.stamp),
    {
        let stamp = clamp_stamp(crate::stamp::stamp_now());
        let subvol = subvol_name_of_type(snapshot_type);
        let live_path = path_join(pool_dir, subvol.as_str());
        let broken = broken_entry_name(subvol.as_str(), &stamp);
        let backup_path = path_join(pool_dir, broken.as_str());
        let source_path = path_join(snapshots_dir, snapshot);
        RestoreMachine {
            phase: RestorePhase::MoveAside,
            auto_cleanup,
            subvol_type: String::from_str(snapshot_type),
            live_path,
            backup_path,
            source_path,
            stamp,
        }
    }

    /// The command to run next; nothing once the attempt is over.
    pub fn current_command(&self) -> (c: Option<RestoreCommand>)
        ensures
            c == command_of(*self),
    {
        match self.phase {
            RestorePhase::MoveAside => Some(
                RestoreCommand::MovePath {
                    from: self.live_path.clone(),
                    to: self.backup_path.clone(),
                },
            ),
            RestorePhase::TakeSnapshot => Some(
                RestoreCommand::SnapshotSubvol {
                    src: self.source_path.clone(),
                    dst: self.live_path.clone(),
                },
            ),
            RestorePhase::Verify => Some(
                RestoreCommand::CheckSubvol {
                    path: self.live_path.clone(),
                    subvol_type: self.subvol_type.clone(),
                },
            ),
            RestorePhase::DropBad => Some(
                RestoreCommand::DeleteSubvol { path: self.live_path.clone() },
            ),
            RestorePhase::RollBack => Some(
                RestoreCommand::MovePath {
                    from: self.backup_path.clone(),
                    to: self.live_path.clone(),
                },
            ),
            RestorePhase::Cleanup => Some(
                RestoreCommand::DeleteSubvol { path: self.backup_path.clone() },
            ),
            RestorePhase::Done(_) => None,
        }
    }

    /// Moves to the next phase after the current command reported `ok`.
    pub fn advance(&mut self, ok: bool)
        ensures
            final(self).phase == step_phase(old(self).phase, old(self).auto_cleanup, ok),
            final(self).auto_cleanup == old(self).auto_cleanup,
            final(self).subvol_type == old(self).subvol_type,
            final(self).live_path == old(self).live_path,
            final(self).backup_path == old(self).backup_path,
            final(self).source_path == old(self).source_path,
            final(self).stamp == old(self).stamp,
    {
        let next = match self.phase {
            RestorePhase::MoveAside => if ok {
                RestorePhase::TakeSnapshot
            } else {
                RestorePhase::Done(RestoreOutcome::FailedUntouched)
            },
            RestorePhase::TakeSnapshot => if ok {
                RestorePhase::Verify
            } else {
                RestorePhase::RollBack
            },
            RestorePhase::Verify => if ok {
                if self.auto_cleanup {
                    RestorePhase::Cleanup
                } else {
                    RestorePhase::Done(RestoreOutcome::Succeeded)
                }
            } else {
                RestorePhase::DropBad
            },
            RestorePhase::DropBad => RestorePhase::RollBack,
            RestorePhase::RollBack => if ok {
                RestorePhase::Done(RestoreOutcome::RolledBack)
            } else {
                RestorePhase::Done(RestoreOutcome::Stranded)
            },
            RestorePhase::Cleanup => RestorePhase::Done(RestoreOutcome::Succeeded),
            RestorePhase::Done(o) => RestorePhase::Done(o),
        };
        self.phase = next;
    }

    /// How the attempt ended, once it has.
    pub fn outcome(&self) -> (r: Option<RestoreOutcome>)
        ensures
            match self.phase {
                RestorePhase::Done(o) => r == Some(o),
                _ => r is None,
            },
    {
        match self.phase {
            RestorePhase::Done(o) => Some(o),
            _ => None,
        }
    }
}

} // verus!
