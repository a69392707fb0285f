//! Size-based rotation of a log file: when to rotate, and which renames a
//! rotation makes.

use vstd::prelude::*;

verus! {

/// Rotation settings.
#[derive(Debug, Clone, Copy, PartialEq, Eq, Structural)]
pub struct RotationConfig {
    /// Rotation on at all.
    pub enabled: bool,
    /// Size, in MiB, beyond which the file is rotated.
    pub max_size_mb: u32,
    /// Number of backups kept (`.log.1` is the newest).
    pub max_backups: u32,
    /// Age, in days, of backups kept.
    pub max_age_days: u32,
}

/// One rename of a rotation.
#[derive(Debug, Clone, Copy, PartialEq, Eq, Structural)]
pub enum RotationStep {
    /// Backup `.log.<from>` becomes `.log.<from + 1>` (replacing it), if it
    /// exists.
    ShiftBackup(u32),
    /// The live file becomes `.log.1` (replacing it).
    ArchiveCurrent,
}

/// The renames of a rotation, in order: backups `max_backups - 1` down to
/// 1 each shifted up by one, then the live file archived as backup 1.
pub open spec fn rotation_steps(max_backups: u32) -> Seq<RotationStep> {
    Seq::new(
        if max_backups >= 2 { (max_backups - 1) as nat } else { 0 },
        |k: int| RotationStep::ShiftBackup((max_backups - 1 - k) as u32),
    ).push(RotationStep::ArchiveCurrent)
}

/// The files after one rename of a rotation, as a map from slot to
/// content: slot 0 is the live file and slot `k > 0` is backup `.log.<k>`.
/// A rename whose source does not exist does nothing; otherwise the source
/// moves to the target, replacing what was there.
pub open spec fn after_step(files: Map<int, int>, step: RotationStep) -> Map<int, int> {
    let (from, to) = match step {
        RotationStep::ShiftBackup(i) => (i as int, i + 1),
        RotationStep::ArchiveCurrent => (0int, 1int),
    };
    if files.contains_key(from) {
        files.remove(from).insert(to, files[from])
    } else {
        files
    }
}

/// The files after the renames `steps`, in order.
pub open spec fn after_steps(files: Map<int, int>, steps: Seq<RotationStep>) -> Map<int, int>
    decreases steps.len(),
{
    if steps.len() == 0 {
        files
    } else {
        after_step(after_steps(files, steps.drop_last()), steps.last())
    }
}

/// The files after the first `t` backup shifts of a rotation keeping `m`
/// backups (`j = m - t` is the last backup shifted): below `j` nothing has
/// moved, slot `j` is free, the slots above it up to `m - 1` hold what the
/// slot below held, and slot `m` holds backup `m - 1` if it existed, else
/// what it held.
pub open spec fn shifted(files: Map<int, int>, m: int, t: int) -> Map<int, int> {
    let j = m - t;
    Map::new(
        |k: int|
            (0 <= k < j && files.contains_key(k)) || (j < k < m && files.contains_key(k - 1)) || (k == m && (
            t >= 1 && files.contains_key(m - 1) || files.contains_key(m))),
        |k: int|
            if k < j {
                files[k]
            } else if k == m && t >= 1 && files.contains_key(m - 1) {
                files[m - 1]
            } else if k == m {
                files[m]
            } else {
                files[k - 1]
            },
    )
}

proof fn lemma_shift_prefix(files: Map<int, int>, m: u32, t: int)
    requires
        forall|k: int| files.contains_key(k) ==> 0 <= k <= m,
        m >= 2,
        0 <= t <= m - 1,
    ensures
        after_steps(files, rotation_steps(m).take(t)) == shifted(files, m as int, t),
    decreases t,
{
    let steps = rotation_steps(m);
    if t == 0 {
        assert(steps.take(0) =~= Seq::<RotationStep>::empty());
        assert(shifted(files, m as int, 0) =~= files);
    } else {
        lemma_shift_prefix(files, m, t - 1);
        assert(steps.take(t).drop_last() =~= steps.take(t - 1));
        let i = m - 1 - (t - 1);
        assert(steps.take(t).last() == steps[t - 1]);
        assert(steps[t - 1] == RotationStep::ShiftBackup(i as u32));
        let before = shifted(files, m as int, t - 1);
        assert(after_steps(files, steps.take(t)) == after_step(before, RotationStep::ShiftBackup(i as u32)));
        assert(after_step(before, RotationStep::ShiftBackup(i as u32)) =~= shifted(files, m as int, t));
    }
}

/// A rotation keeping `m` backups, applied to a live file and backups in
/// slots up to `m`: the live file becomes backup 1, each backup `k - 1`
/// below `m` becomes backup `k`, backup `m` is replaced by backup `m - 1`
/// (and kept only when there is none), and nothing is left beyond the
/// larger of `m` and 1.
pub proof fn lemma_rotation_shifts_backups(files: Map<int, int>, m: u32)
    requires
        files.contains_key(0),
        forall|k: int| files.contains_key(k) ==> 0 <= k <= m,
    ensures
        ({
            let after = after_steps(files, rotation_steps(m));
            &&& !after.contains_key(0)
            &&& after.contains_key(1) && after[1] == files[0]
            &&& forall|k: int| 2 <= k < m ==> (#[trigger] after.contains_key(k) <==> files.contains_key(k - 1))
            &&& forall|k: int| 2 <= k < m && files.contains_key(k - 1) ==> #[trigger] after[k] == files[k - 1]
            &&& m >= 2 ==> (after.contains_key(m as int) <==> files.contains_key(m - 1) || files.contains_key(
                m as int,
            ))
            &&& m >= 2 && files.contains_key(m - 1) ==> after[m as int] == files[m - 1]
            &&& m >= 2 && !files.contains_key(m - 1) && files.contains_key(m as int) ==> after[m as int]
                == files[m as int]
            &&& forall|k: int| #[trigger] after.contains_key(k) ==> 1 <= k && (k <= m || k == 1)
        }),
{
    let steps = rotation_steps(m);
    let n = steps.len() as int;
    assert(steps.drop_last() =~= steps.take(n - 1));
    assert(steps.last() == RotationStep::ArchiveCurrent);
    let pre = after_steps(files, steps.take(n - 1));
    assert(after_steps(files, steps) == after_step(pre, RotationStep::ArchiveCurrent));
    if m >= 2 {
        lemma_shift_prefix(files, m, m - 1);
        assert(pre == shifted(files, m as int, m - 1));
        assert(pre.contains_key(0) && pre[0] == files[0]);
        assert(!pre.contains_key(1));
    } else {
        assert(steps.take(n - 1) =~= Seq::<RotationStep>::empty());
        assert(pre == files);
    }
    let after = pre.remove(0).insert(1, pre[0]);
    assert(after_steps(files, steps) == after);
}

/// Decides and plans the rotation of a log file.
#[derive(Debug, Clone, Copy, PartialEq, Eq, Structural)]
pub struct RotationManager {
    config: RotationConfig,
}

impl RotationManager {
    /// The configuration.
    pub closed spec fn spec_config(&self) -> RotationConfig {
        self.config
    }

    /// A manager with the given configuration.
    pub fn new(config: RotationConfig) -> (r: Self)
        ensures
            r.spec_config() == config,
    {
        RotationManager { config }
    }

    /// Rotation is on and `prospective_size` bytes would exceed the
    /// configured size in MiB.
    pub fn should_rotate(&self, prospective_size: u64) -> (r: bool)
        ensures
            r == (self.spec_config().enabled && prospective_size > self.spec_config().max_size_mb * 1048576),
    {
        let limit: u64 = self.config.max_size_mb as u64 * 1024 * 1024;
        self.config.enabled && prospective_size > limit
    }

    /// The renames a rotation makes, in order.
    pub fn rotation_plan(&self) -> (r: Vec<RotationStep>)
        ensures
            r@ == rotation_steps(self.spec_config().max_backups),
    {
        let max_backups = self.config.max_backups;
        let mut steps: Vec<RotationStep> = Vec::new();
        let mut i: u32 = if max_backups >= 2 { max_backups - 1 } else { 0 };
        let ghost total: int = if max_backups >= 2 { max_backups - 1 } else { 0 };
        while i >= 1
            invariant
                max_backups == self.spec_config().max_backups,
                total == (if max_backups >= 2 { max_backups - 1 } else { 0 }),
                0 <= i <= total,
                steps@.len() == total - i,
                forall|k: int| 0 <= k < steps@.len() ==> #[trigger] steps@[k] == RotationStep::ShiftBackup(
                    (max_backups - 1 - k) as u32,
                ),
            decreases i,
        {
            steps.push(RotationStep::ShiftBackup(i));
            i = i - 1;
        }
        steps.push(RotationStep::ArchiveCurrent);
        assert(steps@ =~= rotation_steps(max_backups));
        steps
    }

    /// Before writing `line_bytes` bytes (the line and its newline) to a
    /// file of `current_size` bytes: whether to rotate first, and the size
    /// of the file after the write.
    pub fn plan_write(&self, current_size: u64, line_bytes: u64) -> (r: (bool, u64))
        requires
            current_size + line_bytes <= u64::MAX,
        ensures
            r.0 == (self.spec_config().enabled && current_size + line_bytes > self.spec_config().max_size_mb
                * 1048576),
            r.1 == if r.0 { line_bytes } else { (current_size + line_bytes) as u64 },
    {
        let prospective = current_size + line_bytes;
        if self.should_rotate(prospective) {
            (true, line_bytes)
        } else {
            (false, prospective)
        }
    }
}

} // verus!
