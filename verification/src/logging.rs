//! The application log: its file names and how older logs are rotated when
//! the application starts.
use vstd::prelude::*;
use vstd::string::StringExecFns;
use crate::text::{decimal, decimal_seq};

verus! {

/// A log at least this large is rotated at start-up.
pub const MAX_LOG_SIZE_BYTES: u64 = 1048576;
/// The current log and the older ones together.
pub const MAX_LOG_FILES: u64 = 4;
pub const LOG_FILE_NAME: &'static str = "wmcssh.log";

pub open spec fn rotated_file_name_spec(index: nat) -> Seq<char> {
    LOG_FILE_NAME@ + seq!['.'] + decimal_seq(index)
}

/// The file name of the `index`-th older log: `wmcssh.log.<index>`.
pub fn rotated_file_name(index: u64) -> (r: String)
    ensures
        r@ == rotated_file_name_spec(index as nat),
{
    let mut name = String::from_str(LOG_FILE_NAME);
    name.append(".");
    let digits = decimal(index);
    name.append(digits.as_str());
    proof {
        reveal_strlit(".");
    }
    assert(name@ =~= rotated_file_name_spec(index as nat));
    name
}

/// One file operation of a rotation.
#[derive(Clone, Copy, Debug, PartialEq, Eq, Structural)]
pub enum RotationStep {
    /// Delete the older log with this index.
    Remove(u64),
    /// Rename an older log to the next index.
    Rename { from: u64, to: u64 },
    /// Rename the current log to the first older one.
    RenameCurrent,
}

/// The moves of the older logs from `index` down to 1, where
/// `older_exists[k - 1]` says whether the older log `k` exists: the oldest
/// one is deleted, each other one moves up by one.
pub open spec fn shift_steps(older_exists: Seq<bool>, index: nat) -> Seq<RotationStep>
    decreases index,
{
    if index == 0 {
        seq![]
    } else {
        let step = if index + 1 >= MAX_LOG_FILES {
            RotationStep::Remove(index as u64)
        } else {
            RotationStep::Rename { from: index as u64, to: (index + 1) as u64 }
        };
        let here = if older_exists[index - 1] { seq![step] } else { seq![] };
        here + shift_steps(older_exists, (index - 1) as nat)
    }
}

/// The rotation for a current log of `current_size` bytes (`None` where
/// its size could not be read): nothing for a small or unreadable log,
/// else the older logs shifted and the current one renamed.
pub open spec fn rotation_plan_spec(current_size: Option<u64>, older_exists: Seq<bool>) -> Seq<RotationStep> {
    match current_size {
        Some(size) => if size < MAX_LOG_SIZE_BYTES {
            seq![]
        } else {
            shift_steps(older_exists, (MAX_LOG_FILES - 1) as nat).push(RotationStep::RenameCurrent)
        },
        None => seq![],
    }
}

/// The file operations that rotate the log at start-up.
pub fn rotation_plan(current_size: Option<u64>, older_exists: &Vec<bool>) -> (r: Vec<RotationStep>)
    requires
        older_exists.len() == MAX_LOG_FILES - 1,
    ensures
        r@ == rotation_plan_spec(current_size, older_exists@),
{
    let mut steps: Vec<RotationStep> = Vec::new();
    let size = match current_size {
        Some(size) => size,
        None => return steps,
    };
    if size < MAX_LOG_SIZE_BYTES {
        return steps;
    }
    let mut index: u64 = MAX_LOG_FILES - 1;
    while index > 0
        invariant
            index <= MAX_LOG_FILES - 1,
            older_exists.len() == MAX_LOG_FILES - 1,
            steps@ + shift_steps(older_exists@, index as nat) == shift_steps(
                older_exists@,
                (MAX_LOG_FILES - 1) as nat,
            ),
        decreases index,
    {
        let ghost before = steps@;
        if older_exists[(index - 1) as usize] {
            if index + 1 >= MAX_LOG_FILES {
                steps.push(RotationStep::Remove(index));
            } else {
                steps.push(RotationStep::Rename { from: index, to: index + 1 });
            }
        }
        proof {
            let rest = shift_steps(older_exists@, (index - 1) as nat);
            let step = if index + 1 >= MAX_LOG_FILES {
                RotationStep::Remove(index as u64)
            } else {
                RotationStep::Rename { from: index as u64, to: (index + 1) as u64 }
            };
            let here = if older_exists@[index - 1] { seq![step] } else { seq![] };
            assert(shift_steps(older_exists@, index as nat) == here + rest);
            assert(steps@ == before + here);
            assert(before + (here + rest) =~= (before + here) + rest);
        }
        index = index - 1;
    }
    assert(steps@ + shift_steps(older_exists@, 0) =~= steps@);
    steps.push(RotationStep::RenameCurrent);
    steps
}


/// The log files present after carrying out the steps on `files` (older
/// logs by index, the current log as 0), or `None` where a step would act
/// on a missing file or rename onto an existing one.
pub open spec fn apply_rotation(files: Set<int>, steps: Seq<RotationStep>) -> Option<Set<int>>
    decreases steps.len(),
{
    if steps.len() == 0 {
        Some(files)
    } else {
        let next = match steps[0] {
            RotationStep::Remove(i) => if files.contains(i as int) {
                Some(files.remove(i as int))
            } else {
                None
            },
            RotationStep::Rename { from, to } => if files.contains(from as int) && !files.contains(to as int) {
                Some(files.remove(from as int).insert(to as int))
            } else {
                None
            },
            RotationStep::RenameCurrent => if files.contains(0) && !files.contains(1) {
                Some(files.remove(0).insert(1))
            } else {
                None
            },
        };
        match next {
            Some(f) => apply_rotation(f, steps.drop_first()),
            None => None,
        }
    }
}

/// The current log with the older logs that exist.
pub open spec fn log_files(older_exists: Seq<bool>) -> Set<int> {
    Set::new(|i: int| i == 0 || (1 <= i <= 3 && older_exists[i - 1]))
}

/// Rotating a log that has grown too large never overwrites a file and
/// loses none but the oldest: the current log becomes the first older one
/// and every older log but the last moves up by one.
pub proof fn law_rotation_shifts_logs(size: u64, older_exists: Seq<bool>)
    requires
        older_exists.len() == MAX_LOG_FILES - 1,
        size >= MAX_LOG_SIZE_BYTES,
    ensures
        apply_rotation(log_files(older_exists), rotation_plan_spec(Some(size), older_exists)) == Some(
            Set::new(|i: int| i == 1 || (i == 2 && older_exists[0]) || (i == 3 && older_exists[1])),
        ),
{
    reveal_with_fuel(shift_steps, 4);
    reveal_with_fuel(apply_rotation, 5);
    let ex = older_exists;
    let steps = rotation_plan_spec(Some(size), ex);
    let expected = Set::new(|i: int| i == 1 || (i == 2 && ex[0]) || (i == 3 && ex[1]));
    let f0 = log_files(ex);
    let f1 = if ex[2] { f0.remove(3) } else { f0 };
    let f2 = if ex[1] { f1.remove(2).insert(3) } else { f1 };
    let f3 = if ex[0] { f2.remove(1).insert(2) } else { f2 };
    let f4 = f3.remove(0).insert(1);
    assert(f4 =~= expected);
    let s3 = seq![RotationStep::RenameCurrent];
    let s2 = (if ex[0] { seq![RotationStep::Rename { from: 1, to: 2 }] } else { seq![] }) + s3;
    let s1 = (if ex[1] { seq![RotationStep::Rename { from: 2, to: 3 }] } else { seq![] }) + s2;
    let s0 = (if ex[2] { seq![RotationStep::Remove(3)] } else { seq![] }) + s1;
    assert(steps =~= s0);
    assert(apply_rotation(f3, s3) == Some(f4)) by {
        assert(s3.drop_first() =~= Seq::<RotationStep>::empty());
    }
    assert(apply_rotation(f2, s2) == Some(f4)) by {
        if ex[0] {
            assert(s2.drop_first() =~= s3);
        } else {
            assert(s2 =~= s3);
        }
    }
    assert(apply_rotation(f1, s1) == Some(f4)) by {
        if ex[1] {
            assert(s1.drop_first() =~= s2);
        } else {
            assert(s1 =~= s2);
        }
    }
    assert(apply_rotation(f0, s0) == Some(f4)) by {
        if ex[2] {
            assert(s0.drop_first() =~= s1);
        } else {
            assert(s0 =~= s1);
        }
    }
}

} // verus!
