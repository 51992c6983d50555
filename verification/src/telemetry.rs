//! Size-bounded log files: when a write rotates the file, and the names of
//! the rotated generations.
use vstd::prelude::*;

use crate::format::{nat_decimal, unsigned_decimal};
use crate::text::{push_str, string_from_chars};

verus! {

/// The size a log file may reach before a write rotates it.
pub const LOG_FILE_MAX_BYTES: u64 = 10485760;

/// How many rotated generations are kept.
pub const LOG_FILE_RETAINED_GENERATIONS: usize = 4;

/// The name of rotated generation `generation` of the log file at `path`:
/// the path with `.` and the generation appended.
pub fn rotated_path(path: &str, generation: usize) -> (r: String)
    ensures
        r@ == path@ + "."@ + nat_decimal(generation as nat),
{
    let mut text: Vec<char> = Vec::new();
    push_str(&mut text, path);
    push_str(&mut text, ".");
    let digits = unsigned_decimal(generation as u128);
    let ghost prefix = text@;
    let mut i: usize = 0;
    while i < digits.len()
        invariant
            i <= digits.len(),
            text@ == prefix + digits@.take(i as int),
        decreases digits.len() - i,
    {
        text.push(digits[i]);
        proof {
            assert(digits@.take(i + 1) =~= digits@.take(i as int).push(digits@[i as int]));
        }
        i = i + 1;
    }
    assert(digits@.take(digits.len() as int) =~= digits@);
    string_from_chars(text.as_slice())
}

/// The bytes a line occupies in the file: its text and a newline, capped
/// at the largest size.
pub open spec fn line_bytes(line_len: usize) -> int {
    if line_len + 1 > u64::MAX { u64::MAX as int } else { line_len + 1 }
}

/// Whether writing a line of `line_len` bytes to a non-empty file of
/// `size` bytes would take it past `max_bytes`, so the file rotates first.
pub fn rotation_needed(size: u64, line_len: usize, max_bytes: u64) -> (b: bool)
    ensures
        b == (size > 0 && size + line_bytes(line_len) > max_bytes),
{
    let bytes: u64 = if line_len as u128 + 1 > u64::MAX as u128 { u64::MAX } else { (line_len as u128 + 1) as u64 };
    size > 0 && (size as u128) + (bytes as u128) > (max_bytes as u128)
}

/// The size of the file after a line is written, capped at the largest
/// size.
pub fn size_after_write(size: u64, line_len: usize) -> (r: u64)
    ensures
        r == if size + line_bytes(line_len) > u64::MAX { u64::MAX as int } else { size + line_bytes(line_len) },
{
    let bytes: u64 = if line_len as u128 + 1 > u64::MAX as u128 { u64::MAX } else { (line_len as u128 + 1) as u64 };
    size.saturating_add(bytes)
}

/// A file operation of a rotation. Generation 0 is the active log file;
/// generation `g > 0` is its rotated copy `g`.
#[derive(Clone, Copy, Debug, PartialEq, Eq, Structural)]
pub enum RotationAction {
    Remove { generation: usize },
    Rename { from: usize, to: usize },
}

/// The log files after `action`: each generation holds the size of its
/// file, or `None` when it does not exist.
pub open spec fn apply_action(files: Seq<Option<u64>>, action: RotationAction) -> Seq<Option<u64>> {
    match action {
        RotationAction::Remove { generation } => files.update(generation as int, None),
        RotationAction::Rename { from, to } => files.update(to as int, files[from as int]).update(from as int, None),
    }
}

/// The log files after `actions`, in order.
pub open spec fn apply_actions(files: Seq<Option<u64>>, actions: Seq<RotationAction>) -> Seq<Option<u64>>
    decreases actions.len(),
{
    if actions.len() == 0 {
        files
    } else {
        apply_action(apply_actions(files, actions.drop_last()), actions.last())
    }
}

/// A file that exists and fits the size bound.
pub open spec fn kept(size: Option<u64>, max_bytes: u64) -> bool {
    size matches Some(n) && n <= max_bytes
}

/// The files after a rotation that keeps `retained` generations: the active
/// file moves to generation 1 unless it is too large, each kept generation
/// moves up by one, too large ones are discarded, and the active file is
/// gone. With no retained generation the active file is only removed.
pub open spec fn rotated_files(files: Seq<Option<u64>>, retained: int, max_bytes: u64) -> Seq<Option<u64>> {
    Seq::new(
        files.len(),
        |k: int|
            if k == 0 {
                None
            } else if retained == 0 {
                files[k]
            } else if k == 1 {
                if kept(files[0], max_bytes) { files[0] } else { None }
            } else if k <= retained {
                if kept(files[k - 1], max_bytes) {
                    files[k - 1]
                } else if k == retained {
                    files[k]
                } else {
                    None
                }
            } else {
                files[k]
            },
    )
}

/// The files while generations above `g` have moved up: generations up to
/// `g` are as they were, generation `g + 1` has moved away unless it is the
/// last retained one, and higher generations hold their final contents.
pub open spec fn partly_rotated(files: Seq<Option<u64>>, retained: int, max_bytes: u64, g: int) -> Seq<Option<u64>> {
    Seq::new(
        files.len(),
        |k: int|
            if k <= g || k > retained {
                files[k]
            } else if k == g + 1 {
                if g + 1 < retained { None } else { files[retained] }
            } else {
                rotated_files(files, retained, max_bytes)[k]
            },
    )
}

/// The file operations that rotate the log files whose sizes are `files`
/// (generation 0, the active file, first), keeping `retained` generations
/// and discarding files larger than `max_bytes`.
pub fn plan_rotation(files: &Vec<Option<u64>>, retained: usize, max_bytes: u64) -> (actions: Vec<RotationAction>)
    requires
        files.len() == retained + 1,
    ensures
        apply_actions(files@, actions@) == rotated_files(files@, retained as int, max_bytes),
{
    let mut state: Vec<Option<u64>> = files.clone();
    let mut actions: Vec<RotationAction> = Vec::new();
    assert(apply_actions(files@, actions@) =~= state@);
    if retained == 0 {
        if state[0].is_some() {
            record(&mut actions, &mut state, RotationAction::Remove { generation: 0 }, Ghost(files@));
        }
        assert(state@ =~= rotated_files(files@, 0, max_bytes));
        return actions;
    }
    let mut g: usize = retained - 1;
    assert(state@ =~= partly_rotated(files@, retained as int, max_bytes, g as int));
    while g > 0
        invariant
            files.len() == retained + 1,
            retained >= 1,
            g < retained,
            state@.len() == files@.len(),
            state@ == partly_rotated(files@, retained as int, max_bytes, g as int),
            apply_actions(files@, actions@) == state@,
        decreases g,
    {
        match state[g] {
            Some(size) => {
                if size > max_bytes {
                    record(&mut actions, &mut state, RotationAction::Remove { generation: g }, Ghost(files@));
                } else {
                    if state[g + 1].is_some() {
                        record(&mut actions, &mut state, RotationAction::Remove { generation: g + 1 }, Ghost(files@));
                    }
                    record(&mut actions, &mut state, RotationAction::Rename { from: g, to: g + 1 }, Ghost(files@));
                }
            },
            None => {},
        }
        proof {
            assert(state@ =~= partly_rotated(files@, retained as int, max_bytes, g - 1));
        }
        g = g - 1;
    }
    if state[1].is_some() {
        record(&mut actions, &mut state, RotationAction::Remove { generation: 1 }, Ghost(files@));
    }
    match state[0] {
        Some(size) => {
            if size <= max_bytes {
                record(&mut actions, &mut state, RotationAction::Rename { from: 0, to: 1 }, Ghost(files@));
            } else {
                record(&mut actions, &mut state, RotationAction::Remove { generation: 0 }, Ghost(files@));
            }
        },
        None => {},
    }
    assert(state@ =~= rotated_files(files@, retained as int, max_bytes));
    actions
}

/// Record `action` and apply it to the tracked file sizes.
fn record(
    actions: &mut Vec<RotationAction>,
    state: &mut Vec<Option<u64>>,
    action: RotationAction,
    Ghost(files): Ghost<Seq<Option<u64>>>,
)
    requires
        apply_actions(files, old(actions)@) == old(state)@,
        match action {
            RotationAction::Remove { generation } => generation < old(state)@.len(),
            RotationAction::Rename { from, to } => from < old(state)@.len() && to < old(state)@.len(),
        },
    ensures
        final(actions)@ == old(actions)@.push(action),
        final(state)@ == apply_action(old(state)@, action),
        apply_actions(files, final(actions)@) == final(state)@,
{
    let ghost before = actions@;
    actions.push(action);
    assert(actions@.drop_last() =~= before);
    match action {
        RotationAction::Remove { generation } => {
            state.set(generation, None);
        },
        RotationAction::Rename { from, to } => {
            let moved = state[from];
            state.set(to, moved);
            state.set(from, None);
        },
    }
    assert(state@ =~= apply_action(old(state)@, action));
}

/// After a rotation no retained file is larger than the bound, except a
/// last generation that was already there and that nothing moved onto.
pub proof fn lemma_rotation_bounds_retained_files(files: Seq<Option<u64>>, retained: int, max_bytes: u64, k: int)
    requires
        retained >= 1,
        files.len() == retained + 1,
        0 <= k < retained,
    ensures
        rotated_files(files, retained, max_bytes)[0] is None,
        rotated_files(files, retained, max_bytes)[k] matches Some(n) ==> n <= max_bytes,
{
}

} // verus!
