use vstd::prelude::*;

use crate::models::{cleanable, registry_item, CleanError, CleanResult, JunkItem, JunkTarget};
use crate::order::{join_path, joined};
use crate::tally::size_modulus;
use crate::text::{
    last_pos, lemma_last_pos, chars_of, decimal, decimal_chars, extend_chars, extend_str, rfind_char, slice_chars,
    starts_with, string_of,
};

verus! {

// ---------------------------------------------------------------------------
// Registry keys
// ---------------------------------------------------------------------------

/// The registry roots that items may name.
#[derive(Debug, Clone, Copy, PartialEq, Eq, Structural)]
pub enum RegistryHive {
    CurrentUser,
    LocalMachine,
}

/// The root of a key path and the rest of the path: `HKCU\`, `HKLM\`,
/// `HKEY_CURRENT_USER\` and `HKEY_LOCAL_MACHINE\` are understood, in that order.
pub open spec fn hive_of(key: Seq<char>) -> Option<(RegistryHive, Seq<char>)> {
    if "HKCU\\"@.is_prefix_of(key) {
        Some((RegistryHive::CurrentUser, key.skip(5)))
    } else if "HKLM\\"@.is_prefix_of(key) {
        Some((RegistryHive::LocalMachine, key.skip(5)))
    } else if "HKEY_CURRENT_USER\\"@.is_prefix_of(key) {
        Some((RegistryHive::CurrentUser, key.skip(18)))
    } else if "HKEY_LOCAL_MACHINE\\"@.is_prefix_of(key) {
        Some((RegistryHive::LocalMachine, key.skip(19)))
    } else {
        None
    }
}

/// Splits a key path into its root and the rest.
pub fn split_hive(key_path: &str) -> (r: Result<(RegistryHive, String), String>)
    ensures
        match r {
            Ok((h, rest)) => hive_of(key_path@) == Some((h, rest@)),
            Err(e) => hive_of(key_path@) is None && e@ == "无法识别的注册表根: "@ + key_path@,
        },
{
    proof {
        reveal_strlit("HKCU\\");
        reveal_strlit("HKLM\\");
        reveal_strlit("HKEY_CURRENT_USER\\");
        reveal_strlit("HKEY_LOCAL_MACHINE\\");
    }
    let key = chars_of(key_path);
    let n = key.len();
    let cu = chars_of("HKCU\\");
    if starts_with(&key, &cu) {
        return Ok((RegistryHive::CurrentUser, string_of(&slice_chars(&key, 5, n))));
    }
    let lm = chars_of("HKLM\\");
    if starts_with(&key, &lm) {
        return Ok((RegistryHive::LocalMachine, string_of(&slice_chars(&key, 5, n))));
    }
    let cu_long = chars_of("HKEY_CURRENT_USER\\");
    if starts_with(&key, &cu_long) {
        return Ok((RegistryHive::CurrentUser, string_of(&slice_chars(&key, 18, n))));
    }
    let lm_long = chars_of("HKEY_LOCAL_MACHINE\\");
    if starts_with(&key, &lm_long) {
        return Ok((RegistryHive::LocalMachine, string_of(&slice_chars(&key, 19, n))));
    }
    let mut msg = chars_of("无法识别的注册表根: ");
    extend_chars(&mut msg, &key);
    Err(string_of(&msg))
}

/// A deletion that the registry is asked for.
#[derive(Debug)]
pub enum RegistryDeletion {
    /// Delete value `value` of key `subkey`.
    Value { hive: RegistryHive, subkey: String, value: String },
    /// Delete key `child` of key `parent`, with everything below it.
    Key { hive: RegistryHive, parent: String, child: String },
}

/// What deleting a registry entry asks for, or why it is refused: a value is deleted
/// from its key; a key is deleted from its parent, and a key right under a root is
/// never deleted.
pub open spec fn deletion_plan(key: Seq<char>, value_name: Option<Seq<char>>) -> Result<
    (RegistryHive, Seq<char>, Seq<char>, bool),
    Seq<char>,
> {
    match hive_of(key) {
        None => Err("无法识别的注册表根: "@ + key),
        Some((h, sub)) => match value_name {
            Some(v) => Ok((h, sub, v, true)),
            None => {
                let k = last_pos(sub, '\\');
                if k < 0 {
                    Err("拒绝删除顶级注册表键"@)
                } else {
                    Ok((h, sub.take(k), sub.skip(k + 1), false))
                }
            },
        },
    }
}

/// The view of a deletion as `(hive, key, name, is_value)`.
pub open spec fn deletion_view(d: RegistryDeletion) -> (RegistryHive, Seq<char>, Seq<char>, bool) {
    match d {
        RegistryDeletion::Value { hive, subkey, value } => (hive, subkey@, value@, true),
        RegistryDeletion::Key { hive, parent, child } => (hive, parent@, child@, false),
    }
}

/// What deleting the registry entry `key` (or its value `value_name`) asks for.
pub fn registry_deletion(key: &str, value_name: &Option<String>) -> (r: Result<RegistryDeletion, String>)
    ensures
        match (r, deletion_plan(
            key@,
            match value_name {
                Some(v) => Some(v@),
                None => None,
            },
        )) {
            (Ok(d), Ok(p)) => deletion_view(d) == p,
            (Err(e), Err(m)) => e@ == m,
            _ => false,
        },
{
    let (hive, subkey) = match split_hive(key) {
        Ok(split) => split,
        Err(e) => {
            return Err(e);
        },
    };
    match value_name {
        Some(v) => Ok(RegistryDeletion::Value { hive, subkey, value: v.clone() }),
        None => {
            let sub = chars_of(subkey.as_str());
            match rfind_char(&sub, '\\') {
                None => {
                    proof {
                        reveal_strlit("拒绝删除顶级注册表键");
                    }
                    Err(String::from_str("拒绝删除顶级注册表键"))
                },
                Some(k) => {
                    proof {
                        lemma_last_pos(sub@, '\\', k as int);
                    }
                    let parent = string_of(&slice_chars(&sub, 0, k));
                    let child = string_of(&slice_chars(&sub, k + 1, sub.len()));
                    assert(sub@.subrange(0, k as int) == sub@.take(k as int));
                    assert(sub@.subrange(k + 1, sub@.len() as int) == sub@.skip(k + 1));
                    Ok(RegistryDeletion::Key { hive, parent, child })
                },
            }
        },
    }
}

/// What the registry answered to a deletion, with its error codes.
#[derive(Debug, Clone, Copy, PartialEq, Eq, Structural)]
pub enum RegistryOutcome {
    /// The key could not be opened for writing.
    OpenFailed(u32),
    /// The entry was deleted.
    Deleted,
    /// Deleting the value failed.
    ValueFailed(u32),
    /// Deleting the key failed, first as a tree, then as a single key.
    KeyFailed(u32, u32),
}

/// The error text of a registry outcome, or `None` when it succeeded.
pub open spec fn outcome_error(o: RegistryOutcome) -> Option<Seq<char>> {
    match o {
        RegistryOutcome::OpenFailed(c) => Some("打开注册表键失败 (错误码 "@ + decimal(c as nat) + ")"@),
        RegistryOutcome::Deleted => None,
        RegistryOutcome::ValueFailed(c) => Some("删除注册表值失败 (错误码 "@ + decimal(c as nat) + ")"@),
        RegistryOutcome::KeyFailed(a, b) => Some(
            "删除注册表键失败 (错误码 "@ + decimal(a as nat) + " / "@ + decimal(b as nat) + ")"@,
        ),
    }
}

fn code_message(prefix: &str, code: u32) -> (r: String)
    ensures
        r@ == prefix@ + decimal(code as nat) + ")"@,
{
    let mut m = chars_of(prefix);
    extend_chars(&mut m, &decimal_chars(code as u64));
    extend_str(&mut m, ")");
    string_of(&m)
}

/// The error text of a registry outcome.
pub fn registry_outcome_error(o: RegistryOutcome) -> (r: Option<String>)
    ensures
        match r {
            Some(e) => outcome_error(o) == Some(e@),
            None => outcome_error(o) is None,
        },
{
    match o {
        RegistryOutcome::OpenFailed(c) => Some(code_message("打开注册表键失败 (错误码 ", c)),
        RegistryOutcome::Deleted => None,
        RegistryOutcome::ValueFailed(c) => Some(code_message("删除注册表值失败 (错误码 ", c)),
        RegistryOutcome::KeyFailed(a, b) => {
            let mut m = chars_of("删除注册表键失败 (错误码 ");
            extend_chars(&mut m, &decimal_chars(a as u64));
            extend_str(&mut m, " / ");
            extend_chars(&mut m, &decimal_chars(b as u64));
            extend_str(&mut m, ")");
            Some(string_of(&m))
        },
    }
}

// ---------------------------------------------------------------------------
// Files
// ---------------------------------------------------------------------------

/// What deleting a file or directory gave.
#[derive(Debug)]
pub enum DeleteOutcome {
    /// The file, or the directory with its contents, was removed.
    Removed,
    /// The path is a directory that could not be removed; the texts are the errors
    /// of removing it as a file and as a directory.
    DirectoryFailed { file_error: String, dir_error: String },
    /// The path could not be removed as a file and is no directory; `locked` tells
    /// whether the error means the file is in use.
    FileFailed { error: String, locked: bool },
}

/// The error text of a file deletion, or `None` when it succeeded.
pub open spec fn delete_error(o: DeleteOutcome) -> Option<Seq<char>> {
    match o {
        DeleteOutcome::Removed => None,
        DeleteOutcome::DirectoryFailed { file_error, dir_error } => Some(
            file_error@ + "; 目录删除: "@ + dir_error@,
        ),
        DeleteOutcome::FileFailed { error, locked } => Some(
            if locked {
                error@ + "（文件可能被占用）"@
            } else {
                error@
            },
        ),
    }
}

fn delete_error_text(o: &DeleteOutcome) -> (r: Option<String>)
    ensures
        match r {
            Some(e) => delete_error(*o) == Some(e@),
            None => delete_error(*o) is None,
        },
{
    match o {
        DeleteOutcome::Removed => None,
        DeleteOutcome::DirectoryFailed { file_error, dir_error } => {
            let mut m = chars_of(file_error.as_str());
            extend_str(&mut m, "; 目录删除: ");
            extend_str(&mut m, dir_error.as_str());
            Some(string_of(&m))
        },
        DeleteOutcome::FileFailed { error, locked } => {
            if *locked {
                let mut m = chars_of(error.as_str());
                extend_str(&mut m, "（文件可能被占用）");
                Some(string_of(&m))
            } else {
                Some(error.clone())
            }
        },
    }
}

// ---------------------------------------------------------------------------
// The clean as a sequence of steps
// ---------------------------------------------------------------------------

/// Selected registry items that may be cleaned.
pub open spec fn registry_target(is_admin: bool) -> spec_fn(JunkItem) -> bool {
    |i: JunkItem| i.selected && cleanable(i, is_admin) && registry_item(i)
}

/// Selected files and directories that may be cleaned (the recycle bin left out).
pub open spec fn file_target(is_admin: bool) -> spec_fn(JunkItem) -> bool {
    |i: JunkItem| i.selected && cleanable(i, is_admin) && !registry_item(i) && !i.is_recycle_bin
}

/// Whether the recycle bin is to be emptied.
pub open spec fn recycle_wanted(items: Seq<JunkItem>, is_admin: bool) -> bool {
    exists|k: int|
        0 <= k < items.len() && items[k].selected && cleanable(items[k], is_admin) && !registry_item(
            items[k],
        ) && items[k].is_recycle_bin
}

/// The path that deleting an item removes.
pub open spec fn delete_path_of(item: JunkItem) -> Seq<char> {
    match item.target {
        JunkTarget::File(p) => p@,
        JunkTarget::RegistryKey { .. } => item.path@,
    }
}

/// The steps of a clean, in the order they are taken.
#[derive(Debug, Clone, Copy, PartialEq, Eq, Structural)]
pub enum CleanStage {
    /// The registry items are backed up before any of them is deleted.
    Backup,
    /// The registry items are deleted one by one.
    Registry,
    /// The files and directories are deleted one by one.
    Files,
    /// The recycle bin is emptied.
    Recycle,
    /// Nothing is left to do.
    Finished,
}

/// The position of a stage in the order the stages are taken.
pub open spec fn stage_rank(s: CleanStage) -> nat {
    match s {
        CleanStage::Backup => 0,
        CleanStage::Registry => 1,
        CleanStage::Files => 2,
        CleanStage::Recycle => 3,
        CleanStage::Finished => 4,
    }
}

/// Outside work that the clean needs next.
#[derive(Debug)]
pub enum CleanAction {
    /// Write the backup of `registry_items()` and report `CleanEvent::BackupDone`.
    BackupRegistry,
    /// Carry out this registry deletion and report `CleanEvent::RegistryDone`.
    DeleteRegistry(RegistryDeletion),
    /// Remove this file or directory and report `CleanEvent::PathDone`.
    DeletePath(String),
    /// Empty the recycle bin and report `CleanEvent::RecycleDone`.
    EmptyRecycleBin,
    /// The clean is over; `result()` holds its outcome.
    Done,
}

/// What the outside work of the last action gave.
#[derive(Debug)]
pub enum CleanEvent {
    /// The backup was written (to the given file) or failed (with the given text).
    BackupDone(Result<String, String>),
    RegistryDone(RegistryOutcome),
    PathDone(DeleteOutcome),
    /// The recycle bin was emptied, freeing the given bytes, or emptying failed.
    RecycleDone(Result<u64, String>),
}

/// The state of a clean, as its users see it.
pub struct CleanState {
    pub registry: Seq<JunkItem>,
    pub files: Seq<JunkItem>,
    pub recycle_requested: bool,
    pub stage: CleanStage,
    pub pos: nat,
    pub awaiting: bool,
    pub backup_ok: bool,
    pub result: CleanResult,
}

/// A clean in progress: the registry items are backed up and deleted, then the files
/// and directories, then the recycle bin is emptied; a failure is recorded and the
/// clean goes on.
pub struct CleanSession {
    registry: Vec<JunkItem>,
    files: Vec<JunkItem>,
    recycle_requested: bool,
    stage: CleanStage,
    pos: usize,
    awaiting: bool,
    backup_ok: bool,
    result: CleanResult,
}

impl View for CleanSession {
    type V = CleanState;

    closed spec fn view(&self) -> CleanState {
        CleanState {
            registry: self.registry@,
            files: self.files@,
            recycle_requested: self.recycle_requested,
            stage: self.stage,
            pos: self.pos as nat,
            awaiting: self.awaiting,
            backup_ok: self.backup_ok,
            result: self.result,
        }
    }
}

/// How many targets a clean has dealt with, by stage and position.
pub open spec fn handled(s: CleanState) -> nat {
    match s.stage {
        CleanStage::Backup => 0,
        CleanStage::Registry => s.pos,
        CleanStage::Files => s.registry.len() + s.pos,
        CleanStage::Recycle => s.registry.len() + s.files.len(),
        CleanStage::Finished => s.registry.len() + s.files.len() + if s.recycle_requested {
            1nat
        } else {
            0nat
        },
    }
}

/// What deleting a registry item asks for, from its key and value, or why it is
/// refused.
pub open spec fn item_plan(item: JunkItem) -> Result<(RegistryHive, Seq<char>, Seq<char>, bool), Seq<char>> {
    match item.target {
        JunkTarget::RegistryKey { key, value_name } => deletion_plan(
            key@,
            match value_name {
                Some(v) => Some(v@),
                None => None,
            },
        ),
        JunkTarget::File(_) => Err(Seq::empty()),
    }
}

/// The position of the first registry item at or after `from` whose deletion is not
/// refused, or the number of items when there is none.
pub open spec fn next_deletable(reg: Seq<JunkItem>, from: int) -> int
    decreases reg.len() - from,
{
    if from >= reg.len() {
        reg.len() as int
    } else if item_plan(reg[from]) is Err {
        next_deletable(reg, from + 1)
    } else {
        from
    }
}

/// `after` is `before` followed by one error for each registry item from position `lo`
/// up to `hi`: the item's path, and the reason its deletion is refused.
pub open spec fn refusals_added(
    before: Seq<CleanError>,
    after: Seq<CleanError>,
    reg: Seq<JunkItem>,
    lo: int,
    hi: int,
) -> bool {
    &&& after.len() == before.len() + (hi - lo)
    &&& after.take(before.len() as int) == before
    &&& forall|j: int|
        0 <= j < hi - lo ==> (#[trigger] after[before.len() + j]).path@ == reg[lo + j].path@
            && item_plan(reg[lo + j]) == Err::<(RegistryHive, Seq<char>, Seq<char>, bool), Seq<char>>(
            after[before.len() + j].reason@,
        )
}

/// Where a clean that awaits no report stops to hand out its next action: the backup
/// while it has registry items to back up; the first registry item from its position on
/// whose deletion is not refused; the file at its position (the first file when it
/// comes from an earlier stage); the recycle bin when that is wanted; else the end.
pub open spec fn next_stop(s: CleanState) -> (CleanStage, int) {
    let k = next_deletable(s.registry, s.pos as int);
    let fpos: int = if s.stage == CleanStage::Files {
        s.pos as int
    } else {
        0
    };
    if s.stage == CleanStage::Backup && s.registry.len() > 0 {
        (CleanStage::Backup, 0)
    } else if s.stage == CleanStage::Registry && k < s.registry.len() {
        (CleanStage::Registry, k)
    } else if stage_rank(s.stage) <= 2 && fpos < s.files.len() {
        (CleanStage::Files, fpos)
    } else if stage_rank(s.stage) <= 3 && s.recycle_requested {
        (CleanStage::Recycle, 0)
    } else {
        (CleanStage::Finished, 0)
    }
}

/// Whether `a` is the action that a clean in state `t` awaits the report of: the
/// backup, the deletion of the current registry item, the deletion of the current
/// file, emptying the recycle bin, or, at the end, nothing.
pub open spec fn hands_out(t: CleanState, a: CleanAction) -> bool {
    match t.stage {
        CleanStage::Backup => a is BackupRegistry,
        CleanStage::Registry => a matches CleanAction::DeleteRegistry(d) && item_plan(current_registry(t))
            == Ok::<(RegistryHive, Seq<char>, Seq<char>, bool), Seq<char>>(deletion_view(d)),
        CleanStage::Files => a matches CleanAction::DeletePath(p) && p@ == delete_path_of(current_file(t)),
        CleanStage::Recycle => a is EmptyRecycleBin,
        CleanStage::Finished => a is Done,
    }
}

/// Whether a clean of these registry items and files records errors under `p`: the
/// path of one of its registry items, the path that deleting one of its files removes,
/// the registry backup or the recycle bin.
pub open spec fn error_path_of(registry: Seq<JunkItem>, files: Seq<JunkItem>, p: Seq<char>) -> bool {
    ||| exists|k: int| 0 <= k < registry.len() && registry[k].path@ == p
    ||| exists|k: int| 0 <= k < files.len() && delete_path_of(files[k]) == p
    ||| p == "注册表备份"@
    ||| p == "回收站"@
}

/// Every error a clean has recorded is under one of its own paths.
pub open spec fn errors_from_targets(s: CleanState) -> bool {
    forall|j: int|
        0 <= j < s.result.errors@.len() ==> error_path_of(
            s.registry,
            s.files,
            (#[trigger] s.result.errors@[j]).path@,
        )
}

/// The consistency of a clean's state.
pub open spec fn clean_wf(s: CleanState) -> bool {
    &&& errors_from_targets(s)
    &&& s.stage == CleanStage::Registry ==> s.backup_ok && s.pos <= s.registry.len()
    &&& s.stage == CleanStage::Files ==> s.pos <= s.files.len()
    &&& s.stage == CleanStage::Backup ==> !s.backup_ok
    &&& s.awaiting ==> match s.stage {
        CleanStage::Backup => s.registry.len() > 0,
        CleanStage::Registry => s.pos < s.registry.len() && item_plan(s.registry[s.pos as int]) is Ok,
        CleanStage::Files => s.pos < s.files.len(),
        CleanStage::Recycle => s.recycle_requested,
        CleanStage::Finished => false,
    }
    &&& forall|k: int| 0 <= k < s.registry.len() ==> registry_item(#[trigger] s.registry[k])
    &&& s.result.success_count + s.result.fail_count == handled(s)
    &&& s.registry.len() + s.files.len() + (if s.recycle_requested {
        1nat
    } else {
        0nat
    }) <= usize::MAX
}

/// The registry item that the clean is at.
pub open spec fn current_registry(s: CleanState) -> JunkItem {
    s.registry[s.pos as int]
}

/// The file item that the clean is at.
pub open spec fn current_file(s: CleanState) -> JunkItem {
    s.files[s.pos as int]
}


/// `after` is `before` with one more error, for `path` and `reason`.
pub open spec fn one_more_error(
    before: Seq<CleanError>,
    after: Seq<CleanError>,
    path: Seq<char>,
    reason: Seq<char>,
) -> bool {
    &&& after.len() == before.len() + 1
    &&& after.take(before.len() as int) == before
    &&& after.last().path@ == path
    &&& after.last().reason@ == reason
}

/// Whether an event reports the work of the action that a clean awaits.
pub open spec fn answers(s: CleanState, e: CleanEvent) -> bool {
    s.awaiting && match (s.stage, e) {
        (CleanStage::Backup, CleanEvent::BackupDone(_)) => true,
        (CleanStage::Registry, CleanEvent::RegistryDone(_)) => true,
        (CleanStage::Files, CleanEvent::PathDone(_)) => true,
        (CleanStage::Recycle, CleanEvent::RecycleDone(_)) => true,
        _ => false,
    }
}

/// The state after a clean takes in the report of its awaited action.
pub open spec fn after_report(s: CleanState, t: CleanState, e: CleanEvent) -> bool {
    let r = s.result;
    let q = t.result;
    &&& t.registry == s.registry
    &&& t.files == s.files
    &&& t.recycle_requested == s.recycle_requested
    &&& !t.awaiting
    &&& match e {
        CleanEvent::BackupDone(Ok(_)) => {
            &&& t.stage == CleanStage::Registry && t.pos == 0 && t.backup_ok
            &&& q == r
        },
        CleanEvent::BackupDone(Err(m)) => {
            &&& t.stage == CleanStage::Files && t.pos == 0 && !t.backup_ok
            &&& q.success_count == r.success_count
            &&& q.fail_count == r.fail_count + s.registry.len()
            &&& q.freed_bytes == r.freed_bytes
            &&& one_more_error(r.errors@, q.errors@, "注册表备份"@, "备份失败，已中止注册表清理: "@ + m@)
        },
        CleanEvent::RegistryDone(o) => {
            &&& t.stage == s.stage && t.pos == s.pos + 1 && t.backup_ok == s.backup_ok
            &&& q.freed_bytes == r.freed_bytes
            &&& match outcome_error(o) {
                None => q.success_count == r.success_count + 1 && q.fail_count == r.fail_count
                    && q.errors == r.errors,
                Some(m) => q.success_count == r.success_count && q.fail_count == r.fail_count + 1
                    && one_more_error(r.errors@, q.errors@, current_registry(s).path@, m),
            }
        },
        CleanEvent::PathDone(o) => {
            &&& t.stage == s.stage && t.pos == s.pos + 1 && t.backup_ok == s.backup_ok
            &&& match delete_error(o) {
                None => q.success_count == r.success_count + 1 && q.fail_count == r.fail_count
                    && q.errors == r.errors && q.freed_bytes == vstd::wrapping::u64_specs::wrapping_add(
                    r.freed_bytes,
                    current_file(s).size,
                ),
                Some(m) => q.success_count == r.success_count && q.fail_count == r.fail_count + 1
                    && q.freed_bytes == r.freed_bytes && one_more_error(
                    r.errors@,
                    q.errors@,
                    delete_path_of(current_file(s)),
                    m,
                ),
            }
        },
        CleanEvent::RecycleDone(Ok(freed)) => {
            &&& t.stage == CleanStage::Finished && t.pos == s.pos && t.backup_ok == s.backup_ok
            &&& q.success_count == r.success_count + 1 && q.fail_count == r.fail_count
            &&& q.errors == r.errors
            &&& q.freed_bytes == vstd::wrapping::u64_specs::wrapping_add(r.freed_bytes, freed)
        },
        CleanEvent::RecycleDone(Err(m)) => {
            &&& t.stage == CleanStage::Finished && t.pos == s.pos && t.backup_ok == s.backup_ok
            &&& q.success_count == r.success_count && q.fail_count == r.fail_count + 1
            &&& q.freed_bytes == r.freed_bytes
            &&& one_more_error(r.errors@, q.errors@, "回收站"@, m@)
        },
    }
}

/// Starts cleaning the selected items that may be cleaned.
pub fn clean_selected(items: &Vec<JunkItem>, is_admin: bool) -> (r: CleanSession)
    ensures
        clean_wf(r@),
        r@.registry == items@.filter(registry_target(is_admin)),
        r@.files == items@.filter(file_target(is_admin)),
        r@.recycle_requested == recycle_wanted(items@, is_admin),
        r@.stage == CleanStage::Backup,
        r@.pos == 0,
        !r@.awaiting,
        !r@.backup_ok,
        r@.result.success_count == 0,
        r@.result.fail_count == 0,
        r@.result.freed_bytes == 0,
        r@.result.errors@.len() == 0,
{
    let ghost pr = registry_target(is_admin);
    let ghost pf = file_target(is_admin);
    let mut registry: Vec<JunkItem> = Vec::new();
    let mut files: Vec<JunkItem> = Vec::new();
    let mut recycle = false;
    let n = items.len();
    for i in 0..n
        invariant
            n == items.len(),
            pr == registry_target(is_admin),
            pf == file_target(is_admin),
            registry@ == items@.take(i as int).filter(pr),
            files@ == items@.take(i as int).filter(pf),
            registry@.len() + files@.len() + (if recycle {
                1nat
            } else {
                0nat
            }) <= i,
            recycle <==> exists|k: int|
                0 <= k < i && items@[k].selected && cleanable(items@[k], is_admin) && !registry_item(
                    items@[k],
                ) && items@[k].is_recycle_bin,
    {
        let item = &items[i];
        proof {
            let t = items@.take(i + 1);
            assert(t == items@.take(i as int).push(items@[i as int]));
            items@.take(i as int).lemma_filter_push(items@[i as int], pr);
            items@.take(i as int).lemma_filter_push(items@[i as int], pf);
        }
        if item.selected && item.can_clean(is_admin) {
            if item.is_registry() {
                registry.push(item.clone());
            } else if item.is_recycle_bin {
                recycle = true;
            } else {
                files.push(item.clone());
            }
        }
    }
    assert(items@.take(n as int) == items@);
    proof {
        assert forall|k: int| 0 <= k < registry@.len() implies registry_item(#[trigger] registry@[k]) by {
            items@.lemma_filter_pred(pr, k);
        }
    }
    CleanSession {
        registry,
        files,
        recycle_requested: recycle,
        stage: CleanStage::Backup,
        pos: 0,
        awaiting: false,
        backup_ok: false,
        result: CleanResult::default(),
    }
}

impl CleanSession {
    /// The registry items of this clean, as the backup is to hold them.
    pub fn registry_items(&self) -> (r: &Vec<JunkItem>)
        ensures
            r@ == self@.registry,
    {
        &self.registry
    }

    /// The outcome so far.
    pub fn result(&self) -> (r: &CleanResult)
        ensures
            *r == self@.result,
    {
        &self.result
    }

    /// The outcome, once the clean is over.
    pub fn into_result(self) -> (r: CleanResult)
        ensures
            r == self@.result,
    {
        self.result
    }

    /// The action that this clean awaits the report of, handed out again.
    fn awaited_action(&self) -> (a: CleanAction)
        requires
            clean_wf(self@),
            self@.awaiting,
        ensures
            hands_out(self@, a),
    {
        match self.stage {
            CleanStage::Backup => CleanAction::BackupRegistry,
            CleanStage::Registry => {
                let plan = match &self.registry[self.pos].target {
                    JunkTarget::RegistryKey { key, value_name } => registry_deletion(key.as_str(), value_name),
                    JunkTarget::File(_) => {
                        proof {
                            assert(registry_item(self@.registry[self.pos as int]));
                        }
                        return CleanAction::Done;
                    },
                };
                match plan {
                    Ok(d) => CleanAction::DeleteRegistry(d),
                    Err(_) => {
                        proof {
                            assert(item_plan(current_registry(self@)) is Ok);
                        }
                        CleanAction::Done
                    },
                }
            },
            CleanStage::Files => {
                let path = match &self.files[self.pos].target {
                    JunkTarget::File(p) => p.clone(),
                    JunkTarget::RegistryKey { .. } => self.files[self.pos].path.clone(),
                };
                CleanAction::DeletePath(path)
            },
            CleanStage::Recycle => CleanAction::EmptyRecycleBin,
            CleanStage::Finished => CleanAction::Done,
        }
    }

    /// The next piece of outside work. When an action already awaits its report, the
    /// same action is handed out again and nothing changes. Otherwise the clean moves
    /// to `next_stop` and hands out what is due there; a registry item whose deletion is
    /// refused is recorded as failed on the way, with the reason. Only `report` records
    /// successes and freed bytes.
    pub fn next_action(&mut self) -> (a: CleanAction)
        requires
            clean_wf(old(self)@),
        ensures
            clean_wf(final(self)@),
            final(self)@.registry == old(self)@.registry,
            final(self)@.files == old(self)@.files,
            final(self)@.recycle_requested == old(self)@.recycle_requested,
            final(self)@.backup_ok == old(self)@.backup_ok,
            final(self)@.result.freed_bytes == old(self)@.result.freed_bytes,
            final(self)@.result.success_count == old(self)@.result.success_count,
            stage_rank(final(self)@.stage) >= stage_rank(old(self)@.stage),
            hands_out(final(self)@, a),
            old(self)@.awaiting ==> final(self)@ == old(self)@,
            !old(self)@.awaiting ==> ({
                let stop = next_stop(old(self)@);
                let hi = if old(self)@.stage == CleanStage::Registry {
                    next_deletable(old(self)@.registry, old(self)@.pos as int)
                } else {
                    old(self)@.pos as int
                };
                &&& final(self)@.stage == stop.0
                &&& (stop.0 == CleanStage::Registry || stop.0 == CleanStage::Files) ==> final(self)@.pos == stop.1
                &&& final(self)@.awaiting == (stop.0 != CleanStage::Finished)
                &&& final(self)@.result.fail_count == old(self)@.result.fail_count + (hi - old(self)@.pos)
                &&& refusals_added(
                    old(self)@.result.errors@,
                    final(self)@.result.errors@,
                    old(self)@.registry,
                    old(self)@.pos as int,
                    hi,
                )
            }),
    {
        if self.awaiting {
            return self.awaited_action();
        }
        let ghost s0 = self@;
        let ghost errs0 = self.result.errors@;
        proof {
            assert(errs0.take(errs0.len() as int) == errs0);
        }
        if self.stage == CleanStage::Backup {
            if self.registry.len() > 0 {
                self.awaiting = true;
                return CleanAction::BackupRegistry;
            }
            self.stage = CleanStage::Files;
            self.pos = 0;
        }
        if self.stage == CleanStage::Registry {
            let ghost lo = self.pos as int;
            while self.pos < self.registry.len()
                invariant
                    clean_wf(self@),
                    !self.awaiting,
                    self.stage == CleanStage::Registry,
                    s0 == old(self)@,
                    s0.stage == CleanStage::Registry,
                    !s0.awaiting,
                    lo == s0.pos,
                    lo <= self.pos,
                    self@.registry == s0.registry,
                    self@.files == s0.files,
                    self@.recycle_requested == s0.recycle_requested,
                    self@.backup_ok == s0.backup_ok,
                    self@.result.freed_bytes == s0.result.freed_bytes,
                    self@.result.success_count == s0.result.success_count,
                    self@.result.fail_count == s0.result.fail_count + (self.pos - lo),
                    errs0 == s0.result.errors@,
                    next_deletable(s0.registry, lo) == next_deletable(s0.registry, self.pos as int),
                    refusals_added(errs0, self.result.errors@, s0.registry, lo, self.pos as int),
                decreases self.registry.len() - self.pos,
            {
                let plan = match &self.registry[self.pos].target {
                    JunkTarget::RegistryKey { key, value_name } => registry_deletion(key.as_str(), value_name),
                    JunkTarget::File(_) => {
                        proof {
                            assert(registry_item(self@.registry[self.pos as int]));
                        }
                        return CleanAction::Done;
                    },
                };
                match plan {
                    Ok(d) => {
                        self.awaiting = true;
                        return CleanAction::DeleteRegistry(d);
                    },
                    Err(e) => {
                        let path = self.registry[self.pos].path.clone();
                        let ghost before = self.result.errors@;
                        proof {
                            assert(error_path_of(self@.registry, self@.files, path@)) by {
                                assert(self@.registry[self.pos as int].path@ == path@);
                            }
                        }
                        self.push_error(path, e);
                        self.result.fail_count = self.result.fail_count + 1;
                        proof {
                            let after = self.result.errors@;
                            assert(after.take(errs0.len() as int) == before.take(errs0.len() as int));
                            assert forall|j: int| 0 <= j < self.pos + 1 - lo implies (#[trigger] after[errs0.len() + j]).path@
                                == s0.registry[lo + j].path@ && item_plan(s0.registry[lo + j]) == Err::<
                                (RegistryHive, Seq<char>, Seq<char>, bool),
                                Seq<char>,
                            >(after[errs0.len() + j].reason@) by {
                                if j < self.pos - lo {
                                    assert(after[errs0.len() + j] == before[errs0.len() + j]);
                                }
                            }
                        }
                        self.pos = self.pos + 1;
                    },
                }
            }
            self.stage = CleanStage::Files;
            self.pos = 0;
        }
        if self.stage == CleanStage::Files {
            if self.pos < self.files.len() {
                self.awaiting = true;
                let path = match &self.files[self.pos].target {
                    JunkTarget::File(p) => p.clone(),
                    JunkTarget::RegistryKey { .. } => self.files[self.pos].path.clone(),
                };
                return CleanAction::DeletePath(path);
            }
            self.stage = CleanStage::Recycle;
        }
        if self.stage == CleanStage::Recycle {
            if self.recycle_requested {
                self.awaiting = true;
                return CleanAction::EmptyRecycleBin;
            }
            self.stage = CleanStage::Finished;
        }
        self.awaiting = false;
        CleanAction::Done
    }

    fn push_error(&mut self, path: String, reason: String)
        requires
            errors_from_targets(old(self)@),
            error_path_of(old(self)@.registry, old(self)@.files, path@),
        ensures
            errors_from_targets(final(self)@),
            final(self)@ == (CleanState {
                result: CleanResult { errors: final(self)@.result.errors, ..old(self)@.result },
                ..old(self)@
            }),
            one_more_error(old(self)@.result.errors@, final(self)@.result.errors@, path@, reason@),
    {
        let ghost before = self.result.errors@;
        let ghost pv = path@;
        self.result.errors.push(CleanError { path, reason });
        assert(self.result.errors@.take(before.len() as int) == before);
        assert forall|j: int| 0 <= j < self.result.errors@.len() implies error_path_of(
            self@.registry,
            self@.files,
            (#[trigger] self.result.errors@[j]).path@,
        ) by {
            if j < before.len() {
                assert(self.result.errors@[j] == before[j]);
            } else {
                assert(self.result.errors@[j].path@ == pv);
            }
        }
    }

    /// Takes in the report of the awaited action. A report that does not answer the
    /// awaited action is ignored; the result tells whether it was taken in.
    pub fn report(&mut self, event: CleanEvent) -> (taken: bool)
        requires
            clean_wf(old(self)@),
        ensures
            clean_wf(final(self)@),
            taken == answers(old(self)@, event),
            taken ==> after_report(old(self)@, final(self)@, event),
            !taken ==> final(self)@ == old(self)@,
    {
        if !self.awaiting {
            return false;
        }
        match (self.stage, event) {
            (CleanStage::Backup, CleanEvent::BackupDone(outcome)) => {
                match outcome {
                    Ok(_) => {
                        self.stage = CleanStage::Registry;
                        self.pos = 0;
                        self.backup_ok = true;
                    },
                    Err(e) => {
                        let mut reason = chars_of("备份失败，已中止注册表清理: ");
                        extend_str(&mut reason, e.as_str());
                        self.push_error(String::from_str("注册表备份"), string_of(&reason));
                        self.result.fail_count = self.result.fail_count + self.registry.len();
                        self.stage = CleanStage::Files;
                        self.pos = 0;
                    },
                }
                self.awaiting = false;
                true
            },
            (CleanStage::Registry, CleanEvent::RegistryDone(o)) => {
                match registry_outcome_error(o) {
                    None => {
                        self.result.success_count = self.result.success_count + 1;
                    },
                    Some(m) => {
                        let path = self.registry[self.pos].path.clone();
                        self.push_error(path, m);
                        self.result.fail_count = self.result.fail_count + 1;
                    },
                }
                self.pos = self.pos + 1;
                self.awaiting = false;
                true
            },
            (CleanStage::Files, CleanEvent::PathDone(o)) => {
                match delete_error_text(&o) {
                    None => {
                        self.result.success_count = self.result.success_count + 1;
                        self.result.freed_bytes = self.result.freed_bytes.wrapping_add(
                            self.files[self.pos].size,
                        );
                    },
                    Some(m) => {
                        let path = match &self.files[self.pos].target {
                            JunkTarget::File(p) => p.clone(),
                            JunkTarget::RegistryKey { .. } => self.files[self.pos].path.clone(),
                        };
                        self.push_error(path, m);
                        self.result.fail_count = self.result.fail_count + 1;
                    },
                }
                self.pos = self.pos + 1;
                self.awaiting = false;
                true
            },
            (CleanStage::Recycle, CleanEvent::RecycleDone(outcome)) => {
                match outcome {
                    Ok(freed) => {
                        self.result.success_count = self.result.success_count + 1;
                        self.result.freed_bytes = self.result.freed_bytes.wrapping_add(freed);
                    },
                    Err(e) => {
                        self.push_error(String::from_str("回收站"), e);
                        self.result.fail_count = self.result.fail_count + 1;
                    },
                }
                self.stage = CleanStage::Finished;
                self.awaiting = false;
                true
            },
            _ => false,
        }
    }
}


// ---------------------------------------------------------------------------
// The registry backup
// ---------------------------------------------------------------------------

/// The lines that introduce the backup manifest.
pub open spec fn manifest_header() -> Seq<char> {
    "Windows Registry Editor Version 5.00\r\n\r\n"@ + "; BGXiong Clear Helper — registry deletion manifest\r\n"@
        + "; This file lists keys/values that were removed. Per-key exports\r\n"@
        + "; (if successful) are saved alongside as export-N.reg for restore.\r\n\r\n"@
}

/// The manifest lines for the item at position `i`: its key, its value name and the
/// reason it was found, each as a comment; nothing for an item that is no registry entry.
pub open spec fn manifest_entry(i: nat, item: JunkItem) -> Seq<char> {
    match item.target {
        JunkTarget::RegistryKey { key, value_name } => "; ["@ + decimal(i) + "] KEY: "@ + key@
            + "\r\n"@ + match value_name {
            Some(v) => ";     VALUE: "@ + v@ + "\r\n"@,
            None => Seq::empty(),
        } + match item.skip_reason {
            Some(r) => ";     "@ + r@ + "\r\n"@,
            None => Seq::empty(),
        } + "\r\n"@,
        JunkTarget::File(_) => Seq::empty(),
    }
}

/// The manifest lines for all items, in order.
pub open spec fn manifest_entries(items: Seq<JunkItem>) -> Seq<char>
    decreases items.len(),
{
    if items.len() == 0 {
        Seq::empty()
    } else {
        manifest_entries(items.drop_last()) + manifest_entry((items.len() - 1) as nat, items.last())
    }
}

fn manifest_entry_text(i: usize, item: &JunkItem) -> (r: Vec<char>)
    ensures
        r@ == manifest_entry(i as nat, *item),
{
    match &item.target {
        JunkTarget::RegistryKey { key, value_name } => {
            let mut out = chars_of("; [");
            extend_chars(&mut out, &decimal_chars(i as u64));
            extend_str(&mut out, "] KEY: ");
            extend_str(&mut out, key.as_str());
            extend_str(&mut out, "\r\n");
            let ghost a = out@;
            let mut value_part: Vec<char> = Vec::new();
            match value_name {
                Some(v) => {
                    extend_str(&mut value_part, ";     VALUE: ");
                    extend_str(&mut value_part, v.as_str());
                    extend_str(&mut value_part, "\r\n");
                },
                None => {},
            }
            let mut reason_part: Vec<char> = Vec::new();
            match &item.skip_reason {
                Some(r) => {
                    extend_str(&mut reason_part, ";     ");
                    extend_str(&mut reason_part, r.as_str());
                    extend_str(&mut reason_part, "\r\n");
                },
                None => {},
            }
            extend_chars(&mut out, &value_part);
            extend_chars(&mut out, &reason_part);
            extend_str(&mut out, "\r\n");
            out
        },
        JunkTarget::File(_) => Vec::new(),
    }
}

/// The text of the backup manifest that lists the registry entries about to be deleted.
pub fn backup_manifest(items: &Vec<JunkItem>) -> (r: String)
    ensures
        r@ == manifest_header() + manifest_entries(items@),
{
    let mut out = chars_of("Windows Registry Editor Version 5.00\r\n\r\n");
    extend_str(&mut out, "; BGXiong Clear Helper — registry deletion manifest\r\n");
    extend_str(&mut out, "; This file lists keys/values that were removed. Per-key exports\r\n");
    extend_str(&mut out, "; (if successful) are saved alongside as export-N.reg for restore.\r\n\r\n");
    let ghost header = out@;
    assert(header == manifest_header());
    assert(items@.take(0) == Seq::<JunkItem>::empty());
    for i in 0..items.len()
        invariant
            header == manifest_header(),
            out@ == header + manifest_entries(items@.take(i as int)),
    {
        let entry = manifest_entry_text(i, &items[i]);
        let ghost before = out@;
        extend_chars(&mut out, &entry);
        proof {
            let t = items@.take(i + 1);
            assert(t.drop_last() == items@.take(i as int));
            assert(t.last() == items@[i as int]);
            assert(out@ == header + (manifest_entries(items@.take(i as int)) + entry@));
        }
    }
    assert(items@.take(items.len() as int) == items@);
    string_of(&out)
}

/// The UTF-16 code units of one character.
pub open spec fn utf16_of(c: char) -> Seq<u16> {
    let v = c as u32 as nat;
    if v < 0x10000 {
        seq![v as u16]
    } else {
        let w = (v - 0x10000) as nat;
        seq![(0xD800 + w / 1024) as u16, (0xDC00 + w % 1024) as u16]
    }
}

/// The little-endian bytes of a code unit.
pub open spec fn le_bytes(u: u16) -> Seq<u8> {
    seq![(u % 256) as u8, (u / 256) as u8]
}

/// The UTF-16 little-endian bytes of a text.
pub open spec fn utf16le(s: Seq<char>) -> Seq<u8>
    decreases s.len(),
{
    if s.len() == 0 {
        Seq::empty()
    } else {
        utf16le(s.drop_last()) + utf16_of(s.last()).fold_left(
            Seq::<u8>::empty(),
            |acc: Seq<u8>, u: u16| acc + le_bytes(u),
        )
    }
}

fn push_unit(out: &mut Vec<u8>, u: u16)
    ensures
        final(out)@ == old(out)@ + le_bytes(u),
{
    out.push((u % 256) as u8);
    out.push((u / 256) as u8);
    assert(final(out)@ == old(out)@ + le_bytes(u));
}

/// A text as UTF-16 little-endian bytes after the byte-order mark `FF FE`, as
/// registry files are written.
pub fn utf16le_with_bom(text: &str) -> (r: Vec<u8>)
    ensures
        r@ == seq![0xFFu8, 0xFEu8] + utf16le(text@),
{
    let mut out: Vec<u8> = Vec::new();
    out.push(0xFF);
    out.push(0xFE);
    let chars = chars_of(text);
    assert(chars@.take(0) == Seq::<char>::empty());
    for i in 0..chars.len()
        invariant
            out@ == seq![0xFFu8, 0xFEu8] + utf16le(chars@.take(i as int)),
    {
        let ghost before = out@;
        let c = chars[i];
        let v: u32 = c as u32;
        if v < 0x10000 {
            push_unit(&mut out, v as u16);
            proof {
                reveal_with_fuel(Seq::fold_left, 2);
            }
            assert(out@ == before + utf16_of(c).fold_left(
                Seq::<u8>::empty(),
                |acc: Seq<u8>, u: u16| acc + le_bytes(u),
            ));
        } else {
            let w: u32 = v - 0x10000;
            push_unit(&mut out, (0xD800 + w / 1024) as u16);
            push_unit(&mut out, (0xDC00 + w % 1024) as u16);
            proof {
                reveal_with_fuel(Seq::fold_left, 3);
            }
            assert(out@ == before + utf16_of(c).fold_left(
                Seq::<u8>::empty(),
                |acc: Seq<u8>, u: u16| acc + le_bytes(u),
            ));
        }
        proof {
            let t = chars@.take(i + 1);
            assert(t.drop_last() == chars@.take(i as int));
            assert(t.last() == c);
        }
    }
    assert(chars@.take(chars.len() as int) == chars@);
    out
}

/// The directory in which the registry backup directory is made.
pub open spec fn backup_base(temp: Option<String>, tmp: Option<String>) -> Seq<char> {
    match temp {
        Some(t) => t@,
        None => match tmp {
            Some(t) => t@,
            None => "C:\\Windows\\Temp"@,
        },
    }
}

/// The directory that registry backups go to: `bgxiong-reg-backup` in `%TEMP%`, else in
/// `%TMP%`, else in `C:\Windows\Temp` (the values of the variables given, when set).
pub fn backup_dir(temp: Option<String>, tmp: Option<String>) -> (r: String)
    ensures
        r@ == joined(backup_base(temp, tmp), "bgxiong-reg-backup"@),
{
    let base = match &temp {
        Some(t) => t.clone(),
        None => match &tmp {
            Some(t) => t.clone(),
            None => String::from_str("C:\\Windows\\Temp"),
        },
    };
    join_path(base.as_str(), "bgxiong-reg-backup")
}

/// The name of the backup manifest written at `timestamp` (seconds since 1970):
/// `<timestamp>.reg`.
pub fn backup_file_name(timestamp: u64) -> (r: String)
    ensures
        r@ == decimal(timestamp as nat) + ".reg"@,
{
    let mut out = decimal_chars(timestamp);
    extend_str(&mut out, ".reg");
    string_of(&out)
}

/// The name of the export of the registry item at position `index`.
pub fn export_file_name(index: usize) -> (r: String)
    ensures
        r@ == "export-"@ + decimal(index as nat) + ".reg"@,
{
    let mut out = chars_of("export-");
    extend_chars(&mut out, &decimal_chars(index as u64));
    extend_str(&mut out, ".reg");
    string_of(&out)
}

} // verus!
