//! The registry of background library scan operations: which operation is
//! active for each scope, and the state of each operation as it is queued,
//! run, retried, cancelled and completed.

use vstd::prelude::*;
use crate::ids::{hyphenated_form, hyphenated_id};
use crate::text::{push_char, starts_with, starts_with_seq, str_eq};

verus! {

/// Operations kept in the registry once older ones may be dropped.
pub const KEEP_LATEST: usize = 100;

/// Attempts made before a scan that keeps failing on the database is given up.
pub const MAX_ATTEMPTS: i32 = 3;

/// Status of a scan operation.
#[derive(Clone, Copy, Debug, PartialEq, Eq, Structural)]
pub enum ScanStatus {
    Queued,
    Running,
    Cancelling,
    Succeeded,
    Failed,
    Cancelled,
}

/// Phase of a scan operation, as its `Phase` text shows it.
#[derive(Debug, PartialEq, Eq)]
pub enum ScanPhase {
    Queued,
    CollectingFiles,
    /// Retrying with the given attempt number.
    Retrying(i32),
    Cancelled,
    Completed,
    Failed,
    /// A phase reported by the running scan.
    Reported(String),
}

/// Totals of a finished scan.
#[derive(Clone, Copy, Debug, PartialEq, Eq, Structural)]
pub struct ScanSummary {
    pub libraries: usize,
    pub scanned_files: usize,
    pub imported_items: usize,
}

/// Progress reported by a running scan.
pub struct ScanSnapshot {
    pub phase: String,
    pub current_library: Option<String>,
    pub total_files: u64,
    pub scanned_files: u64,
    pub imported_items: u64,
}

/// One scan operation. Times are in milliseconds since the Unix epoch.
#[derive(Debug)]
pub struct ScanOperation {
    pub id: u128,
    pub trigger: String,
    pub scope_key: String,
    pub library_id: Option<u128>,
    pub library_name: Option<String>,
    pub status: ScanStatus,
    pub phase: ScanPhase,
    pub current_library: Option<String>,
    pub total_files: u64,
    pub scanned_files: u64,
    pub imported_items: u64,
    pub created_at: i64,
    pub started_at: Option<i64>,
    pub completed_at: Option<i64>,
    pub attempts: i32,
    pub max_attempts: i32,
    pub result: Option<ScanSummary>,
    pub error: Option<String>,
    pub cancel_requested: bool,
}

/// A finished status: succeeded, failed or cancelled.
pub open spec fn status_done(s: ScanStatus) -> bool {
    s == ScanStatus::Succeeded || s == ScanStatus::Failed || s == ScanStatus::Cancelled
}

impl ScanStatus {
    /// Whether the status is finished.
    pub fn is_done(&self) -> (r: bool)
        ensures
            r == status_done(*self),
    {
        match self {
            ScanStatus::Succeeded | ScanStatus::Failed | ScanStatus::Cancelled => true,
            _ => false,
        }
    }

    /// Whether the status is `Queued`.
    pub fn is_queued(&self) -> (r: bool)
        ensures
            r == (*self == ScanStatus::Queued),
    {
        match self {
            ScanStatus::Queued => true,
            _ => false,
        }
    }

    /// Whether the status is running or being cancelled.
    pub fn is_running(&self) -> (r: bool)
        ensures
            r == (*self == ScanStatus::Running || *self == ScanStatus::Cancelling),
    {
        match self {
            ScanStatus::Running | ScanStatus::Cancelling => true,
            _ => false,
        }
    }

    /// The status text.
    pub fn name(&self) -> (r: &'static str)
        ensures
            r@ == status_name(*self),
    {
        match self {
            ScanStatus::Queued => "Queued",
            ScanStatus::Running => "Running",
            ScanStatus::Cancelling => "Cancelling",
            ScanStatus::Succeeded => "Succeeded",
            ScanStatus::Failed => "Failed",
            ScanStatus::Cancelled => "Cancelled",
        }
    }
}

pub open spec fn status_name(s: ScanStatus) -> Seq<char> {
    match s {
        ScanStatus::Queued => "Queued"@,
        ScanStatus::Running => "Running"@,
        ScanStatus::Cancelling => "Cancelling"@,
        ScanStatus::Succeeded => "Succeeded"@,
        ScanStatus::Failed => "Failed"@,
        ScanStatus::Cancelled => "Cancelled"@,
    }
}

/// Link at which a client follows an operation.
pub open spec fn monitor_url_of(id: u128) -> Seq<char> {
    "/api/admin/scan/operations/"@ + hyphenated_form(id)
}

impl ScanOperation {
    /// Whether the operation is finished.
    pub fn is_done(&self) -> (r: bool)
        ensures
            r == status_done(self.status),
    {
        self.status.is_done()
    }

    /// The link at which a client follows the operation.
    pub fn monitor_url(&self) -> (r: String)
        ensures
            r@ == monitor_url_of(self.id),
    {
        let mut out = String::from_str("/api/admin/scan/operations/");
        let id = hyphenated_id(self.id);
        out.append(id.as_str());
        out
    }

    /// An equal copy of the operation.
    pub fn duplicate(&self) -> (r: Self)
        ensures
            r == *self,
    {
        ScanOperation {
            id: self.id,
            trigger: self.trigger.clone(),
            scope_key: self.scope_key.clone(),
            library_id: self.library_id,
            library_name: clone_opt(&self.library_name),
            status: self.status,
            phase: clone_phase(&self.phase),
            current_library: clone_opt(&self.current_library),
            total_files: self.total_files,
            scanned_files: self.scanned_files,
            imported_items: self.imported_items,
            created_at: self.created_at,
            started_at: self.started_at,
            completed_at: self.completed_at,
            attempts: self.attempts,
            max_attempts: self.max_attempts,
            result: self.result,
            error: clone_opt(&self.error),
            cancel_requested: self.cancel_requested,
        }
    }
}

/// A scan operation as shown to clients. Times are in milliseconds since
/// the Unix epoch.
pub struct ScanOperationView {
    pub id: String,
    pub trigger: String,
    pub scope_key: String,
    pub library_id: Option<String>,
    pub library_name: Option<String>,
    pub status: String,
    pub phase: String,
    pub current_library: Option<String>,
    pub total_files: u64,
    pub scanned_files: u64,
    pub imported_items: u64,
    pub queued: bool,
    pub running: bool,
    pub done: bool,
    pub cancel_requested: bool,
    pub created_at: i64,
    pub started_at: Option<i64>,
    pub completed_at: Option<i64>,
    pub attempts: i32,
    pub max_attempts: i32,
    pub result: Option<ScanSummary>,
    pub error: Option<String>,
    pub monitor_url: String,
}

/// Whether `v` shows the operation `op`.
pub open spec fn shows_operation(v: ScanOperationView, op: ScanOperation) -> bool {
    &&& v.id@ == hyphenated_form(op.id)
    &&& v.trigger@ == op.trigger@
    &&& v.scope_key@ == op.scope_key@
    &&& (match (v.library_id, op.library_id) {
        (Some(t), Some(id)) => t@ == hyphenated_form(id),
        (None, None) => true,
        _ => false,
    })
    &&& v.library_name == op.library_name
    &&& v.status@ == status_name(op.status)
    &&& v.phase@ == phase_text(op.phase)
    &&& v.current_library == op.current_library
    &&& v.total_files == op.total_files
    &&& v.scanned_files == op.scanned_files
    &&& v.imported_items == op.imported_items
    &&& v.queued == (op.status == ScanStatus::Queued)
    &&& v.running == (op.status == ScanStatus::Running || op.status == ScanStatus::Cancelling)
    &&& v.done == status_done(op.status)
    &&& v.cancel_requested == op.cancel_requested
    &&& v.created_at == op.created_at
    &&& v.started_at == op.started_at
    &&& v.completed_at == op.completed_at
    &&& v.attempts == op.attempts
    &&& v.max_attempts == op.max_attempts
    &&& v.result == op.result
    &&& v.error == op.error
    &&& v.monitor_url@ == monitor_url_of(op.id)
}

impl ScanOperation {
    /// The operation as shown to clients, as `shows_operation` states.
    pub fn to_dto(&self) -> (r: ScanOperationView)
        ensures
            shows_operation(r, *self),
    {
        ScanOperationView {
            id: hyphenated_id(self.id),
            trigger: self.trigger.clone(),
            scope_key: self.scope_key.clone(),
            library_id: match self.library_id {
                Some(id) => Some(hyphenated_id(id)),
                None => None,
            },
            library_name: clone_opt(&self.library_name),
            status: String::from_str(self.status.name()),
            phase: self.phase.text(),
            current_library: clone_opt(&self.current_library),
            total_files: self.total_files,
            scanned_files: self.scanned_files,
            imported_items: self.imported_items,
            queued: self.status.is_queued(),
            running: self.status.is_running(),
            done: self.is_done(),
            cancel_requested: self.cancel_requested,
            created_at: self.created_at,
            started_at: self.started_at,
            completed_at: self.completed_at,
            attempts: self.attempts,
            max_attempts: self.max_attempts,
            result: self.result,
            error: clone_opt(&self.error),
            monitor_url: self.monitor_url(),
        }
    }
}

/// The text of a phase.
pub open spec fn phase_text(p: ScanPhase) -> Seq<char> {
    match p {
        ScanPhase::Queued => "Queued"@,
        ScanPhase::CollectingFiles => "CollectingFiles"@,
        ScanPhase::Retrying(a) => "Retrying("@ + crate::text::int_decimal(a as int) + "/3)"@,
        ScanPhase::Cancelled => "Cancelled"@,
        ScanPhase::Completed => "Completed"@,
        ScanPhase::Failed => "Failed"@,
        ScanPhase::Reported(s) => s@,
    }
}

impl ScanPhase {
    /// The phase text shown to clients.
    pub fn text(&self) -> (r: String)
        ensures
            r@ == phase_text(*self),
    {
        match self {
            ScanPhase::Queued => String::from_str("Queued"),
            ScanPhase::CollectingFiles => String::from_str("CollectingFiles"),
            ScanPhase::Retrying(a) => {
                let mut out = String::from_str("Retrying(");
                let n = crate::text::i64_to_string(*a as i64);
                out.append(n.as_str());
                out.append("/3)");
                out
            },
            ScanPhase::Cancelled => String::from_str("Cancelled"),
            ScanPhase::Completed => String::from_str("Completed"),
            ScanPhase::Failed => String::from_str("Failed"),
            ScanPhase::Reported(s) => s.clone(),
        }
    }
}

fn clone_opt(v: &Option<String>) -> (r: Option<String>)
    ensures
        r == *v,
{
    match v {
        Some(s) => Some(s.clone()),
        None => None,
    }
}

fn clone_phase(p: &ScanPhase) -> (r: ScanPhase)
    ensures
        r == *p,
{
    match p {
        ScanPhase::Queued => ScanPhase::Queued,
        ScanPhase::CollectingFiles => ScanPhase::CollectingFiles,
        ScanPhase::Retrying(a) => ScanPhase::Retrying(*a),
        ScanPhase::Cancelled => ScanPhase::Cancelled,
        ScanPhase::Completed => ScanPhase::Completed,
        ScanPhase::Failed => ScanPhase::Failed,
        ScanPhase::Reported(s) => ScanPhase::Reported(s.clone()),
    }
}


/// Operation ids strictly increase along the sequence.
pub open spec fn sorted_ids(ops: Seq<ScanOperation>) -> bool {
    forall|i: int, j: int| 0 <= i < j < ops.len() ==> ops[i].id < ops[j].id
}

pub open spec fn has_op(ops: Seq<ScanOperation>, id: u128) -> bool {
    exists|i: int| 0 <= i < ops.len() && ops[i].id == id
}

/// The operation with the given id.
pub open spec fn lookup(ops: Seq<ScanOperation>, id: u128) -> Option<ScanOperation> {
    if has_op(ops, id) {
        Some(ops[choose|i: int| 0 <= i < ops.len() && ops[i].id == id])
    } else {
        None
    }
}

/// No scope appears twice among the active entries.
pub open spec fn scopes_unique(active: Seq<(String, u128)>) -> bool {
    forall|i: int, j: int| 0 <= i < j < active.len() ==> active[i].0@ != active[j].0@
}

pub open spec fn has_scope(active: Seq<(String, u128)>, scope: Seq<char>) -> bool {
    exists|i: int| 0 <= i < active.len() && active[i].0@ == scope
}

/// The active operation of a scope.
pub open spec fn active_for(active: Seq<(String, u128)>, scope: Seq<char>) -> Option<u128> {
    if has_scope(active, scope) {
        Some(active[choose|i: int| 0 <= i < active.len() && active[i].0@ == scope].1)
    } else {
        None
    }
}

/// Whether an operation is the active one of some scope.
pub open spec fn is_active_id(active: Seq<(String, u128)>, id: u128) -> bool {
    exists|i: int| 0 <= i < active.len() && active[i].1 == id
}

/// Drops the operations with the smallest ids while more than
/// `KEEP_LATEST` are kept, stopping at the first one that is active.
pub open spec fn prune(ops: Seq<ScanOperation>, active: Seq<(String, u128)>) -> Seq<ScanOperation>
    decreases ops.len(),
{
    if ops.len() > KEEP_LATEST && !is_active_id(active, ops[0].id) {
        prune(ops.drop_first(), active)
    } else {
        ops
    }
}

/// `new` holds `op` under its id and otherwise the operations of `old`,
/// in id order.
pub open spec fn stored(old: Seq<ScanOperation>, new: Seq<ScanOperation>, op: ScanOperation) -> bool {
    &&& sorted_ids(new)
    &&& lookup(new, op.id) == Some(op)
    &&& forall|x: u128| x != op.id ==> lookup(new, x) == lookup(old, x)
}

/// `new` holds the active entries of `old`, except that `scope` maps to `id`.
pub open spec fn activated(
    old: Seq<(String, u128)>,
    new: Seq<(String, u128)>,
    scope: Seq<char>,
    id: u128,
) -> bool {
    &&& scopes_unique(new)
    &&& active_for(new, scope) == Some(id)
    &&& forall|s: Seq<char>| s != scope ==> active_for(new, s) == active_for(old, s)
    &&& forall|x: u128| is_active_id(new, x) <==> (x == id || exists|i: int|
        0 <= i < old.len() && old[i].1 == x && old[i].0@ != scope)
}

/// `new` holds the active entries of `old`, without `scope` when its active
/// operation is `id`.
pub open spec fn released(
    old: Seq<(String, u128)>,
    new: Seq<(String, u128)>,
    scope: Seq<char>,
    id: u128,
) -> bool {
    &&& scopes_unique(new)
    &&& active_for(new, scope) == (if active_for(old, scope) == Some(id) {
        None
    } else {
        active_for(old, scope)
    })
    &&& forall|s: Seq<char>| s != scope ==> active_for(new, s) == active_for(old, s)
}

/// A new operation, queued.
pub open spec fn queued_op(
    id: u128,
    trigger: String,
    scope_key: String,
    library_id: Option<u128>,
    library_name: Option<String>,
    now: i64,
) -> ScanOperation {
    ScanOperation {
        id,
        trigger,
        scope_key,
        library_id,
        library_name,
        status: ScanStatus::Queued,
        phase: ScanPhase::Queued,
        current_library: None,
        total_files: 0,
        scanned_files: 0,
        imported_items: 0,
        created_at: now,
        started_at: None,
        completed_at: None,
        attempts: 0,
        max_attempts: MAX_ATTEMPTS,
        result: None,
        error: None,
        cancel_requested: false,
    }
}

pub proof fn lemma_lookup_at(ops: Seq<ScanOperation>, i: int)
    requires
        sorted_ids(ops),
        0 <= i < ops.len(),
    ensures
        lookup(ops, ops[i].id) == Some(ops[i]),
{
    let x = ops[i].id;
    assert(has_op(ops, x));
    let k = choose|k: int| 0 <= k < ops.len() && ops[k].id == x;
    if k < i {
        assert(ops[k].id < ops[i].id);
    } else if k > i {
        assert(ops[i].id < ops[k].id);
    }
}

pub proof fn lemma_active_at(active: Seq<(String, u128)>, i: int)
    requires
        scopes_unique(active),
        0 <= i < active.len(),
    ensures
        active_for(active, active[i].0@) == Some(active[i].1),
{
    let s = active[i].0@;
    assert(has_scope(active, s));
    let k = choose|k: int| 0 <= k < active.len() && active[k].0@ == s;
    if k < i {
        assert(active[k].0@ != active[i].0@);
    } else if k > i {
        assert(active[i].0@ != active[k].0@);
    }
}

/// The registry of scan operations.
pub struct ScanRegistry {
    /// The active operation of each scope.
    pub active: Vec<(String, u128)>,
    /// All kept operations, by increasing id.
    pub operations: Vec<ScanOperation>,
}

impl ScanRegistry {
    /// Well-formed: operations in id order, each scope active at most once.
    pub open spec fn wf(&self) -> bool {
        sorted_ids(self.operations@) && scopes_unique(self.active@)
    }

    /// An empty registry.
    pub fn new() -> (r: Self)
        ensures
            r.wf(),
            r.active@.len() == 0,
            r.operations@.len() == 0,
    {
        ScanRegistry { active: Vec::new(), operations: Vec::new() }
    }

    /// Position of the operation with the given id.
    fn position(&self, id: u128) -> (r: Option<usize>)
        requires
            self.wf(),
        ensures
            match r {
                Some(i) => i < self.operations@.len() && self.operations@[i as int].id == id
                    && lookup(self.operations@, id) == Some(self.operations@[i as int]),
                None => lookup(self.operations@, id) is None,
            },
    {
        let n = self.operations.len();
        let mut i: usize = 0;
        while i < n
            invariant
                i <= n,
                n == self.operations@.len(),
                self.wf(),
                forall|k: int| 0 <= k < i ==> self.operations@[k].id != id,
            decreases n - i,
        {
            if self.operations[i].id == id {
                proof {
                    lemma_lookup_at(self.operations@, i as int);
                }
                return Some(i);
            }
            i = i + 1;
        }
        None
    }

    /// Position of the active entry of a scope.
    fn scope_position(&self, scope: &str) -> (r: Option<usize>)
        requires
            self.wf(),
        ensures
            match r {
                Some(i) => i < self.active@.len() && self.active@[i as int].0@ == scope@
                    && active_for(self.active@, scope@) == Some(self.active@[i as int].1),
                None => active_for(self.active@, scope@) is None,
            },
    {
        let n = self.active.len();
        let mut i: usize = 0;
        while i < n
            invariant
                i <= n,
                n == self.active@.len(),
                self.wf(),
                forall|k: int| 0 <= k < i ==> self.active@[k].0@ != scope@,
            decreases n - i,
        {
            if str_eq(self.active[i].0.as_str(), scope) {
                proof {
                    lemma_active_at(self.active@, i as int);
                }
                return Some(i);
            }
            i = i + 1;
        }
        None
    }

    /// The active operation of a scope.
    pub fn active_operation(&self, scope: &str) -> (r: Option<u128>)
        requires
            self.wf(),
        ensures
            r == active_for(self.active@, scope@),
    {
        match self.scope_position(scope) {
            Some(i) => Some(self.active[i].1),
            None => None,
        }
    }

    /// Whether the operation is the active one of some scope.
    fn is_active(&self, id: u128) -> (r: bool)
        ensures
            r == is_active_id(self.active@, id),
    {
        let n = self.active.len();
        let mut i: usize = 0;
        while i < n
            invariant
                i <= n,
                n == self.active@.len(),
                forall|k: int| 0 <= k < i ==> self.active@[k].1 != id,
            decreases n - i,
        {
            if self.active[i].1 == id {
                return true;
            }
            i = i + 1;
        }
        false
    }

    /// A copy of the operation with the given id.
    pub fn get(&self, id: u128) -> (r: Option<ScanOperation>)
        requires
            self.wf(),
        ensures
            r == lookup(self.operations@, id),
    {
        match self.position(id) {
            Some(i) => Some(self.operations[i].duplicate()),
            None => None,
        }
    }
}


impl ScanRegistry {
    /// Makes `id` the active operation of `scope`.
    fn set_active(&mut self, scope: String, id: u128)
        requires
            old(self).wf(),
        ensures
            final(self).wf(),
            final(self).operations@ == old(self).operations@,
            activated(old(self).active@, final(self).active@, scope@, id),
    {
        let ghost old_active = self.active@;
        match self.scope_position(scope.as_str()) {
            Some(i) => {
                let ghost sv = scope@;
                self.active.set(i, (scope, id));
                proof {
                    let new = self.active@;
                    assert(new == old_active.update(i as int, new[i as int]));
                    assert(scopes_unique(new)) by {
                        assert forall|a: int, b: int| 0 <= a < b < new.len() implies new[a].0@
                            != new[b].0@ by {
                            if a == i {
                                assert(old_active[i as int].0@ == sv);
                            } else if b == i {
                                assert(old_active[i as int].0@ == sv);
                            }
                        }
                    }
                    lemma_active_at(new, i as int);
                    assert forall|sc: Seq<char>| sc != sv implies active_for(new, sc) == active_for(
                        old_active,
                        sc,
                    ) by {
                        if has_scope(new, sc) {
                            let k = choose|k: int| 0 <= k < new.len() && new[k].0@ == sc;
                            assert(k != i);
                            lemma_active_at(new, k);
                            lemma_active_at(old_active, k);
                        } else {
                            assert forall|k: int| 0 <= k < old_active.len() implies old_active[k].0@
                                != sc by {
                                if k != i {
                                    assert(new[k] == old_active[k]);
                                }
                            }
                        }
                    }
                    assert forall|x: u128| is_active_id(new, x) <==> (x == id || exists|k: int|
                        0 <= k < old_active.len() && old_active[k].1 == x && old_active[k].0@
                            != sv) by {
                        if is_active_id(new, x) && x != id {
                            let k = choose|k: int| 0 <= k < new.len() && new[k].1 == x;
                            assert(k != i);
                            assert(old_active[k].0@ != old_active[i as int].0@);
                        }
                        if exists|k: int|
                            0 <= k < old_active.len() && old_active[k].1 == x && old_active[k].0@
                                != sv {
                            let k = choose|k: int|
                                0 <= k < old_active.len() && old_active[k].1 == x
                                    && old_active[k].0@ != sv;
                            assert(k != i);
                            assert(new[k] == old_active[k]);
                        }
                        if x == id {
                            assert(new[i as int].1 == id);
                        }
                    }
                }
            },
            None => {
                let ghost sv = scope@;
                self.active.push((scope, id));
                proof {
                    let new = self.active@;
                    let last = (new.len() - 1) as int;
                    assert(scopes_unique(new)) by {
                        assert forall|a: int, b: int| 0 <= a < b < new.len() implies new[a].0@
                            != new[b].0@ by {
                            if b == last {
                                assert(old_active[a] == new[a]);
                                if new[a].0@ == sv {
                                    assert(has_scope(old_active, sv));
                                }
                            }
                        }
                    }
                    lemma_active_at(new, last);
                    assert forall|sc: Seq<char>| sc != sv implies active_for(new, sc) == active_for(
                        old_active,
                        sc,
                    ) by {
                        if has_scope(new, sc) {
                            let k = choose|k: int| 0 <= k < new.len() && new[k].0@ == sc;
                            assert(k != last);
                            lemma_active_at(new, k);
                            lemma_active_at(old_active, k);
                        } else {
                            assert forall|k: int| 0 <= k < old_active.len() implies old_active[k].0@
                                != sc by {
                                assert(new[k] == old_active[k]);
                            }
                        }
                    }
                    assert forall|x: u128| is_active_id(new, x) <==> (x == id || exists|k: int|
                        0 <= k < old_active.len() && old_active[k].1 == x && old_active[k].0@
                            != sv) by {
                        if is_active_id(new, x) && x != id {
                            let k = choose|k: int| 0 <= k < new.len() && new[k].1 == x;
                            assert(k != last);
                            assert(new[k] == old_active[k]);
                            if old_active[k].0@ == sv {
                                assert(has_scope(old_active, sv));
                            }
                        }
                        if exists|k: int|
                            0 <= k < old_active.len() && old_active[k].1 == x && old_active[k].0@
                                != sv {
                            let k = choose|k: int|
                                0 <= k < old_active.len() && old_active[k].1 == x
                                    && old_active[k].0@ != sv;
                            assert(new[k] == old_active[k]);
                        }
                        if x == id {
                            assert(new[last].1 == id);
                        }
                    }
                }
            },
        }
    }

    /// Drops the active entry of `scope` when it names `id`.
    fn release(&mut self, scope: &str, id: u128)
        requires
            old(self).wf(),
        ensures
            final(self).wf(),
            final(self).operations@ == old(self).operations@,
            released(old(self).active@, final(self).active@, scope@, id),
    {
        let ghost old_active = self.active@;
        match self.scope_position(scope) {
            Some(i) => {
                if self.active[i].1 == id {
                    self.active.remove(i);
                    proof {
                        let new = self.active@;
                        assert(new == old_active.remove(i as int));
                        assert(scopes_unique(new)) by {
                            assert forall|a: int, b: int| 0 <= a < b < new.len() implies new[a].0@
                                != new[b].0@ by {
                                let oa = if a < i { a } else { a + 1 };
                                let ob = if b < i { b } else { b + 1 };
                                assert(new[a] == old_active[oa]);
                                assert(new[b] == old_active[ob]);
                            }
                        }
                        assert forall|k: int| 0 <= k < new.len() implies new[k].0@ != scope@ by {
                            let ok = if k < i { k } else { k + 1 };
                            assert(new[k] == old_active[ok]);
                            assert(ok != i);
                        }
                        assert forall|sc: Seq<char>| sc != scope@ implies active_for(new, sc)
                            == active_for(old_active, sc) by {
                            if has_scope(new, sc) {
                                let k = choose|k: int| 0 <= k < new.len() && new[k].0@ == sc;
                                let ok = if k < i { k } else { k + 1 };
                                assert(new[k] == old_active[ok]);
                                lemma_active_at(new, k);
                                lemma_active_at(old_active, ok);
                            } else {
                                assert forall|k: int| 0 <= k < old_active.len() implies old_active[k].0@
                                    != sc by {
                                    if k < i {
                                        assert(new[k] == old_active[k]);
                                    } else if k > i {
                                        assert(new[k - 1] == old_active[k]);
                                    }
                                }
                            }
                        }
                    }
                }
            },
            None => {},
        }
    }

    /// Stores `op` under its id, replacing an operation with the same id.
    fn store(&mut self, op: ScanOperation)
        requires
            old(self).wf(),
        ensures
            final(self).wf(),
            final(self).active@ == old(self).active@,
            stored(old(self).operations@, final(self).operations@, op),
            final(self).operations@.len() == old(self).operations@.len() + (if has_op(
                old(self).operations@,
                op.id,
            ) {
                0int
            } else {
                1int
            }),
    {
        let ghost old_ops = self.operations@;
        let ghost opv = op;
        let n = self.operations.len();
        let mut p: usize = 0;
        while p < n && self.operations[p].id < op.id
            invariant
                p <= n,
                n == self.operations@.len(),
                self.operations@ == old_ops,
                forall|k: int| 0 <= k < p ==> old_ops[k].id < op.id,
            decreases n - p,
        {
            p = p + 1;
        }
        if p < n && self.operations[p].id == op.id {
            let _ = self.operations.remove(p);
            self.operations.insert(p, op);
            proof {
                let new = self.operations@;
                assert(new =~= old_ops.update(p as int, opv));
                assert(has_op(old_ops, opv.id));
                assert(sorted_ids(new)) by {
                    assert forall|a: int, b: int| 0 <= a < b < new.len() implies new[a].id
                        < new[b].id by {
                        assert(new[a].id == old_ops[a].id);
                        assert(new[b].id == old_ops[b].id);
                    }
                }
                lemma_lookup_at(new, p as int);
                assert forall|x: u128| x != opv.id implies lookup(new, x) == lookup(old_ops, x) by {
                    if has_op(new, x) {
                        let k = choose|k: int| 0 <= k < new.len() && new[k].id == x;
                        assert(k != p);
                        lemma_lookup_at(new, k);
                        lemma_lookup_at(old_ops, k);
                    } else {
                        assert forall|k: int| 0 <= k < old_ops.len() implies old_ops[k].id != x by {
                            if k != p {
                                assert(new[k] == old_ops[k]);
                            }
                        }
                    }
                }
            }
        } else {
            self.operations.insert(p, op);
            proof {
                let new = self.operations@;
                assert(new =~= old_ops.insert(p as int, opv));
                assert forall|k: int| 0 <= k < old_ops.len() implies old_ops[k].id != opv.id by {
                    if k >= p {
                        assert(old_ops[p as int].id <= old_ops[k].id);
                    }
                }
                assert(!has_op(old_ops, opv.id));
                assert(sorted_ids(new)) by {
                    assert forall|a: int, b: int| 0 <= a < b < new.len() implies new[a].id
                        < new[b].id by {
                        if b < p {
                        } else if b == p {
                            assert(new[a] == old_ops[a]);
                        } else if a == p {
                            assert(new[b] == old_ops[b - 1]);
                            assert(old_ops[p as int].id <= old_ops[b - 1].id);
                        } else if a < p {
                            assert(new[a] == old_ops[a]);
                            assert(new[b] == old_ops[b - 1]);
                        } else {
                            assert(new[a] == old_ops[a - 1]);
                            assert(new[b] == old_ops[b - 1]);
                        }
                    }
                }
                lemma_lookup_at(new, p as int);
                assert forall|x: u128| x != opv.id implies lookup(new, x) == lookup(old_ops, x) by {
                    if has_op(new, x) {
                        let k = choose|k: int| 0 <= k < new.len() && new[k].id == x;
                        assert(k != p);
                        let ok = if k < p { k } else { k - 1 };
                        assert(new[k] == old_ops[ok]);
                        lemma_lookup_at(new, k);
                        lemma_lookup_at(old_ops, ok);
                    } else {
                        assert forall|k: int| 0 <= k < old_ops.len() implies old_ops[k].id != x by {
                            if k < p {
                                assert(new[k] == old_ops[k]);
                            } else {
                                assert(new[k + 1] == old_ops[k]);
                            }
                        }
                    }
                }
            }
        }
    }

    /// Drops the oldest operations as `prune` says.
    fn prune_operations(&mut self)
        requires
            old(self).wf(),
        ensures
            final(self).wf(),
            final(self).active@ == old(self).active@,
            final(self).operations@ == prune(old(self).operations@, old(self).active@),
    {
        let ghost start = self.operations@;
        loop
            invariant
                self.wf(),
                self.active@ == old(self).active@,
                prune(start, self.active@) == prune(self.operations@, self.active@),
            ensures
                self.wf(),
                self.active@ == old(self).active@,
                prune(start, self.active@) == self.operations@,
            decreases self.operations@.len(),
        {
            if self.operations.len() <= KEEP_LATEST {
                break;
            }
            let oldest = self.operations[0].id;
            if self.is_active(oldest) {
                break;
            }
            let ghost before = self.operations@;
            let _ = self.operations.remove(0);
            proof {
                assert(self.operations@ =~= before.drop_first());
                assert(sorted_ids(self.operations@)) by {
                    assert forall|a: int, b: int| 0 <= a < b < self.operations@.len() implies self.operations@[a].id
                        < self.operations@[b].id by {
                        assert(self.operations@[a] == before[a + 1]);
                        assert(self.operations@[b] == before[b + 1]);
                    }
                }
            }
        }
    }
}


/// How an attempt starts.
#[derive(Clone, Copy, Debug, PartialEq, Eq, Structural)]
pub enum AttemptStart {
    /// The operation is no longer in the registry.
    Missing,
    /// A cancellation was requested; the operation is now cancelled.
    Cancelled,
    /// The operation is now running.
    Started,
}

pub open spec fn max_u64(a: u64, b: u64) -> u64 {
    if a >= b {
        a
    } else {
        b
    }
}

/// An operation as an attempt starts: running, counters reset on the first
/// attempt and kept on a retry, start time set once.
pub open spec fn running_op(op: ScanOperation, attempt: i32, now: i64) -> ScanOperation {
    ScanOperation {
        status: ScanStatus::Running,
        phase: if attempt == 1 {
            ScanPhase::CollectingFiles
        } else {
            ScanPhase::Retrying(attempt)
        },
        total_files: if attempt == 1 { 0 } else { op.total_files },
        scanned_files: if attempt == 1 { 0 } else { op.scanned_files },
        imported_items: if attempt == 1 { 0 } else { op.imported_items },
        current_library: None,
        attempts: attempt,
        started_at: if op.started_at is None { Some(now) } else { op.started_at },
        ..op
    }
}

/// An operation whose run was cancelled.
pub open spec fn cancelled_op(op: ScanOperation, now: i64) -> ScanOperation {
    ScanOperation {
        status: ScanStatus::Cancelled,
        phase: ScanPhase::Cancelled,
        completed_at: Some(now),
        ..op
    }
}

/// An operation after a progress report: the counters only grow.
pub open spec fn progressed_op(op: ScanOperation, snap: ScanSnapshot) -> ScanOperation {
    ScanOperation {
        phase: if snap.phase@.len() == 0 {
            ScanPhase::CollectingFiles
        } else {
            ScanPhase::Reported(snap.phase)
        },
        current_library: snap.current_library,
        total_files: max_u64(op.total_files, snap.total_files),
        scanned_files: max_u64(op.scanned_files, snap.scanned_files),
        imported_items: max_u64(op.imported_items, snap.imported_items),
        ..op
    }
}

/// An operation that completed with `summary`.
pub open spec fn succeeded_op(op: ScanOperation, summary: ScanSummary, attempt: i32, now: i64) -> ScanOperation {
    ScanOperation {
        status: ScanStatus::Succeeded,
        phase: ScanPhase::Completed,
        scanned_files: max_u64(op.scanned_files, summary.scanned_files as u64),
        imported_items: max_u64(op.imported_items, summary.imported_items as u64),
        total_files: if op.total_files == 0 { summary.scanned_files as u64 } else { op.total_files },
        current_library: None,
        completed_at: Some(now),
        result: Some(summary),
        error: None,
        attempts: attempt,
        ..op
    }
}

/// An operation queued again after a database error.
pub open spec fn retry_op(op: ScanOperation, error: String, attempt: i32) -> ScanOperation {
    ScanOperation { status: ScanStatus::Queued, error: Some(error), attempts: attempt, ..op }
}

/// An operation that failed with `error`.
pub open spec fn failed_op(op: ScanOperation, error: String, attempt: i32, now: i64) -> ScanOperation {
    ScanOperation {
        status: ScanStatus::Failed,
        phase: ScanPhase::Failed,
        completed_at: Some(now),
        error: Some(error),
        attempts: attempt,
        ..op
    }
}

/// An operation after a client asked to cancel it: a finished operation
/// stays as it is, a queued one is cancelled at once, a running one is
/// marked for cancellation.
pub open spec fn cancel_request_op(op: ScanOperation, now: i64) -> ScanOperation {
    if status_done(op.status) {
        op
    } else if op.status == ScanStatus::Queued {
        ScanOperation { status: ScanStatus::Cancelled, completed_at: Some(now), ..op }
    } else {
        ScanOperation { cancel_requested: true, status: ScanStatus::Cancelling, ..op }
    }
}

/// Whether a failed attempt is tried again: only database errors, and only
/// before the last attempt.
pub open spec fn retries(is_db_error: bool, attempt: i32) -> bool {
    is_db_error && attempt < MAX_ATTEMPTS
}

impl ScanRegistry {
    /// Takes the operation at position `i` out of the registry.
    fn take(&mut self, i: usize) -> (r: ScanOperation)
        requires
            old(self).wf(),
            i < old(self).operations@.len(),
        ensures
            final(self).wf(),
            final(self).active@ == old(self).active@,
            r == old(self).operations@[i as int],
            lookup(old(self).operations@, r.id) == Some(r),
            !has_op(final(self).operations@, r.id),
            forall|x: u128| x != r.id ==> lookup(final(self).operations@, x) == lookup(old(self).operations@, x),
    {
        let ghost old_ops = self.operations@;
        proof {
            lemma_lookup_at(old_ops, i as int);
        }
        let op = self.operations.remove(i);
        proof {
            let new = self.operations@;
            assert(new =~= old_ops.remove(i as int));
            assert(sorted_ids(new)) by {
                assert forall|a: int, b: int| 0 <= a < b < new.len() implies new[a].id < new[b].id by {
                    let oa = if a < i { a } else { a + 1 };
                    let ob = if b < i { b } else { b + 1 };
                    assert(new[a] == old_ops[oa]);
                    assert(new[b] == old_ops[ob]);
                }
            }
            assert forall|k: int| 0 <= k < new.len() implies new[k].id != op.id by {
                let ok = if k < i { k } else { k + 1 };
                assert(new[k] == old_ops[ok]);
            }
            assert forall|x: u128| x != op.id implies lookup(new, x) == lookup(old_ops, x) by {
                if has_op(new, x) {
                    let k = choose|k: int| 0 <= k < new.len() && new[k].id == x;
                    let ok = if k < i { k } else { k + 1 };
                    assert(new[k] == old_ops[ok]);
                    lemma_lookup_at(new, k);
                    lemma_lookup_at(old_ops, ok);
                } else {
                    assert forall|k: int| 0 <= k < old_ops.len() implies old_ops[k].id != x by {
                        if k < i {
                            assert(new[k] == old_ops[k]);
                        } else if k > i {
                            assert(new[k - 1] == old_ops[k]);
                        }
                    }
                }
            }
        }
        op
    }

    /// Puts back an operation taken out by `take`.
    fn put_back(&mut self, op: ScanOperation, Ghost(before): Ghost<Seq<ScanOperation>>)
        requires
            old(self).wf(),
            !has_op(old(self).operations@, op.id),
            has_op(before, op.id),
            forall|x: u128| x != op.id ==> lookup(old(self).operations@, x) == lookup(before, x),
        ensures
            final(self).wf(),
            final(self).active@ == old(self).active@,
            stored(before, final(self).operations@, op),
    {
        self.store(op);
    }

    /// Queues a scan of `scope_key`, unless an unfinished operation is
    /// already active for it, in which case that one's id is returned and
    /// nothing changes. A new operation gets `new_id`, becomes the active one
    /// of its scope, and the oldest operations beyond `KEEP_LATEST` are dropped.
    pub fn enqueue(
        &mut self,
        trigger: String,
        scope_key: String,
        library_id: Option<u128>,
        library_name: Option<String>,
        new_id: u128,
        now: i64,
    ) -> (r: u128)
        requires
            old(self).wf(),
        ensures
            final(self).wf(),
            match active_for(old(self).active@, scope_key@) {
                Some(a) => match lookup(old(self).operations@, a) {
                    Some(op) => !status_done(op.status),
                    None => false,
                },
                None => false,
            } ==> r == active_for(old(self).active@, scope_key@).unwrap()
                && final(self).operations@ == old(self).operations@
                && final(self).active@ == old(self).active@,
            !(match active_for(old(self).active@, scope_key@) {
                Some(a) => match lookup(old(self).operations@, a) {
                    Some(op) => !status_done(op.status),
                    None => false,
                },
                None => false,
            }) ==> r == new_id && activated(old(self).active@, final(self).active@, scope_key@, new_id)
                && exists|ins: Seq<ScanOperation>|
                stored(
                    old(self).operations@,
                    ins,
                    queued_op(new_id, trigger, scope_key, library_id, library_name, now),
                ) && final(self).operations@ == prune(ins, final(self).active@),
    {
        if let Some(i) = self.scope_position(scope_key.as_str()) {
            let a = self.active[i].1;
            if let Some(p) = self.position(a) {
                if !self.operations[p].is_done() {
                    return a;
                }
            }
        }
        let ghost old_ops = self.operations@;
        let scope_copy = scope_key.clone();
        self.set_active(scope_copy, new_id);
        let op = ScanOperation {
            id: new_id,
            trigger,
            scope_key,
            library_id,
            library_name,
            status: ScanStatus::Queued,
            phase: ScanPhase::Queued,
            current_library: None,
            total_files: 0,
            scanned_files: 0,
            imported_items: 0,
            created_at: now,
            started_at: None,
            completed_at: None,
            attempts: 0,
            max_attempts: MAX_ATTEMPTS,
            result: None,
            error: None,
            cancel_requested: false,
        };
        self.store(op);
        self.prune_operations();
        new_id
    }

    /// Starts attempt number `attempt` of an operation: a cancellation
    /// requested meanwhile ends it as cancelled and releases its scope;
    /// otherwise it runs as `running_op` says.
    pub fn begin_attempt(&mut self, id: u128, attempt: i32, now: i64) -> (r: AttemptStart)
        requires
            old(self).wf(),
            1 <= attempt <= MAX_ATTEMPTS,
        ensures
            final(self).wf(),
            match lookup(old(self).operations@, id) {
                None => r == AttemptStart::Missing && final(self).operations@ == old(self).operations@
                    && final(self).active@ == old(self).active@,
                Some(op) => if op.cancel_requested {
                    r == AttemptStart::Cancelled && stored(
                        old(self).operations@,
                        final(self).operations@,
                        cancelled_op(op, now),
                    ) && released(old(self).active@, final(self).active@, op.scope_key@, id)
                } else {
                    r == AttemptStart::Started && stored(
                        old(self).operations@,
                        final(self).operations@,
                        running_op(op, attempt, now),
                    ) && final(self).active@ == old(self).active@
                },
            },
    {
        let ghost before = self.operations@;
        match self.position(id) {
            None => AttemptStart::Missing,
            Some(i) => {
                let mut op = self.take(i);
                if op.cancel_requested {
                    let scope = op.scope_key.clone();
                    op.status = ScanStatus::Cancelled;
                    op.phase = ScanPhase::Cancelled;
                    op.completed_at = Some(now);
                    self.put_back(op, Ghost(before));
                    self.release(scope.as_str(), id);
                    AttemptStart::Cancelled
                } else {
                    op.status = ScanStatus::Running;
                    if attempt == 1 {
                        op.phase = ScanPhase::CollectingFiles;
                        op.total_files = 0;
                        op.scanned_files = 0;
                        op.imported_items = 0;
                    } else {
                        op.phase = ScanPhase::Retrying(attempt);
                    }
                    op.current_library = None;
                    op.attempts = attempt;
                    if op.started_at.is_none() {
                        op.started_at = Some(now);
                    }
                    self.put_back(op, Ghost(before));
                    AttemptStart::Started
                }
            },
        }
    }

    /// Records a progress report of a running operation. Nothing changes and
    /// `false` is returned when the operation is gone, finished, or asked to
    /// cancel; otherwise it changes as `progressed_op` says.
    pub fn apply_progress(&mut self, id: u128, snap: ScanSnapshot) -> (r: bool)
        requires
            old(self).wf(),
        ensures
            final(self).wf(),
            final(self).active@ == old(self).active@,
            match lookup(old(self).operations@, id) {
                None => !r && final(self).operations@ == old(self).operations@,
                Some(op) => if status_done(op.status) || op.cancel_requested {
                    !r && final(self).operations@ == old(self).operations@
                } else {
                    r && stored(old(self).operations@, final(self).operations@, progressed_op(op, snap))
                },
            },
    {
        let ghost before = self.operations@;
        match self.position(id) {
            None => false,
            Some(i) => {
                if self.operations[i].is_done() || self.operations[i].cancel_requested {
                    return false;
                }
                let mut op = self.take(i);
                let ScanSnapshot { phase, current_library, total_files, scanned_files, imported_items } = snap;
                if phase.unicode_len() == 0 {
                    op.phase = ScanPhase::CollectingFiles;
                } else {
                    op.phase = ScanPhase::Reported(phase);
                }
                op.current_library = current_library;
                if total_files > op.total_files {
                    op.total_files = total_files;
                }
                if scanned_files > op.scanned_files {
                    op.scanned_files = scanned_files;
                }
                if imported_items > op.imported_items {
                    op.imported_items = imported_items;
                }
                self.put_back(op, Ghost(before));
                true
            },
        }
    }

    /// Whether the scan of an operation should stop: it was asked to cancel,
    /// or it is no longer in the registry.
    pub fn should_stop(&self, id: u128) -> (r: bool)
        requires
            self.wf(),
        ensures
            r == match lookup(self.operations@, id) {
                Some(op) => op.cancel_requested,
                None => true,
            },
    {
        match self.position(id) {
            Some(i) => self.operations[i].cancel_requested,
            None => true,
        }
    }

    /// Ends an operation as cancelled and releases its scope.
    pub fn finish_cancelled(&mut self, id: u128, scope_key: &str, now: i64)
        requires
            old(self).wf(),
        ensures
            final(self).wf(),
            released(old(self).active@, final(self).active@, scope_key@, id),
            match lookup(old(self).operations@, id) {
                None => final(self).operations@ == old(self).operations@,
                Some(op) => stored(old(self).operations@, final(self).operations@, cancelled_op(op, now)),
            },
    {
        let ghost before = self.operations@;
        if let Some(i) = self.position(id) {
            let mut op = self.take(i);
            op.status = ScanStatus::Cancelled;
            op.phase = ScanPhase::Cancelled;
            op.completed_at = Some(now);
            self.put_back(op, Ghost(before));
        }
        self.release(scope_key, id);
    }

    /// Ends an operation as succeeded with `summary` and releases its scope.
    pub fn finish_succeeded(&mut self, id: u128, scope_key: &str, summary: ScanSummary, attempt: i32, now: i64)
        requires
            old(self).wf(),
        ensures
            final(self).wf(),
            released(old(self).active@, final(self).active@, scope_key@, id),
            match lookup(old(self).operations@, id) {
                None => final(self).operations@ == old(self).operations@,
                Some(op) => stored(
                    old(self).operations@,
                    final(self).operations@,
                    succeeded_op(op, summary, attempt, now),
                ),
            },
    {
        let ghost before = self.operations@;
        if let Some(i) = self.position(id) {
            let mut op = self.take(i);
            op.status = ScanStatus::Succeeded;
            op.phase = ScanPhase::Completed;
            let scanned = summary.scanned_files as u64;
            let imported = summary.imported_items as u64;
            if scanned > op.scanned_files {
                op.scanned_files = scanned;
            }
            if imported > op.imported_items {
                op.imported_items = imported;
            }
            if op.total_files == 0 {
                op.total_files = scanned;
            }
            op.current_library = None;
            op.completed_at = Some(now);
            op.result = Some(summary);
            op.error = None;
            op.attempts = attempt;
            self.put_back(op, Ghost(before));
        }
        self.release(scope_key, id);
    }

    /// Records a failed attempt. A database error before the last attempt
    /// queues the operation again and returns `true` (the caller retries);
    /// any other failure ends it as failed, releases its scope and returns
    /// `false`.
    pub fn after_error(
        &mut self,
        id: u128,
        scope_key: &str,
        error: String,
        is_db_error: bool,
        attempt: i32,
        now: i64,
    ) -> (r: bool)
        requires
            old(self).wf(),
        ensures
            final(self).wf(),
            r == retries(is_db_error, attempt),
            r ==> final(self).active@ == old(self).active@,
            !r ==> released(old(self).active@, final(self).active@, scope_key@, id),
            match lookup(old(self).operations@, id) {
                None => final(self).operations@ == old(self).operations@,
                Some(op) => stored(
                    old(self).operations@,
                    final(self).operations@,
                    if r {
                        retry_op(op, error, attempt)
                    } else {
                        failed_op(op, error, attempt, now)
                    },
                ),
            },
    {
        let retry = is_db_error && attempt < MAX_ATTEMPTS;
        let ghost before = self.operations@;
        if let Some(i) = self.position(id) {
            let mut op = self.take(i);
            if retry {
                op.status = ScanStatus::Queued;
                op.error = Some(error);
                op.attempts = attempt;
            } else {
                op.status = ScanStatus::Failed;
                op.phase = ScanPhase::Failed;
                op.completed_at = Some(now);
                op.error = Some(error);
                op.attempts = attempt;
            }
            self.put_back(op, Ghost(before));
        }
        if !retry {
            self.release(scope_key, id);
        }
        retry
    }

    /// A client's request to cancel an operation: `None` when there is no
    /// such operation, otherwise the operation as `cancel_request_op` leaves
    /// it; a queued operation that is cancelled at once releases its scope.
    pub fn cancel(&mut self, id: u128, now: i64) -> (r: Option<ScanOperation>)
        requires
            old(self).wf(),
        ensures
            final(self).wf(),
            match lookup(old(self).operations@, id) {
                None => r is None && final(self).operations@ == old(self).operations@
                    && final(self).active@ == old(self).active@,
                Some(op) => r == Some(cancel_request_op(op, now)) && stored(
                    old(self).operations@,
                    final(self).operations@,
                    cancel_request_op(op, now),
                ) && if !status_done(op.status) && op.status == ScanStatus::Queued {
                    released(old(self).active@, final(self).active@, op.scope_key@, id)
                } else {
                    final(self).active@ == old(self).active@
                },
            },
    {
        let ghost before = self.operations@;
        match self.position(id) {
            None => None,
            Some(i) => {
                let mut op = self.take(i);
                let mut clear = false;
                if op.is_done() {
                } else if op.status.is_queued() {
                    op.status = ScanStatus::Cancelled;
                    op.completed_at = Some(now);
                    clear = true;
                } else {
                    op.cancel_requested = true;
                    op.status = ScanStatus::Cancelling;
                }
                let copy = op.duplicate();
                let scope = op.scope_key.clone();
                self.put_back(op, Ghost(before));
                if clear {
                    self.release(scope.as_str(), id);
                }
                Some(copy)
            },
        }
    }

    /// The newest operations first (by decreasing id), at most `limit` of
    /// them; the limit defaults to 20 and is kept within 1..=200.
    pub fn list(&self, limit: Option<i64>) -> (r: Vec<ScanOperation>)
        requires
            self.wf(),
        ensures
            r@.len() == min_int(list_limit(limit), self.operations@.len() as int),
            forall|k: int|
                0 <= k < r@.len() ==> #[trigger] r@[k] == self.operations@[self.operations@.len() - 1 - k],
    {
        let want = match limit {
            Some(v) => if v < 1 { 1 } else if v > 200 { 200 } else { v },
            None => 20,
        };
        let want_n: usize = want as usize;
        let n = self.operations.len();
        let mut out: Vec<ScanOperation> = Vec::new();
        let mut k: usize = 0;
        while k < n && k < want_n
            invariant
                k <= n,
                k <= want_n,
                n == self.operations@.len(),
                want_n == list_limit(limit),
                out@.len() == k,
                forall|j: int| 0 <= j < k ==> #[trigger] out@[j] == self.operations@[n - 1 - j],
            decreases n - k,
        {
            out.push(self.operations[n - 1 - k].duplicate());
            k = k + 1;
        }
        out
    }
}

/// How one attempt of a scan ended.
pub enum AttemptOutcome {
    /// The operation was asked to cancel while the scan ran.
    Cancelled,
    /// The scan completed with these totals.
    Succeeded(ScanSummary),
    /// The scan failed; `is_db_error` tells a database error from others.
    Failed { error: String, is_db_error: bool },
}

/// What the task that runs a scan does after an attempt.
#[derive(Clone, Copy, Debug, PartialEq, Eq, Structural)]
pub enum ScanStep {
    /// The operation is finished: the task ends.
    Stop,
    /// Wait, then start the attempt with this number.
    Retry(i32),
}

/// The operation as an attempt with `outcome` leaves it.
pub open spec fn after_attempt_op(op: ScanOperation, outcome: AttemptOutcome, attempt: i32, now: i64) -> ScanOperation {
    match outcome {
        AttemptOutcome::Cancelled => cancelled_op(op, now),
        AttemptOutcome::Succeeded(summary) => succeeded_op(op, summary, attempt, now),
        AttemptOutcome::Failed { error, is_db_error } => if retries(is_db_error, attempt) {
            retry_op(op, error, attempt)
        } else {
            failed_op(op, error, attempt, now)
        },
    }
}

/// The step after an attempt with `outcome`: only a database error before
/// the last attempt is retried, with the next attempt number.
pub open spec fn step_after(outcome: AttemptOutcome, attempt: i32) -> ScanStep {
    match outcome {
        AttemptOutcome::Failed { error, is_db_error } => if retries(is_db_error, attempt) {
            ScanStep::Retry((attempt + 1) as i32)
        } else {
            ScanStep::Stop
        },
        _ => ScanStep::Stop,
    }
}

impl ScanRegistry {
    /// Records how attempt `attempt` of an operation ended and says what the
    /// task does next: a cancelled, completed or finally failed run ends the
    /// operation and releases its scope; a database error before the last
    /// attempt queues it again for the next attempt.
    pub fn after_attempt(
        &mut self,
        id: u128,
        scope_key: &str,
        outcome: AttemptOutcome,
        attempt: i32,
        now: i64,
    ) -> (r: ScanStep)
        requires
            old(self).wf(),
            1 <= attempt <= MAX_ATTEMPTS,
        ensures
            final(self).wf(),
            r == step_after(outcome, attempt),
            r == ScanStep::Stop ==> released(old(self).active@, final(self).active@, scope_key@, id),
            r != ScanStep::Stop ==> final(self).active@ == old(self).active@,
            match lookup(old(self).operations@, id) {
                None => final(self).operations@ == old(self).operations@,
                Some(op) => stored(
                    old(self).operations@,
                    final(self).operations@,
                    after_attempt_op(op, outcome, attempt, now),
                ),
            },
    {
        match outcome {
            AttemptOutcome::Cancelled => {
                self.finish_cancelled(id, scope_key, now);
                ScanStep::Stop
            },
            AttemptOutcome::Succeeded(summary) => {
                self.finish_succeeded(id, scope_key, summary, attempt, now);
                ScanStep::Stop
            },
            AttemptOutcome::Failed { error, is_db_error } => {
                if self.after_error(id, scope_key, error, is_db_error, attempt, now) {
                    ScanStep::Retry(attempt + 1)
                } else {
                    ScanStep::Stop
                }
            },
        }
    }
}

/// The task that runs a scan stops after at most `MAX_ATTEMPTS` attempts:
/// a retry names the next attempt, never beyond the last, and only a
/// database error is retried; when it stops, the operation is finished.
pub proof fn law_scan_attempts_bounded(op: ScanOperation, outcome: AttemptOutcome, attempt: i32, now: i64)
    requires
        1 <= attempt <= MAX_ATTEMPTS,
    ensures
        step_after(outcome, attempt) matches ScanStep::Retry(next) ==> next == attempt + 1 && next <= MAX_ATTEMPTS
            && outcome matches AttemptOutcome::Failed { is_db_error: true, .. },
        attempt == MAX_ATTEMPTS ==> step_after(outcome, attempt) == ScanStep::Stop,
        step_after(outcome, attempt) == ScanStep::Stop ==> status_done(after_attempt_op(op, outcome, attempt, now).status),
        after_attempt_op(op, outcome, attempt, now).scanned_files >= op.scanned_files,
        after_attempt_op(op, outcome, attempt, now).imported_items >= op.imported_items,
        after_attempt_op(op, outcome, attempt, now).total_files >= op.total_files,
{
}

pub open spec fn min_int(a: int, b: int) -> int {
    if a <= b {
        a
    } else {
        b
    }
}

/// The number of operations a listing asks for.
pub open spec fn list_limit(limit: Option<i64>) -> int {
    match limit {
        Some(v) => if v < 1 {
            1
        } else if v > 200 {
            200
        } else {
            v as int
        },
        None => 20,
    }
}


/// An operation after progress reports, in order.
pub open spec fn progressed_all(op: ScanOperation, snaps: Seq<ScanSnapshot>) -> ScanOperation
    decreases snaps.len(),
{
    if snaps.len() == 0 {
        op
    } else {
        progressed_op(progressed_all(op, snaps.drop_last()), snaps.last())
    }
}

proof fn lemma_progressed_all(op: ScanOperation, snaps: Seq<ScanSnapshot>)
    ensures
        progressed_all(op, snaps).status == op.status,
        progressed_all(op, snaps).started_at == op.started_at,
        progressed_all(op, snaps).cancel_requested == op.cancel_requested,
        progressed_all(op, snaps).scanned_files >= op.scanned_files,
        progressed_all(op, snaps).imported_items >= op.imported_items,
        forall|k: int|
            0 <= k < snaps.len() ==> progressed_all(op, snaps).scanned_files >= #[trigger] snaps[k].scanned_files
                && progressed_all(op, snaps).imported_items >= snaps[k].imported_items,
    decreases snaps.len(),
{
    if snaps.len() > 0 {
        lemma_progressed_all(op, snaps.drop_last());
        assert forall|k: int| 0 <= k < snaps.len() implies progressed_all(op, snaps).scanned_files
            >= #[trigger] snaps[k].scanned_files && progressed_all(op, snaps).imported_items
            >= snaps[k].imported_items by {
            if k < snaps.len() - 1 {
                assert(snaps[k] == snaps.drop_last()[k]);
            }
        }
    }
}

/// The life of a scan that runs to its end: started from the queue (its
/// first attempt), given progress reports, then completed with a summary.
/// It ends succeeded and finished, started when its first attempt began,
/// completed when it ended, with the summary as its result; its counts are
/// at least every count reported and the summary's; and a later request to
/// cancel it changes nothing.
pub proof fn law_scan_life(
    op: ScanOperation,
    started: i64,
    snaps: Seq<ScanSnapshot>,
    summary: ScanSummary,
    ended: i64,
    later: i64,
)
    requires
        op.status == ScanStatus::Queued,
        op.started_at is None,
    ensures
        ({
            let done = succeeded_op(progressed_all(running_op(op, 1, started), snaps), summary, 1, ended);
            &&& done.status == ScanStatus::Succeeded
            &&& status_done(done.status)
            &&& done.started_at == Some(started)
            &&& done.completed_at == Some(ended)
            &&& done.result == Some(summary)
            &&& done.attempts == 1
            &&& done.scanned_files >= summary.scanned_files
            &&& done.imported_items >= summary.imported_items
            &&& forall|k: int|
                0 <= k < snaps.len() ==> done.scanned_files >= #[trigger] snaps[k].scanned_files
                    && done.imported_items >= snaps[k].imported_items
            &&& cancel_request_op(done, later) == done
        }),
{
    let run = running_op(op, 1, started);
    lemma_progressed_all(run, snaps);
}

/// A cancellation request is idempotent: asking again changes nothing.
pub proof fn law_cancel_request_idempotent(op: ScanOperation, t1: i64, t2: i64)
    ensures
        cancel_request_op(cancel_request_op(op, t1), t2) == cancel_request_op(op, t1),
{
}

/// Once finished, an operation stays as it is when asked to cancel.
pub proof fn law_finished_is_final(op: ScanOperation, now: i64)
    requires
        status_done(op.status),
    ensures
        cancel_request_op(op, now) == op,
{
}

/// The end states are finished: cancelled, succeeded and failed operations
/// are done, and a queued operation cancelled by request is done.
pub proof fn law_end_states_are_done(
    op: ScanOperation,
    summary: ScanSummary,
    error: String,
    attempt: i32,
    now: i64,
)
    ensures
        status_done(cancelled_op(op, now).status),
        status_done(succeeded_op(op, summary, attempt, now).status),
        status_done(failed_op(op, error, attempt, now).status),
        op.status == ScanStatus::Queued ==> status_done(cancel_request_op(op, now).status),
{
}

/// Progress counters never go down, whatever a progress report or the
/// final summary says.
pub proof fn law_counters_monotone(op: ScanOperation, snap: ScanSnapshot, summary: ScanSummary, attempt: i32, now: i64)
    ensures
        progressed_op(op, snap).total_files >= op.total_files,
        progressed_op(op, snap).scanned_files >= op.scanned_files,
        progressed_op(op, snap).imported_items >= op.imported_items,
        succeeded_op(op, summary, attempt, now).scanned_files >= op.scanned_files,
        succeeded_op(op, summary, attempt, now).imported_items >= op.imported_items,
{
}

/// A retried attempt is never beyond the last allowed attempt.
pub proof fn law_retry_within_attempts(is_db_error: bool, attempt: i32)
    requires
        1 <= attempt,
        retries(is_db_error, attempt),
    ensures
        1 <= attempt + 1 <= MAX_ATTEMPTS,
{
}

/// Pruning keeps every active operation, keeps the newest ones, and leaves
/// either at most `KEEP_LATEST` operations or an active oldest one.
pub proof fn law_prune_keeps_active(ops: Seq<ScanOperation>, active: Seq<(String, u128)>)
    ensures
        forall|i: int|
            0 <= i < ops.len() && is_active_id(active, ops[i].id) ==> prune(ops, active).contains(
                ops[i],
            ),
        prune(ops, active).len() <= ops.len(),
        prune(ops, active) == ops.subrange(ops.len() - prune(ops, active).len(), ops.len() as int),
        prune(ops, active).len() <= KEEP_LATEST || is_active_id(active, prune(ops, active)[0].id),
    decreases ops.len(),
{
    if ops.len() > KEEP_LATEST && !is_active_id(active, ops[0].id) {
        let rest = ops.drop_first();
        law_prune_keeps_active(rest, active);
        assert forall|i: int|
            0 <= i < ops.len() && is_active_id(active, ops[i].id) implies prune(ops, active).contains(
                ops[i],
            ) by {
            assert(i != 0);
            assert(rest[i - 1] == ops[i]);
        }
        let p = prune(rest, active);
        assert(p == rest.subrange(rest.len() - p.len(), rest.len() as int));
        assert(rest.subrange(rest.len() - p.len(), rest.len() as int) =~= ops.subrange(
            ops.len() - p.len(),
            ops.len() as int,
        ));
    } else {
        assert(ops.subrange(0, ops.len() as int) =~= ops);
        assert forall|i: int|
            0 <= i < ops.len() && is_active_id(active, ops[i].id) implies prune(ops, active).contains(
                ops[i],
            ) by {
            assert(ops[i] == prune(ops, active)[i]);
        }
    }
}

/// The outcome of synchronising one remote source of a library.
pub enum SyncOutcome {
    /// The source was synchronised with these totals.
    Synced(ScanSummary),
    /// Another synchronisation of the source was running; it is skipped.
    Busy,
    /// The synchronisation failed; the library update fails with it.
    Failed,
}

/// The totals of a library update after one remote source: a synchronised
/// source counts as one more library and adds its files and items; a busy
/// source is skipped; a failure ends the update (`None`).
pub fn after_remote_sync(summary: ScanSummary, outcome: &SyncOutcome) -> (r: Option<ScanSummary>)
    requires
        match outcome {
            SyncOutcome::Synced(s) => summary.libraries + 1 <= usize::MAX && summary.scanned_files
                + s.scanned_files <= usize::MAX && summary.imported_items + s.imported_items <= usize::MAX,
            _ => true,
        },
    ensures
        match outcome {
            SyncOutcome::Synced(s) => r == Some(ScanSummary {
                libraries: (summary.libraries + 1) as usize,
                scanned_files: (summary.scanned_files + s.scanned_files) as usize,
                imported_items: (summary.imported_items + s.imported_items) as usize,
            }),
            SyncOutcome::Busy => r == Some(summary),
            SyncOutcome::Failed => r is None,
        },
{
    match outcome {
        SyncOutcome::Synced(s) => Some(ScanSummary {
            libraries: summary.libraries + 1,
            scanned_files: summary.scanned_files + s.scanned_files,
            imported_items: summary.imported_items + s.imported_items,
        }),
        SyncOutcome::Busy => Some(summary),
        SyncOutcome::Failed => None,
    }
}

/// The totals of a library update after its local folders were scanned:
/// the scan's files and items are added; the library count stays.
pub fn after_local_scan(summary: ScanSummary, local: ScanSummary) -> (r: ScanSummary)
    requires
        summary.scanned_files + local.scanned_files <= usize::MAX,
        summary.imported_items + local.imported_items <= usize::MAX,
    ensures
        r == (ScanSummary {
            libraries: summary.libraries,
            scanned_files: (summary.scanned_files + local.scanned_files) as usize,
            imported_items: (summary.imported_items + local.imported_items) as usize,
        }),
{
    ScanSummary {
        libraries: summary.libraries,
        scanned_files: summary.scanned_files + local.scanned_files,
        imported_items: summary.imported_items + local.imported_items,
    }
}

/// Whether `pat` occurs somewhere in `s`.
pub open spec fn occurs_in(s: Seq<char>, pat: Seq<char>) -> bool {
    exists|i: int| 0 <= i <= s.len() && #[trigger] starts_with_seq(s.skip(i), pat)
}

/// Whether `pat` occurs in `s`, as `occurs_in` states.
fn text_contains(s: &str, pat: &str) -> (r: bool)
    ensures
        r == occurs_in(s@, pat@),
{
    let n = s.unicode_len();
    let mut i: usize = 0;
    while i < n
        invariant
            i <= n,
            n == s@.len(),
            forall|j: int| 0 <= j < i ==> !#[trigger] starts_with_seq(s@.skip(j), pat@),
        decreases n - i,
    {
        let rest = s.substring_char(i, n);
        assert(rest@ =~= s@.skip(i as int));
        if starts_with(rest, pat) {
            return true;
        }
        i = i + 1;
    }
    let rest = s.substring_char(n, n);
    assert(rest@ =~= s@.skip(n as int));
    let found = starts_with(rest, pat);
    assert(forall|j: int| 0 <= j <= n && #[trigger] starts_with_seq(s@.skip(j), pat@) ==> j == n);
    found
}

/// How the failure of a source's synchronisation counts: as `Busy` when
/// its message carries the busy tag (another synchronisation of the
/// source is running), else as `Failed`.
pub fn sync_error_outcome(message: &str, busy_tag: &str) -> (r: SyncOutcome)
    ensures
        occurs_in(message@, busy_tag@) ==> r is Busy,
        !occurs_in(message@, busy_tag@) ==> r is Failed,
{
    if text_contains(message, busy_tag) {
        SyncOutcome::Busy
    } else {
        SyncOutcome::Failed
    }
}

/// The totals (libraries, files, items) after the remote sources'
/// outcomes in order, from nothing: `None` once one failed.
pub open spec fn sync_fold(outcomes: Seq<SyncOutcome>) -> Option<(int, int, int)>
    decreases outcomes.len(),
{
    if outcomes.len() == 0 {
        Some((0, 0, 0))
    } else {
        match sync_fold(outcomes.drop_last()) {
            None => None,
            Some((l, f, i)) => match outcomes.last() {
                SyncOutcome::Synced(s) => Some((l + 1, f + s.scanned_files, i + s.imported_items)),
                SyncOutcome::Busy => Some((l, f, i)),
                SyncOutcome::Failed => None,
            },
        }
    }
}

/// Whether the totals stay within `usize` along the way.
pub open spec fn fold_fits(outcomes: Seq<SyncOutcome>) -> bool {
    forall|k: int|
        0 <= k <= outcomes.len() ==> match #[trigger] sync_fold(outcomes.take(k)) {
            Some((l, f, i)) => l <= usize::MAX && f <= usize::MAX && i <= usize::MAX,
            None => true,
        }
}

/// The totals of a library update from its remote sources' outcomes, in
/// order, and its local scan: with no remote source, the local scan's
/// totals; else the sources folded as `after_remote_sync` does (`None`
/// once one failed), then the local scan's files and items added.
pub fn library_update_summary(outcomes: &Vec<SyncOutcome>, local: ScanSummary) -> (r: Option<ScanSummary>)
    requires
        fold_fits(outcomes@),
        sync_fold(outcomes@) matches Some((l, f, i)) ==> f + local.scanned_files <= usize::MAX && i
            + local.imported_items <= usize::MAX,
    ensures
        outcomes@.len() == 0 ==> r == Some(local),
        outcomes@.len() > 0 ==> match sync_fold(outcomes@) {
            None => r is None,
            Some((l, f, i)) => r == Some(
                ScanSummary {
                    libraries: l as usize,
                    scanned_files: (f + local.scanned_files) as usize,
                    imported_items: (i + local.imported_items) as usize,
                },
            ),
        },
{
    let n = outcomes.len();
    if n == 0 {
        return Some(local);
    }
    let mut summary = ScanSummary { libraries: 0, scanned_files: 0, imported_items: 0 };
    let mut k: usize = 0;
    assert(outcomes@.take(0) =~= Seq::<SyncOutcome>::empty());
    while k < n
        invariant
            k <= n,
            n == outcomes@.len(),
            fold_fits(outcomes@),
            sync_fold(outcomes@.take(k as int)) == Some(
                (summary.libraries as int, summary.scanned_files as int, summary.imported_items as int),
            ),
        decreases n - k,
    {
        assert(outcomes@.take(k + 1).drop_last() =~= outcomes@.take(k as int));
        assert(outcomes@.take(k + 1).last() == outcomes@[k as int]);
        proof {
            let _ = sync_fold(outcomes@.take(k + 1));
            assert(0 <= k + 1 <= outcomes@.len());
        }
        match &outcomes[k] {
            SyncOutcome::Failed => {
                proof {
                    lemma_fold_failed(outcomes@, k as int + 1);
                }
                return None;
            },
            _ => {},
        }
        match after_remote_sync(summary, &outcomes[k]) {
            Some(next) => {
                summary = next;
            },
            None => {
                return None;
            },
        }
        k = k + 1;
    }
    assert(outcomes@.take(n as int) =~= outcomes@);
    Some(after_local_scan(summary, local))
}

proof fn lemma_fold_failed(outcomes: Seq<SyncOutcome>, k: int)
    requires
        0 <= k <= outcomes.len(),
        sync_fold(outcomes.take(k)) is None,
    ensures
        sync_fold(outcomes) is None,
    decreases outcomes.len() - k,
{
    if k < outcomes.len() {
        assert(outcomes.take(k + 1).drop_last() =~= outcomes.take(k));
        lemma_fold_failed(outcomes, k + 1);
    } else {
        assert(outcomes.take(k) =~= outcomes);
    }
}

} // verus!
