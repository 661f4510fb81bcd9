//! The task store behind the agent: submitted tasks, their status, logs,
//! results and errors, with a bound on how many tasks are retained and how
//! many log entries a task keeps.
use std::collections::{HashMap, VecDeque};

use vstd::prelude::*;

use crate::actions::{supported_names, supports};
use crate::error::{
    forbidden_error, not_found_error, opt_view, validation_error, AppError, AppErrorView,
    ErrorPayload, ErrorPayloadView,
};
use crate::process_runner::ProcessOutput;
use crate::text::{
    lemma_split_nonempty, lemma_split_pieces_lack_sep, split, strip_cr,
    chars_of, contains_char, owned, push_joined, push_str, string_from_chars, join, views, lines,
    lines_chars, char_vec_views,
};

verus! {

/// The most log entries a task keeps; older entries are dropped first.
pub const MAX_TASK_LOGS: usize = 500;

/// Where a task is in its life.
#[derive(Debug, Clone, Copy, PartialEq, Eq, Structural)]
pub enum TaskStatus {
    Queued,
    Running,
    Succeeded,
    Failed,
}

/// The stream a log line came from.
#[derive(Debug, Clone, Copy, PartialEq, Eq, Structural)]
pub enum LogStream {
    System,
    Stdout,
    Stderr,
}

/// One line of a task's log.
#[derive(Debug, Clone)]
pub struct TaskLogEntry {
    pub timestamp_ms: u64,
    pub stream: LogStream,
    pub message: String,
}

/// The mathematical value of a [`TaskLogEntry`].
pub struct LogView {
    pub timestamp_ms: u64,
    pub stream: LogStream,
    pub message: Seq<char>,
}

impl View for TaskLogEntry {
    type V = LogView;

    open spec fn view(&self) -> LogView {
        LogView { timestamp_ms: self.timestamp_ms, stream: self.stream, message: self.message@ }
    }
}

impl TaskLogEntry {
    /// A copy of this entry.
    pub fn duplicate(&self) -> (out: TaskLogEntry)
        ensures
            out@ == self@,
    {
        TaskLogEntry {
            timestamp_ms: self.timestamp_ms,
            stream: self.stream,
            message: self.message.clone(),
        }
    }
}

/// A request to run an action; `params` is JSON text.
#[derive(Debug, Clone)]
pub struct ExecuteTaskRequest {
    pub action: String,
    pub params: String,
}

/// A task and everything known about it. `params` and `result` are JSON
/// text.
#[derive(Debug, Clone)]
pub struct TaskRecord {
    pub id: u128,
    pub action: String,
    pub params: String,
    pub status: TaskStatus,
    pub created_at_ms: u64,
    pub updated_at_ms: u64,
    pub started_at_ms: Option<u64>,
    pub finished_at_ms: Option<u64>,
    pub logs: Vec<TaskLogEntry>,
    pub result: Option<String>,
    pub error: Option<ErrorPayload>,
}

/// The mathematical value of a [`TaskRecord`].
pub struct TaskView {
    pub id: u128,
    pub action: Seq<char>,
    pub params: Seq<char>,
    pub status: TaskStatus,
    pub created_at_ms: u64,
    pub updated_at_ms: u64,
    pub started_at_ms: Option<u64>,
    pub finished_at_ms: Option<u64>,
    pub logs: Seq<LogView>,
    pub result: Option<Seq<char>>,
    pub error: Option<ErrorPayloadView>,
}

/// The view of an optional error payload.
pub open spec fn opt_payload_view(p: Option<ErrorPayload>) -> Option<ErrorPayloadView> {
    match p {
        Some(q) => Some(q@),
        None => None,
    }
}

/// The views of log entries.
pub open spec fn log_views(logs: Seq<TaskLogEntry>) -> Seq<LogView> {
    logs.map_values(|e: TaskLogEntry| e@)
}

impl View for TaskRecord {
    type V = TaskView;

    open spec fn view(&self) -> TaskView {
        TaskView {
            id: self.id,
            action: self.action@,
            params: self.params@,
            status: self.status,
            created_at_ms: self.created_at_ms,
            updated_at_ms: self.updated_at_ms,
            started_at_ms: self.started_at_ms,
            finished_at_ms: self.finished_at_ms,
            logs: log_views(self.logs@),
            result: opt_view(self.result),
            error: opt_payload_view(self.error),
        }
    }
}

fn copy_logs(logs: &Vec<TaskLogEntry>) -> (out: Vec<TaskLogEntry>)
    ensures
        log_views(out@) == log_views(logs@),
{
    let mut out: Vec<TaskLogEntry> = Vec::new();
    let mut i: usize = 0;
    while i < logs.len()
        invariant
            i <= logs.len(),
            log_views(out@) == log_views(logs@).take(i as int),
        decreases logs.len() - i,
    {
        let e = logs[i].duplicate();
        let ghost b = out@;
        out.push(e);
        assert(out@ =~= b.push(e));
        assert(log_views(out@) =~= log_views(b).push(logs@[i as int]@));
        assert(log_views(logs@).take(i + 1) =~= log_views(logs@).take(i as int).push(logs@[i as int]@));
        assert(log_views(out@) =~= log_views(logs@).take(i + 1));
        i = i + 1;
    }
    assert(log_views(logs@).take(logs.len() as int) =~= log_views(logs@));
    out
}

impl TaskRecord {
    /// A copy of this record.
    pub fn duplicate(&self) -> (out: TaskRecord)
        ensures
            out@ == self@,
    {
        TaskRecord {
            id: self.id,
            action: self.action.clone(),
            params: self.params.clone(),
            status: self.status,
            created_at_ms: self.created_at_ms,
            updated_at_ms: self.updated_at_ms,
            started_at_ms: self.started_at_ms,
            finished_at_ms: self.finished_at_ms,
            logs: copy_logs(&self.logs),
            result: crate::error::copy_opt_string(&self.result),
            error: match &self.error {
                Some(p) => Some(p.duplicate()),
                None => None,
            },
        }
    }
}

/// The record of a task just submitted.
pub open spec fn queued_task(id: u128, action: Seq<char>, params: Seq<char>, now: u64) -> TaskView {
    TaskView {
        id,
        action,
        params,
        status: TaskStatus::Queued,
        created_at_ms: now,
        updated_at_ms: now,
        started_at_ms: None,
        finished_at_ms: None,
        logs: Seq::<LogView>::empty(),
        result: None,
        error: None,
    }
}

/// The last `n` entries of `s` (all of them if there are fewer).
pub open spec fn keep_last<A>(s: Seq<A>, n: nat) -> Seq<A> {
    if s.len() > n {
        s.subrange(s.len() - n, s.len() as int)
    } else {
        s
    }
}

/// The mathematical value of a [`TaskStore`]: the retained tasks by id,
/// and the ids in the order they were submitted.
pub struct StoreView {
    pub tasks: Map<u128, TaskView>,
    pub order: Seq<u128>,
}

/// Drops the oldest ids, and their tasks, until at most `limit` remain.
pub open spec fn evict(tasks: Map<u128, TaskView>, order: Seq<u128>, limit: nat) -> StoreView
    decreases order.len(),
{
    if order.len() > limit && order.len() > 0 {
        evict(tasks.remove(order[0]), order.subrange(1, order.len() as int), limit)
    } else {
        StoreView { tasks, order }
    }
}

/// The store after `task` is added and the oldest tasks beyond `limit`
/// are dropped.
pub open spec fn after_insert(store: StoreView, task: TaskView, limit: nat) -> StoreView {
    evict(store.tasks.insert(task.id, task), store.order.push(task.id), limit)
}

/// The store with one task replaced.
pub open spec fn with_task(store: StoreView, task: TaskView) -> StoreView {
    StoreView { tasks: store.tasks.insert(task.id, task), order: store.order }
}

/// A task once it has started.
pub open spec fn running(task: TaskView, now: u64) -> TaskView {
    TaskView { status: TaskStatus::Running, started_at_ms: Some(now), updated_at_ms: now, ..task }
}

/// A task once it has finished with `result`.
pub open spec fn succeeded(task: TaskView, result: Seq<char>, now: u64) -> TaskView {
    TaskView {
        status: TaskStatus::Succeeded,
        result: Some(result),
        finished_at_ms: Some(now),
        updated_at_ms: now,
        ..task
    }
}

/// A task once it has failed with `error`.
pub open spec fn failed(task: TaskView, error: ErrorPayloadView, now: u64) -> TaskView {
    TaskView {
        status: TaskStatus::Failed,
        error: Some(error),
        finished_at_ms: Some(now),
        updated_at_ms: now,
        ..task
    }
}

/// A task once its action has ended: succeeded with the result, or failed
/// with the error.
pub open spec fn settled(task: TaskView, outcome: Result<Seq<char>, ErrorPayloadView>, now: u64) -> TaskView {
    match outcome {
        Ok(v) => succeeded(task, v, now),
        Err(e) => failed(task, e, now),
    }
}

/// The view of how an action ended: its result, or its error's payload.
pub open spec fn outcome_view(outcome: &Result<String, AppError>) -> Result<Seq<char>, ErrorPayloadView> {
    match outcome {
        Ok(v) => Ok(v@),
        Err(e) => Err(e@.payload),
    }
}

/// A status in which a task has ended.
pub open spec fn is_final(status: TaskStatus) -> bool {
    status == TaskStatus::Succeeded || status == TaskStatus::Failed
}

/// A task with one more log line, keeping the newest entries.
pub open spec fn logged(task: TaskView, entry: LogView, now: u64) -> TaskView {
    TaskView {
        logs: keep_last(task.logs.push(entry), MAX_TASK_LOGS as nat),
        updated_at_ms: now,
        ..task
    }
}

/// The tasks that a store holds, by id, together with the order in which
/// they were submitted.
pub struct TaskStore {
    tasks: HashMap<u128, TaskRecord>,
    order: VecDeque<u128>,
}

/// The views of the records of a map.
pub open spec fn record_views(m: Map<u128, TaskRecord>) -> Map<u128, TaskView> {
    m.map_values(|r: TaskRecord| r@)
}

impl View for TaskStore {
    type V = StoreView;

    closed spec fn view(&self) -> StoreView {
        StoreView { tasks: record_views(self.tasks@), order: self.order@ }
    }
}

/// Every retained task is stored under its own id, is listed in the
/// order, and keeps at most the maximum number of log entries.
pub open spec fn store_invariant(store: StoreView) -> bool {
    &&& store.tasks.dom().finite()
    &&& forall|id: u128| #[trigger] store.tasks.contains_key(id) ==> store.order.contains(id)
    &&& forall|id: u128| #[trigger] store.tasks.contains_key(id) ==> store.tasks[id].id == id
    &&& forall|id: u128|
        #[trigger] store.tasks.contains_key(id) ==> store.tasks[id].logs.len() <= MAX_TASK_LOGS
}

impl TaskStore {
    /// The store invariant holds.
    pub open spec fn wf(&self) -> bool {
        store_invariant(self@)
    }

    /// An empty store.
    pub fn new() -> (s: TaskStore)
        ensures
            s.wf(),
            s@.tasks == Map::<u128, TaskView>::empty(),
            s@.order == Seq::<u128>::empty(),
    {
        let s = TaskStore { tasks: HashMap::new(), order: VecDeque::new() };
        assert(s@.tasks =~= Map::<u128, TaskView>::empty());
        s
    }

    /// A copy of the task with `id`, if the store holds one.
    pub fn get_task(&self, id: u128) -> (r: Option<TaskRecord>)
        requires
            self.wf(),
        ensures
            r matches Some(t) ==> self@.tasks.contains_key(id) && t@ == self@.tasks[id],
            r is None <==> !self@.tasks.contains_key(id),
    {
        match self.tasks.get(&id) {
            Some(t) => {
                assert(self@.tasks[id] == t@);
                Some(t.duplicate())
            },
            None => None,
        }
    }
}

impl TaskStore {
    /// Adds `task` (replacing a task with the same id), then drops the
    /// oldest tasks until at most `limit` ids remain in the order.
    fn insert_task(&mut self, task: TaskRecord, limit: usize)
        requires
            old(self).wf(),
            task@.logs.len() <= MAX_TASK_LOGS,
        ensures
            final(self).wf(),
            final(self)@ == after_insert(old(self)@, task@, limit as nat),
    {
        let ghost t = task@;
        let id = task.id;
        self.tasks.insert(id, task);
        self.order.push_back(id);
        proof {
            assert(self@.tasks =~= old(self)@.tasks.insert(id, t));
            assert(self@.order == old(self)@.order.push(id));
            assert forall|x: u128| #[trigger] self@.tasks.contains_key(x) implies self@.order.contains(x) by {
                if x == id {
                    assert(self@.order[self@.order.len() - 1] == id);
                } else {
                    let k = choose|k: int| 0 <= k < old(self)@.order.len() && old(self)@.order[k] == x;
                    assert(self@.order[k] == x);
                }
            }
        }
        let ghost target = after_insert(old(self)@, t, limit as nat);
        assert(evict(self@.tasks, self@.order, limit as nat) == target);
        while self.order.len() > limit
            invariant
                store_invariant(self@),
                evict(self@.tasks, self@.order, limit as nat) == target,
            decreases self.order@.len(),
        {
            let ghost before = self@;
            match self.order.pop_front() {
                Some(oldest) => {
                    self.tasks.remove(&oldest);
                    proof {
                        assert(self@.order =~= before.order.subrange(1, before.order.len() as int));
                        assert(self@.tasks =~= before.tasks.remove(oldest));
                        assert forall|x: u128| #[trigger] self@.tasks.contains_key(x) implies self@.order.contains(x) by {
                            assert(before.tasks.contains_key(x));
                            let k = choose|k: int| 0 <= k < before.order.len() && before.order[k] == x;
                            assert(k != 0);
                            assert(self@.order[k - 1] == x);
                        }
                    }
                },
                None => {},
            }
        }
    }

    /// Accepts `request` as a new queued task with the given id and time,
    /// or refuses an action that is not supported.
    pub fn submit_with_id(
        &mut self,
        request: ExecuteTaskRequest,
        id: u128,
        now: u64,
        limit: usize,
    ) -> (r: Result<TaskRecord, AppError>)
        requires
            old(self).wf(),
        ensures
            final(self).wf(),
            supported_names().contains(request.action@) ==> (r matches Ok(t) && t@ == queued_task(
                id,
                request.action@,
                request.params@,
                now,
            ) && final(self)@ == after_insert(old(self)@, t@, limit as nat)),
            !supported_names().contains(request.action@) ==> (r matches Err(e) && e@
                == validation_error("Unsupported action: "@ + request.action@, None) && final(self)@ == old(self)@),
    {
        if !supports(request.action.as_str()) {
            let mut message = owned("Unsupported action: ");
            message.append(request.action.as_str());
            return Err(AppError::validation(message));
        }
        let task = TaskRecord {
            id,
            action: request.action,
            params: request.params,
            status: TaskStatus::Queued,
            created_at_ms: now,
            updated_at_ms: now,
            started_at_ms: None,
            finished_at_ms: None,
            logs: Vec::new(),
            result: None,
            error: None,
        };
        assert(task@.logs =~= Seq::<LogView>::empty());
        let copy = task.duplicate();
        self.insert_task(task, limit);
        Ok(copy)
    }

    /// Accepts `request` as a new queued task under a random id. Unless the
    /// id was already in use (or nothing is retained), the task can be read
    /// back at once.
    pub fn submit_task(&mut self, request: ExecuteTaskRequest, now: u64, limit: usize) -> (r: Result<
        TaskRecord,
        AppError,
    >)
        requires
            old(self).wf(),
        ensures
            final(self).wf(),
            supported_names().contains(request.action@) ==> (r matches Ok(t) && t@ == queued_task(
                t.id,
                request.action@,
                request.params@,
                now,
            ) && final(self)@ == after_insert(old(self)@, t@, limit as nat)),
            !supported_names().contains(request.action@) ==> (r matches Err(e) && e@
                == validation_error("Unsupported action: "@ + request.action@, None) && final(self)@ == old(self)@),
            r is Ok && limit >= 1 && !old(self)@.order.contains(r->Ok_0.id) ==> final(self)@.tasks.contains_key(
                r->Ok_0.id,
            ) && final(self)@.tasks[r->Ok_0.id] == r->Ok_0@,
    {
        let id = new_task_id();
        let r = self.submit_with_id(request, id, now, limit);
        proof {
            if r is Ok && limit >= 1 && !old(self)@.order.contains(r->Ok_0.id) {
                law_submitted_task_retrievable(old(self)@, r->Ok_0@, limit as nat);
            }
        }
        r
    }

    /// Applies `change` to the task with `id` and returns the changed copy,
    /// or reports that no such task is held.
    fn update_task(&mut self, id: u128, change: TaskChange) -> (r: Result<TaskRecord, AppError>)
        requires
            old(self).wf(),
        ensures
            final(self).wf(),
            !old(self)@.tasks.contains_key(id) ==> (r matches Err(e) && e@ == not_found_error(
                "Task not found."@,
            ) && final(self)@ == old(self)@),
            old(self)@.tasks.contains_key(id) ==> (r matches Ok(t) && t@ == change.apply(
                old(self)@.tasks[id],
            ) && final(self)@ == with_task(old(self)@, t@)),
    {
        match self.tasks.get(&id) {
            None => Err(AppError::not_found(owned("Task not found."))),
            Some(found) => {
                assert(self@.tasks.contains_key(id));
                assert(self@.tasks[id] == found@);
                let mut task = found.duplicate();
                change.apply_to(&mut task);
                let copy = task.duplicate();
                let ghost tv = task@;
                self.tasks.insert(id, task);
                proof {
                    assert(self@.tasks =~= old(self)@.tasks.insert(id, tv));
                }
                Ok(copy)
            },
        }
    }

    /// Marks a task as running since `now`.
    pub fn mark_running(&mut self, id: u128, now: u64) -> (r: Result<TaskRecord, AppError>)
        requires
            old(self).wf(),
        ensures
            final(self).wf(),
            !old(self)@.tasks.contains_key(id) ==> (r matches Err(e) && e@ == not_found_error(
                "Task not found."@,
            ) && final(self)@ == old(self)@),
            old(self)@.tasks.contains_key(id) ==> (r matches Ok(t) && t@ == running(
                old(self)@.tasks[id],
                now,
            ) && final(self)@ == with_task(old(self)@, t@)),
    {
        self.update_task(id, TaskChange::Start { now })
    }

    /// Marks a task as succeeded with `result` (JSON text) at `now`.
    pub fn succeed_task(&mut self, id: u128, result: String, now: u64) -> (r: Result<
        TaskRecord,
        AppError,
    >)
        requires
            old(self).wf(),
        ensures
            final(self).wf(),
            !old(self)@.tasks.contains_key(id) ==> (r matches Err(e) && e@ == not_found_error(
                "Task not found."@,
            ) && final(self)@ == old(self)@),
            old(self)@.tasks.contains_key(id) ==> (r matches Ok(t) && t@ == succeeded(
                old(self)@.tasks[id],
                result@,
                now,
            ) && final(self)@ == with_task(old(self)@, t@)),
    {
        self.update_task(id, TaskChange::Succeed { result, now })
    }

    /// Marks a task as failed with the payload of `error` at `now`.
    pub fn fail_task(&mut self, id: u128, error: &AppError, now: u64) -> (r: Result<
        TaskRecord,
        AppError,
    >)
        requires
            old(self).wf(),
        ensures
            final(self).wf(),
            !old(self)@.tasks.contains_key(id) ==> (r matches Err(e) && e@ == not_found_error(
                "Task not found."@,
            ) && final(self)@ == old(self)@),
            old(self)@.tasks.contains_key(id) ==> (r matches Ok(t) && t@ == failed(
                old(self)@.tasks[id],
                error@.payload,
                now,
            ) && final(self)@ == with_task(old(self)@, t@)),
    {
        self.update_task(id, TaskChange::Fail { error: error.payload(), now })
    }

    /// Records how the task's action ended: succeeded with its result, or
    /// failed with its error.
    pub fn finish_task(&mut self, id: u128, outcome: Result<String, AppError>, now: u64) -> (r: Result<
        TaskRecord,
        AppError,
    >)
        requires
            old(self).wf(),
        ensures
            final(self).wf(),
            !old(self)@.tasks.contains_key(id) ==> (r matches Err(e) && e@ == not_found_error(
                "Task not found."@,
            ) && final(self)@ == old(self)@),
            old(self)@.tasks.contains_key(id) ==> (r matches Ok(t) && t@ == settled(
                old(self)@.tasks[id],
                outcome_view(&outcome),
                now,
            ) && final(self)@ == with_task(old(self)@, t@)),
    {
        match outcome {
            Ok(result) => self.succeed_task(id, result, now),
            Err(error) => self.fail_task(id, &error, now),
        }
    }

    /// Adds a log line to a task, stamped `timestamp_ms`, and sets its
    /// update time to `now`; a task keeps only its newest entries.
    pub fn append_log(
        &mut self,
        id: u128,
        stream: LogStream,
        message: String,
        timestamp_ms: u64,
        now: u64,
    ) -> (r: Result<TaskRecord, AppError>)
        requires
            old(self).wf(),
        ensures
            final(self).wf(),
            !old(self)@.tasks.contains_key(id) ==> (r matches Err(e) && e@ == not_found_error(
                "Task not found."@,
            ) && final(self)@ == old(self)@),
            old(self)@.tasks.contains_key(id) ==> (r matches Ok(t) && t@ == logged(
                old(self)@.tasks[id],
                LogView { timestamp_ms, stream, message: message@ },
                now,
            ) && final(self)@ == with_task(old(self)@, t@)),
    {
        self.update_task(
            id,
            TaskChange::Log { entry: TaskLogEntry { timestamp_ms, stream, message }, now },
        )
    }
}

/// Records ordered newest first by creation time.
pub open spec fn newest_first(s: Seq<TaskRecord>) -> bool {
    forall|a: int, b: int| 0 <= a < b < s.len() ==> s[a].created_at_ms >= s[b].created_at_ms
}

/// Inserting a record before the first older one keeps the order.
proof fn lemma_insert_keeps_newest_first(before: Seq<TaskRecord>, pos: int, x: TaskRecord)
    requires
        newest_first(before),
        0 <= pos <= before.len(),
        forall|k: int| 0 <= k < pos ==> before[k].created_at_ms >= x.created_at_ms,
        pos < before.len() ==> before[pos].created_at_ms < x.created_at_ms,
    ensures
        newest_first(before.insert(pos, x)),
{
    let out = before.insert(pos, x);
    assert forall|a: int, b: int|
        0 <= a < b < out.len() implies out[a].created_at_ms >= out[b].created_at_ms by {
        if b < pos {
            assert(out[a] == before[a]);
            assert(out[b] == before[b]);
        } else if b == pos {
            assert(out[a] == before[a]);
        } else if a < pos {
            assert(out[a] == before[a]);
            assert(out[b] == before[b - 1]);
            if b - 1 > pos {
                assert(before[pos].created_at_ms >= before[b - 1].created_at_ms);
            }
        } else if a == pos {
            assert(out[b] == before[b - 1]);
            if b - 1 > pos {
                assert(before[pos].created_at_ms >= before[b - 1].created_at_ms);
            }
        } else {
            assert(out[a] == before[a - 1]);
            assert(out[b] == before[b - 1]);
        }
    }
}

impl TaskStore {
    /// Copies of all retained tasks, newest first by creation time.
    pub fn list_tasks(&self) -> (out: Vec<TaskRecord>)
        requires
            self.wf(),
        ensures
            forall|k: int|
                0 <= k < out@.len() ==> self@.tasks.contains_key(#[trigger] out@[k].id)
                    && self@.tasks[out@[k].id] == out@[k]@,
            forall|id: u128|
                #[trigger] self@.tasks.contains_key(id) ==> exists|k: int|
                    0 <= k < out@.len() && out@[k].id == id,
            forall|a: int, b: int| 0 <= a < b < out@.len() ==> out@[a].id != out@[b].id,
            newest_first(out@),
    {
        let mut out: Vec<TaskRecord> = Vec::new();
        let mut i: usize = 0;
        while i < self.order.len()
            invariant
                self.wf(),
                i <= self@.order.len(),
                forall|k: int|
                    0 <= k < out@.len() ==> self@.tasks.contains_key(#[trigger] out@[k].id)
                        && self@.tasks[out@[k].id] == out@[k]@,
                forall|j: int|
                    0 <= j < i && #[trigger] self@.tasks.contains_key(self@.order[j]) ==> exists|k: int|
                        0 <= k < out@.len() && out@[k].id == self@.order[j],
                forall|a: int, b: int| 0 <= a < b < out@.len() ==> out@[a].id != out@[b].id,
                newest_first(out@),
            decreases self@.order.len() - i,
        {
            let id = self.order[i];
            match self.tasks.get(&id) {
                None => {},
                Some(found) => {
                    assert(self@.tasks.contains_key(id));
                    assert(self@.tasks[id] == found@);
                    let mut seen = false;
                    let mut k: usize = 0;
                    while k < out.len()
                        invariant
                            k <= out@.len(),
                            seen ==> exists|m: int| 0 <= m < out@.len() && out@[m].id == id,
                            !seen ==> forall|m: int| 0 <= m < k ==> out@[m].id != id,
                        decreases out.len() - k,
                    {
                        if out[k].id == id {
                            seen = true;
                        }
                        k = k + 1;
                    }
                    if !seen {
                        let rec = found.duplicate();
                        let created = rec.created_at_ms;
                        let mut pos: usize = 0;
                        while pos < out.len() && out[pos].created_at_ms >= created
                            invariant
                                pos <= out@.len(),
                                forall|m: int| 0 <= m < pos ==> out@[m].created_at_ms >= created,
                                newest_first(out@),
                            decreases out.len() - pos,
                        {
                            pos = pos + 1;
                        }
                        let ghost before = out@;
                        out.insert(pos, rec);
                        proof {
                            let p = pos as int;
                            lemma_insert_keeps_newest_first(before, p, out@[p]);
                            assert(out@ == before.insert(p, out@[p]));
                            assert(self@.tasks[id].id == id);
                            assert forall|m: int|
                                0 <= m < out@.len() implies self@.tasks.contains_key(#[trigger] out@[m].id)
                                    && self@.tasks[out@[m].id] == out@[m]@ by {
                                if m < p {
                                    assert(out@[m] == before[m]);
                                } else if m > p {
                                    assert(out@[m] == before[m - 1]);
                                }
                            }
                            assert forall|j: int|
                                0 <= j <= i && #[trigger] self@.tasks.contains_key(self@.order[j]) implies exists|m: int|
                                    0 <= m < out@.len() && out@[m].id == self@.order[j] by {
                                if j < i {
                                    let m = choose|m: int| 0 <= m < before.len() && before[m].id == self@.order[j];
                                    if m < p {
                                        assert(out@[m] == before[m]);
                                    } else {
                                        assert(out@[m + 1] == before[m]);
                                    }
                                } else {
                                    assert(out@[p].id == id);
                                }
                            }
                            assert forall|a: int, b: int| 0 <= a < b < out@.len() implies out@[a].id != out@[b].id by {
                                if a < p && b < p {
                                    assert(out@[a] == before[a]);
                                    assert(out@[b] == before[b]);
                                } else if a < p && b == p {
                                    assert(out@[a] == before[a]);
                                } else if a < p {
                                    assert(out@[a] == before[a]);
                                    assert(out@[b] == before[b - 1]);
                                } else if a == p {
                                    assert(out@[b] == before[b - 1]);
                                } else {
                                    assert(out@[a] == before[a - 1]);
                                    assert(out@[b] == before[b - 1]);
                                }
                            }
                        }
                    }
                },
            }
            i = i + 1;
        }
        proof {
            assert forall|id: u128| #[trigger] self@.tasks.contains_key(id) implies exists|k: int|
                0 <= k < out@.len() && out@[k].id == id by {
                let j = choose|j: int| 0 <= j < self@.order.len() && self@.order[j] == id;
                assert(self@.tasks.contains_key(self@.order[j]));
            }
        }
        out
    }
}

/// `evict` keeps the store invariant and leaves at most `limit` ids.
proof fn lemma_evict(tasks: Map<u128, TaskView>, order: Seq<u128>, limit: nat)
    requires
        store_invariant(StoreView { tasks, order }),
    ensures
        store_invariant(evict(tasks, order, limit)),
        evict(tasks, order, limit).order.len() <= limit,
    decreases order.len(),
{
    if order.len() > limit && order.len() > 0 {
        let t2 = tasks.remove(order[0]);
        let o2 = order.subrange(1, order.len() as int);
        assert forall|x: u128| #[trigger] t2.contains_key(x) implies o2.contains(x) by {
            let k = choose|k: int| 0 <= k < order.len() && order[k] == x;
            assert(k != 0);
            assert(o2[k - 1] == x);
        }
        lemma_evict(t2, o2, limit);
    }
}

/// The id most recently pushed survives `evict` while `limit` is at
/// least one and the id occurs nowhere earlier in the order.
proof fn lemma_evict_keeps_newest(
    tasks: Map<u128, TaskView>,
    order: Seq<u128>,
    limit: nat,
    id: u128,
)
    requires
        limit >= 1,
        order.len() >= 1,
        order.last() == id,
        !order.drop_last().contains(id),
        tasks.contains_key(id),
    ensures
        evict(tasks, order, limit).tasks.contains_key(id),
        evict(tasks, order, limit).tasks[id] == tasks[id],
    decreases order.len(),
{
    if order.len() > limit && order.len() > 0 {
        let o2 = order.subrange(1, order.len() as int);
        assert(order.drop_last()[0] == order[0]);
        assert(order[0] != id);
        assert(o2.last() == id);
        assert forall|k: int| 0 <= k < o2.drop_last().len() implies o2.drop_last()[k] != id by {
            assert(o2.drop_last()[k] == order.drop_last()[k + 1]);
        }
        lemma_evict_keeps_newest(tasks.remove(order[0]), o2, limit, id);
    }
}

/// Adding a task never leaves more than `limit` tasks retained, and the
/// store invariant still holds.
pub proof fn law_retained_tasks_bounded(store: StoreView, task: TaskView, limit: nat)
    requires
        store_invariant(store),
        task.logs.len() <= MAX_TASK_LOGS,
    ensures
        store_invariant(after_insert(store, task, limit)),
        after_insert(store, task, limit).order.len() <= limit,
        after_insert(store, task, limit).tasks.dom().len() <= limit,
{
    let tasks = store.tasks.insert(task.id, task);
    let order = store.order.push(task.id);
    assert forall|x: u128| #[trigger] tasks.contains_key(x) implies order.contains(x) by {
        if x == task.id {
            assert(order[order.len() - 1] == x);
        } else {
            let k = choose|k: int| 0 <= k < store.order.len() && store.order[k] == x;
            assert(order[k] == x);
        }
    }
    lemma_evict(tasks, order, limit);
    let after = after_insert(store, task, limit);
    assert(after.tasks.dom().subset_of(after.order.to_set()));
    after.order.lemma_cardinality_of_set();
    vstd::set_lib::lemma_len_subset(after.tasks.dom(), after.order.to_set());
}

/// A task just submitted can be read back unchanged, provided at least
/// one task is retained and its id was not in use.
pub proof fn law_submitted_task_retrievable(store: StoreView, task: TaskView, limit: nat)
    requires
        limit >= 1,
        !store.order.contains(task.id),
    ensures
        after_insert(store, task, limit).tasks.contains_key(task.id),
        after_insert(store, task, limit).tasks[task.id] == task,
{
    let order = store.order.push(task.id);
    assert(order.drop_last() =~= store.order);
    lemma_evict_keeps_newest(store.tasks.insert(task.id, task), order, limit, task.id);
}

/// A log line is kept as the newest entry, the entries before it are the
/// newest of the earlier ones, and a task never holds more than the
/// maximum number of entries.
pub proof fn law_log_keeps_newest(task: TaskView, entry: LogView, now: u64)
    requires
        task.logs.len() <= MAX_TASK_LOGS,
    ensures
        logged(task, entry, now).logs.len() <= MAX_TASK_LOGS,
        logged(task, entry, now).logs.last() == entry,
        logged(task, entry, now).logs.drop_last() == keep_last(
            task.logs,
            (MAX_TASK_LOGS - 1) as nat,
        ),
{
    let all = task.logs.push(entry);
    let kept = logged(task, entry, now).logs;
    if all.len() > MAX_TASK_LOGS {
        assert(kept.drop_last() =~= keep_last(task.logs, (MAX_TASK_LOGS - 1) as nat));
    } else {
        assert(kept.drop_last() =~= task.logs);
    }
}

/// A finished task reads back as finished: succeeded with its result, or
/// failed with its error, at its finish time, keeping its creation and
/// start times; every other task and the order of submission stay as they
/// were.
pub proof fn law_finished_task_reads_back(
    store: StoreView,
    id: u128,
    result: Seq<char>,
    error: ErrorPayloadView,
    now: u64,
    other: u128,
)
    requires
        store_invariant(store),
        store.tasks.contains_key(id),
        other != id,
    ensures
        ({
            let task = store.tasks[id];
            let done = with_task(store, succeeded(task, result, now));
            &&& done.tasks[id].status == TaskStatus::Succeeded
            &&& done.tasks[id].result == Some(result)
            &&& done.tasks[id].finished_at_ms == Some(now)
            &&& done.tasks[id].created_at_ms == task.created_at_ms
            &&& done.tasks[id].started_at_ms == task.started_at_ms
            &&& done.order == store.order
            &&& done.tasks.contains_key(other) == store.tasks.contains_key(other)
            &&& store.tasks.contains_key(other) ==> done.tasks[other] == store.tasks[other]
        }),
        ({
            let task = store.tasks[id];
            let done = with_task(store, failed(task, error, now));
            &&& done.tasks[id].status == TaskStatus::Failed
            &&& done.tasks[id].error == Some(error)
            &&& done.tasks[id].finished_at_ms == Some(now)
            &&& done.tasks[id].created_at_ms == task.created_at_ms
            &&& done.tasks[id].started_at_ms == task.started_at_ms
            &&& done.order == store.order
            &&& done.tasks.contains_key(other) == store.tasks.contains_key(other)
            &&& store.tasks.contains_key(other) ==> done.tasks[other] == store.tasks[other]
        }),
{
}

/// A task's run ends in exactly one final state: a queued task that starts
/// and then ends is running in between, and ends succeeded with the
/// result and no error, or failed with the error and no result, with its
/// start and finish times; a log line added afterwards leaves that state,
/// result and error as they were.
pub proof fn law_task_lifecycle(
    task: TaskView,
    start: u64,
    outcome: Result<Seq<char>, ErrorPayloadView>,
    end: u64,
    entry: LogView,
    later: u64,
)
    requires
        task.status == TaskStatus::Queued,
        task.result is None,
        task.error is None,
    ensures
        running(task, start).status == TaskStatus::Running,
        !is_final(running(task, start).status),
        ({
            let done = settled(running(task, start), outcome, end);
            &&& is_final(done.status)
            &&& done.started_at_ms == Some(start)
            &&& done.finished_at_ms == Some(end)
            &&& outcome matches Ok(v) ==> done.status == TaskStatus::Succeeded && done.result == Some(v)
                && done.error is None
            &&& outcome matches Err(e) ==> done.status == TaskStatus::Failed && done.error == Some(e)
                && done.result is None
            &&& logged(done, entry, later).status == done.status
            &&& logged(done, entry, later).result == done.result
            &&& logged(done, entry, later).error == done.error
            &&& logged(done, entry, later).finished_at_ms == done.finished_at_ms
        }),
{
}

/// Evicting from an order without repeated ids, whose ids are exactly the
/// held tasks, keeps the last `limit` ids and exactly their tasks.
proof fn lemma_evict_exact(tasks: Map<u128, TaskView>, order: Seq<u128>, limit: nat)
    requires
        order.no_duplicates(),
        forall|x: u128| #[trigger] tasks.contains_key(x) <==> order.contains(x),
    ensures
        evict(tasks, order, limit).order == keep_last(order, limit),
        forall|x: u128| #[trigger] evict(tasks, order, limit).tasks.contains_key(x) <==> evict(
            tasks,
            order,
            limit,
        ).order.contains(x),
        forall|x: u128| #[trigger] evict(tasks, order, limit).tasks.contains_key(x) ==> evict(
            tasks,
            order,
            limit,
        ).tasks[x] == tasks[x],
    decreases order.len(),
{
    if order.len() > limit && order.len() > 0 {
        let t2 = tasks.remove(order[0]);
        let o2 = order.subrange(1, order.len() as int);
        assert forall|x: u128| #[trigger] t2.contains_key(x) <==> o2.contains(x) by {
            if t2.contains_key(x) {
                let k = choose|k: int| 0 <= k < order.len() && order[k] == x;
                assert(k != 0);
                assert(o2[k - 1] == x);
            }
            if o2.contains(x) {
                let k = choose|k: int| 0 <= k < o2.len() && o2[k] == x;
                assert(order[k + 1] == x);
                assert(x != order[0]);
            }
        }
        lemma_evict_exact(t2, o2, limit);
        assert(keep_last(o2, limit) =~= keep_last(order, limit));
    }
}

/// Submitting keeps exactly the newest ids, in order: when the ids in the
/// order are distinct, are exactly those of the held tasks, and the new id
/// is fresh, the order becomes the last `limit` of the old ids followed by
/// the new one, the store holds a task for exactly those ids (the new task
/// under its id, every other one unchanged), and nothing else.
pub proof fn law_store_keeps_newest(store: StoreView, task: TaskView, limit: nat)
    requires
        store.order.no_duplicates(),
        forall|x: u128| #[trigger] store.tasks.contains_key(x) <==> store.order.contains(x),
        !store.order.contains(task.id),
    ensures
        ({
            let after = after_insert(store, task, limit);
            &&& after.order == keep_last(store.order.push(task.id), limit)
            &&& after.order.no_duplicates()
            &&& forall|x: u128| #[trigger] after.tasks.contains_key(x) <==> after.order.contains(x)
            &&& forall|x: u128|
                #[trigger] after.tasks.contains_key(x) ==> after.tasks[x] == (if x == task.id {
                    task
                } else {
                    store.tasks[x]
                })
        }),
{
    let tasks = store.tasks.insert(task.id, task);
    let order = store.order.push(task.id);
    assert(order.no_duplicates()) by {
        assert forall|a: int, b: int| 0 <= a < b < order.len() implies order[a] != order[b] by {
            if b == order.len() - 1 {
                assert(order[a] == store.order[a]);
            } else {
                assert(order[a] == store.order[a]);
                assert(order[b] == store.order[b]);
            }
        }
    }
    assert forall|x: u128| #[trigger] tasks.contains_key(x) <==> order.contains(x) by {
        if x == task.id {
            assert(order[order.len() - 1] == x);
        } else {
            if store.order.contains(x) {
                let k = choose|k: int| 0 <= k < store.order.len() && store.order[k] == x;
                assert(order[k] == x);
            }
            if order.contains(x) {
                let k = choose|k: int| 0 <= k < order.len() && order[k] == x;
                assert(k < store.order.len());
                assert(store.order[k] == x);
            }
        }
    }
    lemma_evict_exact(tasks, order, limit);
    let after = after_insert(store, task, limit);
    assert(after.order.no_duplicates()) by {
        if order.len() > limit {
            assert forall|a: int, b: int| 0 <= a < b < after.order.len() implies after.order[a]
                != after.order[b] by {
                let d = order.len() - limit;
                assert(after.order[a] == order[a + d]);
                assert(after.order[b] == order[b + d]);
            }
        }
    }
}

/// A change to one task.
pub enum TaskChange {
    Start { now: u64 },
    Succeed { result: String, now: u64 },
    Fail { error: ErrorPayload, now: u64 },
    Log { entry: TaskLogEntry, now: u64 },
}

impl TaskChange {
    /// The task after the change.
    pub open spec fn apply(&self, task: TaskView) -> TaskView {
        match self {
            TaskChange::Start { now } => running(task, *now),
            TaskChange::Succeed { result, now } => succeeded(task, result@, *now),
            TaskChange::Fail { error, now } => failed(task, error@, *now),
            TaskChange::Log { entry, now } => logged(task, entry@, *now),
        }
    }

    /// Applies the change to `task`.
    fn apply_to(self, task: &mut TaskRecord)
        requires
            old(task)@.logs.len() <= MAX_TASK_LOGS,
        ensures
            final(task)@ == self.apply(old(task)@),
            final(task)@.id == old(task)@.id,
            final(task)@.logs.len() <= MAX_TASK_LOGS,
    {
        match self {
            TaskChange::Start { now } => {
                task.status = TaskStatus::Running;
                task.started_at_ms = Some(now);
                task.updated_at_ms = now;
            },
            TaskChange::Succeed { result, now } => {
                task.status = TaskStatus::Succeeded;
                task.result = Some(result);
                task.finished_at_ms = Some(now);
                task.updated_at_ms = now;
            },
            TaskChange::Fail { error, now } => {
                task.status = TaskStatus::Failed;
                task.error = Some(error);
                task.finished_at_ms = Some(now);
                task.updated_at_ms = now;
            },
            TaskChange::Log { entry, now } => {
                let ghost before = log_views(task.logs@);
                let ghost e = entry@;
                task.logs.push(entry);
                assert(log_views(task.logs@) =~= before.push(e));
                if task.logs.len() > MAX_TASK_LOGS {
                    let split_at = task.logs.len() - MAX_TASK_LOGS;
                    let kept = task.logs.split_off(split_at);
                    task.logs = kept;
                    assert(log_views(task.logs@) =~= keep_last(before.push(e), MAX_TASK_LOGS as nat));
                }
                task.updated_at_ms = now;
            },
        }
    }
}

/// A fresh random task id (`Uuid::new_v4`). Nothing is promised of its
/// value but the version and variant bits that a version 4 id carries.
#[verifier::external_body]
fn new_task_id() -> (id: u128)
    ensures
        id & 0x0000_0000_0000_f000_c000_0000_0000_0000u128 == 0x0000_0000_0000_4000_8000_0000_0000_0000u128,
{
    uuid::Uuid::new_v4().as_u128()
}

/// How a program run is checked and logged.
#[derive(Debug, Clone, Copy)]
pub struct RunOptions {
    pub enforce_command_allowlist: bool,
    pub log_command: bool,
    pub log_output: bool,
}

impl RunOptions {
    /// No allowlist check and no logging.
    pub fn quiet() -> (o: RunOptions)
        ensures
            !o.enforce_command_allowlist && !o.log_command && !o.log_output,
    {
        RunOptions { enforce_command_allowlist: false, log_command: false, log_output: false }
    }

    /// No allowlist check; the command and its output are logged.
    pub fn logged() -> (o: RunOptions)
        ensures
            !o.enforce_command_allowlist && o.log_command && o.log_output,
    {
        RunOptions { enforce_command_allowlist: false, log_command: true, log_output: true }
    }
}

/// What `ensure_program_allowed` gives.
pub open spec fn program_check(program: Seq<char>, allowed: Seq<Seq<char>>) -> Result<(), AppErrorView> {
    if program.contains('/') || program.contains('\\') {
        Err(validation_error("program must be a bare executable name, not a path."@, None))
    } else if allowed.contains(program) {
        Ok(())
    } else {
        Err(forbidden_error("Program is not allowed: "@ + program))
    }
}

/// The view of a result without a value.
pub open spec fn unit_result_view(r: &Result<(), AppError>) -> Result<(), AppErrorView> {
    match r {
        Ok(()) => Ok(()),
        Err(e) => Err(e@),
    }
}

/// Accepts a bare program name that the configuration allows; a path is
/// rejected, and an unlisted name is forbidden.
pub fn ensure_program_allowed(program: &str, config: &crate::config::Config) -> (r: Result<(), AppError>)
    ensures
        unit_result_view(&r) == program_check(program@, views(config.command_allowed_programs@)),
{
    let v = chars_of(program);
    if contains_char(v.as_slice(), '/') || contains_char(v.as_slice(), '\\') {
        return Err(AppError::validation(owned("program must be a bare executable name, not a path.")));
    }
    let allowed = &config.command_allowed_programs;
    let mut i: usize = 0;
    while i < allowed.len()
        invariant
            i <= allowed.len(),
            v@ == program@,
            !program@.contains('/') && !program@.contains('\\'),
            allowed@ == config.command_allowed_programs@,
            forall|j: int| 0 <= j < i ==> allowed@[j]@ != program@,
        decreases allowed.len() - i,
    {
        let a = chars_of(allowed[i].as_str());
        if crate::text::chars_equal(a.as_slice(), v.as_slice()) {
            assert(views(allowed@)[i as int] == program@);
            return Ok(());
        }
        i = i + 1;
    }
    proof {
        if views(allowed@).contains(program@) {
            let j = choose|j: int| 0 <= j < views(allowed@).len() && views(allowed@)[j] == program@;
            assert(allowed@[j]@ == program@);
        }
    }
    let mut message = owned("Program is not allowed: ");
    message.append(program);
    Err(AppError::forbidden(message))
}

/// The log line for a command: `$ `, the program, a space and the
/// arguments joined with spaces.
pub open spec fn command_line(program: Seq<char>, args: Seq<Seq<char>>) -> Seq<char> {
    seq!['$', ' '] + program + seq![' '] + join(args, seq![' '])
}

/// The log line recorded before a program runs.
pub fn command_log_line(program: &str, args: &Vec<String>) -> (line: String)
    ensures
        line@ == command_line(program@, views(args@)),
{
    let mut v: Vec<char> = vec!['$', ' '];
    push_str(&mut v, program);
    v.push(' ');
    let sp = vec![' '];
    assert(sp@ =~= seq![' ']);
    push_joined(&mut v, args, sp.as_slice());
    assert(v@ =~= command_line(program@, views(args@)));
    string_from_chars(v.as_slice())
}

/// The checks before a program runs: the allowlist when the options ask
/// for it, then the command's log line when they ask for logging.
pub fn prepare_run(
    program: &str,
    args: &Vec<String>,
    options: RunOptions,
    config: &crate::config::Config,
) -> (r: Result<Option<String>, AppError>)
    ensures
        options.enforce_command_allowlist && program_check(program@, views(config.command_allowed_programs@)) is Err
            ==> (r matches Err(e) && Err::<(), AppErrorView>(e@) == program_check(program@, views(config.command_allowed_programs@))),
        !(options.enforce_command_allowlist && program_check(program@, views(config.command_allowed_programs@)) is Err)
            ==> (r matches Ok(line) && (options.log_command ==> (line matches Some(l) && l@ == command_line(program@, views(args@))))
                && (!options.log_command ==> line is None)),
{
    if options.enforce_command_allowlist {
        match ensure_program_allowed(program, config) {
            Ok(()) => {},
            Err(e) => return Err(e),
        }
    }
    if options.log_command {
        Ok(Some(command_log_line(program, args)))
    } else {
        Ok(None)
    }
}

/// One line to append to a task's log.
#[derive(Debug, Clone)]
pub struct LogLine {
    pub stream: LogStream,
    pub message: String,
}

/// The log lines of a finished run: each line of standard output, then
/// each line of standard error.
pub open spec fn output_lines(stdout: Seq<char>, stderr: Seq<char>) -> Seq<(LogStream, Seq<char>)> {
    lines(stdout).map_values(|l: Seq<char>| (LogStream::Stdout, l)) + lines(stderr).map_values(
        |l: Seq<char>| (LogStream::Stderr, l),
    )
}

/// The view of log lines.
pub open spec fn log_line_views(v: Seq<LogLine>) -> Seq<(LogStream, Seq<char>)> {
    v.map_values(|l: LogLine| (l.stream, l.message@))
}

fn push_stream_lines(out: &mut Vec<LogLine>, text: &str, stream: LogStream)
    ensures
        log_line_views(final(out)@) == log_line_views(old(out)@) + lines(text@).map_values(
            |l: Seq<char>| (stream, l),
        ),
{
    let v = chars_of(text);
    let ls = lines_chars(v.as_slice());
    let ghost start = log_line_views(out@);
    let ghost target = lines(text@).map_values(|l: Seq<char>| (stream, l));
    let mut i: usize = 0;
    while i < ls.len()
        invariant
            i <= ls.len(),
            char_vec_views(ls@) == lines(text@),
            target == lines(text@).map_values(|l: Seq<char>| (stream, l)),
            log_line_views(out@) == start + target.take(i as int),
        decreases ls.len() - i,
    {
        let ghost before = out@;
        out.push(LogLine { stream, message: string_from_chars(ls[i].as_slice()) });
        assert(log_line_views(out@) =~= log_line_views(before).push((stream, ls@[i as int]@)));
        assert(target.take(i + 1) =~= target.take(i as int).push((stream, ls@[i as int]@)));
        assert(log_line_views(out@) =~= start + target.take(i + 1));
        i = i + 1;
    }
    assert(target.take(ls.len() as int) =~= target);
}

/// The lines logged after a run: the output's lines when the options ask
/// for output logging, otherwise none.
pub fn output_log_lines(output: &ProcessOutput, options: RunOptions) -> (out: Vec<LogLine>)
    ensures
        options.log_output ==> log_line_views(out@) == output_lines(output.stdout@, output.stderr@),
        !options.log_output ==> out@.len() == 0,
{
    let mut out: Vec<LogLine> = Vec::new();
    if options.log_output {
        push_stream_lines(&mut out, output.stdout.as_str(), LogStream::Stdout);
        push_stream_lines(&mut out, output.stderr.as_str(), LogStream::Stderr);
        assert(log_line_views(out@) =~= output_lines(output.stdout@, output.stderr@));
    }
    out
}
/// A program may run under the allowlist exactly when it is a bare name
/// (no `/` or `\`) that the allowlist holds; a path is rejected as
/// invalid (400), and a bare name that is not listed is forbidden (403).
pub proof fn law_program_allowlist(program: Seq<char>, allowed: Seq<Seq<char>>)
    ensures
        (program_check(program, allowed) is Ok) == (!program.contains('/') && !program.contains('\\')
            && allowed.contains(program)),
        program_check(program, allowed) matches Err(e) ==> (e.status == 400) == (program.contains('/')
            || program.contains('\\')),
        program_check(program, allowed) matches Err(e) ==> (e.status == 403) == (!program.contains('/')
            && !program.contains('\\')),
{
}

/// Every line a run prints is logged once, in order: first each line of
/// standard output as `stdout`, then each line of standard error as
/// `stderr`, and no logged message holds a line break.
pub proof fn law_output_logging(stdout: Seq<char>, stderr: Seq<char>)
    ensures
        ({
            let o = output_lines(stdout, stderr);
            let n = lines(stdout).len();
            &&& o.len() == n + lines(stderr).len()
            &&& forall|i: int| 0 <= i < n ==> #[trigger] o[i] == (LogStream::Stdout, lines(stdout)[i])
            &&& forall|j: int|
                0 <= j < lines(stderr).len() ==> #[trigger] o[n + j] == (LogStream::Stderr, lines(stderr)[j])
        }),
        forall|i: int, k: int|
            0 <= i < lines(stdout).len() && 0 <= k < lines(stdout)[i].len() ==> lines(stdout)[i][k] != '\n',
{
    let o = output_lines(stdout, stderr);
    let n = lines(stdout).len();
    assert forall|j: int| 0 <= j < lines(stderr).len() implies #[trigger] o[n + j] == (
        LogStream::Stderr,
        lines(stderr)[j],
    ) by {
        assert(o[n + j] == lines(stderr).map_values(|l: Seq<char>| (LogStream::Stderr, l))[j]);
    }
    lemma_lines_lack_newline(stdout);
}

/// No line holds a line break.
proof fn lemma_lines_lack_newline(s: Seq<char>)
    ensures
        forall|i: int, k: int| 0 <= i < lines(s).len() && 0 <= k < lines(s)[i].len() ==> lines(s)[i][k] != '\n',
{
    let pieces = split(s, '\n');
    lemma_split_pieces_lack_sep(s, '\n');
    lemma_split_nonempty(s, '\n');
    let ls = lines(s);
    assert forall|i: int, k: int| 0 <= i < ls.len() && 0 <= k < ls[i].len() implies ls[i][k] != '\n' by {
        if i < pieces.len() - 1 {
            let p = pieces[i];
            assert(ls[i] == strip_cr(p));
            if p.len() > 0 && p.last() == '\r' {
                assert(ls[i][k] == p[k]);
            }
        } else {
            assert(ls[i] == pieces.last());
            assert(ls[i][k] == pieces[pieces.len() - 1][k]);
        }
    }
}

} // verus!
