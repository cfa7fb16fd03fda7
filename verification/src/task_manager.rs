//! The task supervisor: a registry of named jobs, each with its own restart
//! budget, and the decisions that start, restart and stop them.
//!
//! The supervisor decides; it does not run anything. Its driver enters the
//! running phase with [`TaskManager::run_tasks`], invokes the entry point
//! of each task that was granted, reports each return with
//! [`TaskManager::task_exited`], and goes on as the answer says. The driver
//! runs the tasks side by side; a step for one task touches no other.

use vstd::prelude::*;
use vstd::string::*;

verus! {

/// The budget that stands for "restart without limit".
pub const UNLIMITED_RESTARTS: i32 = -1;

/// Seconds between two reports of the monitor task.
pub const TASK_MONITOR_TIME: u64 = 600;

/// What the supervisor tells its driver to do with a task.
#[derive(Clone, Copy, Debug, PartialEq, Eq, Structural)]
pub enum TaskAction {
    /// Invoke the entry point for the first time.
    Start,
    /// Invoke the entry point again after an exit.
    Restart,
    /// The budget is used up: never invoke the task again.
    Stop,
}

/// How an invocation of a task ended. The supervisor restarts on either.
#[derive(Clone, Copy, Debug, PartialEq, Eq, Structural)]
pub enum TaskExit {
    /// The entry point returned success.
    Completed,
    /// The entry point returned an error.
    Failed,
}

/// The model of a task's status.
pub struct TaskState {
    /// The restart budget; `-1` stands for no limit.
    pub max_restarts: int,
    /// The number of exits counted so far.
    pub restart_count: int,
    /// Whether an invocation is under way.
    pub alive: bool,
}

impl TaskState {
    /// The status of a task that was registered with this budget and has
    /// not run yet.
    pub open spec fn fresh(max_restarts: int) -> TaskState {
        TaskState { max_restarts, restart_count: 0, alive: false }
    }

    /// Whether the budget allows one more restart.
    pub open spec fn within_budget(self) -> bool {
        self.max_restarts == UNLIMITED_RESTARTS || self.restart_count <= self.max_restarts
    }

    /// What the supervisor decides for a task in this state: the first
    /// invocation is always granted, every later one while the budget
    /// lasts.
    pub open spec fn next_action(self) -> TaskAction {
        if self.restart_count == 0 {
            TaskAction::Start
        } else if self.within_budget() {
            TaskAction::Restart
        } else {
            TaskAction::Stop
        }
    }

    /// The state once an invocation has begun.
    pub open spec fn started(self) -> TaskState {
        TaskState { alive: true, ..self }
    }

    /// The state once an invocation has returned, with success or with an
    /// error alike: one more exit is counted. The count stops at
    /// `i32::MAX` and never wraps, so that a task that was stopped stays
    /// stopped.
    pub open spec fn exited(self) -> TaskState {
        TaskState {
            restart_count: if self.restart_count < i32::MAX {
                self.restart_count + 1
            } else {
                self.restart_count
            },
            alive: false,
            ..self
        }
    }

    /// The state with the invocation begun if `next_action` grants one,
    /// the state unchanged if it does not.
    pub open spec fn launched(self) -> TaskState {
        if self.next_action() == TaskAction::Stop {
            self
        } else {
            self.started()
        }
    }

    /// The state after `n` rounds in which the driver launched the task
    /// and the invocation, if one was granted, returned.
    pub open spec fn after_runs(self, n: nat) -> TaskState
        decreases n,
    {
        if n == 0 {
            self
        } else {
            self.after_runs((n - 1) as nat).launched().exited()
        }
    }
}

/// The status of one task: its budget, its count of exits and its
/// liveness flag.
#[derive(Clone, Copy, Debug)]
pub struct BotTaskStatus {
    max_restarts: i32,
    restart_status: i32,
    is_alive: bool,
}

impl View for BotTaskStatus {
    type V = TaskState;

    closed spec fn view(&self) -> TaskState {
        TaskState {
            max_restarts: self.max_restarts as int,
            restart_count: self.restart_status as int,
            alive: self.is_alive,
        }
    }
}

impl Default for BotTaskStatus {
    /// A status with no budget for restarts, no exit counted, not alive.
    fn default() -> (status: Self)
        ensures
            status@ == TaskState::fresh(0),
    {
        BotTaskStatus { max_restarts: 0, restart_status: 0, is_alive: false }
    }
}

/// Why a question to a task's status could not be answered.
#[derive(Clone, Copy, Debug, PartialEq, Eq, Structural)]
pub enum TaskError {
    /// The status cannot be read.
    Unavailable,
}

impl BotTaskStatus {
    /// The status of a task that has not run yet.
    pub fn new(max_restarts: i32) -> (status: Self)
        ensures
            status@ == TaskState::fresh(max_restarts as int),
    {
        BotTaskStatus { max_restarts, restart_status: 0, is_alive: false }
    }

    /// Replaces the restart budget.
    pub fn set_max_restarts(&mut self, max_restarts: i32)
        ensures
            final(self)@ == (TaskState { max_restarts: max_restarts as int, ..old(self)@ }),
    {
        self.max_restarts = max_restarts;
    }

    /// Replaces the count of exits.
    pub fn set_restart_status(&mut self, restart_status: i32)
        ensures
            final(self)@ == (TaskState { restart_count: restart_status as int, ..old(self)@ }),
    {
        self.restart_status = restart_status;
    }

    /// A copy of the status as it is now.
    pub fn get_stats(&self) -> (stats: BotTaskStatus)
        ensures
            stats == *self,
    {
        *self
    }

    /// Reads the liveness flag. Reading never fails; the flag itself is
    /// [`BotTaskStatus::alive`].
    pub fn is_alive(&self) -> (read: Result<(), TaskError>)
        ensures
            read == Ok::<(), TaskError>(()),
    {
        let _ = self.is_alive;
        Ok(())
    }

    /// The restart budget.
    pub fn max_restarts(&self) -> (n: i32)
        ensures
            n == self@.max_restarts,
    {
        self.max_restarts
    }

    /// The number of exits counted so far.
    pub fn restart_status(&self) -> (n: i32)
        ensures
            n == self@.restart_count,
    {
        self.restart_status
    }

    /// Whether an invocation is under way.
    pub fn alive(&self) -> (flag: bool)
        ensures
            flag == self@.alive,
    {
        self.is_alive
    }

    /// What the supervisor decides for the task now.
    pub fn next_action(&self) -> (action: TaskAction)
        ensures
            action == self@.next_action(),
    {
        if self.restart_status == 0 {
            TaskAction::Start
        } else if self.max_restarts == UNLIMITED_RESTARTS || self.restart_status
            <= self.max_restarts {
            TaskAction::Restart
        } else {
            TaskAction::Stop
        }
    }

    /// Records that an invocation has begun.
    pub fn mark_started(&mut self)
        ensures
            final(self)@ == old(self)@.started(),
    {
        self.is_alive = true;
    }

    /// Records that an invocation has returned, however it ended.
    pub fn mark_exited(&mut self)
        ensures
            final(self)@ == old(self)@.exited(),
    {
        if self.restart_status < i32::MAX {
            self.restart_status = self.restart_status + 1;
        }
        self.is_alive = false;
    }
}

/// The model of a registered task: its name, its entry point and its
/// status.
pub struct TaskRecord<F> {
    /// The name it was registered under.
    pub name: Seq<char>,
    /// The entry point that the driver invokes.
    pub function: F,
    /// Budget, count of exits and liveness flag.
    pub status: TaskState,
}

/// One registered task. `F` is the type of the entry point: something the
/// driver can invoke without arguments and that resolves to a result.
pub struct BotTask<F> {
    name: String,
    function: F,
    task_status: BotTaskStatus,
}

impl<F> View for BotTask<F> {
    type V = TaskRecord<F>;

    closed spec fn view(&self) -> TaskRecord<F> {
        TaskRecord { name: self.name@, function: self.function, status: self.task_status@ }
    }
}

impl<F> BotTask<F> {
    /// A task that has not run yet.
    pub fn new(name: &str, task: F, max_restarts: i32) -> (bot_task: Self)
        ensures
            bot_task@ == (TaskRecord {
                name: name@,
                function: task,
                status: TaskState::fresh(max_restarts as int),
            }),
    {
        BotTask {
            name: String::from_str(name),
            function: task,
            task_status: BotTaskStatus::new(max_restarts),
        }
    }

    /// The name the task was registered under.
    pub fn name(&self) -> (name: &str)
        ensures
            name@ == self@.name,
    {
        self.name.as_str()
    }

    /// The entry point, for the driver to invoke.
    pub fn function(&self) -> (task: &F)
        ensures
            *task == self@.function,
    {
        &self.function
    }

    /// The status of the task as it is now.
    pub fn status(&self) -> (status: BotTaskStatus)
        ensures
            status@ == self@.status,
    {
        self.task_status.get_stats()
    }
}

/// The tasks with the status of the task at `index` replaced; unchanged
/// where no task stands at `index`.
pub open spec fn with_status<F>(tasks: Seq<TaskRecord<F>>, index: int, status: TaskState) -> Seq<
    TaskRecord<F>,
> {
    if 0 <= index < tasks.len() {
        tasks.update(index, TaskRecord { status, ..tasks[index] })
    } else {
        tasks
    }
}

/// What the supervisor answers when the driver asks to launch the task at
/// `index`: the task's own next action, and `Stop` where there is no such
/// task.
pub open spec fn launch_action<F>(tasks: Seq<TaskRecord<F>>, index: int) -> TaskAction {
    if 0 <= index < tasks.len() {
        tasks[index].status.next_action()
    } else {
        TaskAction::Stop
    }
}

/// The registry after the driver asked to launch the task at `index`.
pub open spec fn after_launch<F>(tasks: Seq<TaskRecord<F>>, index: int) -> Seq<TaskRecord<F>> {
    if 0 <= index < tasks.len() {
        with_status(tasks, index, tasks[index].status.launched())
    } else {
        tasks
    }
}

/// What the supervisor answers when the task at `index` has returned: the
/// next action of the task with this exit counted, and `Stop` where there
/// is no such task.
pub open spec fn exit_action<F>(tasks: Seq<TaskRecord<F>>, index: int) -> TaskAction {
    if 0 <= index < tasks.len() {
        tasks[index].status.exited().next_action()
    } else {
        TaskAction::Stop
    }
}

/// The registry after the task at `index` returned and the supervisor
/// decided on its restart.
pub open spec fn after_exit<F>(tasks: Seq<TaskRecord<F>>, index: int) -> Seq<TaskRecord<F>> {
    if 0 <= index < tasks.len() {
        with_status(tasks, index, tasks[index].status.exited().launched())
    } else {
        tasks
    }
}

/// The registry after the driver asked to launch every task at once.
pub open spec fn after_launch_of_all<F>(tasks: Seq<TaskRecord<F>>) -> Seq<TaskRecord<F>> {
    Seq::new(
        tasks.len(),
        |i: int| TaskRecord { status: tasks[i].status.launched(), ..tasks[i] },
    )
}

/// The name under which every registry holds its monitor task.
pub open spec fn monitor_name() -> Seq<char> {
    "TaskMonitor"@
}

/// The registry of tasks. Its view is the sequence of the registered tasks
/// in the order of their registration.
pub struct TaskManager<F> {
    tasks: Vec<BotTask<F>>,
}

impl<F> View for TaskManager<F> {
    type V = Seq<TaskRecord<F>>;

    closed spec fn view(&self) -> Seq<TaskRecord<F>> {
        Seq::new(self.tasks@.len(), |i: int| self.tasks@[i]@)
    }
}

impl<F> TaskManager<F> {
    /// A registry that holds the monitor task and nothing else. The
    /// monitor has no limit on its restarts.
    pub fn new(monitor: F) -> (manager: Self)
        ensures
            manager@ == seq![
                TaskRecord {
                    name: monitor_name(),
                    function: monitor,
                    status: TaskState::fresh(UNLIMITED_RESTARTS as int),
                },
            ],
    {
        let mut tasks: Vec<BotTask<F>> = Vec::new();
        tasks.push(BotTask::new("TaskMonitor", monitor, UNLIMITED_RESTARTS));
        let manager = TaskManager { tasks };
        assert(manager@ =~= seq![
            TaskRecord {
                name: monitor_name(),
                function: monitor,
                status: TaskState::fresh(UNLIMITED_RESTARTS as int),
            },
        ]);
        manager
    }

    /// Registers a task behind those that are there. It has not run yet.
    pub fn add(&mut self, name: &str, task: F, max_restarts: i32)
        ensures
            final(self)@ == old(self)@.push(
                TaskRecord {
                    name: name@,
                    function: task,
                    status: TaskState::fresh(max_restarts as int),
                },
            ),
    {
        self.tasks.push(BotTask::new(name, task, max_restarts));
        assert(self@ =~= old(self)@.push(
            TaskRecord {
                name: name@,
                function: task,
                status: TaskState::fresh(max_restarts as int),
            },
        ));
    }

    /// The number of registered tasks.
    pub fn len(&self) -> (n: usize)
        ensures
            n == self@.len(),
    {
        self.tasks.len()
    }

    /// The task at `index`, if there is one.
    pub fn task(&self, index: usize) -> (task: Option<&BotTask<F>>)
        ensures
            index < self@.len() ==> task is Some && task->Some_0@ == self@[index as int],
            index >= self@.len() ==> task is None,
    {
        if index < self.tasks.len() {
            Some(&self.tasks[index])
        } else {
            None
        }
    }

    /// The names of the registered tasks, in the order of registration.
    pub fn list(&self) -> (names: Vec<String>)
        ensures
            names@.len() == self@.len(),
            forall|i: int| 0 <= i < self@.len() ==> (#[trigger] names@[i])@ == self@[i].name,
    {
        let mut names: Vec<String> = Vec::new();
        let mut i: usize = 0;
        while i < self.tasks.len()
            invariant
                i <= self.tasks@.len(),
                names@.len() == i,
                forall|k: int| 0 <= k < i ==> (#[trigger] names@[k])@ == self@[k].name,
            decreases self.tasks@.len() - i,
        {
            names.push(String::from_str(self.tasks[i].name()));
            i = i + 1;
        }
        names
    }

    /// The status of every registered task as it is now, in the order of
    /// registration.
    pub fn get_stats(&self) -> (stats: Vec<BotTaskStatus>)
        ensures
            stats@.len() == self@.len(),
            forall|i: int| 0 <= i < self@.len() ==> (#[trigger] stats@[i])@ == self@[i].status,
    {
        let mut stats: Vec<BotTaskStatus> = Vec::new();
        let mut i: usize = 0;
        while i < self.tasks.len()
            invariant
                i <= self.tasks@.len(),
                stats@.len() == i,
                forall|k: int| 0 <= k < i ==> (#[trigger] stats@[k])@ == self@[k].status,
            decreases self.tasks@.len() - i,
        {
            stats.push(self.tasks[i].status());
            i = i + 1;
        }
        stats
    }

    /// A snapshot of every registered task: its name with its status as it
    /// is now (budget, count of exits, liveness flag), in the order of
    /// registration.
    pub fn snapshot_stats(&self) -> (stats: Vec<(String, BotTaskStatus)>)
        ensures
            stats@.len() == self@.len(),
            forall|i: int|
                0 <= i < self@.len() ==> (#[trigger] stats@[i]).0@ == self@[i].name
                    && stats@[i].1@ == self@[i].status,
    {
        let mut stats: Vec<(String, BotTaskStatus)> = Vec::new();
        let mut i: usize = 0;
        while i < self.tasks.len()
            invariant
                i <= self.tasks@.len(),
                stats@.len() == i,
                forall|k: int|
                    0 <= k < i ==> (#[trigger] stats@[k]).0@ == self@[k].name && stats@[k].1@
                        == self@[k].status,
            decreases self.tasks@.len() - i,
        {
            stats.push((String::from_str(self.tasks[i].name()), self.tasks[i].status()));
            i = i + 1;
        }
        stats
    }

    /// Enters the running phase: asks to launch every registered task, in
    /// one step, so that none waits for another. The answers come in the
    /// order of registration; the driver then runs each task that was
    /// granted, side by side, and reports each return with
    /// [`TaskManager::task_exited`].
    pub fn run_tasks(&mut self) -> (actions: Vec<TaskAction>)
        ensures
            actions@.len() == old(self)@.len(),
            forall|i: int|
                0 <= i < old(self)@.len() ==> #[trigger] actions@[i] == launch_action(
                    old(self)@,
                    i,
                ),
            final(self)@ == after_launch_of_all(old(self)@),
    {
        let mut actions: Vec<TaskAction> = Vec::new();
        let count = self.tasks.len();
        let mut i: usize = 0;
        while i < count
            invariant
                i <= count,
                count == old(self)@.len(),
                self@.len() == count,
                actions@.len() == i,
                forall|k: int| 0 <= k < i ==> #[trigger] actions@[k] == launch_action(old(self)@, k),
                forall|k: int| 0 <= k < i ==> #[trigger] self@[k] == after_launch_of_all(old(self)@)[k],
                forall|k: int| i <= k < count ==> #[trigger] self@[k] == old(self)@[k],
            decreases count - i,
        {
            let ghost before = self@;
            let action = self.launch(i);
            assert(forall|k: int| 0 <= k < count && k != i ==> self@[k] == before[k]);
            actions.push(action);
            i = i + 1;
        }
        assert(self@ =~= after_launch_of_all(old(self)@));
        actions
    }

    /// The driver is about to run the task at `index` for the first time
    /// and asks what to do. On `Start` or `Restart` the task is marked as
    /// alive; on `Stop`, and where there is no such task, nothing changes.
    /// No other task is touched.
    pub fn launch(&mut self, index: usize) -> (action: TaskAction)
        ensures
            action == launch_action(old(self)@, index as int),
            final(self)@ == after_launch(old(self)@, index as int),
    {
        if index >= self.tasks.len() {
            return TaskAction::Stop;
        }
        let action = self.tasks[index].task_status.next_action();
        if action != TaskAction::Stop {
            self.tasks[index].task_status.mark_started();
        }
        assert(self@ =~= after_launch(old(self)@, index as int));
        action
    }

    /// The invocation of the task at `index` has returned. The exit is
    /// counted, whether it was a success or an error, and the answer says
    /// whether to invoke the task again: `Restart` while the budget lasts
    /// (the task is then marked as alive again), `Stop` once it is used
    /// up. No other task is touched.
    pub fn task_exited(&mut self, index: usize, exit: TaskExit) -> (action: TaskAction)
        ensures
            action == exit_action(old(self)@, index as int),
            final(self)@ == after_exit(old(self)@, index as int),
    {
        let _ = exit;
        if index >= self.tasks.len() {
            return TaskAction::Stop;
        }
        self.tasks[index].task_status.mark_exited();
        let action = self.tasks[index].task_status.next_action();
        if action != TaskAction::Stop {
            self.tasks[index].task_status.mark_started();
        }
        assert(self@ =~= after_exit(old(self)@, index as int));
        action
    }
}

/// One step of the driver at the registry.
pub enum SupervisorEvent {
    /// The driver asks to launch the task at this index.
    Launch(int),
    /// The invocation of the task at this index has returned.
    Exited(int, TaskExit),
}

impl SupervisorEvent {
    /// The index of the task that the event is about.
    pub open spec fn task(self) -> int {
        match self {
            SupervisorEvent::Launch(index) => index,
            SupervisorEvent::Exited(index, _) => index,
        }
    }
}

/// The registry after one step of the driver: what `launch` and
/// `task_exited` do to it.
pub open spec fn supervise_step<F>(tasks: Seq<TaskRecord<F>>, event: SupervisorEvent) -> Seq<
    TaskRecord<F>,
> {
    match event {
        SupervisorEvent::Launch(index) => after_launch(tasks, index),
        SupervisorEvent::Exited(index, _) => after_exit(tasks, index),
    }
}

/// The registry after a run of steps, first to last, in the order in which
/// the driver's concurrent jobs happened to take them.
pub open spec fn supervise<F>(tasks: Seq<TaskRecord<F>>, events: Seq<SupervisorEvent>) -> Seq<
    TaskRecord<F>,
>
    decreases events.len(),
{
    if events.len() == 0 {
        tasks
    } else {
        supervise_step(supervise(tasks, events.drop_last()), events.last())
    }
}

/// The steps of a run that are about the task at `index`, in their order.
pub open spec fn own_events(events: Seq<SupervisorEvent>, index: int) -> Seq<SupervisorEvent>
    decreases events.len(),
{
    if events.len() == 0 {
        Seq::empty()
    } else if events.last().task() == index {
        own_events(events.drop_last(), index).push(events.last())
    } else {
        own_events(events.drop_last(), index)
    }
}

/// The status of one task after the steps that are about it.
pub open spec fn drive(status: TaskState, events: Seq<SupervisorEvent>) -> TaskState
    decreases events.len(),
{
    if events.len() == 0 {
        status
    } else {
        match events.last() {
            SupervisorEvent::Launch(_) => drive(status, events.drop_last()).launched(),
            SupervisorEvent::Exited(_, _) => drive(status, events.drop_last()).exited().launched(),
        }
    }
}

/// Restart budget. A task registered with a budget of `max_restarts`, from
/// 0 up to but not including `i32::MAX`, is granted its first invocation and
/// then exactly `max_restarts` restarts: the invocation after `runs` returns
/// is granted if and only if `runs <= max_restarts`, and once refused it is
/// refused for good. Success and failure of the runs make no difference.
pub proof fn law_budget_is_exact(max_restarts: int, runs: nat)
    requires
        0 <= max_restarts < i32::MAX,
    ensures
        TaskState::fresh(max_restarts).after_runs(runs).next_action() == if runs == 0 {
            TaskAction::Start
        } else if runs <= max_restarts {
            TaskAction::Restart
        } else {
            TaskAction::Stop
        },
{
    lemma_after_runs(TaskState::fresh(max_restarts), runs);
}

/// No limit. A task registered with the budget -1 is granted every
/// invocation, however many runs have returned before.
pub proof fn law_unlimited_never_stops(runs: nat)
    ensures
        TaskState::fresh(UNLIMITED_RESTARTS as int).after_runs(runs).next_action() == if runs
            == 0 {
            TaskAction::Start
        } else {
            TaskAction::Restart
        },
{
    lemma_after_runs(TaskState::fresh(UNLIMITED_RESTARTS as int), runs);
}

/// The count of exits never goes down and the budget never changes,
/// whatever the driver reports.
pub proof fn law_count_only_grows(status: TaskState, events: Seq<SupervisorEvent>)
    ensures
        drive(status, events).restart_count >= status.restart_count,
        drive(status, events).max_restarts == status.max_restarts,
    decreases events.len(),
{
    if events.len() > 0 {
        law_count_only_grows(status, events.drop_last());
    }
}

/// Independence. After any run of steps the registry holds the same tasks
/// in the same order, and the status of each is what its own steps alone
/// make of it: what happens to one task, and how often it fails, neither
/// stops nor delays another.
pub proof fn law_tasks_are_independent<F>(
    tasks: Seq<TaskRecord<F>>,
    events: Seq<SupervisorEvent>,
    index: int,
)
    requires
        0 <= index < tasks.len(),
    ensures
        supervise(tasks, events).len() == tasks.len(),
        supervise(tasks, events)[index] == (TaskRecord {
            status: drive(tasks[index].status, own_events(events, index)),
            ..tasks[index]
        }),
    decreases events.len(),
{
    if events.len() > 0 {
        law_tasks_are_independent(tasks, events.drop_last(), index);
        let before = supervise(tasks, events.drop_last());
        let event = events.last();
        if event.task() == index {
            let own = own_events(events, index);
            assert(own.drop_last() =~= own_events(events.drop_last(), index));
            assert(own.last() == event);
        }
    }
}

/// A task whose own steps have not begun is granted its first invocation,
/// whatever the other tasks have done meanwhile.
pub proof fn law_first_invocation_is_not_delayed<F>(
    tasks: Seq<TaskRecord<F>>,
    events: Seq<SupervisorEvent>,
    index: int,
)
    requires
        0 <= index < tasks.len(),
        tasks[index].status.restart_count == 0,
        forall|k: int| 0 <= k < events.len() ==> (#[trigger] events[k]).task() != index,
    ensures
        supervise(tasks, events)[index] == tasks[index],
        launch_action(supervise(tasks, events), index) == TaskAction::Start,
{
    lemma_no_own_events(events, index);
    law_tasks_are_independent(tasks, events, index);
}

/// A run without a step about `index` has no own steps for it.
proof fn lemma_no_own_events(events: Seq<SupervisorEvent>, index: int)
    requires
        forall|k: int| 0 <= k < events.len() ==> (#[trigger] events[k]).task() != index,
    ensures
        own_events(events, index) == Seq::<SupervisorEvent>::empty(),
    decreases events.len(),
{
    if events.len() > 0 {
        let earlier = events.drop_last();
        assert forall|k: int| 0 <= k < earlier.len() implies (#[trigger] earlier[k]).task()
            != index by {
            assert(earlier[k] == events[k]);
        }
        lemma_no_own_events(earlier, index);
        assert(events.last() == events[events.len() - 1]);
    }
}

/// After `runs` rounds the budget is what it was, the task is not alive
/// unless no round took place, and the count has gone up by one per round
/// until it reached `i32::MAX`.
proof fn lemma_after_runs(status: TaskState, runs: nat)
    requires
        0 <= status.restart_count <= i32::MAX,
    ensures
        status.after_runs(runs).max_restarts == status.max_restarts,
        status.after_runs(runs).restart_count == if status.restart_count + runs <= i32::MAX {
            status.restart_count + runs
        } else {
            i32::MAX as int
        },
    decreases runs,
{
    if runs > 0 {
        lemma_after_runs(status, (runs - 1) as nat);
    }
}

} // verus!
