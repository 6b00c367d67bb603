use vstd::prelude::*;
use crate::numbers::{
    decimal, decimal_text, is_number, is_number_text, parse_usize, parsed_usize, unsigned_part,
};
use crate::task::{Task, TaskView};

verus! {

/// The command list shown when the user enters an empty line.
pub const HELP_TEXT: &'static str = "Command List:\n\t- Create New Task: enter task name\n\t- Change Status: select task number\n\t- Quit: enter 'q'";

/// What the store reports when an operation cannot be done.
#[derive(Debug, PartialEq, Eq, Structural)]
pub enum TaskError {
    /// A task number outside `1..=count`.
    IndexOutOfRange,
    /// Saved rows that do not form a list of tasks numbered `1..=count`.
    StorageError,
}

/// Every task's id is its one-based position.
pub open spec fn ids_in_order(tasks: Seq<TaskView>) -> bool {
    forall|i: int| 0 <= i < tasks.len() ==> (#[trigger] tasks[i]).id == i + 1
}

/// The list after appending a task named `title`.
pub open spec fn with_added(tasks: Seq<TaskView>, title: Seq<char>) -> Seq<TaskView> {
    tasks.push(TaskView { id: tasks.len() as int + 1, completed: false, name: title })
}

/// Whether `index` names a task, counting from one.
pub open spec fn in_range(tasks: Seq<TaskView>, index: int) -> bool {
    1 <= index <= tasks.len()
}

/// The list with the completion flag of task `index` (one-based) flipped.
pub open spec fn toggled(tasks: Seq<TaskView>, index: int) -> Seq<TaskView> {
    let t = tasks[index - 1];
    tasks.update(index - 1, TaskView { id: t.id, completed: !t.completed, name: t.name })
}

/// One displayed line: `<id> [<X or space>] <name>`.
pub open spec fn task_line(t: TaskView) -> Seq<char> {
    decimal_text(t.id as nat) + " ["@ + (if t.completed { "X"@ } else { " "@ }) + "] "@ + t.name
}

/// The task lines, in order, joined by newlines.
pub open spec fn listing(tasks: Seq<TaskView>) -> Seq<char>
    decreases tasks.len(),
{
    if tasks.len() == 0 {
        Seq::empty()
    } else if tasks.len() == 1 {
        task_line(tasks[0])
    } else {
        listing(tasks.drop_last()) + "\n"@ + task_line(tasks.last())
    }
}

/// What the list shows: a notice when empty, else one line per task.
pub open spec fn rendered(tasks: Seq<TaskView>) -> Seq<char> {
    if tasks.len() == 0 {
        "No tasks found!"@
    } else {
        listing(tasks)
    }
}

/// The list that saved rows load into, where they form a list at all.
pub open spec fn loaded(rows: Seq<TaskView>) -> Option<Seq<TaskView>> {
    if ids_in_order(rows) {
        Some(rows)
    } else {
        None
    }
}

/// What str::to_lowercase returns: the lowercase form of each character, which
/// depends on the text alone.
pub uninterp spec fn lowercase_of(s: Seq<char>) -> Seq<char>;

/// The characters with the Unicode White_Space property.
pub open spec fn is_white_space(c: char) -> bool {
    ||| '\u{9}' <= c && c <= '\u{d}'
    ||| c == ' ' || c == '\u{85}' || c == '\u{a0}' || c == '\u{1680}'
    ||| '\u{2000}' <= c && c <= '\u{200a}'
    ||| c == '\u{2028}' || c == '\u{2029}' || c == '\u{202f}' || c == '\u{205f}'
    ||| c == '\u{3000}'
}

/// `s` without its leading white space.
pub open spec fn trim_start_of(s: Seq<char>) -> Seq<char>
    decreases s.len(),
{
    if s.len() > 0 && is_white_space(s[0]) {
        trim_start_of(s.drop_first())
    } else {
        s
    }
}

/// `s` without its trailing white space.
pub open spec fn trim_end_of(s: Seq<char>) -> Seq<char>
    decreases s.len(),
{
    if s.len() > 0 && is_white_space(s.last()) {
        trim_end_of(s.drop_last())
    } else {
        s
    }
}

/// `s` without leading and trailing white space.
pub open spec fn trimmed_of(s: Seq<char>) -> Seq<char> {
    trim_end_of(trim_start_of(s))
}

/// A raw input line as a command: lowercased, then trimmed.
pub open spec fn normalized(raw: Seq<char>) -> Seq<char> {
    trimmed_of(lowercase_of(raw))
}

/// Whether a command asks to stop.
pub open spec fn is_quit(cmd: Seq<char>) -> bool {
    cmd == "q"@ || cmd == "quit"@
}

/// Whether the number command `cmd` names a task of `tasks`.
pub open spec fn selects(tasks: Seq<TaskView>, cmd: Seq<char>) -> bool {
    match parsed_usize(cmd) {
        Some(n) => in_range(tasks, n as int),
        None => false,
    }
}

/// The one-based task number that a number command gives.
pub open spec fn selected(cmd: Seq<char>) -> int {
    match parsed_usize(cmd) {
        Some(n) => n as int,
        None => 0,
    }
}

/// The list after the command `cmd`.
pub open spec fn next_tasks(tasks: Seq<TaskView>, cmd: Seq<char>) -> Seq<TaskView> {
    if is_quit(cmd) || cmd.len() == 0 {
        tasks
    } else if is_number_text(cmd) {
        if selects(tasks, cmd) { toggled(tasks, selected(cmd)) } else { tasks }
    } else {
        with_added(tasks, cmd)
    }
}

/// The status message that the command `cmd` leaves.
pub open spec fn status_message(tasks: Seq<TaskView>, cmd: Seq<char>) -> Seq<char> {
    if is_quit(cmd) {
        Seq::empty()
    } else if cmd.len() == 0 {
        HELP_TEXT@
    } else {
        if is_number_text(cmd) {
            if selects(tasks, cmd) {
                "Status of item "@ + decimal_text(selected(cmd) as nat) + " changed successfully"@
            } else {
                "Index out of bounds (1 to "@ + decimal_text(tasks.len()) + "). Try again"@
            }
        } else {
            "Task '"@ + cmd + "' successfully added to list!"@
        }
    }
}

/// The zero-based position of the task that the command `cmd` adds or
/// changes, if any.
pub open spec fn changed_index(tasks: Seq<TaskView>, cmd: Seq<char>) -> Option<int> {
    if is_quit(cmd) || cmd.len() == 0 {
        None
    } else {
        if is_number_text(cmd) {
            if selects(tasks, cmd) { Some(selected(cmd) - 1) } else { None }
        } else {
            Some(tasks.len() as int)
        }
    }
}

/// The result of one command.
pub struct Outcome {
    /// Whether the command loop should stop.
    pub stop: bool,
    /// The status line to show.
    pub message: String,
    /// The zero-based position of the task that was added or changed.
    pub changed: Option<usize>,
}

/// Relies on str::to_lowercase to lowercase an input line; the result is
/// named by `lowercase_of`.
#[verifier::external_body]
fn lowercase(s: &str) -> (r: String)
    ensures
        r@ == lowercase_of(s@),
{
    s.to_lowercase()
}

/// Relies on str::trim to strip white space around a command: leading and
/// trailing characters with the Unicode White_Space property.
#[verifier::external_body]
fn trim(s: &str) -> (r: &str)
    ensures
        r@ == trimmed_of(s@),
{
    s.trim()
}

/// A raw input line as a command: lowercased, then trimmed.
pub fn normalize(raw: &String) -> (r: String)
    ensures
        r@ == normalized(raw@),
{
    let lower = lowercase(raw.as_str());
    String::from_str(trim(lower.as_str()))
}

fn equals_literal(s: &String, lit: &str) -> (r: bool)
    ensures
        r == (s@ == lit@),
{
    *s == String::from_str(lit)
}

/// An ordered list of tasks whose ids are their positions, counting from one.
pub struct TaskList {
    items: Vec<Task>,
    default_message: String,
}

impl View for TaskList {
    type V = Seq<TaskView>;

    closed spec fn view(&self) -> Seq<TaskView> {
        self.items@.map_values(|t: Task| t@)
    }
}

impl TaskList {
    /// The text shown for an empty command.
    pub closed spec fn help(&self) -> Seq<char> {
        self.default_message@
    }

    pub open spec fn wf(&self) -> bool {
        &&& ids_in_order(self@)
        &&& self.help() == HELP_TEXT@
    }

    /// An empty list.
    pub fn new() -> (r: TaskList)
        ensures
            r.wf(),
            r@ == Seq::<TaskView>::empty(),
    {
        let r = TaskList { items: Vec::new(), default_message: String::from_str(HELP_TEXT) };
        assert(r@ =~= Seq::<TaskView>::empty());
        r
    }

    /// The number of tasks.
    pub fn len(&self) -> (r: usize)
        ensures
            r == self@.len(),
    {
        self.items.len()
    }

    /// The tasks, in id order.
    pub fn tasks(&self) -> (r: &Vec<Task>)
        ensures
            r@.map_values(|t: Task| t@) == self@,
    {
        &self.items
    }

    /// Appends a task named `title`, not completed, whose id is the new count.
    pub fn add_task(&mut self, title: &String)
        requires
            old(self).wf(),
            old(self)@.len() < u64::MAX,
        ensures
            final(self).wf(),
            final(self)@ == with_added(old(self)@, title@),
    {
        let id = self.items.len() as u64 + 1;
        let new_task = Task { id, completed: false, name: title.clone() };
        self.items.push(new_task);
        assert(self@ =~= with_added(old(self)@, title@));
    }

    /// Flips the completion flag of task `index`, counting from one.
    pub fn toggle_completion(&mut self, index: usize) -> (r: Result<(), TaskError>)
        requires
            old(self).wf(),
        ensures
            final(self).wf(),
            r is Ok <==> in_range(old(self)@, index as int),
            r is Ok ==> final(self)@ == toggled(old(self)@, index as int),
            r is Err ==> r == Err::<(), TaskError>(TaskError::IndexOutOfRange) && final(self)@ == old(self)@,
    {
        if 0 < index && index <= self.items.len() {
            let i = index - 1;
            let flag = self.items[i].completed;
            self.items[i].completed = !flag;
            assert(self@ =~= toggled(old(self)@, index as int));
            Ok(())
        } else {
            Err(TaskError::IndexOutOfRange)
        }
    }

    /// The text of the list: `No tasks found!` when it is empty, else one
    /// line `<id> [<X or space>] <name>` per task, in id order.
    pub fn render(&self) -> (r: String)
        ensures
            r@ == rendered(self@),
    {
        let n = self.items.len();
        if n == 0 {
            return String::from_str("No tasks found!");
        }
        let mut r = String::new();
        let mut i: usize = 0;
        while i < n
            invariant
                i <= n,
                n == self@.len(),
                r@ == listing(self@.take(i as int)),
            decreases n - i,
        {
            if i > 0 {
                r.append("\n");
            }
            let item = &self.items[i];
            let mut entry = decimal(item.id);
            entry.append(" [");
            entry.append(if item.completed { "X" } else { " " });
            entry.append("] ");
            entry.append(item.name.as_str());
            r.append(entry.as_str());
            proof {
                let s = self@.take(i + 1);
                assert(s.drop_last() =~= self@.take(i as int));
                assert(s.last() == self@[i as int]);
                if i == 0 {
                    assert(listing(self@.take(0)) =~= Seq::<char>::empty());
                }
            }
            i = i + 1;
        }
        assert(self@.take(n as int) =~= self@);
        r
    }

    /// Rebuilds a list from saved rows, which must be numbered `1..=count`
    /// in order.
    pub fn load(rows: Vec<Task>) -> (r: Result<TaskList, TaskError>)
        ensures
            match loaded(rows@.map_values(|t: Task| t@)) {
                Some(v) => r is Ok && r->Ok_0.wf() && r->Ok_0@ == v,
                None => r == Err::<TaskList, TaskError>(TaskError::StorageError),
            },
    {
        let n = rows.len();
        let mut i: usize = 0;
        while i < n
            invariant
                i <= n,
                n == rows@.len(),
                forall|j: int| 0 <= j < i ==> (#[trigger] rows@[j]).id == j + 1,
            decreases n - i,
        {
            if rows[i].id as u128 != i as u128 + 1 {
                assert(rows@.map_values(|t: Task| t@)[i as int].id != i + 1);
                return Err(TaskError::StorageError);
            }
            i = i + 1;
        }
        let r = TaskList { items: rows, default_message: String::from_str(HELP_TEXT) };
        assert(ids_in_order(r@));
        Ok(r)
    }

    /// Carries out one normalized command: `q` or `quit` stops, an empty
    /// command shows the help, a number toggles that task, and anything else
    /// is added as a new task.
    pub fn execute(&mut self, command: &String) -> (r: Outcome)
        requires
            old(self).wf(),
            old(self)@.len() < u64::MAX,
        ensures
            final(self).wf(),
            final(self)@ == next_tasks(old(self)@, command@),
            r.stop == is_quit(command@),
            r.message@ == status_message(old(self)@, command@),
            match r.changed {
                Some(i) => changed_index(old(self)@, command@) == Some(i as int),
                None => changed_index(old(self)@, command@) is None,
            },
    {
        if equals_literal(command, "q") || equals_literal(command, "quit") {
            return Outcome { stop: true, message: String::new(), changed: None };
        }
        if command.as_str().unicode_len() == 0 {
            return Outcome { stop: false, message: self.default_message.clone(), changed: None };
        }
        let count = self.items.len();
        if is_number(command.as_str()) {
            let done = match parse_usize(command.as_str()) {
                Some(index) => match self.toggle_completion(index) {
                    Ok(()) => Some(index),
                    Err(_) => None,
                },
                None => None,
            };
            match done {
                Some(index) => {
                    let mut message = String::from_str("Status of item ");
                    let text = decimal(index as u64);
                    message.append(text.as_str());
                    message.append(" changed successfully");
                    Outcome { stop: false, message, changed: Some(index - 1) }
                },
                None => {
                    let mut message = String::from_str("Index out of bounds (1 to ");
                    let text = decimal(count as u64);
                    message.append(text.as_str());
                    message.append("). Try again");
                    Outcome { stop: false, message, changed: None }
                },
            }
        } else {
            self.add_task(command);
            let mut message = String::from_str("Task '");
            message.append(command.as_str());
            message.append("' successfully added to list!");
            Outcome { stop: false, message, changed: Some(count) }
        }
    }

    /// Carries out one raw input line: normalizes it, runs it, and raises
    /// `stop_flag` when it asks to stop.
    pub fn print_home(&mut self, input: &String, stop_flag: &mut bool) -> (r: Outcome)
        requires
            old(self).wf(),
            old(self)@.len() < u64::MAX,
        ensures
            final(self).wf(),
            final(self)@ == next_tasks(old(self)@, normalized(input@)),
            r.stop == is_quit(normalized(input@)),
            *final(stop_flag) == (*old(stop_flag) || r.stop),
            r.message@ == status_message(old(self)@, normalized(input@)),
            match r.changed {
                Some(i) => changed_index(old(self)@, normalized(input@)) == Some(i as int),
                None => changed_index(old(self)@, normalized(input@)) is None,
            },
    {
        let command = normalize(input);
        let r = self.execute(&command);
        if r.stop {
            *stop_flag = true;
        }
        r
    }
}

/// The list built by adding `titles`, one by one, to an empty list.
pub open spec fn built_from(titles: Seq<Seq<char>>) -> Seq<TaskView>
    decreases titles.len(),
{
    if titles.len() == 0 {
        Seq::empty()
    } else {
        with_added(built_from(titles.drop_last()), titles.last())
    }
}

/// Adding tasks one by one to an empty list numbers them `1..=N` in the
/// order of the calls, each with its title and not completed.
pub proof fn lemma_ids_follow_call_order(titles: Seq<Seq<char>>)
    ensures
        built_from(titles).len() == titles.len(),
        ids_in_order(built_from(titles)),
        forall|i: int| 0 <= i < titles.len() ==> (#[trigger] built_from(titles)[i]) == (TaskView {
            id: i + 1,
            completed: false,
            name: titles[i],
        }),
    decreases titles.len(),
{
    if titles.len() > 0 {
        lemma_ids_follow_call_order(titles.drop_last());
        let prev = built_from(titles.drop_last());
        assert forall|i: int| 0 <= i < titles.len() implies (#[trigger] built_from(titles)[i]) == (
        TaskView { id: i + 1, completed: false, name: titles[i] }) by {
            if i < titles.len() - 1 {
                assert(built_from(titles)[i] == prev[i]);
                assert(titles.drop_last()[i] == titles[i]);
            }
        }
    }
}

/// Toggling the same task twice restores the list, and the second toggle
/// is in range whenever the first was.
pub proof fn lemma_toggle_twice(tasks: Seq<TaskView>, index: int)
    requires
        in_range(tasks, index),
    ensures
        in_range(toggled(tasks, index), index),
        toggled(toggled(tasks, index), index) == tasks,
{
    assert(toggled(toggled(tasks, index), index) =~= tasks);
}

/// The rows of a well-formed list load back into the same tasks: same ids,
/// names and completion flags, in the same order.
pub proof fn lemma_reload_round_trip(list: &TaskList)
    requires
        list.wf(),
    ensures
        loaded(list@) == Some(list@),
{
}

/// A number command that names no task, or whose value does not even fit a
/// `usize`, changes nothing and reports the valid range; it never stops the
/// loop.
pub proof fn lemma_number_out_of_range(tasks: Seq<TaskView>, cmd: Seq<char>)
    requires
        is_number_text(cmd),
        !selects(tasks, cmd),
    ensures
        !is_quit(cmd),
        next_tasks(tasks, cmd) == tasks,
        status_message(tasks, cmd) == "Index out of bounds (1 to "@ + decimal_text(tasks.len())
            + "). Try again"@,
        changed_index(tasks, cmd) is None,
{
    lemma_quit_is_not_number(cmd);
}

/// The same number command given twice in a row restores the list.
pub proof fn lemma_number_command_twice(tasks: Seq<TaskView>, cmd: Seq<char>)
    requires
        is_number_text(cmd),
        selects(tasks, cmd),
    ensures
        !is_quit(cmd),
        selects(next_tasks(tasks, cmd), cmd),
        next_tasks(next_tasks(tasks, cmd), cmd) == tasks,
{
    lemma_quit_is_not_number(cmd);
    lemma_toggle_twice(tasks, selected(cmd));
}

proof fn lemma_quit_is_not_number(cmd: Seq<char>)
    requires
        is_number_text(cmd),
    ensures
        !is_quit(cmd),
{
    reveal_strlit("q");
    reveal_strlit("quit");
    if is_quit(cmd) {
        assert(unsigned_part(cmd)[0] == 'q');
    }
}

/// Whatever command is run, the rows of the resulting list load back into
/// the same tasks.
pub proof fn lemma_reload_after_command(tasks: Seq<TaskView>, cmd: Seq<char>)
    requires
        ids_in_order(tasks),
    ensures
        loaded(next_tasks(tasks, cmd)) == Some(next_tasks(tasks, cmd)),
{
    let next = next_tasks(tasks, cmd);
    assert forall|i: int| 0 <= i < next.len() implies (#[trigger] next[i]).id == i + 1 by {
        if i < tasks.len() {
            assert(tasks[i].id == i + 1);
        }
    }
}

} // verus!
