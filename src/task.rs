use vstd::prelude::*;
use vstd::string::*;

verus! {

/// Identifier of a task, assigned by the store.
pub type ID = i32;

/// An instant in UTC, as microseconds since the Unix epoch.
pub type Timestamp = i64;

/// Whether two strings hold the same characters.
pub fn same_text(a: &str, b: &str) -> (r: bool)
    ensures
        r == (a@ == b@),
{
    let n = a.unicode_len();
    if n != b.unicode_len() {
        return false;
    }
    let mut i: usize = 0;
    while i < n
        invariant
            n == a@.len(),
            n == b@.len(),
            i <= n,
            forall|j: int| 0 <= j < i ==> a@[j] == b@[j],
        decreases n - i,
    {
        if a.get_char(i) != b.get_char(i) {
            return false;
        }
        i = i + 1;
    }
    assert(a@ =~= b@);
    true
}

/// The kinds of task the queue knows how to run.
#[derive(Clone, Copy, Debug, PartialEq, Eq, Structural)]
pub enum TaskType {
    Fizz,
    Buzz,
    FizzBuzz,
}

impl TaskType {
    /// The text under which a kind is stored.
    pub open spec fn sql_text(self) -> Seq<char> {
        match self {
            TaskType::Fizz => "Fizz"@,
            TaskType::Buzz => "Buzz"@,
            TaskType::FizzBuzz => "FizzBuzz"@,
        }
    }

    /// The kind whose stored text is `s`, if any.
    pub open spec fn parse(s: Seq<char>) -> Option<TaskType> {
        if s == "Fizz"@ {
            Some(TaskType::Fizz)
        } else if s == "Buzz"@ {
            Some(TaskType::Buzz)
        } else if s == "FizzBuzz"@ {
            Some(TaskType::FizzBuzz)
        } else {
            None
        }
    }

    /// How long the example executor works on a task of this kind, in seconds.
    pub open spec fn spec_run_secs(self) -> u64 {
        match self {
            TaskType::Fizz => 3,
            TaskType::Buzz => 5,
            TaskType::FizzBuzz => 15,
        }
    }

    /// How we represent these values in SQL.
    pub fn as_sql(&self) -> (r: &'static str)
        ensures
            r@ == self.sql_text(),
    {
        match self {
            TaskType::Fizz => "Fizz",
            TaskType::Buzz => "Buzz",
            TaskType::FizzBuzz => "FizzBuzz",
        }
    }

    /// Parses the stored text of a kind; any other text is a decode error.
    pub fn from_sql(s: &str) -> (r: Result<TaskType, StoreError>)
        ensures
            r == match TaskType::parse(s@) {
                Some(k) => Ok::<TaskType, StoreError>(k),
                None => Err(StoreError::Decode),
            },
    {
        proof {
            reveal_strlit("Fizz");
            reveal_strlit("Buzz");
            reveal_strlit("FizzBuzz");
        }
        if same_text(s, "Fizz") {
            Ok(TaskType::Fizz)
        } else if same_text(s, "Buzz") {
            Ok(TaskType::Buzz)
        } else if same_text(s, "FizzBuzz") {
            Ok(TaskType::FizzBuzz)
        } else {
            Err(StoreError::Decode)
        }
    }

    /// The kind's name as shown to people.
    pub fn label(&self) -> (r: &'static str)
        ensures
            r@ == match self {
                TaskType::Fizz => "Fizz"@,
                TaskType::Buzz => "Buzz"@,
                TaskType::FizzBuzz => "Fizz Buzz"@,
            },
    {
        match self {
            TaskType::Fizz => "Fizz",
            TaskType::Buzz => "Buzz",
            TaskType::FizzBuzz => "Fizz Buzz",
        }
    }

    /// How long the example executor works on a task of this kind, in seconds.
    pub fn run_secs(&self) -> (r: u64)
        ensures
            r == self.spec_run_secs(),
    {
        match self {
            TaskType::Fizz => 3,
            TaskType::Buzz => 5,
            TaskType::FizzBuzz => 15,
        }
    }
}

impl std::str::FromStr for TaskType {
    type Err = StoreError;

    fn from_str(s: &str) -> Result<TaskType, StoreError> {
        TaskType::from_sql(s)
    }
}

/// Where a task stands in its lifecycle.
#[derive(Clone, Copy, Debug, PartialEq, Eq, Structural)]
pub enum TaskState {
    Pending,
    Completed,
}

impl TaskState {
    /// The text under which a state is stored.
    pub open spec fn sql_text(self) -> Seq<char> {
        match self {
            TaskState::Pending => "Pending"@,
            TaskState::Completed => "Completed"@,
        }
    }

    /// The state whose stored text is `s`, if any.
    pub open spec fn parse(s: Seq<char>) -> Option<TaskState> {
        if s == "Pending"@ {
            Some(TaskState::Pending)
        } else if s == "Completed"@ {
            Some(TaskState::Completed)
        } else {
            None
        }
    }

    /// How we represent these values in SQL.
    pub fn as_sql(&self) -> (r: &'static str)
        ensures
            r@ == self.sql_text(),
    {
        match self {
            TaskState::Pending => "Pending",
            TaskState::Completed => "Completed",
        }
    }

    /// Parses the stored text of a state; any other text is a decode error.
    pub fn from_sql(s: &str) -> (r: Result<TaskState, StoreError>)
        ensures
            r == match TaskState::parse(s@) {
                Some(st) => Ok::<TaskState, StoreError>(st),
                None => Err(StoreError::Decode),
            },
    {
        proof {
            reveal_strlit("Pending");
            reveal_strlit("Completed");
        }
        if same_text(s, "Pending") {
            Ok(TaskState::Pending)
        } else if same_text(s, "Completed") {
            Ok(TaskState::Completed)
        } else {
            Err(StoreError::Decode)
        }
    }
}

impl std::str::FromStr for TaskState {
    type Err = StoreError;

    fn from_str(s: &str) -> Result<TaskState, StoreError> {
        TaskState::from_sql(s)
    }
}

/// A task as the store holds it.
#[derive(Clone, Copy, Debug, PartialEq, Eq, Structural)]
pub struct Task {
    pub id: ID,
    pub kind: TaskType,
    pub execution_time: Timestamp,
    pub state: TaskState,
    pub created_at: Timestamp,
    pub updated_at: Timestamp,
}

impl Task {
    /// A task is ready when it is pending and its execution time has come.
    pub open spec fn is_ready(self, now: Timestamp) -> bool {
        self.state == TaskState::Pending && self.execution_time <= now
    }

    /// Whether the task may be claimed at `now`.
    pub fn ready_at(&self, now: Timestamp) -> (r: bool)
        ensures
            r == self.is_ready(now),
    {
        self.state == TaskState::Pending && self.execution_time <= now
    }

    /// The task that a stored row describes, when its texts name a kind and a state.
    pub open spec fn decoded(row: RawRow, kind: TaskType, state: TaskState) -> Task {
        Task {
            id: row.id,
            kind,
            execution_time: row.execution_time,
            state,
            created_at: row.created_at,
            updated_at: row.updated_at,
        }
    }

    /// Reads a task out of a stored row.
    pub fn try_from(row: &RawRow) -> (r: Result<Task, StoreError>)
        ensures
            r == match (TaskType::parse(row.kind@), TaskState::parse(row.state@)) {
                (Some(k), Some(st)) => Ok::<Task, StoreError>(Task::decoded(*row, k, st)),
                _ => Err(StoreError::Decode),
            },
    {
        let kind = match TaskType::from_sql(row.kind.as_str()) {
            Ok(k) => k,
            Err(e) => {
                return Err(e);
            },
        };
        let state = match TaskState::from_sql(row.state.as_str()) {
            Ok(st) => st,
            Err(e) => {
                return Err(e);
            },
        };
        Ok(
            Task {
                id: row.id,
                kind,
                execution_time: row.execution_time,
                state,
                created_at: row.created_at,
                updated_at: row.updated_at,
            },
        )
    }
}

/// A row of the task table as the backing store hands it out, kind and state still as text.
#[derive(Clone, Debug)]
pub struct RawRow {
    pub id: ID,
    pub kind: String,
    pub state: String,
    pub execution_time: Timestamp,
    pub created_at: Timestamp,
    pub updated_at: Timestamp,
}

/// Optional restrictions of a listing to one state and one kind.
#[derive(Clone, Copy, Debug, PartialEq, Eq, Structural)]
pub struct Filters {
    pub state: Option<TaskState>,
    pub kind: Option<TaskType>,
}

impl Default for Filters {
    fn default() -> (r: Filters)
        ensures
            r.state is None && r.kind is None,
    {
        Filters { state: None, kind: None }
    }
}

impl Filters {
    /// A task passes when it has each value that is given.
    pub open spec fn admits(self, t: Task) -> bool {
        &&& (self.state matches Some(st) ==> t.state == st)
        &&& (self.kind matches Some(k) ==> t.kind == k)
    }

    /// Whether `t` passes these filters.
    pub fn matches(&self, t: &Task) -> (r: bool)
        ensures
            r == self.admits(*t),
    {
        let state_ok = match self.state {
            Some(st) => t.state == st,
            None => true,
        };
        let kind_ok = match self.kind {
            Some(k) => t.kind == k,
            None => true,
        };
        state_ok && kind_ok
    }
}

/// Holds of the tasks that pass these filters.
pub open spec fn admitted_by(filters: Filters) -> spec_fn(Task) -> bool {
    |t: Task| filters.admits(t)
}

/// Each kind and each state reads back from its stored text, and a text that
/// reads back as a kind or a state is that one's stored text.
pub proof fn lemma_text_round_trip(k: TaskType, st: TaskState, s: Seq<char>)
    ensures
        TaskType::parse(k.sql_text()) == Some(k),
        TaskState::parse(st.sql_text()) == Some(st),
        TaskType::parse(s) matches Some(k2) ==> k2.sql_text() == s,
        TaskState::parse(s) matches Some(st2) ==> st2.sql_text() == s,
{
    reveal_strlit("Fizz");
    reveal_strlit("Buzz");
    reveal_strlit("FizzBuzz");
    reveal_strlit("Pending");
    reveal_strlit("Completed");
    assert("Buzz"@[0] != "Fizz"@[0]);
    assert("Buzz"@ != "Fizz"@);
    assert("FizzBuzz"@.len() != "Fizz"@.len());
    assert("FizzBuzz"@.len() != "Buzz"@.len());
    assert("Completed"@.len() != "Pending"@.len());
}

/// Why a store operation failed.
#[derive(Clone, Copy, Debug, PartialEq, Eq, Structural)]
pub enum StoreError {
    /// The store could not be reached; the whole operation may be retried.
    Connectivity,
    /// A write broke a constraint of the table.
    Constraint,
    /// A stored row holds a kind or state text that names no variant.
    Decode,
}

} // verus!
