use vstd::prelude::*;
use vstd::string::*;
use crate::task::{Filters, TaskState, TaskType};

verus! {

/// Creates the task table and the index that drives claiming, unless they exist.
pub const SCHEMA_SQL: &'static str = "CREATE TABLE IF NOT EXISTS tasks (
    id SERIAL PRIMARY KEY,
    type VARCHAR(8) NOT NULL,
    state VARCHAR(9) NOT NULL,
    execution_time TIMESTAMPTZ NOT NULL,
    created_at TIMESTAMPTZ NOT NULL,
    updated_at TIMESTAMPTZ NOT NULL
);
CREATE INDEX IF NOT EXISTS queue_idx ON tasks (state, execution_time);";

/// Inserts a task from its kind ($1), execution time ($2) and state ($3), and returns its id.
pub const INSERT_SQL: &'static str = "INSERT INTO tasks (type, execution_time, state, created_at, updated_at) VALUES ($1, $2, $3, now(), now()) RETURNING id";

/// Reads the task with id $1.
pub const READ_SQL: &'static str = "SELECT * FROM tasks WHERE id = $1";

/// Deletes the task with id $1; no row is no error.
pub const DELETE_SQL: &'static str = "DELETE FROM tasks WHERE id = $1";

/// Selects and locks the next ready task in state $1, skipping rows that other
/// transactions hold: earliest execution time first, then lowest id.
pub const CLAIM_SQL: &'static str = "SELECT * FROM tasks WHERE execution_time <= now() AND state = $1 ORDER BY execution_time, id LIMIT 1 FOR UPDATE SKIP LOCKED";

/// Sets the state of task $1 to $2 and refreshes its update time.
pub const COMPLETE_SQL: &'static str = "UPDATE tasks SET state = $2, updated_at = now() WHERE id = $1";

/// Counts the ready tasks in state $1.
pub const BACKLOG_SQL: &'static str = "SELECT COUNT(id) FROM tasks WHERE execution_time <= now() AND state = $1";

/// The listing query before its conditions.
pub const LIST_BASE_SQL: &'static str = "SELECT * FROM tasks";

/// A statement and the values bound to its placeholders, `$1` first.
pub struct SqlQuery {
    pub text: String,
    pub params: Vec<&'static str>,
}

/// The text of one decimal digit.
pub open spec fn digit_text(d: nat) -> Seq<char> {
    if d == 0 { "0"@ }
    else if d == 1 { "1"@ }
    else if d == 2 { "2"@ }
    else if d == 3 { "3"@ }
    else if d == 4 { "4"@ }
    else if d == 5 { "5"@ }
    else if d == 6 { "6"@ }
    else if d == 7 { "7"@ }
    else if d == 8 { "8"@ }
    else { "9"@ }
}

/// The decimal text of `n`, without leading zeros.
pub open spec fn decimal(n: nat) -> Seq<char>
    decreases n,
{
    if n < 10 {
        digit_text(n)
    } else {
        decimal(n / 10) + digit_text(n % 10)
    }
}

fn digit_str(d: usize) -> (r: &'static str)
    requires
        d < 10,
    ensures
        r@ == digit_text(d as nat),
{
    if d == 0 { "0" }
    else if d == 1 { "1" }
    else if d == 2 { "2" }
    else if d == 3 { "3" }
    else if d == 4 { "4" }
    else if d == 5 { "5" }
    else if d == 6 { "6" }
    else if d == 7 { "7" }
    else if d == 8 { "8" }
    else { "9" }
}

/// Writes `n` in decimal.
pub fn decimal_text(n: usize) -> (r: String)
    ensures
        r@ == decimal(n as nat),
    decreases n,
{
    if n < 10 {
        String::from_str(digit_str(n))
    } else {
        let mut s = decimal_text(n / 10);
        s.append(digit_str(n % 10));
        s
    }
}

/// The conditions `c1 = $1 AND c2 = $2 ...` over the first `n` columns,
/// introduced by ` WHERE `; nothing when `n` is zero.
pub open spec fn where_sql(columns: Seq<Seq<char>>, n: nat) -> Seq<char>
    decreases n,
{
    if n == 0 {
        Seq::empty()
    } else {
        let sep = if n == 1 { " WHERE "@ } else { " AND "@ };
        where_sql(columns, (n - 1) as nat) + sep + columns[n - 1] + " = $"@ + decimal(n)
    }
}

/// The texts of a sequence of strings.
pub open spec fn texts(v: Seq<&str>) -> Seq<Seq<char>> {
    v.map_values(|s: &str| s@)
}

/// Builds the WHERE clause that restricts each column to the value bound at
/// its own placeholder, in order.
pub fn where_clause(columns: &Vec<&str>) -> (r: String)
    ensures
        r@ == where_sql(texts(columns@), columns@.len()),
{
    let mut out = String::from_str("");
    proof {
        reveal_strlit("");
    }
    assert(out@ =~= Seq::<char>::empty());
    let mut i: usize = 0;
    while i < columns.len()
        invariant
            i <= columns@.len(),
            out@ == where_sql(texts(columns@), i as nat),
        decreases columns@.len() - i,
    {
        if i == 0 {
            out.append(" WHERE ");
        } else {
            out.append(" AND ");
        }
        out.append(columns[i]);
        out.append(" = $");
        let num = decimal_text(i + 1);
        out.append(num.as_str());
        i = i + 1;
    }
    out
}

/// The columns that these filters restrict, kind before state.
pub open spec fn filter_columns(f: Filters) -> Seq<Seq<char>> {
    (if f.kind is Some { seq!["type"@] } else { Seq::empty() }) + (if f.state is Some {
        seq!["state"@]
    } else {
        Seq::empty()
    })
}

/// The values these filters bind, in the order of their columns.
pub open spec fn filter_values(f: Filters) -> Seq<Seq<char>> {
    (if let Some(k) = f.kind { seq![k.sql_text()] } else { Seq::empty() }) + (if let Some(
        st,
    ) = f.state {
        seq![st.sql_text()]
    } else {
        Seq::empty()
    })
}

/// The listing query for these filters: a condition for each dimension that is
/// given and none for the others, rows in id order.
pub fn list_query(filters: &Filters) -> (q: SqlQuery)
    ensures
        q.text@ == LIST_BASE_SQL@ + where_sql(filter_columns(*filters), filter_columns(*filters).len())
            + " ORDER BY id"@,
        texts(q.params@) == filter_values(*filters),
{
    let mut columns: Vec<&str> = Vec::new();
    let mut params: Vec<&'static str> = Vec::new();
    match filters.kind {
        Some(k) => {
            columns.push("type");
            params.push(k.as_sql());
        },
        None => {},
    }
    match filters.state {
        Some(st) => {
            columns.push("state");
            params.push(st.as_sql());
        },
        None => {},
    }
    assert(texts(columns@) =~= filter_columns(*filters));
    assert(texts(params@) =~= filter_values(*filters));
    let mut text = String::from_str(LIST_BASE_SQL);
    let clause = where_clause(&columns);
    text.append(clause.as_str());
    text.append(" ORDER BY id");
    SqlQuery { text, params }
}

} // verus!
