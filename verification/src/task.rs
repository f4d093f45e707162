//! Statements of the task sublanguage, with verified SQL rendering.
//!
//! Each statement renders back to SQL text; the `spec_*_sql` functions state
//! the exact text and the `sql_string` methods are proved to produce it.

use vstd::prelude::*;
use crate::decimal::{spec_decimal, u64_to_string};

verus! {

/// A `LIKE`/`WHERE` tail of a SHOW statement.
#[derive(Debug, Clone, PartialEq, Eq)]
pub enum ShowLimit {
    Like { pattern: String },
    Where { selection: String },
}

/// The SQL text of a show limit.
pub open spec fn spec_show_limit_sql(l: ShowLimit) -> Seq<char> {
    match l {
        ShowLimit::Like { pattern } => "LIKE '"@ + pattern@ + "'"@,
        ShowLimit::Where { selection } => "WHERE "@ + selection@,
    }
}

impl ShowLimit {
    /// Renders the limit as SQL text.
    pub fn sql_string(&self) -> (r: String)
        ensures
            r@ == spec_show_limit_sql(*self),
    {
        let mut s = String::new();
        match self {
            ShowLimit::Like { pattern } => {
                s.append("LIKE '");
                s.append(pattern.as_str());
                s.append("'");
            }
            ShowLimit::Where { selection } => {
                s.append("WHERE ");
                s.append(selection.as_str());
            }
        }
        proof {
            assert(s@ =~= spec_show_limit_sql(*self));
        }
        s
    }
}

/// When a task runs: every so many minutes, or on a cron expression with an
/// optional time zone.
#[derive(Debug, Clone, PartialEq, Eq)]
pub enum ScheduleOptions {
    IntervalMinutes(u64),
    CronExpression(String, Option<String>),
}

/// The SQL text of a schedule clause.
pub open spec fn spec_schedule_sql(o: ScheduleOptions) -> Seq<char> {
    match o {
        ScheduleOptions::IntervalMinutes(mins) => {
            " SCHEDULE "@ + spec_decimal(mins as nat) + " MINUTE"@
        }
        ScheduleOptions::CronExpression(expr, tz) => {
            " SCHEDULE CRON '"@ + expr@ + "'"@ + match tz {
                Some(tz) => " TIMEZONE '"@ + tz@ + "'"@,
                None => Seq::<char>::empty(),
            }
        }
    }
}

impl ScheduleOptions {
    /// Renders the schedule clause.
    pub fn sql_string(&self) -> (r: String)
        ensures
            r@ == spec_schedule_sql(*self),
    {
        let mut s = String::new();
        match self {
            ScheduleOptions::IntervalMinutes(mins) => {
                s.append(" SCHEDULE ");
                let d = u64_to_string(*mins);
                s.append(d.as_str());
                s.append(" MINUTE");
            }
            ScheduleOptions::CronExpression(expr, tz) => {
                s.append(" SCHEDULE CRON '");
                s.append(expr.as_str());
                s.append("'");
                if let Some(tz) = tz {
                    s.append(" TIMEZONE '");
                    s.append(tz.as_str());
                    s.append("'");
                }
            }
        }
        proof {
            assert(s@ =~= spec_schedule_sql(*self));
        }
        s
    }
}

/// The warehouse a task runs in, if one is pinned.
#[derive(Debug, Clone, PartialEq, Eq)]
pub struct WarehouseOptions {
    pub warehouse: Option<String>,
}

/// The SQL text of a warehouse clause.
pub open spec fn spec_warehouse_sql(o: WarehouseOptions) -> Seq<char> {
    match o.warehouse {
        Some(wh) => " WAREHOUSE = "@ + wh@,
        None => Seq::<char>::empty(),
    }
}

impl WarehouseOptions {
    /// Renders the warehouse clause.
    pub fn sql_string(&self) -> (r: String)
        ensures
            r@ == spec_warehouse_sql(*self),
    {
        let mut s = String::new();
        if let Some(wh) = &self.warehouse {
            s.append(" WAREHOUSE = ");
            s.append(wh.as_str());
        }
        proof {
            assert(s@ =~= spec_warehouse_sql(*self));
        }
        s
    }
}

/// CREATE TASK.
#[derive(Debug, Clone, PartialEq, Eq)]
pub struct CreateTaskStmt {
    pub if_not_exists: bool,
    pub name: String,
    pub warehouse_opts: WarehouseOptions,
    pub schedule_opts: ScheduleOptions,
    pub suspend_task_after_num_failures: Option<u64>,
    pub comments: String,
    pub sql: String,
}

/// The SQL text of a CREATE TASK statement.
pub open spec fn spec_create_task_sql(s: CreateTaskStmt) -> Seq<char> {
    "CREATE TASK"@ + (if s.if_not_exists { " IF NOT EXISTS"@ } else { Seq::<char>::empty() })
        + " "@ + s.name@
        + spec_warehouse_sql(s.warehouse_opts)
        + spec_schedule_sql(s.schedule_opts)
        + match s.suspend_task_after_num_failures {
            Some(num) => " SUSPEND TASK AFTER "@ + spec_decimal(num as nat) + " FAILURES"@,
            None => Seq::<char>::empty(),
        }
        + (if s.comments@.len() != 0 { " COMMENTS = '"@ + s.comments@ + "'"@ } else {
            Seq::<char>::empty()
        })
        + " AS "@ + s.sql@
}

impl CreateTaskStmt {
    /// Renders the statement.
    pub fn sql_string(&self) -> (r: String)
        ensures
            r@ == spec_create_task_sql(*self),
    {
        let mut s = String::new();
        s.append("CREATE TASK");
        if self.if_not_exists {
            s.append(" IF NOT EXISTS");
        }
        s.append(" ");
        s.append(self.name.as_str());
        let wh = self.warehouse_opts.sql_string();
        s.append(wh.as_str());
        let sch = self.schedule_opts.sql_string();
        s.append(sch.as_str());
        if let Some(num) = self.suspend_task_after_num_failures {
            s.append(" SUSPEND TASK AFTER ");
            let d = u64_to_string(num);
            s.append(d.as_str());
            s.append(" FAILURES");
        }
        if !self.comments.as_str().is_empty() {
            s.append(" COMMENTS = '");
            s.append(self.comments.as_str());
            s.append("'");
        }
        s.append(" AS ");
        s.append(self.sql.as_str());
        proof {
            assert(s@ =~= spec_create_task_sql(*self));
        }
        s
    }
}

/// What an ALTER TASK changes.
#[derive(Debug, Clone, PartialEq, Eq)]
pub enum AlterTaskOptions {
    Resume,
    Suspend,
    SetOptions {
        warehouse: Option<String>,
        schedule: Option<ScheduleOptions>,
        suspend_task_after_num_failures: Option<u64>,
        comments: Option<String>,
    },
    Unset {
        warehouse: bool,
    },
    ModifyAs(String),
}

/// The SQL text of an ALTER TASK tail.
pub open spec fn spec_alter_task_options_sql(o: AlterTaskOptions) -> Seq<char> {
    match o {
        AlterTaskOptions::Resume => " RESUME"@,
        AlterTaskOptions::Suspend => " SUSPEND"@,
        AlterTaskOptions::SetOptions { warehouse, schedule, suspend_task_after_num_failures, comments } => {
            (match warehouse {
                Some(wh) => " SET WAREHOUSE = "@ + wh@,
                None => Seq::<char>::empty(),
            }) + (match schedule {
                Some(sch) => " SET"@ + spec_schedule_sql(sch),
                None => Seq::<char>::empty(),
            }) + (match suspend_task_after_num_failures {
                Some(num) => " SUSPEND TASK AFTER "@ + spec_decimal(num as nat) + " FAILURES"@,
                None => Seq::<char>::empty(),
            }) + (match comments {
                Some(c) => " COMMENTS = '"@ + c@ + "'"@,
                None => Seq::<char>::empty(),
            })
        }
        AlterTaskOptions::Unset { warehouse } => {
            if warehouse { " UNSET WAREHOUSE"@ } else { Seq::<char>::empty() }
        }
        AlterTaskOptions::ModifyAs(sql) => " AS "@ + sql@,
    }
}

impl AlterTaskOptions {
    /// Renders the tail of an ALTER TASK statement.
    pub fn sql_string(&self) -> (r: String)
        ensures
            r@ == spec_alter_task_options_sql(*self),
    {
        let mut s = String::new();
        match self {
            AlterTaskOptions::Resume => {
                s.append(" RESUME");
            }
            AlterTaskOptions::Suspend => {
                s.append(" SUSPEND");
            }
            AlterTaskOptions::SetOptions { warehouse, schedule, suspend_task_after_num_failures, comments } => {
                if let Some(wh) = warehouse {
                    s.append(" SET WAREHOUSE = ");
                    s.append(wh.as_str());
                }
                if let Some(sch) = schedule {
                    s.append(" SET");
                    let t = sch.sql_string();
                    s.append(t.as_str());
                }
                if let Some(num) = suspend_task_after_num_failures {
                    s.append(" SUSPEND TASK AFTER ");
                    let d = u64_to_string(*num);
                    s.append(d.as_str());
                    s.append(" FAILURES");
                }
                if let Some(c) = comments {
                    s.append(" COMMENTS = '");
                    s.append(c.as_str());
                    s.append("'");
                }
            }
            AlterTaskOptions::Unset { warehouse } => {
                if *warehouse {
                    s.append(" UNSET WAREHOUSE");
                }
            }
            AlterTaskOptions::ModifyAs(sql) => {
                s.append(" AS ");
                s.append(sql.as_str());
            }
        }
        proof {
            assert(s@ =~= spec_alter_task_options_sql(*self));
        }
        s
    }
}

/// ALTER TASK.
#[derive(Debug, Clone, PartialEq, Eq)]
pub struct AlterTaskStmt {
    pub if_exists: bool,
    pub name: String,
    pub options: AlterTaskOptions,
}

/// The SQL text of an ALTER TASK statement.
pub open spec fn spec_alter_task_sql(s: AlterTaskStmt) -> Seq<char> {
    "ALTER TASK"@ + (if s.if_exists { " IF EXISTS"@ } else { Seq::<char>::empty() })
        + " "@ + s.name@ + spec_alter_task_options_sql(s.options)
}

impl AlterTaskStmt {
    /// Renders the statement.
    pub fn sql_string(&self) -> (r: String)
        ensures
            r@ == spec_alter_task_sql(*self),
    {
        let mut s = String::new();
        s.append("ALTER TASK");
        if self.if_exists {
            s.append(" IF EXISTS");
        }
        s.append(" ");
        s.append(self.name.as_str());
        let t = self.options.sql_string();
        s.append(t.as_str());
        proof {
            assert(s@ =~= spec_alter_task_sql(*self));
        }
        s
    }
}

/// DROP TASK.
#[derive(Debug, Clone, PartialEq, Eq)]
pub struct DropTaskStmt {
    pub if_exists: bool,
    pub name: String,
}

/// The SQL text of a DROP TASK statement.
pub open spec fn spec_drop_task_sql(s: DropTaskStmt) -> Seq<char> {
    "DROP TASK"@ + (if s.if_exists { " IF EXISTS"@ } else { Seq::<char>::empty() })
        + " "@ + s.name@
}

impl DropTaskStmt {
    /// Renders the statement.
    pub fn sql_string(&self) -> (r: String)
        ensures
            r@ == spec_drop_task_sql(*self),
    {
        let mut s = String::new();
        s.append("DROP TASK");
        if self.if_exists {
            s.append(" IF EXISTS");
        }
        s.append(" ");
        s.append(self.name.as_str());
        proof {
            assert(s@ =~= spec_drop_task_sql(*self));
        }
        s
    }
}

/// SHOW TASKS.
#[derive(Debug, Clone, PartialEq)]
pub struct ShowTasksStmt {
    pub limit: Option<ShowLimit>,
}

/// The SQL text of a SHOW TASKS statement.
pub open spec fn spec_show_tasks_sql(s: ShowTasksStmt) -> Seq<char> {
    "SHOW TASKS"@ + match s.limit {
        Some(l) => " "@ + spec_show_limit_sql(l),
        None => Seq::<char>::empty(),
    }
}

impl ShowTasksStmt {
    /// Renders the statement.
    pub fn sql_string(&self) -> (r: String)
        ensures
            r@ == spec_show_tasks_sql(*self),
    {
        let mut s = String::new();
        s.append("SHOW TASKS");
        if let Some(l) = &self.limit {
            s.append(" ");
            let t = l.sql_string();
            s.append(t.as_str());
        }
        proof {
            assert(s@ =~= spec_show_tasks_sql(*self));
        }
        s
    }
}

/// EXECUTE TASK.
#[derive(Debug, Clone, PartialEq, Eq)]
pub struct ExecuteTaskStmt {
    pub name: String,
}

/// The SQL text of an EXECUTE TASK statement.
pub open spec fn spec_execute_task_sql(s: ExecuteTaskStmt) -> Seq<char> {
    "EXECUTE TASK "@ + s.name@
}

impl ExecuteTaskStmt {
    /// Renders the statement.
    pub fn sql_string(&self) -> (r: String)
        ensures
            r@ == spec_execute_task_sql(*self),
    {
        let mut s = String::new();
        s.append("EXECUTE TASK ");
        s.append(self.name.as_str());
        proof {
            assert(s@ =~= spec_execute_task_sql(*self));
        }
        s
    }
}

/// DESCRIBE TASK.
#[derive(Debug, Clone, PartialEq, Eq)]
pub struct DescribeTaskStmt {
    pub name: String,
}

/// The SQL text of a DESCRIBE TASK statement.
pub open spec fn spec_describe_task_sql(s: DescribeTaskStmt) -> Seq<char> {
    "DESCRIBE TASK "@ + s.name@
}

impl DescribeTaskStmt {
    /// Renders the statement.
    pub fn sql_string(&self) -> (r: String)
        ensures
            r@ == spec_describe_task_sql(*self),
    {
        let mut s = String::new();
        s.append("DESCRIBE TASK ");
        s.append(self.name.as_str());
        proof {
            assert(s@ =~= spec_describe_task_sql(*self));
        }
        s
    }
}

/// SHOW TASK_RUNS.
#[derive(Debug, Clone, PartialEq)]
pub struct ShowTaskRunsStmt {
    pub limit: Option<ShowLimit>,
}

/// The SQL text of a SHOW TASK_RUNS statement.
pub open spec fn spec_show_task_runs_sql(s: ShowTaskRunsStmt) -> Seq<char> {
    "SHOW TASK_RUNS"@ + match s.limit {
        Some(l) => " "@ + spec_show_limit_sql(l),
        None => Seq::<char>::empty(),
    }
}

impl ShowTaskRunsStmt {
    /// Renders the statement.
    pub fn sql_string(&self) -> (r: String)
        ensures
            r@ == spec_show_task_runs_sql(*self),
    {
        let mut s = String::new();
        s.append("SHOW TASK_RUNS");
        if let Some(l) = &self.limit {
            s.append(" ");
            let t = l.sql_string();
            s.append(t.as_str());
        }
        proof {
            assert(s@ =~= spec_show_task_runs_sql(*self));
        }
        s
    }
}

} // verus!
