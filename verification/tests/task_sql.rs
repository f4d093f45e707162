use pipeline_core::decimal::u64_to_string;
use pipeline_core::task::{
    AlterTaskOptions, AlterTaskStmt, CreateTaskStmt, DescribeTaskStmt, DropTaskStmt,
    ExecuteTaskStmt, ScheduleOptions, ShowLimit, ShowTaskRunsStmt, ShowTasksStmt,
    WarehouseOptions,
};

#[test]
fn decimal_rendering() {
    assert_eq!(u64_to_string(0), "0");
    assert_eq!(u64_to_string(7), "7");
    assert_eq!(u64_to_string(30), "30");
    assert_eq!(u64_to_string(1234567890), "1234567890");
    assert_eq!(u64_to_string(u64::MAX), "18446744073709551615");
}

#[test]
fn create_task_full_clause() {
    let stmt = CreateTaskStmt {
        if_not_exists: true,
        name: "mytask".to_string(),
        warehouse_opts: WarehouseOptions { warehouse: Some("wh".to_string()) },
        schedule_opts: ScheduleOptions::IntervalMinutes(30),
        suspend_task_after_num_failures: Some(3),
        comments: "nightly".to_string(),
        sql: "SELECT 1".to_string(),
    };
    assert_eq!(
        stmt.sql_string(),
        "CREATE TASK IF NOT EXISTS mytask WAREHOUSE = wh SCHEDULE 30 MINUTE \
         SUSPEND TASK AFTER 3 FAILURES COMMENTS = 'nightly' AS SELECT 1"
    );
}

#[test]
fn create_task_minimal_clause() {
    let stmt = CreateTaskStmt {
        if_not_exists: false,
        name: "t".to_string(),
        warehouse_opts: WarehouseOptions { warehouse: None },
        schedule_opts: ScheduleOptions::CronExpression("0 0 * * *".to_string(), None),
        suspend_task_after_num_failures: None,
        comments: String::new(),
        sql: "SELECT 2".to_string(),
    };
    assert_eq!(stmt.sql_string(), "CREATE TASK t SCHEDULE CRON '0 0 * * *' AS SELECT 2");
}

#[test]
fn schedule_cron_with_timezone() {
    let s = ScheduleOptions::CronExpression("* * * * *".to_string(), Some("UTC".to_string()));
    assert_eq!(s.sql_string(), " SCHEDULE CRON '* * * * *' TIMEZONE 'UTC'");
}

#[test]
fn alter_task_variants() {
    let resume = AlterTaskStmt {
        if_exists: false,
        name: "t".to_string(),
        options: AlterTaskOptions::Resume,
    };
    assert_eq!(resume.sql_string(), "ALTER TASK t RESUME");

    let suspend = AlterTaskStmt {
        if_exists: true,
        name: "t".to_string(),
        options: AlterTaskOptions::Suspend,
    };
    assert_eq!(suspend.sql_string(), "ALTER TASK IF EXISTS t SUSPEND");

    let set = AlterTaskStmt {
        if_exists: false,
        name: "t".to_string(),
        options: AlterTaskOptions::SetOptions {
            warehouse: Some("wh2".to_string()),
            schedule: Some(ScheduleOptions::IntervalMinutes(5)),
            suspend_task_after_num_failures: Some(2),
            comments: Some("c".to_string()),
        },
    };
    assert_eq!(
        set.sql_string(),
        "ALTER TASK t SET WAREHOUSE = wh2 SET SCHEDULE 5 MINUTE \
         SUSPEND TASK AFTER 2 FAILURES COMMENTS = 'c'"
    );

    let unset = AlterTaskStmt {
        if_exists: false,
        name: "t".to_string(),
        options: AlterTaskOptions::Unset { warehouse: true },
    };
    assert_eq!(unset.sql_string(), "ALTER TASK t UNSET WAREHOUSE");

    let modify = AlterTaskStmt {
        if_exists: false,
        name: "t".to_string(),
        options: AlterTaskOptions::ModifyAs("SELECT 3".to_string()),
    };
    assert_eq!(modify.sql_string(), "ALTER TASK t AS SELECT 3");
}

#[test]
fn drop_execute_describe_tasks() {
    let drop = DropTaskStmt { if_exists: true, name: "t".to_string() };
    assert_eq!(drop.sql_string(), "DROP TASK IF EXISTS t");
    let drop2 = DropTaskStmt { if_exists: false, name: "t".to_string() };
    assert_eq!(drop2.sql_string(), "DROP TASK t");
    let exec = ExecuteTaskStmt { name: "t".to_string() };
    assert_eq!(exec.sql_string(), "EXECUTE TASK t");
    let desc = DescribeTaskStmt { name: "t".to_string() };
    assert_eq!(desc.sql_string(), "DESCRIBE TASK t");
}

#[test]
fn show_tasks_and_runs() {
    let bare = ShowTasksStmt { limit: None };
    assert_eq!(bare.sql_string(), "SHOW TASKS");
    let like = ShowTasksStmt {
        limit: Some(ShowLimit::Like { pattern: "x%".to_string() }),
    };
    assert_eq!(like.sql_string(), "SHOW TASKS LIKE 'x%'");
    let runs = ShowTaskRunsStmt {
        limit: Some(ShowLimit::Where { selection: "a = 1".to_string() }),
    };
    assert_eq!(runs.sql_string(), "SHOW TASK_RUNS WHERE a = 1");
}
