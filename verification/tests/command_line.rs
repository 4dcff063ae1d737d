use kam::backend::insert_head;
use kam::decimal::{push_decimal, to_decimal};
use kam::task::{
    choose_action, completion_notice, list_query, parent_notice, task_line, Action,
};

#[test]
fn decimal_of_small_and_large_numbers() {
    assert_eq!(to_decimal(0), "0");
    assert_eq!(to_decimal(7), "7");
    assert_eq!(to_decimal(10), "10");
    assert_eq!(to_decimal(12345), "12345");
    assert_eq!(to_decimal(1000000), "1000000");
    assert_eq!(to_decimal(-1), "-1");
    assert_eq!(to_decimal(-90), "-90");
    assert_eq!(to_decimal(i64::MAX), "9223372036854775807");
    assert_eq!(to_decimal(i64::MIN), "-9223372036854775808");
}

#[test]
fn decimal_agrees_with_the_standard_library() {
    for i in [-1001i64, -100, -11, -10, -9, 0, 9, 10, 11, 99, 100, 101, 4096, 65535, 1 << 40] {
        assert_eq!(to_decimal(i), i.to_string());
    }
}

#[test]
fn push_decimal_appends() {
    let mut text = "id ".to_string();
    push_decimal(&mut text, -42);
    assert_eq!(text, "id -42");
}

#[test]
fn a_title_asks_for_a_new_task_before_anything_else() {
    assert_eq!(
        choose_action(Some("buy milk".to_string()), Some(3), Some(9), Some(4), true),
        Action::New { title: "buy milk".to_string(), parent: Some(3) }
    );
    assert_eq!(
        choose_action(Some(String::new()), None, None, None, false),
        Action::New { title: String::new(), parent: None }
    );
}

#[test]
fn a_task_to_complete_comes_before_listing() {
    assert_eq!(choose_action(None, Some(3), Some(9), Some(4), true), Action::Complete { id: 9 });
}

#[test]
fn without_title_or_completion_the_tasks_are_listed() {
    assert_eq!(
        choose_action(None, Some(3), None, Some(4), true),
        Action::List { id: Some(4), all: true }
    );
    assert_eq!(choose_action(None, None, None, None, false), Action::List { id: None, all: false });
}

#[test]
fn list_query_has_one_text_for_each_case() {
    assert_eq!(list_query(Some(1), true), "SELECT id, name, complete FROM task WHERE parent = ?;");
    assert_eq!(
        list_query(Some(1), false),
        "SELECT id, name, complete FROM task WHERE complete = 0 AND parent = ?;"
    );
    assert_eq!(list_query(None, true), "SELECT id, name, complete FROM task WHERE parent IS NULL;");
    assert_eq!(
        list_query(None, false),
        "SELECT id, name, complete FROM task WHERE complete = 0 AND parent IS NULL;"
    );
}

#[test]
fn task_line_of_an_open_task() {
    assert_eq!(task_line(12, "water the plants", false), "12. water the plants");
    assert_eq!(task_line(0, "", false), "0. ");
}

#[test]
fn task_line_of_a_completed_task_is_struck_through() {
    assert_eq!(task_line(3, "done", true), "\u{1B}[9m3. done\u{1B}[0m");
    assert_eq!(task_line(-5, "odd", true), "\u{1B}[9m-5. odd\u{1B}[0m");
}

#[test]
fn completion_notice_only_where_the_task_is_missing() {
    assert_eq!(completion_notice(None, 8), Some("ERROR: Task `8` doesn't exist!".to_string()));
    assert_eq!(completion_notice(Some(false), 8), None);
    assert_eq!(completion_notice(Some(true), 8), None);
}

#[test]
fn parent_notice_for_a_completed_or_missing_parent() {
    assert_eq!(
        parent_notice(Some(true), 21),
        Some("ERROR: Parent task `21` is already completed!".to_string())
    );
    assert_eq!(
        parent_notice(None, 21),
        Some("ERROR: Parent task `21` doesn't exist!".to_string())
    );
    assert_eq!(parent_notice(Some(false), 21), None);
}

#[test]
fn insert_head_names_table_and_fields() {
    assert_eq!(
        insert_head("tasks", "parent, title, completed"),
        "INSERT INTO tasks (parent, title, completed) "
    );
    assert_eq!(insert_head("", ""), "INSERT INTO  () ");
}
