use todo_list::numbers::{decimal, parse_usize};
use todo_list::print_tools::{banner, clip_to_width, repeat_str, width_or_default, DEFAULT_WIDTH};
use todo_list::task::Task;
use todo_list::task_list::{normalize, TaskError, TaskList, HELP_TEXT};

fn list_of(titles: &[&str]) -> TaskList {
    let mut list = TaskList::new();
    for t in titles {
        list.add_task(&t.to_string());
    }
    list
}

fn snapshot(list: &TaskList) -> Vec<(u64, bool, String)> {
    list.tasks().iter().map(|t| (t.id, t.completed, t.name.clone())).collect()
}

#[test]
fn ids_follow_call_order() {
    let list = list_of(&["a", "b", "c", "d"]);
    assert_eq!(
        snapshot(&list),
        vec![
            (1, false, "a".to_string()),
            (2, false, "b".to_string()),
            (3, false, "c".to_string()),
            (4, false, "d".to_string()),
        ]
    );
}

#[test]
fn toggle_twice_restores() {
    let mut list = list_of(&["a", "b"]);
    let before = snapshot(&list);
    assert_eq!(list.toggle_completion(2), Ok(()));
    assert!(list.tasks()[1].completed);
    assert_eq!(list.toggle_completion(2), Ok(()));
    assert_eq!(snapshot(&list), before);
}

#[test]
fn toggle_out_of_range_leaves_list() {
    let mut list = list_of(&["a", "b"]);
    let before = snapshot(&list);
    assert_eq!(list.toggle_completion(0), Err(TaskError::IndexOutOfRange));
    assert_eq!(list.toggle_completion(3), Err(TaskError::IndexOutOfRange));
    assert_eq!(list.toggle_completion(usize::MAX), Err(TaskError::IndexOutOfRange));
    assert_eq!(snapshot(&list), before);
    let mut empty = TaskList::new();
    assert_eq!(empty.toggle_completion(1), Err(TaskError::IndexOutOfRange));
}

#[test]
fn empty_render() {
    assert_eq!(TaskList::new().render(), "No tasks found!");
}

#[test]
fn render_lines() {
    let mut list = list_of(&["a", "bb"]);
    list.toggle_completion(2).unwrap();
    assert_eq!(list.render(), "1 [ ] a\n2 [X] bb");
}

#[test]
fn input_adds_task() {
    let mut list = TaskList::new();
    let mut stop = false;
    let out = list.print_home(&"buy milk".to_string(), &mut stop);
    assert_eq!(snapshot(&list), vec![(1, false, "buy milk".to_string())]);
    assert_eq!(out.message, "Task 'buy milk' successfully added to list!");
    assert_eq!(out.changed, Some(0));
    assert!(!out.stop);
    assert!(!stop);
}

#[test]
fn input_toggles_task() {
    let mut list = list_of(&["buy milk"]);
    let mut stop = false;
    let out = list.print_home(&"1".to_string(), &mut stop);
    assert_eq!(snapshot(&list), vec![(1, true, "buy milk".to_string())]);
    assert_eq!(out.message, "Status of item 1 changed successfully");
    assert_eq!(out.changed, Some(0));
}

#[test]
fn input_out_of_bounds() {
    let mut list = list_of(&["buy milk"]);
    let mut stop = false;
    let out = list.print_home(&"5".to_string(), &mut stop);
    assert_eq!(snapshot(&list), vec![(1, false, "buy milk".to_string())]);
    assert_eq!(out.message, "Index out of bounds (1 to 1). Try again");
    assert_eq!(out.changed, None);
    let out = list.print_home(&"0".to_string(), &mut stop);
    assert_eq!(out.message, "Index out of bounds (1 to 1). Try again");
}

#[test]
fn input_quit_stops() {
    let mut list = list_of(&["a"]);
    let mut stop = false;
    let out = list.print_home(&"q".to_string(), &mut stop);
    assert!(out.stop);
    assert!(stop);
    assert_eq!(out.message, "");
    assert_eq!(snapshot(&list), vec![(1, false, "a".to_string())]);
    let mut stop = false;
    let out = list.print_home(&"  QUIT \n".to_string(), &mut stop);
    assert!(out.stop);
    assert!(stop);
}

#[test]
fn input_empty_shows_help() {
    let mut list = TaskList::new();
    let mut stop = false;
    let out = list.print_home(&"   \n".to_string(), &mut stop);
    assert_eq!(out.message, HELP_TEXT);
    assert!(out.message.starts_with("Command List:\n"));
    assert_eq!(list.len(), 0);
    assert!(!stop);
}

#[test]
fn input_is_lowercased_and_trimmed() {
    let mut list = TaskList::new();
    let mut stop = false;
    let out = list.print_home(&"  Buy MILK \n".to_string(), &mut stop);
    assert_eq!(list.tasks()[0].name, "buy milk");
    assert_eq!(out.message, "Task 'buy milk' successfully added to list!");
    assert_eq!(normalize(&" ÄB c\t".to_string()), "äb c");
}

#[test]
fn oversized_number_is_out_of_range() {
    let mut list = list_of(&["a"]);
    let mut stop = false;
    let out = list.print_home(&"99999999999999999999999".to_string(), &mut stop);
    assert_eq!(out.message, "Index out of bounds (1 to 1). Try again");
    assert_eq!(out.changed, None);
    assert_eq!(snapshot(&list), vec![(1, false, "a".to_string())]);
    let out = list.print_home(&"+1".to_string(), &mut stop);
    assert_eq!(out.message, "Status of item 1 changed successfully");
    assert!(list.tasks()[0].completed);
    assert!(!stop);
}

#[test]
fn sign_alone_is_a_title() {
    let mut list = TaskList::new();
    let mut stop = false;
    let out = list.print_home(&"+".to_string(), &mut stop);
    assert_eq!(out.message, "Task '+' successfully added to list!");
    let out = list.print_home(&"12a".to_string(), &mut stop);
    assert_eq!(out.message, "Task '12a' successfully added to list!");
    assert_eq!(list.len(), 2);
}

#[test]
fn unicode_white_space_is_trimmed() {
    assert_eq!(normalize(&"\u{a0}\u{3000}x y\u{2028}".to_string()), "x y");
}

#[test]
fn reload_round_trip() {
    let mut list = list_of(&["a", "b", "c"]);
    list.toggle_completion(2).unwrap();
    let rows: Vec<Task> = list
        .tasks()
        .iter()
        .map(|t| Task::new(t.id, t.name.clone(), t.completed))
        .collect();
    let again = TaskList::load(rows).ok().unwrap();
    assert_eq!(snapshot(&again), snapshot(&list));
    assert_eq!(again.render(), list.render());
}

#[test]
fn load_rejects_gaps() {
    let rows = vec![Task::new(1, "a".to_string(), false), Task::new(3, "b".to_string(), true)];
    assert!(matches!(TaskList::load(rows), Err(TaskError::StorageError)));
    let rows = vec![Task::new(2, "a".to_string(), false)];
    assert!(matches!(TaskList::load(rows), Err(TaskError::StorageError)));
    assert_eq!(TaskList::load(Vec::new()).ok().unwrap().len(), 0);
}

#[test]
fn decimal_text() {
    assert_eq!(decimal(0), "0");
    assert_eq!(decimal(7), "7");
    assert_eq!(decimal(10), "10");
    assert_eq!(decimal(1234567890), "1234567890");
    assert_eq!(decimal(u64::MAX), "18446744073709551615");
}

#[test]
fn parse_numbers() {
    assert_eq!(parse_usize("42"), Some(42));
    assert_eq!(parse_usize("+42"), Some(42));
    assert_eq!(parse_usize("007"), Some(7));
    assert_eq!(parse_usize(""), None);
    assert_eq!(parse_usize("+"), None);
    assert_eq!(parse_usize("-1"), None);
    assert_eq!(parse_usize("4a"), None);
    assert_eq!(parse_usize(" 4"), None);
    assert_eq!(parse_usize("18446744073709551615"), Some(usize::MAX));
    assert_eq!(parse_usize("18446744073709551616"), None);
}

#[test]
fn width_fallback() {
    assert_eq!(width_or_default(None), 70);
    assert_eq!(DEFAULT_WIDTH, 70);
    assert_eq!(width_or_default(Some(120)), 120);
    assert_eq!(width_or_default(Some(0)), 70);
    assert_eq!(width_or_default(Some(1)), 1);
}

#[test]
fn clipping() {
    assert_eq!(clip_to_width(&"héllo".to_string(), 3), "hél");
    assert_eq!(clip_to_width(&"hi".to_string(), 10), "hi");
    assert_eq!(clip_to_width(&"hi".to_string(), 0), "");
}

#[test]
fn rules_and_banner() {
    assert_eq!(repeat_str("-", 4), "----");
    assert_eq!(repeat_str("ab", 0), "");
    assert_eq!(banner(20), "####################\n     Todo List     \n####################");
    assert_eq!(banner(5), "#####\nTodo \n#####");
}
