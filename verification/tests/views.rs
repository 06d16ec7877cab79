use todos::todos::{get_todos, Todo, TodoStore};
use todos::views::{render_home, render_remaining_todos, render_todo_item, render_todo_item_with_count, usize_to_string};

#[test]
fn decimal_rendering_is_exact() {
    assert_eq!(usize_to_string(0), "0");
    assert_eq!(usize_to_string(7), "7");
    assert_eq!(usize_to_string(10), "10");
    assert_eq!(usize_to_string(42), "42");
    assert_eq!(usize_to_string(1234567890), "1234567890");
}

#[test]
fn count_badge_is_exact() {
    assert_eq!(
        render_remaining_todos(3),
        "<span id=\"todo-count\"><strong>3</strong> item(s) left</span>"
    );
}

#[test]
fn item_row_is_exact() {
    let t = Todo { id: "abc".to_string(), text: "Write tests".to_string(), done: false };
    assert_eq!(render_todo_item(&t), "<li id=\"abc\" class=\"pending\">Write tests</li>");

    let done = Todo { id: "xyz".to_string(), text: "Ship it".to_string(), done: true };
    assert_eq!(render_todo_item(&done), "<li id=\"xyz\" class=\"completed\">Ship it</li>");
}

#[test]
fn item_fragment_carries_the_count() {
    let t = Todo { id: "abc".to_string(), text: "One".to_string(), done: false };
    assert_eq!(
        render_todo_item_with_count(&t, 1),
        "<li id=\"abc\" class=\"pending\">One</li><span id=\"todo-count\"><strong>1</strong> item(s) left</span>"
    );
}

#[test]
fn empty_store_lists_nothing() {
    let store = TodoStore::new();
    assert_eq!(
        get_todos(&store),
        "<ul id=\"todo-list\"></ul><span id=\"todo-count\"><strong>0</strong> item(s) left</span>"
    );
}

#[test]
fn home_shell_loads_the_list_fragment() {
    let shell = render_home();
    assert!(shell.contains("hx-get=\"/todos\""));
    assert!(shell.contains("hx-trigger=\"load\""));
}
