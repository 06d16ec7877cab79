//! The view layer: renders the home shell and the HTML fragments (full
//! list, single item, remaining-count badge) from supplied data. Rendering
//! is pure: it reproduces exactly the records, order and count it is handed
//! and recomputes nothing.

use vstd::prelude::*;
use vstd::pervasive::unreached;
use vstd::string::StringExecFns;
use crate::filters::yes_no;
use crate::todos::{Todo, TodoView, views_of};

verus! {

/// The character for one decimal digit.
pub open spec fn digit_char(d: nat) -> char {
    if d == 0 {
        '0'
    } else if d == 1 {
        '1'
    } else if d == 2 {
        '2'
    } else if d == 3 {
        '3'
    } else if d == 4 {
        '4'
    } else if d == 5 {
        '5'
    } else if d == 6 {
        '6'
    } else if d == 7 {
        '7'
    } else if d == 8 {
        '8'
    } else {
        '9'
    }
}

/// The decimal rendering of a number, most significant digit first, with no
/// leading zeros (a lone zero for zero).
pub open spec fn dec_str(n: nat) -> Seq<char>
    decreases n,
{
    if n < 10 {
        seq![digit_char(n)]
    } else {
        dec_str(n / 10) + seq![digit_char(n % 10)]
    }
}

fn digit_str(d: usize) -> (r: &'static str)
    requires
        d < 10,
    ensures
        r@ == seq![digit_char(d as nat)],
{
    match d {
        0 => {
            proof {
                reveal_strlit("0");
            }
            "0"
        },
        1 => {
            proof {
                reveal_strlit("1");
            }
            "1"
        },
        2 => {
            proof {
                reveal_strlit("2");
            }
            "2"
        },
        3 => {
            proof {
                reveal_strlit("3");
            }
            "3"
        },
        4 => {
            proof {
                reveal_strlit("4");
            }
            "4"
        },
        5 => {
            proof {
                reveal_strlit("5");
            }
            "5"
        },
        6 => {
            proof {
                reveal_strlit("6");
            }
            "6"
        },
        7 => {
            proof {
                reveal_strlit("7");
            }
            "7"
        },
        8 => {
            proof {
                reveal_strlit("8");
            }
            "8"
        },
        _ => {
            proof {
                reveal_strlit("9");
            }
            "9"
        },
    }
}

/// Renders a number in decimal.
pub fn usize_to_string(n: usize) -> (r: String)
    ensures
        r@ == dec_str(n as nat),
    decreases n,
{
    if n < 10 {
        digit_str(n).to_owned()
    } else {
        let mut s = usize_to_string(n / 10);
        s.append(digit_str(n % 10));
        s
    }
}

/// The CSS class that marks a record's completion state.
pub open spec fn item_class(done: bool) -> Seq<char> {
    if done {
        "completed"@
    } else {
        "pending"@
    }
}

/// The single-item fragment: one list row for one record.
pub open spec fn render_item(t: TodoView) -> Seq<char> {
    "<li id=\""@ + t.id + "\" class=\""@ + item_class(t.done) + "\">"@ + t.text + "</li>"@
}

/// The rows of a whole list, in the order the records are handed over.
pub open spec fn render_items(s: Seq<TodoView>) -> Seq<char>
    decreases s.len(),
{
    if s.len() == 0 {
        Seq::empty()
    } else {
        render_items(s.drop_last()) + render_item(s.last())
    }
}

/// The remaining-count badge.
pub open spec fn render_count(n: nat) -> Seq<char> {
    "<span id=\"todo-count\"><strong>"@ + dec_str(n) + "</strong> item(s) left</span>"@
}

/// The full-list fragment: every row in store order plus the count badge.
pub open spec fn render_list(s: Seq<TodoView>, n: nat) -> Seq<char> {
    "<ul id=\"todo-list\">"@ + render_items(s) + "</ul>"@ + render_count(n)
}

/// The single-item fragment together with the count badge, as returned by
/// the create, toggle and edit operations.
pub open spec fn render_item_with_count(t: TodoView, n: nat) -> Seq<char> {
    render_item(t) + render_count(n)
}

/// The static home shell; it carries no data and asks the client to fetch
/// the list fragment once loaded.
pub open spec fn home_shell() -> Seq<char> {
    "<!DOCTYPE html><html><head><title>Todos</title><script src=\"/static/htmx.min.js\"></script></head><body><h1>Todos</h1><div id=\"todo-app\" hx-get=\"/todos\" hx-trigger=\"load\"></div></body></html>"@
}

/// Renders the static home shell.
pub fn render_home() -> (r: String)
    ensures
        r@ == home_shell(),
{
    "<!DOCTYPE html><html><head><title>Todos</title><script src=\"/static/htmx.min.js\"></script></head><body><h1>Todos</h1><div id=\"todo-app\" hx-get=\"/todos\" hx-trigger=\"load\"></div></body></html>".to_owned()
}

/// Renders the remaining-count badge.
pub fn render_remaining_todos(n: usize) -> (r: String)
    ensures
        r@ == render_count(n as nat),
{
    let mut s = "<span id=\"todo-count\"><strong>".to_owned();
    let num = usize_to_string(n);
    s.append(num.as_str());
    s.append("</strong> item(s) left</span>");
    s
}

/// Renders one record as a list row, using the yes/no filter to pick the
/// class that shows its completion state.
pub fn render_todo_item(t: &Todo) -> (r: String)
    ensures
        r@ == render_item(t@),
{
    let class = match yes_no(&t.done, "completed", "pending") {
        Ok(c) => c,
        Err(_) => unreached(),
    };
    let mut s = "<li id=\"".to_owned();
    s.append(t.id.as_str());
    s.append("\" class=\"");
    s.append(class.as_str());
    s.append("\">");
    s.append(t.text.as_str());
    s.append("</li>");
    s
}

/// Renders one record's row followed by the count badge.
pub fn render_todo_item_with_count(t: &Todo, remaining: usize) -> (r: String)
    ensures
        r@ == render_item_with_count(t@, remaining as nat),
{
    let mut s = render_todo_item(t);
    let c = render_remaining_todos(remaining);
    s.append(c.as_str());
    s
}

/// Renders the full-list fragment for the given records and count.
pub fn render_todo_list(todos: &Vec<Todo>, remaining: usize) -> (r: String)
    ensures
        r@ == render_list(views_of(todos@), remaining as nat),
{
    let mut s = "<ul id=\"todo-list\">".to_owned();
    let mut i: usize = 0;
    while i < todos.len()
        invariant
            i <= todos.len(),
            s@ == "<ul id=\"todo-list\">"@ + render_items(views_of(todos@).take(i as int)),
        decreases todos.len() - i,
    {
        let item = render_todo_item(&todos[i]);
        s.append(item.as_str());
        proof {
            let vs = views_of(todos@);
            assert(vs.take(i + 1).drop_last() =~= vs.take(i as int));
        }
        i = i + 1;
    }
    proof {
        assert(views_of(todos@).take(todos@.len() as int) =~= views_of(todos@));
    }
    s.append("</ul>");
    let c = render_remaining_todos(remaining);
    s.append(c.as_str());
    s
}

} // verus!
