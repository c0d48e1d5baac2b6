//! The todo record and its textual rendering.
use vstd::prelude::*;
use vstd::string::StringExecFns;

use crate::ids::IdGenerator;

verus! {

/// What `str::trim` returns for a given text.
pub uninterp spec fn trim_of(s: Seq<char>) -> Seq<char>;

/// Relies on `str::trim`: the text without its leading and trailing
/// whitespace, which depends on the characters alone.
#[verifier::external_body]
pub(crate) fn trimmed(s: &str) -> (r: &str)
    ensures
        r@ == trim_of(s@),
{
    s.trim()
}

/// The mathematical content of a record.
pub ghost struct TodoView {
    pub id: nat,
    pub text: Seq<char>,
    pub completed: bool,
}

/// One task: an identifier fixed at creation, a description and a
/// completion flag.
pub struct Todo {
    pub id: u64,
    pub text: String,
    pub completed: bool,
}

impl View for Todo {
    type V = TodoView;

    open spec fn view(&self) -> TodoView {
        TodoView { id: self.id as nat, text: self.text@, completed: self.completed }
    }
}

impl Clone for Todo {
    fn clone(&self) -> (r: Self)
        ensures
            r@ == self@,
    {
        Todo { id: self.id, text: self.text.clone(), completed: self.completed }
    }
}

/// A record after an update: each supplied value replaces the old one, the
/// others stay, and the id never changes.
pub open spec fn updated(
    t: TodoView,
    new_text: Option<Seq<char>>,
    new_completed: Option<bool>,
) -> TodoView {
    TodoView {
        id: t.id,
        text: match new_text {
            Some(s) => s,
            None => t.text,
        },
        completed: match new_completed {
            Some(b) => b,
            None => t.completed,
        },
    }
}

/// A record made with a fresh id from `ids`, the given text, and `completed`
/// false.
pub fn create_todo(ids: &mut IdGenerator, text: String) -> (r: Todo)
    requires
        old(ids).wf(),
        old(ids).peek() < u64::MAX,
    ensures
        final(ids).wf(),
        final(ids).peek() == old(ids).peek() + 1,
        r@ == (TodoView { id: old(ids).peek(), text: text@, completed: false }),
{
    let id = ids.next_id();
    Todo { id, text, completed: false }
}

/// `todo` with each supplied value in place of the old one.
pub fn update_todo(todo: &Todo, new_text: Option<String>, new_completed: Option<bool>) -> (r: Todo)
    ensures
        r@ == updated(
            todo@,
            match new_text {
                Some(s) => Some(s@),
                None => None,
            },
            new_completed,
        ),
{
    let text = match new_text {
        Some(s) => s,
        None => todo.text.clone(),
    };
    let completed = match new_completed {
        Some(b) => b,
        None => todo.completed,
    };
    Todo { id: todo.id, text, completed }
}

/// The character that writes the decimal digit `d`.
pub open spec fn digit_char(d: nat) -> char {
    if d == 0 {
        '0'
    } else if d == 1 {
        '1'
    } else if d == 2 {
        '2'
    } else if d == 3 {
        '3'
    } else if d == 4 {
        '4'
    } else if d == 5 {
        '5'
    } else if d == 6 {
        '6'
    } else if d == 7 {
        '7'
    } else if d == 8 {
        '8'
    } else {
        '9'
    }
}

/// `n` written in base ten, without sign or leading zeros.
pub open spec fn decimal(n: nat) -> Seq<char>
    decreases n,
{
    if n < 10 {
        seq![digit_char(n)]
    } else {
        decimal(n / 10) + seq![digit_char(n % 10)]
    }
}

/// How a completion flag is written.
pub open spec fn bool_text(b: bool) -> Seq<char> {
    if b {
        "true"@
    } else {
        "false"@
    }
}

/// The block that shows one record: its id, its text and its flag, each on a
/// line of its own, with an empty line before.
pub open spec fn block_of(id: nat, text: Seq<char>, completed: bool) -> Seq<char> {
    "\nID: "@ + decimal(id) + "\nTodo: "@ + text + "\nIs Completed: "@ + bool_text(completed)
        + "\n"@
}

fn digit_str(d: u64) -> (r: &'static str)
    requires
        d < 10,
    ensures
        r@ == seq![digit_char(d as nat)],
{
    proof {
        reveal_strlit("0");
        reveal_strlit("1");
        reveal_strlit("2");
        reveal_strlit("3");
        reveal_strlit("4");
        reveal_strlit("5");
        reveal_strlit("6");
        reveal_strlit("7");
        reveal_strlit("8");
        reveal_strlit("9");
    }
    if d == 0 {
        "0"
    } else if d == 1 {
        "1"
    } else if d == 2 {
        "2"
    } else if d == 3 {
        "3"
    } else if d == 4 {
        "4"
    } else if d == 5 {
        "5"
    } else if d == 6 {
        "6"
    } else if d == 7 {
        "7"
    } else if d == 8 {
        "8"
    } else {
        "9"
    }
}

/// Writes `n` in base ten.
pub fn decimal_string(n: u64) -> (r: String)
    ensures
        r@ == decimal(n as nat),
    decreases n,
{
    if n < 10 {
        String::from_str(digit_str(n))
    } else {
        let mut s = decimal_string(n / 10);
        s.append(digit_str(n % 10));
        s
    }
}

/// Renders a record whose text is already trimmed.
pub fn render_block(id: u64, text: &str, completed: bool) -> (r: String)
    ensures
        r@ == block_of(id as nat, text@, completed),
{
    let mut s = String::from_str("\nID: ");
    let digits = decimal_string(id);
    s.append(digits.as_str());
    s.append("\nTodo: ");
    s.append(text);
    s.append("\nIs Completed: ");
    if completed {
        s.append("true");
    } else {
        s.append("false");
    }
    s.append("\n");
    s
}

impl Todo {
    /// The display block of this record, with its text trimmed.
    pub fn display(&self) -> (r: String)
        ensures
            r@ == block_of(self.id as nat, trim_of(self.text@), self.completed),
    {
        let t = trimmed(self.text.as_str());
        render_block(self.id, t, self.completed)
    }
}

} // verus!
