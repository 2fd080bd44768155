//! What the window shows of the state: the title's second line, the label of
//! the current file's type and the status line.

use vstd::prelude::*;
use crate::file_type::{label_of_path, update_file_type};
use crate::model::State;

verus! {

/// The character of a decimal digit.
pub open spec fn digit_char(d: int) -> char {
    if d == 0 {
        '0'
    } else if d == 1 {
        '1'
    } else if d == 2 {
        '2'
    } else if d == 3 {
        '3'
    } else if d == 4 {
        '4'
    } else if d == 5 {
        '5'
    } else if d == 6 {
        '6'
    } else if d == 7 {
        '7'
    } else if d == 8 {
        '8'
    } else {
        '9'
    }
}

/// The decimal digits of `n`, without leading zeros.
pub open spec fn decimal_digits(n: nat) -> Seq<char>
    decreases n,
{
    if n < 10 {
        seq![digit_char(n as int)]
    } else {
        decimal_digits(n / 10).push(digit_char((n % 10) as int))
    }
}

/// The decimal notation of `i`, with a minus sign where it is negative.
pub open spec fn decimal(i: int) -> Seq<char> {
    if i < 0 {
        seq!['-'] + decimal_digits((-i) as nat)
    } else {
        decimal_digits(i as nat)
    }
}

/// The status line: the cursor's line and offset in it, and the branch of
/// the open folder's repository.
pub open spec fn status_text(line: int, offset: int, branch: Seq<char>) -> Seq<char> {
    decimal(line) + seq![':'] + decimal(offset) + seq![' ', '|', ' '] + branch
}

fn digit_text(d: u32) -> (r: &'static str)
    requires
        d < 10,
    ensures
        r@ == seq![digit_char(d as int)],
{
    proof {
        reveal_strlit("0");
        reveal_strlit("1");
        reveal_strlit("2");
        reveal_strlit("3");
        reveal_strlit("4");
        reveal_strlit("5");
        reveal_strlit("6");
        reveal_strlit("7");
        reveal_strlit("8");
        reveal_strlit("9");
    }
    let r = if d == 0 {
        "0"
    } else if d == 1 {
        "1"
    } else if d == 2 {
        "2"
    } else if d == 3 {
        "3"
    } else if d == 4 {
        "4"
    } else if d == 5 {
        "5"
    } else if d == 6 {
        "6"
    } else if d == 7 {
        "7"
    } else if d == 8 {
        "8"
    } else {
        "9"
    };
    assert(r@ =~= seq![digit_char(d as int)]);
    r
}

fn push_digits(out: &mut String, n: u32)
    ensures
        final(out)@ == old(out)@ + decimal_digits(n as nat),
    decreases n,
{
    if n >= 10 {
        push_digits(out, n / 10);
    }
    out.append(digit_text(n % 10));
    assert(out@ =~= old(out)@ + decimal_digits(n as nat));
}

/// The decimal notation of `i`.
pub fn decimal_text(i: i32) -> (r: String)
    ensures
        r@ == decimal(i as int),
{
    let mut r = String::new();
    if i < 0 {
        proof {
            reveal_strlit("-");
        }
        r.append("-");
        let magnitude: u32 = if i == i32::MIN {
            2147483648u32
        } else {
            (-i) as u32
        };
        push_digits(&mut r, magnitude);
        assert(r@ =~= decimal(i as int));
    } else {
        push_digits(&mut r, i as u32);
        assert(r@ =~= decimal(i as int));
    }
    r
}

/// What the window shows beside the editor and the folder tree.
#[derive(Debug)]
pub struct StatusView {
    /// The second line of the title: the open folder.
    pub subtitle: String,
    /// The label of the current file's type; empty where it has none.
    pub file_type: String,
    /// The status line.
    pub cursor_position: String,
}

/// What the window shows for `state`, with the cursor on line `cursor_line`
/// at offset `cursor_row` in that line.
pub fn handle_view(state: &State, cursor_line: i32, cursor_row: i32) -> (r: StatusView)
    ensures
        r.subtitle@ == state@.current_folder_path,
        r.file_type@ == match label_of_path(state@.current_file_path) {
            Some(label) => label,
            None => Seq::empty(),
        },
        r.cursor_position@ == status_text(
            cursor_line as int,
            cursor_row as int,
            state@.git_info.0,
        ),
{
    let file_type = match update_file_type(state.current_file_path.as_str()) {
        Some(label) => label,
        None => String::new(),
    };
    let mut status_line_extras = decimal_text(cursor_line);
    proof {
        reveal_strlit(":");
        reveal_strlit(" | ");
    }
    status_line_extras.append(":");
    status_line_extras.append(decimal_text(cursor_row).as_str());
    status_line_extras.append(" | ");
    status_line_extras.append(state.git_info.0.as_str());
    assert(status_line_extras@ =~= status_text(
        cursor_line as int,
        cursor_row as int,
        state@.git_info.0,
    ));
    StatusView {
        subtitle: state.current_folder_path.clone(),
        file_type,
        cursor_position: status_line_extras,
    }
}

} // verus!
