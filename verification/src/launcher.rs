//! The keys of the launch bar: moving the selection through the list of
//! matches and editing the query.

use vstd::prelude::*;
use crate::text::{is_space, is_space_char, Text};

verus! {

/// A key that the launch bar knows.
#[derive(Clone, Copy, Debug, PartialEq, Eq, Structural)]
pub enum Key {
    Escape,
    Return,
    Down,
    Up,
    A,
    B,
    D,
    E,
    F,
    H,
    K,
    N,
    P,
    W,
    /// Any other key.
    Other,
}

/// What a key does.
#[derive(Clone, Copy, Debug, PartialEq, Eq, Structural)]
pub enum KeyAction {
    /// Hide the launch bar.
    Hide,
    /// Take the selected match.
    Confirm,
    /// Select the match at this index.
    Select(usize),
    /// Put the caret of the query at `at`.
    MoveCaret { at: i32 },
    /// Select the query from `start` to `end` and erase the selection.
    Erase { start: i32, end: i32 },
    /// Erase the character before the caret.
    Backspace,
    /// Nothing.
    Nothing,
}

/// The index after `selected`, the first after the last; the first where
/// nothing is selected.
pub open spec fn next_index(selected: Option<usize>, count: usize) -> int {
    match selected {
        Some(i) => (i + 1) % (count as int),
        None => 0,
    }
}

/// The index before `selected`, the last before the first; the first where
/// nothing is selected.
pub open spec fn previous_index(selected: Option<usize>, count: usize) -> int {
    match selected {
        Some(i) => if i == 0 {
            count - 1
        } else {
            i - 1
        },
        None => 0,
    }
}

/// Where the word ends that lies before index `k`, looking back from `k`:
/// the nearest index at or before `k` that holds white space, or 0.
pub open spec fn back_to_space(text: Text, k: int) -> int
    decreases k,
{
    if k > 0 && !is_space(text[k]) {
        back_to_space(text, k - 1)
    } else {
        k
    }
}

/// Where erasing a word begins for a caret at `caret`.
pub open spec fn word_start(text: Text, caret: int) -> int {
    if caret > 0 {
        back_to_space(text, caret - 1)
    } else {
        0
    }
}

/// What a key does, given whether the control key is down, the selected
/// match and the number of matches, the caret and the length of the query,
/// and the query.
pub open spec fn key_action(
    key: Key,
    ctrl: bool,
    selected: Option<usize>,
    count: usize,
    caret: i32,
    len: i32,
    text: Text,
) -> KeyAction {
    let down = if count > 0 {
        KeyAction::Select(next_index(selected, count) as usize)
    } else {
        KeyAction::Nothing
    };
    let up = if count > 0 {
        KeyAction::Select(previous_index(selected, count) as usize)
    } else {
        KeyAction::Nothing
    };
    match key {
        Key::Escape => KeyAction::Hide,
        Key::Return => KeyAction::Confirm,
        Key::Down => down,
        Key::Up => up,
        _ => if !ctrl {
            KeyAction::Nothing
        } else {
            match key {
                Key::A => KeyAction::MoveCaret { at: 0 },
                Key::E => KeyAction::MoveCaret { at: len },
                Key::F => if caret < len {
                    KeyAction::MoveCaret { at: (caret + 1) as i32 }
                } else {
                    KeyAction::Nothing
                },
                Key::B => if caret > 0 {
                    KeyAction::MoveCaret { at: (caret - 1) as i32 }
                } else {
                    KeyAction::Nothing
                },
                Key::N => down,
                Key::P => up,
                Key::D => if caret < len {
                    KeyAction::Erase { start: caret, end: (caret + 1) as i32 }
                } else {
                    KeyAction::Nothing
                },
                Key::H => KeyAction::Backspace,
                Key::W => KeyAction::Erase {
                    start: word_start(text, caret as int) as i32,
                    end: caret,
                },
                Key::K => KeyAction::Erase { start: caret, end: len },
                _ => KeyAction::Nothing,
            }
        },
    }
}

/// The match to select after `selected` among `count` matches.
fn select_next(selected: Option<usize>, count: usize) -> (action: KeyAction)
    ensures
        action == if count > 0 {
            KeyAction::Select(next_index(selected, count) as usize)
        } else {
            KeyAction::Nothing
        },
{
    if count == 0 {
        return KeyAction::Nothing;
    }
    match selected {
        Some(i) => {
            let r = i % count;
            assert((i + 1) % (count as int) == (r + 1) % (count as int)) by (nonlinear_arith)
                requires
                    r == i % count,
                    count > 0,
            ;
            KeyAction::Select((r + 1) % count)
        },
        None => KeyAction::Select(0),
    }
}

/// The match to select before `selected` among `count` matches.
fn select_previous(selected: Option<usize>, count: usize) -> (action: KeyAction)
    ensures
        action == if count > 0 {
            KeyAction::Select(previous_index(selected, count) as usize)
        } else {
            KeyAction::Nothing
        },
{
    if count == 0 {
        return KeyAction::Nothing;
    }
    match selected {
        Some(i) => if i == 0 {
            KeyAction::Select(count - 1)
        } else {
            KeyAction::Select(i - 1)
        },
        None => KeyAction::Select(0),
    }
}

/// Where erasing a word begins for a caret at `caret`: before the word that
/// lies before the caret.
pub fn erase_word_from(text: &Vec<char>, caret: usize) -> (start: usize)
    requires
        caret <= text.len(),
    ensures
        start == word_start(text@, caret as int),
        start <= caret,
{
    if caret == 0 {
        return 0;
    }
    let mut k: usize = caret - 1;
    while k > 0 && !is_space_char(text[k])
        invariant
            k < caret <= text.len(),
            back_to_space(text@, k as int) == back_to_space(text@, caret - 1),
        decreases k,
    {
        k -= 1;
    }
    k
}

/// Decides what a key does in the launch bar.
///
/// `Escape` hides the bar and `Return` takes the selected match. `Down` and
/// `Up` move the selection round the list of matches. With the control key,
/// `N` and `P` do the same, `A`, `E`, `F` and `B` move the caret, and `D`,
/// `H`, `W` and `K` erase: the next character, the previous one, the word
/// before the caret, and all from the caret on.
pub fn decide_key(
    key: Key,
    ctrl: bool,
    selected: Option<usize>,
    count: usize,
    caret: i32,
    len: i32,
    text: &Vec<char>,
) -> (action: KeyAction)
    requires
        key == Key::W && ctrl ==> 0 <= caret <= text.len(),
    ensures
        action == key_action(key, ctrl, selected, count, caret, len, text@),
{
    match key {
        Key::Escape => KeyAction::Hide,
        Key::Return => KeyAction::Confirm,
        Key::Down => select_next(selected, count),
        Key::Up => select_previous(selected, count),
        _ => {
            if !ctrl {
                return KeyAction::Nothing;
            }
            match key {
                Key::A => KeyAction::MoveCaret { at: 0 },
                Key::E => KeyAction::MoveCaret { at: len },
                Key::F => if caret < len {
                    KeyAction::MoveCaret { at: caret + 1 }
                } else {
                    KeyAction::Nothing
                },
                Key::B => if caret > 0 {
                    KeyAction::MoveCaret { at: caret - 1 }
                } else {
                    KeyAction::Nothing
                },
                Key::N => select_next(selected, count),
                Key::P => select_previous(selected, count),
                Key::D => if caret < len {
                    KeyAction::Erase { start: caret, end: caret + 1 }
                } else {
                    KeyAction::Nothing
                },
                Key::H => KeyAction::Backspace,
                Key::W => {
                    let start = erase_word_from(text, caret as usize);
                    KeyAction::Erase { start: start as i32, end: caret }
                },
                Key::K => KeyAction::Erase { start: caret, end: len },
                _ => KeyAction::Nothing,
            }
        },
    }
}

} // verus!
