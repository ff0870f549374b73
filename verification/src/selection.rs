//! Cursor movement over a variable-length list: wraparound navigation and
//! the re-selection rules applied after an item is inserted or removed.

use vstd::prelude::*;

verus! {

/// The cursor invariant: no selection exactly when the list is empty,
/// otherwise an index strictly below the length.
pub open spec fn cursor_ok(len: usize, cur: Option<usize>) -> bool {
    match cur {
        Option::None => len == 0,
        Option::Some(i) => i < len,
    }
}

/// Moving up decrements, wrapping from the top of the list to its end;
/// a missing selection is treated as index 0.
pub open spec fn move_up_spec(len: usize, cur: Option<usize>) -> Option<usize> {
    if len == 0 {
        Option::None
    } else {
        let i: usize = match cur {
            Option::Some(i) => i,
            Option::None => 0,
        };
        if i == 0 {
            Option::Some((len - 1) as usize)
        } else {
            Option::Some((i - 1) as usize)
        }
    }
}

/// Moving down increments, wrapping from the end of the list back to 0;
/// a missing selection is treated as index 0.
pub open spec fn move_down_spec(len: usize, cur: Option<usize>) -> Option<usize> {
    if len == 0 {
        Option::None
    } else {
        let i: usize = match cur {
            Option::Some(i) => i,
            Option::None => 0,
        };
        if i >= (len - 1) as usize {
            Option::Some(0usize)
        } else {
            Option::Some((i + 1) as usize)
        }
    }
}

/// After a removal the cursor resets to the head of the list, or to no
/// selection when the list became empty.
pub open spec fn after_remove_spec(len_after: usize) -> Option<usize> {
    if len_after == 0 {
        Option::None
    } else {
        Option::Some(0usize)
    }
}

/// After an append the cursor lands on the new tail item, except that a
/// previously empty selection starts at the head.
pub open spec fn after_insert_spec(len_after: usize, cur: Option<usize>) -> Option<usize> {
    if len_after == 0 {
        Option::None
    } else {
        match cur {
            Option::None => Option::Some(0usize),
            Option::Some(_) => Option::Some((len_after - 1) as usize),
        }
    }
}

pub fn move_up(len: usize, cur: Option<usize>) -> (r: Option<usize>)
    ensures
        r == move_up_spec(len, cur),
        cursor_ok(len, cur) ==> cursor_ok(len, r),
{
    if len == 0 {
        Option::None
    } else {
        let i: usize = match cur {
            Option::Some(i) => i,
            Option::None => 0,
        };
        if i == 0 {
            Option::Some(len - 1)
        } else {
            Option::Some(i - 1)
        }
    }
}

pub fn move_down(len: usize, cur: Option<usize>) -> (r: Option<usize>)
    ensures
        r == move_down_spec(len, cur),
        cursor_ok(len, cur) ==> cursor_ok(len, r),
{
    if len == 0 {
        Option::None
    } else {
        let i: usize = match cur {
            Option::Some(i) => i,
            Option::None => 0,
        };
        if i >= len - 1 {
            Option::Some(0)
        } else {
            Option::Some(i + 1)
        }
    }
}

pub fn after_remove(len_after: usize) -> (r: Option<usize>)
    ensures
        r == after_remove_spec(len_after),
        cursor_ok(len_after, r),
{
    if len_after == 0 {
        Option::None
    } else {
        Option::Some(0)
    }
}

pub fn after_insert(len_after: usize, cur: Option<usize>) -> (r: Option<usize>)
    ensures
        r == after_insert_spec(len_after, cur),
        cursor_ok(len_after, r),
{
    if len_after == 0 {
        Option::None
    } else {
        match cur {
            Option::None => Option::Some(0),
            Option::Some(_) => Option::Some(len_after - 1),
        }
    }
}

/// Navigation wraps at both ends and leaves an empty list unselected:
/// up from index 0 in a list of length `len` lands on `len - 1`, down from
/// `len - 1` lands on 0, and on an empty list both directions stay `None`.
pub proof fn lemma_navigation_wraparound(len: usize)
    ensures
        len > 0 ==> move_up_spec(len, Option::Some(0usize)) == Option::Some((len - 1) as usize),
        len > 0 ==> move_down_spec(len, Option::Some((len - 1) as usize)) == Option::Some(0usize),
        move_up_spec(0, Option::None) == Option::None::<usize>,
        move_down_spec(0, Option::None) == Option::None::<usize>,
{
}

} // verus!
