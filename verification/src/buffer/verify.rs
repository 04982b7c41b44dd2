//! General index, line and selection validation for a
//! [`VecBuffer`], with constant string errors. These are good to run before
//! using arguments on a buffer.
use vstd::prelude::*;
use crate::buffer::vecbuffer::VecBuffer;
use crate::error_consts::{INDEX_TOO_BIG, INVALID_LINENR0, SELECTION_EMPTY};

verus! {

/// The error [`verify_selection`] gives for `sel` in a buffer of `len`
/// lines, if any.
pub open spec fn selection_check(len: nat, sel: (usize, usize)) -> Option<&'static str> {
    if sel.0 == 0 {
        Some(INVALID_LINENR0)
    } else if sel.0 > sel.1 {
        Some(SELECTION_EMPTY)
    } else if sel.1 > len {
        Some(INDEX_TOO_BIG)
    } else {
        None
    }
}

/// The error [`verify_line`] gives for `index`, if any.
pub open spec fn line_check(len: nat, index: usize) -> Option<&'static str> {
    if index < 1 {
        Some(INVALID_LINENR0)
    } else if index > len {
        Some(INDEX_TOO_BIG)
    } else {
        None
    }
}

/// Verify that the index is between 0 and `buffer.len()` inclusive: it is
/// valid to append to, but may not be valid to read from.
pub fn verify_index(buffer: &VecBuffer, index: usize) -> (r: Result<(), &'static str>)
    ensures
        r is Ok <==> index <= buffer.lines().len(),
        r is Err ==> r == Err::<(), &'static str>(INDEX_TOO_BIG),
{
    if index > buffer.len() {
        return Err(INDEX_TOO_BIG);
    }
    Ok(())
}

/// Verify that index is between 1 and `buffer.len()` inclusive: the line
/// exists.
pub fn verify_line(buffer: &VecBuffer, index: usize) -> (r: Result<(), &'static str>)
    ensures
        r matches Err(e) ==> line_check(buffer.lines().len(), index) == Some(e),
        r is Ok ==> line_check(buffer.lines().len(), index) is None,
{
    if index < 1 {
        Err(INVALID_LINENR0)
    } else if index > buffer.len() {
        Err(INDEX_TOO_BIG)
    } else {
        Ok(())
    }
}

/// Verify that all lines in the selection exist and that it isn't empty.
pub fn verify_selection(buffer: &VecBuffer, selection: (usize, usize)) -> (r: Result<(), &'static str>)
    ensures
        r matches Err(e) ==> selection_check(buffer.lines().len(), selection) == Some(e),
        r is Ok ==> selection_check(buffer.lines().len(), selection) is None,
{
    if selection.0 == 0 {
        return Err(INVALID_LINENR0);
    }
    if selection.0 > selection.1 {
        return Err(SELECTION_EMPTY);
    }
    if selection.1 > buffer.len() {
        return Err(INDEX_TOO_BIG);
    }
    Ok(())
}

} // verus!
