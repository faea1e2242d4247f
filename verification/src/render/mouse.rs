use vstd::prelude::*;

verus! {

/// What one frame of input asks of the cursor lock: `Some(false)` to release it
/// (Escape wins), `Some(true)` to capture it (left click), `None` to leave it.
pub open spec fn lock_request(escape_pressed: bool, left_clicked: bool) -> Option<bool> {
    if escape_pressed {
        Some(false)
    } else if left_clicked {
        Some(true)
    } else {
        None
    }
}

/// The lock state after a request: a request sets it, no request keeps it.
pub open spec fn lock_after(locked: bool, request: Option<bool>) -> bool {
    match request {
        Some(v) => v,
        None => locked,
    }
}

/// Decides, from this frame's Escape key and left mouse button, whether the cursor
/// should be released, captured, or left as it is. The caller grabs or frees the
/// cursor (and hides or shows it) to match a `Some` answer.
pub fn mouse_lock_request(escape_pressed: bool, left_clicked: bool) -> (request: Option<bool>)
    ensures
        request == lock_request(escape_pressed, left_clicked),
{
    if escape_pressed {
        return Some(false);
    }
    if left_clicked {
        return Some(true);
    }
    None
}

/// The viewer's "mouse captured" flag after a request from `mouse_lock_request`.
pub fn apply_mouse_lock(locked: bool, request: Option<bool>) -> (next: bool)
    ensures
        next == lock_after(locked, request),
{
    match request {
        Some(should_lock) => should_lock,
        None => locked,
    }
}

/// Escape always leaves the cursor released, whatever else was pressed.
pub proof fn lemma_escape_releases(locked: bool, left_clicked: bool)
    ensures
        !lock_after(locked, lock_request(true, left_clicked)),
{
}

/// A left click without Escape always leaves the cursor captured.
pub proof fn lemma_click_captures(locked: bool)
    ensures
        lock_after(locked, lock_request(false, true)),
{
}

/// A frame with neither Escape nor a left click changes nothing.
pub proof fn lemma_no_input_keeps_lock(locked: bool)
    ensures
        lock_request(false, false) is None,
        lock_after(locked, lock_request(false, false)) == locked,
{
}

} // verus!
