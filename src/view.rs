//! The numbers that decide which lines of the chat screen are visible.

use vstd::prelude::*;

verus! {

/// Index of the first message line shown: the newest lines fill the area,
/// moved up by the scroll offset, never before the first line.
pub fn first_visible_line(total_lines: usize, available_lines: usize, scroll_offset: usize) -> (r: usize)
    ensures
        r as int == if total_lines <= available_lines + scroll_offset {
            0
        } else {
            total_lines - available_lines - scroll_offset
        },
{
    total_lines.saturating_sub(available_lines).saturating_sub(scroll_offset)
}

/// Height of the compose area's text: as many lines as the input has, at most
/// five and at most the screen height less four.
pub fn input_area_height(input_lines: usize, screen_height: usize) -> (r: usize)
    ensures
        r as int == {
            let room: int = if screen_height < 4 { 0 } else { screen_height - 4 };
            let max_height: int = if room < 5 { room } else { 5 };
            if input_lines < max_height { input_lines as int } else { max_height }
        },
{
    let room = screen_height.saturating_sub(4);
    let max_height = if room < 5 { room } else { 5 };
    if input_lines < max_height { input_lines } else { max_height }
}

} // verus!
