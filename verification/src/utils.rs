use vstd::prelude::*;

verus! {

/// The spinner's animation frame for tick `i`: the frames repeat in a fixed
/// cycle of ten.
pub open spec fn spec_spinner_frame(i: int) -> char {
    let k = i % 10;
    if k == 0 {
        '⠋'
    } else if k == 1 {
        '⠙'
    } else if k == 2 {
        '⠹'
    } else if k == 3 {
        '⠸'
    } else if k == 4 {
        '⠼'
    } else if k == 5 {
        '⠴'
    } else if k == 6 {
        '⠦'
    } else if k == 7 {
        '⠧'
    } else if k == 8 {
        '⠇'
    } else {
        '⠏'
    }
}

/// The character a progress indicator shows at its `i`-th tick.
pub fn spinner_frame(i: usize) -> (r: char)
    ensures
        r == spec_spinner_frame(i as int),
{
    let k = i % 10;
    if k == 0 {
        '⠋'
    } else if k == 1 {
        '⠙'
    } else if k == 2 {
        '⠹'
    } else if k == 3 {
        '⠸'
    } else if k == 4 {
        '⠼'
    } else if k == 5 {
        '⠴'
    } else if k == 6 {
        '⠦'
    } else if k == 7 {
        '⠧'
    } else if k == 8 {
        '⠇'
    } else {
        '⠏'
    }
}

} // verus!
