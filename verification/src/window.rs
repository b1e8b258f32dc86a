use vstd::prelude::*;

verus! {

/// Logical window size (width, height) of a character window for a size level.
pub fn char_window_size(level: u8) -> (size: (u32, u32))
    ensures
        level == 1 ==> size == (140u32, 130u32),
        level == 3 ==> size == (245u32, 230u32),
        level != 1 && level != 3 ==> size == (185u32, 180u32),
{
    if level == 1 {
        (140, 130)
    } else if level == 3 {
        (245, 230)
    } else {
        (185, 180)
    }
}

} // verus!
