use vstd::prelude::*;

verus! {

/// The 256 grey levels of an 8-bit greyscale palette, as red, green and
/// blue components: entry `i` is `(i, i, i)`.
pub fn build_palette_8bpp_greyscale() -> (palette: Vec<(u8, u8, u8)>)
    ensures
        palette@.len() == 256,
        forall|i: int| 0 <= i < 256 ==> #[trigger] palette@[i] == (i as u8, i as u8, i as u8),
{
    let mut palette: Vec<(u8, u8, u8)> = Vec::new();
    let mut i: u16 = 0;
    while i <= 255
        invariant
            i <= 256,
            palette@.len() == i,
            forall|j: int| 0 <= j < i ==> #[trigger] palette@[j] == (j as u8, j as u8, j as u8),
        decreases 256 - i,
    {
        let level = i as u8;
        palette.push((level, level, level));
        i = i + 1;
    }
    palette
}

} // verus!
