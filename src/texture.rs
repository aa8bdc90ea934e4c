//! The pixels of a small colourful test pattern, used to show how textures lie on
//! the hex meshes.
use vstd::prelude::*;

verus! {

/// Width and height of the pattern, in pixels.
pub const TEXTURE_SIZE: usize = 8;

/// Eight RGBA colours, one row of the pattern.
pub open spec fn palette() -> Seq<u8> {
    seq![
        255u8, 102, 159, 255, 255, 159, 102, 255, 236, 255, 102, 255, 121, 255, 102, 255, 102, 255,
        198, 255, 102, 198, 255, 255, 121, 102, 255, 255, 236, 102, 255, 255,
    ]
}

/// Byte `i` of row `y`: the palette turned right by one colour per row.
pub open spec fn pattern_byte(y: int, i: int) -> u8 {
    palette()[(i + 32 - 4 * (y % 8)) % 32]
}

/// The RGBA bytes of the pattern, row by row: each row is the palette turned right
/// by one more colour than the row above.
pub fn uv_debug_texture_data() -> (data: Vec<u8>)
    ensures
        data@.len() == TEXTURE_SIZE * TEXTURE_SIZE * 4,
        forall|y: int, i: int|
            0 <= y < 8 && 0 <= i < 32 ==> #[trigger] data@[y * 32 + i] == pattern_byte(y, i),
{
    let pal: Vec<u8> = vec![
        255, 102, 159, 255, 255, 159, 102, 255, 236, 255, 102, 255, 121, 255, 102, 255, 102, 255,
        198, 255, 102, 198, 255, 255, 121, 102, 255, 255, 236, 102, 255, 255,
    ];
    assert(pal@ =~= palette());
    let mut data: Vec<u8> = Vec::new();
    let mut y: usize = 0;
    while y < TEXTURE_SIZE
        invariant
            y <= 8,
            pal@ == palette(),
            data@.len() == y * 32,
            forall|yy: int, i: int|
                0 <= yy < y && 0 <= i < 32 ==> #[trigger] data@[yy * 32 + i] == pattern_byte(yy, i),
        decreases 8 - y,
    {
        let mut i: usize = 0;
        while i < 32
            invariant
                y < 8,
                i <= 32,
                pal@ == palette(),
                data@.len() == y * 32 + i,
                forall|yy: int, j: int|
                    0 <= yy < y && 0 <= j < 32 ==> #[trigger] data@[yy * 32 + j] == pattern_byte(
                        yy,
                        j,
                    ),
                forall|j: int| 0 <= j < i ==> #[trigger] data@[y * 32 + j] == pattern_byte(y as int, j),
            decreases 32 - i,
        {
            let b = pal[(i + 32 - 4 * y) % 32];
            data.push(b);
            i = i + 1;
        }
        y = y + 1;
    }
    data
}

} // verus!
