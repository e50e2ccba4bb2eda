//! Texture sampling: looks screen coordinates up in a 16 x 16 indexed
//! texture, each texel magnified four times and tiled across the screen.
//! Decoding a texture file is the caller's concern; this module only reads
//! the index bytes.

use vstd::prelude::*;
use vstd::arithmetic::div_mod::lemma_mod_division_less_than_divisor;

verus! {

/// Magnification: each texel covers this many pixels each way.
pub const TEXTURE_SCALE: u32 = 4;

/// Texel columns in a texture.
pub const TEXTURE_WIDTH: u32 = 16;

/// Texel rows in a texture.
pub const TEXTURE_HEIGHT: u32 = 16;

/// Which byte of a texture the screen coordinate `(x, y)` samples.
pub open spec fn texel_index(x: int, y: int) -> int {
    (x / (TEXTURE_SCALE as int)) % (TEXTURE_WIDTH as int)
        + (TEXTURE_WIDTH as int) * ((y / (TEXTURE_SCALE as int)) % (TEXTURE_HEIGHT as int))
}

/// Sample the texture at screen coordinate `(x, y)`: the texel index byte,
/// or nothing when the texture holds too few bytes.
pub fn get(texture: &[u8], x: u32, y: u32) -> (r: Option<u8>)
    ensures
        r == if texel_index(x as int, y as int) < texture@.len() {
            Some(texture@[texel_index(x as int, y as int)])
        } else {
            None::<u8>
        },
{
    let tx: usize = ((x / TEXTURE_SCALE) % TEXTURE_WIDTH) as usize;
    let ty: usize = ((y / TEXTURE_SCALE) % TEXTURE_HEIGHT) as usize;
    proof {
        lemma_mod_division_less_than_divisor((x as int) / (TEXTURE_SCALE as int),
            TEXTURE_WIDTH as int);
        lemma_mod_division_less_than_divisor((y as int) / (TEXTURE_SCALE as int),
            TEXTURE_HEIGHT as int);
        assert(tx == ((x as int) / (TEXTURE_SCALE as int)) % (TEXTURE_WIDTH as int));
        assert(ty == ((y as int) / (TEXTURE_SCALE as int)) % (TEXTURE_HEIGHT as int));
        assert((tx as int) + (TEXTURE_WIDTH as int) * (ty as int) < 256) by (nonlinear_arith)
            requires
                0 <= tx < 16,
                0 <= ty < 16,
                (TEXTURE_WIDTH as int) == 16;
    }
    let idx: usize = tx + (TEXTURE_WIDTH as usize) * ty;
    if idx < texture.len() {
        Some(texture[idx])
    } else {
        None
    }
}

} // verus!
