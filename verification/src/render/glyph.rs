//! The glyphs that text is drawn with: five by five bits for each sign.

use crate::bitmap::{Bitmap, BitmapView, Major};
use crate::menu::io::key_is;
use vstd::prelude::*;

verus! {

/// The bits of the glyph for the sign `key`, row after row from the top and
/// from left to right within a row, the first bit lowest; `None` where the
/// sign has no glyph.
pub open spec fn glyph_mask(key: Seq<char>) -> Option<u32> {
    if key == " "@ {
        Some(0x0000000)
    } else if key == "**"@ {
        Some(0x0477dc4)
    } else if key == "*"@ {
        Some(0x0022880)
    } else if key == "0"@ {
        Some(0x0e8d62e)
    } else if key == "1"@ {
        Some(0x0e21086)
    } else if key == "2"@ {
        Some(0x1f1322e)
    } else if key == "3"@ {
        Some(0x0e8b22e)
    } else if key == "4"@ {
        Some(0x10fca94)
    } else if key == "5"@ {
        Some(0x0f8383f)
    } else if key == "6"@ {
        Some(0x0e8bc2e)
    } else if key == "7"@ {
        Some(0x022221f)
    } else if key == "8"@ {
        Some(0x0e8ba2e)
    } else if key == "9"@ {
        Some(0x0e87a2e)
    } else if key == "a"@ {
        Some(0x11fc544)
    } else if key == "b"@ {
        Some(0x0f8be2f)
    } else if key == "c"@ {
        Some(0x1e0843e)
    } else if key == "d"@ {
        Some(0x0f8c62f)
    } else if key == "e"@ {
        Some(0x1f09c3f)
    } else if key == "f"@ {
        Some(0x0109c3f)
    } else if key == "g"@ {
        Some(0x0e8f42e)
    } else if key == "h"@ {
        Some(0x11fc631)
    } else if key == "i"@ {
        Some(0x0e2108e)
    } else if key == "j"@ {
        Some(0x0e8c218)
    } else if key == "k"@ {
        Some(0x1149d31)
    } else if key == "l"@ {
        Some(0x1f08421)
    } else if key == "m"@ {
        Some(0x118d771)
    } else if key == "n"@ {
        Some(0x11cd671)
    } else if key == "o"@ {
        Some(0x0e8c62e)
    } else if key == "p"@ {
        Some(0x010be2f)
    } else if key == "q"@ {
        Some(0x107562e)
    } else if key == "r"@ {
        Some(0x114be2f)
    } else if key == "s"@ {
        Some(0x0f8383e)
    } else if key == "t"@ {
        Some(0x042109f)
    } else if key == "u"@ {
        Some(0x0e8c631)
    } else if key == "v"@ {
        Some(0x0452a31)
    } else if key == "w"@ {
        Some(0x11dd631)
    } else if key == "x"@ {
        Some(0x1151151)
    } else if key == "y"@ {
        Some(0x0421151)
    } else if key == "z"@ {
        Some(0x1f1111f)
    } else if key == "."@ {
        Some(0x0073800)
    } else if key == ","@ {
        Some(0x0442000)
    } else if key == ";"@ {
        Some(0x03701ce)
    } else if key == ":"@ {
        Some(0x0e701ce)
    } else if key == "<"@ {
        Some(0x0820888)
    } else if key == ">"@ {
        Some(0x0222082)
    } else if key == "("@ {
        Some(0x0821088)
    } else if key == ")"@ {
        Some(0x0442104)
    } else if key == "{"@ {
        Some(0x1822898)
    } else if key == "}"@ {
        Some(0x0322883)
    } else if key == "]"@ {
        Some(0x0c4210c)
    } else if key == "["@ {
        Some(0x0610846)
    } else if key == "\""@ {
        Some(0x000294a)
    } else if key == "="@ {
        Some(0x00f83e0)
    } else if key == "_"@ {
        Some(0x1f00000)
    } else if key == "/"@ {
        Some(0x0111110)
    } else if key == "`"@ {
        Some(0x0002082)
    } else if key == "#"@ {
        Some(0x0afabea)
    } else if key == "!"@ {
        Some(0x0603318)
    } else {
        None
    }
}

/// Bit `k` of `mask`.
pub open spec fn mask_bit(mask: u32, k: int) -> bool {
    (mask >> (k as u32)) & 1 == 1
}

/// The five by five bitmap, in row order, that `mask` holds.
pub open spec fn mask_bitmap(mask: u32) -> BitmapView {
    BitmapView {
        width: 5,
        height: 5,
        major: Major::Row,
        lines: Seq::new(5, |y: int| Seq::new(5, |x: int| mask_bit(mask, y * 5 + x))),
    }
}

/// The bits of the glyph for the sign `key`, if it has one.
pub fn glyph_mask_of(key: &String) -> (r: Option<u32>)
    ensures
        r == glyph_mask(key@),
{
    if key_is(key, " ") {
        Some(0x0000000)
    } else if key_is(key, "**") {
        Some(0x0477dc4)
    } else if key_is(key, "*") {
        Some(0x0022880)
    } else if key_is(key, "0") {
        Some(0x0e8d62e)
    } else if key_is(key, "1") {
        Some(0x0e21086)
    } else if key_is(key, "2") {
        Some(0x1f1322e)
    } else if key_is(key, "3") {
        Some(0x0e8b22e)
    } else if key_is(key, "4") {
        Some(0x10fca94)
    } else if key_is(key, "5") {
        Some(0x0f8383f)
    } else if key_is(key, "6") {
        Some(0x0e8bc2e)
    } else if key_is(key, "7") {
        Some(0x022221f)
    } else if key_is(key, "8") {
        Some(0x0e8ba2e)
    } else if key_is(key, "9") {
        Some(0x0e87a2e)
    } else if key_is(key, "a") {
        Some(0x11fc544)
    } else if key_is(key, "b") {
        Some(0x0f8be2f)
    } else if key_is(key, "c") {
        Some(0x1e0843e)
    } else if key_is(key, "d") {
        Some(0x0f8c62f)
    } else if key_is(key, "e") {
        Some(0x1f09c3f)
    } else if key_is(key, "f") {
        Some(0x0109c3f)
    } else if key_is(key, "g") {
        Some(0x0e8f42e)
    } else if key_is(key, "h") {
        Some(0x11fc631)
    } else if key_is(key, "i") {
        Some(0x0e2108e)
    } else if key_is(key, "j") {
        Some(0x0e8c218)
    } else if key_is(key, "k") {
        Some(0x1149d31)
    } else if key_is(key, "l") {
        Some(0x1f08421)
    } else if key_is(key, "m") {
        Some(0x118d771)
    } else if key_is(key, "n") {
        Some(0x11cd671)
    } else if key_is(key, "o") {
        Some(0x0e8c62e)
    } else if key_is(key, "p") {
        Some(0x010be2f)
    } else if key_is(key, "q") {
        Some(0x107562e)
    } else if key_is(key, "r") {
        Some(0x114be2f)
    } else if key_is(key, "s") {
        Some(0x0f8383e)
    } else if key_is(key, "t") {
        Some(0x042109f)
    } else if key_is(key, "u") {
        Some(0x0e8c631)
    } else if key_is(key, "v") {
        Some(0x0452a31)
    } else if key_is(key, "w") {
        Some(0x11dd631)
    } else if key_is(key, "x") {
        Some(0x1151151)
    } else if key_is(key, "y") {
        Some(0x0421151)
    } else if key_is(key, "z") {
        Some(0x1f1111f)
    } else if key_is(key, ".") {
        Some(0x0073800)
    } else if key_is(key, ",") {
        Some(0x0442000)
    } else if key_is(key, ";") {
        Some(0x03701ce)
    } else if key_is(key, ":") {
        Some(0x0e701ce)
    } else if key_is(key, "<") {
        Some(0x0820888)
    } else if key_is(key, ">") {
        Some(0x0222082)
    } else if key_is(key, "(") {
        Some(0x0821088)
    } else if key_is(key, ")") {
        Some(0x0442104)
    } else if key_is(key, "{") {
        Some(0x1822898)
    } else if key_is(key, "}") {
        Some(0x0322883)
    } else if key_is(key, "]") {
        Some(0x0c4210c)
    } else if key_is(key, "[") {
        Some(0x0610846)
    } else if key_is(key, "\"") {
        Some(0x000294a)
    } else if key_is(key, "=") {
        Some(0x00f83e0)
    } else if key_is(key, "_") {
        Some(0x1f00000)
    } else if key_is(key, "/") {
        Some(0x0111110)
    } else if key_is(key, "`") {
        Some(0x0002082)
    } else if key_is(key, "#") {
        Some(0x0afabea)
    } else if key_is(key, "!") {
        Some(0x0603318)
    } else {
        None
    }
}

/// The five by five bitmap that `mask` holds.
pub fn glyph_bitmap(mask: u32) -> (bitmap: Bitmap)
    ensures
        bitmap@ == mask_bitmap(mask),
        bitmap@.wf(),
{
    let mut bits: Vec<Vec<bool>> = Vec::new();
    let mut y: u32 = 0;
    while y < 5
        invariant
            y <= 5,
            bits.len() == y,
            forall|j: int|
                0 <= j < y ==> bits@[j]@ == Seq::new(5, |x: int| mask_bit(mask, j * 5 + x)),
        decreases 5 - y,
    {
        let mut row: Vec<bool> = Vec::new();
        let mut x: u32 = 0;
        while x < 5
            invariant
                y < 5,
                x <= 5,
                row.len() == x,
                forall|i: int| 0 <= i < x ==> row@[i] == mask_bit(mask, y * 5 + i),
            decreases 5 - x,
        {
            let k: u32 = y * 5 + x;
            row.push((mask >> k) & 1 == 1);
            x += 1;
        }
        assert(row@ =~= Seq::new(5, |x: int| mask_bit(mask, y * 5 + x)));
        bits.push(row);
        y += 1;
    }
    let bitmap = Bitmap { width: 5, height: 5, major: Major::Row, bits };
    assert(bitmap@.lines =~= mask_bitmap(mask).lines);
    bitmap
}

/// The glyph for the sign `key`, if it has one.
pub fn glyph_of(key: &String) -> (r: Option<Bitmap>)
    ensures
        match glyph_mask(key@) {
            Some(m) => r matches Some(b) && b@ == mask_bitmap(m),
            None => r is None,
        },
{
    match glyph_mask_of(key) {
        Some(m) => Some(glyph_bitmap(m)),
        None => None,
    }
}

} // verus!
