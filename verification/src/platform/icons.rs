//! Pixels of icons and logos.
use crate::text;
use crate::text_map::TextMap;
use vstd::prelude::*;

verus! {

/// An RGBA picture, four bytes a pixel.
#[derive(Debug, Clone, PartialEq, Eq)]
pub struct Icon {
    pub width: u32,
    pub height: u32,
    pub rgba: Vec<u8>,
}

/// Icons by path; failures are kept too, so that a refresh stays cheap.
#[derive(Debug)]
pub struct IconCache {
    pub entries: TextMap<Option<Icon>>,
}

impl Icon {
    /// Copy of the picture.
    pub fn copy(&self) -> (r: Self)
        ensures
            r.width == self.width,
            r.height == self.height,
            r.rgba@ == self.rgba@,
    {
        Icon {
            width: self.width,
            height: self.height,
            rgba: vstd::slice::slice_to_vec(self.rgba.as_slice()),
        }
    }
}

impl IconCache {
    /// A cache that holds nothing.
    pub fn new() -> (r: Self)
        ensures
            r.entries@ == Map::<Seq<char>, Option<Icon>>::empty(),
    {
        IconCache { entries: TextMap::new() }
    }

    /// What the cache holds of a path: nothing yet (`None`), or the outcome of its
    /// extraction.
    pub fn lookup(&self, path: &str) -> (r: Option<&Option<Icon>>)
        ensures
            match r {
                Some(e) => self.entries@.dom().contains(path@) && *e == self.entries@[path@],
                None => !self.entries@.dom().contains(path@),
            },
    {
        self.entries.get(path)
    }

    /// Keeps the outcome of an extraction.
    pub fn store(&mut self, path: &str, extracted: Option<Icon>)
        ensures
            final(self).entries@ == old(self).entries@.insert(path@, extracted),
    {
        self.entries.insert(text::own(path), extracted);
    }
}

/// Edge of the icon that is drawn for a wanted size.
pub fn icon_edge(size: u32) -> (r: u32)
    ensures
        r == (if size < 16 {
            16
        } else {
            size
        }),
{
    if size < 16 {
        16
    } else {
        size
    }
}

/// Size request of the shell: the small size in the high half, the large one in the low half.
/// A size that does not fit a half spills over.
pub fn shell_icon_size(size: u32) -> (r: u32)
    ensures
        r == ((size << 16) | size),
        size < 0x10000 ==> r == size * 0x10000 + size,
{
    assert(size < 0x10000 ==> ((size << 16) | size) == size * 0x10000 + size) by (bit_vector);
    (size << 16) | size
}

/// Place of the byte that a red/blue swap puts at `i`.
pub open spec fn swapped_index(i: int) -> int {
    if i % 4 == 0 {
        i + 2
    } else if i % 4 == 2 {
        i - 2
    } else {
        i
    }
}

/// BGRA pixels as RGBA: in every whole pixel the first and third byte change places.
pub fn bgra_to_rgba(pixels: &mut Vec<u8>)
    ensures
        final(pixels)@.len() == old(pixels)@.len(),
        forall|i: int|
            0 <= i < old(pixels)@.len() ==> #[trigger] final(pixels)@[i] == (if i < old(
                pixels,
            )@.len() / 4 * 4 {
                old(pixels)@[swapped_index(i)]
            } else {
                old(pixels)@[i]
            }),
{
    let ghost before = pixels@;
    let total: usize = pixels.len();
    let n: usize = total / 4;
    let mut k: usize = 0;
    while k < n
        invariant
            k <= n,
            total == before.len(),
            n == total / 4,
            pixels@.len() == before.len(),
            forall|i: int|
                0 <= i < before.len() ==> #[trigger] pixels@[i] == (if i < 4 * k {
                    before[swapped_index(i)]
                } else {
                    before[i]
                }),
        decreases n - k,
    {
        let a: u8 = pixels[4 * k];
        let b: u8 = pixels[4 * k + 2];
        pixels.set(4 * k, b);
        pixels.set(4 * k + 2, a);
        assert forall|i: int| 0 <= i < before.len() implies #[trigger] pixels@[i] == (if i < 4 * (k
            + 1) {
            before[swapped_index(i)]
        } else {
            before[i]
        }) by {
            if 4 * k <= i < 4 * (k + 1) {
                assert(i == 4 * k || i == 4 * k + 1 || i == 4 * k + 2 || i == 4 * k + 3);
            }
        }
        k = k + 1;
    }
}

/// Byte of a wide logo: the square icon stands in the middle, all else is empty.
pub open spec fn wide_byte(rgba: Seq<u8>, icon: int, width: int, i: int) -> u8 {
    let x0 = (width - icon) / 2;
    let y = i / (4 * width);
    let x = i % (4 * width) / 4;
    if x0 <= x < x0 + icon {
        rgba[4 * (y * icon + (x - x0)) + i % 4]
    } else {
        0
    }
}

/// Pixels of a wide logo: a square icon of edge `icon` centered on an empty canvas of the same
/// height.
pub fn wide_canvas(rgba: &[u8], icon: u32, width: u32) -> (r: Vec<u8>)
    requires
        icon <= width,
        4 * icon * width <= usize::MAX,
        rgba@.len() == 4 * icon * icon,
    ensures
        r@.len() == 4 * icon * width,
        forall|i: int|
            0 <= i < r@.len() ==> #[trigger] r@[i] == wide_byte(
                rgba@,
                icon as int,
                width as int,
                i,
            ),
{
    let icon: usize = icon as usize;
    let width: usize = width as usize;
    let x0: usize = (width - icon) / 2;
    let mut canvas: Vec<u8> = Vec::new();
    assert(4 * icon * icon <= 4 * icon * width) by (nonlinear_arith)
        requires
            icon <= width,
    ;
    let mut y: usize = 0;
    assert(4 * y * width == 0) by (nonlinear_arith)
        requires
            y == 0,
    ;
    while y < icon
        invariant
            y <= icon,
            icon <= width,
            x0 == (width - icon) / 2,
            rgba@.len() == 4 * icon * icon <= usize::MAX,
            canvas@.len() == 4 * y * width,
            forall|i: int|
                0 <= i < canvas@.len() ==> #[trigger] canvas@[i] == wide_byte(
                    rgba@,
                    icon as int,
                    width as int,
                    i,
                ),
        decreases icon - y,
    {
        let mut x: usize = 0;
        while x < width
            invariant
                x <= width,
                y < icon,
                icon <= width,
                x0 == (width - icon) / 2,
                rgba@.len() == 4 * icon * icon <= usize::MAX,
                canvas@.len() == 4 * y * width + 4 * x,
                forall|i: int|
                    0 <= i < canvas@.len() ==> #[trigger] canvas@[i] == wide_byte(
                        rgba@,
                        icon as int,
                        width as int,
                        i,
                    ),
            decreases width - x,
        {
            let mut b: usize = 0;
            while b < 4
                invariant
                    b <= 4,
                    x < width,
                    y < icon,
                    icon <= width,
                    x0 == (width - icon) / 2,
                    rgba@.len() == 4 * icon * icon <= usize::MAX,
                    canvas@.len() == 4 * y * width + 4 * x + b,
                    forall|i: int|
                        0 <= i < canvas@.len() ==> #[trigger] canvas@[i] == wide_byte(
                            rgba@,
                            icon as int,
                            width as int,
                            i,
                        ),
                decreases 4 - b,
            {
                let ghost i = 4 * y * width + 4 * x + b;
                proof {
                    lemma_place(y as int, x as int, b as int, width as int);
                }
                let byte: u8 = if x0 <= x && x < x0 + icon {
                    proof {
                        lemma_source(y as int, x - x0, b as int, icon as int);
                    }
                    rgba[4 * (y * icon + (x - x0)) + b]
                } else {
                    0
                };
                canvas.push(byte);
                assert(canvas@[i] == wide_byte(rgba@, icon as int, width as int, i));
                b = b + 1;
            }
            x = x + 1;
        }
        assert(4 * (y + 1) * width == 4 * y * width + 4 * width) by (nonlinear_arith);
        y = y + 1;
    }
    canvas
}

proof fn lemma_place(y: int, x: int, b: int, width: int)
    requires
        0 <= y,
        0 <= x < width,
        0 <= b < 4,
    ensures
        ({
            let i = 4 * y * width + 4 * x + b;
            i / (4 * width) == y && i % (4 * width) / 4 == x && i % 4 == b
        }),
{
    let i = 4 * y * width + 4 * x + b;
    let d = 4 * width;
    let r = 4 * x + b;
    assert(i == y * d + r) by (nonlinear_arith)
        requires
            i == 4 * y * width + 4 * x + b,
            d == 4 * width,
            r == 4 * x + b,
    ;
    assert(0 <= r < d);
    vstd::arithmetic::div_mod::lemma_fundamental_div_mod_converse(i, d, y, r);
    assert(i == 4 * (y * width + x) + b) by (nonlinear_arith)
        requires
            i == 4 * y * width + 4 * x + b,
    ;
}

proof fn lemma_source(y: int, x: int, b: int, icon: int)
    requires
        0 <= y < icon,
        0 <= x < icon,
        0 <= b < 4,
    ensures
        0 <= y * icon,
        4 * (y * icon + x) + b < 4 * icon * icon,
{
    assert(0 <= y * icon && y * icon + icon <= icon * icon) by (nonlinear_arith)
        requires
            0 <= y < icon,
    ;
    assert(4 * icon * icon == 4 * (icon * icon)) by (nonlinear_arith);
}

} // verus!
