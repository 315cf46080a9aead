//! The lossless filter that precedes compression.
//!
//! Pixels of four bytes, blue, green, red and alpha, are split into planes; each plane keeps the
//! differences of neighbours; and blue and red are told relative to green. All arithmetic wraps.
use crate::utils::vec4u8::{pixel_count, plane_byte, Vec4u8s};
use vstd::prelude::*;

verus! {

/// Channel `c` of pixel `i`, less the same channel of the pixel before.
pub open spec fn difference(bgra: Seq<u8>, c: int, i: int) -> int {
    (bgra[4 * i + c] - (if i == 0 {
        0
    } else {
        bgra[4 * (i - 1) + c] as int
    })) % 256
}

/// The planes that a filtered image consists of: green, blue less green, red less green, alpha.
pub open spec fn filtered_byte(bgra: Seq<u8>, plane: int, i: int) -> int {
    if plane == 0 {
        difference(bgra, 1, i)
    } else if plane == 1 {
        (difference(bgra, 0, i) - difference(bgra, 1, i)) % 256
    } else if plane == 2 {
        (difference(bgra, 2, i) - difference(bgra, 1, i)) % 256
    } else {
        difference(bgra, 3, i)
    }
}

/// The filtered form of an image.
pub open spec fn filtered(bgra: Seq<u8>) -> Seq<u8> {
    let n = bgra.len() as int / 4;
    Seq::new((4 * n) as nat, |k: int| filtered_byte(bgra, k / n, k % n) as u8)
}

/// What channel `c` of pixel `i` adds to the same channel of the pixel before.
pub open spec fn increment(planes: Seq<u8>, c: int, i: int) -> int {
    let y = plane_byte(planes, 0, i) as int;
    if c == 0 {
        y + plane_byte(planes, 1, i)
    } else if c == 1 {
        y
    } else if c == 2 {
        y + plane_byte(planes, 2, i)
    } else {
        plane_byte(planes, 3, i) as int
    }
}

/// Channel `c` of pixel `i` of the image whose filtered form is `planes`.
pub open spec fn unfiltered_byte(planes: Seq<u8>, c: int, i: int) -> int
    decreases i,
{
    if i <= 0 {
        increment(planes, c, 0) % 256
    } else {
        (unfiltered_byte(planes, c, i - 1) + increment(planes, c, i)) % 256
    }
}

/// The image whose filtered form is `planes`.
pub open spec fn unfiltered(planes: Seq<u8>) -> Seq<u8> {
    Seq::new(pixel_count(planes) * 4, |k: int| unfiltered_byte(planes, k % 4, k / 4) as u8)
}

/// Byte `k` of `out` after unfiltering into it: bytes of whole pixels that are in both images come
/// from the filtered form, all others stay.
pub open spec fn overwritten_byte(planes: Seq<u8>, out: Seq<u8>, k: int) -> u8 {
    if k / 4 < pixel_count(planes) && k / 4 < out.len() / 4 {
        unfiltered_byte(planes, k % 4, k / 4) as u8
    } else {
        out[k]
    }
}

/// A sum of three that wraps around.
fn plus_both(p: u8, a: u8, b: u8) -> (r: u8)
    ensures
        r == (p + (a + b)) % 256,
{
    ((p as u16 + a as u16 + b as u16) % 256) as u8
}

/// Undoes the filter, writing over the pixels of `out`.
pub fn unfilter(filtered: &Vec4u8s, out: &mut Vec<u8>)
    ensures
        final(out)@.len() == old(out)@.len(),
        forall|k: int|
            0 <= k < old(out)@.len() ==> (#[trigger] final(out)@[k]) == overwritten_byte(
                filtered@,
                old(out)@,
                k,
            ),
{
    let n: usize = filtered.len();
    let room: usize = out.len() / 4;
    let count: usize = if n < room {
        n
    } else {
        room
    };
    let total: usize = filtered.bytes.len();
    let ghost planes = filtered@;
    let ghost before = out@;
    let mut b: u8 = 0;
    let mut g: u8 = 0;
    let mut r: u8 = 0;
    let mut a: u8 = 0;
    let mut i: usize = 0;
    while i < count
        invariant
            i <= count,
            n == pixel_count(planes),
            planes == filtered@,
            total == planes.len(),
            count <= n,
            count <= before.len() / 4,
            n <= before.len() / 4 || count == before.len() / 4,
            out@.len() == before.len(),
            i == 0 ==> b == 0 && g == 0 && r == 0 && a == 0,
            i > 0 ==> {
                &&& b == unfiltered_byte(planes, 0, i - 1)
                &&& g == unfiltered_byte(planes, 1, i - 1)
                &&& r == unfiltered_byte(planes, 2, i - 1)
                &&& a == unfiltered_byte(planes, 3, i - 1)
            },
            forall|k: int|
                0 <= k < 4 * i ==> (#[trigger] out@[k]) == unfiltered_byte(
                    planes,
                    k % 4,
                    k / 4,
                ) as u8,
            forall|k: int| 4 * i <= k < before.len() ==> (#[trigger] out@[k]) == before[k],
        decreases count - i,
    {
        let y: u8 = filtered.bytes[i];
        let u: u8 = filtered.bytes[n + i];
        let v: u8 = filtered.bytes[2 * n + i];
        let w: u8 = filtered.bytes[3 * n + i];
        b = plus_both(b, y, u);
        g = plus_both(g, y, 0);
        r = plus_both(r, y, v);
        a = plus_both(a, w, 0);
        out.set(4 * i, b);
        out.set(4 * i + 1, g);
        out.set(4 * i + 2, r);
        out.set(4 * i + 3, a);
        i = i + 1;
    }
}

/// `len` bytes into which an image has been unfiltered: zeros where it does not reach.
pub open spec fn unfiltered_buffer(planes: Seq<u8>, len: nat) -> Seq<u8> {
    Seq::new(
        len,
        |k: int|
            if k / 4 < pixel_count(planes) && k / 4 < len / 4 {
                unfiltered_byte(planes, k % 4, k / 4) as u8
            } else {
                0
            },
    )
}

/// Undoes the filter into a new buffer.
pub fn unfilter_to_buffer(filtered: &Vec4u8s, len: usize) -> (r: Vec<u8>)
    ensures
        r@ == unfiltered_buffer(filtered@, len as nat),
{
    let mut out: Vec<u8> = vec![0u8;len];
    unfilter(filtered, &mut out);
    assert(out@ =~= unfiltered_buffer(filtered@, len as nat));
    out
}

/// A difference that wraps around.
fn less(a: u8, b: u8) -> (r: u8)
    ensures
        r == (a - b) % 256,
{
    a.wrapping_sub(b)
}

/// The filtered form of an image; bytes past its last whole pixel are dropped.
pub fn filter(bgra: &[u8]) -> (r: Vec4u8s)
    ensures
        r@ == filtered(bgra@),
{
    let n: usize = bgra.len() / 4;
    let mut bytes: Vec<u8> = Vec::with_capacity(4 * n);
    let mut plane: usize = 0;
    while plane < 4
        invariant
            n == bgra@.len() / 4,
            plane <= 4,
            bytes@.len() == plane * n,
            4 * n <= usize::MAX,
            forall|k: int|
                0 <= k < bytes@.len() ==> (#[trigger] bytes@[k]) == filtered_byte(
                    bgra@,
                    k / n as int,
                    k % n as int,
                ) as u8,
        decreases 4 - plane,
    {
        let mut i: usize = 0;
        let mut previous: (u8, u8, u8, u8) = (0, 0, 0, 0);
        while i < n
            invariant
                n == bgra@.len() / 4,
                plane < 4,
                i <= n,
                4 * n <= usize::MAX,
                bytes@.len() == plane * n + i,
                i == 0 ==> previous == (0u8, 0u8, 0u8, 0u8),
                i > 0 ==> previous == (
                    bgra@[4 * (i - 1)],
                    bgra@[4 * (i - 1) + 1],
                    bgra@[4 * (i - 1) + 2],
                    bgra@[4 * (i - 1) + 3],
                ),
                forall|k: int|
                    0 <= k < bytes@.len() ==> (#[trigger] bytes@[k]) == filtered_byte(
                        bgra@,
                        k / n as int,
                        k % n as int,
                    ) as u8,
            decreases n - i,
        {
            let b: u8 = less(bgra[4 * i], previous.0);
            let g: u8 = less(bgra[4 * i + 1], previous.1);
            let r: u8 = less(bgra[4 * i + 2], previous.2);
            let a: u8 = less(bgra[4 * i + 3], previous.3);
            let byte: u8 = if plane == 0 {
                g
            } else if plane == 1 {
                less(b, g)
            } else if plane == 2 {
                less(r, g)
            } else {
                a
            };
            proof {
                crate::protocols::image::pixels::lemma_row_position(
                    plane as int,
                    i as int,
                    n as int,
                );
                assert(byte == filtered_byte(bgra@, plane as int, i as int));
            }
            bytes.push(byte);
            previous = (bgra[4 * i], bgra[4 * i + 1], bgra[4 * i + 2], bgra[4 * i + 3]);
            i = i + 1;
        }
        plane = plane + 1;
        assert(plane * n == (plane - 1) * n + n) by (nonlinear_arith);
    }
    assert(bytes@ =~= filtered(bgra@));
    Vec4u8s::from_bytes(bytes)
}

proof fn lemma_plane_of_filtered(bgra: Seq<u8>, plane: int, i: int)
    requires
        0 <= plane < 4,
        0 <= i < bgra.len() as int / 4,
    ensures
        plane_byte(filtered(bgra), plane, i) == filtered_byte(bgra, plane, i),
{
    let n = bgra.len() as int / 4;
    crate::protocols::image::pixels::lemma_row_position(plane, i, n);
    assert(0 <= plane * n + i < 4 * n) by (nonlinear_arith)
        requires
            0 <= plane < 4,
            0 <= i < n,
    ;
}

proof fn lemma_difference_undone(x: int, p: int, d: int)
    requires
        0 <= x < 256,
        0 <= p < 256,
        0 <= d < 256,
    ensures
        (p + (x - p) % 256) % 256 == x,
        (p + (d + ((x - p) % 256 - d) % 256)) % 256 == x,
{
    let e = (x - p) % 256;
    assert(e == (if x >= p {
        x - p
    } else {
        x - p + 256
    }));
    let f = (e - d) % 256;
    assert(f == (if e >= d {
        e - d
    } else {
        e - d + 256
    }));
    let sum = p + (d + f);
    assert(sum == x || sum == x + 256 || sum == x + 512);
    assert(sum % 256 == x);
    assert(p + e == x || p + e == x + 256);
}

proof fn lemma_unfiltered_byte(bgra: Seq<u8>, c: int, i: int)
    requires
        0 <= c < 4,
        0 <= i < bgra.len() as int / 4,
    ensures
        unfiltered_byte(filtered(bgra), c, i) == bgra[4 * i + c],
    decreases i,
{
    lemma_plane_of_filtered(bgra, 0, i);
    lemma_plane_of_filtered(bgra, 1, i);
    lemma_plane_of_filtered(bgra, 2, i);
    lemma_plane_of_filtered(bgra, 3, i);
    let p = if i == 0 {
        0
    } else {
        bgra[4 * (i - 1) + c] as int
    };
    lemma_difference_undone(bgra[4 * i + c] as int, p, difference(bgra, 1, i));
    if i > 0 {
        lemma_unfiltered_byte(bgra, c, i - 1);
    }
}

/// The filter loses nothing: undoing it gives the image back.
pub proof fn unfilter_undoes_filter(bgra: Seq<u8>)
    requires
        bgra.len() % 4 == 0,
    ensures
        unfiltered(filtered(bgra)) == bgra,
{
    assert forall|k: int| 0 <= k < bgra.len() implies unfiltered(filtered(bgra))[k] == bgra[k] by {
        lemma_unfiltered_byte(bgra, k % 4, k / 4);
    }
    assert(unfiltered(filtered(bgra)) =~= bgra);
}

/// Unfiltering into a buffer of the right length gives the whole image.
pub proof fn overwriting_everything(planes: Seq<u8>, out: Seq<u8>)
    requires
        out.len() == pixel_count(planes) * 4,
    ensures
        unfiltered(planes) == Seq::new(out.len(), |k: int| overwritten_byte(planes, out, k)),
{
    assert(unfiltered(planes) =~= Seq::new(
        out.len(),
        |k: int| overwritten_byte(planes, out, k),
    ));
}

/// The layout of a filtered image of `n` pixels: first `n` bytes of green, each less the one before;
/// then as many of blue and of red, less what green changed by; then those of alpha.
pub proof fn filtered_images_are_planes(bgra: Seq<u8>, i: int)
    requires
        0 <= i < bgra.len() as int / 4,
    ensures
        ({
            let n = bgra.len() as int / 4;
            let planes = filtered(bgra);
            let blue = bgra[4 * i] - (if i == 0 {
                0
            } else {
                bgra[4 * i - 4] as int
            });
            let green = bgra[4 * i + 1] - (if i == 0 {
                0
            } else {
                bgra[4 * i - 3] as int
            });
            let red = bgra[4 * i + 2] - (if i == 0 {
                0
            } else {
                bgra[4 * i - 2] as int
            });
            let alpha = bgra[4 * i + 3] - (if i == 0 {
                0
            } else {
                bgra[4 * i - 1] as int
            });
            &&& planes.len() == 4 * n
            &&& planes[i] == green % 256
            &&& planes[n + i] == (blue - green) % 256
            &&& planes[2 * n + i] == (red - green) % 256
            &&& planes[3 * n + i] == alpha % 256
        }),
{
    let n = bgra.len() as int / 4;
    lemma_plane_of_filtered(bgra, 0, i);
    lemma_plane_of_filtered(bgra, 1, i);
    lemma_plane_of_filtered(bgra, 2, i);
    lemma_plane_of_filtered(bgra, 3, i);
    let change = |c: int|
        bgra[4 * i + c] - (if i == 0 {
            0
        } else {
            bgra[4 * (i - 1) + c] as int
        });
    assert(4 * (i - 1) == 4 * i - 4);
    lemma_modulus(change(0), change(1));
    lemma_modulus(change(2), change(1));
}

proof fn lemma_modulus(a: int, b: int)
    ensures
        (a % 256 - b % 256) % 256 == (a - b) % 256,
{
}

/// The pixels of a filtered image: each adds to the one before what the planes say, green to green,
/// and what green adds to blue and red too.
pub proof fn unfiltered_pixels_add_up(planes: Seq<u8>, i: int)
    requires
        0 <= i < planes.len() as int / 4,
    ensures
        ({
            let n = planes.len() as int / 4;
            let bgra = unfiltered(planes);
            let before = |c: int|
                if i == 0 {
                    0
                } else {
                    bgra[4 * i - 4 + c] as int
                };
            let green = planes[i] as int;
            &&& bgra.len() == 4 * n
            &&& bgra[4 * i] == (before(0) + green + planes[n + i]) % 256
            &&& bgra[4 * i + 1] == (before(1) + green) % 256
            &&& bgra[4 * i + 2] == (before(2) + green + planes[2 * n + i]) % 256
            &&& bgra[4 * i + 3] == (before(3) + planes[3 * n + i]) % 256
        }),
{
    let n = planes.len() as int / 4;
    let bgra = unfiltered(planes);
    assert forall|c: int| 0 <= c < 4 implies bgra[4 * i + c] == unfiltered_byte(planes, c, i)
        && (i > 0 ==> bgra[4 * i - 4 + c] == unfiltered_byte(planes, c, i - 1)) by {
        assert((4 * i + c) / 4 == i && (4 * i + c) % 4 == c);
        lemma_byte_range(planes, c, i);
        if i > 0 {
            assert((4 * (i - 1) + c) / 4 == i - 1 && (4 * (i - 1) + c) % 4 == c);
            lemma_byte_range(planes, c, i - 1);
        }
    }
    assert(bgra[4 * i + 0] == unfiltered_byte(planes, 0, i));
    assert(bgra[4 * i + 1] == unfiltered_byte(planes, 1, i));
    assert(bgra[4 * i + 2] == unfiltered_byte(planes, 2, i));
    assert(bgra[4 * i + 3] == unfiltered_byte(planes, 3, i));
    if i > 0 {
        assert(bgra[4 * i - 4 + 0] == unfiltered_byte(planes, 0, i - 1));
        assert(bgra[4 * i - 4 + 1] == unfiltered_byte(planes, 1, i - 1));
        assert(bgra[4 * i - 4 + 2] == unfiltered_byte(planes, 2, i - 1));
        assert(bgra[4 * i - 4 + 3] == unfiltered_byte(planes, 3, i - 1));
    }
}

proof fn lemma_byte_range(planes: Seq<u8>, c: int, i: int)
    requires
        0 <= i,
    ensures
        0 <= unfiltered_byte(planes, c, i) < 256,
{
}

/// A buffer gets the pixels of an image as far as both reach, and zeros behind them.
pub proof fn buffers_get_the_image(planes: Seq<u8>, len: nat, k: int)
    requires
        0 <= k < len,
    ensures
        unfiltered_buffer(planes, len).len() == len,
        k / 4 < planes.len() / 4 && k / 4 < len / 4 ==> unfiltered_buffer(planes, len)[k]
            == unfiltered(planes)[k],
        k / 4 >= planes.len() / 4 || k / 4 >= len / 4 ==> unfiltered_buffer(planes, len)[k] == 0,
{
}

} // verus!
