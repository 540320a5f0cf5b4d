//! What goes to the screen: 0x00RRGGBB pixels packed for a 32- or 16-bit
//! framebuffer, the framebuffer's layout, and the row chunks of an X11 image.
use vstd::prelude::*;
use crate::text::{decimal, decimal_string, push_str};

verus! {

/// A 0x00RRGGBB pixel packed with each 8-bit channel at its offset.
pub open spec fn pack32_spec(src: u32, red_off: u32, green_off: u32, blue_off: u32) -> u32 {
    (((src >> 16u32) & 0xFFu32) << red_off) | (((src >> 8u32) & 0xFFu32) << green_off) | ((src
        & 0xFFu32) << blue_off)
}

/// A 0x00RRGGBB pixel reduced to 5-6-5 bits, each channel at its offset.
pub open spec fn pack16_spec(src: u32, red_off: u32, green_off: u32, blue_off: u32) -> u16 {
    ((((((src >> 16u32) & 0xFFu32) >> 3u32) & 0x1Fu32) << red_off) | (((((src >> 8u32)
        & 0xFFu32) >> 2u32) & 0x3Fu32) << green_off) | ((((src & 0xFFu32) >> 3u32) & 0x1Fu32)
        << blue_off)) as u16
}

pub fn pack_pixel_32(src: u32, red_off: u32, green_off: u32, blue_off: u32) -> (p: u32)
    requires
        red_off < 32,
        green_off < 32,
        blue_off < 32,
    ensures
        p == pack32_spec(src, red_off, green_off, blue_off),
{
    let r: u32 = (src >> 16u32) & 0xFFu32;
    let g: u32 = (src >> 8u32) & 0xFFu32;
    let b: u32 = src & 0xFFu32;
    (r << red_off) | (g << green_off) | (b << blue_off)
}

pub fn pack_pixel_16(src: u32, red_off: u32, green_off: u32, blue_off: u32) -> (p: u16)
    requires
        red_off < 32,
        green_off < 32,
        blue_off < 32,
    ensures
        p == pack16_spec(src, red_off, green_off, blue_off),
{
    let r: u32 = (src >> 16u32) & 0xFFu32;
    let g: u32 = (src >> 8u32) & 0xFFu32;
    let b: u32 = src & 0xFFu32;
    let r5 = (r >> 3u32) & 0x1Fu32;
    let g6 = (g >> 2u32) & 0x3Fu32;
    let b5 = (b >> 3u32) & 0x1Fu32;
    ((r5 << red_off) | (g6 << green_off) | (b5 << blue_off)) as u16
}

/// The first `width * height` pixels of `buf`, packed for a 32-bit framebuffer.
pub fn convert_frame_32(
    buf: &[u32],
    width: usize,
    height: usize,
    red_off: u32,
    green_off: u32,
    blue_off: u32,
) -> (out: Vec<u32>)
    requires
        width * height <= buf@.len(),
        red_off < 32,
        green_off < 32,
        blue_off < 32,
    ensures
        out@.len() == width * height,
        forall|i: int|
            0 <= i < out@.len() ==> #[trigger] out@[i] == pack32_spec(
                buf@[i],
                red_off,
                green_off,
                blue_off,
            ),
{
    let len: usize = buf.len();
    assert(width * height <= len);
    let n: usize = width * height;
    let mut out: Vec<u32> = Vec::new();
    let mut i: usize = 0;
    while i < n
        invariant
            n == width * height,
            n <= buf@.len(),
            i <= n,
            red_off < 32,
            green_off < 32,
            blue_off < 32,
            out@.len() == i,
            forall|k: int|
                0 <= k < i ==> #[trigger] out@[k] == pack32_spec(
                    buf@[k],
                    red_off,
                    green_off,
                    blue_off,
                ),
        decreases n - i,
    {
        out.push(pack_pixel_32(buf[i], red_off, green_off, blue_off));
        i = i + 1;
    }
    out
}

/// The first `width * height` pixels of `buf`, packed for a 16-bit framebuffer.
pub fn convert_frame_16(
    buf: &[u32],
    width: usize,
    height: usize,
    red_off: u32,
    green_off: u32,
    blue_off: u32,
) -> (out: Vec<u16>)
    requires
        width * height <= buf@.len(),
        red_off < 32,
        green_off < 32,
        blue_off < 32,
    ensures
        out@.len() == width * height,
        forall|i: int|
            0 <= i < out@.len() ==> #[trigger] out@[i] == pack16_spec(
                buf@[i],
                red_off,
                green_off,
                blue_off,
            ),
{
    let len: usize = buf.len();
    assert(width * height <= len);
    let n: usize = width * height;
    let mut out: Vec<u16> = Vec::new();
    let mut i: usize = 0;
    while i < n
        invariant
            n == width * height,
            n <= buf@.len(),
            i <= n,
            red_off < 32,
            green_off < 32,
            blue_off < 32,
            out@.len() == i,
            forall|k: int|
                0 <= k < i ==> #[trigger] out@[k] == pack16_spec(
                    buf@[k],
                    red_off,
                    green_off,
                    blue_off,
                ),
        decreases n - i,
    {
        out.push(pack_pixel_16(buf[i], red_off, green_off, blue_off));
        i = i + 1;
    }
    out
}

/// The layout of a framebuffer: pixels per row and bytes to map.
pub open spec fn frame_layout_spec(bpp: u32, xres_virtual: u32, yres_virtual: u32) -> Result<
    (nat, nat),
    Seq<char>,
> {
    if bpp != 16 && bpp != 32 {
        Err(
            "Unsupported framebuffer depth "@ + decimal(bpp as nat) + "bpp (need 16 or 32)"@,
        )
    } else {
        Ok((xres_virtual as nat, (yres_virtual * xres_virtual * (bpp / 8)) as nat))
    }
}

/// Checks the colour depth (16 or 32 bits per pixel) and sizes the mapping.
pub fn frame_layout(bpp: u32, xres_virtual: u32, yres_virtual: u32) -> (r: Result<
    (usize, usize),
    String,
>)
    requires
        yres_virtual * xres_virtual * 4 <= usize::MAX,
    ensures
        match (r, frame_layout_spec(bpp, xres_virtual, yres_virtual)) {
            (Ok(a), Ok(b)) => a.0 as nat == b.0 && a.1 as nat == b.1,
            (Err(m), Err(n)) => m@ == n,
            _ => false,
        },
{
    if bpp != 16 && bpp != 32 {
        let mut m = String::from_str("Unsupported framebuffer depth ");
        let n = decimal_string(bpp as usize);
        push_str(&mut m, n.as_str());
        push_str(&mut m, "bpp (need 16 or 32)");
        return Err(m);
    }
    let bytes_per_pixel: usize = (bpp / 8) as usize;
    let stride: usize = xres_virtual as usize;
    let rows: usize = yres_virtual as usize;
    assert(rows * stride * bytes_per_pixel <= rows * stride * 4) by (nonlinear_arith)
        requires
            bytes_per_pixel <= 4,
    ;
    assert(rows * stride <= usize::MAX) by (nonlinear_arith)
        requires
            rows * stride * 4 <= usize::MAX,
    ;
    let mmap_size: usize = rows * stride * bytes_per_pixel;
    Ok((stride, mmap_size))
}

/// Rows per `PutImage` request: as many whole rows of `width * 4` bytes as
/// fit in the request limit less a 64-byte header, at least one, at most all.
pub open spec fn rows_per_chunk(width: nat, height: nat, max_request_bytes: nat) -> nat {
    let max_data: nat = if max_request_bytes > 64 {
        (max_request_bytes - 64) as nat
    } else {
        0
    };
    let fit: nat = max_data / (width * 4);
    let at_least_one: nat = if fit > 1 {
        fit
    } else {
        1
    };
    if at_least_one < height {
        at_least_one
    } else {
        height
    }
}

/// The chunks `(first row, rows)` from row `y` on.
pub open spec fn chunks_from(y: nat, height: nat, rows: nat) -> Seq<(nat, nat)>
    decreases height - y,
{
    if y >= height || rows == 0 {
        Seq::empty()
    } else {
        let h: nat = if rows < height - y {
            rows
        } else {
            (height - y) as nat
        };
        seq![(y, h)] + chunks_from(y + h, height, rows)
    }
}

pub open spec fn chunk_views(v: Seq<(usize, usize)>) -> Seq<(nat, nat)> {
    v.map_values(|c: (usize, usize)| (c.0 as nat, c.1 as nat))
}

/// The chunks of rows that an image of `width` × `height` pixels is sent in,
/// where a request holds at most `max_request_bytes`.
pub fn put_image_chunks(width: usize, height: usize, max_request_bytes: usize) -> (r: Vec<
    (usize, usize),
>)
    requires
        width > 0,
        width * 4 <= usize::MAX,
    ensures
        chunk_views(r@) == chunks_from(
            0,
            height as nat,
            rows_per_chunk(width as nat, height as nat, max_request_bytes as nat),
        ),
{
    let bytes_per_row: usize = width * 4;
    let max_data: usize = max_request_bytes.saturating_sub(64);
    let fit: usize = max_data / bytes_per_row;
    let at_least_one: usize = if fit > 1 {
        fit
    } else {
        1
    };
    let rows: usize = if at_least_one < height {
        at_least_one
    } else {
        height
    };
    let ghost total = chunks_from(0, height as nat, rows as nat);
    let mut out: Vec<(usize, usize)> = Vec::new();
    let mut y: usize = 0;
    assert(chunk_views(out@) + chunks_from(0, height as nat, rows as nat) =~= total);
    while y < height
        invariant
            y <= height,
            rows <= height,
            height > 0 ==> rows > 0,
            total == chunks_from(0, height as nat, rows as nat),
            chunk_views(out@) + chunks_from(y as nat, height as nat, rows as nat) == total,
        decreases height - y,
    {
        let chunk_h: usize = if rows < height - y {
            rows
        } else {
            height - y
        };
        let ghost before = out@;
        out.push((y, chunk_h));
        proof {
            assert(chunks_from(y as nat, height as nat, rows as nat) == seq![
                (y as nat, chunk_h as nat),
            ] + chunks_from((y + chunk_h) as nat, height as nat, rows as nat));
            assert(chunk_views(out@) =~= chunk_views(before).push((y as nat, chunk_h as nat)));
            assert(chunk_views(out@) + chunks_from((y + chunk_h) as nat, height as nat, rows as nat)
                =~= chunk_views(before) + chunks_from(y as nat, height as nat, rows as nat));
        }
        y = y + chunk_h;
    }
    assert(chunks_from(y as nat, height as nat, rows as nat) =~= Seq::<(nat, nat)>::empty());
    assert(chunk_views(out@) =~= total);
    out
}


/// The chunks tile the rows from `y` to the bottom: each holds at least one
/// and at most `rows` rows, each starts where the one before ends, the first
/// starts at `y` and the last ends at `height`.
pub proof fn lemma_chunks_tile(y: nat, height: nat, rows: nat)
    requires
        rows > 0,
        y <= height,
    ensures
        ({
            let c = chunks_from(y, height, rows);
            &&& y < height ==> c.len() > 0 && c[0].0 == y
            &&& y == height ==> c.len() == 0
            &&& forall|i: int| 0 <= i < c.len() ==> 1 <= #[trigger] c[i].1 <= rows
            &&& forall|i: int| 0 <= i < c.len() - 1 ==> #[trigger] c[i].0 + c[i].1 == c[i + 1].0
            &&& c.len() > 0 ==> c.last().0 + c.last().1 == height
        }),
    decreases height - y,
{
    if y < height {
        let h: nat = if rows < height - y {
            rows
        } else {
            (height - y) as nat
        };
        lemma_chunks_tile(y + h, height, rows);
        let rest = chunks_from(y + h, height, rows);
        let c = chunks_from(y, height, rows);
        assert(c == seq![(y, h)] + rest);
        assert forall|i: int| 0 <= i < c.len() implies 1 <= #[trigger] c[i].1 <= rows by {
            if i > 0 {
                assert(c[i] == rest[i - 1]);
            }
        }
        assert forall|i: int| 0 <= i < c.len() - 1 implies #[trigger] c[i].0 + c[i].1 == c[i
            + 1].0 by {
            if i > 0 {
                assert(c[i] == rest[i - 1]);
                assert(c[i + 1] == rest[i]);
            } else {
                if rest.len() > 0 {
                    assert(c[1] == rest[0]);
                }
            }
        }
        if rest.len() > 0 {
            assert(c.last() == rest.last());
        }
    }
}

/// On an RGB565 framebuffer (red at bit 11, green at bit 5, blue at bit 0)
/// each field holds the top bits of its 8-bit channel: red and blue divided by
/// 8, green by 4. On a BGR565 one the red and blue fields trade places.
pub proof fn lemma_pack16_keeps_top_bits(src: u32)
    ensures
        pack16_spec(src, 11, 5, 0) == ((src >> 16u32) & 0xFFu32) / 8 * 2048 + ((src >> 8u32)
            & 0xFFu32) / 4 * 32 + (src & 0xFFu32) / 8,
        pack16_spec(src, 0, 5, 11) == (src & 0xFFu32) / 8 * 2048 + ((src >> 8u32) & 0xFFu32) / 4
            * 32 + ((src >> 16u32) & 0xFFu32) / 8,
{
    assert(pack16_spec(src, 11, 5, 0) == ((src >> 16u32) & 0xFFu32) / 8 * 2048 + ((src >> 8u32)
        & 0xFFu32) / 4 * 32 + (src & 0xFFu32) / 8) by (bit_vector);
    assert(pack16_spec(src, 0, 5, 11) == (src & 0xFFu32) / 8 * 2048 + ((src >> 8u32) & 0xFFu32)
        / 4 * 32 + ((src >> 16u32) & 0xFFu32) / 8) by (bit_vector);
}

/// On a framebuffer with red at bit 16, green at bit 8 and blue at bit 0, a
/// 0x00RRGGBB pixel is written as it is.
pub proof fn lemma_pack32_standard_layout(src: u32)
    ensures
        pack32_spec(src, 16, 8, 0) == src & 0x00FF_FFFFu32,
{
    assert(pack32_spec(src, 16, 8, 0) == src & 0x00FF_FFFFu32) by (bit_vector);
}

} // verus!
