//! The icon of the editor as an `.ico` file.

use crate::text;
use crate::text::{concat5, format_usize};
use vstd::arithmetic::div_mod;
use vstd::prelude::*;

verus! {

/// The width and height of the icon.
pub const ICON_SIDE: usize = 64;

/// The low byte of a number.
pub open spec fn low_byte(x: int) -> u8 {
    (x % 256) as u8
}

/// The low two bytes of a number, the lowest first.
pub open spec fn two_bytes(x: int) -> Seq<u8> {
    seq![low_byte(x), low_byte(x / 256)]
}

/// The low four bytes of a number, the lowest first.
pub open spec fn four_bytes(x: int) -> Seq<u8> {
    seq![low_byte(x), low_byte(x / 256), low_byte(x / 65536), low_byte(x / 16777216)]
}

/// The bytes of the picture and the mask behind its header.
pub open spec fn bitmap_size(w: int, h: int) -> int {
    40 + w * h * 4 + w * h / 8
}

/// The header of a file with one icon.
pub open spec fn directory() -> Seq<u8> {
    seq![0u8, 0u8] + two_bytes(1) + two_bytes(1)
}

/// The entry of the icon: its size, its depth, and where it stands.
pub open spec fn entry(w: int, h: int) -> Seq<u8> {
    seq![low_byte(w), low_byte(h), 0u8, 0u8] + two_bytes(1) + two_bytes(32) + four_bytes(
        bitmap_size(w, h),
    ) + four_bytes(22)
}

/// The header of the picture; its height counts the mask too.
pub open spec fn picture_header(w: int, h: int) -> Seq<u8> {
    four_bytes(40) + four_bytes(w) + four_bytes(h * 2) + two_bytes(1) + two_bytes(32) + Seq::new(
        24,
        |i: int| 0u8,
    )
}

/// The three headers of the file.
pub open spec fn headers(w: int, h: int) -> Seq<u8> {
    directory() + entry(w, h) + picture_header(w, h)
}

/// Where pixel `p` of the file stands in the picture: rows run from the bottom
/// up.
pub open spec fn pixel_place(w: int, h: int, p: int) -> int {
    ((h - 1 - p / w) * w + p % w) * 4
}

/// The pixels of the file as blue, green, red and opacity.
pub open spec fn pixels(rgba: Seq<u8>, w: int, h: int, n: nat) -> Seq<u8>
    decreases n,
{
    if n == 0 {
        Seq::empty()
    } else {
        let i = pixel_place(w, h, n - 1);
        pixels(rgba, w, h, (n - 1) as nat) + seq![rgba[i + 2], rgba[i + 1], rgba[i], rgba[i + 3]]
    }
}

/// The file for a picture of red, green, blue and opacity.
pub open spec fn icon_bytes(rgba: Seq<u8>, w: int, h: int) -> Seq<u8> {
    headers(w, h) + pixels(rgba, w, h, (w * h) as nat) + Seq::new((w * h / 8) as nat, |i: int| 0u8)
}

proof fn lemma_pixel_place(w: int, h: int, p: int)
    requires
        0 < w,
        0 <= p < w * h,
    ensures
        0 <= p / w < h,
        0 <= p % w < w,
        0 <= (h - 1 - p / w) * w,
        (h - 1 - p / w) * w + p % w < w * h,
        0 <= pixel_place(w, h, p),
        pixel_place(w, h, p) + 4 <= w * h * 4,
{
    div_mod::lemma_fundamental_div_mod(p, w);
    let q = p / w;
    assert(0 <= p % w < w);
    assert(0 <= q) by (nonlinear_arith)
        requires
            w * q + p % w == p,
            0 <= p,
            0 <= p % w < w,
            0 < w,
            q == p / w,
    ;
    assert(q < h) by (nonlinear_arith)
        requires
            w * q + p % w == p,
            0 <= p % w,
            p < w * h,
            0 < w,
    ;
    let y = h - 1 - q;
    assert(0 <= y * w <= (h - 1) * w) by (nonlinear_arith)
        requires
            0 <= y <= h - 1,
            0 < w,
    ;
    assert((h - 1) * w == w * h - w) by (nonlinear_arith);
}

fn push_two(out: &mut Vec<u8>, x: u16)
    ensures
        final(out)@ == old(out)@ + two_bytes(x as int),
{
    out.push((x % 256) as u8);
    out.push((x / 256) as u8);
    assert(x / 256 < 256);
    assert(out@ =~= old(out)@ + two_bytes(x as int));
}

fn push_four(out: &mut Vec<u8>, x: usize)
    ensures
        final(out)@ == old(out)@ + four_bytes(x as int),
{
    out.push((x % 256) as u8);
    out.push((x / 256 % 256) as u8);
    out.push((x / 65536 % 256) as u8);
    out.push((x / 16777216 % 256) as u8);
    assert(out@ =~= old(out)@ + four_bytes(x as int));
}

fn push_zeros(out: &mut Vec<u8>, n: usize)
    ensures
        final(out)@ == old(out)@ + Seq::new(n as nat, |i: int| 0u8),
{
    let mut k: usize = 0;
    assert(out@ =~= old(out)@ + Seq::new(0, |i: int| 0u8));
    while k < n
        invariant
            k <= n,
            out@ == old(out)@ + Seq::new(k as nat, |i: int| 0u8),
        decreases n - k,
    {
        out.push(0);
        k = k + 1;
        assert(out@ =~= old(out)@ + Seq::new(k as nat, |i: int| 0u8));
    }
}

fn push_directory(out: &mut Vec<u8>)
    ensures
        final(out)@ == old(out)@ + directory(),
{
    out.push(0);
    out.push(0);
    push_two(out, 1);
    push_two(out, 1);
    assert(out@ =~= old(out)@ + directory());
}

fn push_entry(out: &mut Vec<u8>, w: usize, h: usize, size: usize)
    requires
        size == bitmap_size(w as int, h as int),
    ensures
        final(out)@ == old(out)@ + entry(w as int, h as int),
{
    out.push((w % 256) as u8);
    out.push((h % 256) as u8);
    out.push(0);
    out.push(0);
    push_two(out, 1);
    push_two(out, 32);
    push_four(out, size);
    push_four(out, 22);
    assert(out@ =~= old(out)@ + entry(w as int, h as int));
}

fn push_picture_header(out: &mut Vec<u8>, w: usize, h: usize)
    requires
        h * 2 <= usize::MAX,
    ensures
        final(out)@ == old(out)@ + picture_header(w as int, h as int),
{
    push_four(out, 40);
    push_four(out, w);
    push_four(out, h * 2);
    push_two(out, 1);
    push_two(out, 32);
    push_zeros(out, 24);
    assert(out@ =~= old(out)@ + picture_header(w as int, h as int));
}

fn push_pixels(out: &mut Vec<u8>, rgba: &[u8], w: usize, h: usize)
    requires
        w * h * 4 <= rgba@.len(),
    ensures
        final(out)@ == old(out)@ + pixels(rgba@, w as int, h as int, (w * h) as nat),
{
    let ghost before = out@;
    if w == 0 {
        assert(w * h == 0) by (nonlinear_arith)
            requires
                w == 0,
        ;
        assert(out@ =~= before + pixels(rgba@, w as int, h as int, 0));
        return;
    }
    let len: usize = rgba.len();
    assert(w * h <= w * h * 4) by (nonlinear_arith)
        requires
            0 <= w * h,
    ;
    let n: usize = w * h;
    let mut p: usize = 0;
    assert(out@ =~= before + pixels(rgba@, w as int, h as int, 0));
    while p < n
        invariant
            p <= n,
            0 < w,
            n == w * h,
            n * 4 <= len == rgba@.len(),
            out@ == before + pixels(rgba@, w as int, h as int, p as nat),
        decreases n - p,
    {
        proof {
            lemma_pixel_place(w as int, h as int, p as int);
        }
        let y: usize = h - 1 - p / w;
        assert(y * w + p % w < n);
        let i: usize = (y * w + p % w) * 4;
        assert(i == pixel_place(w as int, h as int, p as int));
        out.push(rgba[i + 2]);
        out.push(rgba[i + 1]);
        out.push(rgba[i]);
        out.push(rgba[i + 3]);
        p = p + 1;
        assert(out@ =~= before + pixels(rgba@, w as int, h as int, p as nat));
    }
}

/// The file for a picture of `w` by `h` pixels, given as red, green, blue and
/// opacity, row by row from the top.
pub fn write_ico(rgba: &[u8], w: usize, h: usize) -> (out: Vec<u8>)
    requires
        w * h * 4 <= rgba@.len(),
        h * 2 <= usize::MAX,
        bitmap_size(w as int, h as int) <= usize::MAX,
    ensures
        out@ == icon_bytes(rgba@, w as int, h as int),
{
    let mut out: Vec<u8> = Vec::new();
    proof {
        assert(0 <= w * h) by (nonlinear_arith);
        assert(w * h <= w * h * 4) by (nonlinear_arith)
            requires
                0 <= w * h,
        ;
    }
    let area: usize = w * h;
    let and_size: usize = area / 8;
    let size: usize = 40 + area * 4 + and_size;
    push_directory(&mut out);
    push_entry(&mut out, w, h, size);
    push_picture_header(&mut out, w, h);
    push_pixels(&mut out, rgba, w, h);
    push_zeros(&mut out, and_size);
    assert(out@ =~= icon_bytes(rgba@, w as int, h as int));
    out
}

/// The file of the editor's icon. Data of another size is refused, with the
/// reason.
pub fn editor_icon(rgba: &[u8]) -> (r: Result<Vec<u8>, String>)
    ensures
        match r {
            Ok(out) => rgba@.len() == 16384 && out@ == icon_bytes(rgba@, 64, 64),
            Err(reason) => rgba@.len() != 16384 && reason@ == "图标数据大小不匹配 ("@
                + text::nat_text(rgba@.len()) + " != "@ + text::nat_text(16384)
                + "), 跳过 exe 图标嵌入"@,
        },
{
    if rgba.len() != 16384 {
        let found: String = format_usize(rgba.len());
        let wanted: String = format_usize(16384);
        return Err(
            concat5(
                "图标数据大小不匹配 (",
                found.as_str(),
                " != ",
                wanted.as_str(),
                "), 跳过 exe 图标嵌入",
            ),
        );
    }
    Ok(write_ico(rgba, ICON_SIDE, ICON_SIDE))
}

proof fn lemma_pixel_count(rgba: Seq<u8>, w: int, h: int, n: nat)
    ensures
        pixels(rgba, w, h, n).len() == 4 * n,
    decreases n,
{
    if n > 0 {
        lemma_pixel_count(rgba, w, h, (n - 1) as nat);
    }
}

/// The file is as long as its headers say: the picture begins behind the first
/// two, and its size reaches to the end.
pub proof fn law_icon_length(rgba: Seq<u8>, w: int, h: int)
    requires
        0 <= w,
        0 <= h,
    ensures
        icon_bytes(rgba, w, h).len() == 22 + bitmap_size(w, h),
{
    assert(0 <= w * h) by (nonlinear_arith)
        requires
            0 <= w,
            0 <= h,
    ;
    lemma_pixel_count(rgba, w, h, (w * h) as nat);
}

/// A pixel of the picture comes back out of the file: that of column `x` and row
/// `y` is the one of the same column and of the row as far from the bottom, with
/// red and blue exchanged.
pub proof fn law_pixels_upside_down(rgba: Seq<u8>, w: int, h: int, x: int, y: int)
    requires
        0 <= x < w,
        0 <= y < h,
    ensures
        ({
            let at = 62 + ((h - 1 - y) * w + x) * 4;
            let i = (y * w + x) * 4;
            let out = icon_bytes(rgba, w, h);
            out[at] == rgba[i + 2] && out[at + 1] == rgba[i + 1] && out[at + 2] == rgba[i]
                && out[at + 3] == rgba[i + 3]
        }),
{
    let r = h - 1 - y;
    let p = r * w + x;
    assert(0 <= r * w && r * w + x < w * h) by (nonlinear_arith)
        requires
            0 <= r <= h - 1,
            0 <= x < w,
    ;
    assert(p == w * r + x) by (nonlinear_arith)
        requires
            p == r * w + x,
    ;
    div_mod::lemma_fundamental_div_mod_converse(p, w, r, x);
    assert(pixel_place(w, h, p) == (y * w + x) * 4);
    lemma_pixel_count(rgba, w, h, (w * h) as nat);
    lemma_pixel_at(rgba, w, h, (w * h) as nat, p);
}

proof fn lemma_pixel_at(rgba: Seq<u8>, w: int, h: int, n: nat, p: int)
    requires
        0 <= p < n,
    ensures
        ({
            let i = pixel_place(w, h, p);
            let s = pixels(rgba, w, h, n);
            s[4 * p] == rgba[i + 2] && s[4 * p + 1] == rgba[i + 1] && s[4 * p + 2] == rgba[i]
                && s[4 * p + 3] == rgba[i + 3]
        }),
    decreases n,
{
    lemma_pixel_count(rgba, w, h, (n - 1) as nat);
    if p < n - 1 {
        lemma_pixel_at(rgba, w, h, (n - 1) as nat, p);
    }
}

} // verus!
