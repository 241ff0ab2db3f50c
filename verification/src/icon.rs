//! The icon of the program, and the format of the file that holds it.

use vstd::arithmetic::div_mod::{
    lemma_fundamental_div_mod, lemma_fundamental_div_mod_converse, lemma_mod_bound,
};
use vstd::prelude::*;

verus! {

// -- The picture --------------------------------------------------------------------------

/// The letter R: seven rows of five dots, the leftmost dot in the highest bit.
pub const GLYPH_R: [u8; 7] = [0x1C, 0x12, 0x1C, 0x14, 0x12, 0x00, 0x00];

/// The letter s.
pub const GLYPH_S: [u8; 7] = [0x0E, 0x10, 0x0E, 0x01, 0x0E, 0x00, 0x00];

/// Red, green, blue and how much of the pixel is covered.
#[derive(Debug, Clone, Copy, PartialEq, Eq, Structural)]
pub struct Pixel {
    pub red: u8,
    pub green: u8,
    pub blue: u8,
    pub alpha: u8,
}

/// The side of a dot of the letters, in pixels.
pub open spec fn dot_side(size: nat) -> nat {
    if size < 16 {
        1
    } else {
        size / 16
    }
}

/// Where something of this length begins when it stands in the middle.
pub open spec fn middle(size: nat, length: nat) -> nat {
    if size < length {
        0
    } else {
        ((size - length) / 2) as nat
    }
}

/// The two letters, side by side with a column between them, have a dot here.
pub open spec fn has_dot(column: nat, row: nat) -> bool {
    if row >= 7 {
        false
    } else if column < 5 {
        (GLYPH_R@[row as int] >> ((4 - column) as u8)) & 1 == 1
    } else if 6 <= column < 11 {
        (GLYPH_S@[row as int] >> ((10 - column) as u8)) & 1 == 1
    } else {
        false
    }
}

/// A pixel belongs to the letters, which stand in the middle of the picture.
pub open spec fn is_lettered(size: nat, x: nat, y: nat) -> bool {
    let side = dot_side(size);
    let left = middle(size, 11 * side);
    let top = middle(size, 7 * side);
    &&& x >= left
    &&& y >= top
    &&& has_dot(((x - left) / side as int) as nat, ((y - top) / side as int) as nat)
}

/// A pixel of the icon: nothing outside the rounded square, light letters on
/// dark blue within.
pub open spec fn icon_pixel(size: nat, x: nat, y: nat, covered: Option<u8>) -> Pixel {
    match covered {
        None => Pixel { red: 0, green: 0, blue: 0, alpha: 0 },
        Some(alpha) => if is_lettered(size, x, y) {
            Pixel { red: 0xd0, green: 0xd8, blue: 0xe0, alpha }
        } else {
            Pixel { red: 0x1a, green: 0x2e, blue: 0x6c, alpha }
        },
    }
}

/// The bytes of a pixel.
pub open spec fn pixel_bytes(p: Pixel) -> Seq<u8> {
    seq![p.red, p.green, p.blue, p.alpha]
}

/// The bytes of the first pixels of the icon, row by row from the top.
pub open spec fn icon_bytes(size: nat, covered: Seq<Option<u8>>, count: nat) -> Seq<u8>
    decreases count,
{
    if count == 0 {
        Seq::empty()
    } else {
        let i = (count - 1) as nat;
        icon_bytes(size, covered, i) + pixel_bytes(
            icon_pixel(size, i % size, i / size, covered[i as int]),
        )
    }
}

fn middle_of(size: usize, length: usize) -> (r: usize)
    ensures
        r == middle(size as nat, length as nat),
{
    if size < length {
        0
    } else {
        (size - length) / 2
    }
}

fn dot_at(column: usize, row: usize) -> (r: bool)
    ensures
        r == has_dot(column as nat, row as nat),
{
    if row >= 7 {
        false
    } else if column < 5 {
        (GLYPH_R[row] >> ((4 - column) as u8)) & 1 == 1
    } else if 6 <= column && column < 11 {
        (GLYPH_S[row] >> ((10 - column) as u8)) & 1 == 1
    } else {
        false
    }
}

fn lettered(size: usize, x: usize, y: usize) -> (r: bool)
    requires
        size <= 0x1_0000_0000,
    ensures
        r == is_lettered(size as nat, x as nat, y as nat),
{
    let side: usize = if size < 16 {
        1
    } else {
        size / 16
    };
    let left: usize = middle_of(size, 11 * side);
    let top: usize = middle_of(size, 7 * side);
    if x < left || y < top {
        return false;
    }
    dot_at((x - left) / side, (y - top) / side)
}

/// Paints the icon, given how much of each pixel the rounded square covers.
pub fn make_icon_rgba(size: usize, covered: &Vec<Option<u8>>) -> (r: Vec<u8>)
    requires
        covered@.len() == size * size,
        size * size * 4 <= usize::MAX,
    ensures
        r@ == icon_bytes(size as nat, covered@, covered@.len()),
{
    assert(size <= 0x1_0000_0000) by (nonlinear_arith)
        requires
            size * size * 4 <= usize::MAX,
    ;
    let mut out: Vec<u8> = Vec::new();
    let mut i: usize = 0;
    while i < covered.len()
        invariant
            i <= covered@.len(),
            covered@.len() == size * size,
            size <= 0x1_0000_0000,
            out@ == icon_bytes(size as nat, covered@, i as nat),
        decreases covered.len() - i,
    {
        assert(size > 0) by (nonlinear_arith)
            requires
                0 <= i < size * size,
        ;
        match covered[i] {
            None => {
                out.push(0);
                out.push(0);
                out.push(0);
                out.push(0);
            },
            Some(alpha) => {
                if lettered(size, i % size, i / size) {
                    out.push(0xd0);
                    out.push(0xd8);
                    out.push(0xe0);
                } else {
                    out.push(0x1a);
                    out.push(0x2e);
                    out.push(0x6c);
                }
                out.push(alpha);
            },
        }
        assert(out@ =~= icon_bytes(size as nat, covered@, i as nat) + pixel_bytes(
            icon_pixel(size as nat, (i % size) as nat, (i / size) as nat, covered@[i as int]),
        ));
        i += 1;
    }
    out
}

// -- Numbers ------------------------------------------------------------------------------

/// The lowest bytes of a number, the lowest one first.
pub open spec fn little_endian(n: nat, width: nat) -> Seq<u8>
    decreases width,
{
    if width == 0 {
        Seq::empty()
    } else {
        seq![(n % 256) as u8] + little_endian(n / 256, (width - 1) as nat)
    }
}

proof fn lemma_little_endian_len(n: nat, width: nat)
    ensures
        little_endian(n, width).len() == width,
    decreases width,
{
    if width > 0 {
        lemma_little_endian_len(n / 256, (width - 1) as nat);
    }
}

fn push_little_endian(out: &mut Vec<u8>, n: usize, width: usize)
    ensures
        final(out)@ == old(out)@ + little_endian(n as nat, width as nat),
{
    let mut rest: usize = n;
    let mut left: usize = width;
    assert(out@ + little_endian(rest as nat, left as nat) =~= old(out)@ + little_endian(
        n as nat,
        width as nat,
    ));
    while left > 0
        invariant
            out@ + little_endian(rest as nat, left as nat) == old(out)@ + little_endian(
                n as nat,
                width as nat,
            ),
        decreases left,
    {
        let ghost before = out@;
        out.push((rest % 256) as u8);
        assert(out@ + little_endian((rest / 256) as nat, (left - 1) as nat) =~= before
            + little_endian(rest as nat, left as nat));
        rest = rest / 256;
        left -= 1;
    }
    assert(out@ + Seq::<u8>::empty() =~= out@);
}

/// The number that bytes stand for, the lowest one first.
pub open spec fn number_of(bytes: Seq<u8>) -> nat
    decreases bytes.len(),
{
    if bytes.len() == 0 {
        0
    } else {
        bytes[0] as nat + 256 * number_of(bytes.skip(1))
    }
}

/// How many numbers so many bytes can hold.
pub open spec fn room(width: nat) -> nat
    decreases width,
{
    if width == 0 {
        1
    } else {
        256 * room((width - 1) as nat)
    }
}

/// A number that the bytes can hold is read back from them.
pub proof fn law_numbers_are_read_back(n: nat, width: nat)
    requires
        n < room(width),
    ensures
        number_of(little_endian(n, width)) == n,
        little_endian(n, width).len() == width,
    decreases width,
{
    if width > 0 {
        law_numbers_are_read_back(n / 256, (width - 1) as nat);
        assert(little_endian(n, width).skip(1) =~= little_endian(n / 256, (width - 1) as nat));
    }
}

/// Bytes that are all zero.
pub open spec fn zeros(count: nat) -> Seq<u8> {
    Seq::new(count, |i: int| 0u8)
}

fn push_zeros(out: &mut Vec<u8>, count: usize)
    ensures
        final(out)@ == old(out)@ + zeros(count as nat),
{
    let mut i: usize = 0;
    assert(out@ =~= old(out)@ + zeros(0));
    while i < count
        invariant
            i <= count,
            out@ == old(out)@ + zeros(i as nat),
        decreases count - i,
    {
        out.push(0);
        i += 1;
        assert(out@ =~= old(out)@ + zeros(i as nat));
    }
}

// -- One picture of the file ------------------------------------------------------------------

/// The bytes before the pixels of a picture.
pub const DIB_HEADER: usize = 40;

/// The header of a picture: its own size, width, twice the height (the mask
/// counts too), one plane, 32 bits per pixel, nothing else.
pub open spec fn dib_header(size: nat) -> Seq<u8> {
    little_endian(40, 4) + little_endian(size, 4) + little_endian(2 * size, 4) + little_endian(1, 2)
        + little_endian(32, 2) + zeros(24)
}

/// Where a colour stands in a pixel of the file: blue comes first there.
pub open spec fn swapped(channel: int) -> int {
    if channel == 0 {
        2
    } else if channel == 2 {
        0
    } else {
        channel
    }
}

/// Where a byte of the file comes from in the picture: the rows of the file
/// begin at the bottom.
pub open spec fn source_index(size: int, k: int) -> int {
    let stride = size * 4;
    (size - 1 - k / stride) * stride + (k % stride - k % 4) + swapped(k % 4)
}

/// The pixels in the order of the file.
pub open spec fn dib_pixels(rgba: Seq<u8>, size: nat) -> Seq<u8> {
    Seq::new(
        rgba.len(),
        |k: int|
            if k < size * size * 4 {
                rgba[source_index(size as int, k)]
            } else {
                0u8
            },
    )
}

/// The bytes of the mask: one bit per pixel, each row filled up to four bytes.
pub open spec fn mask_len(size: nat) -> nat {
    (size + 31) / 32 * 4 * size
}

/// A picture as it stands in the file. All its pixels show: the mask is empty.
pub open spec fn dib(rgba: Seq<u8>, size: nat) -> Seq<u8> {
    dib_header(size) + dib_pixels(rgba, size) + zeros(mask_len(size))
}

proof fn lemma_source(size: int, k: int)
    requires
        size >= 0,
        0 <= k < size * size * 4,
    ensures
        size > 0,
        0 <= k / (size * 4) < size,
        0 <= source_index(size, k) < size * size * 4,
        0 <= k % (size * 4) - k % 4,
{
    let stride = size * 4;
    assert(size > 0) by (nonlinear_arith)
        requires
            size >= 0,
            size * size * 4 > 0,
    ;
    let q = k / stride;
    let m = k % stride;
    lemma_fundamental_div_mod(k, stride);
    lemma_mod_bound(k, stride);
    assert(0 <= q < size) by (nonlinear_arith)
        requires
            k == stride * q + m,
            0 <= m < stride,
            0 <= k < size * size * 4,
            stride == size * 4,
            size > 0,
    ;
    // The place in a pixel is the same from the start of the row.
    assert(k % 4 == m % 4) by {
        lemma_fundamental_div_mod(m, 4);
        lemma_mod_bound(m, 4);
        assert(k == (size * q + m / 4) * 4 + m % 4) by (nonlinear_arith)
            requires
                k == (size * 4) * q + m,
                m == 4 * (m / 4) + m % 4,
        ;
        lemma_fundamental_div_mod_converse(k, 4, size * q + m / 4, m % 4);
    }
    assert(m - m % 4 + 3 < stride) by {
        lemma_fundamental_div_mod(m, 4);
        assert(m / 4 < size) by (nonlinear_arith)
            requires
                m == 4 * (m / 4) + m % 4,
                0 <= m % 4,
                m < size * 4,
        ;
    }
    assert(0 <= (size - 1 - q) * stride <= (size - 1) * stride) by (nonlinear_arith)
        requires
            0 <= q < size,
            stride > 0,
    ;
    assert((size - 1) * stride + stride == size * size * 4) by (nonlinear_arith)
        requires
            stride == size * 4,
    ;
}

/// Writes a picture as it stands in the file.
pub fn encode_dib(rgba: &Vec<u8>, size: usize) -> (r: Vec<u8>)
    requires
        size * size * 4 <= rgba@.len(),
    ensures
        r@ == dib(rgba@, size as nat),
{
    let total: usize = rgba.len();
    assert(2 * size <= usize::MAX && size * 4 <= usize::MAX && (size > 0 ==> size * 4
        <= size * size * 4)) by (nonlinear_arith)
        requires
            size * size * 4 <= usize::MAX,
            0 <= size <= usize::MAX,
    ;
    let mut out: Vec<u8> = Vec::new();
    push_little_endian(&mut out, 40, 4);
    push_little_endian(&mut out, size, 4);
    push_little_endian(&mut out, 2 * size, 4);
    push_little_endian(&mut out, 1, 2);
    push_little_endian(&mut out, 32, 2);
    push_zeros(&mut out, 24);
    assert(out@ =~= dib_header(size as nat));

    let stride: usize = size * 4;
    let filled: usize = if size == 0 {
        0
    } else {
        assert(size * stride == size * size * 4) by (nonlinear_arith)
            requires
                stride == size * 4,
        ;
        size * stride
    };
    let mut k: usize = 0;
    assert(out@ =~= dib_header(size as nat) + dib_pixels(rgba@, size as nat).take(0));
    while k < total
        invariant
            k <= total,
            total == rgba@.len(),
            stride == size * 4,
            filled == size * size * 4,
            filled <= rgba@.len(),
            out@ == dib_header(size as nat) + dib_pixels(rgba@, size as nat).take(k as int),
        decreases total - k,
    {
        if k < filled {
            proof {
                lemma_source(size as int, k as int);
            }
            let row: usize = k / stride;
            let channel: usize = k % 4;
            let from: usize = if channel == 0 {
                2
            } else if channel == 2 {
                0
            } else {
                channel
            };
            assert(0 <= (size - 1 - row) * stride <= usize::MAX) by {
                assert((size - 1 - row) * stride <= size * stride && 0 <= (size - 1 - row) * stride)
                    by (nonlinear_arith)
                    requires
                        0 <= row < size,
                        0 <= stride,
                ;
                assert(size * stride == size * size * 4) by (nonlinear_arith)
                    requires
                        stride == size * 4,
                ;
            }
            out.push(rgba[(size - 1 - row) * stride + (k % stride - channel) + from]);
        } else {
            out.push(0);
        }
        k += 1;
        assert(out@ =~= dib_header(size as nat) + dib_pixels(rgba@, size as nat).take(k as int));
    }
    assert(dib_pixels(rgba@, size as nat).take(k as int) =~= dib_pixels(rgba@, size as nat));

    let words: usize = size / 32 + if size % 32 == 0 {
        0
    } else {
        1
    };
    assert(words == (size + 31) / 32);
    assert(words * 4 * size <= size * size * 4) by (nonlinear_arith)
        requires
            0 <= words <= size,
            0 <= size,
    ;
    assert(words * 4 <= usize::MAX);
    push_zeros(&mut out, words * 4 * size);
    out
}

// -- The file -----------------------------------------------------------------------------------

/// A picture and the length of its side.
#[derive(Debug)]
pub struct Image {
    pub size: usize,
    pub rgba: Vec<u8>,
}

/// A picture in the file.
pub open spec fn image_dib(image: Image) -> Seq<u8> {
    dib(image.rgba@, image.size as nat)
}

/// The first pictures of the file, one after the other.
pub open spec fn dibs(images: Seq<Image>, count: nat) -> Seq<u8>
    decreases count,
{
    if count == 0 {
        Seq::empty()
    } else {
        dibs(images, (count - 1) as nat) + image_dib(images[count - 1])
    }
}

/// Where a picture begins in the file.
pub open spec fn offset(images: Seq<Image>, i: nat) -> nat {
    6 + 16 * images.len() + dibs(images, i).len()
}

/// The side of a picture in its entry: 256 and more is written as 0.
pub open spec fn side_byte(size: nat) -> u8 {
    if size >= 256 {
        0
    } else {
        size as u8
    }
}

/// The entry of a picture: width, height, no palette, one plane, 32 bits per
/// pixel, how long the picture is and where it begins.
pub open spec fn entry(images: Seq<Image>, i: nat) -> Seq<u8> {
    let side = side_byte(images[i as int].size as nat);
    seq![side, side, 0u8, 0u8] + little_endian(1, 2) + little_endian(32, 2) + little_endian(
        image_dib(images[i as int]).len(),
        4,
    ) + little_endian(offset(images, i), 4)
}

/// The entries of the first pictures.
pub open spec fn entries(images: Seq<Image>, count: nat) -> Seq<u8>
    decreases count,
{
    if count == 0 {
        Seq::empty()
    } else {
        entries(images, (count - 1) as nat) + entry(images, (count - 1) as nat)
    }
}

/// The whole file: how many pictures there are, their entries, the pictures.
pub open spec fn ico(images: Seq<Image>) -> Seq<u8> {
    little_endian(0, 2) + little_endian(1, 2) + little_endian(images.len(), 2) + entries(
        images,
        images.len(),
    ) + dibs(images, images.len())
}

/// Every picture has all its pixels, and the file is not longer than its
/// numbers can tell.
pub open spec fn fits_in_file(images: Seq<Image>) -> bool {
    &&& images.len() <= 0xFFFF
    &&& forall|i: int|
        0 <= i < images.len() ==> (#[trigger] images[i]).size * images[i].size * 4
            <= images[i].rgba@.len()
    &&& offset(images, images.len()) <= u32::MAX
}

proof fn lemma_dibs_grow(images: Seq<Image>, i: nat, j: nat)
    requires
        i <= j,
    ensures
        dibs(images, i).is_prefix_of(dibs(images, j)),
        dibs(images, i).len() <= dibs(images, j).len(),
    decreases j,
{
    if i < j {
        lemma_dibs_grow(images, i, (j - 1) as nat);
        assert(dibs(images, i) =~= dibs(images, j).take(dibs(images, i).len() as int));
    } else {
        assert(dibs(images, i) =~= dibs(images, j).take(dibs(images, i).len() as int));
    }
}

proof fn lemma_entry_len(images: Seq<Image>, i: nat)
    ensures
        entry(images, i).len() == 16,
{
    lemma_little_endian_len(1, 2);
    lemma_little_endian_len(32, 2);
    lemma_little_endian_len(image_dib(images[i as int]).len(), 4);
    lemma_little_endian_len(offset(images, i), 4);
}

proof fn lemma_entries_len(images: Seq<Image>, count: nat)
    ensures
        entries(images, count).len() == 16 * count,
    decreases count,
{
    if count > 0 {
        lemma_entries_len(images, (count - 1) as nat);
        lemma_entry_len(images, (count - 1) as nat);
    }
}

fn push_all(out: &mut Vec<u8>, bytes: &Vec<u8>)
    ensures
        final(out)@ == old(out)@ + bytes@,
{
    let mut i: usize = 0;
    assert(out@ =~= old(out)@ + bytes@.take(0));
    while i < bytes.len()
        invariant
            i <= bytes@.len(),
            out@ == old(out)@ + bytes@.take(i as int),
        decreases bytes.len() - i,
    {
        out.push(bytes[i]);
        i += 1;
        assert(out@ =~= old(out)@ + bytes@.take(i as int));
    }
    assert(bytes@.take(i as int) =~= bytes@);
}

/// Writes a file with pictures of several sizes.
pub fn ico_file(images: &Vec<Image>) -> (r: Vec<u8>)
    requires
        fits_in_file(images@),
    ensures
        r@ == ico(images@),
{
    let mut out: Vec<u8> = Vec::new();
    push_little_endian(&mut out, 0, 2);
    push_little_endian(&mut out, 1, 2);
    push_little_endian(&mut out, images.len(), 2);
    let ghost head = little_endian(0, 2) + little_endian(1, 2) + little_endian(images@.len(), 2);
    assert(out@ =~= head);

    let mut pictures: Vec<u8> = Vec::new();
    let mut i: usize = 0;
    assert(out@ =~= head + entries(images@, 0));
    while i < images.len()
        invariant
            i <= images@.len(),
            fits_in_file(images@),
            out@ == head + entries(images@, i as nat),
            pictures@ == dibs(images@, i as nat),
        decreases images.len() - i,
    {
        proof {
            lemma_dibs_grow(images@, (i + 1) as nat, images@.len());
            lemma_dibs_grow(images@, i as nat, (i + 1) as nat);
        }
        let size: usize = images[i].size;
        let picture: Vec<u8> = encode_dib(&images[i].rgba, size);
        let side: u8 = if size >= 256 {
            0
        } else {
            size as u8
        };
        let begin: usize = 6 + 16 * images.len() + pictures.len();
        let ghost before = out@;
        out.push(side);
        out.push(side);
        out.push(0);
        out.push(0);
        push_little_endian(&mut out, 1, 2);
        push_little_endian(&mut out, 32, 2);
        push_little_endian(&mut out, picture.len(), 4);
        push_little_endian(&mut out, begin, 4);
        assert(out@ =~= before + entry(images@, i as nat));
        push_all(&mut pictures, &picture);
        i += 1;
        assert(out@ =~= head + entries(images@, i as nat));
    }
    push_all(&mut out, &pictures);
    out
}

// -- Laws ---------------------------------------------------------------------------

/// Every picture stands in the file where its entry says, and is as long as its
/// entry says.
pub proof fn law_entries_point_at_pictures(images: Seq<Image>, i: nat)
    requires
        i < images.len(),
    ensures
        ({
            let length = image_dib(images[i as int]).len();
            &&& offset(images, i) + length <= ico(images).len()
            &&& ico(images).subrange(
                offset(images, i) as int,
                (offset(images, i) + length) as int,
            ) == image_dib(images[i as int])
            &&& ico(images).subrange(6 + 16 * (i as int), 6 + 16 * (i as int) + 16) == entry(
                images,
                i,
            )
        }),
{
    lemma_little_endian_len(0, 2);
    lemma_little_endian_len(1, 2);
    lemma_little_endian_len(images.len(), 2);
    lemma_entries_len(images, images.len());
    lemma_dibs_grow(images, (i + 1) as nat, images.len());
    let head = little_endian(0, 2) + little_endian(1, 2) + little_endian(images.len(), 2);
    let all = dibs(images, images.len());
    let some = dibs(images, (i + 1) as nat);
    let length = image_dib(images[i as int]).len();
    assert(all.take(some.len() as int) =~= some);
    let from = dibs(images, i).len();
    assert(ico(images).subrange(offset(images, i) as int, (offset(images, i) + length) as int)
        =~= all.subrange(from as int, (from + length) as int));
    assert(all.subrange(from as int, (from + length) as int) =~= some.subrange(
        from as int,
        (from + length) as int,
    ));
    assert(some.subrange(from as int, (from + length) as int) =~= image_dib(images[i as int]));
    lemma_entry_within(images, i, images.len());
    assert(ico(images).subrange(6 + 16 * (i as int), 6 + 16 * (i as int) + 16) =~= entries(
        images,
        images.len(),
    ).subrange(16 * (i as int), 16 * (i as int) + 16));
}

proof fn lemma_entry_within(images: Seq<Image>, i: nat, count: nat)
    requires
        i < count,
    ensures
        entries(images, count).subrange(16 * (i as int), 16 * (i as int) + 16) == entry(images, i),
    decreases count,
{
    lemma_entries_len(images, (count - 1) as nat);
    lemma_entries_len(images, count);
    lemma_entry_len(images, (count - 1) as nat);
    if i + 1 == count {
        assert(entries(images, count).subrange(16 * (i as int), 16 * (i as int) + 16) =~= entry(
            images,
            i,
        ));
    } else {
        lemma_entry_within(images, i, (count - 1) as nat);
        assert(entries(images, count).subrange(16 * (i as int), 16 * (i as int) + 16) =~= entries(
            images,
            (count - 1) as nat,
        ).subrange(16 * (i as int), 16 * (i as int) + 16));
    }
}

/// No pixel is lost: each colour of each pixel stands in the file, in the same
/// column of the row that is as far from the bottom as it was from the top.
pub proof fn law_pixels_are_kept(rgba: Seq<u8>, size: int, x: int, y: int, channel: int)
    requires
        0 <= x < size,
        0 <= y < size,
        0 <= channel < 4,
        size * size * 4 <= rgba.len(),
    ensures
        ({
            let k = (size - 1 - y) * (size * 4) + x * 4 + swapped(channel);
            &&& 0 <= DIB_HEADER + k < dib(rgba, size as nat).len()
            &&& dib(rgba, size as nat)[DIB_HEADER + k] == rgba[y * (size * 4) + x * 4 + channel]
        }),
{
    let stride = size * 4;
    let row = size - 1 - y;
    let k = row * stride + x * 4 + swapped(channel);
    let within = x * 4 + swapped(channel);
    assert(0 <= within < stride);
    assert(0 <= row * stride <= (size - 1) * stride && (size - 1) * stride + stride == size * size
        * 4) by (nonlinear_arith)
        requires
            0 <= row < size,
            stride == size * 4,
            size > 0,
    ;
    assert(k == stride * row + within) by (nonlinear_arith)
        requires
            k == row * stride + within,
    ;
    lemma_fundamental_div_mod_converse(k, stride, row, within);
    assert(k == (row * size + x) * 4 + swapped(channel)) by (nonlinear_arith)
        requires
            k == row * stride + x * 4 + swapped(channel),
            stride == size * 4,
    ;
    lemma_fundamental_div_mod_converse(k, 4, row * size + x, swapped(channel));
    assert(swapped(swapped(channel)) == channel);
    assert(source_index(size, k) == y * stride + x * 4 + channel);
    lemma_little_endian_len(40, 4);
    lemma_little_endian_len(size as nat, 4);
    lemma_little_endian_len((2 * size) as nat, 4);
    lemma_little_endian_len(1, 2);
    lemma_little_endian_len(32, 2);
    assert(dib_header(size as nat).len() == DIB_HEADER);
    assert(dib_pixels(rgba, size as nat)[k] == rgba[source_index(size, k)]);
}

} // verus!
