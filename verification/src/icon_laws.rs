//! What the picture of the program shows, and what stands in its file.

use vstd::arithmetic::div_mod::lemma_fundamental_div_mod_converse;
use vstd::prelude::*;

use crate::icon::{self, Image};

verus! {

// -- The picture ------------------------------------------------------------------------

/// The dots of the letters R and s, by their columns and rows.
pub open spec fn drawn(column: nat, row: nat) -> bool {
    if row == 0 || row == 2 {
        column == 0 || column == 1 || column == 2 || column == 7 || column == 8 || column == 9
    } else if row == 1 {
        column == 0 || column == 3 || column == 6
    } else if row == 3 {
        column == 0 || column == 2 || column == 10
    } else if row == 4 {
        column == 0 || column == 3 || column == 7 || column == 8 || column == 9
    } else {
        false
    }
}

proof fn lemma_rows(k: u8)
    requires
        k < 5,
    ensures
        (0x1Cu8 >> k) & 1 == 1 <==> k == 4 || k == 3 || k == 2,
        (0x12u8 >> k) & 1 == 1 <==> k == 4 || k == 1,
        (0x14u8 >> k) & 1 == 1 <==> k == 4 || k == 2,
        (0x0Eu8 >> k) & 1 == 1 <==> k == 3 || k == 2 || k == 1,
        (0x10u8 >> k) & 1 == 1 <==> k == 4,
        (0x01u8 >> k) & 1 == 1 <==> k == 0,
        (0x00u8 >> k) & 1 != 1,
{
    assert((0x1Cu8 >> k) & 1 == 1 <==> k == 4 || k == 3 || k == 2) by (bit_vector)
        requires
            k < 5,
    ;
    assert((0x12u8 >> k) & 1 == 1 <==> k == 4 || k == 1) by (bit_vector)
        requires
            k < 5,
    ;
    assert((0x14u8 >> k) & 1 == 1 <==> k == 4 || k == 2) by (bit_vector)
        requires
            k < 5,
    ;
    assert((0x0Eu8 >> k) & 1 == 1 <==> k == 3 || k == 2 || k == 1) by (bit_vector)
        requires
            k < 5,
    ;
    assert((0x10u8 >> k) & 1 == 1 <==> k == 4) by (bit_vector)
        requires
            k < 5,
    ;
    assert((0x01u8 >> k) & 1 == 1 <==> k == 0) by (bit_vector)
        requires
            k < 5,
    ;
    assert((0x00u8 >> k) & 1 != 1) by (bit_vector)
        requires
            k < 5,
    ;
}

/// The letters are drawn as they look.
pub proof fn law_letters_are_drawn(column: nat, row: nat)
    ensures
        icon::has_dot(column, row) <==> drawn(column, row),
{
    if row < 7 && column < 5 {
        lemma_rows((4 - column) as u8);
        assert(icon::GLYPH_R@[0] == 0x1C && icon::GLYPH_R@[1] == 0x12 && icon::GLYPH_R@[2] == 0x1C);
        assert(icon::GLYPH_R@[3] == 0x14 && icon::GLYPH_R@[4] == 0x12 && icon::GLYPH_R@[5] == 0x00);
        assert(icon::GLYPH_R@[6] == 0x00);
    } else if row < 7 && 6 <= column < 11 {
        lemma_rows((10 - column) as u8);
        assert(icon::GLYPH_S@[0] == 0x0E && icon::GLYPH_S@[1] == 0x10 && icon::GLYPH_S@[2] == 0x0E);
        assert(icon::GLYPH_S@[3] == 0x01 && icon::GLYPH_S@[4] == 0x0E && icon::GLYPH_S@[5] == 0x00);
        assert(icon::GLYPH_S@[6] == 0x00);
    }
}

/// The letters stand in the middle: there is as much room to the left of them as to
/// the right, or one pixel less, and so above and below. Each dot is a square, a
/// sixteenth of the side of the picture long, or one pixel.
pub proof fn law_letters_stand_in_the_middle(
    size: nat,
    side: nat,
    left: nat,
    top: nat,
    column: nat,
    row: nat,
    u: nat,
    v: nat,
)
    requires
        size >= 11,
        side == (if size < 16 {
            1
        } else {
            size / 16
        }),
        2 * left <= size - 11 * side <= 2 * left + 1,
        2 * top <= size - 7 * side <= 2 * top + 1,
        u < side,
        v < side,
    ensures
        icon::is_lettered(
            size,
            (left + column * side + u) as nat,
            (top + row * side + v) as nat,
        ) <==> drawn(column, row),
        forall|x: nat, y: nat|
            x < left || y < top ==> !(#[trigger] icon::is_lettered(size, x, y)),
{
    let x = (left + column * side + u) as int;
    let y = (top + row * side + v) as int;
    assert(icon::middle(size, 11 * side) == left);
    assert(icon::middle(size, 7 * side) == top);
    lemma_fundamental_div_mod_converse(x - left, side as int, column as int, u as int);
    lemma_fundamental_div_mod_converse(y - top, side as int, row as int, v as int);
    assert(0 <= column * side && 0 <= row * side) by (nonlinear_arith)
        requires
            0 <= column,
            0 <= row,
            0 <= side,
    ;
    law_letters_are_drawn(column, row);
}

proof fn lemma_icon_bytes(size: nat, covered: Seq<Option<u8>>, count: nat, i: nat, channel: int)
    requires
        i < count,
        0 <= channel < 4,
    ensures
        icon::icon_bytes(size, covered, count).len() == 4 * count,
        icon::icon_bytes(size, covered, count)[4 * i + channel] == icon::pixel_bytes(
            icon::icon_pixel(size, i % size, i / size, covered[i as int]),
        )[channel],
    decreases count,
{
    let last = (count - 1) as nat;
    lemma_icon_len(size, covered, last);
    if i < last {
        lemma_icon_bytes(size, covered, last, i, channel);
    }
}

proof fn lemma_icon_len(size: nat, covered: Seq<Option<u8>>, count: nat)
    ensures
        icon::icon_bytes(size, covered, count).len() == 4 * count,
    decreases count,
{
    if count > 0 {
        lemma_icon_len(size, covered, (count - 1) as nat);
    }
}

/// Each pixel of the icon has red, green, blue and its cover: nothing outside the
/// rounded square; within it light grey where the letters are, dark blue elsewhere.
pub proof fn law_pixels_are_painted(
    size: nat,
    covered: Seq<Option<u8>>,
    x: nat,
    y: nat,
)
    requires
        x < size,
        y < size,
        covered.len() == size * size,
    ensures
        ({
            let bytes = icon::icon_bytes(size, covered, covered.len());
            let i = y * size + x;
            let at = 4 * (i as int);
            &&& i < covered.len()
            &&& bytes.len() == 4 * covered.len()
            &&& covered[i as int] is None ==> bytes[at] == 0 && bytes[at + 1] == 0 && bytes[at + 2]
                == 0 && bytes[at + 3] == 0
            &&& covered[i as int] is Some ==> bytes[at + 3] == covered[i as int]->0
            &&& covered[i as int] is Some && icon::is_lettered(size, x, y) ==> bytes[at] == 0xd0
                && bytes[at + 1] == 0xd8 && bytes[at + 2] == 0xe0
            &&& covered[i as int] is Some && !icon::is_lettered(size, x, y) ==> bytes[at] == 0x1a
                && bytes[at + 1] == 0x2e && bytes[at + 2] == 0x6c
        }),
{
    let i = y * size + x;
    assert(i < size * size) by (nonlinear_arith)
        requires
            i == y * size + x,
            x < size,
            y < size,
    ;
    lemma_fundamental_div_mod_converse(i as int, size as int, y as int, x as int);
    lemma_icon_bytes(size, covered, covered.len(), i, 0);
    lemma_icon_bytes(size, covered, covered.len(), i, 1);
    lemma_icon_bytes(size, covered, covered.len(), i, 2);
    lemma_icon_bytes(size, covered, covered.len(), i, 3);
}

// -- The file ---------------------------------------------------------------------------

/// A picture in the file begins with the length of its header, its width, twice its
/// height, one plane and 32 bits per pixel; the rest of the header is zero.
pub proof fn law_picture_headers(rgba: Seq<u8>, size: nat)
    requires
        2 * size < 0x1_0000_0000,
        size * size * 4 <= rgba.len(),
    ensures
        ({
            let d = icon::dib(rgba, size);
            &&& d.len() == 40 + rgba.len() + icon::mask_len(size)
            &&& icon::number_of(d.subrange(0, 4)) == 40
            &&& icon::number_of(d.subrange(4, 8)) == size
            &&& icon::number_of(d.subrange(8, 12)) == 2 * size
            &&& icon::number_of(d.subrange(12, 14)) == 1
            &&& icon::number_of(d.subrange(14, 16)) == 32
            &&& forall|i: int| 16 <= i < 40 ==> #[trigger] d[i] == 0
            &&& forall|i: int|
                40 + size * size * 4 <= i < d.len() ==> #[trigger] d[i] == 0
        }),
{
    let d = icon::dib(rgba, size);
    reveal_with_fuel(icon::room, 5);
    icon::law_numbers_are_read_back(40, 4);
    icon::law_numbers_are_read_back(size, 4);
    icon::law_numbers_are_read_back(2 * size, 4);
    icon::law_numbers_are_read_back(1, 2);
    icon::law_numbers_are_read_back(32, 2);
    assert(d.subrange(0, 4) =~= icon::little_endian(40, 4));
    assert(d.subrange(4, 8) =~= icon::little_endian(size, 4));
    assert(d.subrange(8, 12) =~= icon::little_endian(2 * size, 4));
    assert(d.subrange(12, 14) =~= icon::little_endian(1, 2));
    assert(d.subrange(14, 16) =~= icon::little_endian(32, 2));
}

/// A pixel stands in the file with blue first, then green, red and its cover, in
/// the row that is as far from the bottom as it was from the top.
pub proof fn law_pixels_stand_in_the_file(rgba: Seq<u8>, size: int, x: int, y: int)
    requires
        0 <= x < size,
        0 <= y < size,
        size * size * 4 <= rgba.len(),
    ensures
        ({
            let d = icon::dib(rgba, size as nat);
            let k = 40 + (size - 1 - y) * (size * 4) + x * 4;
            let i = y * (size * 4) + x * 4;
            &&& 40 <= k && k + 3 < d.len()
            &&& d[k] == rgba[i + 2]
            &&& d[k + 1] == rgba[i + 1]
            &&& d[k + 2] == rgba[i]
            &&& d[k + 3] == rgba[i + 3]
        }),
{
    icon::law_pixels_are_kept(rgba, size, x, y, 0);
    icon::law_pixels_are_kept(rgba, size, x, y, 1);
    icon::law_pixels_are_kept(rgba, size, x, y, 2);
    icon::law_pixels_are_kept(rgba, size, x, y, 3);
    assert(0 <= (size - 1 - y) * (size * 4)) by (nonlinear_arith)
        requires
            0 <= size - 1 - y,
            0 <= size,
    ;
}

/// The mask has one row per row of the picture, of as few whole groups of four bytes
/// as hold one bit per pixel.
pub proof fn law_masks_have_room(size: nat)
    ensures
        exists|bytes: nat|
            {
                &&& icon::mask_len(size) == #[trigger] (bytes * size)
                &&& bytes % 4 == 0
                &&& 8 * bytes >= size
                &&& 8 * bytes < size + 32
            },
{
    let bytes = (size + 31) / 32 * 4;
    assert(icon::mask_len(size) == bytes * size);
}

/// The file begins with its kind and the number of pictures. Each picture has an
/// entry, which tells its side (0 for 256 and more), one plane, 32 bits per pixel,
/// how long the picture is and where it stands; and there it stands.
pub proof fn law_pictures_stand_where_the_file_says(images: Seq<Image>, i: nat)
    requires
        icon::fits_in_file(images),
        i < images.len(),
    ensures
        ({
            let file = icon::ico(images);
            let e = file.subrange(6 + 16 * (i as int), 6 + 16 * (i as int) + 16);
            let size = images[i as int].size;
            let length = icon::number_of(e.subrange(8, 12)) as int;
            let at = icon::number_of(e.subrange(12, 16)) as int;
            &&& icon::number_of(file.subrange(0, 2)) == 0
            &&& icon::number_of(file.subrange(2, 4)) == 1
            &&& icon::number_of(file.subrange(4, 6)) == images.len()
            &&& e[0] == e[1]
            &&& e[0] as int == (if size < 256 {
                size as int
            } else {
                0
            })
            &&& e[2] == 0 && e[3] == 0
            &&& icon::number_of(e.subrange(4, 6)) == 1
            &&& icon::number_of(e.subrange(6, 8)) == 32
            &&& at + length <= file.len()
            &&& file.subrange(at, at + length) == icon::dib(images[i as int].rgba@, size as nat)
        }),
{
    let file = icon::ico(images);
    let e = icon::entry(images, i);
    let length = icon::image_dib(images[i as int]).len();
    reveal_with_fuel(icon::room, 5);
    icon::law_entries_point_at_pictures(images, i);
    icon::law_numbers_are_read_back(0, 2);
    icon::law_numbers_are_read_back(1, 2);
    icon::law_numbers_are_read_back(32, 2);
    icon::law_numbers_are_read_back(images.len(), 2);
    lemma_offsets(images, i, images.len());
    icon::law_numbers_are_read_back(length, 4);
    icon::law_numbers_are_read_back(icon::offset(images, i), 4);
    assert(file.subrange(0, 2) =~= icon::little_endian(0, 2));
    assert(file.subrange(2, 4) =~= icon::little_endian(1, 2));
    assert(file.subrange(4, 6) =~= icon::little_endian(images.len(), 2));
    assert(e.subrange(4, 6) =~= icon::little_endian(1, 2));
    assert(e.subrange(6, 8) =~= icon::little_endian(32, 2));
    assert(e.subrange(8, 12) =~= icon::little_endian(length, 4));
    assert(e.subrange(12, 16) =~= icon::little_endian(icon::offset(images, i), 4));
}

/// What comes before a picture and the picture itself are no longer than all
/// pictures together.
proof fn lemma_offsets(images: Seq<Image>, i: nat, count: nat)
    requires
        i < count,
    ensures
        icon::dibs(images, i).len() + icon::image_dib(images[i as int]).len() <= icon::dibs(
            images,
            count,
        ).len(),
    decreases count,
{
    if i + 1 < count {
        lemma_offsets(images, i, (count - 1) as nat);
    }
}

} // verus!
