//! Layout of the dataset CSV files: a header `p0 .. p12287, label`, then one
//! record per image holding its 64x64 RGB pixels, each scaled to [0, 1] and
//! written with five decimals, followed by the image's label.

use vstd::prelude::*;
use crate::decimal::{
    all_digits, decimal, digits_value, lemma_decimal_injective, lemma_decimal_reads_back,
    lemma_padded_decimal_reads_back, padded_decimal, pow10, push_decimal, push_padded_decimal,
};

verus! {

/// Number of pixel fields per record: 64 x 64 pixels of 3 channels.
pub const PIXEL_FIELDS: usize = 12288;

/// The integer nearest to `v * 100000 / 255`: a channel value scaled to
/// [0, 1] and counted in units of 1e-5.
pub open spec fn pixel_scaled(v: u8) -> nat {
    ((200000 * (v as nat) + 255) / 510) as nat
}

/// Fixed-point rendering with five decimals of `q / 100000`.
pub open spec fn fixed5(q: nat) -> Seq<char> {
    decimal(q / 100000) + seq!['.'] + padded_decimal(q % 100000, 5)
}

/// The CSV field of a channel value `v`: `v / 255` with five decimals.
pub open spec fn pixel_field_text(v: u8) -> Seq<char> {
    fixed5(pixel_scaled(v))
}

/// Name of the header field of pixel `i`.
pub open spec fn pixel_header_text(i: nat) -> Seq<char> {
    seq!['p'] + decimal(i)
}

/// Name of the last header field.
pub open spec fn label_header_text() -> Seq<char> {
    seq!['l', 'a', 'b', 'e', 'l']
}

/// The header record of a dataset CSV file.
pub open spec fn header_text() -> Seq<Seq<char>> {
    Seq::new(PIXEL_FIELDS as nat, |i: int| pixel_header_text(i as nat)).push(label_header_text())
}

/// The record of an image with channel values `pixels` and label field `label`.
pub open spec fn record_text(pixels: Seq<u8>, label: Seq<char>) -> Seq<Seq<char>> {
    pixels.map_values(|v: u8| pixel_field_text(v)).push(label)
}

/// The texts of a vector of strings.
pub open spec fn texts(v: Seq<String>) -> Seq<Seq<char>> {
    v.map_values(|s: String| s@)
}

/// `pixel_scaled(v)` is the integer nearest to `v * 100000 / 255` (never a
/// tie), and lies in [0, 100000]: the scaled value is within [0, 1].
pub proof fn lemma_pixel_scaled_nearest(v: u8)
    ensures
        2 * (255 * pixel_scaled(v) - 100000 * (v as int)) < 255,
        2 * (100000 * (v as int) - 255 * pixel_scaled(v)) < 255,
        pixel_scaled(v) <= 100000,
        v == 0 ==> pixel_scaled(v) == 0,
        v == 255 ==> pixel_scaled(v) == 100000,
{
}

/// The CSV field of a channel value: `v / 255` rounded to five decimals and
/// written as `{:.5}` formats it. Exact integer arithmetic gives the same
/// digits: `v * 100000 / 255` is never half-way between two integers.
pub fn pixel_field(v: u8) -> (field: String)
    ensures
        field@ == pixel_field_text(v),
{
    let q: usize = (200000 * (v as usize) + 255) / 510;
    let mut field = String::new();
    push_decimal(&mut field, q / 100000);
    field.append(".");
    proof {
        reveal_strlit(".");
    }
    push_padded_decimal(&mut field, q % 100000, 5);
    field
}

/// The header record: `p0`, `p1`, ..., `p12287`, then `label`.
pub fn csv_header() -> (header: Vec<String>)
    ensures
        texts(header@) == header_text(),
{
    let mut header: Vec<String> = Vec::new();
    let mut i: usize = 0;
    while i < PIXEL_FIELDS
        invariant
            i <= PIXEL_FIELDS,
            header@.len() == i,
            forall|j: int| 0 <= j < i ==> #[trigger] header@[j]@ == pixel_header_text(j as nat),
        decreases PIXEL_FIELDS - i,
    {
        let mut name = String::from_str("p");
        proof {
            reveal_strlit("p");
        }
        push_decimal(&mut name, i);
        header.push(name);
        i = i + 1;
    }
    let label = String::from_str("label");
    proof {
        reveal_strlit("label");
    }
    assert(label@ =~= label_header_text());
    header.push(label);
    assert forall|j: int| 0 <= j < header@.len() implies #[trigger] texts(header@)[j] == header_text()[j] by {
        if j < PIXEL_FIELDS {
            assert(header@[j]@ == pixel_header_text(j as nat));
        }
    }
    assert(texts(header@) =~= header_text());
    header
}

/// The record of an image: the field of each channel value in turn, then
/// the label field.
pub fn csv_record(pixels: &[u8], label: String) -> (record: Vec<String>)
    ensures
        texts(record@) == record_text(pixels@, label@),
{
    let mut record: Vec<String> = Vec::new();
    let mut i: usize = 0;
    while i < pixels.len()
        invariant
            i <= pixels@.len(),
            record@.len() == i,
            forall|j: int| 0 <= j < i ==> #[trigger] record@[j]@ == pixel_field_text(pixels@[j]),
        decreases pixels@.len() - i,
    {
        record.push(pixel_field(pixels[i]));
        i = i + 1;
    }
    record.push(label);
    assert(texts(record@) =~= record_text(pixels@, label@));
    record
}

/// A record of a 64x64 RGB image has exactly one field per header field,
/// and its last field is the label, under the header's `label` column.
pub proof fn lemma_record_fits_header(pixels: Seq<u8>, label: Seq<char>)
    requires
        pixels.len() == PIXEL_FIELDS,
    ensures
        record_text(pixels, label).len() == header_text().len(),
        record_text(pixels, label).last() == label,
        header_text().last() == label_header_text(),
{
}

/// The header names every column differently.
pub proof fn lemma_header_fields_distinct(i: int, j: int)
    requires
        0 <= i < header_text().len(),
        0 <= j < header_text().len(),
        i != j,
    ensures
        header_text()[i] != header_text()[j],
{
    if i < PIXEL_FIELDS && j < PIXEL_FIELDS {
        if header_text()[i] == header_text()[j] {
            assert(decimal(i as nat) =~= header_text()[i].drop_first());
            assert(decimal(j as nat) =~= header_text()[j].drop_first());
            lemma_decimal_injective(i as nat, j as nat);
        }
    } else if i < PIXEL_FIELDS {
        assert(header_text()[i][0] == 'p');
        assert(header_text()[j][0] == 'l');
    } else {
        assert(header_text()[j][0] == 'p');
        assert(header_text()[i][0] == 'l');
    }
}

/// A pixel field is seven characters `d.ddddd`: a digit, a point, five
/// digits; read as a number of hundred-thousandths it is `pixel_scaled(v)`,
/// the value nearest to `v * 100000 / 255`.
pub proof fn lemma_pixel_field_reads_back(v: u8)
    ensures
        pixel_field_text(v).len() == 7,
        pixel_field_text(v)[1] == '.',
        all_digits(pixel_field_text(v).subrange(0, 1)),
        all_digits(pixel_field_text(v).subrange(2, 7)),
        (pixel_field_text(v)[0] as int - 48) * 100000 + digits_value(pixel_field_text(v).subrange(2, 7))
            == pixel_scaled(v),
        2 * (255 * pixel_scaled(v) - 100000 * (v as int)) < 255,
        2 * (100000 * (v as int) - 255 * pixel_scaled(v)) < 255,
{
    let q = pixel_scaled(v);
    lemma_pixel_scaled_nearest(v);
    let whole = q / 100000;
    let frac = q % 100000;
    assert(whole <= 1);
    lemma_decimal_reads_back(whole);
    assert(decimal(whole).len() == 1);
    lemma_padded_decimal_reads_back(frac, 5);
    assert(pow10(5) == 100000) by {
        reveal_with_fuel(pow10, 6);
    }
    let t = pixel_field_text(v);
    assert(t.subrange(2, 7) =~= padded_decimal(frac, 5));
    assert(t.subrange(0, 1) =~= decimal(whole));
    assert(decimal(whole).drop_last() =~= Seq::<char>::empty());
    assert(digits_value(decimal(whole)) == digits_value(Seq::<char>::empty()) * 10 + (decimal(whole)[0] as int - 48));
    assert(frac % 100000 == frac);
    assert(q == 100000 * whole + frac);
}

/// The header has a column for each of the 12288 pixel values, named `p`
/// followed by the pixel's index in decimal, then the `label` column.
pub proof fn lemma_header_columns(i: int)
    requires
        0 <= i < PIXEL_FIELDS,
    ensures
        header_text().len() == PIXEL_FIELDS + 1,
        header_text()[i][0] == 'p',
        header_text()[i].drop_first() == decimal(i as nat),
        all_digits(header_text()[i].drop_first()),
        digits_value(header_text()[i].drop_first()) == i,
        header_text()[PIXEL_FIELDS as int] == seq!['l', 'a', 'b', 'e', 'l'],
{
    assert(header_text()[i].drop_first() =~= decimal(i as nat));
    lemma_decimal_reads_back(i as nat);
}

/// A record holds, in order, the field of each channel value, then the
/// label, unchanged.
pub proof fn lemma_record_fields(pixels: Seq<u8>, label: Seq<char>, i: int)
    requires
        0 <= i < pixels.len(),
    ensures
        record_text(pixels, label).len() == pixels.len() + 1,
        record_text(pixels, label)[i] == pixel_field_text(pixels[i]),
        record_text(pixels, label)[pixels.len() as int] == label,
{
}

} // verus!
