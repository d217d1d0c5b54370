//! How far an inverted log curve lands from the reference, patch by patch.

use vstd::prelude::*;

use crate::chart::{
    cc7_inset, distance, inset, lemma_byte_in_raster, patch_fits, readable, rect_code, Cc7PixelRect, RgbaImage,
};
use crate::effect::{collect_parameters, collected, push_parameter, stored, ParameterMap};
use crate::numbers::{decimal, decimal_text};

verus! {

/// A patch of the chart's lower row.
#[derive(Debug)]
pub struct RowPatch {
    pub name: String,
    pub rect: Cc7PixelRect,
}

/// The distance of two rasters in a channel of a rectangle's pixel.
pub open spec fn pixel_error(
    actual: RgbaImage,
    reference: RgbaImage,
    rect: Cc7PixelRect,
    i: int,
    channel: int,
) -> int {
    distance(
        rect_code(actual, rect, channel, i) as int,
        rect_code(reference, rect, channel, i) as int,
    )
}

/// The greater of two numbers.
pub open spec fn greater(a: int, b: int) -> int {
    if a >= b {
        a
    } else {
        b
    }
}

/// The greatest distance of two rasters over the first pixels of a rectangle.
pub open spec fn worst_error(
    actual: RgbaImage,
    reference: RgbaImage,
    rect: Cc7PixelRect,
    count: nat,
) -> int
    decreases count,
{
    if count == 0 {
        0
    } else {
        let before = worst_error(actual, reference, rect, (count - 1) as nat);
        let red = pixel_error(actual, reference, rect, count - 1, 0);
        let green = pixel_error(actual, reference, rect, count - 1, 1);
        let blue = pixel_error(actual, reference, rect, count - 1, 2);
        greater(greater(greater(before, red), green), blue)
    }
}

/// The greatest distance of two rasters over a patch without its edge.
pub open spec fn patch_error(actual: RgbaImage, reference: RgbaImage, patch: Cc7PixelRect) -> int {
    worst_error(
        actual,
        reference,
        inset(patch),
        (inset(patch).width * inset(patch).height) as nat,
    )
}

/// No pixel of a patch lies farther off than its worst error.
pub proof fn lemma_worst_error_bounds_every_pixel(
    actual: RgbaImage,
    reference: RgbaImage,
    rect: Cc7PixelRect,
    count: nat,
    i: int,
    channel: int,
)
    requires
        0 <= i < count,
        0 <= channel < 3,
    ensures
        pixel_error(actual, reference, rect, i, channel) <= worst_error(
            actual,
            reference,
            rect,
            count,
        ),
    decreases count,
{
    if i < count - 1 {
        lemma_worst_error_bounds_every_pixel(
            actual,
            reference,
            rect,
            (count - 1) as nat,
            i,
            channel,
        );
    }
}

fn code_distance(a: u8, b: u8) -> (d: i64)
    ensures
        d == distance(a as int, b as int),
        0 <= d <= 255,
{
    if a >= b {
        (a - b) as i64
    } else {
        (b - a) as i64
    }
}

/// The greatest distance of two rasters over a patch without its edge.
pub fn cc7_worst_pixel_code_error(
    actual: &RgbaImage,
    reference: &RgbaImage,
    patch: Cc7PixelRect,
) -> (worst: i64)
    requires
        actual.width == reference.width,
        actual.height == reference.height,
        patch_fits(*actual, patch),
        patch_fits(*reference, patch),
    ensures
        worst == patch_error(*actual, *reference, patch),
        0 <= worst <= 255,
{
    let rect = cc7_inset(patch);
    let count: u32 = rect.width * rect.height;
    let mut worst: i64 = 0;
    let mut i: u32 = 0;
    while i < count
        invariant
            i <= count,
            actual.width == reference.width,
            rect == inset(patch),
            count == rect.width * rect.height,
            readable(*actual, rect),
            readable(*reference, rect),
            worst == worst_error(*actual, *reference, rect, i as nat),
            0 <= worst <= 255,
        decreases count - i,
    {
        proof {
            lemma_byte_in_raster(*actual, rect, i as int);
            lemma_byte_in_raster(*reference, rect, i as int);
        }
        let x: u32 = rect.x + i % rect.width;
        let y: u32 = rect.y + i / rect.width;
        let index: usize = ((y * actual.width + x) * 4) as usize;
        let red: i64 = code_distance(actual.pixels[index], reference.pixels[index]);
        let green: i64 = code_distance(actual.pixels[index + 1], reference.pixels[index + 1]);
        let blue: i64 = code_distance(actual.pixels[index + 2], reference.pixels[index + 2]);
        assert(red == pixel_error(*actual, *reference, rect, i as int, 0));
        assert(green == pixel_error(*actual, *reference, rect, i as int, 1));
        assert(blue == pixel_error(*actual, *reference, rect, i as int, 2));
        if red > worst {
            worst = red;
        }
        if green > worst {
            worst = green;
        }
        if blue > worst {
            worst = blue;
        }
        i += 1;
    }
    worst
}

/// A number with at least two digits.
pub open spec fn two_digits(number: nat) -> Seq<char> {
    if number < 10 {
        "0"@ + decimal(number)
    } else {
        decimal(number)
    }
}

/// The name of a patch of the chart.
pub open spec fn chart_name(index: nat) -> Seq<char> {
    "chart"@ + two_digits(index)
}

fn chart_patch_name(index: usize) -> (name: String)
    ensures
        name@ == chart_name(index as nat),
{
    let number = decimal_text(index as u64);
    if index < 10 {
        let name = "chart".to_owned().concat("0").concat(number.as_str());
        assert(name@ =~= chart_name(index as nat));
        name
    } else {
        "chart".to_owned().concat(number.as_str())
    }
}

/// The patches that the inverse is held to: those of the chart, and the four
/// skin patches.
pub open spec fn gate_patches(chart: Seq<Cc7PixelRect>, row: Seq<RowPatch>) -> Seq<
    (Seq<char>, Cc7PixelRect),
> {
    Seq::new(chart.len(), |i: int| (chart_name(i as nat), chart[i])) + Seq::new(
        4,
        |i: int| (row[i].name@, row[i].rect),
    )
}

/// The names and rectangles of named patches.
pub open spec fn named(patches: Seq<(String, Cc7PixelRect)>) -> Seq<(Seq<char>, Cc7PixelRect)> {
    patches.map_values(|patch: (String, Cc7PixelRect)| (patch.0@, patch.1))
}

/// The patches that the inverse is held to.
pub fn cc7_log_gate_patches(chart: &[Cc7PixelRect], row: &[RowPatch]) -> (patches: Vec<
    (String, Cc7PixelRect),
>)
    requires
        row@.len() >= 4,
    ensures
        named(patches@) == gate_patches(chart@, row@),
{
    let mut patches: Vec<(String, Cc7PixelRect)> = Vec::new();
    let mut i: usize = 0;
    while i < chart.len()
        invariant
            i <= chart.len(),
            named(patches@) == gate_patches(chart@, row@).take(i as int),
        decreases chart.len() - i,
    {
        let ghost before = named(patches@);
        let name = chart_patch_name(i);
        let ghost entry = (name@, chart@[i as int]);
        patches.push((name, chart[i]));
        i += 1;
        assert(named(patches@) =~= before.push(entry));
        assert(gate_patches(chart@, row@).take(i as int) =~= before.push(entry));
    }
    let mut k: usize = 0;
    while k < 4
        invariant
            k <= 4,
            row@.len() >= 4,
            named(patches@) == gate_patches(chart@, row@).take(chart@.len() + k),
        decreases 4 - k,
    {
        let ghost before = named(patches@);
        let name = row[k].name.as_str().to_owned();
        let ghost entry = (name@, row@[k as int].rect);
        patches.push((name, row[k].rect));
        k += 1;
        assert(named(patches@) =~= before.push(entry));
        assert(gate_patches(chart@, row@).take(chart@.len() + k) =~= before.push(entry));
    }
    assert(gate_patches(chart@, row@).take(chart@.len() as int + 4) =~= gate_patches(chart@, row@));
    patches
}

/// The error of each of the first patches beside its name.
pub open spec fn named_errors(
    actual: RgbaImage,
    reference: RgbaImage,
    patches: Seq<(Seq<char>, Cc7PixelRect)>,
) -> Seq<(Seq<char>, i64)> {
    Seq::new(
        patches.len(),
        |i: int| (patches[i].0, patch_error(actual, reference, patches[i].1) as i64),
    )
}

/// The greatest error of the first patches.
pub open spec fn set_worst(
    actual: RgbaImage,
    reference: RgbaImage,
    patches: Seq<(Seq<char>, Cc7PixelRect)>,
    count: nat,
) -> int
    decreases count,
{
    if count == 0 {
        0
    } else {
        greater(
            set_worst(actual, reference, patches, (count - 1) as nat),
            patch_error(actual, reference, patches[count - 1].1),
        )
    }
}

/// No patch of a set lies farther off than the worst of the set.
pub proof fn lemma_set_worst_bounds_every_patch(
    actual: RgbaImage,
    reference: RgbaImage,
    patches: Seq<(Seq<char>, Cc7PixelRect)>,
    count: nat,
    i: int,
)
    requires
        0 <= i < count <= patches.len(),
    ensures
        patch_error(actual, reference, patches[i].1) <= set_worst(
            actual,
            reference,
            patches,
            count,
        ),
    decreases count,
{
    if i < count - 1 {
        lemma_set_worst_bounds_every_patch(actual, reference, patches, (count - 1) as nat, i);
    }
}

/// The name of a primary patch.
pub open spec fn primary_name(index: nat) -> Seq<char> {
    "primary"@ + decimal(index)
}

/// The primary patches by name.
pub open spec fn primary_patches(primaries: Seq<Cc7PixelRect>) -> Seq<(Seq<char>, Cc7PixelRect)> {
    Seq::new(primaries.len(), |i: int| (primary_name(i as nat), primaries[i]))
}

/// The product patches by name: those of the row behind the skin patches.
pub open spec fn product_patches(row: Seq<RowPatch>) -> Seq<(Seq<char>, Cc7PixelRect)> {
    Seq::new((row.len() - 4) as nat, |i: int| (row[i + 4].name@, row[i + 4].rect))
}

/// Every measured patch by name, in the order of measurement.
pub open spec fn measured_patches(
    chart: Seq<Cc7PixelRect>,
    row: Seq<RowPatch>,
    primaries: Seq<Cc7PixelRect>,
) -> Seq<(Seq<char>, Cc7PixelRect)> {
    gate_patches(chart, row) + primary_patches(primaries) + product_patches(row)
}

/// How far an inverted log curve lands from the reference.
#[derive(Debug)]
pub struct Cc7LogInverseMeasurement {
    /// The worst error of each patch, by the patch's name.
    pub per_patch: ParameterMap,
    /// The worst error of the patches that the inverse is held to.
    pub gate_set_worst: i64,
    /// The worst error of the primary patches.
    pub primaries_worst: i64,
}

/// Whether the rasters hold all of some patches.
pub open spec fn patches_fit(
    actual: RgbaImage,
    reference: RgbaImage,
    patches: Seq<(Seq<char>, Cc7PixelRect)>,
) -> bool {
    forall|i: int|
        0 <= i < patches.len() ==> patch_fits(actual, (#[trigger] patches[i]).1) && patch_fits(
            reference,
            patches[i].1,
        )
}

/// Adds the errors of named patches to a list, and gives the worst of them.
fn measure_patches(
    actual: &RgbaImage,
    reference: &RgbaImage,
    patches: &Vec<(String, Cc7PixelRect)>,
    errors: &mut Vec<(String, i64)>,
) -> (worst: i64)
    requires
        actual.width == reference.width,
        actual.height == reference.height,
        patches_fit(*actual, *reference, named(patches@)),
    ensures
        stored(final(errors)@) == stored(old(errors)@) + named_errors(
            *actual,
            *reference,
            named(patches@),
        ),
        worst == set_worst(*actual, *reference, named(patches@), patches@.len()),
{
    let ghost before = stored(errors@);
    let ghost all = named_errors(*actual, *reference, named(patches@));
    let mut worst: i64 = 0;
    let mut i: usize = 0;
    assert(before + all.take(0) =~= before);
    while i < patches.len()
        invariant
            i <= patches.len(),
            actual.width == reference.width,
            actual.height == reference.height,
            patches_fit(*actual, *reference, named(patches@)),
            all == named_errors(*actual, *reference, named(patches@)),
            stored(errors@) == before + all.take(i as int),
            worst == set_worst(*actual, *reference, named(patches@), i as nat),
        decreases patches.len() - i,
    {
        assert(named(patches@)[i as int] == (patches@[i as int].0@, patches@[i as int].1));
        let error: i64 = cc7_worst_pixel_code_error(actual, reference, patches[i].1);
        push_parameter(errors, patches[i].0.as_str(), error);
        if error > worst {
            worst = error;
        }
        i += 1;
        assert(all.take(i as int) =~= all.take(i - 1).push(all[i - 1]));
        assert(stored(errors@) =~= before + all.take(i as int));
    }
    assert(all.take(patches@.len() as int) =~= all);
    worst
}

fn named_primaries(primaries: &[Cc7PixelRect]) -> (patches: Vec<(String, Cc7PixelRect)>)
    ensures
        named(patches@) == primary_patches(primaries@),
{
    let mut patches: Vec<(String, Cc7PixelRect)> = Vec::new();
    let mut i: usize = 0;
    while i < primaries.len()
        invariant
            i <= primaries.len(),
            named(patches@) == primary_patches(primaries@).take(i as int),
        decreases primaries.len() - i,
    {
        let ghost before = named(patches@);
        let name = "primary".to_owned().concat(decimal_text(i as u64).as_str());
        let ghost entry = (name@, primaries@[i as int]);
        patches.push((name, primaries[i]));
        i += 1;
        assert(named(patches@) =~= before.push(entry));
        assert(primary_patches(primaries@).take(i as int) =~= before.push(entry));
    }
    assert(primary_patches(primaries@).take(primaries@.len() as int) =~= primary_patches(
        primaries@,
    ));
    patches
}

fn named_products(row: &[RowPatch]) -> (patches: Vec<(String, Cc7PixelRect)>)
    requires
        row@.len() >= 4,
    ensures
        named(patches@) == product_patches(row@),
{
    let mut patches: Vec<(String, Cc7PixelRect)> = Vec::new();
    let mut i: usize = 4;
    while i < row.len()
        invariant
            4 <= i <= row.len(),
            named(patches@) == product_patches(row@).take(i - 4),
        decreases row.len() - i,
    {
        let ghost before = named(patches@);
        let name = row[i].name.as_str().to_owned();
        let ghost entry = (name@, row@[i as int].rect);
        patches.push((name, row[i].rect));
        i += 1;
        assert(named(patches@) =~= before.push(entry));
        assert(product_patches(row@).take(i - 4) =~= before.push(entry));
    }
    assert(product_patches(row@).take(row@.len() - 4) =~= product_patches(row@));
    patches
}

/// How far an inverted log curve lands from the reference.
pub fn cc7_measure_log_inverse(
    actual: &RgbaImage,
    reference: &RgbaImage,
    chart: &[Cc7PixelRect],
    row: &[RowPatch],
    primaries: &[Cc7PixelRect],
) -> (measured: Cc7LogInverseMeasurement)
    requires
        actual.width == reference.width,
        actual.height == reference.height,
        row@.len() >= 4,
        patches_fit(*actual, *reference, measured_patches(chart@, row@, primaries@)),
    ensures
        measured.per_patch.well_formed(),
        measured.per_patch@ == collected(
            named_errors(*actual, *reference, measured_patches(chart@, row@, primaries@)),
        ),
        measured.gate_set_worst == set_worst(
            *actual,
            *reference,
            gate_patches(chart@, row@),
            gate_patches(chart@, row@).len(),
        ),
        measured.primaries_worst == set_worst(
            *actual,
            *reference,
            primary_patches(primaries@),
            primaries@.len(),
        ),
{
    let ghost every = measured_patches(chart@, row@, primaries@);
    let gate = cc7_log_gate_patches(chart, row);
    let primary = named_primaries(primaries);
    let product = named_products(row);
    proof {
        let g = named(gate@);
        let p = named(primary@);
        let q = named(product@);
        assert forall|i: int| 0 <= i < g.len() implies patch_fits(*actual, (#[trigger] g[i]).1)
            && patch_fits(*reference, g[i].1) by {
            assert(every[i] == g[i]);
        }
        assert forall|i: int| 0 <= i < p.len() implies patch_fits(*actual, (#[trigger] p[i]).1)
            && patch_fits(*reference, p[i].1) by {
            assert(every[g.len() + i] == p[i]);
        }
        assert forall|i: int| 0 <= i < q.len() implies patch_fits(*actual, (#[trigger] q[i]).1)
            && patch_fits(*reference, q[i].1) by {
            assert(every[g.len() + p.len() + i] == q[i]);
        }
    }
    let mut errors: Vec<(String, i64)> = Vec::new();
    let gate_set_worst: i64 = measure_patches(actual, reference, &gate, &mut errors);
    let primaries_worst: i64 = measure_patches(actual, reference, &primary, &mut errors);
    let _products_worst: i64 = measure_patches(actual, reference, &product, &mut errors);
    proof {
        assert(named(gate@).len() == gate@.len());
        assert(named(primary@).len() == primary@.len());
        assert(stored(errors@) =~= named_errors(*actual, *reference, every));
    }
    Cc7LogInverseMeasurement {
        per_patch: collect_parameters(errors),
        gate_set_worst,
        primaries_worst,
    }
}

/// A worst error that is not zero is the distance of some pixel in some channel.
proof fn lemma_worst_error_is_reached(
    actual: RgbaImage,
    reference: RgbaImage,
    rect: Cc7PixelRect,
    count: nat,
)
    ensures
        worst_error(actual, reference, rect, count) >= 0,
        worst_error(actual, reference, rect, count) > 0 ==> exists|i: int, c: int|
            0 <= i < count && 0 <= c < 3 && #[trigger] pixel_error(actual, reference, rect, i, c)
                == worst_error(actual, reference, rect, count),
    decreases count,
{
    if count > 0 {
        let last = (count - 1) as nat;
        lemma_worst_error_is_reached(actual, reference, rect, last);
        let before = worst_error(actual, reference, rect, last);
        let worst = worst_error(actual, reference, rect, count);
        if worst > 0 {
            if worst == before {
                let (i, c) = choose|i: int, c: int|
                    0 <= i < last && 0 <= c < 3 && #[trigger] pixel_error(
                        actual,
                        reference,
                        rect,
                        i,
                        c,
                    ) == before;
                assert(pixel_error(actual, reference, rect, i, c) == worst);
            } else {
                let red = pixel_error(actual, reference, rect, last as int, 0);
                let green = pixel_error(actual, reference, rect, last as int, 1);
                let blue = pixel_error(actual, reference, rect, last as int, 2);
                assert(worst == red || worst == green || worst == blue);
            }
        }
    }
}

/// The error of a patch on its pixels: no code of a pixel that is two or more
/// away from the patch's edges differs from the reference by more, in any of the
/// three channels, and where the error is not zero one differs by as much.
pub proof fn lemma_patch_error_by_position(
    actual: RgbaImage,
    reference: RgbaImage,
    patch: Cc7PixelRect,
)
    requires
        patch_fits(actual, patch),
        patch_fits(reference, patch),
    ensures
        forall|x: int, y: int, c: int|
            #![trigger actual.pixels@[(y * actual.width + x) * 4 + c]]
            patch.x + 2 <= x < patch.x + patch.width - 2 && patch.y + 2 <= y < patch.y
                + patch.height - 2 && 0 <= c < 3 ==> {
                let difference = actual.pixels@[(y * actual.width + x) * 4 + c]
                    - reference.pixels@[(y * reference.width + x) * 4 + c];
                -patch_error(actual, reference, patch) <= difference <= patch_error(
                    actual,
                    reference,
                    patch,
                )
            },
        patch_error(actual, reference, patch) > 0 ==> exists|x: int, y: int, c: int|
            #![trigger actual.pixels@[(y * actual.width + x) * 4 + c]]
            {
                let difference = actual.pixels@[(y * actual.width + x) * 4 + c]
                    - reference.pixels@[(y * reference.width + x) * 4 + c];
                &&& patch.x + 2 <= x < patch.x + patch.width - 2
                &&& patch.y + 2 <= y < patch.y + patch.height - 2
                &&& 0 <= c < 3
                &&& difference == patch_error(actual, reference, patch) || -difference
                    == patch_error(actual, reference, patch)
            },
{
    let rect = inset(patch);
    let w = rect.width as int;
    let h = rect.height as int;
    let count = (rect.width * rect.height) as nat;
    let error = patch_error(actual, reference, patch);
    assert(w * h >= 0) by (nonlinear_arith)
        requires
            w > 0,
            h > 0,
    ;
    assert forall|x: int, y: int, c: int|
        #![trigger actual.pixels@[(y * actual.width + x) * 4 + c]]
        patch.x + 2 <= x < patch.x + patch.width - 2 && patch.y + 2 <= y < patch.y + patch.height
            - 2 && 0 <= c < 3 implies {
        let difference = actual.pixels@[(y * actual.width + x) * 4 + c]
            - reference.pixels@[(y * reference.width + x) * 4 + c];
        -error <= difference <= error
    } by {
        let u = x - rect.x;
        let v = y - rect.y;
        let i = v * w + u;
        assert(0 <= i < w * h && i % w == u && i / w == v) by (nonlinear_arith)
            requires
                i == v * w + u,
                0 <= u < w,
                0 <= v < h,
        ;
        lemma_worst_error_bounds_every_pixel(actual, reference, rect, count, i, c);
        assert(rect_code(actual, rect, c, i) == actual.pixels@[(y * actual.width + x) * 4 + c]);
        assert(rect_code(reference, rect, c, i) == reference.pixels@[(y * reference.width + x) * 4
            + c]);
    }
    lemma_worst_error_is_reached(actual, reference, rect, count);
    if error > 0 {
        let (i, c) = choose|i: int, c: int|
            0 <= i < count && 0 <= c < 3 && #[trigger] pixel_error(actual, reference, rect, i, c)
                == error;
        assert(0 <= i % w < w && 0 <= i / w < h) by (nonlinear_arith)
            requires
                0 <= i < w * h,
                w > 0,
        ;
        let x = rect.x + i % w;
        let y = rect.y + i / w;
        assert(rect_code(actual, rect, c, i) == actual.pixels@[(y * actual.width + x) * 4 + c]);
        assert(rect_code(reference, rect, c, i) == reference.pixels@[(y * reference.width + x) * 4
            + c]);
    }
}

/// The worst of a set of patches is the error of one of them, or zero.
pub proof fn lemma_set_worst_is_reached(
    actual: RgbaImage,
    reference: RgbaImage,
    patches: Seq<(Seq<char>, Cc7PixelRect)>,
    count: nat,
)
    requires
        count <= patches.len(),
    ensures
        set_worst(actual, reference, patches, count) >= 0,
        set_worst(actual, reference, patches, count) > 0 ==> exists|i: int|
            0 <= i < count && patch_error(actual, reference, (#[trigger] patches[i]).1)
                == set_worst(actual, reference, patches, count),
    decreases count,
{
    if count > 0 {
        let last = (count - 1) as nat;
        lemma_set_worst_is_reached(actual, reference, patches, last);
        let before = set_worst(actual, reference, patches, last);
        let worst = set_worst(actual, reference, patches, count);
        if worst > 0 {
            if worst == before {
                let i = choose|i: int|
                    0 <= i < last && patch_error(actual, reference, (#[trigger] patches[i]).1)
                        == before;
                assert(patch_error(actual, reference, patches[i].1) == worst);
            } else {
                assert(patch_error(actual, reference, patches[last as int].1) == worst);
            }
        }
    }
}

/// What is measured, in order: every patch of the chart by a number of at least
/// two digits, the first four of the row by their names, the primaries by their
/// numbers, and the rest of the row by their names.
pub proof fn lemma_measured_patches_in_order(
    chart: Seq<Cc7PixelRect>,
    row: Seq<RowPatch>,
    primaries: Seq<Cc7PixelRect>,
    i: int,
)
    requires
        row.len() >= 4,
    ensures
        ({
            let all = measured_patches(chart, row, primaries);
            let gate = gate_patches(chart, row);
            &&& gate.len() == chart.len() + 4
            &&& all.len() == chart.len() + row.len() + primaries.len()
            &&& 0 <= i < gate.len() ==> all[i] == gate[i]
            &&& 0 <= i < chart.len() ==> gate[i].1 == chart[i] && gate[i].0 == (if i < 10 {
                "chart"@ + "0"@ + decimal(i as nat)
            } else {
                "chart"@ + decimal(i as nat)
            })
            &&& 0 <= i < 4 ==> gate[chart.len() + i] == (row[i].name@, row[i].rect)
            &&& 0 <= i < primaries.len() ==> all[chart.len() + 4 + i] == (
                "primary"@ + decimal(i as nat),
                primaries[i],
            )
            &&& 4 <= i < row.len() ==> all[chart.len() + primaries.len() + i] == (
                row[i].name@,
                row[i].rect,
            )
        }),
{
    if 0 <= i < 10 {
        assert("chart"@ + ("0"@ + decimal(i as nat)) =~= "chart"@ + "0"@ + decimal(i as nat));
    }
}

/// The errors stand beside the names of their patches.
pub proof fn lemma_errors_beside_names(
    actual: RgbaImage,
    reference: RgbaImage,
    patches: Seq<(Seq<char>, Cc7PixelRect)>,
    i: int,
)
    requires
        0 <= i < patches.len(),
    ensures
        named_errors(actual, reference, patches).len() == patches.len(),
        named_errors(actual, reference, patches)[i].0 == patches[i].0,
        named_errors(actual, reference, patches)[i].1 == patch_error(
            actual,
            reference,
            patches[i].1,
        ) as i64,
{
}

} // verus!
