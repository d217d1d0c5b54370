//! The lattices that the fixtures' looks are read from.

use vstd::prelude::*;

use crate::numbers::{decimal, decimal_text, digits_value, lemma_decimal_parses};
use crate::text::strings_equal;

verus! {

/// A number of millionths with six decimals.
pub open spec fn six_decimals(millionths: nat) -> Seq<char> {
    decimal(millionths / 1_000_000) + "."@ + padded(millionths % 1_000_000)
}

/// A number below a million with six digits.
pub open spec fn padded(number: nat) -> Seq<char> {
    zeros(if number >= 100_000 {
        0
    } else if number >= 10_000 {
        1
    } else if number >= 1_000 {
        2
    } else if number >= 100 {
        3
    } else if number >= 10 {
        4
    } else {
        5
    }) + decimal(number)
}

/// So many zeros.
pub open spec fn zeros(count: nat) -> Seq<char> {
    Seq::new(count, |i: int| '0')
}

/// A lattice with two samples on each axis holds eight: this is the one at a
/// place, red running fastest, with each channel scaled by a number of
/// millionths.
pub open spec fn sample_line(scale: [u32; 3], place: int) -> Seq<char> {
    let red = if place % 2 == 1 { scale@[0] as nat } else { 0 };
    let green = if place / 2 % 2 == 1 { scale@[1] as nat } else { 0 };
    let blue = if place / 4 % 2 == 1 { scale@[2] as nat } else { 0 };
    six_decimals(red) + " "@ + six_decimals(green) + " "@ + six_decimals(blue) + "\n"@
}

/// The header of a lattice and its first samples.
pub open spec fn cube_lines(scale: [u32; 3], count: nat) -> Seq<char>
    decreases count,
{
    if count == 0 {
        "LUT_3D_SIZE 2\n"@
    } else {
        cube_lines(scale, (count - 1) as nat) + sample_line(scale, count - 1)
    }
}

fn six_decimal_text(millionths: u32) -> (text: String)
    ensures
        text@ == six_decimals(millionths as nat),
{
    let whole: u32 = millionths / 1_000_000;
    let rest: u32 = millionths % 1_000_000;
    let padding = if rest >= 100_000 {
        ""
    } else if rest >= 10_000 {
        "0"
    } else if rest >= 1_000 {
        "00"
    } else if rest >= 100 {
        "000"
    } else if rest >= 10 {
        "0000"
    } else {
        "00000"
    };
    let text = decimal_text(whole as u64).concat(".").concat(padding).concat(
        decimal_text(rest as u64).as_str(),
    );
    proof {
        reveal_strlit("");
        reveal_strlit("0");
        reveal_strlit("00");
        reveal_strlit("000");
        reveal_strlit("0000");
        reveal_strlit("00000");
        let number = rest as nat;
        assert(padding@ + decimal(number) =~= padded(number));
        assert(text@ =~= six_decimals(millionths as nat));
    }
    text
}

fn sample_text(scale: [u32; 3], place: usize) -> (line: String)
    ensures
        line@ == sample_line(scale, place as int),
{
    let red: u32 = if place % 2 == 1 {
        scale[0]
    } else {
        0
    };
    let green: u32 = if place / 2 % 2 == 1 {
        scale[1]
    } else {
        0
    };
    let blue: u32 = if place / 4 % 2 == 1 {
        scale[2]
    } else {
        0
    };
    six_decimal_text(red).concat(" ").concat(six_decimal_text(green).as_str()).concat(" ").concat(
        six_decimal_text(blue).as_str(),
    ).concat("\n")
}

/// The text of a lattice that scales each channel by a number of millionths.
pub fn cube_text(scale: [u32; 3]) -> (text: String)
    ensures
        text@ == cube_lines(scale, 8),
{
    let mut text = "LUT_3D_SIZE 2\n".to_owned();
    let mut place: usize = 0;
    while place < 8
        invariant
            place <= 8,
            text@ == cube_lines(scale, place as nat),
        decreases 8 - place,
    {
        text = text.concat(sample_text(scale, place).as_str());
        place += 1;
    }
    text
}

/// The scales of the fixtures' two lattices: an identity and a mild look.
pub const CC5_LOOK_SCALES: [[u32; 3]; 2] = [
    [1_000_000, 1_000_000, 1_000_000],
    [900_000, 1_000_000, 800_000],
];

/// A lattice file of the fixtures.
#[derive(Debug)]
pub struct FixtureLut {
    /// The id of its asset.
    pub asset: u64,
    pub file_name: String,
    pub text: String,
}

/// The lattice files of the fixtures: an identity for the technical transform,
/// and a mild look.
pub fn fixture_luts() -> (luts: Vec<FixtureLut>)
    ensures
        luts@.len() == 2,
        forall|i: int|
            0 <= i < 2 ==> {
                &&& (#[trigger] luts@[i]).asset == i + 1
                &&& luts@[i].file_name@ == "cc5-look-"@ + decimal(i as nat) + ".cube"@
                &&& luts@[i].text@ == cube_lines(CC5_LOOK_SCALES@[i], 8)
            },
{
    let mut luts: Vec<FixtureLut> = Vec::new();
    let mut index: usize = 0;
    while index < 2
        invariant
            index <= 2,
            luts@.len() == index,
            forall|i: int|
                0 <= i < index ==> {
                    &&& (#[trigger] luts@[i]).asset == i + 1
                    &&& luts@[i].file_name@ == "cc5-look-"@ + decimal(i as nat) + ".cube"@
                    &&& luts@[i].text@ == cube_lines(CC5_LOOK_SCALES@[i], 8)
                },
        decreases 2 - index,
    {
        let file_name = "cc5-look-".to_owned().concat(decimal_text(index as u64).as_str()).concat(
            ".cube",
        );
        let asset: u64 = index as u64 + 1;
        luts.push(FixtureLut { asset, file_name, text: cube_text(CC5_LOOK_SCALES[index]) });
        index += 1;
    }
    luts
}

/// Whether the file behind a lattice asset was found as it was recorded.
#[derive(Debug, Clone, Copy, PartialEq, Eq, Structural)]
pub enum LutAvailability {
    Verified,
    Other,
}

/// Demands that every lattice of a library is verified, and names the first
/// that is not.
pub fn assert_luts_verified(statuses: &[LutAvailability]) -> (result: Result<(), usize>)
    ensures
        match result {
            Ok(_) => forall|i: int| 0 <= i < statuses@.len() ==> #[trigger] statuses@[i] is Verified,
            Err(first) => {
                &&& first < statuses@.len()
                &&& statuses@[first as int] !is Verified
                &&& forall|i: int| 0 <= i < first ==> #[trigger] statuses@[i] is Verified
            },
        },
{
    let mut i: usize = 0;
    while i < statuses.len()
        invariant
            i <= statuses.len(),
            forall|j: int| 0 <= j < i ==> #[trigger] statuses@[j] is Verified,
        decreases statuses.len() - i,
    {
        if statuses[i] != LutAvailability::Verified {
            return Err(i);
        }
        i += 1;
    }
    Ok(())
}

/// What a project records of an imported lattice.
#[derive(Debug)]
pub struct LutRecord {
    pub asset: u64,
    pub title: String,
    pub size: u32,
    pub sha256: String,
    pub byte_len: u64,
    pub source: String,
}

/// Whether two records say the same.
pub open spec fn same_record(left: LutRecord, right: LutRecord) -> bool {
    &&& left.asset == right.asset
    &&& left.title@ == right.title@
    &&& left.size == right.size
    &&& left.sha256@ == right.sha256@
    &&& left.byte_len == right.byte_len
    &&& left.source@ == right.source@
}

fn records_equal(left: &LutRecord, right: &LutRecord) -> (equal: bool)
    ensures
        equal == same_record(*left, *right),
{
    left.asset == right.asset && strings_equal(left.title.as_str(), right.title.as_str())
        && left.size == right.size && strings_equal(left.sha256.as_str(), right.sha256.as_str())
        && left.byte_len == right.byte_len && strings_equal(
        left.source.as_str(),
        right.source.as_str(),
    )
}

/// The canonical lattice of the log scenario: what is recorded of it, and the
/// size and title that the scenario gives it.
#[derive(Debug)]
pub struct CanonicalCube {
    pub record: LutRecord,
    pub size: u32,
    pub title: String,
}

/// Why the import of a lattice is not what the log scenario needs.
#[derive(Debug, Clone, Copy, PartialEq, Eq, Structural)]
pub enum CubeImportFailure {
    /// The canonical lattice is recorded otherwise than the scenario says.
    RecordDiffers,
    TitleDiffers,
    SizeDiffers,
    /// A lattice of the library is not verified.
    NotVerified { index: usize },
}

/// What the record of an import fails.  Only the inverse lattice at the
/// scenario's own size is held to the scenario's record.
pub open spec fn record_failure(
    imported: LutRecord,
    identity: bool,
    size: u32,
    canonical: CanonicalCube,
) -> Option<CubeImportFailure> {
    if identity || size != canonical.size {
        None
    } else if !same_record(imported, canonical.record) {
        Some(CubeImportFailure::RecordDiffers)
    } else if imported.title@ != canonical.title@ {
        Some(CubeImportFailure::TitleDiffers)
    } else if imported.size != size {
        Some(CubeImportFailure::SizeDiffers)
    } else {
        None
    }
}

/// Demands that an imported lattice of a size, an identity or the inverse of
/// the log curve, is recorded as the log scenario says, and that the library
/// built of it is verified.
pub fn cc7_import_log_inverse_cube(
    imported: &LutRecord,
    identity: bool,
    size: u32,
    canonical: &CanonicalCube,
    statuses: &[LutAvailability],
) -> (result: Result<(), CubeImportFailure>)
    ensures
        match record_failure(*imported, identity, size, *canonical) {
            Some(failure) => result == Err::<(), CubeImportFailure>(failure),
            None => match result {
                Ok(_) => forall|i: int|
                    0 <= i < statuses@.len() ==> #[trigger] statuses@[i] is Verified,
                Err(failure) => {
                    &&& failure matches CubeImportFailure::NotVerified { index }
                    &&& index < statuses@.len()
                    &&& statuses@[index as int] !is Verified
                    &&& forall|i: int| 0 <= i < index ==> #[trigger] statuses@[i] is Verified
                },
            },
        },
{
    if !identity && size == canonical.size {
        if !records_equal(imported, &canonical.record) {
            return Err(CubeImportFailure::RecordDiffers);
        }
        if !strings_equal(imported.title.as_str(), canonical.title.as_str()) {
            return Err(CubeImportFailure::TitleDiffers);
        }
        if imported.size != size {
            return Err(CubeImportFailure::SizeDiffers);
        }
    }
    match assert_luts_verified(statuses) {
        Ok(_) => Ok(()),
        Err(index) => Err(CubeImportFailure::NotVerified { index }),
    }
}

/// What stands behind the point are six digits, and they are the number's.
pub proof fn lemma_six_digits(number: nat)
    requires
        number < 1_000_000,
    ensures
        padded(number).len() == 6,
        digits_value(padded(number)) == Some(number),
{
    lemma_decimal_length(number);
    lemma_decimal_parses(number);
    let digits = decimal(number);
    let count = (6 - digits.len()) as nat;
    assert(padded(number) =~= zeros(count) + digits);
    lemma_leading_zeros(count, digits);
}

proof fn lemma_decimal_length(number: nat)
    requires
        number < 1_000_000,
    ensures
        decimal(number).len() == (if number >= 100_000 {
            6int
        } else if number >= 10_000 {
            5
        } else if number >= 1_000 {
            4
        } else if number >= 100 {
            3
        } else if number >= 10 {
            2
        } else {
            1
        }),
    decreases number,
{
    if number >= 10 {
        lemma_decimal_length(number / 10);
    }
}

proof fn lemma_leading_zeros(count: nat, digits: Seq<char>)
    requires
        digits_value(digits) is Some,
    ensures
        digits_value(zeros(count) + digits) == digits_value(digits),
    decreases count + digits.len(),
{
    let text = zeros(count) + digits;
    if digits.len() > 0 {
        assert(text.drop_last() =~= zeros(count) + digits.drop_last());
        assert(text.last() == digits.last());
        lemma_leading_zeros(count, digits.drop_last());
    } else if count > 0 {
        assert(text.drop_last() =~= zeros((count - 1) as nat) + digits);
        assert(text.last() == '0');
        lemma_leading_zeros((count - 1) as nat, digits);
    } else {
        assert(text =~= digits);
    }
}

/// A number of millionths is written as its whole part, a point and six digits
/// of the rest.
pub proof fn lemma_millionths_as_written(millionths: nat)
    ensures
        six_decimals(millionths) == decimal(millionths / 1_000_000) + "."@ + padded(
            millionths % 1_000_000,
        ),
        six_decimals(millionths).len() == decimal(millionths / 1_000_000).len() + 7,
{
    lemma_six_digits(millionths % 1_000_000);
    reveal_strlit(".");
}

/// The sample at a corner of the lattice is the scale of each channel that is up
/// at the corner, and zero of the others: red changes at every line, green at
/// every second, blue at every fourth.
pub proof fn lemma_corner_samples(scale: [u32; 3], red: int, green: int, blue: int)
    requires
        0 <= red <= 1,
        0 <= green <= 1,
        0 <= blue <= 1,
    ensures
        sample_line(scale, red + 2 * green + 4 * blue) == six_decimals(
            (red * scale@[0]) as nat,
        ) + " "@ + six_decimals((green * scale@[1]) as nat) + " "@ + six_decimals(
            (blue * scale@[2]) as nat,
        ) + "\n"@,
{
    let place = red + 2 * green + 4 * blue;
    assert(place % 2 == red && place / 2 % 2 == green && place / 4 % 2 == blue);
    assert(red * scale@[0] == (if red == 1 {
        scale@[0] as int
    } else {
        0
    })) by (nonlinear_arith)
        requires
            red == 0 || red == 1,
    ;
    assert(green * scale@[1] == (if green == 1 {
        scale@[1] as int
    } else {
        0
    })) by (nonlinear_arith)
        requires
            green == 0 || green == 1,
    ;
    assert(blue * scale@[2] == (if blue == 1 {
        scale@[2] as int
    } else {
        0
    })) by (nonlinear_arith)
        requires
            blue == 0 || blue == 1,
    ;
}

/// A lattice is its header and its eight samples, in order, and nothing else.
pub proof fn lemma_lattice_in_lines(scale: [u32; 3])
    ensures
        cube_lines(scale, 8) =~= "LUT_3D_SIZE 2\n"@ + sample_line(scale, 0) + sample_line(scale, 1)
            + sample_line(scale, 2) + sample_line(scale, 3) + sample_line(scale, 4) + sample_line(
            scale,
            5,
        ) + sample_line(scale, 6) + sample_line(scale, 7),
{
    reveal_with_fuel(cube_lines, 9);
}

/// The record of an import passes exactly where it need not be the scenario's,
/// or where all six of its fields are the scenario's and its title and size are
/// the ones that were asked for; and what is named as different is.
pub proof fn lemma_record_in_fields(
    imported: LutRecord,
    identity: bool,
    size: u32,
    canonical: CanonicalCube,
)
    ensures
        record_failure(imported, identity, size, canonical) is None <==> identity || size
            != canonical.size || {
            &&& imported.asset == canonical.record.asset
            &&& imported.title@ == canonical.record.title@
            &&& imported.size == canonical.record.size
            &&& imported.sha256@ == canonical.record.sha256@
            &&& imported.byte_len == canonical.record.byte_len
            &&& imported.source@ == canonical.record.source@
            &&& imported.title@ == canonical.title@
            &&& imported.size == size
        },
        record_failure(imported, identity, size, canonical) matches Some(failure) ==> {
            &&& failure is TitleDiffers ==> imported.title@ != canonical.title@
            &&& failure is SizeDiffers ==> imported.size != size
            &&& failure !is NotVerified
        },
{
}

} // verus!
