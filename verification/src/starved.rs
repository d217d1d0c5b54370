//! The failing direction of the encoded round trip: a bitrate that cannot
//! carry the source.

use vstd::prelude::*;

use crate::delivery::{
    tagged_depth, ColorBitDepth, DeliveryException, LaneContract, LaneMeasurement, QaSeverity,
};
use crate::delivery_lane::lane_failure;
use crate::naming::names_of;
use crate::text::{chars_of, contains, has_pattern, strings_equal};

verus! {

/// The bitrate that starves an encode.
pub const CC6_STARVED_VIDEO_BITRATE: u64 = 100_000;

/// The fields that a difference over its budget can name.
pub const CC6_GATED_BUDGET_FIELDS: [&'static str; 5] = [
    "luma.maximum_code_diff",
    "luma.p99_code_diff_millionths",
    "luma.mean_code_diff_millionths",
    "combined.mean_code_diff_millionths",
    "psnr_db_hundredths",
];

/// The code of the exception on a difference over its budget.
pub const OVER_BUDGET: &'static str = "decoded_difference_over_budget";

/// What the message of such an exception may say: that the file stays.
pub const STAYS_IN_PLACE: &'static str = "never moves the file";

/// What the message of such an exception may say: what it measured.
pub const SIGNAL_TO_NOISE: &'static str = "PSNR";

/// Why a starved lane does not fail as it must.
#[derive(Debug, Clone, Copy, PartialEq, Eq, Structural)]
pub enum StarvedFailure {
    DepthDiffers,
    PixelFormatDiffers,
    WithinBudgets,
    NotAnError { index: usize },
    NamesNoField { index: usize },
    UnexpectedField { index: usize },
    WithoutObserved { index: usize },
    WithoutAllowed { index: usize },
    MessageIncomplete { index: usize },
    NothingTripped,
    TechnicalPass,
    OutputMoved,
    OutputMissing,
    TaggedDepthDiffers,
    TagsDoNotConform,
}

/// Whether a field is one that a budget can name.
pub open spec fn is_gated(field: Seq<char>) -> bool {
    exists|i: int| 0 <= i < 5 && #[trigger] CC6_GATED_BUDGET_FIELDS@[i]@ == field
}

fn gated(field: &str) -> (found: bool)
    ensures
        found == is_gated(field@),
{
    let mut i: usize = 0;
    while i < 5
        invariant
            i <= 5,
            forall|j: int| 0 <= j < i ==> #[trigger] CC6_GATED_BUDGET_FIELDS@[j]@ != field@,
        decreases 5 - i,
    {
        if strings_equal(CC6_GATED_BUDGET_FIELDS[i], field) {
            assert(CC6_GATED_BUDGET_FIELDS@[i as int]@ == field@);
            return true;
        }
        i += 1;
    }
    false
}

/// Whether an exception is on a difference over its budget.
pub open spec fn is_over_budget(exception: DeliveryException) -> bool {
    exception.code@ == OVER_BUDGET@
}

/// What an exception on a difference over its budget fails to say.
pub open spec fn exception_failure(exception: DeliveryException, index: usize) -> Option<
    StarvedFailure,
> {
    if exception.severity != QaSeverity::Error {
        Some(StarvedFailure::NotAnError { index })
    } else if exception.field is None {
        Some(StarvedFailure::NamesNoField { index })
    } else if !is_gated(exception.field->0@) {
        Some(StarvedFailure::UnexpectedField { index })
    } else if exception.observed is None {
        Some(StarvedFailure::WithoutObserved { index })
    } else if exception.allowed is None {
        Some(StarvedFailure::WithoutAllowed { index })
    } else if !contains(exception.message@, STAYS_IN_PLACE@) && !contains(
        exception.message@,
        SIGNAL_TO_NOISE@,
    ) {
        Some(StarvedFailure::MessageIncomplete { index })
    } else {
        None
    }
}

/// What the first exceptions on differences over their budgets fail to say.
pub open spec fn exceptions_failure(exceptions: Seq<DeliveryException>, count: nat) -> Option<
    StarvedFailure,
>
    decreases count,
{
    if count == 0 {
        None
    } else {
        let before = exceptions_failure(exceptions, (count - 1) as nat);
        if before is Some {
            before
        } else if is_over_budget(exceptions[count - 1]) {
            exception_failure(exceptions[count - 1], (count - 1) as usize)
        } else {
            None
        }
    }
}

/// The fields that the first exceptions on differences over their budgets name.
pub open spec fn tripped(exceptions: Seq<DeliveryException>, count: nat) -> Seq<Seq<char>>
    decreases count,
{
    if count == 0 {
        Seq::empty()
    } else {
        let before = tripped(exceptions, (count - 1) as nat);
        if is_over_budget(exceptions[count - 1]) {
            before.push(exceptions[count - 1].field->0@)
        } else {
            before
        }
    }
}

/// What a starved lane fails to show.  `present` is whether the written file is
/// still in its place, and `reprobed` the depth that it is tagged with there.
pub open spec fn starved_failure(
    lane: LaneMeasurement,
    contract: LaneContract,
    present: bool,
    reprobed: ColorBitDepth,
) -> Option<StarvedFailure> {
    let verification = lane.verification;
    let exceptions = verification.exceptions@;
    if verification.delivery_bit_depth != lane.depth {
        Some(StarvedFailure::DepthDiffers)
    } else if verification.decoded_pixel_format@ != contract.pixel_format@ {
        Some(StarvedFailure::PixelFormatDiffers)
    } else if verification.comparison.within_budgets {
        Some(StarvedFailure::WithinBudgets)
    } else if exceptions_failure(exceptions, exceptions.len()) is Some {
        exceptions_failure(exceptions, exceptions.len())
    } else if tripped(exceptions, exceptions.len()).len() == 0 {
        Some(StarvedFailure::NothingTripped)
    } else if verification.technical_pass {
        Some(StarvedFailure::TechnicalPass)
    } else if verification.output_path@ != lane.output@ {
        Some(StarvedFailure::OutputMoved)
    } else if !present {
        Some(StarvedFailure::OutputMissing)
    } else if reprobed != tagged_depth(lane.depth) {
        Some(StarvedFailure::TaggedDepthDiffers)
    } else if !verification.tags.conforming {
        Some(StarvedFailure::TagsDoNotConform)
    } else {
        None
    }
}

fn exception_fails(exception: &DeliveryException, index: usize) -> (result: Result<
    String,
    StarvedFailure,
>)
    ensures
        match result {
            Ok(field) => exception_failure(*exception, index) is None && field@
                == exception.field->0@,
            Err(failure) => exception_failure(*exception, index) == Some(failure),
        },
{
    if exception.severity != QaSeverity::Error {
        return Err(StarvedFailure::NotAnError { index });
    }
    let field = match &exception.field {
        None => {
            return Err(StarvedFailure::NamesNoField { index });
        },
        Some(field) => field.as_str().to_owned(),
    };
    if !gated(field.as_str()) {
        return Err(StarvedFailure::UnexpectedField { index });
    }
    if exception.observed.is_none() {
        return Err(StarvedFailure::WithoutObserved { index });
    }
    if exception.allowed.is_none() {
        return Err(StarvedFailure::WithoutAllowed { index });
    }
    let message = chars_of(exception.message.as_str());
    if !has_pattern(message.as_slice(), chars_of(STAYS_IN_PLACE).as_slice()) && !has_pattern(
        message.as_slice(),
        chars_of(SIGNAL_TO_NOISE).as_slice(),
    ) {
        return Err(StarvedFailure::MessageIncomplete { index });
    }
    Ok(field)
}

proof fn lemma_failure_stays(exceptions: Seq<DeliveryException>, count: nat, more: nat)
    requires
        count <= more,
        exceptions_failure(exceptions, count) is Some,
    ensures
        exceptions_failure(exceptions, more) == exceptions_failure(exceptions, count),
    decreases more,
{
    if count < more {
        lemma_failure_stays(exceptions, count, (more - 1) as nat);
    }
}

fn tripped_fields(exceptions: &Vec<DeliveryException>) -> (result: Result<
    Vec<String>,
    StarvedFailure,
>)
    ensures
        match exceptions_failure(exceptions@, exceptions@.len()) {
            Some(failure) => result == Err::<Vec<String>, StarvedFailure>(failure),
            None => result is Ok && names_of(result->Ok_0@) == tripped(
                exceptions@,
                exceptions@.len(),
            ),
        },
{
    let mut fields: Vec<String> = Vec::new();
    let mut index: usize = 0;
    assert(names_of(fields@) =~= tripped(exceptions@, 0));
    while index < exceptions.len()
        invariant
            index <= exceptions.len(),
            exceptions_failure(exceptions@, index as nat) is None,
            names_of(fields@) == tripped(exceptions@, index as nat),
        decreases exceptions.len() - index,
    {
        let exception = &exceptions[index];
        if strings_equal(exception.code.as_str(), OVER_BUDGET) {
            match exception_fails(exception, index) {
                Err(failure) => {
                    proof {
                        assert(exceptions_failure(exceptions@, (index + 1) as nat) == Some(failure));
                        lemma_failure_stays(exceptions@, (index + 1) as nat, exceptions@.len());
                    }
                    return Err(failure);
                },
                Ok(field) => {
                    let ghost before = fields@;
                    fields.push(field);
                    assert(names_of(fields@) =~= names_of(before).push(field@));
                },
            }
        }
        index += 1;
    }
    Ok(fields)
}

/// Demands that a starved lane fails as it must, and gives the fields that
/// tripped, in the order of the exceptions.
pub fn assert_starved_bitrate_direction(
    lane: &LaneMeasurement,
    contract: &LaneContract,
    present: bool,
    reprobed: ColorBitDepth,
) -> (result: Result<Vec<String>, StarvedFailure>)
    ensures
        match starved_failure(*lane, *contract, present, reprobed) {
            Some(failure) => result == Err::<Vec<String>, StarvedFailure>(failure),
            None => result is Ok && names_of(result->Ok_0@) == tripped(
                lane.verification.exceptions@,
                lane.verification.exceptions@.len(),
            ),
        },
{
    let verification = &lane.verification;
    if verification.delivery_bit_depth != lane.depth {
        return Err(StarvedFailure::DepthDiffers);
    }
    if !strings_equal(
        verification.decoded_pixel_format.as_str(),
        contract.pixel_format.as_str(),
    ) {
        return Err(StarvedFailure::PixelFormatDiffers);
    }
    if verification.comparison.within_budgets {
        return Err(StarvedFailure::WithinBudgets);
    }
    let fields = match tripped_fields(&verification.exceptions) {
        Ok(fields) => fields,
        Err(failure) => {
            return Err(failure);
        },
    };
    assert(names_of(fields@).len() == fields@.len());
    if fields.len() == 0 {
        return Err(StarvedFailure::NothingTripped);
    }
    if verification.technical_pass {
        return Err(StarvedFailure::TechnicalPass);
    }
    if !strings_equal(verification.output_path.as_str(), lane.output.as_str()) {
        return Err(StarvedFailure::OutputMoved);
    }
    if !present {
        return Err(StarvedFailure::OutputMissing);
    }
    if reprobed != lane.depth.tagged() {
        return Err(StarvedFailure::TaggedDepthDiffers);
    }
    if !verification.tags.conforming {
        return Err(StarvedFailure::TagsDoNotConform);
    }
    Ok(fields)
}

/// Whether an exception on a difference over its budget says everything it
/// must: an error on a budget's field, with what was observed, what is allowed,
/// and that the file stays in its place or that a ratio is meant.
pub open spec fn is_complete(exception: DeliveryException) -> bool {
    &&& exception.severity == QaSeverity::Error
    &&& exception.field is Some
    &&& is_gated(exception.field->0@)
    &&& exception.observed is Some
    &&& exception.allowed is Some
    &&& contains(exception.message@, STAYS_IN_PLACE@) || contains(
        exception.message@,
        SIGNAL_TO_NOISE@,
    )
}

proof fn lemma_exceptions_complete(exceptions: Seq<DeliveryException>, count: nat)
    requires
        count <= exceptions.len(),
    ensures
        exceptions_failure(exceptions, count) is None <==> forall|i: int|
            0 <= i < count && is_over_budget(#[trigger] exceptions[i]) ==> is_complete(
                exceptions[i],
            ),
        tripped(exceptions, count).len() == 0 <==> forall|i: int|
            0 <= i < count ==> !is_over_budget(#[trigger] exceptions[i]),
    decreases count,
{
    if count > 0 {
        lemma_exceptions_complete(exceptions, (count - 1) as nat);
        let last = exceptions[count - 1];
        assert(exception_failure(last, (count - 1) as usize) is None <==> is_complete(last));
    }
}

/// A starved lane shows what it must exactly where it is the lane that was asked
/// for, breaks its budgets with at least one exception and says everything of
/// each, fails, and leaves a well-tagged file in its place.
pub proof fn lemma_starved_passes_exactly(
    lane: LaneMeasurement,
    contract: LaneContract,
    present: bool,
    reprobed: ColorBitDepth,
)
    ensures
        starved_failure(lane, contract, present, reprobed) is None <==> {
            let verification = lane.verification;
            let exceptions = verification.exceptions@;
            &&& verification.delivery_bit_depth == lane.depth
            &&& verification.decoded_pixel_format@ == contract.pixel_format@
            &&& !verification.comparison.within_budgets
            &&& forall|i: int|
                0 <= i < exceptions.len() && is_over_budget(#[trigger] exceptions[i])
                    ==> is_complete(exceptions[i])
            &&& exists|i: int|
                0 <= i < exceptions.len() && is_over_budget(#[trigger] exceptions[i])
            &&& !verification.technical_pass
            &&& verification.output_path@ == lane.output@
            &&& present
            &&& reprobed == tagged_depth(lane.depth)
            &&& verification.tags.conforming
        },
{
    lemma_exceptions_complete(lane.verification.exceptions@, lane.verification.exceptions@.len());
}

/// Where the exceptions say what they must, every field that tripped is one
/// that a budget can name.
pub proof fn lemma_tripped_fields_are_gated(exceptions: Seq<DeliveryException>, count: nat, i: int)
    requires
        count <= exceptions.len() <= usize::MAX,
        exceptions_failure(exceptions, count) is None,
        0 <= i < tripped(exceptions, count).len(),
    ensures
        is_gated(tripped(exceptions, count)[i]),
    decreases count,
{
    let before = tripped(exceptions, (count - 1) as nat);
    if i < before.len() {
        lemma_tripped_fields_are_gated(exceptions, (count - 1) as nat, i);
    }
}

/// No lane passes in both directions: what meets the budgets does not show that
/// a starved encode breaks them, and the reverse.
pub proof fn lemma_directions_exclude_each_other(
    lane: LaneMeasurement,
    contract: LaneContract,
    present: bool,
    reprobed: ColorBitDepth,
)
    ensures
        lane_failure(lane, contract) is Some || starved_failure(lane, contract, present, reprobed)
            is Some,
{
}

/// The fields that a budget can name, by name.
pub proof fn lemma_gated_fields_in_words(field: Seq<char>)
    ensures
        is_gated(field) <==> field == "luma.maximum_code_diff"@ || field
            == "luma.p99_code_diff_millionths"@ || field == "luma.mean_code_diff_millionths"@
            || field == "combined.mean_code_diff_millionths"@ || field == "psnr_db_hundredths"@,
{
    assert(CC6_GATED_BUDGET_FIELDS@[0]@ == "luma.maximum_code_diff"@);
    assert(CC6_GATED_BUDGET_FIELDS@[1]@ == "luma.p99_code_diff_millionths"@);
    assert(CC6_GATED_BUDGET_FIELDS@[2]@ == "luma.mean_code_diff_millionths"@);
    assert(CC6_GATED_BUDGET_FIELDS@[3]@ == "combined.mean_code_diff_millionths"@);
    assert(CC6_GATED_BUDGET_FIELDS@[4]@ == "psnr_db_hundredths"@);
}

/// An exception on a difference over its budget, and what it must say, in the
/// words that it is read by.
pub proof fn lemma_complete_exceptions_in_words(exception: DeliveryException, index: usize)
    ensures
        is_over_budget(exception) <==> exception.code@ == "decoded_difference_over_budget"@,
        exception_failure(exception, index) is None <==> {
            &&& exception.severity is Error
            &&& exception.field matches Some(field)
            &&& is_gated(field@)
            &&& exception.observed is Some
            &&& exception.allowed is Some
            &&& contains(exception.message@, "never moves the file"@) || contains(
                exception.message@,
                "PSNR"@,
            )
        },
        exception_failure(exception, index) matches Some(failure) ==> match failure {
            StarvedFailure::NotAnError { index: at } => at == index && !(
            exception.severity is Error),
            StarvedFailure::NamesNoField { index: at } => at == index && exception.field is None,
            StarvedFailure::UnexpectedField { index: at } => at == index && (
            exception.field matches Some(field) && !is_gated(field@)),
            StarvedFailure::WithoutObserved { index: at } => at == index
                && exception.observed is None,
            StarvedFailure::WithoutAllowed { index: at } => at == index && exception.allowed is None,
            StarvedFailure::MessageIncomplete { index: at } => at == index && !contains(
                exception.message@,
                "PSNR"@,
            ),
            _ => false,
        },
{
}

/// Whether one of the first exceptions is over its budget and names a field.
pub open spec fn is_named_over_budget(
    exceptions: Seq<DeliveryException>,
    count: nat,
    field: Seq<char>,
) -> bool {
    exists|i: int|
        0 <= i < count && (#[trigger] exceptions[i]).code@ == "decoded_difference_over_budget"@
            && exceptions[i].field->0@ == field
}

/// Every field that tripped is the one of an exception over its budget, every
/// such exception's field is among them, and there are as many.
pub proof fn lemma_tripped_fields_are_all(exceptions: Seq<DeliveryException>, count: nat)
    requires
        count <= exceptions.len(),
    ensures
        forall|k: int|
            0 <= k < tripped(exceptions, count).len() ==> is_named_over_budget(
                exceptions,
                count,
                #[trigger] tripped(exceptions, count)[k],
            ),
        forall|i: int|
            0 <= i < count && (#[trigger] exceptions[i]).code@ == "decoded_difference_over_budget"@
                ==> tripped(exceptions, count).contains(exceptions[i].field->0@),
        tripped(exceptions, count).len() == crate::tally::how_many(
            count,
            |i: int| exceptions[i].code@ == "decoded_difference_over_budget"@,
        ),
    decreases count,
{
    if count > 0 {
        let last = (count - 1) as nat;
        lemma_tripped_fields_are_all(exceptions, last);
        let before = tripped(exceptions, last);
        let after = tripped(exceptions, count);
        assert forall|k: int| 0 <= k < after.len() implies is_named_over_budget(
            exceptions,
            count,
            #[trigger] after[k],
        ) by {
            if k < before.len() {
                assert(after[k] == before[k]);
                assert(is_named_over_budget(exceptions, last, before[k]));
                let i = choose|i: int|
                    0 <= i < last && (#[trigger] exceptions[i]).code@
                        == "decoded_difference_over_budget"@ && exceptions[i].field->0@
                        == before[k];
                assert(exceptions[i].code@ == "decoded_difference_over_budget"@);
            } else {
                assert(exceptions[last as int].field->0@ == after[k]);
            }
        }
        assert forall|i: int|
            0 <= i < count && (#[trigger] exceptions[i]).code@
                == "decoded_difference_over_budget"@ implies after.contains(
            exceptions[i].field->0@,
        ) by {
            if i < last {
                let k = choose|k: int|
                    0 <= k < before.len() && before[k] == exceptions[i].field->0@;
                assert(after[k] == exceptions[i].field->0@);
            } else {
                assert(after[before.len() as int] == exceptions[i].field->0@);
            }
        }
    }
}

/// What is named as missing from a starved lane is missing.
pub proof fn lemma_starved_failure_is_true(
    lane: LaneMeasurement,
    contract: LaneContract,
    present: bool,
    reprobed: ColorBitDepth,
)
    requires
        starved_failure(lane, contract, present, reprobed) is Some,
    ensures
        ({
            let failure = starved_failure(lane, contract, present, reprobed)->0;
            let verification = lane.verification;
            &&& verification.delivery_bit_depth != lane.depth ==> failure is DepthDiffers
            &&& failure is DepthDiffers || failure is PixelFormatDiffers || failure
                is WithinBudgets || !verification.comparison.within_budgets
            &&& failure is WithinBudgets ==> verification.comparison.within_budgets
            &&& failure is PixelFormatDiffers ==> verification.decoded_pixel_format@
                != contract.pixel_format@
            &&& failure is TechnicalPass ==> verification.technical_pass
            &&& failure is OutputMoved ==> verification.output_path@ != lane.output@
            &&& failure is OutputMissing ==> !present
            &&& failure is TaggedDepthDiffers ==> (lane.depth is Eight && !(reprobed is Eight)) || (
            lane.depth is Ten && !(reprobed is Ten))
            &&& failure is TagsDoNotConform ==> !verification.tags.conforming
        }),
{
    lemma_exceptions_failures_are_of_exceptions(
        lane.verification.exceptions@,
        lane.verification.exceptions@.len(),
    );
}

proof fn lemma_exceptions_failures_are_of_exceptions(
    exceptions: Seq<DeliveryException>,
    count: nat,
)
    ensures
        exceptions_failure(exceptions, count) matches Some(failure) ==> failure is NotAnError
            || failure is NamesNoField || failure is UnexpectedField || failure is WithoutObserved
            || failure is WithoutAllowed || failure is MessageIncomplete,
    decreases count,
{
    if count > 0 {
        lemma_exceptions_failures_are_of_exceptions(exceptions, (count - 1) as nat);
    }
}

} // verus!
