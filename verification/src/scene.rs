//! The documents that sources are placed in.

use vstd::prelude::*;

use crate::delivery::{ColorBitDepth, ColorDescription, ColorRange, ColorTag};
use crate::effect::{are_effects, Effect};
use crate::grade::{cc6_delivery_grade, delivery_grade};

verus! {

/// A camera of the workflow sources.
#[derive(Debug, Clone, Copy, PartialEq, Eq, Structural)]
pub enum Cc7Camera {
    A,
    B,
    C1,
    C2,
}

/// A workflow source.
#[derive(Debug, Clone, Copy, PartialEq, Eq, Structural)]
pub enum Cc7SourceKind {
    Camera(Cc7Camera),
    Log,
    TrackedShot,
}

/// A workflow scenario.
#[derive(Debug, Clone, Copy, PartialEq, Eq, Structural)]
pub enum Cc7Scenario {
    MixedCamera,
    WhiteBalance,
    LogLike,
    ProductAndSkin,
    CreativeLook,
    TrackedSecondary,
}

/// The sources that a scenario's canonical document sits on, in the order of
/// the timeline.
pub open spec fn source_kinds(scenario: Cc7Scenario) -> Seq<Cc7SourceKind> {
    match scenario {
        Cc7Scenario::MixedCamera => seq![
            Cc7SourceKind::Camera(Cc7Camera::A),
            Cc7SourceKind::Camera(Cc7Camera::B),
        ],
        Cc7Scenario::WhiteBalance => seq![
            Cc7SourceKind::Camera(Cc7Camera::A),
            Cc7SourceKind::Camera(Cc7Camera::C2),
        ],
        Cc7Scenario::LogLike => seq![Cc7SourceKind::Log],
        Cc7Scenario::ProductAndSkin => seq![Cc7SourceKind::Camera(Cc7Camera::A)],
        Cc7Scenario::CreativeLook => seq![Cc7SourceKind::Camera(Cc7Camera::A)],
        Cc7Scenario::TrackedSecondary => seq![Cc7SourceKind::TrackedShot],
    }
}

/// The sources that a scenario's canonical document sits on.
pub fn cc7_scenario_source_kinds(scenario: Cc7Scenario) -> (kinds: Vec<Cc7SourceKind>)
    ensures
        kinds@ == source_kinds(scenario),
{
    match scenario {
        Cc7Scenario::MixedCamera => vec![
            Cc7SourceKind::Camera(Cc7Camera::A),
            Cc7SourceKind::Camera(Cc7Camera::B),
        ],
        Cc7Scenario::WhiteBalance => vec![
            Cc7SourceKind::Camera(Cc7Camera::A),
            Cc7SourceKind::Camera(Cc7Camera::C2),
        ],
        Cc7Scenario::LogLike => vec![Cc7SourceKind::Log],
        Cc7Scenario::ProductAndSkin | Cc7Scenario::CreativeLook => vec![
            Cc7SourceKind::Camera(Cc7Camera::A),
        ],
        Cc7Scenario::TrackedSecondary => vec![Cc7SourceKind::TrackedShot],
    }
}

/// The sources of a match: camera A, and a candidate behind it.
pub fn cc7_two_clip_scene(candidate: Cc7Camera) -> (kinds: Vec<Cc7SourceKind>)
    ensures
        kinds@ == seq![Cc7SourceKind::Camera(Cc7Camera::A), Cc7SourceKind::Camera(candidate)],
{
    vec![Cc7SourceKind::Camera(Cc7Camera::A), Cc7SourceKind::Camera(candidate)]
}

/// The source of a single-clip scene: camera A.
pub fn cc7_camera_a_scene() -> (kinds: Vec<Cc7SourceKind>)
    ensures
        kinds@ == seq![Cc7SourceKind::Camera(Cc7Camera::A)],
{
    vec![Cc7SourceKind::Camera(Cc7Camera::A)]
}

/// The lattice that a scenario's canonical document needs.
#[derive(Debug, Clone, Copy, PartialEq, Eq, Structural)]
pub enum PlanLattice {
    /// None at all.
    Nothing,
    /// The imported inverse of the log curve.
    LogInverse,
    /// The look that is built in.
    WarmLook,
}

/// The lattice that a scenario's canonical document needs.
pub fn cc7_plan_lattice(scenario: Cc7Scenario) -> (lattice: PlanLattice)
    ensures
        lattice is LogInverse <==> scenario is LogLike,
        lattice is WarmLook <==> scenario is CreativeLook,
{
    match scenario {
        Cc7Scenario::LogLike => PlanLattice::LogInverse,
        Cc7Scenario::CreativeLook => PlanLattice::WarmLook,
        _ => PlanLattice::Nothing,
    }
}

/// The frame that a scenario's canonical node is measured at, where a source
/// has so many frames: the first of the second clip where there are two, and
/// the first of all otherwise.
pub open spec fn target_frame(scenario: Cc7Scenario, source_frames: u32) -> int {
    match scenario {
        Cc7Scenario::MixedCamera => source_frames as int,
        Cc7Scenario::WhiteBalance => source_frames as int,
        _ => 0,
    }
}

/// The frame that a scenario's canonical node is measured at.
pub fn cc7_target_frame(scenario: Cc7Scenario, source_frames: u32) -> (frame: i64)
    ensures
        frame == target_frame(scenario, source_frames),
{
    match scenario {
        Cc7Scenario::MixedCamera | Cc7Scenario::WhiteBalance => source_frames as i64,
        _ => 0,
    }
}

/// What was read of a source's file.
#[derive(Debug, Clone, Copy)]
pub struct SceneAsset {
    pub description: ColorDescription,
    pub resolution: Option<(u32, u32)>,
    pub duration: i64,
}

/// Why a source cannot be placed in a document.
#[derive(Debug, Clone, Copy, PartialEq, Eq, Structural)]
pub enum AssetFailure {
    Primaries,
    Transfer,
    Matrix,
    Range,
    BitDepth,
    Resolution,
    Duration,
}

/// What the tags of a source fail: they are those of an eight-bit source with
/// limited range.
pub open spec fn tags_failure(description: ColorDescription) -> Option<AssetFailure> {
    if description.primaries != ColorTag::Bt709 {
        Some(AssetFailure::Primaries)
    } else if description.transfer != ColorTag::Bt709 {
        Some(AssetFailure::Transfer)
    } else if description.matrix != ColorTag::Bt709 {
        Some(AssetFailure::Matrix)
    } else if description.range != ColorRange::Limited {
        Some(AssetFailure::Range)
    } else if description.bit_depth != ColorBitDepth::Eight {
        Some(AssetFailure::BitDepth)
    } else {
        None
    }
}

fn tags_fail(description: &ColorDescription) -> (failure: Option<AssetFailure>)
    ensures
        failure == tags_failure(*description),
{
    if description.primaries != ColorTag::Bt709 {
        Some(AssetFailure::Primaries)
    } else if description.transfer != ColorTag::Bt709 {
        Some(AssetFailure::Transfer)
    } else if description.matrix != ColorTag::Bt709 {
        Some(AssetFailure::Matrix)
    } else if description.range != ColorRange::Limited {
        Some(AssetFailure::Range)
    } else if description.bit_depth != ColorBitDepth::Eight {
        Some(AssetFailure::BitDepth)
    } else {
        None
    }
}

/// Whether a source has a size.
fn has_size(resolution: Option<(u32, u32)>, size: (u32, u32)) -> (equal: bool)
    ensures
        equal == (resolution == Some(size)),
{
    match resolution {
        Some((width, height)) => width == size.0 && height == size.1,
        None => false,
    }
}

/// What a workflow source fails.
pub open spec fn asset_failure(asset: SceneAsset, size: (u32, u32), frames: u32) -> Option<
    AssetFailure,
> {
    if tags_failure(asset.description) is Some {
        tags_failure(asset.description)
    } else if asset.resolution != Some(size) {
        Some(AssetFailure::Resolution)
    } else if asset.duration != frames {
        Some(AssetFailure::Duration)
    } else {
        None
    }
}

fn asset_fails(asset: &SceneAsset, size: (u32, u32), frames: u32) -> (failure: Option<AssetFailure>)
    ensures
        failure == asset_failure(*asset, size, frames),
{
    if let Some(failure) = tags_fail(&asset.description) {
        return Some(failure);
    }
    if !has_size(asset.resolution, size) {
        return Some(AssetFailure::Resolution);
    }
    if asset.duration != frames as i64 {
        return Some(AssetFailure::Duration);
    }
    None
}

/// What the delivery source fails: its duration before its size.
pub open spec fn delivery_asset_failure(asset: SceneAsset, size: (u32, u32), frames: u32) -> Option<
    AssetFailure,
> {
    if tags_failure(asset.description) is Some {
        tags_failure(asset.description)
    } else if asset.duration != frames {
        Some(AssetFailure::Duration)
    } else if asset.resolution != Some(size) {
        Some(AssetFailure::Resolution)
    } else {
        None
    }
}

/// The nodes of the delivery document's clip, where the delivery source is
/// tagged and sized as it was written.
pub fn cc6_delivery_document(asset: &SceneAsset, size: (u32, u32), frames: u32) -> (result: Result<
    Vec<Effect>,
    AssetFailure,
>)
    ensures
        match delivery_asset_failure(*asset, size, frames) {
            Some(failure) => result == Err::<Vec<Effect>, AssetFailure>(failure),
            None => result is Ok && are_effects(result->Ok_0@, delivery_grade()),
        },
{
    if let Some(failure) = tags_fail(&asset.description) {
        return Err(failure);
    }
    if asset.duration != frames as i64 {
        return Err(AssetFailure::Duration);
    }
    if !has_size(asset.resolution, size) {
        return Err(AssetFailure::Resolution);
    }
    Ok(cc6_delivery_grade())
}

/// A clip of one source, whole and at its own speed.
#[derive(Debug, Clone, Copy, PartialEq, Eq, Structural)]
pub struct SceneClip {
    pub id: u64,
    pub asset: u64,
    /// The frame behind the last that the clip shows of its source.
    pub source_end: i64,
    /// The frame of the document that the clip starts at.
    pub timeline_start: i64,
}

/// One track of clips, one behind the other.
#[derive(Debug)]
pub struct Cc7Scene {
    pub clips: Vec<SceneClip>,
    pub duration: i64,
}

/// The sum of the first durations.
pub open spec fn start_of(frames: Seq<u32>, count: int) -> int
    decreases count,
{
    if count <= 0 {
        0
    } else {
        start_of(frames, count - 1) + frames[count - 1]
    }
}

/// The clip of a source at its place in the document.
pub open spec fn clip_of(frames: Seq<u32>, i: int) -> SceneClip {
    SceneClip {
        id: (i + 1) as u64,
        asset: (i + 1) as u64,
        source_end: frames[i] as i64,
        timeline_start: start_of(frames, i) as i64,
    }
}

proof fn lemma_start_of_bound(frames: Seq<u32>, count: int, more: int)
    requires
        0 <= count <= more,
    ensures
        0 <= start_of(frames, count) <= start_of(frames, more),
    decreases more,
{
    if more > 0 {
        if count < more {
            lemma_start_of_bound(frames, count, more - 1);
        } else {
            lemma_start_of_bound(frames, count - 1, more - 1);
        }
    }
}

impl Cc7Scene {
    /// Places sources one behind the other.  The error is the first source that
    /// cannot be placed, and why.
    pub fn over(assets: &[SceneAsset], frames: &[u32], size: (u32, u32)) -> (result: Result<
        Cc7Scene,
        (usize, AssetFailure),
    >)
        requires
            assets@.len() == frames@.len(),
            start_of(frames@, frames@.len() as int) <= i64::MAX,
        ensures
            match result {
                Ok(scene) => {
                    &&& forall|i: int|
                        0 <= i < assets@.len() ==> asset_failure(
                            #[trigger] assets@[i],
                            size,
                            frames@[i],
                        ) is None
                    &&& scene.clips@.len() == frames@.len()
                    &&& forall|i: int|
                        0 <= i < frames@.len() ==> #[trigger] scene.clips@[i] == clip_of(frames@, i)
                    &&& scene.duration == start_of(frames@, frames@.len() as int)
                },
                Err((at, failure)) => {
                    &&& at < assets@.len()
                    &&& asset_failure(assets@[at as int], size, frames@[at as int]) == Some(failure)
                    &&& forall|i: int|
                        0 <= i < at ==> asset_failure(#[trigger] assets@[i], size, frames@[i]) is None
                },
            },
    {
        let mut clips: Vec<SceneClip> = Vec::new();
        let mut timeline_start: i64 = 0;
        let length: usize = assets.len();
        let mut index: usize = 0;
        while index < length
            invariant
                index <= length,
                length == assets@.len(),
                assets@.len() == frames@.len(),
                start_of(frames@, frames@.len() as int) <= i64::MAX,
                timeline_start == start_of(frames@, index as int),
                clips@.len() == index,
                forall|i: int|
                    0 <= i < index ==> asset_failure(#[trigger] assets@[i], size, frames@[i]) is None,
                forall|i: int| 0 <= i < index ==> #[trigger] clips@[i] == clip_of(frames@, i),
            decreases length - index,
        {
            let count: u32 = frames[index];
            if let Some(failure) = asset_fails(&assets[index], size, count) {
                return Err((index, failure));
            }
            proof {
                lemma_start_of_bound(frames@, index + 1, frames@.len() as int);
            }
            let id: u64 = index as u64 + 1;
            clips.push(SceneClip { id, asset: id, source_end: count as i64, timeline_start });
            timeline_start = timeline_start + count as i64;
            index += 1;
        }
        Ok(Cc7Scene { clips, duration: timeline_start })
    }
}

/// A clip starts where the one before it ends, so that no two share a frame and
/// none is left out.
pub proof fn lemma_clips_adjoin(frames: Seq<u32>, i: int)
    requires
        0 <= i,
        i + 1 < frames.len(),
        start_of(frames, frames.len() as int) <= i64::MAX,
    ensures
        clip_of(frames, i + 1).timeline_start == clip_of(frames, i).timeline_start + clip_of(
            frames,
            i,
        ).source_end,
        clip_of(frames, 0).timeline_start == 0,
{
    lemma_start_of_bound(frames, i, frames.len() as int);
    lemma_start_of_bound(frames, i + 1, frames.len() as int);
}

/// A scenario is measured at the first frame of its last clip.
pub proof fn lemma_target_frame_starts_the_last_clip(scenario: Cc7Scenario, frames: Seq<u32>)
    requires
        frames.len() == source_kinds(scenario).len(),
    ensures
        target_frame(scenario, frames[0]) == clip_of(frames, frames.len() - 1).timeline_start,
{
    reveal_with_fuel(start_of, 3);
}

/// Why the settings of a delivery are not those of its document, which keeps
/// declaring eight bits whatever depth is encoded.
#[derive(Debug, Clone, Copy, PartialEq, Eq, Structural)]
pub enum SettingsFailure {
    DeclaredDepth,
    Resolution,
    FramesPerSecond,
}

/// What the settings of a delivery take from a document, or were given.
#[derive(Debug, Clone, Copy)]
pub struct DeliverySettings {
    pub resolution: (u32, u32),
    /// A numerator and a denominator.
    pub fps: (u32, u32),
}

/// What the settings of a delivery fail.
pub open spec fn settings_failure(
    declared: ColorBitDepth,
    document: DeliverySettings,
    settings: DeliverySettings,
) -> Option<SettingsFailure> {
    if declared != ColorBitDepth::Eight {
        Some(SettingsFailure::DeclaredDepth)
    } else if settings.resolution != document.resolution {
        Some(SettingsFailure::Resolution)
    } else if settings.fps != document.fps {
        Some(SettingsFailure::FramesPerSecond)
    } else {
        None
    }
}

/// The settings of a delivery, where they are those of its document.
pub fn cc6_delivery_settings(
    declared: ColorBitDepth,
    document: &DeliverySettings,
    settings: DeliverySettings,
) -> (result: Result<DeliverySettings, SettingsFailure>)
    ensures
        match settings_failure(declared, *document, settings) {
            Some(failure) => result == Err::<DeliverySettings, SettingsFailure>(failure),
            None => result == Ok::<DeliverySettings, SettingsFailure>(settings),
        },
{
    if declared != ColorBitDepth::Eight {
        return Err(SettingsFailure::DeclaredDepth);
    }
    if settings.resolution.0 != document.resolution.0 || settings.resolution.1
        != document.resolution.1 {
        return Err(SettingsFailure::Resolution);
    }
    if settings.fps.0 != document.fps.0 || settings.fps.1 != document.fps.1 {
        return Err(SettingsFailure::FramesPerSecond);
    }
    Ok(settings)
}

/// The sources of each scenario: a match has camera A first and the camera that
/// is matched to it behind it, and every other scenario has one source.
pub proof fn lemma_sources_of_each_scenario(scenario: Cc7Scenario)
    ensures
        scenario is MixedCamera ==> source_kinds(scenario).len() == 2 && source_kinds(scenario)[0]
            == Cc7SourceKind::Camera(Cc7Camera::A) && source_kinds(scenario)[1]
            == Cc7SourceKind::Camera(Cc7Camera::B),
        scenario is WhiteBalance ==> source_kinds(scenario).len() == 2 && source_kinds(scenario)[0]
            == Cc7SourceKind::Camera(Cc7Camera::A) && source_kinds(scenario)[1]
            == Cc7SourceKind::Camera(Cc7Camera::C2),
        scenario is LogLike ==> source_kinds(scenario).len() == 1 && source_kinds(
            scenario,
        )[0] is Log,
        scenario is ProductAndSkin || scenario is CreativeLook ==> source_kinds(scenario).len() == 1
            && source_kinds(scenario)[0] == Cc7SourceKind::Camera(Cc7Camera::A),
        scenario is TrackedSecondary ==> source_kinds(scenario).len() == 1 && source_kinds(
            scenario,
        )[0] is TrackedShot,
{
}

/// A source can be placed exactly where it is tagged as limited-range BT.709 of
/// eight bits and has the size and the duration that are asked for, in either
/// document; and what is named as wrong is.
pub proof fn lemma_assets_exactly(asset: SceneAsset, size: (u32, u32), frames: u32)
    ensures
        asset_failure(asset, size, frames) is None <==> {
            &&& asset.description.primaries is Bt709
            &&& asset.description.transfer is Bt709
            &&& asset.description.matrix is Bt709
            &&& asset.description.range is Limited
            &&& asset.description.bit_depth is Eight
            &&& asset.resolution matches Some(resolution)
            &&& resolution.0 == size.0
            &&& resolution.1 == size.1
            &&& asset.duration == frames
        },
        delivery_asset_failure(asset, size, frames) is None <==> asset_failure(
            asset,
            size,
            frames,
        ) is None,
        asset_failure(asset, size, frames) matches Some(failure) ==> asset_is_wrong(
            asset,
            size,
            frames,
            failure,
        ),
        delivery_asset_failure(asset, size, frames) matches Some(failure) ==> asset_is_wrong(
            asset,
            size,
            frames,
            failure,
        ),
        asset_failure(asset, size, frames) is Some && asset_failure(asset, size, frames)->0
            is Duration ==> asset.resolution == Some(size),
        delivery_asset_failure(asset, size, frames) is Some && delivery_asset_failure(
            asset,
            size,
            frames,
        )->0 is Resolution ==> asset.duration == frames,
{
}

/// What a failure says of a source.
pub open spec fn asset_is_wrong(
    asset: SceneAsset,
    size: (u32, u32),
    frames: u32,
    failure: AssetFailure,
) -> bool {
    match failure {
        AssetFailure::Primaries => !(asset.description.primaries is Bt709),
        AssetFailure::Transfer => !(asset.description.transfer is Bt709),
        AssetFailure::Matrix => !(asset.description.matrix is Bt709),
        AssetFailure::Range => !(asset.description.range is Limited),
        AssetFailure::BitDepth => !(asset.description.bit_depth is Eight),
        AssetFailure::Resolution => asset.resolution != Some(size),
        AssetFailure::Duration => asset.duration != frames,
    }
}

/// The clips of a scene are numbered from one, as their assets are, and show
/// their whole sources; together they last as long as the sources do.
pub proof fn lemma_clips_in_numbers(frames: Seq<u32>, i: int)
    requires
        0 <= i < frames.len() < u64::MAX,
        start_of(frames, frames.len() as int) <= i64::MAX,
    ensures
        clip_of(frames, i).id == i + 1,
        clip_of(frames, i).asset == i + 1,
        clip_of(frames, i).source_end == frames[i],
        start_of(frames, 0) == 0,
        start_of(frames, i + 1) == start_of(frames, i) + frames[i],
        clip_of(frames, frames.len() - 1).timeline_start + clip_of(
            frames,
            frames.len() - 1,
        ).source_end == start_of(frames, frames.len() as int),
{
    lemma_start_of_bound(frames, frames.len() - 1, frames.len() as int);
}

/// The frame of each scenario, in numbers.
pub proof fn lemma_target_frame_in_numbers(scenario: Cc7Scenario, source_frames: u32)
    ensures
        target_frame(scenario, source_frames) == (if scenario is MixedCamera
            || scenario is WhiteBalance {
            source_frames as int
        } else {
            0
        }),
{
}

/// Settings pass exactly where the document declares eight bits and they have
/// its resolution and its frames per second; and what is named as wrong is.
pub proof fn lemma_settings_exactly(
    declared: ColorBitDepth,
    document: DeliverySettings,
    settings: DeliverySettings,
)
    ensures
        settings_failure(declared, document, settings) is None <==> {
            &&& declared is Eight
            &&& settings.resolution.0 == document.resolution.0
            &&& settings.resolution.1 == document.resolution.1
            &&& settings.fps.0 == document.fps.0
            &&& settings.fps.1 == document.fps.1
        },
        settings_failure(declared, document, settings) matches Some(failure) ==> {
            &&& failure is DeclaredDepth <==> !(declared is Eight)
            &&& failure is Resolution ==> settings.resolution != document.resolution
            &&& failure is FramesPerSecond ==> settings.fps != document.fps
        },
{
}

} // verus!
