//! Recipes for generated media: what an encoder is asked to do.

use vstd::prelude::*;

use crate::naming::names_of;
use crate::numbers::{decimal, decimal_text};

verus! {

/// The encoder's arguments for a grey source at the size of the matte raster.
pub const CC5_MATTE_SOURCE_ARGUMENTS: [&'static str; 18] = [
    "-f",
    "lavfi",
    "-i",
    "color=c=gray:size=64x36:rate=25:duration=1",
    "-frames:v",
    "25",
    "-c:v",
    "ffv1",
    "-pix_fmt",
    "yuv444p",
    "-color_primaries",
    "bt709",
    "-color_trc",
    "bt709",
    "-colorspace",
    "bt709",
    "-color_range",
    "tv",
];

/// The encoder's arguments for the tracked shot: a dark background with a white
/// subject on a sinusoidal path.
pub const TRACKING_SOURCE_ARGUMENTS: [&'static str; 26] = [
    "-f",
    "lavfi",
    "-i",
    "color=c=0x303030:s=640x360:r=25",
    "-f",
    "lavfi",
    "-i",
    "color=c=white:s=80x80:r=25",
    "-filter_complex",
    "[0:v][1:v]overlay=x='320+120*sin(2*PI*t/8)-40':y='180+60*sin(2*PI*t/8)-40'",
    "-frames:v",
    "100",
    "-c:v",
    "libx264",
    "-pix_fmt",
    "yuv420p",
    "-color_primaries",
    "bt709",
    "-color_trc",
    "bt709",
    "-colorspace",
    "bt709",
    "-color_range",
    "tv",
    "-x264-params",
    "colorprim=bt709:transfer=bt709:colormatrix=bt709:range=tv",
];

/// A media file to generate.
#[derive(Debug)]
pub struct MediaRecipe {
    pub label: String,
    pub arguments: Vec<&'static str>,
    pub extension: &'static str,
}

fn listed(arguments: &[&'static str]) -> (list: Vec<&'static str>)
    ensures
        list@ == arguments@,
{
    let mut list: Vec<&'static str> = Vec::new();
    let mut i: usize = 0;
    while i < arguments.len()
        invariant
            i <= arguments.len(),
            list@ == arguments@.take(i as int),
        decreases arguments.len() - i,
    {
        list.push(arguments[i]);
        i += 1;
        assert(list@ =~= arguments@.take(i as int));
    }
    assert(arguments@.take(arguments@.len() as int) =~= arguments@);
    list
}

/// A source at the size of the matte raster that decodes to a mid grey.
pub fn cc5_matte_source(label: &str) -> (recipe: MediaRecipe)
    ensures
        recipe.label@ == label@,
        recipe.arguments@ == CC5_MATTE_SOURCE_ARGUMENTS@,
        recipe.extension@ == "mkv"@,
{
    MediaRecipe {
        label: label.to_owned(),
        arguments: listed(CC5_MATTE_SOURCE_ARGUMENTS.as_slice()),
        extension: "mkv",
    }
}

/// The tracked shot.
pub fn tracking_source(label: &str) -> (recipe: MediaRecipe)
    ensures
        recipe.label@ == label@,
        recipe.arguments@ == TRACKING_SOURCE_ARGUMENTS@,
        recipe.extension@ == "mp4"@,
{
    MediaRecipe {
        label: label.to_owned(),
        arguments: listed(TRACKING_SOURCE_ARGUMENTS.as_slice()),
        extension: "mp4",
    }
}

/// The size of a raster as an encoder reads it.
pub open spec fn size_text(width: nat, height: nat) -> Seq<char> {
    decimal(width) + "x"@ + decimal(height)
}

/// The encoder's arguments for a tagged, lossless file of raw frames.
pub open spec fn raw_source_arguments(width: nat, height: nat, fps: nat, path: Seq<char>) -> Seq<
    Seq<char>,
> {
    seq![
        "-f"@,
        "rawvideo"@,
        "-pix_fmt"@,
        "yuv444p"@,
        "-s"@,
        size_text(width, height),
        "-r"@,
        decimal(fps),
        "-i"@,
        path,
        "-vf"@,
        "setparams=range=limited:color_primaries=bt709:color_trc=bt709:colorspace=bt709"@,
        "-c:v"@,
        "ffv1"@,
        "-level"@,
        "3"@,
        "-g"@,
        "1"@,
        "-pix_fmt"@,
        "yuv444p"@,
        "-color_primaries"@,
        "bt709"@,
        "-color_trc"@,
        "bt709"@,
        "-colorspace"@,
        "bt709"@,
        "-color_range"@,
        "tv"@,
    ]
}

/// The encoder's arguments for a tagged, lossless file of raw frames.
pub fn raw_source_recipe(size: (u32, u32), fps: u32, path: &str) -> (arguments: Vec<String>)
    ensures
        names_of(arguments@) == raw_source_arguments(size.0 as nat, size.1 as nat, fps as nat, path@),
{
    let size_argument = decimal_text(size.0 as u64).concat("x").concat(
        decimal_text(size.1 as u64).as_str(),
    );
    let mut arguments: Vec<String> = Vec::new();
    arguments.push("-f".to_owned());
    arguments.push("rawvideo".to_owned());
    arguments.push("-pix_fmt".to_owned());
    arguments.push("yuv444p".to_owned());
    arguments.push("-s".to_owned());
    arguments.push(size_argument);
    arguments.push("-r".to_owned());
    arguments.push(decimal_text(fps as u64));
    arguments.push("-i".to_owned());
    arguments.push(path.to_owned());
    arguments.push("-vf".to_owned());
    arguments.push(
        "setparams=range=limited:color_primaries=bt709:color_trc=bt709:colorspace=bt709".to_owned(),
    );
    arguments.push("-c:v".to_owned());
    arguments.push("ffv1".to_owned());
    arguments.push("-level".to_owned());
    arguments.push("3".to_owned());
    arguments.push("-g".to_owned());
    arguments.push("1".to_owned());
    arguments.push("-pix_fmt".to_owned());
    arguments.push("yuv444p".to_owned());
    arguments.push("-color_primaries".to_owned());
    arguments.push("bt709".to_owned());
    arguments.push("-color_trc".to_owned());
    arguments.push("bt709".to_owned());
    arguments.push("-colorspace".to_owned());
    arguments.push("bt709".to_owned());
    arguments.push("-color_range".to_owned());
    arguments.push("tv".to_owned());
    assert(names_of(arguments@) =~= raw_source_arguments(
        size.0 as nat,
        size.1 as nat,
        fps as nat,
        path@,
    ));
    arguments
}

/// A raw source is asked for by its own size, rate and path, as lossless frames
/// with every sample of the colour differences, tagged as limited-range BT.709
/// on the way in and on the way out.
pub proof fn lemma_raw_source_in_words(width: nat, height: nat, fps: nat, path: Seq<char>)
    ensures
        ({
            let arguments = raw_source_arguments(width, height, fps, path);
            &&& arguments.len() == 28
            &&& arguments[0] == "-f"@ && arguments[1] == "rawvideo"@
            &&& arguments[2] == "-pix_fmt"@ && arguments[3] == "yuv444p"@
            &&& arguments[4] == "-s"@ && arguments[5] == decimal(width) + "x"@ + decimal(height)
            &&& arguments[6] == "-r"@ && arguments[7] == decimal(fps)
            &&& arguments[8] == "-i"@ && arguments[9] == path
            &&& arguments[10] == "-vf"@ && arguments[11]
                == "setparams=range=limited:color_primaries=bt709:color_trc=bt709:colorspace=bt709"@
            &&& arguments[12] == "-c:v"@ && arguments[13] == "ffv1"@
            &&& arguments[14] == "-level"@ && arguments[15] == "3"@
            &&& arguments[16] == "-g"@ && arguments[17] == "1"@
            &&& arguments[18] == "-pix_fmt"@ && arguments[19] == "yuv444p"@
            &&& arguments[20] == "-color_primaries"@ && arguments[21] == "bt709"@
            &&& arguments[22] == "-color_trc"@ && arguments[23] == "bt709"@
            &&& arguments[24] == "-colorspace"@ && arguments[25] == "bt709"@
            &&& arguments[26] == "-color_range"@ && arguments[27] == "tv"@
        }),
{
}

} // verus!
