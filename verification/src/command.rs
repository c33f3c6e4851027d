//! The decisions of one run of the encoder or the decoder, from plain values
//! to plain values: which stream to encode, how to render the symbol, how to
//! load an image, what to print of a payload and how to exit.

use vstd::prelude::*;
use crate::charset::{select_or_validate, selected_mode};
use crate::color::Color;
use crate::encode::{
    image_margin_fits, image_margin_ok, pixels_of, set_version, svg_margin_fits, svg_margin_ok,
    svg_of, terminal_margin_fits, terminal_margin_ok, terminal_of, to_image, to_svg, to_terminal,
    version_of, image_side, Raster,
};
use qrencode::bits::Bits;
use crate::bits::bits_version;
use crate::symbol::{
    construct_outcome, encode_with_error_correction_level, encode_with_mode, holds_bytes,
    is_symbol_stream, QrCode,
};
use crate::types::{Ecc, Mode, QrError, Variant};

verus! {

/// The kinds of output that a symbol is rendered to.
#[derive(Clone, Copy, Debug, PartialEq, Eq, Structural)]
pub enum OutputKind {
    /// Vector markup.
    Vector,
    /// Text of half-block glyphs.
    Terminal,
    /// Pixels, for any raster image format.
    Raster,
}

/// A rendered symbol.
#[derive(Debug)]
pub enum Output {
    Vector(String),
    Terminal(String),
    Raster(Raster),
}

/// The formats that an image is read in.
#[derive(Clone, Copy, Debug, PartialEq, Eq, Structural)]
pub enum InputFormat {
    Bmp,
    Dds,
    Farbfeld,
    Gif,
    Hdr,
    Ico,
    Jpeg,
    OpenExr,
    Png,
    Pnm,
    Qoi,
    Svg,
    Tga,
    Tiff,
    WebP,
}

/// How an image is loaded.
#[derive(Clone, Copy, Debug, PartialEq, Eq, Structural)]
pub enum Loader {
    /// As vector markup, which is drawn first.
    Vector,
    /// As the raster format given.
    Raster(InputFormat),
    /// As the raster format that the content shows.
    Guess,
}

/// How a run ends.
#[derive(Clone, Copy, Debug, PartialEq, Eq, Structural)]
pub enum Outcome {
    /// The run did its work.
    Success,
    /// The arguments do not go together.
    InvalidArguments,
    /// The data cannot be worked on: the payload makes no symbol with the
    /// parameters given, or the image cannot be read as its format.
    DataError,
    /// The format of the image cannot be told, or this build cannot read it.
    Unavailable,
    /// Anything else went wrong.
    Failure,
}

/// Whether the symbol can be rendered to the kind of output with the margin.
pub open spec fn margin_fits(kind: OutputKind, side: int, margin: int) -> bool {
    match kind {
        OutputKind::Vector => svg_margin_fits(side, margin),
        OutputKind::Terminal => terminal_margin_fits(side, margin),
        OutputKind::Raster => image_margin_fits(side, margin),
    }
}

/// Whether an output is the rendering of the symbol to the kind of output.
pub open spec fn is_rendering(
    output: Output,
    code: QrCode,
    kind: OutputKind,
    margin: u32,
    colors: (Color, Color),
) -> bool {
    match kind {
        OutputKind::Vector => output matches Output::Vector(text) && text@ == svg_of(
            code,
            margin,
            colors,
        ),
        OutputKind::Terminal => output matches Output::Terminal(text) && text@ == terminal_of(
            code,
            margin,
        ),
        OutputKind::Raster => {
            &&& output matches Output::Raster(image)
            &&& image.width == image_side(code.spec_version().side(), margin as int)
            &&& image.height == image.width
            &&& image.pixels@ == pixels_of(code, margin, colors)
        },
    }
}

/// Whether a result is what the rendering of the symbol to the kind of output
/// gives: the rendering where the canvas with the margin is within what the
/// machine can hold, and nothing where it is not.
pub open spec fn is_render_result(
    r: Option<Output>,
    code: QrCode,
    kind: OutputKind,
    margin: u32,
    colors: (Color, Color),
) -> bool {
    match r {
        Some(output) => margin_fits(kind, code.spec_version().side(), margin as int)
            && is_rendering(output, code, kind, margin, colors),
        None => !margin_fits(kind, code.spec_version().side(), margin as int),
    }
}

/// Whether two outputs are of one kind and hold the same text, or the same
/// width, height and bytes.
pub open spec fn same_output(first: Output, second: Output) -> bool {
    match first {
        Output::Vector(a) => second matches Output::Vector(b) && a@ == b@,
        Output::Terminal(a) => second matches Output::Terminal(b) && a@ == b@,
        Output::Raster(a) => {
            &&& second matches Output::Raster(b)
            &&& a.width == b.width
            &&& a.height == b.height
            &&& a.pixels@ == b.pixels@
        },
    }
}

/// The loader for an image. Vector markup takes precedence over a format
/// that was asked for; with neither, the content decides.
pub open spec fn loader_for(is_vector: bool, requested: Option<InputFormat>) -> Loader {
    if is_vector {
        Loader::Vector
    } else {
        match requested {
            Some(InputFormat::Svg) => Loader::Vector,
            Some(format) => Loader::Raster(format),
            None => Loader::Guess,
        }
    }
}

/// What is printed of a payload: the payload byte for byte, with nothing
/// added and nothing dropped, whether it is text or not.
pub open spec fn printed(payload: Seq<u8>) -> Seq<u8> {
    payload
}

/// The exit status of a run.
pub open spec fn status_of(outcome: Outcome) -> u8 {
    match outcome {
        Outcome::Success => 0,
        Outcome::InvalidArguments => 2,
        Outcome::DataError => 65,
        Outcome::Unavailable => 69,
        Outcome::Failure => 1,
    }
}

/// How the encoding of the payload of a run ends, where the run names a
/// version: the version number is checked against the variant first, then the
/// mode is selected, then the stream is encoded.
pub open spec fn run_outcome(
    input: Seq<u8>,
    ec_level: Ecc,
    number: i16,
    variant: Variant,
    requested: Option<Mode>,
) -> Result<(), QrError> {
    match version_of(number, variant) {
        None => Err(QrError::InvalidVersion),
        Some(version) => match selected_mode(input, requested) {
            Err(e) => Err(e),
            Ok(mode) => construct_outcome(version, mode, input, ec_level),
        },
    }
}

/// Encodes the payload of a run into the terminated stream of its symbol.
/// With a version number, the symbol has that version in the variant and
/// holds the payload in the mode asked for, or in the byte mode where none is
/// asked for; without one, it has the smallest QR code version that holds the
/// payload in the byte mode.
pub fn encode(
    input: &[u8],
    ec_level: Ecc,
    symbol_version: Option<i16>,
    variant: &Variant,
    mode: Option<Mode>,
) -> (r: Result<Bits, QrError>)
    ensures
        symbol_version matches Some(number) ==> match r {
            Ok(bits) => {
                &&& run_outcome(input@, ec_level, number, *variant, mode) is Ok
                &&& version_of(number, *variant) == Some(bits_version(bits))
                &&& is_symbol_stream(
                    bits,
                    bits_version(bits),
                    selected_mode(input@, mode)->Ok_0,
                    input@,
                    ec_level,
                )
            },
            Err(e) => run_outcome(input@, ec_level, number, *variant, mode) == Err::<(), QrError>(
                e,
            ),
        },
        symbol_version is None ==> match r {
            Ok(bits) => {
                &&& bits_version(bits) is Normal
                &&& holds_bytes(bits_version(bits).number(), input@, ec_level)
                &&& forall|u: int|
                    1 <= u < bits_version(bits).number() ==> !holds_bytes(u, input@, ec_level)
                &&& is_symbol_stream(bits, bits_version(bits), Mode::Byte, input@, ec_level)
            },
            Err(e) => e == QrError::DataTooLong && forall|u: int| !holds_bytes(u, input@, ec_level),
        },
{
    match symbol_version {
        Some(number) => {
            let version = match set_version(number, variant) {
                Ok(version) => version,
                Err(e) => {
                    return Err(e);
                },
            };
            let mode = match select_or_validate(input, mode) {
                Ok(mode) => mode,
                Err(_) => {
                    return Err(QrError::InvalidCharacter);
                },
            };
            encode_with_mode(input, version, mode, ec_level)
        },
        None => encode_with_error_correction_level(input, ec_level),
    }
}

/// Renders the symbol to the kind of output asked for, or to nothing where
/// the canvas with the margin is beyond what the machine can hold.
pub fn render(code: &QrCode, kind: OutputKind, margin: u32, colors: &(Color, Color)) -> (r: Option<
    Output,
>)
    ensures
        is_render_result(r, *code, kind, margin, *colors),
{
    match kind {
        OutputKind::Vector => {
            if svg_margin_ok(code, margin) {
                Some(Output::Vector(to_svg(code, margin, colors)))
            } else {
                None
            }
        },
        OutputKind::Terminal => {
            if terminal_margin_ok(code, margin) {
                Some(Output::Terminal(to_terminal(code, margin)))
            } else {
                None
            }
        },
        OutputKind::Raster => {
            if image_margin_ok(code, margin) {
                Some(Output::Raster(to_image(code, margin, colors)))
            } else {
                None
            }
        },
    }
}

/// Chooses the loader for an image.
pub fn select_loader(is_vector: bool, requested: Option<InputFormat>) -> (r: Loader)
    ensures
        r == loader_for(is_vector, requested),
{
    if is_vector {
        Loader::Vector
    } else {
        match requested {
            Some(InputFormat::Svg) => Loader::Vector,
            Some(format) => Loader::Raster(format),
            None => Loader::Guess,
        }
    }
}

/// The bytes to print for a payload.
pub fn payload_output(payload: &[u8]) -> (r: Vec<u8>)
    ensures
        r@ == printed(payload@),
{
    let mut r: Vec<u8> = Vec::new();
    let n = payload.len();
    let mut i: usize = 0;
    while i < n
        invariant
            n == payload@.len(),
            i <= n,
            r@ == payload@.take(i as int),
        decreases n - i,
    {
        r.push(payload[i]);
        assert(payload@.take(i + 1) =~= payload@.take(i as int).push(payload@[i as int]));
        i += 1;
    }
    assert(payload@.take(n as int) =~= payload@);
    r
}

/// The exit status of a run.
pub fn exit_status(outcome: Outcome) -> (r: u8)
    ensures
        r == status_of(outcome),
{
    match outcome {
        Outcome::Success => 0,
        Outcome::InvalidArguments => 2,
        Outcome::DataError => 65,
        Outcome::Unavailable => 69,
        Outcome::Failure => 1,
    }
}

/// Rendering is repeatable, whatever the margin: two results of rendering
/// one symbol to one kind of output with one margin and one pair of colors
/// are both nothing or are the same output, byte for byte.
pub proof fn lemma_render_is_repeatable(
    first: Option<Output>,
    second: Option<Output>,
    code: QrCode,
    kind: OutputKind,
    margin: u32,
    colors: (Color, Color),
)
    requires
        is_render_result(first, code, kind, margin, colors),
        is_render_result(second, code, kind, margin, colors),
    ensures
        first is None <==> second is None,
        first is Some ==> same_output(first->0, second->0),
{
}

} // verus!
