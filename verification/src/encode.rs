//! The version of a symbol, and the rendering of a symbol as vector markup,
//! as terminal text and as a raster image.

use vstd::prelude::*;
use qrencode::render::svg::Color as Paint;
use qrencode::render::unicode::Dense1x2;
use qrencode::render::Renderer;
use qrencode::types::Color as Module;
use crate::color::{hex_digit, hex_text, Color};
use crate::symbol::QrCode;
use crate::types::{QrError, Variant, Version};

pub use crate::bits::push_data_for_selected_mode;

verus! {

/// The version that a number denotes in a variant, if the number is in range.
pub open spec fn version_of(version: i16, variant: Variant) -> Option<Version> {
    match variant {
        Variant::Normal => if 1 <= version <= 40 {
            Some(Version::Normal(version))
        } else {
            None
        },
        Variant::Micro => if 1 <= version <= 4 {
            Some(Version::Micro(version))
        } else {
            None
        },
    }
}

/// Sets the version: 1 to 40 denote a QR code version, 1 to 4 a Micro QR code
/// version. Any other number is refused with `InvalidVersion`, never clamped.
pub fn set_version(version: i16, variant: &Variant) -> (r: Result<Version, QrError>)
    ensures
        match version_of(version, *variant) {
            Some(v) => r == Ok::<Version, QrError>(v),
            None => r == Err::<Version, QrError>(QrError::InvalidVersion),
        },
{
    match variant {
        Variant::Normal => {
            if 1 <= version && version <= 40 {
                Ok(Version::Normal(version))
            } else {
                Err(QrError::InvalidVersion)
            }
        },
        Variant::Micro => {
            if 1 <= version && version <= 4 {
                Ok(Version::Micro(version))
            } else {
                Err(QrError::InvalidVersion)
            }
        },
    }
}

/// A raster image: rows of pixels from the top, four bytes to a pixel in the
/// order red, green, blue, alpha.
#[derive(Debug)]
pub struct Raster {
    pub width: u32,
    pub height: u32,
    pub pixels: Vec<u8>,
}

/// The number of pixels along the side of a module in a raster image and of
/// units along it in vector markup.
pub const MODULE_PIXELS: u32 = 8;

/// The number of cells along the side of a canvas: the modules of the symbol
/// and the margin on both sides.
pub open spec fn canvas_side(side: int, margin: int) -> int {
    side + 2 * margin
}

/// The number of pixels along the side of the image of a canvas, eight to a
/// cell.
pub open spec fn image_side(side: int, margin: int) -> int {
    canvas_side(side, margin) * 8
}

/// Whether the cell in column `x` of row `y` of the canvas shows a dark
/// module. The cells of the margin show none.
pub open spec fn cell_is_dark(modules: Seq<bool>, side: int, margin: int, x: int, y: int) -> bool {
    &&& margin <= x < margin + side
    &&& margin <= y < margin + side
    &&& modules[(y - margin) * side + (x - margin)]
}

/// One channel of a color, in the order red, green, blue, alpha.
pub open spec fn channel(color: Color, k: int) -> u8 {
    if k == 0 {
        color.red
    } else if k == 1 {
        color.green
    } else if k == 2 {
        color.blue
    } else {
        color.alpha
    }
}

/// The bytes of the raster image of a symbol: every cell of the canvas is a
/// square of eight pixels a side, in the dark color where the cell
/// shows a dark module and in the light color elsewhere.
pub open spec fn raster_pixels(
    modules: Seq<bool>,
    side: int,
    margin: int,
    dark: Color,
    light: Color,
) -> Seq<u8> {
    let width = image_side(side, margin);
    Seq::new(
        (width * width * 4) as nat,
        |i: int|
            {
                let x = (i / 4) % width;
                let y = (i / 4) / width;
                if cell_is_dark(modules, side, margin, x / 8, y / 8) {
                    channel(dark, i % 4)
                } else {
                    channel(light, i % 4)
                }
            },
    )
}

/// The decimal notation of a number.
pub open spec fn decimal(n: nat) -> Seq<char>
    decreases n,
{
    if n < 10 {
        seq![hex_digit(n as int)]
    } else {
        decimal(n / 10).push(hex_digit((n % 10) as int))
    }
}

/// The path of the square that fills the cell in column `x` of row `y`: `M`,
/// the left and the top of the cell in units, `h8v8H`, the left again, `V`
/// and the top again; that is from its upper left corner eight units to the
/// right, eight down, and back.
pub open spec fn svg_square(x: int, y: int) -> Seq<char> {
    seq!['M'] + (decimal((x * 8) as nat) + (seq![' '] + (decimal((y * 8) as nat) + (seq![
        'h',
        '8',
        'v',
        '8',
        'H',
    ] + (decimal((x * 8) as nat) + (seq!['V'] + decimal((y * 8) as nat)))))))
}

/// The paths of the squares of those of the first `n` cells of the canvas,
/// row by row, that show a dark module.
pub open spec fn svg_squares(modules: Seq<bool>, side: int, margin: int, n: nat) -> Seq<char>
    decreases n,
{
    if n == 0 {
        Seq::empty()
    } else {
        let x = (n - 1) % canvas_side(side, margin);
        let y = (n - 1) / canvas_side(side, margin);
        svg_squares(modules, side, margin, (n - 1) as nat) + if cell_is_dark(
            modules,
            side,
            margin,
            x,
            y,
        ) {
            svg_square(x, y)
        } else {
            Seq::empty()
        }
    }
}

/// The vector markup of a symbol: an SVG document of eight units to a cell,
/// with one rectangle in the light color over the whole canvas and one path
/// in the dark color of a square for every dark module.
pub open spec fn svg_markup(
    modules: Seq<bool>,
    side: int,
    margin: int,
    dark: Seq<char>,
    light: Seq<char>,
) -> Seq<char> {
    let width = decimal(image_side(side, margin) as nat);
    let cells = canvas_side(side, margin);
    "<?xml version=\"1.0\" standalone=\"yes\"?><svg xmlns=\"http://www.w3.org/2000/svg\" version=\"1.1\" width=\""@
        + width + "\" height=\""@ + width + "\" viewBox=\"0 0 "@ + width + " "@ + width
        + "\" shape-rendering=\"crispEdges\"><rect x=\"0\" y=\"0\" width=\""@ + width
        + "\" height=\""@ + width + "\" fill=\""@ + light + "\"/><path fill=\""@ + dark
        + "\" d=\""@ + svg_squares(modules, side, margin, (cells * cells) as nat)
        + "\"/></svg>"@
}

/// The glyph for two cells of the canvas, one above the other. A terminal
/// shows light text on a dark ground, so a light cell is drawn and a dark
/// cell is left empty.
pub open spec fn glyph(upper_dark: bool, lower_dark: bool) -> char {
    if upper_dark {
        if lower_dark {
            ' '
        } else {
            '\u{2584}'
        }
    } else {
        if lower_dark {
            '\u{2580}'
        } else {
            '\u{2588}'
        }
    }
}

/// The glyph in column `x` of line `row` of the terminal text. The line
/// shows the rows `2 * row` and `2 * row + 1` of the canvas; below the last
/// row of the canvas nothing is drawn.
pub open spec fn terminal_glyph(modules: Seq<bool>, side: int, margin: int, x: int, row: int)
    -> char {
    glyph(
        cell_is_dark(modules, side, margin, x, 2 * row),
        2 * row + 1 >= canvas_side(side, margin) || cell_is_dark(
            modules,
            side,
            margin,
            x,
            2 * row + 1,
        ),
    )
}

/// The terminal text of a symbol: a line for every two rows of the canvas,
/// a glyph for every column, a line feed between the lines.
pub open spec fn terminal_text(modules: Seq<bool>, side: int, margin: int) -> Seq<char> {
    let cells = canvas_side(side, margin);
    let lines = (cells + 1) / 2;
    Seq::new(
        (lines * (cells + 1) - 1) as nat,
        |i: int|
            if i % (cells + 1) == cells {
                '\n'
            } else {
                terminal_glyph(modules, side, margin, i % (cells + 1), i / (cells + 1))
            },
    )
}

/// Whether the vector markup can be drawn with the margin: its width in
/// module pixels fits 32 bits.
pub open spec fn svg_margin_fits(side: int, margin: int) -> bool {
    image_side(side, margin) <= u32::MAX
}

/// Whether the terminal text can be drawn with the margin: the number of
/// its cells fits 32 bits.
pub open spec fn terminal_margin_fits(side: int, margin: int) -> bool {
    canvas_side(side, margin) <= 0xffff
}

/// The longest side in pixels of a raster image whose bytes, four to a
/// pixel, can be addressed.
pub open spec fn image_side_limit() -> int {
    if usize::MAX <= 0xffff_ffff {
        0x7fff
    } else {
        0x7fff_ffff
    }
}

/// Whether the raster image can be drawn with the margin: its width fits 32
/// bits and the number of its bytes fits the address space.
pub open spec fn image_margin_fits(side: int, margin: int) -> bool {
    image_side(side, margin) <= image_side_limit()
}

/// `Renderer::<svg::Color>::new`, its `dark_color`, `light_color` and
/// `build`: the opening of an SVG document of the canvas' width and height,
/// eight units to a cell, with a rectangle in the light color; a path in the
/// dark color to which every dark module, row by row, adds a square; and the
/// closing. The two colors are written as the texts given. The renderer
/// takes as many modules as the side squared and computes the width in 32
/// bits.
#[verifier::external_body]
fn render_svg(modules: &Vec<bool>, side: usize, margin: u32, dark: &str, light: &str) -> (r: String)
    requires
        modules@.len() == side * side,
        1 <= side <= 177,
        svg_margin_fits(side as int, margin as int),
    ensures
        r@ == svg_markup(modules@, side as int, margin as int, dark@, light@),
{
    let cells: Vec<Module> = modules.iter().map(|d| if *d { Module::Dark } else { Module::Light }).collect();
    Renderer::<Paint<'_>>::new(&cells, side, margin)
        .dark_color(Paint(dark))
        .light_color(Paint(light))
        .build()
}

/// `Renderer::<unicode::Dense1x2>::new`, its `dark_color`, `light_color` and
/// `build`, with the glyphs of the two colors exchanged: a canvas of one
/// value to a cell, light at first, every dark module drawn over it; then a
/// line for every two rows, a half-block glyph for every column, the lines
/// joined by line feeds. The renderer takes as many modules as the side
/// squared, computes the number of cells in 32 bits, and cuts the canvas
/// into rows, which a canvas without a cell does not allow; `requires`
/// leaves out the symbol without a module.
#[verifier::external_body]
fn render_terminal(modules: &Vec<bool>, side: usize, margin: u32) -> (r: String)
    requires
        modules@.len() == side * side,
        1 <= side <= 177,
        terminal_margin_fits(side as int, margin as int),
    ensures
        r@ == terminal_text(modules@, side as int, margin as int),
{
    let cells: Vec<Module> = modules.iter().map(|d| if *d { Module::Dark } else { Module::Light }).collect();
    Renderer::<Dense1x2>::new(&cells, side, margin)
        .dark_color(Dense1x2::Light)
        .light_color(Dense1x2::Dark)
        .build()
}

/// `Renderer::<image::Rgba<u8>>::new`, its `dark_color`, `light_color` and
/// `build`, then `ImageBuffer::into_raw`: the bytes of an image whose side is
/// that of the canvas times eight pixels, filled with the light color, every
/// dark module drawn over it as a square in the dark color. The renderer
/// takes as many modules as the side squared and computes the width in 32
/// bits; the image buffer takes a byte count that fits `usize`.
#[verifier::external_body]
fn render_pixels(modules: &Vec<bool>, side: usize, margin: u32, dark: Color, light: Color) -> (r:
    Vec<u8>)
    requires
        modules@.len() == side * side,
        1 <= side <= 177,
        image_margin_fits(side as int, margin as int),
    ensures
        r@ == raster_pixels(modules@, side as int, margin as int, dark, light),
{
    let cells: Vec<Module> = modules.iter().map(|d| if *d { Module::Dark } else { Module::Light }).collect();
    Renderer::<image::Rgba<u8>>::new(&cells, side, margin)
        .dark_color(image::Rgba([dark.red, dark.green, dark.blue, dark.alpha]))
        .light_color(image::Rgba([light.red, light.green, light.blue, light.alpha]))
        .build()
        .into_raw()
}

/// The vector markup of a symbol over its own modules.
pub open spec fn svg_of(code: QrCode, margin: u32, colors: (Color, Color)) -> Seq<char> {
    svg_markup(
        code.modules(),
        code.spec_version().side(),
        margin as int,
        hex_text(colors.0),
        hex_text(colors.1),
    )
}

/// The terminal text of a symbol over its own modules.
pub open spec fn terminal_of(code: QrCode, margin: u32) -> Seq<char> {
    terminal_text(code.modules(), code.spec_version().side(), margin as int)
}

/// The bytes of the raster image of a symbol over its own modules.
pub open spec fn pixels_of(code: QrCode, margin: u32, colors: (Color, Color)) -> Seq<u8> {
    raster_pixels(code.modules(), code.spec_version().side(), margin as int, colors.0, colors.1)
}

/// Tests whether the vector markup of the symbol can be drawn with the margin.
pub fn svg_margin_ok(code: &QrCode, margin: u32) -> (r: bool)
    ensures
        r == svg_margin_fits(code.spec_version().side(), margin as int),
{
    let cells = code.width() as u64 + 2 * (margin as u64);
    cells * 8 <= u32::MAX as u64
}

/// Tests whether the terminal text of the symbol can be drawn with the margin.
pub fn terminal_margin_ok(code: &QrCode, margin: u32) -> (r: bool)
    ensures
        r == terminal_margin_fits(code.spec_version().side(), margin as int),
{
    code.width() as u64 + 2 * (margin as u64) <= 0xffff
}

/// Tests whether the raster image of the symbol can be drawn with the margin.
pub fn image_margin_ok(code: &QrCode, margin: u32) -> (r: bool)
    ensures
        r == image_margin_fits(code.spec_version().side(), margin as int),
{
    let cells = code.width() as u64 + 2 * (margin as u64);
    let limit: u64 = if usize::MAX as u64 <= 0xffff_ffff {
        0x7fff
    } else {
        0x7fff_ffff
    };
    cells * 8 <= limit
}

/// Renders the QR code into an image.
///
/// The result is an SVG document, the dark and the light color written in
/// hexadecimal notation.
pub fn to_svg(code: &QrCode, margin: u32, colors: &(Color, Color)) -> (r: String)
    requires
        svg_margin_fits(code.spec_version().side(), margin as int),
    ensures
        r@ == svg_of(*code, margin, *colors),
{
    let side = code.width();
    let modules = code.to_colors();
    let dark = colors.0.to_hex_string();
    let light = colors.1.to_hex_string();
    render_svg(&modules, side, margin, dark.as_str(), light.as_str())
}

/// Renders the QR code into the terminal as UTF-8 string.
pub fn to_terminal(code: &QrCode, margin: u32) -> (r: String)
    requires
        terminal_margin_fits(code.spec_version().side(), margin as int),
    ensures
        r@ == terminal_of(*code, margin),
{
    let side = code.width();
    let modules = code.to_colors();
    render_terminal(&modules, side, margin)
}

/// Renders the QR code into an image.
///
/// The result is a raster of four channels, `MODULE_PIXELS` pixels to the
/// side of a module.
pub fn to_image(code: &QrCode, margin: u32, colors: &(Color, Color)) -> (r: Raster)
    requires
        image_margin_fits(code.spec_version().side(), margin as int),
    ensures
        r.width == image_side(code.spec_version().side(), margin as int),
        r.height == r.width,
        r.pixels@ == pixels_of(*code, margin, *colors),
{
    let side = code.width();
    let modules = code.to_colors();
    let width = (side as u32 + 2 * margin) * 8;
    let pixels = render_pixels(&modules, side, margin, colors.0, colors.1);
    Raster { width, height: width, pixels }
}

/// Rendering is repeatable: two symbols of the same version and modules,
/// rendered with the same margin and colors, give the same output of every
/// kind.
pub proof fn lemma_rendering_is_repeatable(
    first: QrCode,
    second: QrCode,
    margin: u32,
    colors: (Color, Color),
)
    requires
        first.spec_version() == second.spec_version(),
        first.modules() == second.modules(),
    ensures
        svg_of(first, margin, colors) == svg_of(second, margin, colors),
        terminal_of(first, margin) == terminal_of(second, margin),
        pixels_of(first, margin, colors) == pixels_of(second, margin, colors),
{
}

/// Every pixel of the raster image has the dark color where its cell shows a
/// dark module, and the light color elsewhere, the margin included.
pub proof fn lemma_raster_pixel(
    modules: Seq<bool>,
    side: int,
    margin: int,
    dark: Color,
    light: Color,
    x: int,
    y: int,
    k: int,
)
    requires
        0 < side,
        0 <= margin,
        0 <= x < image_side(side, margin),
        0 <= y < image_side(side, margin),
        0 <= k < 4,
    ensures
        0 <= (y * image_side(side, margin) + x) * 4 + k < raster_pixels(
            modules,
            side,
            margin,
            dark,
            light,
        ).len(),
        raster_pixels(modules, side, margin, dark, light)[(y * image_side(side, margin) + x) * 4
            + k] == channel(
            if cell_is_dark(modules, side, margin, x / 8, y / 8) {
                dark
            } else {
                light
            },
            k,
        ),
{
    let width = image_side(side, margin);
    let p = y * width + x;
    let i = p * 4 + k;
    assert(0 <= p < width * width) by (nonlinear_arith)
        requires
            0 <= x < width,
            0 <= y < width,
            p == y * width + x,
    ;
    assert(i / 4 == p && i % 4 == k);
    assert(p % width == x && p / width == y) by (nonlinear_arith)
        requires
            0 <= x < width,
            0 <= y,
            p == y * width + x,
    ;
    assert(0 <= i < width * width * 4);
}

/// Every line of the terminal text that lies in the margin above the symbol
/// is light.
pub proof fn lemma_terminal_margin_is_light(modules: Seq<bool>, side: int, margin: int, x: int, row: int)
    requires
        0 < side,
        0 <= 2 * row + 1 < margin,
    ensures
        terminal_glyph(modules, side, margin, x, row) == '\u{2588}',
{
}

/// A terminal text that can be drawn has a number of cells that fits 32
/// bits, and no wider one has.
pub proof fn lemma_terminal_cells_fit(side: int, margin: int)
    requires
        0 <= canvas_side(side, margin),
    ensures
        terminal_margin_fits(side, margin) <==> canvas_side(side, margin) * canvas_side(
            side,
            margin,
        ) <= u32::MAX,
{
    let cells = canvas_side(side, margin);
    if cells <= 0xffff {
        assert(cells * cells <= 0xffff * 0xffff) by (nonlinear_arith)
            requires
                0 <= cells <= 0xffff,
        ;
    } else {
        assert(cells * cells >= 0x10000 * 0x10000) by (nonlinear_arith)
            requires
                cells >= 0x10000,
        ;
    }
}

/// A raster image that can be drawn has a width that fits 32 bits and a
/// number of bytes that fits the address space, and no wider one has.
pub proof fn lemma_image_bytes_fit(side: int, margin: int)
    requires
        0 <= canvas_side(side, margin),
    ensures
        image_margin_fits(side, margin) <==> {
            let width = image_side(side, margin);
            width <= u32::MAX && width * width * 4 <= usize::MAX
        },
{
    let width = image_side(side, margin);
    let limit = image_side_limit();
    assert(usize::MAX == 0xffff_ffff || usize::MAX == 0xffff_ffff_ffff_ffff);
    if width <= limit {
        assert(width * width * 4 <= limit * limit * 4) by (nonlinear_arith)
            requires
                0 <= width <= limit,
        ;
    } else {
        assert(width * width * 4 >= (limit + 1) * (limit + 1) * 4) by (nonlinear_arith)
            requires
                width >= limit + 1,
                limit >= 0,
        ;
    }
}

/// The raster image shows the modules: two symbols of one side whose images
/// with one margin and one pair of different colors are the same bytes have
/// the same modules.
pub proof fn lemma_raster_shows_the_modules(
    first: Seq<bool>,
    second: Seq<bool>,
    side: int,
    margin: int,
    dark: Color,
    light: Color,
)
    requires
        0 < side,
        0 <= margin,
        first.len() == side * side,
        second.len() == side * side,
        dark != light,
        raster_pixels(first, side, margin, dark, light) == raster_pixels(
            second,
            side,
            margin,
            dark,
            light,
        ),
    ensures
        first == second,
{
    let k: int = if dark.red != light.red {
        0
    } else if dark.green != light.green {
        1
    } else if dark.blue != light.blue {
        2
    } else {
        3
    };
    assert(channel(dark, k) != channel(light, k));
    assert forall|i: int| 0 <= i < first.len() implies first[i] == second[i] by {
        let column = i % side;
        let row = i / side;
        assert(0 <= row < side && i == row * side + column) by (nonlinear_arith)
            requires
                0 <= i < side * side,
                0 < side,
                column == i % side,
                row == i / side,
        ;
        let x = (column + margin) * 8;
        let y = (row + margin) * 8;
        assert(x / 8 == column + margin && y / 8 == row + margin);
        lemma_raster_pixel(first, side, margin, dark, light, x, y, k);
        lemma_raster_pixel(second, side, margin, dark, light, x, y, k);
        assert(cell_is_dark(first, side, margin, column + margin, row + margin) == first[i]);
        assert(cell_is_dark(second, side, margin, column + margin, row + margin) == second[i]);
    }
    assert(first =~= second);
}

/// The terminal text shows the modules: two symbols of one side whose texts
/// with one margin are the same have the same modules.
pub proof fn lemma_terminal_shows_the_modules(
    first: Seq<bool>,
    second: Seq<bool>,
    side: int,
    margin: int,
)
    requires
        0 < side,
        0 <= margin,
        first.len() == side * side,
        second.len() == side * side,
        terminal_text(first, side, margin) == terminal_text(second, side, margin),
    ensures
        first == second,
{
    let cells = canvas_side(side, margin);
    let lines = (cells + 1) / 2;
    assert forall|i: int| 0 <= i < first.len() implies first[i] == second[i] by {
        let column = i % side;
        let row = i / side;
        assert(0 <= row < side && i == row * side + column) by (nonlinear_arith)
            requires
                0 <= i < side * side,
                0 < side,
                column == i % side,
                row == i / side,
        ;
        let x = column + margin;
        let y = row + margin;
        let line = y / 2;
        let at = line * (cells + 1) + x;
        assert(at % (cells + 1) == x && at / (cells + 1) == line) by (nonlinear_arith)
            requires
                0 <= x < cells + 1,
                0 <= line,
                at == line * (cells + 1) + x,
        ;
        assert(0 <= at < lines * (cells + 1) - 1) by (nonlinear_arith)
            requires
                0 <= x < cells,
                0 <= line < lines,
                at == line * (cells + 1) + x,
        ;
        assert(terminal_text(first, side, margin)[at] == terminal_glyph(
            first,
            side,
            margin,
            x,
            line,
        ));
        assert(terminal_text(second, side, margin)[at] == terminal_glyph(
            second,
            side,
            margin,
            x,
            line,
        ));
        assert(cell_is_dark(first, side, margin, x, y) == first[i]);
        assert(cell_is_dark(second, side, margin, x, y) == second[i]);
    }
    assert(first =~= second);
}

} // verus!
