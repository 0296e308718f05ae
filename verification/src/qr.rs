//! QR symbols for the codes on a receipt, module by module and dot by dot.

use vstd::prelude::*;
use vstd::arithmetic::div_mod::lemma_multiply_divide_lt;
use qrcode::types::QrError;
use qrcode::Color;
use qrcode::QrCode;

verus! {

/// Modules a side of the smallest QR symbol.
pub const MIN_SYMBOL_WIDTH: usize = 21;

/// Modules a side of the largest QR symbol.
pub const MAX_SYMBOL_WIDTH: usize = 177;

/// Most dots a side that a module is drawn with.
pub const MAX_MODULE_DOTS: usize = 8;

/// Why no QR symbol could be made for a payload.
#[derive(Debug, Clone, Copy, PartialEq, Eq, Structural)]
pub enum QrFailure {
    DataTooLong,
    InvalidVersion,
    UnsupportedCharacterSet,
    InvalidEciDesignator,
    InvalidCharacter,
}

/// A square bitmap of a QR symbol: `side` rows of `side` dots, `true` for
/// dark.
#[derive(Debug, Clone, PartialEq, Eq)]
pub struct QrImage {
    pub side: usize,
    pub pixels: Vec<bool>,
}

/// The smallest QR symbol of medium error correction that holds the
/// payload: its width in modules and its modules row by row, `true` for
/// dark; or why there is none.
pub uninterp spec fn qr_symbol(data: Seq<u8>) -> Result<(nat, Seq<bool>), QrFailure>;

/// Calls `qrcode`'s `QrCode::new` and reads the symbol off with `width` and
/// `to_colors`. Trusted: the outcome is a function of the payload alone, and
/// a symbol is a square of 21 to 177 modules a side.
#[verifier::external_body]
pub(crate) fn encode_symbol(data: &[u8]) -> (symbol: Result<(usize, Vec<bool>), QrFailure>)
    ensures
        match symbol {
            Ok((width, modules)) => {
                &&& qr_symbol(data@) == Ok::<(nat, Seq<bool>), QrFailure>((width as nat, modules@))
                &&& MIN_SYMBOL_WIDTH <= width <= MAX_SYMBOL_WIDTH
                &&& modules@.len() == width * width
            },
            Err(failure) => qr_symbol(data@) == Err::<(nat, Seq<bool>), QrFailure>(failure),
        },
{
    match QrCode::new(data) {
        Ok(code) => Ok((code.width(), code.to_colors().into_iter().map(|c| c == Color::Dark).collect())),
        Err(QrError::DataTooLong) => Err(QrFailure::DataTooLong),
        Err(QrError::InvalidVersion) => Err(QrFailure::InvalidVersion),
        Err(QrError::UnsupportedCharacterSet) => Err(QrFailure::UnsupportedCharacterSet),
        Err(QrError::InvalidEciDesignator) => Err(QrFailure::InvalidEciDesignator),
        Err(QrError::InvalidCharacter) => Err(QrFailure::InvalidCharacter),
    }
}

/// Dots a side that a module of the given size is drawn with: the size,
/// held to 1..=8.
pub open spec fn module_dots(size: nat) -> nat {
    if size < 1 {
        1
    } else if size > 8 {
        8
    } else {
        size
    }
}

/// The bitmap of a symbol of `width` modules a side with `scale` dots a
/// side to the module: dot `(x, y)` has the colour of module
/// `(x / scale, y / scale)`.
pub open spec fn scaled(modules: Seq<bool>, width: nat, scale: nat) -> Seq<bool> {
    let side = (width * scale) as int;
    Seq::new(
        (side * side) as nat,
        |k: int| modules[((k / side) / (scale as int)) * width + (k % side) / (scale as int)],
    )
}

/// Dots a side that a module of the given size is drawn with.
pub fn dots_per_module(size: usize) -> (dots: usize)
    ensures
        dots == module_dots(size as nat),
{
    if size < 1 {
        1
    } else if size > MAX_MODULE_DOTS {
        MAX_MODULE_DOTS
    } else {
        size
    }
}

/// Draws a symbol of `width` modules a side with `scale` dots a side to
/// the module.
pub fn scale_modules(modules: &[bool], width: usize, scale: usize) -> (pixels: Vec<bool>)
    requires
        modules@.len() == width * width,
        scale >= 1,
        (width * scale) * (width * scale) <= usize::MAX,
    ensures
        pixels@ == scaled(modules@, width as nat, scale as nat),
{
    assert(width * scale <= (width * scale) * (width * scale)) by (nonlinear_arith)
        requires
            width * scale >= 0,
    ;
    let side: usize = width * scale;
    let total: usize = side * side;
    let count: usize = modules.len();
    let mut pixels: Vec<bool> = Vec::new();
    let mut k: usize = 0;
    while k < total
        invariant
            k <= total,
            count == width * width,
            total == side * side,
            side == width * scale,
            scale >= 1,
            modules@.len() == width * width,
            pixels@.len() == k,
            forall|j: int| 0 <= j < k ==> pixels@[j] == scaled(modules@, width as nat, scale as nat)[j],
        decreases total - k,
    {
        assert(side > 0) by (nonlinear_arith)
            requires
                k < side * side,
                side >= 0,
        ;
        let y: usize = k / side;
        let x: usize = k % side;
        proof {
            lemma_multiply_divide_lt(k as int, side as int, side as int);
            assert(side as int == (scale as int) * (width as int)) by (nonlinear_arith)
                requires
                    side == width * scale,
            ;
            lemma_multiply_divide_lt(y as int, scale as int, width as int);
            lemma_multiply_divide_lt(x as int, scale as int, width as int);
            assert((y / scale) * width + x / scale < width * width && (y / scale) * width <= width
                * width) by (nonlinear_arith)
                requires
                    y / scale < width,
                    x / scale < width,
                    0 <= y / scale,
                    0 <= x / scale,
            ;
        }
        pixels.push(modules[(y / scale) * width + x / scale]);
        k = k + 1;
    }
    assert(pixels@ =~= scaled(modules@, width as nat, scale as nat));
    pixels
}

/// The bitmap that a QR element of the given payload and module size is
/// drawn as, or why the payload has no symbol.
pub open spec fn qr_bitmap(data: Seq<u8>, size: nat) -> Result<(nat, Seq<bool>), QrFailure> {
    match qr_symbol(data) {
        Ok((width, modules)) => Ok((width * module_dots(size), scaled(modules, width, module_dots(size)))),
        Err(failure) => Err(failure),
    }
}

/// Draws the QR code of a payload with modules of the given size, at most
/// 8 dots a side.
pub fn render_symbol(data: &[u8], size: usize) -> (image: Result<QrImage, QrFailure>)
    ensures
        match image {
            Ok(drawn) => qr_bitmap(data@, size as nat) == Ok::<
                (nat, Seq<bool>),
                QrFailure,
            >((drawn.side as nat, drawn.pixels@)),
            Err(failure) => qr_bitmap(data@, size as nat) == Err::<
                (nat, Seq<bool>),
                QrFailure,
            >(failure),
        },
{
    match encode_symbol(data) {
        Ok((width, modules)) => {
            let scale: usize = dots_per_module(size);
            assert((width * scale) * (width * scale) <= 2005056) by (nonlinear_arith)
                requires
                    width <= 177,
                    scale <= 8,
            ;
            assert(width * scale <= 1416) by (nonlinear_arith)
                requires
                    width <= 177,
                    scale <= 8,
            ;
            let pixels = scale_modules(modules.as_slice(), width, scale);
            Ok(QrImage { side: width * scale, pixels })
        },
        Err(failure) => Err(failure),
    }
}

} // verus!
