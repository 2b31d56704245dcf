//! Tray icons as raw RGBA pixels.
use vstd::prelude::*;
use vstd::string::*;
use crate::error::Error;
use crate::text::{decimal, push_decimal};

verus! {

/// A tray icon stored as raw, non-premultiplied RGBA8 pixels in row-major order
/// (`[r, g, b, a, r, g, b, a, ...]`, top row first).
///
/// Every icon holds exactly `width * height * 4` bytes, and at least one pixel.
#[derive(Debug)]
pub struct Icon {
    width: u32,
    height: u32,
    rgba: Vec<u8>,
}

/// The content of an [`Icon`].
pub struct IconView {
    pub width: u32,
    pub height: u32,
    pub rgba: Seq<u8>,
}

/// Whether `width` x `height` RGBA pixels take exactly `len` bytes, with at
/// least one pixel.
pub open spec fn rgba_fits(width: u32, height: u32, len: nat) -> bool {
    &&& width * height * 4 == len
    &&& len > 0
}

/// An icon's buffer fits exactly when it holds four bytes for each of the
/// `width * height` pixels, and there is at least one pixel: a longer or
/// shorter buffer never fits.
pub proof fn lemma_rgba_fits_exact(width: u32, height: u32, len: nat)
    ensures
        rgba_fits(width, height, len) <==> (len == width * height * 4 && width > 0 && height > 0),
{
    if width > 0 && height > 0 {
        assert(width * height > 0) by (nonlinear_arith)
            requires
                width > 0,
                height > 0,
        ;
    } else {
        assert(width * height == 0) by (nonlinear_arith)
            requires
                width == 0 || height == 0,
        ;
    }
}

/// The text of the error returned for a buffer of the wrong size.
pub open spec fn size_mismatch_text(len: nat, width: u32, height: u32) -> Seq<char> {
    "icon data is "@ + decimal(len) + " bytes but "@ + decimal(width as nat) + "x"@
        + decimal(height as nat) + " RGBA needs "@ + decimal((width * height * 4) as nat)
}

/// The debug text of an icon: its size and byte count, not the pixels.
pub open spec fn icon_debug_text(width: u32, height: u32, bytes: nat) -> Seq<char> {
    "Icon { width: "@ + decimal(width as nat) + ", height: "@ + decimal(height as nat)
        + ", bytes: "@ + decimal(bytes) + " }"@
}

impl View for Icon {
    type V = IconView;

    closed spec fn view(&self) -> IconView {
        IconView { width: self.width, height: self.height, rgba: self.rgba@ }
    }
}

impl Icon {
    #[verifier::type_invariant]
    closed spec fn well_formed(self) -> bool {
        rgba_fits(self.width, self.height, self.rgba@.len())
    }

    /// Builds an icon from raw RGBA8 pixels.
    ///
    /// `rgba` must be exactly `width * height * 4` bytes and non-empty,
    /// otherwise [`Error::Backend`] is returned.
    pub fn from_rgba(width: u32, height: u32, rgba: Vec<u8>) -> (r: Result<Icon, Error>)
        ensures
            r is Ok <==> rgba_fits(width, height, rgba@.len()),
            r is Ok <==> (rgba@.len() == width * height * 4 && rgba@.len() > 0),
            r matches Ok(icon) ==> icon@ == (IconView { width, height, rgba: rgba@ }),
            r matches Err(e) ==> e matches Error::Backend(msg) && msg@ == size_mismatch_text(
                rgba@.len(),
                width,
                height,
            ),
    {
        let expected = (width as usize).checked_mul(height as usize);
        let expected = match expected {
            Some(pixels) => pixels.checked_mul(4),
            None => None,
        };
        match expected {
            Some(n) if n != 0 && n == rgba.len() => Ok(Icon { width, height, rgba }),
            _ => {
                let mut msg = String::from_str("icon data is ");
                push_decimal(&mut msg, rgba.len() as u128);
                msg.append(" bytes but ");
                push_decimal(&mut msg, width as u128);
                msg.append("x");
                push_decimal(&mut msg, height as u128);
                msg.append(" RGBA needs ");
                proof {
                    assert((width as int) * (height as int) <= 0xffff_ffffint * 0xffff_ffffint)
                        by (nonlinear_arith)
                        requires
                            width <= 0xffff_ffff,
                            height <= 0xffff_ffff,
                    ;
                }
                push_decimal(&mut msg, (width as u128) * (height as u128) * 4);
                assert(msg@ =~= size_mismatch_text(rgba@.len(), width, height));
                Err(Error::Backend(msg))
            },
        }
    }

    /// Icon width in pixels.
    pub fn width(&self) -> (r: u32)
        ensures
            r == self@.width,
    {
        self.width
    }

    /// Icon height in pixels.
    pub fn height(&self) -> (r: u32)
        ensures
            r == self@.height,
    {
        self.height
    }

    /// A short description for debugging, without the pixels, e.g.
    /// `Icon { width: 2, height: 1, bytes: 8 }`.
    pub fn debug_text(&self) -> (r: String)
        ensures
            r@ == icon_debug_text(self@.width, self@.height, self@.rgba.len()),
    {
        let mut s = String::from_str("Icon { width: ");
        push_decimal(&mut s, self.width as u128);
        s.append(", height: ");
        push_decimal(&mut s, self.height as u128);
        s.append(", bytes: ");
        push_decimal(&mut s, self.rgba.len() as u128);
        s.append(" }");
        assert(s@ =~= icon_debug_text(self@.width, self@.height, self@.rgba.len()));
        s
    }

    /// Raw RGBA8 pixels, `width * height * 4` bytes, row-major.
    pub fn rgba(&self) -> (r: &[u8])
        ensures
            r@ == self@.rgba,
            rgba_fits(self@.width, self@.height, r@.len()),
            r@.len() == self@.width * self@.height * 4,
            r@.len() > 0,
    {
        proof {
            use_type_invariant(self);
        }
        self.rgba.as_slice()
    }
}

impl Clone for Icon {
    /// A copy of this icon, pixel for pixel.
    fn clone(&self) -> (r: Icon)
        ensures
            r@ == self@,
    {
        proof {
            use_type_invariant(self);
        }
        Icon { width: self.width, height: self.height, rgba: self.rgba.clone() }
    }
}

} // verus!
