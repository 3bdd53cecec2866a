//! Pictures: the code as a square of modules, and the program's icon.

use vstd::prelude::*;

verus! {

// ── Codes to scan ──

/// The side of the square that stands for some data and its modules, row by row,
/// dark or not; none where the data does not fit.
pub uninterp spec fn qr_code(data: Seq<u8>) -> Option<(nat, Seq<bool>)>;

/// `qrcode::QrCode::new`, with the medium level of correction and the smallest
/// version that fits. What it gives is a function of the data alone: a square of
/// modules, or an error.
#[verifier::external_body]
fn encode_qr(data: &[u8]) -> (r: Option<(usize, Vec<bool>)>)
    ensures
        match r {
            Some((side, dark)) => qr_code(data@) == Some((side as nat, dark@)) && dark@.len()
                == side * side,
            None => qr_code(data@) is None,
        },
{
    let code = qrcode::QrCode::new(data).ok()?;
    Some((code.width(), code.to_colors().into_iter().map(|c| match c {
        qrcode::types::Color::Dark => true,
        qrcode::types::Color::Light => false,
    }).collect()))
}

/// The positions of the dark modules among the first `n`, row by row.
pub open spec fn dark_positions(side: nat, dark: Seq<bool>, n: nat) -> Seq<(nat, nat)>
    decreases n,
{
    if n == 0 || side == 0 {
        Seq::empty()
    } else {
        let before = dark_positions(side, dark, (n - 1) as nat);
        if dark[n - 1] {
            before.push((((n - 1) as nat) % side, ((n - 1) as nat) / side))
        } else {
            before
        }
    }
}

pub open spec fn positions(v: Seq<(usize, usize)>) -> Seq<(nat, nat)> {
    v.map_values(|p: (usize, usize)| (p.0 as nat, p.1 as nat))
}

/// The columns and rows of the dark modules of a square.
pub fn dark_modules(side: usize, dark: &Vec<bool>) -> (r: Vec<(usize, usize)>)
    requires
        dark@.len() == side * side,
    ensures
        positions(r@) == dark_positions(side as nat, dark@, dark@.len()),
{
    let mut out: Vec<(usize, usize)> = Vec::new();
    let mut i: usize = 0;
    assert(positions(out@) =~= Seq::empty());
    if side == 0 {
        assert(dark_positions(0, dark@, dark@.len()) =~= Seq::empty());
        return out;
    }
    while i < dark.len()
        invariant
            i <= dark@.len(),
            side > 0,
            positions(out@) == dark_positions(side as nat, dark@, i as nat),
        decreases dark.len() - i,
    {
        if dark[i] {
            let ghost had = out@;
            let p: (usize, usize) = (i % side, i / side);
            out.push(p);
            assert(positions(out@) =~= positions(had).push((p.0 as nat, p.1 as nat)));
        }
        i += 1;
    }
    out
}

/// Every dark module lies within the square.
pub proof fn law_dark_modules_lie_within(side: nat, dark: Seq<bool>, n: nat)
    requires
        n <= dark.len(),
        dark.len() == side * side,
    ensures
        forall|i: int|
            0 <= i < dark_positions(side, dark, n).len() ==> (#[trigger] dark_positions(
                side,
                dark,
                n,
            )[i]).0 < side && dark_positions(side, dark, n)[i].1 < side,
    decreases n,
{
    if n > 0 && side > 0 {
        law_dark_modules_lie_within(side, dark, (n - 1) as nat);
        let k = (n - 1) as nat;
        assert(k % side < side && k / side < side) by (nonlinear_arith)
            requires
                k < side * side,
                side > 0,
        ;
        let before = dark_positions(side, dark, k);
        let all = dark_positions(side, dark, n);
        assert forall|i: int| 0 <= i < all.len() implies (#[trigger] all[i]).0 < side && all[i].1
            < side by {
            if i < before.len() {
                assert(all[i] == before[i]);
            }
        }
    }
}

/// A square to draw.
pub struct Qr {
    pub side: usize,
    /// The columns and rows of the dark modules.
    pub dark: Vec<(usize, usize)>,
}

/// The square that stands for a text; none where the text does not fit.
pub fn qr_blocks(code: &str) -> (r: Option<Qr>)
    ensures
        match qr_code(vstd::utf8::encode_utf8(code@)) {
            Some((side, dark)) => if side == 0 {
                r is None
            } else {
                r matches Some(q) && q.side == side && positions(q.dark@) == dark_positions(
                    side,
                    dark,
                    dark.len(),
                )
            },
            None => r is None,
        },
{
    match encode_qr(code.as_bytes()) {
        Some((side, dark)) => {
            if side == 0 {
                None
            } else {
                Some(Qr { side, dark: dark_modules(side, &dark) })
            }
        },
        None => None,
    }
}

// ── The icon ──

/// The colours of a picture, four bytes a point, with its width and height; none
/// where it cannot be read.
pub uninterp spec fn picture(data: Seq<u8>) -> Option<(Seq<u8>, u32, u32)>;

/// `image::load_from_memory` and `into_rgba8`. What they give is a function of the
/// data alone: the points of a picture, or an error.
#[verifier::external_body]
fn load_rgba(data: &[u8]) -> (r: Option<(Vec<u8>, u32, u32)>)
    ensures
        match r {
            Some((rgba, width, height)) => picture(data@) == Some((rgba@, width, height)),
            None => picture(data@) is None,
        },
{
    let image = image::load_from_memory(data).ok()?.into_rgba8();
    let (width, height) = image.dimensions();
    Some((image.into_raw(), width, height))
}

pub struct IconImage {
    pub rgba: Vec<u8>,
    pub width: u32,
    pub height: u32,
}

/// The program's icon, as it is drawn; none where it cannot be read.
pub fn decode_icon(png: &[u8]) -> (r: Option<IconImage>)
    ensures
        match picture(png@) {
            Some((rgba, width, height)) => r matches Some(i) && i.rgba@ == rgba && i.width == width
                && i.height == height,
            None => r is None,
        },
{
    match load_rgba(png) {
        Some((rgba, width, height)) => Some(IconImage { rgba, width, height }),
        None => None,
    }
}

} // verus!
