//! QR codes drawn as text for a terminal.
use vstd::prelude::*;

verus! {

/// Width of the light margin drawn round a code, in modules.
pub const BORDER: usize = 2;

/// The module grid that qrcodegen makes of a text at medium error correction:
/// its side and its modules row after row (`true` is dark), if the text fits.
pub uninterp spec fn qr_grid(text: Seq<char>) -> Option<(nat, Seq<bool>)>;

/// Relies on qrcodegen's `QrCode::encode_text` with `QrCodeEcc::Medium`, read
/// out with `size` (between 21 and 177) and `get_module`; fails only when the
/// text is too long for a code.
#[verifier::external_body]
fn encode_qr(text: &str) -> (r: Option<(usize, Vec<bool>)>)
    ensures
        r is None <==> qr_grid(text@) is None,
        r matches Some((n, m)) ==> qr_grid(text@) == Some((n as nat, m@)) && 21 <= n <= 177
            && m@.len() == n * n,
{
    let qr = qrcodegen::QrCode::encode_text(text, qrcodegen::QrCodeEcc::Medium).ok()?;
    let n = qr.size();
    let mut modules = Vec::new();
    for y in 0..n {
        for x in 0..n {
            modules.push(qr.get_module(x, y));
        }
    }
    Some((n as usize, modules))
}

/// Whether the module at column `x`, row `y` is dark; the margin is light.
pub open spec fn cell_dark(size: int, modules: Seq<bool>, x: int, y: int) -> bool {
    0 <= x < size && 0 <= y < size && modules[y * size + x]
}

/// Two characters per module, so that a module is about square.
pub open spec fn cell_text(dark: bool) -> Seq<char> {
    if dark {
        "██"@
    } else {
        "  "@
    }
}

/// The first `count` cells of row `y`, starting in the margin.
pub open spec fn row_text(size: int, modules: Seq<bool>, y: int, count: int) -> Seq<char>
    decreases count,
{
    if count <= 0 {
        Seq::empty()
    } else {
        row_text(size, modules, y, count - 1) + cell_text(
            cell_dark(size, modules, count - 1 - BORDER as int, y),
        )
    }
}

/// Draws a grid of `size` by `size` modules, with its margin, one string per row.
pub fn render_qr(size: usize, modules: &Vec<bool>) -> (r: Vec<String>)
    requires
        size <= 177,
        modules@.len() == size * size,
    ensures
        r@.len() == size + 2 * BORDER,
        forall|j: int|
            0 <= j < r@.len() ==> (#[trigger] r@[j])@ == row_text(
                size as int,
                modules@,
                j - BORDER,
                size + 2 * BORDER,
            ),
{
    let width = size + 2 * BORDER;
    let mut lines: Vec<String> = Vec::new();
    let mut j: usize = 0;
    while j < width
        invariant
            width == size + 2 * BORDER,
            size <= 177,
            modules@.len() == size * size,
            j <= width,
            lines@.len() == j,
            forall|k: int|
                0 <= k < j ==> (#[trigger] lines@[k])@ == row_text(
                    size as int,
                    modules@,
                    k - BORDER,
                    width as int,
                ),
        decreases width - j,
    {
        let mut line = String::from_str("");
        proof {
            reveal_strlit("");
        }
        let mut i: usize = 0;
        while i < width
            invariant
                width == size + 2 * BORDER,
                size <= 177,
                modules@.len() == size * size,
                j < width,
                i <= width,
                line@ == row_text(size as int, modules@, j - BORDER, i as int),
            decreases width - i,
        {
            let inside = i >= BORDER && j >= BORDER && i - BORDER < size && j - BORDER < size;
            let dark = if inside {
                let x = i - BORDER;
                let y = j - BORDER;
                proof {
                    assert(y * size + x < size * size) by (nonlinear_arith)
                        requires
                            x < size,
                            y < size,
                    ;
                    assert(size * size <= 177 * 177) by (nonlinear_arith)
                        requires
                            size <= 177,
                    ;
                }
                modules[y * size + x]
            } else {
                false
            };
            let cell = if dark {
                "██"
            } else {
                "  "
            };
            line = line.concat(cell);
            proof {
                assert(dark == cell_dark(size as int, modules@, i - BORDER, j - BORDER));
            }
            i = i + 1;
        }
        lines.push(line);
        j = j + 1;
    }
    lines
}

/// The terminal drawing of the QR code of `text`, if the text fits in one.
pub fn qr_lines(text: &str) -> (r: Option<Vec<String>>)
    ensures
        r is None <==> qr_grid(text@) is None,
        r matches Some(lines) ==> exists|n: nat, m: Seq<bool>|
            qr_grid(text@) == Some((n, m)) && lines@.len() == n + 2 * BORDER && forall|j: int|
                0 <= j < lines@.len() ==> (#[trigger] lines@[j])@ == row_text(
                    n as int,
                    m,
                    j - BORDER,
                    n + 2 * BORDER,
                ),
{
    match encode_qr(text) {
        Some((n, modules)) => Some(render_qr(n, &modules)),
        None => None,
    }
}

} // verus!
