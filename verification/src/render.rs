//! Rendering the payload: the QR matrix, its rasterization at a bounded
//! pixel size, the double-density console form, and the vector form.
//!
//! The matrix itself comes from the QR encoder; everything that turns it
//! into an artifact — picking the module scale under the dimension cap,
//! expanding modules to pixels, drawing block characters, emitting vector
//! path data — is the library's own verified logic.

use vstd::prelude::*;

verus! {

use vstd::arithmetic::div_mod::lemma_fundamental_div_mod;
use vstd::arithmetic::div_mod::lemma_fundamental_div_mod_converse;

// ---------------------------------------------------------------------------
// The QR matrix
// ---------------------------------------------------------------------------
/// A square matrix of modules, row-major; `true` is a dark module.
pub struct QrMatrix {
    pub size: usize,
    pub modules: Vec<bool>,
}

impl QrMatrix {
    /// Square, with the side a QR symbol can have.
    pub open spec fn wf(&self) -> bool {
        21 <= self.size <= 177 && self.modules@.len() == self.size * self.size
    }

    /// The module at column `x`, row `y`.
    pub open spec fn spec_module(&self, x: int, y: int) -> bool {
        self.modules@[y * self.size + x]
    }

    /// Reads the module at column `x`, row `y`.
    pub fn module(&self, x: usize, y: usize) -> (r: bool)
        requires
            self.wf(),
            x < self.size,
            y < self.size,
        ensures
            r == self.spec_module(x as int, y as int),
    {
        proof {
            assert(y * self.size + x < self.size * self.size && y * self.size + x <= 177 * 177)
                by (nonlinear_arith)
                requires
                    x < self.size,
                    y < self.size,
                    self.size <= 177,
            ;
        }
        self.modules[y * self.size + x]
    }

    /// The module of the bordered matrix: dark inside the core area,
    /// light everywhere in the border and beyond.
    pub open spec fn spec_padded(&self, quiet: int, mx: int, my: int) -> bool {
        if quiet <= mx < quiet + self.size && quiet <= my < quiet + self.size {
            self.spec_module(mx - quiet, my - quiet)
        } else {
            false
        }
    }

    /// Reads the module of the bordered matrix.
    pub fn padded(&self, quiet: usize, mx: usize, my: usize) -> (r: bool)
        requires
            self.wf(),
            quiet + self.size <= usize::MAX,
        ensures
            r == self.spec_padded(quiet as int, mx as int, my as int),
    {
        if quiet <= mx && mx < quiet + self.size && quiet <= my && my < quiet + self.size {
            self.module(mx - quiet, my - quiet)
        } else {
            false
        }
    }
}

/// What the QR encoder yields for given data: the matrix of the smallest
/// symbol that holds it at the medium error-correction level, or nothing
/// when the data exceeds the largest symbol's capacity.
pub uninterp spec fn qr_matrix_of(data: Seq<u8>) -> Option<Seq<Seq<bool>>>;

impl QrMatrix {
    /// The matrix as rows of booleans.
    pub open spec fn rows(&self) -> Seq<Seq<bool>> {
        Seq::new(
            self.size as nat,
            |y: int| Seq::new(self.size as nat, |x: int| self.spec_module(x, y)),
        )
    }
}

/// Relies on qrcode's QrCode::new, width and to_colors: encoding either
/// fails (data beyond capacity) or yields a square matrix whose side is a
/// QR version's width, between 21 and 177 modules, one color per module.
#[verifier::external_body]
fn qr_encode(data: &[u8]) -> (r: Option<QrMatrix>)
    ensures
        (r is Some) == (qr_matrix_of(data@) is Some),
        r matches Some(m) ==> m.wf() && m.rows() == qr_matrix_of(data@).unwrap(),
{
    match qrcode::QrCode::new(data) {
        Ok(code) => {
            let size = code.width();
            let modules: Vec<bool> =
                code.to_colors().into_iter().map(|c| c == qrcode::Color::Dark).collect();
            Some(QrMatrix { size, modules })
        },
        Err(_) => None,
    }
}

// ---------------------------------------------------------------------------
// Scale and rasterization
// ---------------------------------------------------------------------------
/// The pixel-dimension cap applied to both sides of the raster image.
pub open spec fn spec_max_dimension() -> int {
    2400
}

/// The width of the quiet zone, in modules, on each side of the symbol.
pub open spec fn spec_quiet_zone() -> int {
    4
}

/// The module scale for a symbol of `total` modules (border included)
/// under a cap of `cap` pixels: the largest integer scale that fits, and
/// never less than one — a symbol too wide for the cap keeps its native
/// resolution.
pub open spec fn spec_module_scale(total: int, cap: int) -> int {
    if 1 <= total <= cap {
        cap / total
    } else {
        1
    }
}

/// Computes the module scale under a cap.
pub fn module_scale(total: usize, cap: usize) -> (r: usize)
    requires
        1 <= total,
    ensures
        r == spec_module_scale(total as int, cap as int),
        1 <= r,
        total <= cap ==> r * total <= cap && (r + 1) * total > cap,
{
    if total <= cap {
        let s = cap / total;
        proof {
            lemma_fundamental_div_mod(cap as int, total as int);
            assert(s * total <= cap && (s + 1) * total > cap && 1 <= s) by (nonlinear_arith)
                requires
                    1 <= total <= cap,
                    cap as int == (total as int) * ((cap as int) / (total as int)) + (
                    cap as int) % (total as int),
                    0 <= (cap as int) % (total as int) < total as int,
                    s == (cap as int) / (total as int),
            ;
        }
        s
    } else {
        1
    }
}

/// A grayscale bitmap, row-major, one byte per pixel: 0 is black, 255 is
/// white.
#[derive(Debug)]
pub struct Bitmap {
    pub width: usize,
    pub height: usize,
    pub pixels: Vec<u8>,
}

impl Bitmap {
    /// One byte per pixel.
    pub open spec fn wf(&self) -> bool {
        self.pixels@.len() == self.width * self.height
    }
}

/// The pixel value at flat index `k` of the rasterized matrix: black where
/// the bordered module under it is dark, white elsewhere.
pub open spec fn spec_raster_pixel(m: &QrMatrix, quiet: int, scale: int, dim: int, k: int) -> u8 {
    if m.spec_padded(quiet, (k % dim) / scale, (k / dim) / scale) {
        0
    } else {
        255
    }
}

/// Expands the bordered matrix to a square bitmap, `scale` pixels per
/// module.
pub fn rasterize(m: &QrMatrix, quiet: usize, scale: usize) -> (r: Bitmap)
    requires
        m.wf(),
        1 <= scale,
        quiet <= 8,
        (m.size + 2 * quiet) * scale <= 46000,
    ensures
        r.wf(),
        r.width == (m.size + 2 * quiet) * scale,
        r.height == r.width,
        forall|k: int|
            0 <= k < r.pixels@.len() ==> r.pixels@[k] == spec_raster_pixel(
                m,
                quiet as int,
                scale as int,
                r.width as int,
                k,
            ),
{
    let dim = (m.size + 2 * quiet) * scale;
    proof {
        assert(dim * dim <= 46000 * 46000) by (nonlinear_arith)
            requires
                0 <= dim <= 46000,
        ;
        assert(1 <= dim) by (nonlinear_arith)
            requires
                dim == (m.size + 2 * quiet) * scale,
                21 <= m.size,
                0 <= quiet,
                1 <= scale,
        ;
    }
    let n = dim * dim;
    let mut pixels: Vec<u8> = Vec::new();
    let mut k: usize = 0;
    while k < n
        invariant
            k <= n,
            n == dim * dim,
            1 <= scale,
            1 <= dim,
            m.wf(),
            quiet + m.size <= usize::MAX,
            pixels@.len() == k,
            forall|j: int|
                0 <= j < k ==> pixels@[j] == spec_raster_pixel(
                    m,
                    quiet as int,
                    scale as int,
                    dim as int,
                    j,
                ),
        decreases n - k,
    {
        let x = k % dim;
        let y = k / dim;
        let dark = m.padded(quiet, x / scale, y / scale);
        if dark {
            pixels.push(0);
        } else {
            pixels.push(255);
        }
        k += 1;
    }
    proof {
        assert(dim * dim == (dim as int) * (dim as int));
    }
    Bitmap { width: dim, height: dim, pixels }
}

/// Law: rasterizing and reading back round-trips. Sampling the rasterized
/// bitmap at the top-left pixel of core module `(x, y)` recovers exactly
/// that module of the matrix.
pub proof fn lemma_raster_read_back(
    m: &QrMatrix,
    quiet: int,
    scale: int,
    b: &Bitmap,
    x: int,
    y: int,
)
    requires
        m.wf(),
        1 <= scale,
        0 <= quiet,
        b.width == (m.size + 2 * quiet) * scale,
        b.height == b.width,
        b.wf(),
        forall|k: int|
            0 <= k < b.pixels@.len() ==> b.pixels@[k] == spec_raster_pixel(
                m,
                quiet,
                scale,
                b.width as int,
                k,
            ),
        0 <= x < m.size,
        0 <= y < m.size,
    ensures
        (b.pixels@[((y + quiet) * scale) * b.width + (x + quiet) * scale] == 0) == m.spec_module(
            x,
            y,
        ),
{
    let dim = b.width as int;
    let px = (x + quiet) * scale;
    let py = (y + quiet) * scale;
    let k = py * dim + px;
    assert(0 <= px < dim && 0 <= py < dim) by (nonlinear_arith)
        requires
            1 <= scale,
            0 <= quiet,
            0 <= x < m.size,
            0 <= y < m.size,
            dim == (m.size + 2 * quiet) * scale,
            px == (x + quiet) * scale,
            py == (y + quiet) * scale,
    ;
    assert(0 <= k < dim * dim) by (nonlinear_arith)
        requires
            0 <= px < dim,
            0 <= py < dim,
            k == py * dim + px,
    ;
    assert(b.pixels@.len() == dim * dim) by (nonlinear_arith)
        requires
            b.pixels@.len() == b.width * b.height,
            b.height == b.width,
            dim == b.width as int,
    ;
    lemma_fundamental_div_mod_converse(k, dim, py, px);
    assert(k % dim == px && k / dim == py);
    lemma_fundamental_div_mod_converse(px, scale, x + quiet, 0);
    lemma_fundamental_div_mod_converse(py, scale, y + quiet, 0);
    assert(px / scale == x + quiet && py / scale == y + quiet);
    assert(m.spec_padded(quiet, x + quiet, y + quiet) == m.spec_module(x, y));
}

// ---------------------------------------------------------------------------
// The rendered artifact
// ---------------------------------------------------------------------------
/// The bordered module of a matrix given as rows: dark inside the core
/// area, light in the border and beyond.
pub open spec fn spec_rows_padded(rows: Seq<Seq<bool>>, quiet: int, mx: int, my: int) -> bool {
    if quiet <= mx < quiet + rows.len() && quiet <= my < quiet + rows.len() {
        rows[my - quiet][mx - quiet]
    } else {
        false
    }
}

/// The bitmap the render step owes for given payload data: the encoder's
/// matrix with a four-module border, at the largest integer module scale
/// that keeps both sides within the dimension cap, black pixels exactly
/// under dark modules.
pub open spec fn spec_capped_bitmap(data: Seq<u8>, b: &Bitmap) -> bool {
    let rows = qr_matrix_of(data).unwrap();
    let scale = spec_module_scale(rows.len() + 2 * spec_quiet_zone(), spec_max_dimension());
    &&& b.wf()
    &&& b.width == (rows.len() + 2 * spec_quiet_zone()) * scale
    &&& b.height == b.width
    &&& forall|k: int|
        0 <= k < b.pixels@.len() ==> b.pixels@[k] == (if spec_rows_padded(
            rows,
            spec_quiet_zone(),
            (k % (b.width as int)) / scale,
            (k / (b.width as int)) / scale,
        ) {
            0u8
        } else {
            255u8
        })
}

/// Renders the payload data as a capped square bitmap: the QR matrix with
/// a four-module border, at the largest integer module scale that keeps
/// both sides within 2400 pixels. Nothing when the data exceeds the QR
/// symbol capacity.
pub fn create_qr_image(data: &[u8]) -> (r: Option<Bitmap>)
    ensures
        (r is Some) == (qr_matrix_of(data@) is Some),
        r matches Some(b) ==> spec_capped_bitmap(data@, &b),
{
    match qr_encode(data) {
        Some(m) => {
            let total = m.size + 8;
            let scale = module_scale(total, 2400);
            proof {
                assert(m.rows().len() == m.size);
                assert(scale * total <= 2400);
                assert(total * scale <= 2400) by (nonlinear_arith)
                    requires
                        scale * total <= 2400,
                ;
            }
            let b = rasterize(&m, 4, scale);
            proof {
                let rows = m.rows();
                assert forall|mx: int, my: int|
                    m.spec_padded(4, mx, my) == spec_rows_padded(rows, 4, mx, my) by {
                    if 4 <= mx < 4 + m.size && 4 <= my < 4 + m.size {
                        assert(rows[my - 4][mx - 4] == m.spec_module(mx - 4, my - 4));
                    }
                }
                assert(spec_capped_bitmap(data@, &b));
            }
            Some(b)
        },
        None => None,
    }
}

/// Encodes the payload data as a QR matrix, for the artifact forms that
/// work on modules rather than pixels. Nothing when the data exceeds the
/// symbol capacity.
pub fn encode_qr_matrix(data: &[u8]) -> (r: Option<QrMatrix>)
    ensures
        (r is Some) == (qr_matrix_of(data@) is Some),
        r matches Some(m) ==> m.wf() && m.rows() == qr_matrix_of(data@).unwrap(),
{
    qr_encode(data)
}

/// Reads the modules back out of a rasterized bitmap, sampling the
/// top-left pixel of each core module: a synthetic reader for the raster
/// stage.
pub fn extract_modules(b: &Bitmap, size: usize, quiet: usize, scale: usize) -> (r: Vec<bool>)
    requires
        b.wf(),
        1 <= scale,
        quiet <= 8,
        1 <= size <= 177,
        b.width == (size + 2 * quiet) * scale,
        b.height == b.width,
        b.width <= 46000,
    ensures
        r@.len() == size * size,
        forall|k: int|
            0 <= k < size * size ==> r@[k] == (b.pixels@[(((k / (size as int)) + quiet) * scale) * (
            b.width as int) + ((k % (size as int)) + quiet) * scale] == 0),
{
    proof {
        assert(size * size <= 177 * 177) by (nonlinear_arith)
            requires
                size <= 177,
        ;
        assert(b.pixels@.len() == (b.width as int) * (b.width as int)) by (nonlinear_arith)
            requires
                b.pixels@.len() == b.width * b.height,
                b.height == b.width,
        ;
    }
    let n = size * size;
    let mut out: Vec<bool> = Vec::new();
    let mut k: usize = 0;
    while k < n
        invariant
            k <= n,
            n == size * size,
            1 <= size <= 177,
            1 <= scale,
            quiet <= 8,
            b.wf(),
            b.width == (size + 2 * quiet) * scale,
            b.height == b.width,
            b.width <= 46000,
            b.pixels@.len() == (b.width as int) * (b.width as int),
            out@.len() == k,
            forall|j: int|
                0 <= j < k ==> out@[j] == (b.pixels@[(((j / (size as int)) + quiet) * scale) * (
                b.width as int) + ((j % (size as int)) + quiet) * scale] == 0),
        decreases n - k,
    {
        let x = k % size;
        let y = k / size;
        proof {
            assert(y < size) by (nonlinear_arith)
                requires
                    k < size * size,
                    1 <= size,
                    y == k / size,
            ;
            assert((x + quiet) * scale < b.width && (y + quiet) * scale < b.width)
                by (nonlinear_arith)
                requires
                    x < size,
                    y < size,
                    1 <= scale,
                    b.width == (size + 2 * quiet) * scale,
            ;
            assert(((y + quiet) * scale) * (b.width as int) + (x + quiet) * scale < (
            b.width as int) * (b.width as int)) by (nonlinear_arith)
                requires
                    (x + quiet) * scale < b.width,
                    (y + quiet) * scale < b.width,
                    0 <= (x + quiet) * scale,
                    0 <= (y + quiet) * scale,
            ;
            assert((b.width as int) * (b.width as int) <= 46000 * 46000) by (nonlinear_arith)
                requires
                    0 <= b.width <= 46000,
            ;
        }
        let px = (x + quiet) * scale;
        let py = (y + quiet) * scale;
        let idx = py * b.width + px;
        out.push(b.pixels[idx] == 0);
        k += 1;
    }
    out
}

/// Law: the raster round-trips. Reading the modules back out of the capped
/// bitmap rendered for some payload data recovers the encoder's matrix,
/// module for module.
pub proof fn lemma_capped_bitmap_read_back(data: Seq<u8>, b: &Bitmap, modules: Seq<bool>)
    requires
        qr_matrix_of(data) is Some,
        spec_capped_bitmap(data, b),
        qr_matrix_of(data).unwrap().len() >= 1,
        modules.len() == qr_matrix_of(data).unwrap().len() * qr_matrix_of(data).unwrap().len(),
        forall|k: int|
            0 <= k < modules.len() ==> modules[k] == (b.pixels@[(((k / (qr_matrix_of(
                data,
            ).unwrap().len() as int)) + spec_quiet_zone()) * spec_module_scale(
                qr_matrix_of(data).unwrap().len() + 2 * spec_quiet_zone(),
                spec_max_dimension(),
            )) * (b.width as int) + ((k % (qr_matrix_of(data).unwrap().len() as int))
                + spec_quiet_zone()) * spec_module_scale(
                qr_matrix_of(data).unwrap().len() + 2 * spec_quiet_zone(),
                spec_max_dimension(),
            )] == 0),
    ensures
        forall|y: int, x: int|
            #![trigger qr_matrix_of(data).unwrap()[y][x]]
            0 <= y < qr_matrix_of(data).unwrap().len() && 0 <= x < qr_matrix_of(data).unwrap().len()
                ==> modules[y * qr_matrix_of(data).unwrap().len() + x] == qr_matrix_of(
                data,
            ).unwrap()[y][x],
{
    let rows = qr_matrix_of(data).unwrap();
    let size = rows.len() as int;
    let quiet = spec_quiet_zone();
    let scale = spec_module_scale(size + 2 * quiet, spec_max_dimension());
    let dim = b.width as int;
    let total = size + 2 * quiet;
    if total <= spec_max_dimension() {
        lemma_fundamental_div_mod(spec_max_dimension(), total);
        assert(1 <= scale) by (nonlinear_arith)
            requires
                1 <= total <= 2400int,
                2400int == total * (2400int / total) + 2400int % total,
                0 <= 2400int % total < total,
                scale == 2400int / total,
        ;
    }
    assert(1 <= scale);
    assert forall|y: int, x: int|
        0 <= y < size && 0 <= x < size implies modules[y * size + x] == #[trigger] rows[y][x] by {
        let k = y * size + x;
        assert(0 <= k < size * size) by (nonlinear_arith)
            requires
                0 <= x < size,
                0 <= y < size,
                k == y * size + x,
        ;
        lemma_fundamental_div_mod_converse(k, size, y, x);
        assert(k / size == y && k % size == x);
        let px = (x + quiet) * scale;
        let py = (y + quiet) * scale;
        assert(0 <= px < dim && 0 <= py < dim) by (nonlinear_arith)
            requires
                1 <= scale,
                0 <= x < size,
                0 <= y < size,
                quiet == 4,
                dim == (size + 2 * quiet) * scale,
                px == (x + quiet) * scale,
                py == (y + quiet) * scale,
        ;
        let idx = py * dim + px;
        assert(0 <= idx < dim * dim) by (nonlinear_arith)
            requires
                0 <= px < dim,
                0 <= py < dim,
                idx == py * dim + px,
        ;
        assert(b.pixels@.len() == dim * dim) by (nonlinear_arith)
            requires
                b.pixels@.len() == b.width * b.height,
                b.height == b.width,
                dim == b.width as int,
        ;
        lemma_fundamental_div_mod_converse(idx, dim, py, px);
        lemma_fundamental_div_mod_converse(px, scale, x + quiet, 0);
        lemma_fundamental_div_mod_converse(py, scale, y + quiet, 0);
        assert(spec_rows_padded(rows, quiet, x + quiet, y + quiet) == rows[y][x]);
        assert(b.pixels@[idx] == (if rows[y][x] {
            0u8
        } else {
            255u8
        }));
    }
}

// ---------------------------------------------------------------------------
// The console form
// ---------------------------------------------------------------------------
/// The block character showing two vertically adjacent modules: a full
/// block for two dark modules, an upper or lower half block for one, a
/// space for none.
pub open spec fn spec_console_char(top: bool, bottom: bool) -> char {
    if top && bottom {
        '█'
    } else if top {
        '▀'
    } else if bottom {
        '▄'
    } else {
        ' '
    }
}

/// The console lines of the bordered matrix: each line shows two module
/// rows as block characters, the full width of symbol plus border.
pub open spec fn spec_console_lines(m: &QrMatrix, quiet: int) -> Seq<Seq<char>> {
    let total = m.size + 2 * quiet;
    Seq::new(
        ((total + 1) / 2) as nat,
        |row: int|
            Seq::new(
                total as nat,
                |col: int|
                    spec_console_char(
                        m.spec_padded(quiet, col, 2 * row),
                        m.spec_padded(quiet, col, 2 * row + 1),
                    ),
            ),
    )
}

/// Renders the bordered matrix as double-density console lines.
pub fn console_render(m: &QrMatrix, quiet: usize) -> (r: Vec<String>)
    requires
        m.wf(),
        quiet <= 8,
    ensures
        r.deep_view() == spec_console_lines(m, quiet as int),
{
    let total = m.size + 2 * quiet;
    let rows = (total + 1) / 2;
    let ghost want = spec_console_lines(m, quiet as int);
    let mut out: Vec<String> = Vec::new();
    let mut row: usize = 0;
    proof {
        assert(out.deep_view() =~= want.take(0));
    }
    while row < rows
        invariant
            row <= rows,
            m.wf(),
            quiet <= 8,
            total == m.size + 2 * quiet,
            rows == (total + 1) / 2,
            want == spec_console_lines(m, quiet as int),
            out.deep_view() == want.take(row as int),
        decreases rows - row,
    {
        let ghost old_out = out.deep_view();
        let mut line = String::new();
        let mut col: usize = 0;
        while col < total
            invariant
                col <= total,
                row < rows,
                m.wf(),
                quiet <= 8,
                total == m.size + 2 * quiet,
                rows == (total + 1) / 2,
                want == spec_console_lines(m, quiet as int),
                line@ =~= want[row as int].take(col as int),
            decreases total - col,
        {
            let top = m.padded(quiet, col, 2 * row);
            let bottom = m.padded(quiet, col, 2 * row + 1);
            if top && bottom {
                line.push('█');
            } else if top {
                line.push('▀');
            } else if bottom {
                line.push('▄');
            } else {
                line.push(' ');
            }
            proof {
                assert(want[row as int].take(col as int + 1) =~= want[row as int].take(
                    col as int,
                ).push(want[row as int][col as int]));
            }
            col += 1;
        }
        proof {
            assert(line@ =~= want[row as int]);
        }
        out.push(line);
        proof {
            assert(out.deep_view() =~= old_out.push(line@));
            assert(want.take(row as int + 1) =~= want.take(row as int).push(want[row as int]));
        }
        row += 1;
    }
    proof {
        assert(want.take(rows as int) =~= want);
    }
    out
}

/// The character width of the console render of the bordered matrix.
pub fn console_render_width(m: &QrMatrix, quiet: usize) -> (r: usize)
    requires
        m.wf(),
        quiet <= 8,
    ensures
        r == m.size + 2 * quiet,
{
    m.size + 2 * quiet
}

/// A run of spaces.
pub open spec fn spec_spaces(n: int) -> Seq<char> {
    Seq::new(
        if n >= 0 {
            n as nat
        } else {
            0
        },
        |i: int| ' ',
    )
}

/// The SSID line under the console render: centered by floor-division
/// padding while the name is narrower than the render, left-aligned from
/// the moment it is as wide or wider.
pub open spec fn spec_center_line(width: int, ssid: Seq<char>) -> Seq<char> {
    if ssid.len() < width {
        spec_spaces((width - ssid.len()) / 2) + ssid
    } else {
        ssid
    }
}

/// Centers the SSID against the rendered width.
pub fn center_line(width: usize, ssid: &str) -> (r: String)
    ensures
        r@ == spec_center_line(width as int, ssid@),
{
    let n = ssid.unicode_len();
    if n < width {
        let pad = (width - n) / 2;
        let mut out = String::new();
        let mut i: usize = 0;
        proof {
            assert(out@ =~= spec_spaces(pad as int).take(0));
        }
        while i < pad
            invariant
                i <= pad,
                out@ == spec_spaces(pad as int).take(i as int),
            decreases pad - i,
        {
            out.push(' ');
            proof {
                assert(spec_spaces(pad as int).take(i as int + 1) =~= spec_spaces(
                    pad as int,
                ).take(i as int).push(' '));
            }
            i += 1;
        }
        proof {
            assert(spec_spaces(pad as int).take(pad as int) =~= spec_spaces(pad as int));
        }
        out.append(ssid);
        out
    } else {
        String::from_str(ssid)
    }
}

// ---------------------------------------------------------------------------
// Decimal formatting
// ---------------------------------------------------------------------------
/// The character of one decimal digit.
pub open spec fn spec_dec_digit(d: int) -> char {
    ((48 + d) as u8) as char
}

/// The decimal notation of a number.
pub open spec fn spec_dec(n: int) -> Seq<char>
    decreases n,
{
    if n < 10 {
        seq![spec_dec_digit(n)]
    } else {
        spec_dec(n / 10) + seq![spec_dec_digit(n % 10)]
    }
}

/// Formats a number in decimal.
pub fn format_usize(n: usize) -> (r: String)
    ensures
        r@ == spec_dec(n as int),
    decreases n,
{
    if n < 10 {
        let mut s = String::new();
        s.push((48 + n as u8) as char);
        proof {
            assert(s@ =~= seq![spec_dec_digit(n as int)]);
        }
        s
    } else {
        let mut s = format_usize(n / 10);
        s.push((48 + (n % 10) as u8) as char);
        proof {
            assert(s@ =~= spec_dec((n as int) / 10) + seq![spec_dec_digit((n as int) % 10)]);
        }
        s
    }
}

// ---------------------------------------------------------------------------
// The vector form
// ---------------------------------------------------------------------------
/// The path command drawing one dark module as a unit square at `(x, y)`.
pub open spec fn spec_svg_cell(x: int, y: int) -> Seq<char> {
    "M"@ + spec_dec(x) + " "@ + spec_dec(y) + "h1v1h-1z"@
}

/// The path data of the first `k` modules in row-major order: one unit
/// square per dark module.
pub open spec fn spec_svg_path(m: &QrMatrix, k: int) -> Seq<char>
    decreases k,
{
    if k <= 0 {
        Seq::<char>::empty()
    } else {
        spec_svg_path(m, k - 1) + (if m.spec_module((k - 1) % (m.size as int), (k - 1) / (
        m.size as int)) {
            spec_svg_cell((k - 1) % (m.size as int), (k - 1) / (m.size as int))
        } else {
            Seq::<char>::empty()
        })
    }
}

/// The whole vector document: a white canvas of the symbol plus border,
/// and one black unit square per dark module, drawn straight from the
/// matrix with no bitmap in between.
pub open spec fn spec_svg_document(m: &QrMatrix) -> Seq<char> {
    let total = spec_dec(m.size + 2 * spec_quiet_zone());
    "<svg xmlns=\"http://www.w3.org/2000/svg\" viewBox=\"-4 -4 "@ + total + " "@ + total
        + "\"><rect x=\"-4\" y=\"-4\" width=\""@ + total + "\" height=\""@ + total
        + "\" fill=\"#ffffff\"/><path d=\""@ + spec_svg_path(m, m.size * m.size)
        + "\" fill=\"#000000\"/></svg>\n"@
}

/// Renders the matrix as a vector image document.
pub fn svg_of_matrix(m: &QrMatrix) -> (r: String)
    requires
        m.wf(),
    ensures
        r@ == spec_svg_document(m),
{
    let total = format_usize(m.size + 8);
    proof {
        assert(m.size * m.size <= 177 * 177) by (nonlinear_arith)
            requires
                m.size <= 177,
        ;
    }
    let n = m.size * m.size;
    let mut path = String::new();
    let mut k: usize = 0;
    proof {
        assert(path@ =~= spec_svg_path(m, 0));
    }
    while k < n
        invariant
            k <= n,
            m.wf(),
            n == m.size * m.size,
            path@ == spec_svg_path(m, k as int),
        decreases n - k,
    {
        let x = k % m.size;
        let y = k / m.size;
        proof {
            assert(y < m.size) by (nonlinear_arith)
                requires
                    k < m.size * m.size,
                    m.size >= 1,
                    y == k / m.size,
            ;
        }
        if m.module(x, y) {
            path.append("M");
            let xs = format_usize(x);
            path.append(xs.as_str());
            path.append(" ");
            let ys = format_usize(y);
            path.append(ys.as_str());
            path.append("h1v1h-1z");
            proof {
                assert(path@ =~= spec_svg_path(m, k as int) + spec_svg_cell(x as int, y as int));
            }
        }
        k += 1;
    }
    let mut out = String::from_str("<svg xmlns=\"http://www.w3.org/2000/svg\" viewBox=\"-4 -4 ");
    out.append(total.as_str());
    out.append(" ");
    out.append(total.as_str());
    out.append("\"><rect x=\"-4\" y=\"-4\" width=\"");
    out.append(total.as_str());
    out.append("\" height=\"");
    out.append(total.as_str());
    out.append("\" fill=\"#ffffff\"/><path d=\"");
    out.append(path.as_str());
    out.append("\" fill=\"#000000\"/></svg>\n");
    proof {
        assert(out@ =~= spec_svg_document(m));
    }
    out
}

// ---------------------------------------------------------------------------
// Raster codecs
// ---------------------------------------------------------------------------
/// What the PNG encoder yields for a grayscale image of the given
/// dimensions and pixels.
pub uninterp spec fn png_bytes_of(width: int, height: int, pixels: Seq<u8>) -> Seq<u8>;

/// What the JPEG encoder yields for a grayscale image of the given
/// dimensions and pixels.
pub uninterp spec fn jpeg_bytes_of(width: int, height: int, pixels: Seq<u8>) -> Seq<u8>;

/// Relies on image's PNG encoder: the encoding is a function of the
/// dimensions and pixels alone, and writing a grayscale image of nonzero
/// dimensions and matching buffer length into memory succeeds (the encoder
/// refuses only a zero dimension, a wrong buffer size, or a writer fault,
/// none of which a well-formed bitmap and an in-memory writer can raise).
#[verifier::external_body]
pub(crate) fn encode_png(b: &Bitmap) -> (r: Option<Vec<u8>>)
    requires
        b.wf(),
        b.width <= 0xffff_ffff,
        b.height <= 0xffff_ffff,
    ensures
        r matches Some(v) ==> v@ == png_bytes_of(b.width as int, b.height as int, b.pixels@),
        1 <= b.width && 1 <= b.height ==> r is Some,
{
    let img: image::ImageBuffer<image::Luma<u8>, Vec<u8>> = image::ImageBuffer::from_raw(
        b.width as u32,
        b.height as u32,
        b.pixels.clone(),
    )?;
    let mut cursor = std::io::Cursor::new(Vec::new());
    img.write_to(&mut cursor, image::ImageFormat::Png).ok()?;
    Some(cursor.into_inner())
}

/// Relies on image's JPEG encoder: the encoding is a function of the
/// dimensions and pixels alone, and writing a grayscale image into memory
/// succeeds exactly when both dimensions lie in the format's 1 to 65535
/// range (the encoder refuses sizes outside it; nothing else can fail for
/// a well-formed bitmap and an in-memory writer).
#[verifier::external_body]
pub(crate) fn encode_jpeg(b: &Bitmap) -> (r: Option<Vec<u8>>)
    requires
        b.wf(),
        b.width <= 0xffff_ffff,
        b.height <= 0xffff_ffff,
    ensures
        r matches Some(v) ==> v@ == jpeg_bytes_of(b.width as int, b.height as int, b.pixels@),
        1 <= b.width <= 65535 && 1 <= b.height <= 65535 ==> r is Some,
{
    let img: image::ImageBuffer<image::Luma<u8>, Vec<u8>> = image::ImageBuffer::from_raw(
        b.width as u32,
        b.height as u32,
        b.pixels.clone(),
    )?;
    let mut cursor = std::io::Cursor::new(Vec::new());
    img.write_to(&mut cursor, image::ImageFormat::Jpeg).ok()?;
    Some(cursor.into_inner())
}

} // verus!
