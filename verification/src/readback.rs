//! Row layout of pixels copied back from the GPU: rows of a texture copy are
//! padded to a multiple of 256 bytes.
use vstd::prelude::*;
use vstd::arithmetic::div_mod::*;

verus! {

/// The smallest multiple of 256 that is at least `n`.
pub open spec fn round_up_256(n: nat) -> nat {
    ((n + 255) / 256 * 256) as nat
}

/// Bytes per row of a `width`-pixel RGBA8 row, padded to a multiple of 256.
pub fn padded_bytes_per_row(width: u32) -> (padded: u32)
    requires
        width * 4 + 255 <= u32::MAX,
    ensures
        padded == round_up_256((width * 4) as nat),
        padded % 256 == 0,
        width * 4 <= padded < width * 4 + 256,
{
    let bytes_per_row = width * 4;
    let sum = bytes_per_row + 255;
    let padded = sum & !255u32;
    assert(padded == sum / 256 * 256 && padded % 256 == 0 && padded <= sum && sum < padded + 256) by (bit_vector)
        requires
            padded == sum & !255u32,
    ;
    padded
}

/// The bytes of `height` rows of `row_len` bytes each, taken from rows that
/// start every `stride` bytes of `m`.
pub open spec fn rows_without_padding(m: Seq<u8>, row_len: nat, stride: nat, height: nat) -> Seq<u8> {
    Seq::new(row_len * height, |i: int| m[(i / row_len as int) * stride + i % row_len as int])
}

/// The RGBA8 pixels of a `width` x `height` image from the mapped readback
/// buffer, with each row's padding dropped. When rows need no padding the
/// buffer is taken as it is.
pub fn strip_row_padding(mapped: &[u8], width: u32, height: u32) -> (pixels: Vec<u8>)
    requires
        width * 4 + 255 <= u32::MAX,
        round_up_256((width * 4) as nat) != width * 4 ==> {
            &&& width * 4 * height <= u32::MAX
            &&& height > 0 ==> (height - 1) * round_up_256((width * 4) as nat) <= u32::MAX
            &&& height > 0 ==> (height - 1) * round_up_256((width * 4) as nat) + width * 4 <= mapped@.len()
        },
    ensures
        round_up_256((width * 4) as nat) == width * 4 ==> pixels@ == mapped@,
        round_up_256((width * 4) as nat) != width * 4 ==> pixels@ == rows_without_padding(
            mapped@,
            (width * 4) as nat,
            round_up_256((width * 4) as nat),
            height as nat,
        ),
{
    let bytes_per_row = width * 4;
    let padded = padded_bytes_per_row(width);
    if padded == bytes_per_row {
        let mut out: Vec<u8> = Vec::new();
        let mut i: usize = 0;
        while i < mapped.len()
            invariant
                i <= mapped@.len(),
                out@ == mapped@.subrange(0, i as int),
            decreases mapped@.len() - i,
        {
            out.push(mapped[i]);
            assert(out@ =~= mapped@.subrange(0, i + 1));
            i = i + 1;
        }
        assert(out@ =~= mapped@);
        return out;
    }
    let ghost m = mapped@;
    let ghost bpr = bytes_per_row as nat;
    let ghost stride = padded as nat;
    assert(bpr > 0);
    let mlen = mapped.len();
    let mut out: Vec<u8> = Vec::new();
    let mut row: u32 = 0;
    while row < height
        invariant
            bpr == bytes_per_row,
            stride == padded,
            bpr > 0,
            bpr < stride,
            m == mapped@,
            mlen == m.len(),
            row <= height,
            bytes_per_row * height <= u32::MAX,
            height > 0 ==> (height - 1) * padded <= u32::MAX,
            height > 0 ==> (height - 1) * padded + bytes_per_row <= m.len(),
            out@.len() == row * bpr,
            forall|i: int| 0 <= i < out@.len() ==> #[trigger] out@[i] == m[(i / bpr as int) * stride + i % bpr as int],
        decreases height - row,
    {
        assert(row * padded <= (height - 1) * padded) by (nonlinear_arith)
            requires
                row < height,
        ;
        let start: usize = (row * padded) as usize;
        assert(start + bytes_per_row <= m.len());
        let mut col: usize = 0;
        while col < bytes_per_row as usize
            invariant
                bpr == bytes_per_row,
                stride == padded,
                bpr > 0,
                m == mapped@,
                mlen == m.len(),
                row < height,
                start == row * padded,
                start + bytes_per_row <= m.len(),
                col <= bpr,
                out@.len() == row * bpr + col,
                forall|i: int| 0 <= i < out@.len() ==> #[trigger] out@[i] == m[(i / bpr as int) * stride + i % bpr as int],
            decreases bpr - col,
        {
            let ghost before = out@;
            assert(start + col < m.len());
            out.push(mapped[start + col]);
            proof {
                let i = row * bpr + col;
                lemma_fundamental_div_mod_converse(i as int, bpr as int, row as int, col as int);
                assert forall|j: int| 0 <= j < out@.len() implies #[trigger] out@[j] == m[(j / bpr as int) * stride + j % bpr as int] by {
                    if j < before.len() {
                        assert(out@[j] == before[j]);
                    }
                }
            }
            col = col + 1;
        }
        assert((row + 1) * bpr == row * bpr + bpr) by (nonlinear_arith);
        row = row + 1;
    }
    assert(height * bpr == bpr * height) by (nonlinear_arith);
    assert(out@ =~= rows_without_padding(m, bpr, stride, height as nat));
    out
}

/// In the stripped pixels of a `width`-pixel-wide image, channel `c` of
/// pixel (`x`, `y`) sits at `(y * width + x) * 4 + c` and comes from offset
/// `y * stride + 4 * x + c` of the padded rows; there are `width * 4 * height`
/// bytes in all.
pub proof fn law_pixel_position(m: Seq<u8>, width: nat, stride: nat, height: nat, x: nat, y: nat, c: nat)
    requires
        x < width,
        y < height,
        c < 4,
    ensures
        rows_without_padding(m, width * 4, stride, height).len() == width * 4 * height,
        (y * width + x) * 4 + c < width * 4 * height,
        rows_without_padding(m, width * 4, stride, height)[((y * width + x) * 4 + c) as int] == m[(y * stride + 4 * x + c) as int],
{
    let i: int = ((y * width + x) * 4 + c) as int;
    assert(i == y * (width * 4) + (4 * x + c)) by (nonlinear_arith)
        requires
            i == (y * width + x) * 4 + c,
    ;
    assert(i < width * 4 * height) by (nonlinear_arith)
        requires
            i == y * (width * 4) + (4 * x + c),
            x < width,
            y < height,
            c < 4,
    ;
    lemma_fundamental_div_mod_converse(i, (width * 4) as int, y as int, (4 * x + c) as int);
}

} // verus!
