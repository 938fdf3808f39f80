//! Copying packed NV12 rows into strided frame planes.
use vstd::prelude::*;

verus! {

/// Row `r` of a `width`-byte packed plane lands at `r * stride` in the
/// destination when both the destination row and the source row are in
/// bounds.
pub open spec fn row_fits(dst_len: int, src_len: int, stride: int, width: int, r: int) -> bool {
    r * stride + width <= dst_len && r * width + width <= src_len
}

/// The destination after copying rows `0..rows` in order; rows that do not
/// fit are skipped, and a later row overwrites an earlier one where they
/// overlap.
pub open spec fn copy_rows(dst: Seq<u8>, src: Seq<u8>, stride: int, width: int, rows: int) -> Seq<u8>
    decreases rows,
{
    if rows <= 0 {
        dst
    } else {
        let prev = copy_rows(dst, src, stride, width, rows - 1);
        let r = rows - 1;
        if row_fits(dst.len() as int, src.len() as int, stride, width, r) {
            let d = r * stride;
            let s = r * width;
            prev.subrange(0, d) + src.subrange(s, s + width) + prev.subrange(d + width, prev.len() as int)
        } else {
            prev
        }
    }
}

proof fn lemma_copy_rows_len(dst: Seq<u8>, src: Seq<u8>, stride: int, width: int, rows: int)
    requires
        stride >= 0,
        width >= 0,
    ensures
        copy_rows(dst, src, stride, width, rows).len() == dst.len(),
    decreases rows,
{
    if rows > 0 {
        lemma_copy_rows_len(dst, src, stride, width, rows - 1);
        let r = rows - 1;
        assert(r * stride >= 0) by (nonlinear_arith)
            requires
                r >= 0,
                stride >= 0,
        ;
        assert(r * width >= 0) by (nonlinear_arith)
            requires
                r >= 0,
                width >= 0,
        ;
    }
}

/// Packed rows fill the destination prefix directly when the stride equals
/// the width: the rows that fit are exactly the first `min(rows, dst/width,
/// src/width)`.
proof fn lemma_copy_rows_packed(dst: Seq<u8>, src: Seq<u8>, width: int, rows: int)
    requires
        width > 0,
        rows >= 0,
    ensures
        ({
            let dq = (dst.len() as int) / width;
            let sq = (src.len() as int) / width;
            let n = if rows <= dq && rows <= sq {
                rows
            } else if dq <= sq {
                dq
            } else {
                sq
            };
            let count = n * width;
            &&& 0 <= count <= dst.len()
            &&& count <= src.len()
            &&& copy_rows(dst, src, width, width, rows) == src.subrange(0, count) + dst.subrange(
                count,
                dst.len() as int,
            )
        }),
    decreases rows,
{
    let dl = dst.len() as int;
    let sl = src.len() as int;
    assert((dl / width) * width <= dl) by (nonlinear_arith)
        requires
            width > 0,
            dl >= 0,
    ;
    assert((sl / width) * width <= sl) by (nonlinear_arith)
        requires
            width > 0,
            sl >= 0,
    ;
    let dq = dl / width;
    let sq = sl / width;
    let n = if rows <= dq && rows <= sq {
        rows
    } else if dq <= sq {
        dq
    } else {
        sq
    };
    assert(0 <= n * width <= dq * width) by (nonlinear_arith)
        requires
            0 <= n <= dq,
            width > 0,
    ;
    assert(n * width <= sq * width) by (nonlinear_arith)
        requires
            n <= sq,
            width > 0,
    ;
    if rows == 0 {
        assert(n == 0);
        assert(n * width == 0) by (nonlinear_arith)
            requires
                n == 0,
        ;
        assert(dst.subrange(0, dl) == dst);
        assert(src.subrange(0, 0) + dst.subrange(0, dl) == dst);
    } else {
        lemma_copy_rows_packed(dst, src, width, rows - 1);
        let r = rows - 1;
        let m = if r <= dq && r <= sq {
            r
        } else if dq <= sq {
            dq
        } else {
            sq
        };
        assert((r + 1) * width == r * width + width) by (nonlinear_arith);
        assert(((r + 1) * width <= dl) <==> r < dq) by (nonlinear_arith)
            requires
                width > 0,
                r >= 0,
                dl >= 0,
                dq == dl / width,
        ;
        assert(((r + 1) * width <= sl) <==> r < sq) by (nonlinear_arith)
            requires
                width > 0,
                r >= 0,
                sl >= 0,
                sq == sl / width,
        ;
        assert(r * width >= 0) by (nonlinear_arith)
            requires
                r >= 0,
                width > 0,
        ;
        let fits = row_fits(dl, sl, width, width, r);
        assert(fits <==> r < dq && r < sq);
        if fits {
            assert(n == rows && m == r);
            let prev = copy_rows(dst, src, width, width, r);
            let d = r * width;
            assert(prev == src.subrange(0, d) + dst.subrange(d, dl));
            let next = copy_rows(dst, src, width, width, rows);
            assert(next == prev.subrange(0, d) + src.subrange(d, d + width) + prev.subrange(
                d + width,
                prev.len() as int,
            ));
            assert(next == src.subrange(0, d + width) + dst.subrange(d + width, dl));
            assert(n * width == d + width);
            assert(copy_rows(dst, src, width, width, rows) == src.subrange(0, n * width) + dst.subrange(n * width, dl));
        } else {
            assert(n == m);
            assert(copy_rows(dst, src, width, width, rows) == copy_rows(dst, src, width, width, r));
            assert(copy_rows(dst, src, width, width, rows) == src.subrange(0, n * width) + dst.subrange(n * width, dl));
        }
    }
}

/// Copy `rows` packed rows of `width` bytes from `src` into `dst` at
/// `stride`-byte row spacing, skipping rows that do not fit either buffer.
/// Bytes outside the copied rows, such as row padding, are left untouched.
pub fn copy_plane(dst: &mut [u8], stride: usize, src: &[u8], width: usize, rows: usize)
    requires
        stride != width ==> (rows > 0 ==> (rows - 1) * stride + width <= usize::MAX),
        stride != width ==> rows * width <= usize::MAX,
    ensures
        final(dst)@ == copy_rows(old(dst)@, src@, stride as int, width as int, rows as int),
{
    if stride == width && width != 0 {
        let a = dst.len() / width;
        let b = src.len() / width;
        let n = if rows <= a && rows <= b {
            rows
        } else if a <= b {
            a
        } else {
            b
        };
        proof {
            lemma_copy_rows_packed(old(dst)@, src@, width as int, rows as int);
        }
        assert(n * width <= dst@.len()) by (nonlinear_arith)
            requires
                n <= a,
                a as int == (dst@.len() as int) / (width as int),
                width > 0,
        ;
        let count = n * width;
        let mut i: usize = 0;
        while i < count
            invariant
                count <= dst@.len(),
                count <= src@.len(),
                dst@.len() == old(dst)@.len(),
                i <= count,
                forall|j: int| 0 <= j < i ==> dst@[j] == src@[j],
                forall|j: int| i <= j < dst@.len() ==> dst@[j] == old(dst)@[j],
            decreases count - i,
        {
            dst[i] = src[i];
            i = i + 1;
        }
        assert(dst@ == src@.subrange(0, count as int) + old(dst)@.subrange(
            count as int,
            old(dst)@.len() as int,
        ));
        return ;
    }
    if stride == width {
        assert(width == 0);
        assert((rows - 1) * stride + width == 0 && rows * width == 0) by (nonlinear_arith)
            requires
                stride == 0,
                width == 0,
        ;
    }
    let mut row: usize = 0;
    while row < rows
        invariant
            row <= rows,
            rows > 0 ==> (rows - 1) * stride + width <= usize::MAX,
            rows * width <= usize::MAX,
            dst@ == copy_rows(old(dst)@, src@, stride as int, width as int, row as int),
            dst@.len() == old(dst)@.len(),
        decreases rows - row,
    {
        assert(row * stride + width <= usize::MAX) by (nonlinear_arith)
            requires
                row < rows,
                (rows - 1) * stride + width <= usize::MAX,
        ;
        assert(row * width + width <= usize::MAX) by (nonlinear_arith)
            requires
                row < rows,
                rows * width <= usize::MAX,
        ;
        assert(row * stride >= 0 && row * width >= 0) by (nonlinear_arith);
        let d = row * stride;
        let s = row * width;
        let ghost prev = dst@;
        if d + width <= dst.len() && s + width <= src.len() {
            let mut k: usize = 0;
            while k < width
                invariant
                    d + width <= dst@.len(),
                    s + width <= src@.len(),
                    d + width <= usize::MAX,
                    s + width <= usize::MAX,
                    dst@.len() == prev.len(),
                    k <= width,
                    forall|j: int| 0 <= j < d ==> dst@[j] == prev[j],
                    forall|j: int| d <= j < d + k ==> dst@[j] == src@[s + (j - d)],
                    forall|j: int| d + k <= j < dst@.len() ==> dst@[j] == prev[j],
                decreases width - k,
            {
                dst[d + k] = src[s + k];
                k = k + 1;
            }
            assert(dst@ == prev.subrange(0, d as int) + src@.subrange(s as int, s + width)
                + prev.subrange(d + width, prev.len() as int));
        }
        row = row + 1;
    }
}

/// Copy a packed NV12 picture (`width * height` luma bytes, then the
/// interleaved chroma rows) into a frame's luma and chroma planes with their
/// own strides.
pub fn copy_nv12(
    y_plane: &mut [u8],
    y_stride: usize,
    uv_plane: &mut [u8],
    uv_stride: usize,
    nv12: &[u8],
    width: usize,
    height: usize,
)
    requires
        width * height <= nv12@.len(),
        y_stride != width ==> (height > 0 ==> (height - 1) * y_stride + width <= usize::MAX),
        uv_stride != width ==> (height / 2 > 0 ==> (height / 2 - 1) * uv_stride + width
            <= usize::MAX),
    ensures
        final(y_plane)@ == copy_rows(
            old(y_plane)@,
            nv12@.subrange(0, width * height),
            y_stride as int,
            width as int,
            height as int,
        ),
        final(uv_plane)@ == copy_rows(
            old(uv_plane)@,
            nv12@.subrange(width * height, nv12@.len() as int),
            uv_stride as int,
            width as int,
            height as int / 2,
        ),
{
    let total = nv12.len();
    assert(width * height <= total);
    let luma = width * height;
    let y_src = vstd::slice::slice_subrange(nv12, 0, luma);
    let uv_src = vstd::slice::slice_subrange(nv12, luma, nv12.len());
    copy_plane(y_plane, y_stride, y_src, width, height);
    assert((height / 2) * width <= height * width) by (nonlinear_arith);
    copy_plane(uv_plane, uv_stride, uv_src, width, height / 2);
}

/// Where packed offset `offset` of an NV12 picture with `y_size` luma bytes
/// lives in a frame whose planes are unpadded: the plane (0 for luma, 1 for
/// chroma) and the range of that plane a read may fill from there.
pub fn packed_chunk(offset: usize, y_size: usize) -> (r: (usize, usize, usize))
    requires
        offset < y_size + y_size / 2,
    ensures
        offset < y_size ==> r == (0usize, offset, y_size),
        offset >= y_size ==> r == (1usize, (offset - y_size) as usize, y_size / 2),
        r.1 < r.2,
{
    if offset < y_size {
        (0, offset, y_size)
    } else {
        (1, offset - y_size, y_size / 2)
    }
}

} // verus!
