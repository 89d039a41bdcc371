use vstd::prelude::*;

verus! {

/// `width * height`, saturating at `usize::MAX`.
pub open spec fn saturating_area(width: usize, height: usize) -> int {
    if width * height <= usize::MAX {
        width * height
    } else {
        usize::MAX as int
    }
}

/// Whether `input_len` pixels can be rendered as a `width` x `height` frame:
/// both sides positive and at least `width * height` pixels (that product
/// saturating at `usize::MAX`). A renderer answers an unusable input with an
/// empty result.
pub fn input_fits_frame(input_len: usize, width: usize, height: usize) -> (ok: bool)
    ensures
        ok == (width > 0 && height > 0 && input_len >= saturating_area(width, height)),
        width * height <= usize::MAX ==> (ok == (width > 0 && height > 0 && input_len >= width
            * height)),
        width * height > usize::MAX ==> (ok == (input_len == usize::MAX)),
{
    let area = match width.checked_mul(height) {
        Some(a) => a,
        None => usize::MAX,
    };
    !(width == 0 || height == 0 || input_len < area)
}

/// The saturating area is the product of the two sides whenever that fits,
/// does not depend on which side is which, never exceeds the product, and
/// is `usize::MAX` exactly when the product does not fit.
pub proof fn lemma_saturating_area_is_product(width: usize, height: usize)
    ensures
        width * height <= usize::MAX ==> saturating_area(width, height) == width * height,
        width * height > usize::MAX ==> saturating_area(width, height) == usize::MAX,
        saturating_area(width, height) == saturating_area(height, width),
        saturating_area(width, height) <= width * height,
        0 <= saturating_area(width, height) <= usize::MAX,
{
    assert(width * height == height * width) by (nonlinear_arith);
    assert(width * height >= 0) by (nonlinear_arith);
}

/// `c`, or the last position `len - 1` when `c` lies past it.
pub open spec fn last_at_most(c: usize, len: usize) -> int {
    if c < len {
        c as int
    } else {
        len - 1
    }
}

/// `last_at_most(c, len)` is the position in `0..len` nearest to `c`: a
/// position of the frame, no farther from `c` than any other position.
pub proof fn lemma_last_at_most_is_nearest(c: usize, len: usize, k: int)
    requires
        len > 0,
        0 <= k < len,
    ensures
        0 <= last_at_most(c, len) < len,
        c < len ==> last_at_most(c, len) == c,
        (if last_at_most(c, len) >= c { last_at_most(c, len) - c } else { c - last_at_most(c, len) })
            <= (if k >= c { k - c } else { c - k }),
{
}

/// The row-major index of the pixel nearest to `(x, y)` inside a
/// `width` x `height` frame (coordinates past the last column or row are
/// clamped to it); `None` for an empty frame.
pub fn clamped_pixel_index(width: usize, height: usize, x: usize, y: usize) -> (index: Option<usize>)
    requires
        width * height <= usize::MAX,
    ensures
        (width == 0 || height == 0) ==> index is None,
        (width > 0 && height > 0) ==> (index matches Some(i) && i == last_at_most(y, height)
            * width + last_at_most(x, width)),
        index matches Some(i) ==> i < width * height,
        x < width && y < height ==> index == Some((y * width + x) as usize),
        x >= width && y < height && width > 0 ==> index == Some((y * width + width - 1) as usize),
        x < width && y >= height && height > 0 ==> index == Some(((height - 1) * width + x) as usize),
{
    if width == 0 || height == 0 {
        return None;
    }
    let cx = if x < width { x } else { width - 1 };
    let cy = if y < height { y } else { height - 1 };
    proof {
        assert(cy * width + cx < width * height) by (nonlinear_arith)
            requires
                cy < height,
                cx < width,
        ;
    }
    Some(cy * width + cx)
}

/// Number of logical CPUs of this machine, as `num_cpus::get` reports it
/// (affinity and cgroup limits included). Its documentation promises a value
/// of at least 1; nothing else is claimed of it, since it depends on the machine.
#[verifier::external_body]
fn logical_cpu_count() -> (n: usize)
    ensures
        n >= 1,
{
    num_cpus::get()
}

/// The number of worker threads for a frame of `height` rows on a machine
/// reporting `cpus` CPUs: as many as CPUs, but no more than rows, and at least one.
pub open spec fn thread_count(cpus: usize, height: usize) -> int {
    let c = if cpus >= 1 { cpus as int } else { 1 };
    let t = if c <= height { c } else { height as int };
    if t >= 1 { t } else { 1 }
}

/// Worker thread count for `height` rows given the reported CPU count.
pub fn threads_for_rows(cpus: usize, height: usize) -> (threads: usize)
    ensures
        threads == thread_count(cpus, height),
        1 <= threads,
        height >= 1 ==> threads <= height,
        cpus >= 1 ==> threads <= cpus,
{
    let c = if cpus >= 1 { cpus } else { 1 };
    let t = if c <= height { c } else { height };
    if t >= 1 { t } else { 1 }
}

/// Worker thread count for rendering `height` rows on this machine: the
/// machine's logical CPU count, bounded by the number of rows, at least one.
pub fn render_thread_count(height: usize) -> (threads: usize)
    ensures
        1 <= threads,
        height >= 1 ==> threads <= height,
        exists|cpus: usize| cpus >= 1 && threads == #[trigger] thread_count(cpus, height),
{
    let cpus = logical_cpu_count();
    let threads = threads_for_rows(cpus, height);
    assert(cpus >= 1 && threads == thread_count(cpus, height));
    threads
}

/// Rows given to each worker: `height / threads` rounded up.
pub open spec fn rows_per_chunk(height: nat, threads: nat) -> nat
    recommends
        threads >= 1,
{
    if threads == 0 {
        0
    } else {
        ((height + threads - 1) / (threads as int)) as nat
    }
}

/// Number of row chunks: `height / rows_per_chunk` rounded up (none for an
/// empty frame).
pub open spec fn chunk_count(height: nat, threads: nat) -> nat {
    let r = rows_per_chunk(height, threads);
    if r == 0 {
        0
    } else {
        ((height + r - 1) / (r as int)) as nat
    }
}

/// First row of chunk `i`.
pub open spec fn chunk_start(height: nat, threads: nat, i: nat) -> nat {
    i * rows_per_chunk(height, threads)
}

/// Number of rows of chunk `i`: a full chunk, or what is left of the frame.
pub open spec fn chunk_rows(height: nat, threads: nat, i: nat) -> nat {
    let r = rows_per_chunk(height, threads);
    let left = height - chunk_start(height, threads, i);
    if left < r {
        left as nat
    } else {
        r
    }
}

/// `chunk` is chunk `i` of the split of `height` rows among `threads` workers.
pub open spec fn chunk_is(chunk: RowChunk, height: nat, threads: nat, i: nat) -> bool {
    &&& chunk.y_start == chunk_start(height, threads, i)
    &&& chunk.rows == chunk_rows(height, threads, i)
    &&& chunk.rows >= 1
}

/// A band of consecutive rows handed to one worker.
#[derive(Clone, Copy, Debug, PartialEq, Eq, Structural)]
pub struct RowChunk {
    pub y_start: usize,
    pub rows: usize,
}

proof fn lemma_ceil_div_bounds(n: nat, d: nat)
    requires
        d >= 1,
    ensures
        ((n + d - 1) / d as int) * d >= n,
        n >= 1 ==> ((n + d - 1) / d as int - 1) * d < n,
        n >= 1 ==> (n + d - 1) / d as int >= 1,
        (n + d - 1) / d as int <= n,
        (n + d - 1) / d as int >= 0,
{
    let q = (n + d - 1) / d as int;
    let m = (n + d - 1) % d as int;
    assert(q * d + m == n + d - 1 && 0 <= m < d) by (nonlinear_arith)
        requires
            d >= 1,
            q == (n + d - 1) / d as int,
            m == (n + d - 1) % d as int,
    ;
    assert(q * d >= n) by (nonlinear_arith)
        requires
            q * d + m == n + d - 1,
            m < d,
    ;
    if n >= 1 {
        assert((q - 1) * d < n) by (nonlinear_arith)
            requires
                q * d + m == n + d - 1,
                0 <= m,
        ;
        assert(q >= 1) by (nonlinear_arith)
            requires
                q * d >= n,
                n >= 1,
                d >= 1,
        ;
    }
    assert(q >= 0) by (nonlinear_arith)
        requires
            q * d + m == n + d - 1,
            m < d,
            d >= 1,
    ;
    assert(q <= n) by (nonlinear_arith)
        requires
            q * d + m == n + d - 1,
            0 <= m,
            d >= 1,
            q >= 0,
    ;
}

/// The chunk count never exceeds the thread count, and every chunk but the
/// last is full while the chunks together reach the last row.
proof fn lemma_chunk_count_bounds(height: nat, threads: nat)
    requires
        threads >= 1,
        height >= 1,
    ensures
        rows_per_chunk(height, threads) >= 1,
        chunk_count(height, threads) >= 1,
        chunk_count(height, threads) <= threads,
        chunk_count(height, threads) * rows_per_chunk(height, threads) >= height,
        (chunk_count(height, threads) - 1) * rows_per_chunk(height, threads) < height,
{
    let r = rows_per_chunk(height, threads);
    lemma_ceil_div_bounds(height, threads);
    assert(r >= 1);
    lemma_ceil_div_bounds(height, r);
    let c = chunk_count(height, threads);
    // c - 1 < height / r <= threads: from (c - 1) * r < height <= r * threads.
    assert(r * threads >= height);
    assert(c <= threads) by (nonlinear_arith)
        requires
            (c - 1) * r < height,
            r * threads >= height,
            r >= 1,
            c >= 1,
    ;
}

/// The row chunks partition the frame: row `y` of a `height`-row frame lies
/// in chunk `y / rows_per_chunk` and in no other chunk.
pub proof fn lemma_row_chunks_partition(height: nat, threads: nat, y: nat, i: nat)
    requires
        threads >= 1,
        y < height,
        i < chunk_count(height, threads),
    ensures
        y / rows_per_chunk(height, threads) < chunk_count(height, threads),
        (chunk_start(height, threads, i) <= y < chunk_start(height, threads, i) + chunk_rows(
            height,
            threads,
            i,
        )) <==> i == y / rows_per_chunk(height, threads),
{
    lemma_chunk_count_bounds(height, threads);
    let r = rows_per_chunk(height, threads);
    let c = chunk_count(height, threads);
    let k = y / r;
    assert(k * r <= y < k * r + r) by (nonlinear_arith)
        requires
            r >= 1,
            k == y / r,
    ;
    assert(k < c) by (nonlinear_arith)
        requires
            k * r <= y,
            y < height,
            c * r >= height,
            r >= 1,
    ;
    let s = chunk_start(height, threads, i);
    let n = chunk_rows(height, threads, i);
    assert(s == i * r);
    assert(i * r < height) by (nonlinear_arith)
        requires
            i < c,
            (c - 1) * r < height,
            r >= 1,
    ;
    assert(n <= r);
    if s <= y < s + n {
        assert(i == k) by (nonlinear_arith)
            requires
                i * r <= y,
                y < i * r + r,
                k * r <= y,
                y < k * r + r,
                r >= 1,
        ;
    }
    if i == k {
        assert(s <= y);
        assert(y < s + n);
    }
}

/// The chunks tile the frame: the first starts at row 0, each chunk lies inside
/// the frame, each one starts where the previous one ends, and the last one
/// ends at the last row.
pub proof fn lemma_row_chunks_tile(height: nat, threads: nat, i: nat)
    requires
        threads >= 1,
        i < chunk_count(height, threads),
    ensures
        chunk_start(height, threads, 0) == 0,
        chunk_start(height, threads, i) + chunk_rows(height, threads, i) <= height,
        i + 1 < chunk_count(height, threads) ==> chunk_start(height, threads, i + 1)
            == chunk_start(height, threads, i) + chunk_rows(height, threads, i),
        i + 1 == chunk_count(height, threads) ==> chunk_start(height, threads, i) + chunk_rows(
            height,
            threads,
            i,
        ) == height,
{
    let r = rows_per_chunk(height, threads);
    let c = chunk_count(height, threads);
    if height == 0 {
        assert((threads - 1) / (threads as int) == 0) by (nonlinear_arith)
            requires
                threads >= 1,
        ;
        assert(false);
    }
    lemma_chunk_count_bounds(height, threads);
    assert(0 * r == 0);
    let s = chunk_start(height, threads, i);
    assert(s == i * r);
    assert(i * r < height) by (nonlinear_arith)
        requires
            i < c,
            (c - 1) * r < height,
            r >= 1,
    ;
    if i + 1 < c {
        assert((i + 1) * r == i * r + r) by (nonlinear_arith);
        assert((i + 1) * r < height) by (nonlinear_arith)
            requires
                i + 1 < c,
                (c - 1) * r < height,
                r >= 1,
        ;
        assert(chunk_rows(height, threads, i) == r);
    }
    if i + 1 == c {
        assert(i * r + r >= height) by (nonlinear_arith)
            requires
                i + 1 == c,
                c * r >= height,
        ;
    }
}

/// Rows held by the first `n` chunks together.
pub open spec fn rows_in_first_chunks(height: nat, threads: nat, n: nat) -> nat
    decreases n,
{
    if n == 0 {
        0
    } else {
        rows_in_first_chunks(height, threads, (n - 1) as nat) + chunk_rows(height, threads, (n - 1) as nat)
    }
}

proof fn lemma_rows_in_first_chunks(height: nat, threads: nat, n: nat)
    requires
        threads >= 1,
        n <= chunk_count(height, threads),
    ensures
        n < chunk_count(height, threads) ==> rows_in_first_chunks(height, threads, n)
            == chunk_start(height, threads, n),
        n == chunk_count(height, threads) ==> rows_in_first_chunks(height, threads, n) == height,
    decreases n,
{
    let c = chunk_count(height, threads);
    if n > 0 {
        lemma_rows_in_first_chunks(height, threads, (n - 1) as nat);
        lemma_row_chunks_tile(height, threads, (n - 1) as nat);
    } else {
        assert(0 * rows_per_chunk(height, threads) == 0);
        if c == 0 && height > 0 {
            lemma_chunk_count_bounds(height, threads);
        }
    }
}

/// The chunks hold exactly the rows of the frame: together they hold
/// `height` rows, and the first `n` of them hold the rows before the start of
/// chunk `n`.
pub proof fn lemma_row_chunks_sum_to_height(height: nat, threads: nat, n: nat)
    requires
        threads >= 1,
        n <= chunk_count(height, threads),
    ensures
        n < chunk_count(height, threads) ==> rows_in_first_chunks(height, threads, n)
            == chunk_start(height, threads, n),
        rows_in_first_chunks(height, threads, chunk_count(height, threads)) == height,
{
    lemma_rows_in_first_chunks(height, threads, n);
    lemma_rows_in_first_chunks(height, threads, chunk_count(height, threads));
}

/// Splits `height` rows into consecutive bands of `height / threads` rows
/// (rounded up), the last band holding what is left.
pub fn row_chunks(height: usize, threads: usize) -> (chunks: Vec<RowChunk>)
    requires
        threads >= 1,
    ensures
        chunks.len() == chunk_count(height as nat, threads as nat),
        chunks.len() <= threads,
        forall|i: int| 0 <= i < chunks.len() ==> #[trigger] chunk_is(chunks@[i], height as nat, threads as nat, i as nat),
        forall|i: int|
            0 <= i < chunks.len() ==> #[trigger] chunks@[i].y_start + chunks@[i].rows <= height,
        forall|i: int|
            0 < i < chunks.len() ==> #[trigger] chunks@[i].y_start == chunks@[i - 1].y_start
                + chunks@[i - 1].rows,
        (chunks.len() > 0) == (height > 0),
        chunks.len() > 0 ==> chunks@[0].y_start == 0,
        chunks.len() > 0 ==> chunks@[chunks.len() - 1].y_start + chunks@[chunks.len() - 1].rows
            == height,
{
    let mut chunks: Vec<RowChunk> = Vec::new();
    if height == 0 {
        proof {
            assert((threads - 1) / (threads as int) == 0) by (nonlinear_arith)
                requires
                    threads >= 1,
            ;
        }
        return chunks;
    }
    proof {
        if height % threads != 0 {
            assert(height / threads + 1 <= height) by (nonlinear_arith)
                requires
                    threads >= 1,
                    height % threads != 0,
            ;
        }
    }
    let rows_per = height / threads + if height % threads != 0 { 1 } else { 0 };
    proof {
        let r = rows_per_chunk(height as nat, threads as nat);
        assert(rows_per == r) by (nonlinear_arith)
            requires
                threads >= 1,
                rows_per == height / threads + if height % threads != 0 { 1int } else { 0 },
                r == (height + threads - 1) / threads as int,
        ;
        lemma_chunk_count_bounds(height as nat, threads as nat);
    }
    let ghost count = chunk_count(height as nat, threads as nat);
    let mut start: usize = 0;
    assert(chunks.len() * rows_per == 0) by (nonlinear_arith)
        requires
            chunks.len() == 0,
    ;
    while start < height
        invariant
            threads >= 1,
            height >= 1,
            rows_per == rows_per_chunk(height as nat, threads as nat),
            rows_per >= 1,
            count == chunk_count(height as nat, threads as nat),
            count * rows_per >= height,
            (count - 1) * rows_per < height,
            start <= height,
            start < height ==> start == chunks.len() * rows_per,
            start < height ==> chunks.len() < count,
            start == height ==> chunks.len() == count,
            forall|i: int| 0 <= i < chunks.len() ==> #[trigger] chunk_is(chunks@[i], height as nat, threads as nat, i as nat),
            forall|i: int|
                0 <= i < chunks.len() ==> #[trigger] chunks@[i].y_start + chunks@[i].rows <= start,
            forall|i: int|
                0 < i < chunks.len() ==> #[trigger] chunks@[i].y_start == chunks@[i - 1].y_start
                    + chunks@[i - 1].rows,
            chunks.len() > 0 ==> chunks@[0].y_start == 0,
            chunks.len() > 0 ==> chunks@[chunks.len() - 1].y_start + chunks@[chunks.len()
                - 1].rows == start,
            chunks.len() == 0 ==> start == 0,
        decreases height - start,
    {
        let left = height - start;
        let rows = if left < rows_per { left } else { rows_per };
        let ghost k = chunks.len() as nat;
        let ghost before = chunks@;
        chunks.push(RowChunk { y_start: start, rows });
        proof {
            assert forall|i: int| 0 <= i < chunks.len() implies #[trigger] chunk_is(chunks@[i], height as nat, threads as nat, i as nat) by {
                if i < k {
                    assert(chunks[i] == before[i]);
                }
            }
            assert forall|i: int| 0 <= i < chunks.len() implies #[trigger] chunks@[i].y_start
                + chunks@[i].rows <= start + rows by {
                if i < k {
                    assert(chunks[i] == before[i]);
                }
            }
            assert forall|i: int| 0 < i < chunks.len() implies #[trigger] chunks@[i].y_start
                == chunks@[i - 1].y_start + chunks@[i - 1].rows by {
                if i < k {
                    assert(chunks[i] == before[i]);
                    assert(chunks[i - 1] == before[i - 1]);
                } else {
                    assert(chunks[i - 1] == before[i - 1]);
                }
            }
            assert(chunk_start(height as nat, threads as nat, k) == start);
            if start + rows < height {
                assert(rows == rows_per);
                assert(start + rows == (k + 1) * rows_per) by (nonlinear_arith)
                    requires
                        start == k * rows_per,
                        rows == rows_per,
                ;
                assert(k + 1 < count) by (nonlinear_arith)
                    requires
                        (k + 1) * rows_per < height,
                        count * rows_per >= height,
                        rows_per >= 1,
                ;
            } else {
                assert(k + 1 == count) by (nonlinear_arith)
                    requires
                        k < count,
                        start == k * rows_per,
                        start < height,
                        start + rows_per >= height,
                        (count - 1) * rows_per < height,
                        rows_per >= 1,
                ;
            }
        }
        start = start + rows;
    }
    chunks
}

/// The byte range `[start, end)` of row `y` of an 8-bit, four-channel layer
/// whose rows are `stride` bytes apart: `None` when the row's `width * 4`
/// bytes do not fit in a buffer of `buffer_len` bytes (such a row is skipped).
pub fn row_byte_range(y: usize, stride: usize, width: usize, buffer_len: usize) -> (range: Option<(usize, usize)>)
    requires
        y * stride + width * 4 <= usize::MAX,
    ensures
        range matches Some((start, end)) ==> start == y * stride && end == y * stride + width * 4
            && end <= buffer_len,
        range is None <==> y * stride + width * 4 > buffer_len,
{
    proof {
        assert(y * stride <= usize::MAX && width * 4 <= usize::MAX) by (nonlinear_arith)
            requires
                y * stride + width * 4 <= usize::MAX,
        ;
    }
    let start = y * stride;
    let row_len = width * 4;
    if start + row_len > buffer_len {
        None
    } else {
        Some((start, start + row_len))
    }
}

} // verus!
