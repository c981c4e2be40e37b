use vstd::prelude::*;

verus! {

/// The sum of the first `n` counts.
pub open spec fn prefix_sum(counts: Seq<usize>, n: int) -> int
    decreases n,
{
    if n <= 0 {
        0
    } else {
        prefix_sum(counts, n - 1) + counts[n - 1]
    }
}

/// Running sums of counts never decrease: the VTK offsets of a grid are
/// non-decreasing, each at most the total number of points.
pub proof fn lemma_prefix_sum_monotone(counts: Seq<usize>, i: int, j: int)
    requires
        0 <= i <= j,
    ensures
        prefix_sum(counts, i) <= prefix_sum(counts, j),
    decreases j - i,
{
    if i < j {
        lemma_prefix_sum_monotone(counts, i, j - 1);
    }
}

/// The VTK cell type of a polygon with `n_vertices` vertices: a triangle
/// (5) for three, a polygon (7) for four or more; none below three.
pub open spec fn spec_vtk_cell_type(n_vertices: usize) -> Option<u8> {
    if n_vertices == 3 {
        Some(5u8)
    } else if n_vertices >= 4 {
        Some(7u8)
    } else {
        None
    }
}

/// The VTK cell type written for a polygon of `n_vertices` vertices.
pub fn vtk_cell_type(n_vertices: usize) -> (r: Option<u8>)
    ensures
        r == spec_vtk_cell_type(n_vertices),
{
    if n_vertices == 3 {
        Some(5)
    } else if n_vertices >= 4 {
        Some(7)
    } else {
        None
    }
}

/// The VTK offsets of a list of cells: after each cell, the total number of
/// its vertices and of those of the cells before it.
pub fn vtk_offsets(counts: &Vec<usize>) -> (r: Vec<usize>)
    requires
        prefix_sum(counts@, counts@.len() as int) <= usize::MAX,
    ensures
        r@.len() == counts@.len(),
        forall|i: int| 0 <= i < r@.len() ==> #[trigger] r@[i] == prefix_sum(counts@, i + 1),
{
    let mut out: Vec<usize> = Vec::new();
    let mut offset: usize = 0;
    let mut i: usize = 0;
    while i < counts.len()
        invariant
            0 <= i <= counts@.len(),
            prefix_sum(counts@, counts@.len() as int) <= usize::MAX,
            offset == prefix_sum(counts@, i as int),
            out@.len() == i,
            forall|k: int| 0 <= k < i ==> #[trigger] out@[k] == prefix_sum(counts@, k + 1),
        decreases counts@.len() - i,
    {
        proof {
            lemma_prefix_sum_monotone(counts@, i as int + 1, counts@.len() as int);
        }
        offset = offset + counts[i];
        out.push(offset);
        i = i + 1;
    }
    out
}

/// The total number of points of the listed control volumes.
pub fn vtk_point_count(counts: &Vec<usize>) -> (r: usize)
    requires
        prefix_sum(counts@, counts@.len() as int) <= usize::MAX,
    ensures
        r == prefix_sum(counts@, counts@.len() as int),
{
    let mut total: usize = 0;
    let mut i: usize = 0;
    while i < counts.len()
        invariant
            0 <= i <= counts@.len(),
            prefix_sum(counts@, counts@.len() as int) <= usize::MAX,
            total == prefix_sum(counts@, i as int),
        decreases counts@.len() - i,
    {
        proof {
            lemma_prefix_sum_monotone(counts@, i as int + 1, counts@.len() as int);
        }
        total = total + counts[i];
        i = i + 1;
    }
    total
}

/// The connectivity of control volumes that each own their points: the
/// points are numbered in order, each once.
pub fn vtk_sequential_connectivity(counts: &Vec<usize>) -> (r: Vec<usize>)
    requires
        prefix_sum(counts@, counts@.len() as int) <= usize::MAX,
    ensures
        r@.len() == prefix_sum(counts@, counts@.len() as int),
        forall|i: int| 0 <= i < r@.len() ==> #[trigger] r@[i] == i,
{
    let mut out: Vec<usize> = Vec::new();
    let mut current: usize = 0;
    let mut i: usize = 0;
    while i < counts.len()
        invariant
            0 <= i <= counts@.len(),
            prefix_sum(counts@, counts@.len() as int) <= usize::MAX,
            current == prefix_sum(counts@, i as int),
            out@.len() == current,
            forall|k: int| 0 <= k < out@.len() ==> #[trigger] out@[k] == k,
        decreases counts@.len() - i,
    {
        proof {
            lemma_prefix_sum_monotone(counts@, i as int + 1, counts@.len() as int);
        }
        let n = counts[i];
        let mut j: usize = 0;
        while j < n
            invariant
                0 <= j <= n,
                prefix_sum(counts@, i as int) + n <= usize::MAX,
                current == prefix_sum(counts@, i as int) + j,
                out@.len() == current,
                forall|k: int| 0 <= k < out@.len() ==> #[trigger] out@[k] == k,
            decreases n - j,
        {
            out.push(current);
            current = current + 1;
            j = j + 1;
        }
        i = i + 1;
    }
    out
}

} // verus!
