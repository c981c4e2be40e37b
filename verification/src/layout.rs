use vstd::prelude::*;
use crate::requirements::GradRequirements;
use crate::schemes::{GradientInterpConfig, GradientMethods, GradientScheme};
use crate::topology::Patch;
use crate::variables::ControlVolumeType;

verus! {

/// The lengths of the arrays of a scalar field: one value per control
/// volume, one face value per face (pair), centre gradients only when some
/// gradient is required, face gradients only when face gradients are.
#[derive(Clone, Copy, Debug, PartialEq, Eq, Structural)]
pub struct FieldSizes {
    pub values: usize,
    pub faces_values: usize,
    pub grads_centers: usize,
    pub grads_faces: usize,
}

/// The array lengths of a scalar field on `cvt` control volumes of a mesh
/// with `n_cells` cells, `n_nodes` nodes and `n_pairs` faces.
pub fn field_sizes(
    cvt: ControlVolumeType,
    n_cells: usize,
    n_nodes: usize,
    n_pairs: usize,
    grads_required: &GradRequirements,
) -> (r: FieldSizes)
    ensures
        r.values == (match cvt {
            ControlVolumeType::Cells => n_cells,
            ControlVolumeType::Nodes => n_nodes,
        }),
        r.faces_values == n_pairs,
        r.grads_centers == (if grads_required.cell || grads_required.face {
            r.values
        } else {
            0
        }),
        r.grads_faces == (if grads_required.face {
            n_pairs
        } else {
            0
        }),
{
    let n_values = match cvt {
        ControlVolumeType::Cells => n_cells,
        ControlVolumeType::Nodes => n_nodes,
    };
    let grads_centers = if grads_required.cell() || grads_required.face() {
        n_values
    } else {
        0
    };
    let grads_faces = if grads_required.face() {
        n_pairs
    } else {
        0
    };
    FieldSizes { values: n_values, faces_values: n_pairs, grads_centers, grads_faces }
}

/// The entries of the matrix pattern of control volume `i`: its diagonal,
/// then one per neighbour, in order.
pub open spec fn row_pattern(i: usize, neighbors: Seq<usize>) -> Seq<(usize, usize)> {
    seq![(i, i)] + neighbors.map_values(|n: usize| (i, n))
}

/// The matrix pattern of the first `n` control volumes, row after row.
pub open spec fn matrix_pattern(neighbors: Seq<Seq<usize>>, n: int) -> Seq<(usize, usize)>
    decreases n,
{
    if n <= 0 {
        Seq::empty()
    } else {
        matrix_pattern(neighbors, n - 1) + row_pattern((n - 1) as usize, neighbors[n - 1])
    }
}

/// The cell neighbours of a cell: the cells among the patches around it, in
/// order, boundaries left out.
pub open spec fn cell_ids(patches: Seq<Patch>) -> Seq<usize>
    decreases patches.len(),
{
    if patches.len() == 0 {
        Seq::empty()
    } else {
        cell_ids(patches.drop_last()) + match patches.last() {
            Patch::Cell(c) => seq![c],
            Patch::Boundary(_) => Seq::empty(),
        }
    }
}

/// The cell indices among `patches`, in order.
pub fn neighboring_cell_ids(patches: &Vec<Patch>) -> (r: Vec<usize>)
    ensures
        r@ == cell_ids(patches@),
{
    let mut out: Vec<usize> = Vec::new();
    let mut k: usize = 0;
    while k < patches.len()
        invariant
            0 <= k <= patches@.len(),
            out@ == cell_ids(patches@.take(k as int)),
        decreases patches@.len() - k,
    {
        proof {
            let t = patches@.take(k as int + 1);
            assert(t.drop_last() =~= patches@.take(k as int));
            assert(t.last() == patches@[k as int]);
        }
        match patches[k] {
            Patch::Cell(c) => out.push(c),
            Patch::Boundary(_) => {},
        }
        k = k + 1;
    }
    assert(patches@.take(k as int) =~= patches@);
    out
}

/// The (row, column) entries of the sparse matrix of an equation on control
/// volumes whose neighbours are `neighbors`: for each control volume, its
/// diagonal entry followed by one entry per neighbour.
pub fn sparsity_pattern(neighbors: &Vec<Vec<usize>>) -> (r: Vec<(usize, usize)>)
    ensures
        r@ == matrix_pattern(neighbors@.map_values(|v: Vec<usize>| v@), neighbors@.len() as int),
{
    let ghost nb = neighbors@.map_values(|v: Vec<usize>| v@);
    let mut out: Vec<(usize, usize)> = Vec::new();
    let mut i: usize = 0;
    while i < neighbors.len()
        invariant
            0 <= i <= neighbors@.len(),
            nb == neighbors@.map_values(|v: Vec<usize>| v@),
            out@ == matrix_pattern(nb, i as int),
        decreases neighbors@.len() - i,
    {
        let ghost before = out@;
        out.push((i, i));
        let row = &neighbors[i];
        let mut k: usize = 0;
        while k < row.len()
            invariant
                0 <= k <= row@.len(),
                out@ == before + row_pattern(i, row@.take(k as int)),
            decreases row@.len() - k,
        {
            out.push((i, row[k]));
            proof {
                assert(row_pattern(i, row@.take(k as int + 1)) =~= row_pattern(
                    i,
                    row@.take(k as int),
                ).push((i, row@[k as int])));
            }
            k = k + 1;
        }
        proof {
            assert(row@.take(k as int) =~= row@);
            assert(nb[i as int] == row@);
        }
        i = i + 1;
    }
    out
}

/// A point of a node's dual control volume: a face centre, a cell centre,
/// or the node itself (where the volume meets the boundary).
#[derive(Clone, Copy, Debug, PartialEq, Eq, Structural)]
pub enum CvPoint {
    PairCenter(usize),
    CellCenter(usize),
    NodeCenter,
}

/// The points of the dual control volume of a node, from the state where
/// `i` faces and `j` patches of its walk were used.
pub open spec fn cv_points_from(pairs: Seq<usize>, cells: Seq<Patch>, i: int, j: int) -> Seq<CvPoint>
    decreases pairs.len() - i,
{
    if i < 0 || j < 0 || i >= pairs.len() || j >= cells.len() {
        Seq::empty()
    } else {
        let head = match cells[j] {
            Patch::Cell(c) => seq![CvPoint::PairCenter(pairs[i]), CvPoint::CellCenter(c)],
            Patch::Boundary(_) => seq![CvPoint::PairCenter(pairs[i]), CvPoint::NodeCenter],
        };
        let skip = match cells[j] {
            Patch::Boundary(_) => cells[(j + 1) % (cells.len() as int)] is Boundary,
            Patch::Cell(_) => false,
        };
        let next_j = if skip {
            j + 2
        } else {
            j + 1
        };
        head + cv_points_from(pairs, cells, i + 1, next_j)
    }
}

/// The points of the dual control volume of a node whose walk gave the
/// faces `pairs` and the patches `cells`: alternately a face centre and the
/// centre of the next cell; at the boundary, the node itself, skipping the
/// second of two consecutive boundaries.
pub fn cv_points(pairs: &Vec<usize>, cells: &Vec<Patch>) -> (r: Vec<CvPoint>)
    requires
        pairs@.len() > 0,
        cells@.len() > 0,
        cells@.len() + 2 <= usize::MAX,
    ensures
        r@ == cv_points_from(pairs@, cells@, 0, 0),
{
    let mut cv_nodes: Vec<CvPoint> = Vec::new();
    let mut i: usize = 0;
    let mut j: usize = 0;
    let n_cells = cells.len();
    let n_pairs = pairs.len();
    loop
        invariant_except_break
            i < pairs@.len(),
            j < cells@.len(),
        invariant
            n_pairs == pairs@.len(),
            n_cells == cells@.len(),
            n_cells + 2 <= usize::MAX,
            j <= n_cells + 1,
            cv_nodes@ + cv_points_from(pairs@, cells@, i as int, j as int) == cv_points_from(
                pairs@,
                cells@,
                0,
                0,
            ),
        ensures
            cv_nodes@ == cv_points_from(pairs@, cells@, 0, 0),
        decreases pairs@.len() - i,
    {
        let ghost before = cv_nodes@;
        let ghost i0 = i as int;
        let ghost j0 = j as int;
        cv_nodes.push(CvPoint::PairCenter(pairs[i]));
        match cells[j] {
            Patch::Cell(i_cell) => cv_nodes.push(CvPoint::CellCenter(i_cell)),
            Patch::Boundary(_) => {
                cv_nodes.push(CvPoint::NodeCenter);
                if let Patch::Boundary(_) = cells[(j + 1) % n_cells] {
                    j = j + 1;
                }
            },
        }
        j = j + 1;
        i = i + 1;
        proof {
            let rest = cv_points_from(pairs@, cells@, i as int, j as int);
            assert(cv_points_from(pairs@, cells@, i0, j0) == (cv_nodes@.subrange(
                before.len() as int,
                cv_nodes@.len() as int,
            )) + rest);
            assert(cv_nodes@ =~= before + cv_nodes@.subrange(
                before.len() as int,
                cv_nodes@.len() as int,
            ));
            assert(cv_nodes@ + rest =~= before + cv_points_from(pairs@, cells@, i0, j0));
        }
        if (i >= pairs.len()) || (j >= cells.len()) {
            assert(cv_points_from(pairs@, cells@, i as int, j as int) =~= Seq::<CvPoint>::empty());
            assert(cv_nodes@ + Seq::<CvPoint>::empty() =~= cv_nodes@);
            break ;
        }
    }
    cv_nodes
}

/// The rows set by strong (Dirichlet) boundary conditions, in the order
/// they are written, each with the boundary whose value it takes: the nodes
/// of each Dirichlet boundary in turn. A node on two such boundaries is
/// written twice and keeps the value of the later one.
pub open spec fn strong_rows(bnd_nodes: Seq<Seq<usize>>, dirichlet: Seq<bool>, n: int) -> Seq<
    (usize, usize),
>
    decreases n,
{
    if n <= 0 {
        Seq::empty()
    } else {
        strong_rows(bnd_nodes, dirichlet, n - 1) + if dirichlet[n - 1] {
            bnd_nodes[n - 1].map_values(|cv: usize| (cv, (n - 1) as usize))
        } else {
            Seq::empty()
        }
    }
}

/// Which rows of the matrix strong boundary conditions overwrite, and with
/// the value of which boundary: for node unknowns, the nodes of each
/// boundary whose condition is Dirichlet (`dirichlet[b]`), boundary after
/// boundary; nothing for cell unknowns, whose conditions enter through the
/// fluxes.
pub fn strong_bc_rows(
    cvt: ControlVolumeType,
    bnd_nodes: &[Vec<usize>],
    dirichlet: &Vec<bool>,
) -> (r: Vec<(usize, usize)>)
    requires
        dirichlet@.len() <= bnd_nodes@.len(),
    ensures
        cvt is Cells ==> r@.len() == 0,
        cvt is Nodes ==> r@ == strong_rows(
            bnd_nodes@.map_values(|v: Vec<usize>| v@),
            dirichlet@,
            dirichlet@.len() as int,
        ),
{
    let mut out: Vec<(usize, usize)> = Vec::new();
    match cvt {
        ControlVolumeType::Cells => {},
        ControlVolumeType::Nodes => {
            let ghost nb = bnd_nodes@.map_values(|v: Vec<usize>| v@);
            let mut i_bnd: usize = 0;
            while i_bnd < dirichlet.len()
                invariant
                    0 <= i_bnd <= dirichlet@.len(),
                    dirichlet@.len() <= bnd_nodes@.len(),
                    nb == bnd_nodes@.map_values(|v: Vec<usize>| v@),
                    out@ == strong_rows(nb, dirichlet@, i_bnd as int),
                decreases dirichlet@.len() - i_bnd,
            {
                if dirichlet[i_bnd] {
                    let nodes = &bnd_nodes[i_bnd];
                    assert(nb[i_bnd as int] == nodes@);
                    let ghost before = out@;
                    let mut k: usize = 0;
                    while k < nodes.len()
                        invariant
                            0 <= k <= nodes@.len(),
                            out@ == before + nodes@.take(k as int).map_values(
                                |cv: usize| (cv, i_bnd),
                            ),
                        decreases nodes@.len() - k,
                    {
                        out.push((nodes[k], i_bnd));
                        assert(nodes@.take(k as int + 1).map_values(|cv: usize| (cv, i_bnd))
                            =~= nodes@.take(k as int).map_values(|cv: usize| (cv, i_bnd)).push(
                            (nodes@[k as int], i_bnd),
                        ));
                        k = k + 1;
                    }
                    assert(nodes@.take(k as int) =~= nodes@);
                    assert(out@ =~= strong_rows(nb, dirichlet@, i_bnd as int + 1));
                } else {
                    assert(out@ =~= strong_rows(nb, dirichlet@, i_bnd as int + 1));
                }
                i_bnd = i_bnd + 1;
            }
        },
    }
    out
}

/// What a gradient update has to run: the centre gradients and/or the
/// face interpolation.
#[derive(Clone, Copy, Debug, PartialEq, Eq, Structural)]
pub struct GradientUpdatePlan {
    pub centers: bool,
    pub faces: bool,
}

/// The gradient methods that are implemented: Green-Gauss compact centre
/// gradients, averaged-corrected face interpolation.
pub open spec fn gradient_methods_implemented(
    up_to_date: bool,
    req: GradRequirements,
    methods: GradientMethods,
) -> bool {
    &&& (!up_to_date && (req.cell || req.face)) ==> methods.scheme is GreenGaussCompact
    &&& (!up_to_date && req.face) ==> methods.interp is AveragedCorrected
}

/// Decides what a gradient update runs: nothing when the gradients are up
/// to date; otherwise the centre gradients when any gradient is required,
/// and the face interpolation when face gradients are.
pub fn gradient_update_plan(up_to_date: bool, req: &GradRequirements, methods: &GradientMethods) -> (r:
    GradientUpdatePlan)
    requires
        gradient_methods_implemented(up_to_date, *req, *methods),
    ensures
        r.centers == (!up_to_date && (req.cell || req.face)),
        r.faces == (!up_to_date && req.face),
{
    let mut plan = GradientUpdatePlan { centers: false, faces: false };
    if !up_to_date {
        if req.cell() || req.face() {
            match methods.scheme {
                GradientScheme::GreenGaussCompact => {
                    plan.centers = true;
                },
                _ => {
                    return unreached();
                },
            }
        }
        if req.face() {
            match methods.interp {
                GradientInterpConfig::AveragedCorrected => {
                    plan.faces = true;
                },
                _ => {
                    return unreached();
                },
            }
        }
    }
    plan
}

/// The gradient update plan when the gradient methods are implemented for
/// what is required, `None` when they are not.
pub fn try_gradient_update_plan(up_to_date: bool, req: &GradRequirements, methods: &GradientMethods) -> (r:
    Option<GradientUpdatePlan>)
    ensures
        r is Some <==> gradient_methods_implemented(up_to_date, *req, *methods),
        r matches Some(p) ==> p.centers == (!up_to_date && (req.cell || req.face)) && p.faces == (
        !up_to_date && req.face),
{
    let needs_scheme = !up_to_date && (req.cell() || req.face());
    let needs_interp = !up_to_date && req.face();
    let scheme_ok = match methods.scheme {
        GradientScheme::GreenGaussCompact => true,
        _ => false,
    };
    let interp_ok = match methods.interp {
        GradientInterpConfig::AveragedCorrected => true,
        _ => false,
    };
    if (needs_scheme && !scheme_ok) || (needs_interp && !interp_ok) {
        None
    } else {
        Some(gradient_update_plan(up_to_date, req, methods))
    }
}

/// The cell a patch is, if it is one.
pub open spec fn patch_cell(p: Patch) -> Option<usize> {
    match p {
        Patch::Cell(c) => Some(c),
        Patch::Boundary(_) => None,
    }
}

/// The two control volumes on either side of an inner face: its end nodes
/// for node unknowns, the cells on its sides for cell unknowns (an inner
/// face has a cell on both sides).
pub fn pair_cvs(cvt: ControlVolumeType, nodes: [usize; 2], cells: [Patch; 2]) -> (r: [usize; 2])
    requires
        cvt is Cells ==> cells[0] is Cell && cells[1] is Cell,
    ensures
        cvt is Nodes ==> r == nodes,
        cvt is Cells ==> Some(r[0]) == patch_cell(cells[0]) && Some(r[1]) == patch_cell(cells[1]),
{
    match cvt {
        ControlVolumeType::Nodes => nodes,
        ControlVolumeType::Cells => {
            let a = match cells[0] {
                Patch::Cell(c) => c,
                Patch::Boundary(_) => {
                    return unreached();
                },
            };
            let b = match cells[1] {
                Patch::Cell(c) => c,
                Patch::Boundary(_) => {
                    return unreached();
                },
            };
            [a, b]
        },
    }
}

/// The control volumes that a flux through a face leaves (first) and
/// enters (second): the face's end nodes for node equations; for cell
/// equations the cells on its sides, a boundary side taking nothing.
pub fn flux_sides(cvt: ControlVolumeType, nodes: [usize; 2], cells: [Patch; 2]) -> (r: (
    Option<usize>,
    Option<usize>,
))
    ensures
        cvt is Nodes ==> r == (Some(nodes[0]), Some(nodes[1])),
        cvt is Cells ==> r == (patch_cell(cells[0]), patch_cell(cells[1])),
{
    match cvt {
        ControlVolumeType::Nodes => (Some(nodes[0]), Some(nodes[1])),
        ControlVolumeType::Cells => {
            let a = match cells[0] {
                Patch::Cell(c) => Some(c),
                Patch::Boundary(_) => None,
            };
            let b = match cells[1] {
                Patch::Cell(c) => Some(c),
                Patch::Boundary(_) => None,
            };
            (a, b)
        },
    }
}

/// The number of neighbours of the first `n` control volumes.
pub open spec fn neighbour_count(neighbors: Seq<Seq<usize>>, n: int) -> int
    decreases n,
{
    if n <= 0 {
        0
    } else {
        neighbour_count(neighbors, n - 1) + neighbors[n - 1].len()
    }
}

/// The matrix pattern has one diagonal entry per control volume and one
/// entry per neighbour: every (i, i) and every (i, neighbour of i) is in
/// it, it has no other entry, and it has as many entries as control volumes
/// and neighbours together.
pub proof fn lemma_matrix_pattern_law(neighbors: Seq<Seq<usize>>, n: int)
    requires
        0 <= n <= neighbors.len(),
        n <= usize::MAX + 1,
    ensures
        matrix_pattern(neighbors, n).len() == n + neighbour_count(neighbors, n),
        forall|i: int| 0 <= i < n ==> #[trigger] matrix_pattern(neighbors, n).contains(
            (i as usize, i as usize),
        ),
        forall|i: int, k: int|
            0 <= i < n && 0 <= k < neighbors[i].len() ==> matrix_pattern(neighbors, n).contains(
                (i as usize, #[trigger] neighbors[i][k]),
            ),
        forall|e: (usize, usize)|
            #[trigger] matrix_pattern(neighbors, n).contains(e) ==> e.0 < n && (e.1 == e.0
                || neighbors[e.0 as int].contains(e.1)),
    decreases n,
{
    if n > 0 {
        lemma_matrix_pattern_law(neighbors, n - 1);
        let prev = matrix_pattern(neighbors, n - 1);
        let i = (n - 1) as usize;
        let row = row_pattern(i, neighbors[n - 1]);
        let all = matrix_pattern(neighbors, n);
        assert(all == prev + row);
        assert(row.len() == 1 + neighbors[n - 1].len());
        assert forall|j: int| 0 <= j < n implies #[trigger] all.contains((j as usize, j as usize)) by {
            if j < n - 1 {
                assert(prev.contains((j as usize, j as usize)));
                let q = choose|q: int| 0 <= q < prev.len() && prev[q] == (j as usize, j as usize);
                assert(all[q] == prev[q]);
            } else {
                assert(row[0] == (i, i));
                assert(all[prev.len() as int] == row[0]);
            }
        }
        assert forall|j: int, k: int|
            0 <= j < n && 0 <= k < neighbors[j].len() implies all.contains(
            (j as usize, #[trigger] neighbors[j][k]),
        ) by {
            if j < n - 1 {
                assert(prev.contains((j as usize, neighbors[j][k])));
                let q = choose|q: int| 0 <= q < prev.len() && prev[q] == (j as usize, neighbors[j][k]);
                assert(all[q] == prev[q]);
            } else {
                assert(row[k + 1] == (i, neighbors[n - 1][k]));
                assert(all[prev.len() + k + 1] == row[k + 1]);
            }
        }
        assert forall|e: (usize, usize)| #[trigger] all.contains(e) implies e.0 < n && (e.1 == e.0
            || neighbors[e.0 as int].contains(e.1)) by {
            let q = choose|q: int| 0 <= q < all.len() && all[q] == e;
            if q < prev.len() {
                assert(prev[q] == e);
                assert(prev.contains(e));
            } else {
                let r = q - prev.len();
                assert(row[r] == e);
                if r > 0 {
                    assert(neighbors[n - 1][r - 1] == e.1);
                }
            }
        }
    }
}

} // verus!
