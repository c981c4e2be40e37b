use vstd::prelude::*;
use crate::equation::{
    equation_ok, equation_terms, terms_requirements, unknown_candidates, CfdError, Equation,
};
use crate::equations_set::add_outcome;
use crate::equations_set::EquationsSet;
use crate::maps::equations_contents;
use crate::operators::{gradient, laplacian, DifferentialOperator, FieldOperator, Op};
use crate::schemes::{
    configured_gradient_methods, configured_schemes, gradient_methods_from_config,
    schemes_from_config, ConvectionScheme, DivergenceScheme, GradientConfig,
    GradientInterpConfig, GradientMethods, GradientScheme, LaplacianScheme, Schemes,
    SchemesConfig, TimeIntegration,
};
use crate::variables::{ControlVolumeType, Dimension, IntegrationCategory, Variable};

verus! {

/// Functions a user of the Poisson solver supplies.
pub trait PoissonUserFunctions {

}

/// The control volumes the Poisson solver works on.
pub open spec fn poisson_cvt() -> ControlVolumeType {
    ControlVolumeType::Nodes
}

/// The default schemes of the Poisson solver's equations.
pub open spec fn main_schemes() -> Schemes {
    Schemes {
        transient: TimeIntegration::ForwardEuler,
        convection: ConvectionScheme::UpwindSecondOrder,
        laplacian: LaplacianScheme::OrthogonalCorrection,
        divergence: DivergenceScheme::Basic,
    }
}

/// The default gradient methods of the Poisson solver's variables.
pub open spec fn main_gradient_methods() -> GradientMethods {
    GradientMethods {
        scheme: GradientScheme::GreenGaussCompact,
        interp: GradientInterpConfig::AveragedCorrected,
    }
}

/// The variables of the Poisson solver.
#[derive(Clone, Copy, Debug, PartialEq, Eq, Structural, Hash)]
pub enum MainVariables {
    T,
    Grad,
    Laplacian,
}

/// The equations of the Poisson solver.
#[derive(Clone, Copy, Debug, PartialEq, Eq, Structural, Hash)]
pub enum MainEquations {
    Poisson,
    Laplacian,
    Gradient,
}

impl MainVariables {
    pub open spec fn spec_name(self) -> &'static str {
        match self {
            MainVariables::T => "T",
            MainVariables::Grad => "Grad_T",
            MainVariables::Laplacian => "Laplacian_T",
        }
    }

    pub open spec fn spec_dim(self) -> Dimension {
        match self {
            MainVariables::T => Dimension::Scalar,
            MainVariables::Grad => Dimension::Vector2,
            MainVariables::Laplacian => Dimension::Scalar,
        }
    }

    pub fn name(&self) -> (r: &'static str)
        ensures
            r == self.spec_name(),
    {
        match self {
            MainVariables::T => "T",
            MainVariables::Grad => "Grad_T",
            MainVariables::Laplacian => "Laplacian_T",
        }
    }

    pub fn dim(&self) -> (r: Dimension)
        ensures
            r == self.spec_dim(),
    {
        match self {
            MainVariables::T => Dimension::Scalar,
            MainVariables::Grad => Dimension::Vector2,
            MainVariables::Laplacian => Dimension::Scalar,
        }
    }

    pub fn cvt(&self) -> (r: ControlVolumeType)
        ensures
            r == poisson_cvt(),
    {
        ControlVolumeType::Nodes
    }

    /// The variable: its name, dimension and control volumes.
    pub fn var(&self) -> (r: Variable)
        ensures
            r@ == (self.spec_name()@, self.spec_dim(), poisson_cvt()),
    {
        Variable::new(self.name().to_owned(), self.dim(), self.cvt())
    }

    pub fn default_gradient_method(&self) -> (r: GradientMethods)
        ensures
            r == main_gradient_methods(),
    {
        GradientMethods {
            scheme: GradientScheme::GreenGaussCompact,
            interp: GradientInterpConfig::AveragedCorrected,
        }
    }

    /// The gradient methods of the variable once the user's overrides are
    /// applied to its defaults.
    pub fn gradient_method(&self, gradient_config: GradientConfig) -> (r: GradientMethods)
        ensures
            r == configured_gradient_methods(main_gradient_methods(), gradient_config),
    {
        gradient_methods_from_config(self.default_gradient_method(), gradient_config)
    }
}

/// The bit pattern of the `f64` value 1.0, the source term of the Poisson
/// equation.
pub const ONE_BITS: u64 = 0x3FF0_0000_0000_0000u64;

impl MainEquations {
    pub open spec fn spec_name(self) -> &'static str {
        match self {
            MainEquations::Poisson => "Poisson",
            MainEquations::Laplacian => "Laplacian",
            MainEquations::Gradient => "Gradient",
        }
    }

    pub fn name(&self) -> (r: &'static str)
        ensures
            r == self.spec_name(),
    {
        match self {
            MainEquations::Poisson => "Poisson",
            MainEquations::Laplacian => "Laplacian",
            MainEquations::Gradient => "Gradient",
        }
    }

    /// Left-hand side: the implicit Laplacian of `T` for the Poisson
    /// equation, the implicit field the other equations compute.
    pub fn lhs(&self) -> (r: Op)
        ensures
            is_main_lhs(*self, r),
    {
        match self {
            MainEquations::Poisson => laplacian(MainVariables::T.var(), IntegrationCategory::Implicit),
            MainEquations::Gradient => Op::FieldOperator(
                FieldOperator::Field(MainVariables::Grad.var(), IntegrationCategory::Implicit),
            ),
            MainEquations::Laplacian => Op::FieldOperator(
                FieldOperator::Field(MainVariables::Laplacian.var(), IntegrationCategory::Implicit),
            ),
        }
    }

    /// Right-hand side: the unit source for the Poisson equation, the
    /// gradient of `T`, and the explicit Laplacian of `T`.
    pub fn rhs(&self) -> (r: Op)
        ensures
            is_main_rhs(*self, r),
    {
        match self {
            MainEquations::Poisson => Op::Scalar(ONE_BITS),
            MainEquations::Gradient => gradient(MainVariables::T.var()),
            MainEquations::Laplacian => laplacian(
                MainVariables::T.var(),
                IntegrationCategory::Explicit,
            ),
        }
    }

    pub fn default_schemes(&self) -> (r: Schemes)
        ensures
            r == main_schemes(),
    {
        Schemes {
            transient: TimeIntegration::ForwardEuler,
            convection: ConvectionScheme::UpwindSecondOrder,
            laplacian: LaplacianScheme::OrthogonalCorrection,
            divergence: DivergenceScheme::Basic,
        }
    }

    /// The schemes of the equation once the user's overrides are applied to
    /// its defaults.
    pub fn schemes(&self, schemes_config: SchemesConfig) -> (r: Schemes)
        ensures
            r == configured_schemes(main_schemes(), schemes_config),
    {
        schemes_from_config(self.default_schemes(), schemes_config)
    }
}

impl MainVariables {
    pub open spec fn var_view(self) -> (Seq<char>, Dimension, ControlVolumeType) {
        (self.spec_name()@, self.spec_dim(), poisson_cvt())
    }
}

/// The variable that an equation of the Poisson solver solves for.
pub open spec fn main_unknown(e: MainEquations) -> MainVariables {
    match e {
        MainEquations::Poisson => MainVariables::T,
        MainEquations::Gradient => MainVariables::Grad,
        MainEquations::Laplacian => MainVariables::Laplacian,
    }
}

/// The left-hand side of an equation of the Poisson solver: the implicit
/// Laplacian of `T` for the Poisson equation, the implicit field of the
/// computed variable for the others.
pub open spec fn is_main_lhs(e: MainEquations, op: Op) -> bool {
    match e {
        MainEquations::Poisson => op matches Op::FieldOperator(
            FieldOperator::DifferentialOperator(
                DifferentialOperator::Laplacian(v, IntegrationCategory::Implicit),
            ),
        ) && v@ == MainVariables::T.var_view(),
        MainEquations::Gradient => op matches Op::FieldOperator(
            FieldOperator::Field(v, IntegrationCategory::Implicit),
        ) && v@ == MainVariables::Grad.var_view(),
        MainEquations::Laplacian => op matches Op::FieldOperator(
            FieldOperator::Field(v, IntegrationCategory::Implicit),
        ) && v@ == MainVariables::Laplacian.var_view(),
    }
}

/// The right-hand side of an equation of the Poisson solver: the unit
/// source, the gradient of `T`, the explicit Laplacian of `T`.
pub open spec fn is_main_rhs(e: MainEquations, op: Op) -> bool {
    match e {
        MainEquations::Poisson => op == Op::Scalar(ONE_BITS),
        MainEquations::Gradient => op matches Op::FieldOperator(FieldOperator::Gradient(v))
            && v@ == MainVariables::T.var_view(),
        MainEquations::Laplacian => op matches Op::FieldOperator(
            FieldOperator::DifferentialOperator(
                DifferentialOperator::Laplacian(v, IntegrationCategory::Explicit),
            ),
        ) && v@ == MainVariables::T.var_view(),
    }
}

/// What `EquationsSet::add_eq_from_enum` records under an equation's name:
/// its sides are those the equation gives, its unknown is the equation's
/// variable and its requirements come from the configured schemes.
pub open spec fn main_equation_built(
    eq: Equation,
    e: MainEquations,
    schemes_config: SchemesConfig,
) -> bool {
    &&& is_main_lhs(e, eq.spec_lhs())
    &&& is_main_rhs(e, eq.spec_rhs())
    &&& eq.spec_unknown()@ == main_unknown(e).var_view()
    &&& crate::maps::requirements_contents(eq.spec_requirements()) == terms_requirements(
        equation_terms(eq.spec_lhs(), eq.spec_rhs()),
        configured_schemes(main_schemes(), schemes_config),
    )
}

/// The equations of the Poisson solver name one unknown: the variable that
/// the equation computes.
pub proof fn lemma_main_equation_valid(e: MainEquations, lhs: Op, rhs: Op)
    requires
        is_main_lhs(e, lhs),
        is_main_rhs(e, rhs),
    ensures
        equation_ok(lhs, rhs),
        unknown_candidates(equation_terms(lhs, rhs))[0]@ == main_unknown(e).var_view(),
{
    let ops = equation_terms(lhs, rhs);
    reveal_with_fuel(unknown_candidates, 3);
    match e {
        MainEquations::Poisson => {
            assert(rhs.field_operators() =~= Seq::<FieldOperator>::empty());
            assert(ops =~= lhs.field_operators());
            assert(ops.drop_last() =~= Seq::<FieldOperator>::empty());
        },
        _ => {
            assert(ops.drop_last() =~= lhs.field_operators());
            assert(ops.drop_last().drop_last() =~= Seq::<FieldOperator>::empty());
        },
    }
}

/// Adding an equation of the Poisson solver under a free name succeeds and
/// records it as `main_equation_built` says.
proof fn lemma_main_added(
    e: MainEquations,
    config: SchemesConfig,
    old: Map<Seq<char>, Equation>,
    new: Map<Seq<char>, Equation>,
    r: Result<(), CfdError>,
)
    requires
        !old.dom().contains(e.spec_name()@),
        exists|lhs: Op, rhs: Op|
            #![trigger is_main_lhs(e, lhs), is_main_rhs(e, rhs)]
            is_main_lhs(e, lhs) && is_main_rhs(e, rhs) && add_outcome(
                old,
                new,
                r,
                e.spec_name()@,
                lhs,
                rhs,
                configured_schemes(main_schemes(), config),
            ),
    ensures
        r is Ok,
        new.dom() == old.dom().insert(e.spec_name()@),
        forall|n: Seq<char>| #[trigger] old.dom().contains(n) ==> new[n] == old[n],
        main_equation_built(new[e.spec_name()@], e, config),
{
    let (lhs, rhs) = choose|lhs: Op, rhs: Op|
        #![trigger is_main_lhs(e, lhs), is_main_rhs(e, rhs)]
        is_main_lhs(e, lhs) && is_main_rhs(e, rhs) && add_outcome(
            old,
            new,
            r,
            e.spec_name()@,
            lhs,
            rhs,
            configured_schemes(main_schemes(), config),
        );
    lemma_main_equation_valid(e, lhs, rhs);
}

/// The equations of the Poisson solver (the Poisson equation, the Laplacian
/// of `T` and the gradient of `T`), each with its configured schemes.
pub fn poisson_equations(
    poisson: SchemesConfig,
    lap: SchemesConfig,
    grad: SchemesConfig,
) -> (r: EquationsSet)
    ensures
        equations_contents(r.map).dom() == set![
            MainEquations::Poisson.spec_name()@,
            MainEquations::Laplacian.spec_name()@,
            MainEquations::Gradient.spec_name()@,
        ],
        main_equation_built(
            equations_contents(r.map)[MainEquations::Poisson.spec_name()@],
            MainEquations::Poisson,
            poisson,
        ),
        main_equation_built(
            equations_contents(r.map)[MainEquations::Laplacian.spec_name()@],
            MainEquations::Laplacian,
            lap,
        ),
        main_equation_built(
            equations_contents(r.map)[MainEquations::Gradient.spec_name()@],
            MainEquations::Gradient,
            grad,
        ),
{
    proof {
        reveal_strlit("Poisson");
        reveal_strlit("Laplacian");
        reveal_strlit("Gradient");
        assert("Poisson"@.len() == 7);
        assert("Laplacian"@.len() == 9);
        assert("Gradient"@.len() == 8);
    }
    let mut equations = EquationsSet::new();
    let ghost p = MainEquations::Poisson.spec_name()@;
    let ghost l = MainEquations::Laplacian.spec_name()@;
    let ghost c0 = equations_contents(equations.map);
    let r1 = equations.add_eq_from_enum(&MainEquations::Poisson, &poisson);
    let ghost c1 = equations_contents(equations.map);
    proof {
        lemma_main_added(MainEquations::Poisson, poisson, c0, c1, r1);
    }
    let r2 = equations.add_eq_from_enum(&MainEquations::Laplacian, &lap);
    let ghost c2 = equations_contents(equations.map);
    proof {
        lemma_main_added(MainEquations::Laplacian, lap, c1, c2, r2);
        assert(c1.dom().contains(p));
        assert(c2[p] == c1[p]);
    }
    let r3 = equations.add_eq_from_enum(&MainEquations::Gradient, &grad);
    let ghost c3 = equations_contents(equations.map);
    proof {
        lemma_main_added(MainEquations::Gradient, grad, c2, c3, r3);
        assert(c2.dom().contains(p));
        assert(c2.dom().contains(l));
        assert(c3[p] == c2[p]);
        assert(c3[l] == c2[l]);
        assert(c3.dom() =~= set![
            MainEquations::Poisson.spec_name()@,
            MainEquations::Laplacian.spec_name()@,
            MainEquations::Gradient.spec_name()@,
        ]);
    }
    equations
}

} // verus!
