use vstd::prelude::*;
use crate::requirements::GradRequirements;

verus! {

/// Time integration scheme. Only explicit schemes are usable for now.
#[derive(Clone, Copy, Debug, PartialEq, Eq, Structural)]
pub enum TimeIntegration {
    ForwardEuler,
}

/// Discretisation of the Laplacian operator.
#[derive(Clone, Copy, Debug, PartialEq, Eq, Structural)]
pub enum LaplacianScheme {
    OrthogonalCorrection,
}

/// Discretisation of the convection operator.
#[derive(Clone, Copy, Debug, PartialEq, Eq, Structural)]
pub enum ConvectionScheme {
    UpwindSecondOrder,
    /// Not recommended, very unstable.
    CentralDifference,
}

/// Discretisation of the divergence operator.
#[derive(Clone, Copy, Debug, PartialEq, Eq, Structural)]
pub enum DivergenceScheme {
    Basic,
}

/// Method that reconstructs gradients at the control-volume centres.
#[derive(Clone, Copy, Debug, PartialEq, Eq, Structural)]
pub enum GradientScheme {
    GreenGaussCompact,
    GreenGaussExtended,
    LeastSquare,
}

/// Method that interpolates gradients onto the faces.
#[derive(Clone, Copy, Debug, PartialEq, Eq, Structural)]
pub enum GradientInterpConfig {
    Averaged,
    AveragedCorrected,
}

impl Default for GradientInterpConfig {
    fn default() -> (r: Self)
        ensures
            r == GradientInterpConfig::AveragedCorrected,
    {
        GradientInterpConfig::AveragedCorrected
    }
}

/// The gradient methods used for one field.
#[derive(Clone, Copy, Debug, PartialEq, Eq, Structural)]
pub struct GradientMethods {
    pub scheme: GradientScheme,
    pub interp: GradientInterpConfig,
}

/// User overrides of the gradient methods of a variable; `None` keeps the
/// variable's default.
#[derive(Clone, Copy, Debug, PartialEq, Eq, Structural)]
pub struct GradientConfig {
    pub scheme: Option<GradientScheme>,
    pub interp: Option<GradientInterpConfig>,
}

/// The schemes used to discretise the operators of one equation.
#[derive(Clone, Copy, Debug, PartialEq, Eq, Structural)]
pub struct Schemes {
    pub transient: TimeIntegration,
    pub laplacian: LaplacianScheme,
    pub convection: ConvectionScheme,
    pub divergence: DivergenceScheme,
}

/// User overrides of the schemes of an equation; `None` keeps the
/// equation's default.
#[derive(Clone, Copy, Debug, PartialEq, Eq, Structural)]
pub struct SchemesConfig {
    pub transient: Option<TimeIntegration>,
    pub laplacian: Option<LaplacianScheme>,
    pub convection: Option<ConvectionScheme>,
    pub divergence: Option<DivergenceScheme>,
}

/// Space discretisation schemes of the first solver generation.
#[derive(Clone, Copy, Debug, PartialEq, Eq, Structural)]
pub enum SpaceDiscretizationConfig {
    CentralDifference,
    Upwind,
    SecondOrderUpwind,
    Fromm,
    Quick,
}

/// Time discretisation schemes of the first solver generation.
#[derive(Clone, Copy, Debug, PartialEq, Eq, Structural)]
pub enum TimeDiscretizationConfig {
    FirstOrderEuler,
}

/// Face interpolation of cell values.
#[derive(Clone, Copy, Debug, PartialEq, Eq, Structural)]
pub enum InterpolationConfig {
    Linear,
    RhieChow,
}

impl Default for InterpolationConfig {
    fn default() -> (r: Self)
        ensures
            r is Linear,
    {
        InterpolationConfig::Linear
    }
}

/// Decomposition of the face area vector into an orthogonal part and a
/// correction.
#[derive(Clone, Copy, Debug, PartialEq, Eq, Structural)]
pub enum DecompositionConfig {
    MinimumCorrection,
    OrthogonalCorrection,
    OverRelaxed,
}

impl Default for DecompositionConfig {
    fn default() -> (r: Self)
        ensures
            r is MinimumCorrection,
    {
        DecompositionConfig::MinimumCorrection
    }
}

/// `value` when it is set, `default` otherwise.
pub open spec fn or_default<T>(value: Option<T>, default: T) -> T {
    match value {
        Some(v) => v,
        None => default,
    }
}

/// The schemes of an equation once the user's overrides are applied to its
/// defaults.
pub open spec fn configured_schemes(defaults: Schemes, config: SchemesConfig) -> Schemes {
    Schemes {
        transient: or_default(config.transient, defaults.transient),
        laplacian: or_default(config.laplacian, defaults.laplacian),
        convection: or_default(config.convection, defaults.convection),
        divergence: or_default(config.divergence, defaults.divergence),
    }
}

/// The gradient methods of a variable once the user's overrides are applied
/// to its defaults.
pub open spec fn configured_gradient_methods(
    defaults: GradientMethods,
    config: GradientConfig,
) -> GradientMethods {
    GradientMethods {
        scheme: or_default(config.scheme, defaults.scheme),
        interp: or_default(config.interp, defaults.interp),
    }
}

impl Default for SchemesConfig {
    fn default() -> (r: Self)
        ensures
            r == (SchemesConfig { transient: None, laplacian: None, convection: None, divergence: None }),
    {
        SchemesConfig { transient: None, laplacian: None, convection: None, divergence: None }
    }
}

impl Default for GradientConfig {
    fn default() -> (r: Self)
        ensures
            r == (GradientConfig { scheme: None, interp: None }),
    {
        GradientConfig { scheme: None, interp: None }
    }
}

impl TimeIntegration {
    pub open spec fn spec_required_grads(self) -> GradRequirements {
        match self {
            TimeIntegration::ForwardEuler => GradRequirements::spec_new(false, false),
        }
    }

    /// The gradients this scheme reads.
    pub fn required_grads(&self) -> (r: GradRequirements)
        ensures
            r == self.spec_required_grads(),
    {
        match *self {
            TimeIntegration::ForwardEuler => GradRequirements::new(false, false),
        }
    }
}

impl LaplacianScheme {
    pub open spec fn spec_required_grads(self) -> GradRequirements {
        match self {
            LaplacianScheme::OrthogonalCorrection => GradRequirements::spec_new(false, true),
        }
    }

    /// The gradients this scheme reads.
    pub fn required_grads(&self) -> (r: GradRequirements)
        ensures
            r == self.spec_required_grads(),
    {
        match *self {
            LaplacianScheme::OrthogonalCorrection => GradRequirements::new(false, true),
        }
    }
}

impl ConvectionScheme {
    pub open spec fn spec_required_grads(self) -> GradRequirements {
        match self {
            ConvectionScheme::UpwindSecondOrder => GradRequirements::spec_new(true, true),
            ConvectionScheme::CentralDifference => GradRequirements::spec_new(false, true),
        }
    }

    /// The gradients this scheme reads.
    pub fn required_grads(&self) -> (r: GradRequirements)
        ensures
            r == self.spec_required_grads(),
    {
        match *self {
            ConvectionScheme::UpwindSecondOrder => GradRequirements::new(true, true),
            ConvectionScheme::CentralDifference => GradRequirements::new(false, true),
        }
    }
}

impl DivergenceScheme {
    pub open spec fn spec_required_grads(self) -> GradRequirements {
        match self {
            DivergenceScheme::Basic => GradRequirements::spec_new(true, false),
        }
    }

    /// The gradients this scheme reads (the cell gradients, through the face
    /// values they reconstruct).
    pub fn required_grads(&self) -> (r: GradRequirements)
        ensures
            r == self.spec_required_grads(),
    {
        match *self {
            DivergenceScheme::Basic => GradRequirements::new(true, false),
        }
    }
}

/// Applies the user's overrides to the default schemes of an equation.
pub fn schemes_from_config(defaults: Schemes, config: SchemesConfig) -> (r: Schemes)
    ensures
        r == configured_schemes(defaults, config),
{
    let mut schemes = defaults;
    if let Some(transient) = config.transient {
        schemes.transient = transient;
    }
    if let Some(convection) = config.convection {
        schemes.convection = convection;
    }
    if let Some(laplacian) = config.laplacian {
        schemes.laplacian = laplacian;
    }
    if let Some(divergence) = config.divergence {
        schemes.divergence = divergence;
    }
    schemes
}

/// Applies the user's overrides to the default gradient methods of a variable.
pub fn gradient_methods_from_config(defaults: GradientMethods, config: GradientConfig) -> (r:
    GradientMethods)
    ensures
        r == configured_gradient_methods(defaults, config),
{
    let mut method = defaults;
    if let Some(interp) = config.interp {
        method.interp = interp;
    }
    if let Some(scheme) = config.scheme {
        method.scheme = scheme;
    }
    method
}

/// An empty configuration keeps every default scheme.
pub proof fn lemma_empty_config_keeps_defaults(defaults: Schemes, gdefaults: GradientMethods)
    ensures
        configured_schemes(
            defaults,
            SchemesConfig { transient: None, laplacian: None, convection: None, divergence: None },
        ) == defaults,
        configured_gradient_methods(gdefaults, GradientConfig { scheme: None, interp: None })
            == gdefaults,
{
}

/// A configuration that sets every scheme ignores the defaults entirely.
pub proof fn lemma_full_config_overrides(
    d1: Schemes,
    d2: Schemes,
    config: SchemesConfig,
    g1: GradientMethods,
    g2: GradientMethods,
    gconfig: GradientConfig,
)
    requires
        config.transient is Some,
        config.laplacian is Some,
        config.convection is Some,
        config.divergence is Some,
        gconfig.scheme is Some,
        gconfig.interp is Some,
    ensures
        configured_schemes(d1, config) == configured_schemes(d2, config),
        configured_gradient_methods(g1, gconfig) == configured_gradient_methods(g2, gconfig),
{
}

/// Applying a configuration twice is the same as applying it once.
pub proof fn lemma_config_idempotent(defaults: Schemes, config: SchemesConfig)
    ensures
        configured_schemes(configured_schemes(defaults, config), config) == configured_schemes(
            defaults,
            config,
        ),
{
}

} // verus!
