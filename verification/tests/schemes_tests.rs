use cfd_rs::requirements::GradRequirements;
use cfd_rs::schemes::{
    gradient_methods_from_config, schemes_from_config, ConvectionScheme, DecompositionConfig,
    DivergenceScheme, GradientConfig, GradientInterpConfig, GradientMethods, GradientScheme,
    InterpolationConfig, LaplacianScheme, Schemes, SchemesConfig, TimeIntegration,
};

fn defaults() -> Schemes {
    Schemes {
        transient: TimeIntegration::ForwardEuler,
        laplacian: LaplacianScheme::OrthogonalCorrection,
        convection: ConvectionScheme::UpwindSecondOrder,
        divergence: DivergenceScheme::Basic,
    }
}

#[test]
fn schemes_require_their_gradients() {
    assert_eq!(TimeIntegration::ForwardEuler.required_grads(), GradRequirements::new(false, false));
    assert_eq!(LaplacianScheme::OrthogonalCorrection.required_grads(), GradRequirements::new(false, true));
    assert_eq!(ConvectionScheme::UpwindSecondOrder.required_grads(), GradRequirements::new(true, true));
    assert_eq!(ConvectionScheme::CentralDifference.required_grads(), GradRequirements::new(false, true));
    assert_eq!(DivergenceScheme::Basic.required_grads(), GradRequirements::new(true, false));
}

#[test]
fn empty_config_keeps_default_schemes() {
    let r = schemes_from_config(defaults(), SchemesConfig::default());
    assert_eq!(r, defaults());
}

#[test]
fn config_overrides_only_what_it_sets() {
    let config = SchemesConfig {
        transient: None,
        laplacian: None,
        convection: Some(ConvectionScheme::CentralDifference),
        divergence: None,
    };
    let r = schemes_from_config(defaults(), config);
    assert_eq!(r.convection, ConvectionScheme::CentralDifference);
    assert_eq!(r.transient, TimeIntegration::ForwardEuler);
    assert_eq!(r.laplacian, LaplacianScheme::OrthogonalCorrection);
    assert_eq!(r.divergence, DivergenceScheme::Basic);
    // applying twice is applying once
    assert_eq!(schemes_from_config(r, config), r);
}

#[test]
fn gradient_config_overrides() {
    let d = GradientMethods {
        scheme: GradientScheme::GreenGaussCompact,
        interp: GradientInterpConfig::AveragedCorrected,
    };
    assert_eq!(gradient_methods_from_config(d, GradientConfig::default()), d);
    let c = GradientConfig { scheme: Some(GradientScheme::LeastSquare), interp: Some(GradientInterpConfig::Averaged) };
    let r = gradient_methods_from_config(d, c);
    assert_eq!(r.scheme, GradientScheme::LeastSquare);
    assert_eq!(r.interp, GradientInterpConfig::Averaged);
}

#[test]
fn configuration_defaults() {
    assert_eq!(GradientInterpConfig::default(), GradientInterpConfig::AveragedCorrected);
    assert_eq!(InterpolationConfig::default(), InterpolationConfig::Linear);
    assert_eq!(DecompositionConfig::default(), DecompositionConfig::MinimumCorrection);
}
