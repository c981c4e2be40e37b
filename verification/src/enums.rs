use vstd::prelude::*;
use crate::operators::Op;
use crate::equation::CfdError;
use crate::equations_set::{add_outcome, EquationsSet};
use crate::maps::equations_contents;
use crate::poisson::{
    is_main_lhs, is_main_rhs, main_gradient_methods, main_schemes, MainEquations, MainVariables,
};
use crate::schemes::{
    configured_gradient_methods, configured_schemes, gradient_methods_from_config,
    schemes_from_config, GradientConfig, GradientMethods, Schemes, SchemesConfig,
};
use crate::variables::{ControlVolumeType, Dimension, Variable, VariableView};

verus! {

/// The variables of a solver, as an enumeration its author writes: each
/// has a name, a dimension, control volumes and default gradient methods.
pub trait VariablesEnum {
    spec fn spec_var(&self) -> VariableView;

    spec fn spec_default_gradient_method(&self) -> GradientMethods;

    fn name(&self) -> (r: &'static str)
        ensures
            r@ == self.spec_var().0,
    ;

    fn dim(&self) -> (r: Dimension)
        ensures
            r == self.spec_var().1,
    ;

    fn cvt(&self) -> (r: ControlVolumeType)
        ensures
            r == self.spec_var().2,
    ;

    fn var(&self) -> (r: Variable)
        ensures
            r@ == self.spec_var(),
    ;

    fn default_gradient_method(&self) -> (r: GradientMethods)
        ensures
            r == self.spec_default_gradient_method(),
    ;

    /// The gradient methods of the variable once the user's overrides are
    /// applied to its defaults.
    fn gradient_method(&self, gradient_config: GradientConfig) -> (r: GradientMethods)
        ensures
            r == configured_gradient_methods(self.spec_default_gradient_method(), gradient_config),
    {
        gradient_methods_from_config(self.default_gradient_method(), gradient_config)
    }
}

/// The equations of a solver, as an enumeration its author writes: each has
/// a name, two sides and default schemes. `is_lhs` and `is_rhs` say which
/// trees the sides are.
pub trait EquationsEnum {
    spec fn spec_name(&self) -> Seq<char>;

    spec fn is_lhs(&self, op: Op) -> bool;

    spec fn is_rhs(&self, op: Op) -> bool;

    spec fn spec_default_schemes(&self) -> Schemes;

    fn name(&self) -> (r: &'static str)
        ensures
            r@ == self.spec_name(),
    ;

    fn lhs(&self) -> (r: Op)
        ensures
            self.is_lhs(r),
    ;

    fn rhs(&self) -> (r: Op)
        ensures
            self.is_rhs(r),
    ;

    fn default_schemes(&self) -> (r: Schemes)
        ensures
            r == self.spec_default_schemes(),
    ;

    /// The schemes of the equation once the user's overrides are applied to
    /// its defaults.
    fn schemes(&self, schemes_config: SchemesConfig) -> (r: Schemes)
        ensures
            r == configured_schemes(self.spec_default_schemes(), schemes_config),
    {
        schemes_from_config(self.default_schemes(), schemes_config)
    }
}

/// The scheme overrides a case gives each equation of an enumeration.
pub trait EquationsEnumConfigTrait<E: EquationsEnum> {
    spec fn spec_schemes_config(&self, equations_enum: E) -> SchemesConfig;

    fn schemes_configs(&self, equations_enum: &E) -> (r: SchemesConfig)
        ensures
            r == self.spec_schemes_config(*equations_enum),
    ;
}

/// The same overrides for every equation.
impl<E: EquationsEnum> EquationsEnumConfigTrait<E> for SchemesConfig {
    open spec fn spec_schemes_config(&self, equations_enum: E) -> SchemesConfig {
        *self
    }

    fn schemes_configs(&self, equations_enum: &E) -> (r: SchemesConfig) {
        *self
    }
}

/// The schemes that `config` gives the equation `e`.
pub open spec fn enum_schemes<E: EquationsEnum, EC: EquationsEnumConfigTrait<E>>(
    e: E,
    config: EC,
) -> Schemes {
    configured_schemes(e.spec_default_schemes(), config.spec_schemes_config(e))
}

impl EquationsSet {
    /// Builds the equation `enum_variant` (its sides, with the schemes that
    /// `equations_config` gives it) and adds it under its name: see
    /// `add_outcome`. The sides are those that the enumeration's `lhs` and
    /// `rhs` return.
    pub fn add_eq_from_enum<E: EquationsEnum, EC: EquationsEnumConfigTrait<E>>(
        &mut self,
        enum_variant: &E,
        equations_config: &EC,
    ) -> (r: Result<(), CfdError>)
        ensures
            exists|lhs: Op, rhs: Op|
                #![trigger enum_variant.is_lhs(lhs), enum_variant.is_rhs(rhs)]
                enum_variant.is_lhs(lhs) && enum_variant.is_rhs(rhs) && add_outcome(
                    equations_contents(old(self).map),
                    equations_contents(final(self).map),
                    r,
                    enum_variant.spec_name(),
                    lhs,
                    rhs,
                    enum_schemes(*enum_variant, *equations_config),
                ),
    {
        let name = enum_variant.name();
        let lhs = enum_variant.lhs();
        let rhs = enum_variant.rhs();
        let schemes = enum_variant.schemes(equations_config.schemes_configs(enum_variant));
        let ghost (l, rr) = (lhs, rhs);
        let r = self.add_eq_from_parts(name.to_owned(), lhs, rhs, &schemes);
        assert(enum_variant.is_lhs(l) && enum_variant.is_rhs(rr));
        r
    }
}

impl VariablesEnum for MainVariables {
    open spec fn spec_var(&self) -> VariableView {
        self.var_view()
    }

    open spec fn spec_default_gradient_method(&self) -> GradientMethods {
        main_gradient_methods()
    }

    fn name(&self) -> (r: &'static str) {
        MainVariables::name(self)
    }

    fn dim(&self) -> (r: Dimension) {
        MainVariables::dim(self)
    }

    fn cvt(&self) -> (r: ControlVolumeType) {
        MainVariables::cvt(self)
    }

    fn var(&self) -> (r: Variable) {
        MainVariables::var(self)
    }

    fn default_gradient_method(&self) -> (r: GradientMethods) {
        MainVariables::default_gradient_method(self)
    }
}

impl EquationsEnum for MainEquations {
    open spec fn spec_name(&self) -> Seq<char> {
        MainEquations::spec_name(*self)@
    }

    open spec fn is_lhs(&self, op: Op) -> bool {
        is_main_lhs(*self, op)
    }

    open spec fn is_rhs(&self, op: Op) -> bool {
        is_main_rhs(*self, op)
    }

    open spec fn spec_default_schemes(&self) -> Schemes {
        main_schemes()
    }

    fn name(&self) -> (r: &'static str) {
        MainEquations::name(self)
    }

    fn lhs(&self) -> (r: Op) {
        MainEquations::lhs(self)
    }

    fn rhs(&self) -> (r: Op) {
        MainEquations::rhs(self)
    }

    fn default_schemes(&self) -> (r: Schemes) {
        MainEquations::default_schemes(self)
    }
}

} // verus!
