use peroxide::numerical::integral::{integrate, Integral};
use tag_search::numeric::{NumericFieldValue, NumericMerge};
use tag_search::scalar::Float64;

fn number(value: f64) -> Float64 {
    Float64::from_bits(value.to_bits())
}

fn decode(value: Float64) -> f64 {
    f64::from_bits(value.to_bits())
}

fn exact(value: f64) -> NumericFieldValue {
    NumericFieldValue::Exact(number(value))
}

fn bell(sigma: f64, mean: f64) -> NumericFieldValue {
    NumericFieldValue::Normal { sigma: number(sigma), mean: number(mean) }
}

fn flat(min: f64, max: f64) -> NumericFieldValue {
    NumericFieldValue::Uniform { min: number(min), max: number(max) }
}

/// The density of a value at `x`: what the library states, and beyond that the
/// formula of the distribution.
fn density(value: &NumericFieldValue, x: f64) -> f64 {
    if let Some(stated) = value.get_value(number(x)) {
        return decode(stated);
    }
    match value {
        NumericFieldValue::Normal { sigma, mean } => {
            let sigma = decode(*sigma);
            let mean = decode(*mean);
            (1.0 / sigma / (2.0 * std::f64::consts::PI).sqrt())
                * (-0.5 * ((x - mean) / sigma).powi(2)).exp()
        }
        NumericFieldValue::Uniform { min, max } => 1.0 / (decode(*max) - decode(*min)),
        NumericFieldValue::Combination { components, scaling_factor, .. } => {
            let product: f64 = components.iter().map(|part| density(part, x)).product();
            product * decode(*scaling_factor)
        }
        _ => unreachable!(),
    }
}

fn mean_of(value: &NumericFieldValue) -> f64 {
    match (value.mean(), value) {
        (Some(stated), _) => decode(stated),
        (None, NumericFieldValue::Uniform { min, max }) => (decode(*min) + decode(*max)) / 2.0,
        _ => unreachable!(),
    }
}

fn sigma_of(value: &NumericFieldValue) -> f64 {
    match (value.sigma(), value) {
        (Some(stated), _) => decode(stated),
        (None, NumericFieldValue::Uniform { min, max }) => {
            (decode(*max) - decode(*min)) / 12.0_f64.sqrt()
        }
        _ => unreachable!(),
    }
}

fn integrate_over<F: Fn(f64, f64) -> f64>(value: &NumericFieldValue, f: F) -> f64 {
    let range =
        (mean_of(value) - 3.0 * sigma_of(value), mean_of(value) + 3.0 * sigma_of(value));
    integrate(|x| f(x, density(value, x)), range, Integral::G20K41(1.0e-3, 20))
}

fn product_at(parts: &[NumericFieldValue], x: f64) -> f64 {
    parts.iter().map(|part| density(part, x)).product()
}

fn combine(parts: Vec<NumericFieldValue>) -> NumericFieldValue {
    let count = parts.len() as f64;
    let mean_approx = parts.iter().map(mean_of).sum::<f64>() / count;
    let sigma_approx = parts.iter().map(sigma_of).sum::<f64>() / count;
    let range = (mean_approx - 3.0 * sigma_approx, mean_approx + 3.0 * sigma_approx);
    let method = Integral::G20K41(1.0e-3, 20);
    let area: f64 = integrate(|x| product_at(&parts, x), range, method);
    let mean: f64 = integrate(|x| x * product_at(&parts, x) / area, range, method);
    let variance: f64 =
        integrate(|x| (x - mean) * (x - mean) * product_at(&parts, x) / area, range, method);
    NumericFieldValue::combination(
        parts,
        number(area),
        number(1.0 / area),
        number(mean),
        number(variance.sqrt()),
    )
}

fn merge(values: Vec<NumericFieldValue>) -> NumericFieldValue {
    match NumericFieldValue::merge(values) {
        NumericMerge::Resolved(value) => value,
        NumericMerge::Combine(parts) => combine(parts),
    }
}

#[test]
fn uniform() {
    let uf = NumericFieldValue::Uniform { min: number(-0.1), max: number(0.5) };
    assert!((integrate_over(&uf, |_x, f| f) - 1.0).abs() < 0.01, "is no probability distribution");
    assert!((integrate_over(&uf, |x, f| f * x) - 0.2).abs() < 0.01, "has wrong mean");
    assert!(
        (integrate_over(&uf, |x, f| f * (x - 0.2).powi(2)) - 0.6 * 0.6 / 12.0).abs() < 0.01,
        "has wrong variance"
    );
}

#[test]
fn normal() {
    let uf = NumericFieldValue::Normal { sigma: number(0.4), mean: number(0.2) };
    assert!((integrate_over(&uf, |_x, f| f) - 1.0).abs() < 0.01, "is no probability distribution");
    assert!((integrate_over(&uf, |x, f| f * x) - 0.2).abs() < 0.01, "has wrong mean");
    assert!(
        (integrate_over(&uf, |x, f| f * (x - 0.2).powi(2)) - 0.4 * 0.4).abs() < 0.01,
        "has wrong variance"
    );
}

#[test]
fn combination() {
    let uf = merge(vec![
        NumericFieldValue::Uniform { min: number(-0.1), max: number(0.5) },
        NumericFieldValue::Uniform { min: number(0.2), max: number(0.4) },
    ]);
    assert!((integrate_over(&uf, |_x, f| f) - 1.0).abs() < 0.01, "is no probability distribution");
    assert!((integrate_over(&uf, |x, f| f * x) - 0.3).abs() < 0.01, "has wrong mean");
    assert!(
        (integrate_over(&uf, |x, f| f * (x - 0.2).powi(2)) - 0.2 * 0.2 / 12.0).abs() < 0.01,
        "has wrong variance"
    );
}

#[test]
fn equal_points_merge_to_the_point() {
    let merged = NumericFieldValue::merge(vec![exact(5.0), exact(5.0)]);
    assert_eq!(merged, NumericMerge::Resolved(exact(5.0)));
}

#[test]
fn different_points_merge_to_an_error() {
    let merged = NumericFieldValue::merge(vec![exact(5.0), exact(6.0)]);
    assert_eq!(merged, NumericMerge::Resolved(NumericFieldValue::Error));
}

#[test]
fn an_error_among_the_values_makes_the_merge_an_error() {
    for values in [
        vec![NumericFieldValue::Error],
        vec![exact(5.0), NumericFieldValue::Error],
        vec![NumericFieldValue::Error, exact(5.0), exact(5.0)],
        vec![bell(1.0, 0.0), flat(0.0, 1.0), NumericFieldValue::Error],
        vec![exact(5.0), exact(6.0), NumericFieldValue::Error],
    ] {
        assert_eq!(
            NumericFieldValue::merge(values),
            NumericMerge::Resolved(NumericFieldValue::Error)
        );
    }
}

#[test]
fn a_point_prevails_over_distributions() {
    let merged = NumericFieldValue::merge(vec![bell(1.0, 0.0), exact(5.0), flat(0.0, 1.0)]);
    assert_eq!(merged, NumericMerge::Resolved(exact(5.0)));
    let merged = NumericFieldValue::merge(vec![flat(0.0, 1.0), exact(5.0), exact(5.0)]);
    assert_eq!(merged, NumericMerge::Resolved(exact(5.0)));
    let merged = NumericFieldValue::merge(vec![exact(5.0), bell(1.0, 0.0), exact(6.0)]);
    assert_eq!(merged, NumericMerge::Resolved(NumericFieldValue::Error));
}

#[test]
fn a_single_point_is_the_result_whatever_it_holds() {
    assert_eq!(NumericFieldValue::merge(vec![exact(5.0)]), NumericMerge::Resolved(exact(5.0)));
    let merged = NumericFieldValue::merge(vec![exact(f64::NAN)]);
    match merged {
        NumericMerge::Resolved(NumericFieldValue::Exact(point)) => {
            assert_eq!(point.to_bits(), f64::NAN.to_bits())
        }
        other => panic!("{other:?}"),
    }
}

#[test]
fn points_are_compared_as_numbers() {
    let merged = NumericFieldValue::merge(vec![exact(0.0), exact(-0.0)]);
    assert_eq!(merged, NumericMerge::Resolved(exact(0.0)));
    let merged = NumericFieldValue::merge(vec![exact(-0.0), exact(0.0)]);
    assert_eq!(merged, NumericMerge::Resolved(exact(-0.0)));
    let merged = NumericFieldValue::merge(vec![exact(f64::NAN), exact(f64::NAN)]);
    assert_eq!(merged, NumericMerge::Resolved(NumericFieldValue::Error));
    let merged = NumericFieldValue::merge(vec![exact(1.0), exact(f64::NAN)]);
    assert_eq!(merged, NumericMerge::Resolved(NumericFieldValue::Error));
}

#[test]
fn distributions_alone_are_handed_back_to_be_combined() {
    let merged = NumericFieldValue::merge(vec![flat(-0.1, 0.5), bell(0.4, 0.2)]);
    assert_eq!(merged, NumericMerge::Combine(vec![flat(-0.1, 0.5), bell(0.4, 0.2)]));
    let merged = NumericFieldValue::merge(vec![flat(-0.1, 0.5)]);
    assert_eq!(merged, NumericMerge::Combine(vec![flat(-0.1, 0.5)]));
    let merged = NumericFieldValue::merge(Vec::new());
    assert_eq!(merged, NumericMerge::Combine(Vec::new()));
}

#[test]
fn the_decision_does_not_depend_on_the_order() {
    let merged = NumericFieldValue::merge(vec![exact(5.0), bell(1.0, 0.0), exact(5.0)]);
    let turned = NumericFieldValue::merge(vec![exact(5.0), exact(5.0), bell(1.0, 0.0)]);
    assert_eq!(merged, turned);
    let merged = NumericFieldValue::merge(vec![exact(5.0), NumericFieldValue::Error]);
    let turned = NumericFieldValue::merge(vec![NumericFieldValue::Error, exact(5.0)]);
    assert_eq!(merged, turned);
    let merged = NumericFieldValue::merge(vec![exact(6.0), exact(5.0)]);
    let turned = NumericFieldValue::merge(vec![exact(5.0), exact(6.0)]);
    assert_eq!(merged, turned);
}

#[test]
fn a_combination_is_built_from_the_integrals() {
    let parts = vec![flat(-0.1, 0.5), flat(0.2, 0.4)];
    let built = NumericFieldValue::combination(
        parts,
        number(0.25),
        number(4.0),
        number(0.3),
        number(0.05),
    );
    assert_eq!(
        built,
        NumericFieldValue::Combination {
            components: vec![flat(-0.1, 0.5), flat(0.2, 0.4)],
            scaling_factor: number(4.0),
            mean: number(0.3),
            sigma: number(0.05),
        }
    );
}

#[test]
fn a_product_without_area_is_an_error() {
    let parts = vec![flat(0.0, 1.0), flat(2.0, 3.0)];
    let built = NumericFieldValue::combination(
        parts,
        number(0.0),
        number(f64::INFINITY),
        number(f64::NAN),
        number(f64::NAN),
    );
    assert_eq!(built, NumericFieldValue::Error);
    let built = NumericFieldValue::combination(
        Vec::new(),
        number(-0.0),
        number(f64::NEG_INFINITY),
        number(f64::NAN),
        number(f64::NAN),
    );
    assert_eq!(built, NumericFieldValue::Error);
}

#[test]
fn disjoint_uniforms_merge_to_an_error() {
    assert_eq!(merge(vec![flat(0.0, 1.0), flat(2.0, 3.0)]), NumericFieldValue::Error);
}

#[test]
fn overlapping_uniforms_merge_to_a_density() {
    let merged = merge(vec![flat(-0.1, 0.5), flat(0.2, 0.4), flat(0.0, 0.3)]);
    assert!(matches!(merged, NumericFieldValue::Combination { .. }));
    assert!((integrate_over(&merged, |_x, f| f) - 1.0).abs() < 0.01);
    assert!((mean_of(&merged) - 0.25).abs() < 0.01);
    assert!((sigma_of(&merged) - 0.1 / 12.0_f64.sqrt()).abs() < 0.01);
}

#[test]
fn the_moments_do_not_depend_on_the_order() {
    let merged = merge(vec![flat(-0.1, 0.5), bell(0.1, 0.3), flat(0.2, 0.4)]);
    let turned = merge(vec![flat(0.2, 0.4), flat(-0.1, 0.5), bell(0.1, 0.3)]);
    assert!((mean_of(&merged) - mean_of(&turned)).abs() < 1.0e-3);
    assert!((sigma_of(&merged) - sigma_of(&turned)).abs() < 1.0e-3);
}

#[test]
fn a_uniform_merged_with_itself_keeps_its_spread() {
    let merged = merge(vec![flat(0.0, 1.0), flat(0.0, 1.0)]);
    assert!((mean_of(&merged) - 0.5).abs() < 0.01);
    assert!((sigma_of(&merged) - sigma_of(&flat(0.0, 1.0))).abs() < 0.01);
}

#[test]
fn normals_merged_are_narrower_than_either() {
    let merged = merge(vec![bell(0.4, 0.2), bell(0.4, 0.2)]);
    assert!((mean_of(&merged) - 0.2).abs() < 0.01);
    assert!(sigma_of(&merged) < 0.4);
    assert!((sigma_of(&merged) - 0.4 / 2.0_f64.sqrt()).abs() < 0.01);
}

#[test]
fn the_stated_mean_is_every_mean_but_a_uniform_one() {
    assert_eq!(bell(0.4, 0.2).mean(), Some(number(0.2)));
    assert_eq!(exact(5.0).mean(), Some(number(5.0)));
    assert_eq!(flat(-0.1, 0.5).mean(), None);
    let combination = NumericFieldValue::Combination {
        components: vec![flat(0.0, 1.0)],
        scaling_factor: number(1.0),
        mean: number(0.5),
        sigma: number(0.25),
    };
    assert_eq!(combination.mean(), Some(number(0.5)));
    assert!(decode(NumericFieldValue::Error.mean().unwrap()).is_nan());
}

#[test]
fn the_stated_sigma_is_every_sigma_but_a_uniform_one() {
    assert_eq!(bell(0.4, 0.2).sigma(), Some(number(0.4)));
    assert_eq!(exact(5.0).sigma(), Some(number(0.0)));
    assert_eq!(flat(-0.1, 0.5).sigma(), None);
    let combination = NumericFieldValue::Combination {
        components: vec![flat(0.0, 1.0)],
        scaling_factor: number(1.0),
        mean: number(0.5),
        sigma: number(0.25),
    };
    assert_eq!(combination.sigma(), Some(number(0.25)));
    assert!(decode(NumericFieldValue::Error.sigma().unwrap()).is_nan());
}

#[test]
fn the_density_of_a_point_is_one_at_the_point_and_zero_elsewhere() {
    assert_eq!(exact(5.0).get_value(number(5.0)), Some(number(1.0)));
    assert_eq!(exact(5.0).get_value(number(5.5)), Some(number(0.0)));
    assert_eq!(exact(0.0).get_value(number(-0.0)), Some(number(1.0)));
    assert_eq!(exact(f64::NAN).get_value(number(f64::NAN)), Some(number(0.0)));
}

#[test]
fn the_density_of_a_uniform_is_zero_outside_its_bounds() {
    let value = flat(-0.1, 0.5);
    assert_eq!(value.get_value(number(-0.2)), Some(number(0.0)));
    assert_eq!(value.get_value(number(0.6)), Some(number(0.0)));
    assert_eq!(value.get_value(number(f64::NAN)), Some(number(0.0)));
    assert_eq!(value.get_value(number(-0.1)), None);
    assert_eq!(value.get_value(number(0.5)), None);
    assert_eq!(value.get_value(number(0.2)), None);
    assert!((density(&value, 0.2) - 1.0 / 0.6).abs() < 1.0e-12);
}

#[test]
fn the_density_of_an_error_is_no_number() {
    assert!(decode(NumericFieldValue::Error.get_value(number(0.0)).unwrap()).is_nan());
    assert_eq!(bell(0.4, 0.2).get_value(number(0.0)), None);
}

#[test]
fn each_part_of_a_value_is_given_for_its_own_kind_only() {
    let combination = NumericFieldValue::Combination {
        components: vec![flat(0.0, 1.0), bell(1.0, 0.5)],
        scaling_factor: number(2.0),
        mean: number(0.5),
        sigma: number(0.25),
    };
    assert_eq!(exact(5.0).exact(), Some(number(5.0)));
    assert_eq!(bell(0.4, 0.2).exact(), None);
    assert_eq!(bell(0.4, 0.2).normal_mean(), Some(number(0.2)));
    assert_eq!(bell(0.4, 0.2).normal_sigma(), Some(number(0.4)));
    assert_eq!(exact(5.0).normal_mean(), None);
    assert_eq!(combination.normal_sigma(), None);
    assert_eq!(flat(-0.1, 0.5).uniform_min(), Some(number(-0.1)));
    assert_eq!(flat(-0.1, 0.5).uniform_max(), Some(number(0.5)));
    assert_eq!(exact(5.0).uniform_min(), None);
    assert_eq!(NumericFieldValue::Error.uniform_max(), None);
    assert_eq!(combination.combination_scaling_factor(), Some(number(2.0)));
    assert_eq!(
        combination.combination_components(),
        Some(&vec![flat(0.0, 1.0), bell(1.0, 0.5)])
    );
    assert_eq!(flat(0.0, 1.0).combination_components(), None);
    assert_eq!(exact(1.0).combination_scaling_factor(), None);
}

#[test]
fn a_clone_is_equal_to_the_value() {
    let combination = NumericFieldValue::Combination {
        components: vec![
            flat(0.0, 1.0),
            NumericFieldValue::Combination {
                components: vec![bell(1.0, 0.5), exact(2.0), NumericFieldValue::Error],
                scaling_factor: number(3.0),
                mean: number(0.1),
                sigma: number(0.2),
            },
        ],
        scaling_factor: number(2.0),
        mean: number(0.5),
        sigma: number(0.25),
    };
    assert_eq!(combination.clone(), combination);
}
