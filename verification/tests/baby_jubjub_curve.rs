use klefki::algebra::traits::Field;
use klefki::algebra::traits::Monoid;
use klefki::algebra::traits::Scalar;
use klefki::curves::baby_jubjub::curve;
use num_bigint::BigUint;
use std::convert::TryFrom;

#[test]
fn test_addition() {
    let x1 = "17777552123799933955779906779655732241715742912184938656739573121738514868268";
    let y1 = "2626589144620713026669568689430873010625803728049924121243784502389097019475";
    let x2 = "16540640123574156134436876038791482806971768689494387082833631921987005038935";
    let y2 = "20819045374670962167435360035096875258406992893633759881276124905556507972311";
    let x3 = "7916061937171219682591368294088513039687205273691143098332585753343424131937";
    let y3 = "14035240266687799601661095864649209771790948434046947201833777492504781204499";

    let g1 = curve::BabyJubJubCurveGroup::try_from((x1, y1)).unwrap();
    let g2 = curve::BabyJubJubCurveGroup::try_from((x2, y2)).unwrap();
    let g3 = curve::BabyJubJubCurveGroup::try_from((x3, y3)).unwrap();
    assert_eq!(g1 + g2 == g3, true);
}

#[test]
fn test_double() {
    let x1 = "17777552123799933955779906779655732241715742912184938656739573121738514868268";
    let y1 = "2626589144620713026669568689430873010625803728049924121243784502389097019475";
    let x3 = "6890855772600357754907169075114257697580319025794532037257385534741338397365";
    let y3 = "4338620300185947561074059802482547481416142213883829469920100239455078257889";
    let g1 = curve::BabyJubJubCurveGroup::try_from((x1.clone(), y1.clone())).unwrap();
    let g2 = curve::BabyJubJubCurveGroup::try_from((x1, y1)).unwrap();
    let g3 = curve::BabyJubJubCurveGroup::try_from((x3, y3)).unwrap();
    assert_eq!(g1.clone() + g2 == g3.clone(), true);
    assert_eq!(g1.scalar(2) == g3, true);
}

#[test]
fn test_doubling_the_identity() {
    let x1 = 0u32;
    let y1 = 1u32;
    let x2 = 0u32;
    let y2 = 1u32;
    let x3 = 0u32;
    let y3 = 1u32;
    let g1 = curve::BabyJubJubCurveGroup::from((x1, y1));
    let g2 = curve::BabyJubJubCurveGroup::from((x2, y2));
    let g3 = curve::BabyJubJubCurveGroup::from((x3, y3));
    assert_eq!(g1 + g2 == g3, true);
}

#[test]
fn test_base_point() {
    let bx = "5299619240641551281634865583518297030282874472190772894086521144482721001553";
    let by = "16950150798460657717958625567821834550301663161624707787222815936182638968203";
    let gx = "995203441582195749578291179787384436505546430278305826713579947235728471134";
    let gy = "5472060717959818805561601436314318772137091100104008585924551046643952123905";
    let g = curve::BabyJubJubCurveGroup::try_from((gx, gy)).unwrap();
    let b = curve::BabyJubJubCurveGroup::try_from((bx, by)).unwrap();
    assert_eq!(g.scalar(8) == b, true);
}

#[test]
fn test_base_point_order() {
    let x = 0u32;
    let y = 1u32;
    let bx = "5299619240641551281634865583518297030282874472190772894086521144482721001553";
    let by = "16950150798460657717958625567821834550301663161624707787222815936182638968203";
    let l = "2736030358979909402780800718157159386076813972158567259200215660948447373041";

    let p = curve::BabyJubJubCurveGroup::from((x, y));
    let b = curve::BabyJubJubCurveGroup::try_from((bx, by)).unwrap();

    assert_eq!(
        b.scalar(BigUint::parse_bytes(l.as_bytes(), 10).unwrap()) == p,
        true
    );
}

fn base_point() -> curve::BabyJubJubCurveGroup {
    let bx = "5299619240641551281634865583518297030282874472190772894086521144482721001553";
    let by = "16950150798460657717958625567821834550301663161624707787222815936182638968203";
    curve::BabyJubJubCurveGroup::try_from((bx, by)).unwrap()
}

fn identity() -> curve::BabyJubJubCurveGroup {
    curve::BabyJubJubCurveGroup::from((0u32, 1u32))
}

#[test]
fn zero_times_a_point_is_the_identity() {
    assert!(base_point().scalar(0usize) == identity());
    assert!(base_point().scalar(BigUint::from(0u32)) == identity());
    assert!(identity().scalar(0usize) == identity());
}

#[test]
fn one_times_a_point_is_the_point() {
    assert!(base_point().scalar(1usize) == base_point());
}

#[test]
fn the_identity_is_neutral() {
    assert!(base_point() + identity() == base_point());
    assert!(identity() + base_point() == base_point());
    assert!(identity().is_zero());
    assert!(curve::BabyJubJubCurveGroup::zero() == identity());
    assert!(!base_point().is_zero());
}

#[test]
fn negation_keeps_the_first_coordinate_and_negates_the_second() {
    let n = -base_point();
    assert!(n.x() == base_point().x());
    assert!(n.y() == -base_point().y());
    let difference = base_point().scalar(3usize) - base_point();
    assert!(difference == base_point().scalar(3usize) + (-base_point()));
}

#[test]
fn scalar_by_machine_and_by_big_number_agree() {
    assert!(base_point().scalar(1000usize) == base_point().scalar(BigUint::from(1000u32)));
}

#[test]
fn multiples_add_up() {
    let five = base_point().scalar(5usize);
    let three = base_point().scalar(3usize);
    assert!(five + three == base_point().scalar(8usize));
}

#[test]
fn points_from_numbers_and_digits() {
    let limbs_x: [u32; 1] = [0];
    let limbs_y: [u32; 1] = [1];
    assert!(curve::BabyJubJubCurveGroup::from((&limbs_x[..], &limbs_y[..])) == identity());
    assert!(curve::BabyJubJubCurveGroup::from((0u16, 1u16)) == identity());
    assert!(
        curve::BabyJubJubCurveGroup::from((BigUint::from(0u32), BigUint::from(1u32))) == identity()
    );
    assert!(curve::BabyJubJubCurveGroup::try_from(("0", "1")).unwrap() == identity());
    let point = curve::BabyJubJubCurve::from((0u32, 1u32));
    assert!(point.x.is_zero() && point.y.is_one());
}

#[test]
fn points_from_bad_texts_are_refused() {
    assert!(matches!(
        curve::BabyJubJubCurveGroup::try_from(("1x", "1")),
        Err(klefki::algebra::fields::prime::Error::Parse)
    ));
    assert!(matches!(
        curve::BabyJubJubCurveGroup::try_from(("1", "")),
        Err(klefki::algebra::fields::prime::Error::Parse)
    ));
}
