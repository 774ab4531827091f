use group::CurveAffine;
use group::CurveProjective;
use pairing::bls12_381::G1Affine;
use pairing::bls12_381::G2Affine;
use sonic_verifier::field::Scalar;
use sonic_verifier::group::multiexp;
use sonic_verifier::group::pairing_product_is_one;
use sonic_verifier::group::G1Point;
use sonic_verifier::group::G2Point;

fn g() -> G1Point {
    let mut bytes = [0u8; 48];
    bytes.copy_from_slice(G1Affine::one().into_compressed().as_ref());
    G1Point { bytes }
}

fn h() -> G2Point {
    let mut bytes = [0u8; 96];
    bytes.copy_from_slice(G2Affine::one().into_compressed().as_ref());
    G2Point { bytes }
}

fn garbage() -> G1Point {
    G1Point { bytes: [0x11; 48] }
}

#[test]
fn identity_is_the_encoded_point_at_infinity() {
    let mut expected = [0u8; 48];
    expected[0] = 0xc0;
    assert_eq!(G1Point::identity().bytes, expected);
    let mut encoded = [0u8; 48];
    encoded.copy_from_slice(G1Affine::zero().into_compressed().as_ref());
    assert_eq!(G1Point::identity().bytes, encoded);
}

#[test]
fn point_times_scalar() {
    assert_eq!(g().mul(&Scalar::one()), Some(g()));
    assert_eq!(g().mul(&Scalar::zero()), Some(G1Point::identity()));
    let twice = g().mul(&Scalar::from_u64(2)).unwrap();
    assert_ne!(twice, g());
    let mut doubled = G1Affine::one().into_projective();
    doubled.double();
    let mut expected = [0u8; 48];
    expected.copy_from_slice(doubled.into_affine().into_compressed().as_ref());
    assert_eq!(twice.bytes, expected);
    assert_eq!(garbage().mul(&Scalar::one()), None);
}

#[test]
fn point_plus_point() {
    let twice = g().mul(&Scalar::from_u64(2)).unwrap();
    assert_eq!(g().add(&g()), Some(twice));
    assert_eq!(g().add(&G1Point::identity()), Some(g()));
    assert_eq!(G1Point::identity().add(&g()), Some(g()));
    let minus = g().mul(&Scalar::one().neg()).unwrap();
    assert_eq!(g().add(&minus), Some(G1Point::identity()));
    assert_eq!(g().add(&garbage()), None);
    assert_eq!(garbage().add(&g()), None);
}

#[test]
fn inverse_in_the_second_group() {
    let minus = h().neg().unwrap();
    assert_ne!(minus, h());
    assert_eq!(minus.neg(), Some(h()));
    assert_eq!(G2Point { bytes: [0x11; 96] }.neg(), None);
}

#[test]
fn multiexp_is_the_weighted_sum() {
    assert_eq!(multiexp(&vec![]), Some(G1Point::identity()));
    let three = g().mul(&Scalar::from_u64(3)).unwrap();
    let terms = vec![(g(), Scalar::from_u64(5)), (three, Scalar::from_u64(4))];
    assert_eq!(multiexp(&terms), g().mul(&Scalar::from_u64(17)));
    let spoiled = vec![(g(), Scalar::from_u64(5)), (garbage(), Scalar::from_u64(4))];
    assert_eq!(multiexp(&spoiled), None);
    let spoiled_first = vec![(garbage(), Scalar::from_u64(5)), (g(), Scalar::from_u64(4))];
    assert_eq!(multiexp(&spoiled_first), None);
}

#[test]
fn pairing_product() {
    let id = G1Point::identity();
    let minus_h = h().neg().unwrap();
    // e(g, h) e(g, h^-1) = 1
    assert!(pairing_product_is_one(&[g(), g(), id, id], &[h(), minus_h, h(), h()]));
    // e(g, h) alone is not
    assert!(!pairing_product_is_one(&[g(), id, id, id], &[h(), h(), h(), h()]));
    // e(g^6, h) e(g^2, h^-1)^3 = 1, by bilinearity
    let six = g().mul(&Scalar::from_u64(6)).unwrap();
    let two = g().mul(&Scalar::from_u64(2)).unwrap();
    assert!(pairing_product_is_one(&[six, two, two, two], &[h(), minus_h, minus_h, minus_h]));
    assert!(!pairing_product_is_one(&[six, two, two, id], &[h(), minus_h, minus_h, minus_h]));
    // nothing but identities
    assert!(pairing_product_is_one(&[id, id, id, id], &[h(), h(), h(), h()]));
    // bytes that are no point
    assert!(!pairing_product_is_one(&[garbage(), id, id, id], &[h(), h(), h(), h()]));
}
