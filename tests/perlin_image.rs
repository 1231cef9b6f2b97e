use raytracer::image_texture::{decode_gamma, ImageTexture};
use raytracer::perlin::{permutation_from_draws, PerlinLattice, POINT_COUNT};

fn is_permutation(p: &[usize]) -> bool {
    let mut sorted = p.to_vec();
    sorted.sort();
    sorted == (0..POINT_COUNT).collect::<Vec<_>>()
}

fn identity() -> Vec<usize> {
    (0..POINT_COUNT).collect()
}

#[test]
fn shuffle_with_zero_draws_rotates() {
    let p = permutation_from_draws(&vec![0; POINT_COUNT - 1]);
    assert_eq!(&p[..4], &[1, 2, 3, 4]);
    assert_eq!(&p[252..], &[253, 254, 255, 0]);
    assert!(is_permutation(&p));
}

#[test]
fn shuffle_with_half_draws() {
    let draws: Vec<usize> = (0..POINT_COUNT - 1).map(|m| (POINT_COUNT - 1 - m) / 2).collect();
    let p = permutation_from_draws(&draws);
    assert_eq!(&p[..8], &[128, 0, 192, 1, 160, 2, 224, 3]);
    assert_eq!(&p[252..], &[253, 126, 255, 127]);
    assert!(is_permutation(&p));
}

#[test]
fn generated_permutations_are_permutations() {
    for _ in 0..20 {
        assert!(is_permutation(&PerlinLattice::generate_perm()));
    }
}

#[test]
fn lattice_hash_with_identity_tables() {
    let l = PerlinLattice::from_permutations(identity(), identity(), identity());
    assert_eq!(l.hash(0, 0, 0), 0);
    assert_eq!(l.hash(-1, 0, 0), 255);
    assert_eq!(l.hash(257, 3, 0), 2);
    assert_eq!(l.hash(i64::MIN, i64::MAX, -256), 255);
    assert_eq!(l.hash(5, 6, 7), 5 ^ 6 ^ 7);
}

#[test]
fn lattice_hash_looks_up_each_table() {
    let rotated = permutation_from_draws(&vec![0; POINT_COUNT - 1]);
    let l = PerlinLattice::from_permutations(rotated.clone(), identity(), identity());
    assert_eq!(l.hash(0, 0, 0), 1);
    assert_eq!(l.hash(255, 0, 0), 0);
    assert_eq!(l.hash(-2, 1, 0), 255 ^ 1);
}

#[test]
fn random_lattice_hash_stays_in_range() {
    let l = PerlinLattice::new();
    for i in -300i64..300 {
        assert!(l.hash(i, 3 * i, -7 * i) < POINT_COUNT);
    }
}

#[test]
fn gamma_decode_squares() {
    assert_eq!(decode_gamma(0), 0);
    assert_eq!(decode_gamma(255), 255);
    assert_eq!(decode_gamma(128), 64);
    assert_eq!(decode_gamma(16), 1);
    assert_eq!(decode_gamma(15), 0);
}

#[test]
fn image_texture_wrong_size_refused() {
    assert!(ImageTexture::from_raw(vec![0; 5], 1, 2).is_none());
    assert!(ImageTexture::from_raw(vec![0; 6], 2, 2).is_none());
    assert!(ImageTexture::from_raw(vec![], usize::MAX, 0).is_none());
}

#[test]
fn image_texture_texels_decoded_and_clamped() {
    // 2 x 2 image: rows top to bottom
    let raw = vec![
        255, 0, 128, /**/ 16, 32, 64, //
        1, 2, 3, /**/ 200, 100, 50,
    ];
    let t = ImageTexture::from_raw(raw, 2, 2).unwrap();
    assert_eq!(t.width(), 2);
    assert_eq!(t.height(), 2);
    assert_eq!(t.texel(0, 0), Some((255, 0, 64)));
    assert_eq!(t.texel(1, 0), Some((1, 4, 16)));
    assert_eq!(t.texel(0, 1), Some((0, 0, 0)));
    assert_eq!(t.texel(1, 1), Some((156, 39, 9)));
    assert_eq!(t.texel(9, 9), t.texel(1, 1));
    assert_eq!(t.texel(0, 7), t.texel(0, 1));
}

#[test]
fn image_texture_empty_has_no_texel() {
    let t = ImageTexture::from_raw(vec![], 0, 0).unwrap();
    assert_eq!(t.texel(0, 0), None);
    let t = ImageTexture::from_raw(vec![], 3, 0).unwrap();
    assert_eq!(t.texel(1, 1), None);
}
