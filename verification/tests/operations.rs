use bn128::bn128::{add, mul, pairing, read_pair, read_point, write_point};
use bn128::bytes::read_input;
use bn128::chain_ext::InvalidArgument;
use bn128::curve::{pairing_check, Fq2Element, G1Affine, G1Point, G2Point};
use bn128::field::{read_fq, read_fr, FieldElement};

const G: &str = "01000000000000000000000000000000000000000000000000000000000000000200000000000000000000000000000000000000000000000000000000000000";
const G_NEG: &str = "010000000000000000000000000000000000000000000000000000000000000045fd7cd8168c203c8dca7168916a81975d588181b64550b829a031e1724e6430";
const G_TIMES_2: &str = "d3cf876dc108c2d3a81c8716a91678d9851518685b04859b021a132ee7440603c4a2185a7abf3effc78f53e349a4a6680a9caeb2965f84e7927c0a0e8c73ed15";
const G_TIMES_3: &str = "f0ab15199655d3f279e6b81547d8159315bdb6b1bc3202f43fea6bc59abf69076122fed93dfff1cd575b9c0bb4639e317564088d7cdb4f55299448e0be99b72a";
const G_TIMES_5: &str = "a93f16faa7a849e89ca35389d8dee46243772b760402bc66f7e0fe0edf39c1177cccd4c61857fc3f2759b9e05892aa0be79f8aaf57a364476660b1ac9b55e001";
const G_TIMES_7: &str = "78e0ffab866b3a9876bd01b8ecc66fcb86936277f425539a758dbbd32e2b07179eafd4607f9f80771bf4185df03bfead7a3719fa4bb57b0152dd30d16cda8a16";
const FQ_MODULUS: &str = "47fd7cd8168c203c8dca7168916a81975d588181b64550b829a031e1724e6430";
const FR_MODULUS: &str = "010000f093f5e1439170b97948e833285d588181b64550b829a031e1724e6430";
const G2_GENERATOR: &str = "c212f3aeb785e49712e7a9353349aaf1255dfb31b7bf60723a480d9293938e19edf692d95cbdde46ddda5ef7d422436779445c5e66006a42761e1f12efde00185b9722d1dcdaac55f38eb37033314bbc95330c69ad999eec75f05f58d0890609aa7dfa6601cce64c7bd3430c69e7d1e38f40cb8d8071ab4aeb6d8cdba55ec812";

fn hex(text: &str) -> Vec<u8> {
    let digits: Vec<u8> = text
        .bytes()
        .map(|c| match c {
            b'0'..=b'9' => c - b'0',
            b'a'..=b'f' => c - b'a' + 10,
            _ => panic!("not a hex digit"),
        })
        .collect();
    digits.chunks(2).map(|pair| pair[0] * 16 + pair[1]).collect()
}

fn join(parts: &[&str]) -> Vec<u8> {
    let mut all = Vec::new();
    for part in parts {
        all.extend(hex(part));
    }
    all
}

fn zeros(len: usize) -> Vec<u8> {
    vec![0u8; len]
}

fn number(value: u8) -> Vec<u8> {
    let mut bytes = zeros(32);
    bytes[0] = value;
    bytes
}

fn less_one(text: &str) -> Vec<u8> {
    let mut bytes = hex(text);
    bytes[0] -= 1;
    bytes
}

fn point_after(times: u32) -> Vec<u8> {
    let mut input = hex(G);
    input.extend(zeros(32));
    input[64..68].copy_from_slice(&times.to_le_bytes());
    mul(&input).unwrap().to_vec()
}

#[test]
fn read_input_copies_and_reverses() {
    let source = [1u8, 2, 3, 4, 5, 6];
    let mut target = [0u8; 4];
    read_input(&source, &mut target, 1);
    assert_eq!(target, [5, 4, 3, 2]);
}

#[test]
fn read_input_keeps_the_rest_of_a_short_source() {
    let source = [1u8, 2, 3];
    let mut target = [9u8, 8, 7, 6];
    read_input(&source, &mut target, 1);
    assert_eq!(target, [6, 7, 3, 2]);
}

#[test]
fn read_input_past_the_end_changes_nothing() {
    let source = [1u8, 2, 3];
    let mut target = [9u8, 8, 7, 6];
    read_input(&source, &mut target, 3);
    assert_eq!(target, [9, 8, 7, 6]);
    read_input(&source, &mut target, usize::MAX);
    assert_eq!(target, [9, 8, 7, 6]);
}

#[test]
fn read_input_into_an_empty_target() {
    let source = [1u8, 2, 3];
    let mut target: [u8; 0] = [];
    read_input(&source, &mut target, 0);
    assert_eq!(target, []);
}

#[test]
fn read_fq_reverses_the_bytes() {
    let mut input = zeros(32);
    input[0] = 0x34;
    input[1] = 0x12;
    let element = read_fq(&input, 0).unwrap();
    let mut expected = [0u8; 32];
    expected[31] = 0x34;
    expected[30] = 0x12;
    assert_eq!(element.bytes, expected);
}

#[test]
fn read_fq_fills_a_short_input_with_zero() {
    let element = read_fq(&[7u8, 1], 0).unwrap();
    let mut expected = [0u8; 32];
    expected[31] = 7;
    expected[30] = 1;
    assert_eq!(element.bytes, expected);
    assert!(read_fq(&[7u8, 1], 2).unwrap().is_zero());
    assert!(read_fq(&[], 0).unwrap().is_zero());
    assert!(read_fq(&[7u8, 1], usize::MAX).unwrap().is_zero());
}

#[test]
fn read_fq_turns_down_the_modulus_and_more() {
    assert_eq!(read_fq(&hex(FQ_MODULUS), 0).unwrap_err(), InvalidArgument::NotInField);
    let mut above = hex(FQ_MODULUS);
    above[0] += 1;
    assert_eq!(read_fq(&above, 0).unwrap_err(), InvalidArgument::NotInField);
    assert_eq!(read_fq(&[0xffu8; 32], 0).unwrap_err(), InvalidArgument::NotInField);
    let mut high = zeros(32);
    high[31] = 0x31;
    assert_eq!(read_fq(&high, 0).unwrap_err(), InvalidArgument::NotInField);
}

#[test]
fn read_fq_takes_the_largest_element() {
    let element = read_fq(&less_one(FQ_MODULUS), 0).unwrap();
    assert_eq!(element.bytes[31], 0x46);
    assert_eq!(element.bytes[0], 0x30);
    assert!(!element.is_zero());
}

#[test]
fn read_fr_turns_down_the_group_order_and_more() {
    assert_eq!(read_fr(&hex(FR_MODULUS), 0).unwrap_err(), InvalidArgument::NotInField);
    assert_eq!(read_fr(&less_one(FQ_MODULUS), 0).unwrap_err(), InvalidArgument::NotInField);
    let scalar = read_fr(&less_one(FR_MODULUS), 0).unwrap();
    assert_eq!(scalar.bytes[31], 0);
    assert_eq!(scalar.bytes[28], 0xf0);
    assert_eq!(scalar.bytes[0], 0x30);
}

#[test]
fn read_point_takes_zero_for_infinity() {
    assert!(matches!(read_point(&zeros(64), 0), Ok(G1Point::Infinity)));
    assert!(matches!(read_point(&[], 0), Ok(G1Point::Infinity)));
    assert!(matches!(read_point(&hex(G), 64), Ok(G1Point::Infinity)));
    assert!(matches!(read_point(&hex(G), usize::MAX - 3), Ok(G1Point::Infinity)));
}

#[test]
fn read_point_takes_a_point_of_the_curve() {
    match read_point(&hex(G), 0) {
        Ok(G1Point::Affine(point)) => {
            assert_eq!(point.x.bytes[31], 1);
            assert_eq!(point.y.bytes[31], 2);
            assert_eq!(point.x.bytes[..31], [0u8; 31]);
            assert_eq!(point.y.bytes[..31], [0u8; 31]);
        }
        other => panic!("not a point: {:?}", other),
    }
}

#[test]
fn read_point_turns_down_what_is_off_the_curve() {
    let mut input = number(1);
    input.extend(number(1));
    assert_eq!(read_point(&input, 0).unwrap_err(), InvalidArgument::NotOnCurve);
    let mut half = number(1);
    half.extend(number(0));
    assert_eq!(read_point(&half, 0).unwrap_err(), InvalidArgument::NotOnCurve);
    assert_eq!(read_point(&[1u8], 0).unwrap_err(), InvalidArgument::NotOnCurve);
}

#[test]
fn read_point_looks_at_the_field_before_the_curve() {
    let mut input = number(1);
    input.extend(hex(FQ_MODULUS));
    assert_eq!(read_point(&input, 0).unwrap_err(), InvalidArgument::NotInField);
    let mut first = hex(FQ_MODULUS);
    first.extend(number(2));
    assert_eq!(read_point(&first, 0).unwrap_err(), InvalidArgument::NotInField);
}

#[test]
fn write_point_writes_zero_for_infinity() {
    let mut output = [5u8; 64];
    write_point(&mut output, &G1Point::Infinity);
    assert_eq!(output, [0u8; 64]);
}

#[test]
fn write_point_reverses_each_coordinate() {
    let mut x = [0u8; 32];
    let mut y = [0u8; 32];
    x[31] = 1;
    x[0] = 0x10;
    y[31] = 2;
    let point = G1Point::Affine(G1Affine { x: FieldElement { bytes: x }, y: FieldElement { bytes: y } });
    let mut output = [5u8; 64];
    write_point(&mut output, &point);
    let mut expected = [0u8; 64];
    expected[0] = 1;
    expected[31] = 0x10;
    expected[32] = 2;
    assert_eq!(output, expected);
}

#[test]
fn decoding_what_was_encoded_gives_the_point_back() {
    for text in [G, G_NEG, G_TIMES_2, G_TIMES_3, G_TIMES_5, G_TIMES_7] {
        let point = read_point(&hex(text), 0).unwrap();
        let mut output = [0u8; 64];
        write_point(&mut output, &point);
        assert_eq!(output.to_vec(), hex(text));
    }
    let mut output = [1u8; 64];
    write_point(&mut output, &read_point(&zeros(64), 0).unwrap());
    assert_eq!(output, [0u8; 64]);
}

#[test]
fn add_doubles_the_generator() {
    assert_eq!(add(&join(&[G, G])).unwrap().to_vec(), hex(G_TIMES_2));
}

#[test]
fn add_of_known_points_gives_the_known_sum() {
    assert_eq!(add(&join(&[G_TIMES_2, G_TIMES_3])).unwrap().to_vec(), hex(G_TIMES_5));
    assert_eq!(add(&join(&[G_TIMES_2, G_TIMES_5])).unwrap().to_vec(), hex(G_TIMES_7));
}

#[test]
fn add_has_infinity_as_neutral_element() {
    let nothing = "00".repeat(64);
    for text in [G, G_TIMES_2, G_TIMES_7] {
        assert_eq!(add(&join(&[text, &nothing])).unwrap().to_vec(), hex(text));
        assert_eq!(add(&join(&[&nothing, text])).unwrap().to_vec(), hex(text));
    }
    assert_eq!(add(&zeros(128)).unwrap(), [0u8; 64]);
}

#[test]
fn add_is_commutative_on_known_points() {
    let points = [G, G_NEG, G_TIMES_2, G_TIMES_3, G_TIMES_5, G_TIMES_7];
    for p in points {
        for q in points {
            assert_eq!(add(&join(&[p, q])).unwrap(), add(&join(&[q, p])).unwrap());
        }
    }
}

#[test]
fn add_of_opposite_points_is_infinity() {
    assert_eq!(add(&join(&[G, G_NEG])).unwrap(), [0u8; 64]);
}

#[test]
fn add_fills_a_short_input_with_zero() {
    assert_eq!(add(&hex(G)).unwrap().to_vec(), hex(G));
    assert_eq!(add(&[]).unwrap(), [0u8; 64]);
}

#[test]
fn add_reports_what_is_wrong_with_a_point() {
    let mut off = number(1);
    off.extend(number(1));
    let mut first = off.clone();
    first.extend(hex(G));
    assert_eq!(add(&first).unwrap_err(), InvalidArgument::NotOnCurve);
    let mut second = hex(G);
    second.extend(off.clone());
    assert_eq!(add(&second).unwrap_err(), InvalidArgument::NotOnCurve);
    let mut large = hex(G);
    large.extend(hex(FQ_MODULUS));
    large.extend(number(2));
    assert_eq!(add(&large).unwrap_err(), InvalidArgument::NotInField);
    let mut both = off.clone();
    both.extend(hex(FQ_MODULUS));
    assert_eq!(add(&both).unwrap_err(), InvalidArgument::NotOnCurve);
}

#[test]
fn mul_by_zero_is_infinity() {
    let mut input = hex(G_TIMES_3);
    input.extend(zeros(32));
    assert_eq!(mul(&input).unwrap(), [0u8; 64]);
    assert_eq!(mul(&hex(G_TIMES_3)).unwrap(), [0u8; 64]);
}

#[test]
fn mul_by_one_is_the_point() {
    for text in [G, G_TIMES_2, G_TIMES_7] {
        let mut input = hex(text);
        input.extend(number(1));
        assert_eq!(mul(&input).unwrap().to_vec(), hex(text));
    }
}

#[test]
fn mul_of_infinity_is_infinity() {
    let mut input = zeros(64);
    input.extend(number(5));
    assert_eq!(mul(&input).unwrap(), [0u8; 64]);
}

#[test]
fn mul_gives_the_known_multiples() {
    assert_eq!(point_after(2), hex(G_TIMES_2));
    assert_eq!(point_after(3), hex(G_TIMES_3));
    assert_eq!(point_after(5), hex(G_TIMES_5));
    assert_eq!(point_after(7), hex(G_TIMES_7));
}

#[test]
fn mul_agrees_with_repeated_add() {
    let mut sum = hex(G);
    for k in 1u32..12 {
        assert_eq!(point_after(k), sum);
        let mut input = sum.clone();
        input.extend(hex(G));
        sum = add(&input).unwrap().to_vec();
        assert_eq!(point_after(k + 1), sum);
    }
}

#[test]
fn mul_by_the_largest_scalar_is_the_opposite_point() {
    let mut input = hex(G);
    input.extend(less_one(FR_MODULUS));
    assert_eq!(mul(&input).unwrap().to_vec(), hex(G_NEG));
}

#[test]
fn mul_turns_down_a_scalar_that_is_not_reduced() {
    let mut input = hex(G);
    input.extend(hex(FR_MODULUS));
    assert_eq!(mul(&input).unwrap_err(), InvalidArgument::NotInField);
    let mut full = hex(G);
    full.extend([0xffu8; 32]);
    assert_eq!(mul(&full).unwrap_err(), InvalidArgument::NotInField);
}

#[test]
fn mul_reports_what_is_wrong_with_the_point() {
    let mut input = number(1);
    input.extend(number(1));
    input.extend(hex(FR_MODULUS));
    assert_eq!(mul(&input).unwrap_err(), InvalidArgument::NotOnCurve);
    let mut large = hex(FQ_MODULUS);
    large.extend(number(2));
    large.extend(number(1));
    assert_eq!(mul(&large).unwrap_err(), InvalidArgument::NotInField);
}

#[test]
fn pairing_of_nothing_is_true() {
    assert_eq!(pairing(&[]), Ok(true));
    assert!(pairing_check(&Vec::new()));
}

#[test]
fn pairing_turns_down_a_broken_block() {
    assert_eq!(pairing(&zeros(1)), Err(InvalidArgument::InvalidLength));
    assert_eq!(pairing(&zeros(191)), Err(InvalidArgument::InvalidLength));
    assert_eq!(pairing(&zeros(193)), Err(InvalidArgument::InvalidLength));
    assert_eq!(pairing(&[0xffu8; 100]), Err(InvalidArgument::InvalidLength));
    let mut input = join(&[G, G2_GENERATOR]);
    input.push(0);
    assert_eq!(pairing(&input), Err(InvalidArgument::InvalidLength));
}

#[test]
fn pairing_of_points_at_infinity_is_true() {
    assert_eq!(pairing(&zeros(192)), Ok(true));
    assert_eq!(pairing(&zeros(768)), Ok(true));
    let nothing = "00".repeat(64);
    let nothing_2 = "00".repeat(128);
    assert_eq!(pairing(&join(&[G, &nothing_2])), Ok(true));
    assert_eq!(pairing(&join(&[&nothing, G2_GENERATOR])), Ok(true));
}

#[test]
fn pairing_of_one_pair_is_false() {
    assert_eq!(pairing(&join(&[G, G2_GENERATOR])), Ok(false));
}

#[test]
fn pairing_of_a_point_and_its_opposite_is_true() {
    assert_eq!(pairing(&join(&[G, G2_GENERATOR, G_NEG, G2_GENERATOR])), Ok(true));
}

#[test]
fn pairing_of_four_pairs_that_cancel_is_true() {
    let input = join(&[
        G_TIMES_2,
        G2_GENERATOR,
        G_TIMES_3,
        G2_GENERATOR,
        G_NEG,
        G2_GENERATOR,
        &hex_of(&opposite(&hex(G_TIMES_2), &hex(G_TIMES_2))),
        G2_GENERATOR,
    ]);
    assert_eq!(input.len(), 768);
    assert_eq!(pairing(&input), Ok(true));
}

fn hex_of(bytes: &[u8]) -> String {
    bytes.iter().map(|b| format!("{:02x}", b)).collect()
}

/// The point opposite to the sum of `p` and `q`: the sum with y taken from
/// the modulus.
fn opposite(p: &[u8], q: &[u8]) -> Vec<u8> {
    let mut input = p.to_vec();
    input.extend_from_slice(q);
    let sum = add(&input).unwrap();
    let modulus = hex(FQ_MODULUS);
    let mut result = sum.to_vec();
    let mut borrow = 0i16;
    for i in 0..32 {
        let mut digit = modulus[i] as i16 - sum[32 + i] as i16 - borrow;
        borrow = 0;
        if digit < 0 {
            digit += 256;
            borrow = 1;
        }
        result[32 + i] = digit as u8;
    }
    result
}

#[test]
fn pairing_of_a_perturbed_batch_is_false_or_an_error() {
    let good = join(&[
        G_TIMES_2,
        G2_GENERATOR,
        G_TIMES_3,
        G2_GENERATOR,
        G_NEG,
        G2_GENERATOR,
        &hex_of(&opposite(&hex(G_TIMES_2), &hex(G_TIMES_2))),
        G2_GENERATOR,
    ]);
    assert_eq!(pairing(&good), Ok(true));
    for place in [0usize, 32, 64, 96, 128, 160, 192, 384 + 32, 576 + 160] {
        let mut bad = good.clone();
        bad[place] ^= 1;
        assert_ne!(pairing(&bad), Ok(true));
    }
    let mut swapped = good.clone();
    swapped[..64].copy_from_slice(&hex(G_TIMES_3));
    assert_eq!(pairing(&swapped), Ok(false));
}

#[test]
fn pairing_reports_the_first_block_that_is_wrong() {
    let mut off_curve = number(1);
    off_curve.extend(number(1));
    off_curve.extend(hex(G2_GENERATOR));
    assert_eq!(pairing(&off_curve), Err(InvalidArgument::NotOnCurve));

    let mut off_twist = hex(G);
    off_twist.extend(number(1));
    off_twist.extend(zeros(96));
    assert_eq!(pairing(&off_twist), Err(InvalidArgument::NotOnCurve));

    let mut large = hex(G);
    large.extend(zeros(96));
    large.extend(hex(FQ_MODULUS));
    assert_eq!(pairing(&large), Err(InvalidArgument::NotInField));

    let mut field_first = number(1);
    field_first.extend(number(1));
    field_first.extend(zeros(96));
    field_first.extend(hex(FQ_MODULUS));
    assert_eq!(pairing(&field_first), Err(InvalidArgument::NotInField));

    let mut curve_first = off_curve.clone();
    curve_first.extend(large.clone());
    assert_eq!(pairing(&curve_first), Err(InvalidArgument::NotOnCurve));
    let mut field_block_first = large.clone();
    field_block_first.extend(off_curve.clone());
    assert_eq!(pairing(&field_block_first), Err(InvalidArgument::NotInField));
}

#[test]
fn read_pair_takes_the_imaginary_part_first() {
    let input = join(&[G, G2_GENERATOR]);
    let (a, b) = read_pair(&input, 0).unwrap();
    assert!(matches!(a, G1Point::Affine(_)));
    match b {
        G2Point::Affine(point) => {
            let mut imaginary = hex(G2_GENERATOR)[..32].to_vec();
            imaginary.reverse();
            let mut real = hex(G2_GENERATOR)[32..64].to_vec();
            real.reverse();
            assert_eq!(point.x.imaginary.bytes.to_vec(), imaginary);
            assert_eq!(point.x.real.bytes.to_vec(), real);
        }
        G2Point::Infinity => panic!("not at infinity"),
    }
}

#[test]
fn read_pair_past_the_end_is_a_pair_at_infinity() {
    let input = join(&[G, G2_GENERATOR]);
    let (a, b) = read_pair(&input, 192).unwrap();
    assert!(matches!(a, G1Point::Infinity));
    assert!(matches!(b, G2Point::Infinity));
    let (c, d) = read_pair(&input, usize::MAX - 40).unwrap();
    assert!(matches!(c, G1Point::Infinity));
    assert!(matches!(d, G2Point::Infinity));
}

#[test]
fn g2_from_coordinates_takes_zero_for_infinity() {
    let zero = FieldElement { bytes: [0u8; 32] };
    let nothing = Fq2Element { real: zero, imaginary: zero };
    assert!(matches!(G2Point::from_coordinates(nothing, nothing), Ok(G2Point::Infinity)));
    let mut one = [0u8; 32];
    one[31] = 1;
    let unit = Fq2Element { real: FieldElement { bytes: one }, imaginary: zero };
    assert_eq!(G2Point::from_coordinates(unit, nothing).unwrap_err(), InvalidArgument::NotOnCurve);
}

#[test]
fn g1_sum_and_product_agree_with_the_byte_operations() {
    let g = read_point(&hex(G), 0).unwrap();
    let double = g.sum(&g);
    let mut output = [0u8; 64];
    write_point(&mut output, &double);
    assert_eq!(output.to_vec(), hex(G_TIMES_2));
    let three = read_fr(&number(3), 0).unwrap();
    write_point(&mut output, &g.product(&three));
    assert_eq!(output.to_vec(), hex(G_TIMES_3));
    assert!(matches!(G1Point::Infinity.sum(&G1Point::Infinity), G1Point::Infinity));
    assert!(matches!(G1Point::Infinity.product(&three), G1Point::Infinity));
}

#[test]
fn error_codes_are_the_hosts() {
    assert_eq!(InvalidArgument::NotInField.code(), 1);
    assert_eq!(InvalidArgument::NotOnCurve.code(), 2);
    assert_eq!(InvalidArgument::InvalidLength.code(), 3);
}
