use character_controller::rotation::Yaw;
use character_controller::root::integer_sqrt;
use character_controller::scalar::{scalar_add, scalar_mul, scalar_sub, HALF, ONE};
use character_controller::vector::{Normal, Vector, Vector2};

#[test]
fn one_is_a_million_millionths() {
    assert_eq!(ONE, 1_000_000);
    assert_eq!(HALF * 2, ONE);
    assert_eq!(scalar_mul(ONE, ONE), ONE);
    assert_eq!(scalar_mul(HALF, HALF), 250_000);
}

#[test]
fn sum_of_two_scalars() {
    assert_eq!(scalar_add(1_500_000, 2_250_000), 3_750_000);
    assert_eq!(scalar_add(-1_500_000, 500_000), -1_000_000);
}

#[test]
fn sum_saturates_at_both_ends() {
    assert_eq!(scalar_add(i64::MAX, 1), i64::MAX);
    assert_eq!(scalar_add(i64::MAX, i64::MAX), i64::MAX);
    assert_eq!(scalar_add(i64::MIN, -1), i64::MIN);
    assert_eq!(scalar_add(i64::MIN, 0), i64::MIN);
    assert_eq!(scalar_add(i64::MIN, i64::MIN), i64::MIN);
    assert_eq!(scalar_add(i64::MIN, i64::MAX), -1);
}

#[test]
fn difference_of_two_scalars() {
    assert_eq!(scalar_sub(1_000_000, 250_000), 750_000);
    assert_eq!(scalar_sub(-1_000_000, 250_000), -1_250_000);
    assert_eq!(scalar_sub(i64::MAX, -1), i64::MAX);
    assert_eq!(scalar_sub(i64::MIN, 1), i64::MIN);
    assert_eq!(scalar_sub(i64::MIN, 0), i64::MIN);
    assert_eq!(scalar_sub(0, i64::MIN), i64::MAX);
}

#[test]
fn product_of_two_fixed_point_numbers() {
    // 1.5 * 2 = 3
    assert_eq!(scalar_mul(1_500_000, 2_000_000), 3_000_000);
    // 0.9 * 0.9 = 0.81
    assert_eq!(scalar_mul(900_000, 900_000), 810_000);
    // -19.62 * (1 / 60) = -0.326986...
    assert_eq!(scalar_mul(-19_620_000, 16_666), -326_986);
    assert_eq!(scalar_mul(ONE, 123_456_789), 123_456_789);
    assert_eq!(scalar_mul(0, 123_456_789), 0);
}

#[test]
fn product_rounds_towards_zero() {
    assert_eq!(scalar_mul(1, HALF), 0);
    assert_eq!(scalar_mul(-1, HALF), 0);
    assert_eq!(scalar_mul(3, HALF), 1);
    assert_eq!(scalar_mul(-3, HALF), -1);
    assert_eq!(scalar_mul(3, -HALF), -1);
    assert_eq!(scalar_mul(-3, -HALF), 1);
    assert_eq!(scalar_mul(1_999_999, 1), 1);
    assert_eq!(scalar_mul(-1_999_999, 1), -1);
}

#[test]
fn product_saturates_at_both_ends() {
    assert_eq!(scalar_mul(i64::MAX, 2 * ONE), i64::MAX);
    assert_eq!(scalar_mul(i64::MAX, -2 * ONE), i64::MIN);
    assert_eq!(scalar_mul(i64::MIN, ONE), i64::MIN);
    assert_eq!(scalar_mul(i64::MIN, i64::MIN), i64::MAX);
    assert_eq!(scalar_mul(i64::MAX, ONE), i64::MAX);
    assert_eq!(scalar_mul(i64::MAX, HALF), i64::MAX / 2);
}

#[test]
fn vectors_add_component_by_component() {
    let a = Vector::new(1_000_000, -2_000_000, 3_000_000);
    let b = Vector::new(500_000, 500_000, -3_000_000);
    assert_eq!(a.plus(b), Vector { x: 1_500_000, y: -1_500_000, z: 0 });
    assert_eq!(a.plus(Vector::zero()), a);
    assert_eq!(Vector::zero(), Vector { x: 0, y: 0, z: 0 });
}

#[test]
fn vector_sum_saturates_each_component_alone() {
    let a = Vector::new(i64::MAX, 1, i64::MIN);
    let b = Vector::new(1, 1, -1);
    assert_eq!(a.plus(b), Vector { x: i64::MAX, y: 2, z: i64::MIN });
}

#[test]
fn vector_scaled_by_a_fixed_point_number() {
    let g = Vector::new(0, -19_620_000, 0);
    assert_eq!(g.scaled(16_666), Vector { x: 0, y: -326_986, z: 0 });
    let v = Vector::new(3, -3, 2_000_000);
    assert_eq!(v.scaled(HALF), Vector { x: 1, y: -1, z: 1_000_000 });
}

#[test]
fn zero_vector_on_the_input_plane() {
    assert!(Vector2::new(0, 0).is_zero());
    assert!(!Vector2::new(1, 0).is_zero());
    assert!(!Vector2::new(0, -1).is_zero());
    assert_eq!(Vector2::new(3, 4), Vector2 { x: 3, y: 4 });
}

#[test]
fn normals_up_and_down() {
    assert_eq!(Normal::up(), Normal { x: 0, y: 1_000_000, z: 0 });
    assert_eq!(Normal::down(), Normal { x: 0, y: -1_000_000, z: 0 });
    assert_eq!(Normal::up().reversed(), Normal::down());
    assert_eq!(Normal::new(1, 2, 3), Normal { x: 1, y: 2, z: 3 });
}

#[test]
fn reversed_normal_points_the_other_way() {
    let n = Normal::new(173_648, 984_808, -5);
    assert_eq!(n.reversed(), Normal { x: -173_648, y: -984_808, z: 5 });
    assert_eq!(n.reversed().reversed(), n);
}

#[test]
fn reversing_the_least_component_saturates() {
    let n = Normal::new(i32::MIN, i32::MAX, 0);
    assert_eq!(n.reversed(), Normal { x: i32::MAX, y: -i32::MAX, z: 0 });
}

#[test]
fn normal_as_a_vector() {
    let n = Normal::new(-7, i32::MAX, i32::MIN);
    assert_eq!(
        n.to_vector(),
        Vector { x: -7, y: 2_147_483_647, z: -2_147_483_648 }
    );
}

#[test]
fn square_roots_are_rounded_down() {
    assert_eq!(integer_sqrt(0), 0);
    assert_eq!(integer_sqrt(1), 1);
    assert_eq!(integer_sqrt(2), 1);
    assert_eq!(integer_sqrt(3), 1);
    assert_eq!(integer_sqrt(4), 2);
    assert_eq!(integer_sqrt(24), 4);
    assert_eq!(integer_sqrt(25), 5);
    assert_eq!(integer_sqrt(26), 5);
    assert_eq!(integer_sqrt(1_000_000_000_000), 1_000_000);
    assert_eq!(integer_sqrt(999_999_999_999), 999_999);
    assert_eq!(integer_sqrt(2_000_000_000_000), 1_414_213);
}

#[test]
fn square_roots_of_the_largest_numbers() {
    assert_eq!(integer_sqrt(u128::MAX), u64::MAX);
    assert_eq!(integer_sqrt(u128::MAX - 1), u64::MAX);
    let largest = u64::MAX as u128;
    assert_eq!(integer_sqrt(largest * largest), u64::MAX);
    assert_eq!(integer_sqrt(largest * largest - 1), u64::MAX - 1);
    assert_eq!(integer_sqrt(1 << 127), 13_043_817_825_332_782_212);
    for root in [1u128, 7, 4_294_967_296, 3_037_000_499, 9_223_372_036_854_775_807] {
        assert_eq!(integer_sqrt(root * root) as u128, root);
        assert_eq!(integer_sqrt(root * root + 2 * root) as u128, root);
        assert_eq!(integer_sqrt(root * root + 2 * root + 1) as u128, root + 1);
    }
}

#[test]
fn body_that_faces_forward_turns_nothing() {
    let forward = Yaw::identity();
    for normal in [
        Normal::new(1, 2, 3),
        Normal::new(-600_000, 800_000, 123_456),
        Normal::new(i32::MAX, i32::MIN, i32::MIN),
        Normal::new(0, 0, 0),
    ] {
        assert_eq!(forward.rotated(normal), normal);
        assert_eq!(Yaw { x: 0, y: 1 }.rotated(normal), normal);
        assert_eq!(Yaw { x: 0, y: i64::MAX }.rotated(normal), normal);
    }
}

#[test]
fn quarter_and_half_turns() {
    let normal = Normal::new(100_000, 200_000, 300_000);
    // Facing along x takes the forward axis, which is minus z, to x.
    let right = Yaw { x: 1_000_000, y: 0 };
    assert_eq!(right.rotated(normal), Normal::new(-300_000, 200_000, 100_000));
    assert_eq!(right.rotated(Normal::new(0, 0, -1_000_000)), Normal::new(1_000_000, 0, 0));
    assert_eq!(right.rotated(Normal::new(1_000_000, 0, 0)), Normal::new(0, 0, 1_000_000));
    let left = Yaw { x: -1_000_000, y: 0 };
    assert_eq!(left.rotated(normal), Normal::new(300_000, 200_000, -100_000));
    let back = Yaw { x: 0, y: -1_000_000 };
    assert_eq!(back.rotated(normal), Normal::new(-100_000, 200_000, -300_000));
    assert_eq!(right.rotated(right.rotated(normal)), back.rotated(normal));
}

#[test]
fn turn_by_a_slanted_facing() {
    // The facing (3, 4) has the length 5: sine 0.6, cosine 0.8.
    let normal = Normal::new(1_000_000, 7, 500_000);
    let turned = Normal::new(500_000, 7, 1_000_000);
    assert_eq!(Yaw { x: 3, y: 4 }.rotated(normal), turned);
    assert_eq!(Yaw { x: 600_000, y: 800_000 }.rotated(normal), turned);
    assert_eq!(Yaw { x: 3_000_000_000_000, y: 4_000_000_000_000 }.rotated(normal), turned);
    // Rounded towards zero: 0.8 * 3 - 0.6 * 1 = 1.8, 0.6 * 3 + 0.8 * 1 = 2.6.
    assert_eq!(Yaw { x: 3, y: 4 }.rotated(Normal::new(3, 0, 1)), Normal::new(1, 0, 2));
    assert_eq!(Yaw { x: 3, y: 4 }.rotated(Normal::new(-3, 0, -1)), Normal::new(-1, 0, -2));
}

#[test]
fn only_the_direction_of_a_facing_counts() {
    let normal = Normal::new(1_000_000, 0, 0);
    // Half a right angle: both components become the square root of one half.
    for length in [1, 2, 1_000, 1_000_000, 2_147_483_647, 2_147_483_648, 1 << 40, i64::MAX] {
        let turned = Yaw { x: length, y: length }.rotated(normal);
        assert!((turned.x - 707_106).abs() <= 1, "{:?}", turned);
        assert!((turned.z - 707_106).abs() <= 1, "{:?}", turned);
        assert_eq!(turned.y, 0);
    }
}

#[test]
fn facing_of_length_zero_turns_nothing() {
    let normal = Normal::new(1, -2, 3);
    assert_eq!(Yaw { x: 0, y: 0 }.rotated(normal), normal);
}

#[test]
fn turned_normal_stays_in_range() {
    let normal = Normal::new(i32::MAX, 5, i32::MAX);
    let turned = Yaw { x: 1, y: 1 }.rotated(normal);
    assert_eq!(turned.x, 0);
    assert_eq!(turned.y, 5);
    assert_eq!(turned.z, i32::MAX);
    let other = Yaw { x: 1, y: -1 }.rotated(Normal::new(i32::MIN, 5, i32::MIN));
    assert_eq!(other.x, i32::MAX);
    assert_eq!(other.z, 0);
}

#[test]
fn turning_keeps_the_length_up_to_rounding() {
    let facings = [
        Yaw { x: 1, y: 0 },
        Yaw { x: 1, y: 1 },
        Yaw { x: -7, y: 3 },
        Yaw { x: 123_456, y: -654_321 },
        Yaw { x: 1_000_000, y: 1 },
        Yaw { x: -2_147_483_648, y: 2_147_483_647 },
        Yaw { x: i64::MAX, y: 12_345 },
        Yaw { x: i64::MIN, y: i64::MIN },
    ];
    let normals = [
        Normal::new(1_000_000, 0, 0),
        Normal::new(0, 1_000_000, 0),
        Normal::new(600_000, 0, -800_000),
        Normal::new(-173_648, 984_808, 5),
        Normal::new(1, 2, 3),
        Normal::new(1_000_000_000, -7, -1_000_000_000),
    ];
    for facing in facings {
        for normal in normals {
            let turned = facing.rotated(normal);
            assert_eq!(turned.y, normal.y);
            let before = (normal.x as i128).pow(2) + (normal.z as i128).pow(2);
            let after = (turned.x as i128).pow(2) + (turned.z as i128).pow(2);
            let reach = (turned.x as i128).abs() + (turned.z as i128).abs();
            // Each component is at most one millionth short, and the whole
            // is not longer but by the rounding of the facing's length.
            assert!(before < after + 2 * reach + 3, "{:?} {:?}", facing, normal);
            assert!(after <= before + before / 1_000_000_000, "{:?} {:?}", facing, normal);
        }
    }
}
