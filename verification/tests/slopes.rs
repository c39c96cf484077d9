use character_controller::rotation::Yaw;
use character_controller::ground::{is_grounded, ShapeCastHit};
use character_controller::slope::{is_walkable, MaxSlopeAngle};
use character_controller::vector::Normal;

/// The unit normal that leans by `degrees` from the vertical towards `x`.
fn leaning(degrees: f64) -> Normal {
    let radians = degrees.to_radians();
    Normal::new(
        (radians.sin() * 1_000_000.0).round() as i32,
        (radians.cos() * 1_000_000.0).round() as i32,
        0,
    )
}

/// The limit at `degrees` from the vertical.
fn limit_at(degrees: f64) -> MaxSlopeAngle {
    MaxSlopeAngle::from_cosine((degrees.to_radians().cos() * 1_000_000.0).round() as i64)
}

fn hit(normal: Normal, time_of_impact: i64) -> ShapeCastHit {
    ShapeCastHit { normal, time_of_impact }
}

#[test]
fn slope_limit_keeps_its_cosine() {
    assert_eq!(MaxSlopeAngle::from_cosine(707_107), MaxSlopeAngle(707_107));
    assert_eq!(MaxSlopeAngle::from_cosine(707_107).0, 707_107);
}

#[test]
fn gentle_slope_is_admitted() {
    let limit = limit_at(45.0);
    assert!(limit.admits(leaning(10.0)));
    assert!(limit.admits(leaning(0.0)));
    assert!(limit.admits(leaning(44.9)));
    assert!(limit.admits(leaning(-30.0)));
}

#[test]
fn steep_slope_is_refused() {
    let limit = limit_at(45.0);
    assert!(!limit.admits(leaning(60.0)));
    assert!(!limit.admits(leaning(45.1)));
    assert!(!limit.admits(leaning(90.0)));
    assert!(!limit.admits(leaning(170.0)));
    assert!(!limit.admits(Normal::down()));
}

#[test]
fn slope_at_the_limit_is_admitted() {
    // cos 60 degrees is one half: a normal of length two that rises by one.
    let limit = MaxSlopeAngle::from_cosine(500_000);
    assert!(limit.admits(Normal::new(0, 1_000_000, 1_732_050)));
    assert!(!limit.admits(Normal::new(0, 1_000_000, 1_732_051)));
    // 3-4-5: the cosine is exactly four fifths.
    let four_fifths = MaxSlopeAngle::from_cosine(800_000);
    assert!(four_fifths.admits(Normal::new(3, 4, 0)));
    assert!(four_fifths.admits(Normal::new(-300_000, 400_000, 0)));
    assert!(!MaxSlopeAngle::from_cosine(800_001).admits(Normal::new(3, 4, 0)));
}

#[test]
fn only_the_direction_of_a_normal_counts() {
    let limit = limit_at(45.0);
    assert!(limit.admits(Normal::new(1, 6, 0)));
    assert!(limit.admits(Normal::new(300_000_000, 1_800_000_000, 0)));
    assert!(!limit.admits(Normal::new(6, 1, 0)));
    assert!(!limit.admits(Normal::new(1_800_000_000, 300_000_000, 0)));
    assert!(limit.admits(Normal::new(0, i32::MAX, 0)));
    assert!(!limit.admits(Normal::new(i32::MIN, i32::MAX, i32::MIN)));
}

#[test]
fn normal_of_length_zero_is_never_admitted() {
    let zero = Normal::new(0, 0, 0);
    assert!(!limit_at(45.0).admits(zero));
    assert!(!limit_at(90.0).admits(zero));
    assert!(!limit_at(180.0).admits(zero));
    assert!(!MaxSlopeAngle::from_cosine(-2_000_000).admits(zero));
}

#[test]
fn limit_of_a_right_angle_admits_what_does_not_point_down() {
    let limit = MaxSlopeAngle::from_cosine(0);
    assert!(limit.admits(Normal::new(1_000_000, 0, 0)));
    assert!(limit.admits(leaning(89.0)));
    assert!(!limit.admits(Normal::new(1_000_000, -1, 0)));
}

#[test]
fn limit_beyond_a_right_angle_admits_overhangs() {
    let limit = limit_at(120.0);
    assert!(limit.admits(leaning(0.0)));
    assert!(limit.admits(leaning(100.0)));
    assert!(limit.admits(leaning(119.0)));
    assert!(!limit.admits(leaning(121.0)));
    assert!(!limit.admits(Normal::down()));
}

#[test]
fn cosine_out_of_range_is_read_as_the_nearer_end() {
    // A cosine of one or more: only straight up is walkable.
    for cosine in [1_000_000, 1_000_001, i64::MAX] {
        let limit = MaxSlopeAngle::from_cosine(cosine);
        assert!(limit.admits(Normal::up()));
        assert!(limit.admits(Normal::new(0, 5, 0)));
        assert!(!limit.admits(Normal::new(1, 1_000_000, 0)));
    }
    // A cosine of minus one or less: every direction is walkable.
    for cosine in [-1_000_000, -1_000_001, i64::MIN] {
        let limit = MaxSlopeAngle::from_cosine(cosine);
        assert!(limit.admits(Normal::down()));
        assert!(limit.admits(Normal::new(1, -1_000_000, 0)));
        assert!(limit.admits(Normal::up()));
    }
}

#[test]
fn without_a_limit_every_surface_is_walkable() {
    assert!(is_walkable(&None, leaning(60.0)));
    assert!(is_walkable(&None, Normal::down()));
    assert!(is_walkable(&None, Normal::new(0, 0, 0)));
    assert!(is_walkable(&Some(limit_at(45.0)), leaning(10.0)));
    assert!(!is_walkable(&Some(limit_at(45.0)), leaning(60.0)));
}

#[test]
fn no_hit_means_airborne() {
    assert!(!is_grounded(&vec![], Yaw::identity(), &Some(limit_at(45.0))));
    assert!(!is_grounded(&vec![], Yaw::identity(), &Some(MaxSlopeAngle::from_cosine(-1_000_000))));
    assert!(!is_grounded(&vec![], Yaw::identity(), &None));
}

#[test]
fn walkable_hit_grounds_at_any_distance() {
    let limit = Some(limit_at(45.0));
    for time_of_impact in [0, 1, 100_000, 200_000] {
        assert!(is_grounded(&vec![hit(leaning(10.0), time_of_impact)], Yaw::identity(), &limit));
        assert!(is_grounded(&vec![hit(leaning(44.0), time_of_impact)], Yaw::identity(), &limit));
    }
}

#[test]
fn steep_hits_alone_do_not_ground() {
    let limit = Some(limit_at(45.0));
    assert!(!is_grounded(&vec![hit(leaning(60.0), 0)], Yaw::identity(), &limit));
    let steep = vec![hit(leaning(60.0), 0), hit(leaning(80.0), 10), hit(Normal::down(), 20)];
    assert!(!is_grounded(&steep, Yaw::identity(), &limit
    ));
}

#[test]
fn one_walkable_hit_among_steep_ones_grounds() {
    let limit = Some(limit_at(45.0));
    let steep = hit(leaning(60.0), 1_000);
    let gentle = hit(leaning(10.0), 150_000);
    assert!(is_grounded(&vec![gentle, steep, steep], Yaw::identity(), &limit));
    assert!(is_grounded(&vec![steep, gentle, steep], Yaw::identity(), &limit));
    assert!(is_grounded(&vec![steep, steep, gentle], Yaw::identity(), &limit));
}

#[test]
fn without_a_limit_any_hit_grounds() {
    assert!(is_grounded(&vec![hit(leaning(60.0), 0)], Yaw::identity(), &None));
    assert!(is_grounded(&vec![hit(Normal::down(), 0)], Yaw::identity(), &None));
    assert!(is_grounded(&vec![hit(Normal::new(0, 0, 0), 0)], Yaw::identity(), &None));
}

#[test]
fn classification_turns_the_normal_by_the_facing() {
    let limit = Some(limit_at(45.0));
    // A normal that leans by 60 degrees stays too steep however the body faces.
    let steep = vec![hit(leaning(60.0), 0)];
    let gentle = vec![hit(leaning(10.0), 0)];
    for facing in [
        Yaw { x: 0, y: 1_000_000 },
        Yaw { x: 1_000_000, y: 0 },
        Yaw { x: -600_000, y: 800_000 },
        Yaw { x: 3, y: -4 },
        Yaw { x: 0, y: 0 },
        Yaw { x: i64::MAX, y: i64::MIN },
    ] {
        assert!(!is_grounded(&steep, facing, &limit));
        assert!(is_grounded(&gentle, facing, &limit));
        assert!(!is_grounded(&vec![], facing, &limit));
    }
}

#[test]
fn wider_limit_admits_whatever_a_narrower_one_admits() {
    let cosines = [-1_000_000, -707_107, -1, 0, 1, 500_000, 866_025, 999_999, 1_000_000];
    let normals = [
        Normal::up(),
        Normal::down(),
        leaning(10.0),
        leaning(45.0),
        leaning(89.0),
        leaning(91.0),
        leaning(135.0),
        Normal::new(1, 0, 0),
        Normal::new(-5, 3, 4),
        Normal::new(0, 0, 0),
    ];
    for normal in normals {
        let mut admitted_before = false;
        // From the narrowest limit to the widest: once admitted, always admitted.
        for cosine in cosines.iter().rev() {
            let admitted = MaxSlopeAngle::from_cosine(*cosine).admits(normal);
            assert!(admitted || !admitted_before, "{:?} {}", normal, cosine);
            admitted_before = admitted;
        }
    }
}

#[test]
fn level_ground_is_walkable_under_every_limit() {
    for cosine in [i64::MIN, -1_000_000, -1, 0, 1, 999_999, 1_000_000, i64::MAX] {
        let limit = MaxSlopeAngle::from_cosine(cosine);
        assert!(limit.admits(Normal::up()));
        assert!(limit.admits(Normal::new(0, 1, 0)));
        assert!(limit.admits(Normal::new(0, i32::MAX, 0)));
    }
}

#[test]
fn slope_is_the_vertical_part_over_the_length() {
    // Normals of the length 13: the cosine is the vertical part over 13.
    for (normal, vertical) in [
        (Normal::new(5, 12, 0), 12i64),
        (Normal::new(3, -12, 4), -12),
        (Normal::new(12, 5, 0), 5),
        (Normal::new(0, 0, 13), 0),
        (Normal::new(-12, -3, 4), -3),
    ] {
        for cosine in [-1_000_000i64, -923_077, -923_076, -230_770, 0, 384_615, 384_616, 923_076, 923_077] {
            let admitted = MaxSlopeAngle::from_cosine(cosine).admits(normal);
            assert_eq!(admitted, vertical * 1_000_000 >= cosine * 13, "{:?} {}", normal, cosine);
        }
    }
}
