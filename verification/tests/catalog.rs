use lsystem::catalog::{
    random_preset, KochModel, DEGREES_20, DEGREES_22_5, DEGREES_25_7, DRAGON_RULES, DRAGON_START,
    ISLANDS_RULES, ISLANDS_START, MODEL_COUNT, RIGHT_ANGLE, SIXTY_DEGREES, TREE_F_RULES,
    TREE_F_START,
};
use lsystem::koch::Koch;
use rand::rngs::StdRng;
use rand::SeedableRng;
use std::f32::consts::{FRAC_PI_2, FRAC_PI_3, TAU};

const ALL: [KochModel; 19] = [
    KochModel::Cyclone,
    KochModel::Caret,
    KochModel::Islands,
    KochModel::Xshape,
    KochModel::Square,
    KochModel::Grid,
    KochModel::Sparse,
    KochModel::Dense,
    KochModel::Snowflake,
    KochModel::Dragon,
    KochModel::Sierpinski,
    KochModel::HexGosper,
    KochModel::QuadGosper,
    KochModel::TreeA,
    KochModel::TreeB,
    KochModel::TreeC,
    KochModel::TreeD,
    KochModel::TreeE,
    KochModel::TreeF,
];

fn degrees(d: f32) -> u32 {
    (d * TAU / 360.0).to_bits()
}

#[test]
fn angles_are_the_bits_of_their_radians() {
    assert_eq!(RIGHT_ANGLE, FRAC_PI_2.to_bits());
    assert_eq!(SIXTY_DEGREES, FRAC_PI_3.to_bits());
    assert_eq!(DEGREES_25_7, degrees(25.7));
    assert_eq!(DEGREES_22_5, degrees(22.5));
    assert_eq!(DEGREES_20, degrees(20.0));
}

#[test]
fn indices_number_the_catalog() {
    assert_eq!(MODEL_COUNT, 19);
    for (i, model) in ALL.iter().enumerate() {
        assert_eq!(model.index(), i as u32);
        assert_eq!(KochModel::from_index(i as u32), Some(*model));
    }
    assert_eq!(KochModel::from_index(19), None);
    assert_eq!(KochModel::from_index(u32::MAX), None);
}

#[test]
fn every_system_builds() {
    let expected: [(&str, usize, usize, u32); 19] = [
        ("cyclone", 2, 475, RIGHT_ANGLE),
        ("caret", 4, 1250, RIGHT_ANGLE),
        ("islands", 2, 2595, RIGHT_ANGLE),
        ("xshape", 4, 30427, RIGHT_ANGLE),
        ("square", 4, 16007, RIGHT_ANGLE),
        ("grid", 3, 2287, RIGHT_ANGLE),
        ("sparse", 4, 4999, RIGHT_ANGLE),
        ("dense", 5, 24999, RIGHT_ANGLE),
        ("snowflake", 4, 4999, RIGHT_ANGLE),
        ("dragon", 10, 3070, RIGHT_ANGLE),
        ("sierpinski", 6, 1457, SIXTY_DEGREES),
        ("hex_gosper", 4, 5601, SIXTY_DEGREES),
        ("quad_gosper", 2, 1094, RIGHT_ANGLE),
        ("tree_a", 5, 7811, DEGREES_25_7),
        ("tree_b", 5, 9373, DEGREES_20),
        ("tree_c", 5, 88940, DEGREES_22_5),
        ("tree_d", 7, 13956, DEGREES_20),
        ("tree_e", 7, 12863, DEGREES_25_7),
        ("tree_f", 5, 6263, DEGREES_22_5),
    ];
    for (model, (name, n, len, delta)) in ALL.iter().zip(expected) {
        let koch = Koch::model(*model);
        assert_eq!(koch.get_name(), name);
        assert_eq!(koch.generations(), n);
        assert_eq!(koch.state().len(), len);
        assert_eq!(koch.get_delta(), delta);
        assert_eq!(koch.cursor(), 0);
    }
}

#[test]
fn a_system_is_built_from_its_definition() {
    assert_eq!(DRAGON_START, "L");
    assert_eq!(DRAGON_RULES, "L => L+R+\nR => -L-R");
    assert_eq!(
        Koch::from("dragon", DRAGON_START, DRAGON_RULES, 10, RIGHT_ANGLE),
        Ok(Koch::dragon())
    );
    assert_eq!(
        Koch::from("islands", ISLANDS_START, ISLANDS_RULES, 2, RIGHT_ANGLE),
        Ok(Koch::islands())
    );
    assert_eq!(
        Koch::from("tree_f", TREE_F_START, TREE_F_RULES, 5, DEGREES_22_5),
        Ok(Koch::tree_f())
    );
}

#[test]
fn the_named_constructors_agree_with_the_catalog() {
    assert_eq!(Koch::cyclone(), Koch::model(KochModel::Cyclone));
    assert_eq!(Koch::caret(), Koch::model(KochModel::Caret));
    assert_eq!(Koch::islands(), Koch::model(KochModel::Islands));
    assert_eq!(Koch::xshape(), Koch::model(KochModel::Xshape));
    assert_eq!(Koch::square(), Koch::model(KochModel::Square));
    assert_eq!(Koch::grid(), Koch::model(KochModel::Grid));
    assert_eq!(Koch::sparse(), Koch::model(KochModel::Sparse));
    assert_eq!(Koch::dense(), Koch::model(KochModel::Dense));
    assert_eq!(Koch::snowflake(), Koch::model(KochModel::Snowflake));
    assert_eq!(Koch::dragon(), Koch::model(KochModel::Dragon));
    assert_eq!(Koch::sierpinski(), Koch::model(KochModel::Sierpinski));
    assert_eq!(Koch::hex_gosper(), Koch::model(KochModel::HexGosper));
    assert_eq!(Koch::quad_gosper(), Koch::model(KochModel::QuadGosper));
    assert_eq!(Koch::tree_a(), Koch::model(KochModel::TreeA));
    assert_eq!(Koch::tree_b(), Koch::model(KochModel::TreeB));
    assert_eq!(Koch::tree_c(), Koch::model(KochModel::TreeC));
    assert_eq!(Koch::tree_d(), Koch::model(KochModel::TreeD));
    assert_eq!(Koch::tree_e(), Koch::model(KochModel::TreeE));
    assert_eq!(Koch::tree_f(), Koch::model(KochModel::TreeF));
}

#[test]
fn the_dragon_of_the_catalog() {
    let koch = Koch::model(KochModel::Dragon);
    assert_eq!(f32::from_bits(koch.get_delta()), FRAC_PI_2);
    let forwards = koch.state().iter().filter(|s| s.draws()).count();
    assert_eq!(forwards, 1024);
}

#[test]
fn the_islands_move_without_drawing() {
    let koch = Koch::islands();
    let drawn = koch.state().iter().filter(|s| s.draws()).count();
    let moved = koch.state().iter().filter(|s| s.moves()).count();
    assert_eq!(drawn, 1296);
    assert_eq!(moved, 1296 + 384);
}

#[test]
fn trees_have_balanced_brackets() {
    for (model, brackets) in [
        (KochModel::TreeA, 1562),
        (KochModel::TreeB, 2343),
        (KochModel::TreeC, 9362),
        (KochModel::TreeD, 2186),
        (KochModel::TreeE, 2186),
        (KochModel::TreeF, 1023),
    ] {
        let koch = Koch::model(model);
        let pushes = koch.state().iter().filter(|s| **s == lsystem::TurtleStep::Push).count();
        let pops = koch.state().iter().filter(|s| **s == lsystem::TurtleStep::Pop).count();
        assert_eq!(pushes, brackets);
        assert_eq!(pops, brackets);
    }
}

#[test]
fn a_seeded_source_gives_the_same_draws() {
    let mut first = StdRng::seed_from_u64(2024);
    let mut second = StdRng::seed_from_u64(2024);
    for _ in 0..200 {
        assert_eq!(random_preset(&mut first), random_preset(&mut second));
    }
}

#[test]
fn random_draws_reach_the_whole_catalog() {
    let mut rng = StdRng::seed_from_u64(7);
    let mut seen = [0usize; 19];
    for _ in 0..19_000 {
        let model = random_preset(&mut rng);
        assert!(model.index() < MODEL_COUNT);
        seen[model.index() as usize] += 1;
    }
    for count in seen {
        assert!(count > 700 && count < 1300);
    }
}
