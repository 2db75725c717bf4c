//! The built-in systems: classic Koch curves, the dragon curve, the
//! Sierpinski and Gosper curves, and six plant-like trees.
//!
//! Every definition is proved to be well formed and well bracketed: building
//! a built-in system cannot fail, and a turtle that draws one never runs out
//! of saved poses.

use crate::brackets::{
    lemma_rule_keeps_brackets, lemma_safe_walk, lemma_without_brackets, net_depth,
    rules_keep_brackets, walk_is_safe, well_bracketed,
};
use crate::grammar::{
    all_known, is_plain_rule, lemma_one_plain_rule, lemma_symbols_of_plain_text,
    lemma_two_plain_rules, plain_rule_from, plain_rule_to, rules_of_text, symbols_of, ParseError,
};
use crate::koch::{
    constructed, keeps_brackets, lemma_construction_keeps_brackets, Koch, KochView,
};
use rand::rngs::StdRng;
use rand::Rng;
use vstd::pervasive::unreached;
use vstd::prelude::*;

verus! {

/// A right angle, π/2 radians, as the bits of an IEEE 754 single.
pub const RIGHT_ANGLE: u32 = 0x3fc9_0fdb;

/// 60 degrees, π/3 radians, as the bits of an IEEE 754 single.
pub const SIXTY_DEGREES: u32 = 0x3f86_0a92;

/// 25.7 degrees in radians, as the bits of an IEEE 754 single.
pub const DEGREES_25_7: u32 = 0x3ee5_a84d;

/// 22.5 degrees in radians, as the bits of an IEEE 754 single.
pub const DEGREES_22_5: u32 = 0x3ec9_0fdb;

/// 20 degrees in radians, as the bits of an IEEE 754 single.
pub const DEGREES_20: u32 = 0x3eb2_b8c3;

/// The number of built-in systems.
pub const MODEL_COUNT: u32 = 19;

/// Where the system `cyclone` starts.
pub const CYCLONE_START: &'static str = "F-F-F-F";

/// The rules of the system `cyclone`.
pub const CYCLONE_RULES: &'static str = "F => F-F+F+FF-F-F+F";

/// Where the system `caret` starts.
pub const CARET_START: &'static str = "-F";

/// The rules of the system `caret`.
pub const CARET_RULES: &'static str = "F => F+F-F-F+F";

/// Where the system `islands` starts.
pub const ISLANDS_START: &'static str = "F+F+F+F";

/// The rules of the system `islands`.
pub const ISLANDS_RULES: &'static str = "F => F+f-FF+F+FF+Ff+FF-f+FF-F-FF-Ff-FFF\nf => ffffff";

/// Where the system `xshape` starts.
pub const XSHAPE_START: &'static str = "F-F-F-F";

/// The rules of the system `xshape`.
pub const XSHAPE_RULES: &'static str = "F => FF-F-F-F-F-F+F";

/// Where the system `square` starts.
pub const SQUARE_START: &'static str = "F-F-F-F";

/// The rules of the system `square`.
pub const SQUARE_RULES: &'static str = "F => FF-F-F-F-FF";

/// Where the system `grid` starts.
pub const GRID_START: &'static str = "F-F-F-F";

/// The rules of the system `grid`.
pub const GRID_RULES: &'static str = "F => FF-F+F-F-FF";

/// Where the system `sparse` starts.
pub const SPARSE_START: &'static str = "F-F-F-F";

/// The rules of the system `sparse`.
pub const SPARSE_RULES: &'static str = "F => FF-F--F-F";

/// Where the system `dense` starts.
pub const DENSE_START: &'static str = "F-F-F-F";

/// The rules of the system `dense`.
pub const DENSE_RULES: &'static str = "F => F-FF--F-F";

/// Where the system `snowflake` starts.
pub const SNOWFLAKE_START: &'static str = "F-F-F-F";

/// The rules of the system `snowflake`.
pub const SNOWFLAKE_RULES: &'static str = "F => F-F+F-F-F";

/// Where the system `dragon` starts.
pub const DRAGON_START: &'static str = "L";

/// The rules of the system `dragon`.
pub const DRAGON_RULES: &'static str = "L => L+R+\nR => -L-R";

/// Where the system `sierpinski` starts.
pub const SIERPINSKI_START: &'static str = "R";

/// The rules of the system `sierpinski`.
pub const SIERPINSKI_RULES: &'static str = "L => R+L+R\nR => L-R-L";

/// Where the system `hex_gosper` starts.
pub const HEX_GOSPER_START: &'static str = "L";

/// The rules of the system `hex_gosper`.
pub const HEX_GOSPER_RULES: &'static str = "L => L+R++R-L--LL-R+\nR => -L+RR++R+L--L-R";

/// Where the system `quad_gosper` starts.
pub const QUAD_GOSPER_START: &'static str = "-R";

/// The rules of the system `quad_gosper`.
pub const QUAD_GOSPER_RULES: &'static str = "L => LL-R-R+L+L-R-RL+R+LLR-L+R+LL+R-LR-R-L+L+RR-\nR => +LL-R-R+L+LR+L-RR-L-R+LRR-L-RL+L+R-R-L+L+RR";

/// Where the system `tree_a` starts.
pub const TREE_A_START: &'static str = "F";

/// The rules of the system `tree_a`.
pub const TREE_A_RULES: &'static str = "F => F[+F]F[-F]F";

/// Where the system `tree_b` starts.
pub const TREE_B_START: &'static str = "F";

/// The rules of the system `tree_b`.
pub const TREE_B_RULES: &'static str = "F => F[+F]F[-F][F]";

/// Where the system `tree_c` starts.
pub const TREE_C_START: &'static str = "F";

/// The rules of the system `tree_c`.
pub const TREE_C_RULES: &'static str = "F => FF-[-F+F+F]+[+F-F-F]";

/// Where the system `tree_d` starts.
pub const TREE_D_START: &'static str = "X";

/// The rules of the system `tree_d`.
pub const TREE_D_RULES: &'static str = "X => F[+X]F[-X]+X\nF => FF";

/// Where the system `tree_e` starts.
pub const TREE_E_START: &'static str = "X";

/// The rules of the system `tree_e`.
pub const TREE_E_RULES: &'static str = "X => F[+X][-X]FX\nF => FF";

/// Where the system `tree_f` starts.
pub const TREE_F_START: &'static str = "X";

/// The rules of the system `tree_f`.
pub const TREE_F_RULES: &'static str = "X => F-[[X]+X]+F[+FX]-X\nF => FF";

/// The names of the built-in systems.
#[derive(Debug, Clone, Copy, PartialEq, Eq, Structural)]
pub enum KochModel {
    Cyclone,
    Caret,
    Islands,
    Xshape,
    Square,
    Grid,
    Sparse,
    Dense,
    Snowflake,
    Dragon,
    Sierpinski,
    HexGosper,
    QuadGosper,
    TreeA,
    TreeB,
    TreeC,
    TreeD,
    TreeE,
    TreeF,
}

/// What defines a system: the arguments of `Koch::from`, as mathematical
/// values.
pub struct Definition {
    /// The label of the system.
    pub name: Seq<char>,
    /// The text of the sequence to start from.
    pub initial_state: Seq<char>,
    /// The text of the production rules.
    pub rewrite_rules: Seq<char>,
    /// The number of generations.
    pub n: nat,
    /// The turn angle in radians, as the bits of an IEEE 754 single.
    pub delta: u32,
}

impl KochModel {
    /// The place of a system in the catalog, counted from zero.
    pub open spec fn spec_index(&self) -> u32 {
        match self {
            KochModel::Cyclone => 0,
            KochModel::Caret => 1,
            KochModel::Islands => 2,
            KochModel::Xshape => 3,
            KochModel::Square => 4,
            KochModel::Grid => 5,
            KochModel::Sparse => 6,
            KochModel::Dense => 7,
            KochModel::Snowflake => 8,
            KochModel::Dragon => 9,
            KochModel::Sierpinski => 10,
            KochModel::HexGosper => 11,
            KochModel::QuadGosper => 12,
            KochModel::TreeA => 13,
            KochModel::TreeB => 14,
            KochModel::TreeC => 15,
            KochModel::TreeD => 16,
            KochModel::TreeE => 17,
            KochModel::TreeF => 18,
        }
    }

    /// The place of a system in the catalog, counted from zero.
    #[verifier::when_used_as_spec(spec_index)]
    pub fn index(&self) -> (i: u32)
        ensures
            i == self.spec_index(),
            i < MODEL_COUNT,
    {
        match self {
            KochModel::Cyclone => 0,
            KochModel::Caret => 1,
            KochModel::Islands => 2,
            KochModel::Xshape => 3,
            KochModel::Square => 4,
            KochModel::Grid => 5,
            KochModel::Sparse => 6,
            KochModel::Dense => 7,
            KochModel::Snowflake => 8,
            KochModel::Dragon => 9,
            KochModel::Sierpinski => 10,
            KochModel::HexGosper => 11,
            KochModel::QuadGosper => 12,
            KochModel::TreeA => 13,
            KochModel::TreeB => 14,
            KochModel::TreeC => 15,
            KochModel::TreeD => 16,
            KochModel::TreeE => 17,
            KochModel::TreeF => 18,
        }
    }

    /// The system at place `i` of the catalog.
    fn at(i: u32) -> (model: KochModel)
        requires
            i < MODEL_COUNT,
        ensures
            model.spec_index() == i,
    {
        match i {
            0 => KochModel::Cyclone,
            1 => KochModel::Caret,
            2 => KochModel::Islands,
            3 => KochModel::Xshape,
            4 => KochModel::Square,
            5 => KochModel::Grid,
            6 => KochModel::Sparse,
            7 => KochModel::Dense,
            8 => KochModel::Snowflake,
            9 => KochModel::Dragon,
            10 => KochModel::Sierpinski,
            11 => KochModel::HexGosper,
            12 => KochModel::QuadGosper,
            13 => KochModel::TreeA,
            14 => KochModel::TreeB,
            15 => KochModel::TreeC,
            16 => KochModel::TreeD,
            17 => KochModel::TreeE,
            _ => KochModel::TreeF,
        }
    }

    /// The system at place `i` of the catalog: there is one exactly for the
    /// places below `MODEL_COUNT`, and it is the one whose index is `i`.
    pub fn from_index(i: u32) -> (model: Option<KochModel>)
        ensures
            model is Some <==> i < MODEL_COUNT,
            model matches Some(m) ==> m.spec_index() == i,
    {
        if i < MODEL_COUNT {
            Some(KochModel::at(i))
        } else {
            None
        }
    }

    /// The definition of a built-in system.
    pub open spec fn definition(&self) -> Definition {
        match self {
            KochModel::Cyclone => Definition {
                name: "cyclone"@,
                initial_state: CYCLONE_START@,
                rewrite_rules: CYCLONE_RULES@,
                n: 2,
                delta: RIGHT_ANGLE,
            },
            KochModel::Caret => Definition {
                name: "caret"@,
                initial_state: CARET_START@,
                rewrite_rules: CARET_RULES@,
                n: 4,
                delta: RIGHT_ANGLE,
            },
            KochModel::Islands => Definition {
                name: "islands"@,
                initial_state: ISLANDS_START@,
                rewrite_rules: ISLANDS_RULES@,
                n: 2,
                delta: RIGHT_ANGLE,
            },
            KochModel::Xshape => Definition {
                name: "xshape"@,
                initial_state: XSHAPE_START@,
                rewrite_rules: XSHAPE_RULES@,
                n: 4,
                delta: RIGHT_ANGLE,
            },
            KochModel::Square => Definition {
                name: "square"@,
                initial_state: SQUARE_START@,
                rewrite_rules: SQUARE_RULES@,
                n: 4,
                delta: RIGHT_ANGLE,
            },
            KochModel::Grid => Definition {
                name: "grid"@,
                initial_state: GRID_START@,
                rewrite_rules: GRID_RULES@,
                n: 3,
                delta: RIGHT_ANGLE,
            },
            KochModel::Sparse => Definition {
                name: "sparse"@,
                initial_state: SPARSE_START@,
                rewrite_rules: SPARSE_RULES@,
                n: 4,
                delta: RIGHT_ANGLE,
            },
            KochModel::Dense => Definition {
                name: "dense"@,
                initial_state: DENSE_START@,
                rewrite_rules: DENSE_RULES@,
                n: 5,
                delta: RIGHT_ANGLE,
            },
            KochModel::Snowflake => Definition {
                name: "snowflake"@,
                initial_state: SNOWFLAKE_START@,
                rewrite_rules: SNOWFLAKE_RULES@,
                n: 4,
                delta: RIGHT_ANGLE,
            },
            KochModel::Dragon => Definition {
                name: "dragon"@,
                initial_state: DRAGON_START@,
                rewrite_rules: DRAGON_RULES@,
                n: 10,
                delta: RIGHT_ANGLE,
            },
            KochModel::Sierpinski => Definition {
                name: "sierpinski"@,
                initial_state: SIERPINSKI_START@,
                rewrite_rules: SIERPINSKI_RULES@,
                n: 6,
                delta: SIXTY_DEGREES,
            },
            KochModel::HexGosper => Definition {
                name: "hex_gosper"@,
                initial_state: HEX_GOSPER_START@,
                rewrite_rules: HEX_GOSPER_RULES@,
                n: 4,
                delta: SIXTY_DEGREES,
            },
            KochModel::QuadGosper => Definition {
                name: "quad_gosper"@,
                initial_state: QUAD_GOSPER_START@,
                rewrite_rules: QUAD_GOSPER_RULES@,
                n: 2,
                delta: RIGHT_ANGLE,
            },
            KochModel::TreeA => Definition {
                name: "tree_a"@,
                initial_state: TREE_A_START@,
                rewrite_rules: TREE_A_RULES@,
                n: 5,
                delta: DEGREES_25_7,
            },
            KochModel::TreeB => Definition {
                name: "tree_b"@,
                initial_state: TREE_B_START@,
                rewrite_rules: TREE_B_RULES@,
                n: 5,
                delta: DEGREES_20,
            },
            KochModel::TreeC => Definition {
                name: "tree_c"@,
                initial_state: TREE_C_START@,
                rewrite_rules: TREE_C_RULES@,
                n: 5,
                delta: DEGREES_22_5,
            },
            KochModel::TreeD => Definition {
                name: "tree_d"@,
                initial_state: TREE_D_START@,
                rewrite_rules: TREE_D_RULES@,
                n: 7,
                delta: DEGREES_20,
            },
            KochModel::TreeE => Definition {
                name: "tree_e"@,
                initial_state: TREE_E_START@,
                rewrite_rules: TREE_E_RULES@,
                n: 7,
                delta: DEGREES_25_7,
            },
            KochModel::TreeF => Definition {
                name: "tree_f"@,
                initial_state: TREE_F_START@,
                rewrite_rules: TREE_F_RULES@,
                n: 5,
                delta: DEGREES_22_5,
            },
        }
    }
}

/// What building a built-in system gives: what `Koch::from` makes of its
/// definition.
pub open spec fn instance_of(model: KochModel) -> Result<KochView, ParseError> {
    let definition = model.definition();
    constructed(
        definition.name,
        definition.initial_state,
        definition.rewrite_rules,
        definition.n,
        definition.delta,
    )
}

/// A text without brackets is read as a well-bracketed and balanced
/// sequence.
proof fn lemma_flat_text(text: Seq<char>)
    requires
        all_known(text),
        forall|i: int| 0 <= i < text.len() ==> text[i] != '[' && text[i] != ']',
    ensures
        well_bracketed(symbols_of(text)),
        net_depth(symbols_of(text)) == 0,
{
    lemma_symbols_of_plain_text(text);
    lemma_without_brackets(symbols_of(text));
}

/// A text of one rule in plain form keeps brackets if the right-hand side of
/// the rule is well bracketed and balanced.
proof fn lemma_one_rule(text: Seq<char>)
    requires
        is_plain_rule(text),
        well_bracketed(plain_rule_to(text)),
        net_depth(plain_rule_to(text)) == 0,
    ensures
        rules_of_text(text) matches Ok(rules) && rules_keep_brackets(rules),
{
    lemma_one_plain_rule(text);
    lemma_rule_keeps_brackets(Map::empty(), plain_rule_from(text), plain_rule_to(text));
}

/// A text of two rules in plain form, with the newline between them at `n`,
/// keeps brackets if both right-hand sides are well bracketed and balanced.
proof fn lemma_two_rules(text: Seq<char>, n: int)
    requires
        0 <= n < text.len(),
        text[n] == '\n',
        is_plain_rule(text.take(n)),
        is_plain_rule(text.skip(n + 1)),
        well_bracketed(plain_rule_to(text.take(n))),
        net_depth(plain_rule_to(text.take(n))) == 0,
        well_bracketed(plain_rule_to(text.skip(n + 1))),
        net_depth(plain_rule_to(text.skip(n + 1))) == 0,
    ensures
        rules_of_text(text) matches Ok(rules) && rules_keep_brackets(rules),
{
    let first = text.take(n);
    let second = text.skip(n + 1);
    lemma_two_plain_rules(text, n);
    lemma_rule_keeps_brackets(Map::empty(), plain_rule_from(first), plain_rule_to(first));
    lemma_rule_keeps_brackets(
        Map::empty().insert(plain_rule_from(first), plain_rule_to(first)),
        plain_rule_from(second),
        plain_rule_to(second),
    );
}

/// The definition of `cyclone` is well formed and keeps brackets.
proof fn lemma_cyclone_is_sound()
    ensures
        keeps_brackets(CYCLONE_START@, CYCLONE_RULES@),
{
    reveal_strlit("F-F-F-F");
    reveal_strlit("F => F-F+F+FF-F-F+F");
    lemma_flat_text(CYCLONE_START@);
    lemma_flat_text(CYCLONE_RULES@.skip(5));
    lemma_one_rule(CYCLONE_RULES@);
}

/// The definition of `caret` is well formed and keeps brackets.
proof fn lemma_caret_is_sound()
    ensures
        keeps_brackets(CARET_START@, CARET_RULES@),
{
    reveal_strlit("-F");
    reveal_strlit("F => F+F-F-F+F");
    lemma_flat_text(CARET_START@);
    lemma_flat_text(CARET_RULES@.skip(5));
    lemma_one_rule(CARET_RULES@);
}

/// The definition of `islands` is well formed and keeps brackets.
proof fn lemma_islands_is_sound()
    ensures
        keeps_brackets(ISLANDS_START@, ISLANDS_RULES@),
{
    reveal_strlit("F+F+F+F");
    reveal_strlit("F => F+f-FF+F+FF+Ff+FF-f+FF-F-FF-Ff-FFF\nf => ffffff");
    lemma_flat_text(ISLANDS_START@);
    lemma_flat_text(ISLANDS_RULES@.take(39).skip(5));
    lemma_flat_text(ISLANDS_RULES@.skip(40).skip(5));
    lemma_two_rules(ISLANDS_RULES@, 39);
}

/// The definition of `xshape` is well formed and keeps brackets.
proof fn lemma_xshape_is_sound()
    ensures
        keeps_brackets(XSHAPE_START@, XSHAPE_RULES@),
{
    reveal_strlit("F-F-F-F");
    reveal_strlit("F => FF-F-F-F-F-F+F");
    lemma_flat_text(XSHAPE_START@);
    lemma_flat_text(XSHAPE_RULES@.skip(5));
    lemma_one_rule(XSHAPE_RULES@);
}

/// The definition of `square` is well formed and keeps brackets.
proof fn lemma_square_is_sound()
    ensures
        keeps_brackets(SQUARE_START@, SQUARE_RULES@),
{
    reveal_strlit("F-F-F-F");
    reveal_strlit("F => FF-F-F-F-FF");
    lemma_flat_text(SQUARE_START@);
    lemma_flat_text(SQUARE_RULES@.skip(5));
    lemma_one_rule(SQUARE_RULES@);
}

/// The definition of `grid` is well formed and keeps brackets.
proof fn lemma_grid_is_sound()
    ensures
        keeps_brackets(GRID_START@, GRID_RULES@),
{
    reveal_strlit("F-F-F-F");
    reveal_strlit("F => FF-F+F-F-FF");
    lemma_flat_text(GRID_START@);
    lemma_flat_text(GRID_RULES@.skip(5));
    lemma_one_rule(GRID_RULES@);
}

/// The definition of `sparse` is well formed and keeps brackets.
proof fn lemma_sparse_is_sound()
    ensures
        keeps_brackets(SPARSE_START@, SPARSE_RULES@),
{
    reveal_strlit("F-F-F-F");
    reveal_strlit("F => FF-F--F-F");
    lemma_flat_text(SPARSE_START@);
    lemma_flat_text(SPARSE_RULES@.skip(5));
    lemma_one_rule(SPARSE_RULES@);
}

/// The definition of `dense` is well formed and keeps brackets.
proof fn lemma_dense_is_sound()
    ensures
        keeps_brackets(DENSE_START@, DENSE_RULES@),
{
    reveal_strlit("F-F-F-F");
    reveal_strlit("F => F-FF--F-F");
    lemma_flat_text(DENSE_START@);
    lemma_flat_text(DENSE_RULES@.skip(5));
    lemma_one_rule(DENSE_RULES@);
}

/// The definition of `snowflake` is well formed and keeps brackets.
proof fn lemma_snowflake_is_sound()
    ensures
        keeps_brackets(SNOWFLAKE_START@, SNOWFLAKE_RULES@),
{
    reveal_strlit("F-F-F-F");
    reveal_strlit("F => F-F+F-F-F");
    lemma_flat_text(SNOWFLAKE_START@);
    lemma_flat_text(SNOWFLAKE_RULES@.skip(5));
    lemma_one_rule(SNOWFLAKE_RULES@);
}

/// The definition of `dragon` is well formed and keeps brackets.
proof fn lemma_dragon_is_sound()
    ensures
        keeps_brackets(DRAGON_START@, DRAGON_RULES@),
{
    reveal_strlit("L");
    reveal_strlit("L => L+R+\nR => -L-R");
    lemma_flat_text(DRAGON_START@);
    lemma_flat_text(DRAGON_RULES@.take(9).skip(5));
    lemma_flat_text(DRAGON_RULES@.skip(10).skip(5));
    lemma_two_rules(DRAGON_RULES@, 9);
}

/// The definition of `sierpinski` is well formed and keeps brackets.
proof fn lemma_sierpinski_is_sound()
    ensures
        keeps_brackets(SIERPINSKI_START@, SIERPINSKI_RULES@),
{
    reveal_strlit("R");
    reveal_strlit("L => R+L+R\nR => L-R-L");
    lemma_flat_text(SIERPINSKI_START@);
    lemma_flat_text(SIERPINSKI_RULES@.take(10).skip(5));
    lemma_flat_text(SIERPINSKI_RULES@.skip(11).skip(5));
    lemma_two_rules(SIERPINSKI_RULES@, 10);
}

/// The definition of `hex_gosper` is well formed and keeps brackets.
proof fn lemma_hex_gosper_is_sound()
    ensures
        keeps_brackets(HEX_GOSPER_START@, HEX_GOSPER_RULES@),
{
    reveal_strlit("L");
    reveal_strlit("L => L+R++R-L--LL-R+\nR => -L+RR++R+L--L-R");
    lemma_flat_text(HEX_GOSPER_START@);
    lemma_flat_text(HEX_GOSPER_RULES@.take(20).skip(5));
    lemma_flat_text(HEX_GOSPER_RULES@.skip(21).skip(5));
    lemma_two_rules(HEX_GOSPER_RULES@, 20);
}

/// The definition of `quad_gosper` is well formed and keeps brackets.
proof fn lemma_quad_gosper_is_sound()
    ensures
        keeps_brackets(QUAD_GOSPER_START@, QUAD_GOSPER_RULES@),
{
    reveal_strlit("-R");
    reveal_strlit("L => LL-R-R+L+L-R-RL+R+LLR-L+R+LL+R-LR-R-L+L+RR-\nR => +LL-R-R+L+LR+L-RR-L-R+LRR-L-RL+L+R-R-L+L+RR");
    lemma_flat_text(QUAD_GOSPER_START@);
    lemma_flat_text(QUAD_GOSPER_RULES@.take(48).skip(5));
    lemma_flat_text(QUAD_GOSPER_RULES@.skip(49).skip(5));
    lemma_two_rules(QUAD_GOSPER_RULES@, 48);
}

/// The definition of `tree_a` is well formed and keeps brackets.
proof fn lemma_tree_a_is_sound()
    ensures
        keeps_brackets(TREE_A_START@, TREE_A_RULES@),
{
    reveal_strlit("F");
    reveal_strlit("F => F[+F]F[-F]F");
    lemma_flat_text(TREE_A_START@);
    assert(walk_is_safe(plain_rule_to(TREE_A_RULES@), 0, 0, 0)) by {
        reveal_with_fuel(walk_is_safe, 13);
    }
    lemma_safe_walk(plain_rule_to(TREE_A_RULES@), 0);
    lemma_one_rule(TREE_A_RULES@);
}

/// The definition of `tree_b` is well formed and keeps brackets.
proof fn lemma_tree_b_is_sound()
    ensures
        keeps_brackets(TREE_B_START@, TREE_B_RULES@),
{
    reveal_strlit("F");
    reveal_strlit("F => F[+F]F[-F][F]");
    lemma_flat_text(TREE_B_START@);
    assert(walk_is_safe(plain_rule_to(TREE_B_RULES@), 0, 0, 0)) by {
        reveal_with_fuel(walk_is_safe, 15);
    }
    lemma_safe_walk(plain_rule_to(TREE_B_RULES@), 0);
    lemma_one_rule(TREE_B_RULES@);
}

/// The definition of `tree_c` is well formed and keeps brackets.
proof fn lemma_tree_c_is_sound()
    ensures
        keeps_brackets(TREE_C_START@, TREE_C_RULES@),
{
    reveal_strlit("F");
    reveal_strlit("F => FF-[-F+F+F]+[+F-F-F]");
    lemma_flat_text(TREE_C_START@);
    assert(walk_is_safe(plain_rule_to(TREE_C_RULES@), 0, 0, 0)) by {
        reveal_with_fuel(walk_is_safe, 22);
    }
    lemma_safe_walk(plain_rule_to(TREE_C_RULES@), 0);
    lemma_one_rule(TREE_C_RULES@);
}

/// The definition of `tree_d` is well formed and keeps brackets.
proof fn lemma_tree_d_is_sound()
    ensures
        keeps_brackets(TREE_D_START@, TREE_D_RULES@),
{
    reveal_strlit("X");
    reveal_strlit("X => F[+X]F[-X]+X\nF => FF");
    lemma_flat_text(TREE_D_START@);
    assert(walk_is_safe(plain_rule_to(TREE_D_RULES@.take(17)), 0, 0, 0)) by {
        reveal_with_fuel(walk_is_safe, 14);
    }
    lemma_safe_walk(plain_rule_to(TREE_D_RULES@.take(17)), 0);
    lemma_flat_text(TREE_D_RULES@.skip(18).skip(5));
    lemma_two_rules(TREE_D_RULES@, 17);
}

/// The definition of `tree_e` is well formed and keeps brackets.
proof fn lemma_tree_e_is_sound()
    ensures
        keeps_brackets(TREE_E_START@, TREE_E_RULES@),
{
    reveal_strlit("X");
    reveal_strlit("X => F[+X][-X]FX\nF => FF");
    lemma_flat_text(TREE_E_START@);
    assert(walk_is_safe(plain_rule_to(TREE_E_RULES@.take(16)), 0, 0, 0)) by {
        reveal_with_fuel(walk_is_safe, 13);
    }
    lemma_safe_walk(plain_rule_to(TREE_E_RULES@.take(16)), 0);
    lemma_flat_text(TREE_E_RULES@.skip(17).skip(5));
    lemma_two_rules(TREE_E_RULES@, 16);
}

/// The definition of `tree_f` is well formed and keeps brackets.
proof fn lemma_tree_f_is_sound()
    ensures
        keeps_brackets(TREE_F_START@, TREE_F_RULES@),
{
    reveal_strlit("X");
    reveal_strlit("X => F-[[X]+X]+F[+FX]-X\nF => FF");
    lemma_flat_text(TREE_F_START@);
    assert(walk_is_safe(plain_rule_to(TREE_F_RULES@.take(23)), 0, 0, 0)) by {
        reveal_with_fuel(walk_is_safe, 20);
    }
    lemma_safe_walk(plain_rule_to(TREE_F_RULES@.take(23)), 0);
    lemma_flat_text(TREE_F_RULES@.skip(24).skip(5));
    lemma_two_rules(TREE_F_RULES@, 23);
}

/// Every definition in the catalog is well formed, and its sequence is well
/// bracketed: building the system cannot fail, and a turtle can draw what is
/// built for ever.
pub proof fn lemma_catalog_is_sound(model: KochModel)
    ensures
        instance_of(model) matches Ok(koch) && well_bracketed(koch.sequence),
{
    match model {
        KochModel::Cyclone => lemma_cyclone_is_sound(),
        KochModel::Caret => lemma_caret_is_sound(),
        KochModel::Islands => lemma_islands_is_sound(),
        KochModel::Xshape => lemma_xshape_is_sound(),
        KochModel::Square => lemma_square_is_sound(),
        KochModel::Grid => lemma_grid_is_sound(),
        KochModel::Sparse => lemma_sparse_is_sound(),
        KochModel::Dense => lemma_dense_is_sound(),
        KochModel::Snowflake => lemma_snowflake_is_sound(),
        KochModel::Dragon => lemma_dragon_is_sound(),
        KochModel::Sierpinski => lemma_sierpinski_is_sound(),
        KochModel::HexGosper => lemma_hex_gosper_is_sound(),
        KochModel::QuadGosper => lemma_quad_gosper_is_sound(),
        KochModel::TreeA => lemma_tree_a_is_sound(),
        KochModel::TreeB => lemma_tree_b_is_sound(),
        KochModel::TreeC => lemma_tree_c_is_sound(),
        KochModel::TreeD => lemma_tree_d_is_sound(),
        KochModel::TreeE => lemma_tree_e_is_sound(),
        KochModel::TreeF => lemma_tree_f_is_sound(),
    }
    let definition = model.definition();
    lemma_construction_keeps_brackets(
        definition.name,
        definition.initial_state,
        definition.rewrite_rules,
        definition.n,
        definition.delta,
    );
}

impl Koch {
    /// Builds the instance of a built-in system.
    pub fn model(m: KochModel) -> (koch: Koch)
        ensures
            instance_of(m) == Ok::<KochView, ParseError>(koch@),
            well_bracketed(koch@.sequence),
    {
        match m {
            KochModel::Cyclone => Koch::cyclone(),
            KochModel::Caret => Koch::caret(),
            KochModel::Islands => Koch::islands(),
            KochModel::Xshape => Koch::xshape(),
            KochModel::Square => Koch::square(),
            KochModel::Grid => Koch::grid(),
            KochModel::Sparse => Koch::sparse(),
            KochModel::Dense => Koch::dense(),
            KochModel::Snowflake => Koch::snowflake(),
            KochModel::Dragon => Koch::dragon(),
            KochModel::Sierpinski => Koch::sierpinski(),
            KochModel::HexGosper => Koch::hex_gosper(),
            KochModel::QuadGosper => Koch::quad_gosper(),
            KochModel::TreeA => Koch::tree_a(),
            KochModel::TreeB => Koch::tree_b(),
            KochModel::TreeC => Koch::tree_c(),
            KochModel::TreeD => Koch::tree_d(),
            KochModel::TreeE => Koch::tree_e(),
            KochModel::TreeF => Koch::tree_f(),
        }
    }

    /// Builds an instance from texts that are known to be well formed.
    fn sure(name: &str, initial_state: &str, rewrite_rules: &str, n: usize, delta: u32) -> (koch:
        Koch)
        requires
            constructed(name@, initial_state@, rewrite_rules@, n as nat, delta) is Ok,
        ensures
            constructed(name@, initial_state@, rewrite_rules@, n as nat, delta) == Ok::<
                KochView,
                ParseError,
            >(koch@),
    {
        match Koch::from(name, initial_state, rewrite_rules, n, delta) {
            Ok(koch) => koch,
            Err(_) => unreached(),
        }
    }

    /// A quadratic Koch curve that winds like a cyclone.
    pub fn cyclone() -> (koch: Koch)
        ensures
            instance_of(KochModel::Cyclone) == Ok::<KochView, ParseError>(koch@),
            well_bracketed(koch@.sequence),
    {
        proof {
            lemma_catalog_is_sound(KochModel::Cyclone);
        }
        Koch::sure("cyclone", CYCLONE_START, CYCLONE_RULES, 2, RIGHT_ANGLE)
    }

    /// A quadratic Koch curve grown from a single segment.
    pub fn caret() -> (koch: Koch)
        ensures
            instance_of(KochModel::Caret) == Ok::<KochView, ParseError>(koch@),
            well_bracketed(koch@.sequence),
    {
        proof {
            lemma_catalog_is_sound(KochModel::Caret);
        }
        Koch::sure("caret", CARET_START, CARET_RULES, 4, RIGHT_ANGLE)
    }

    /// Islands and lakes: the only system that moves without drawing.
    pub fn islands() -> (koch: Koch)
        ensures
            instance_of(KochModel::Islands) == Ok::<KochView, ParseError>(koch@),
            well_bracketed(koch@.sequence),
    {
        proof {
            lemma_catalog_is_sound(KochModel::Islands);
        }
        Koch::sure("islands", ISLANDS_START, ISLANDS_RULES, 2, RIGHT_ANGLE)
    }

    /// A quadratic Koch curve in the shape of a cross.
    pub fn xshape() -> (koch: Koch)
        ensures
            instance_of(KochModel::Xshape) == Ok::<KochView, ParseError>(koch@),
            well_bracketed(koch@.sequence),
    {
        proof {
            lemma_catalog_is_sound(KochModel::Xshape);
        }
        Koch::sure("xshape", XSHAPE_START, XSHAPE_RULES, 4, RIGHT_ANGLE)
    }

    /// A quadratic Koch curve of nested squares.
    pub fn square() -> (koch: Koch)
        ensures
            instance_of(KochModel::Square) == Ok::<KochView, ParseError>(koch@),
            well_bracketed(koch@.sequence),
    {
        proof {
            lemma_catalog_is_sound(KochModel::Square);
        }
        Koch::sure("square", SQUARE_START, SQUARE_RULES, 4, RIGHT_ANGLE)
    }

    /// A quadratic Koch curve that draws a grid.
    pub fn grid() -> (koch: Koch)
        ensures
            instance_of(KochModel::Grid) == Ok::<KochView, ParseError>(koch@),
            well_bracketed(koch@.sequence),
    {
        proof {
            lemma_catalog_is_sound(KochModel::Grid);
        }
        Koch::sure("grid", GRID_START, GRID_RULES, 3, RIGHT_ANGLE)
    }

    /// A sparse quadratic Koch curve.
    pub fn sparse() -> (koch: Koch)
        ensures
            instance_of(KochModel::Sparse) == Ok::<KochView, ParseError>(koch@),
            well_bracketed(koch@.sequence),
    {
        proof {
            lemma_catalog_is_sound(KochModel::Sparse);
        }
        Koch::sure("sparse", SPARSE_START, SPARSE_RULES, 4, RIGHT_ANGLE)
    }

    /// A dense quadratic Koch curve.
    pub fn dense() -> (koch: Koch)
        ensures
            instance_of(KochModel::Dense) == Ok::<KochView, ParseError>(koch@),
            well_bracketed(koch@.sequence),
    {
        proof {
            lemma_catalog_is_sound(KochModel::Dense);
        }
        Koch::sure("dense", DENSE_START, DENSE_RULES, 5, RIGHT_ANGLE)
    }

    /// The quadratic snowflake curve.
    pub fn snowflake() -> (koch: Koch)
        ensures
            instance_of(KochModel::Snowflake) == Ok::<KochView, ParseError>(koch@),
            well_bracketed(koch@.sequence),
    {
        proof {
            lemma_catalog_is_sound(KochModel::Snowflake);
        }
        Koch::sure("snowflake", SNOWFLAKE_START, SNOWFLAKE_RULES, 4, RIGHT_ANGLE)
    }

    /// The dragon curve.
    pub fn dragon() -> (koch: Koch)
        ensures
            instance_of(KochModel::Dragon) == Ok::<KochView, ParseError>(koch@),
            well_bracketed(koch@.sequence),
    {
        proof {
            lemma_catalog_is_sound(KochModel::Dragon);
        }
        Koch::sure("dragon", DRAGON_START, DRAGON_RULES, 10, RIGHT_ANGLE)
    }

    /// The Sierpinski arrowhead curve.
    pub fn sierpinski() -> (koch: Koch)
        ensures
            instance_of(KochModel::Sierpinski) == Ok::<KochView, ParseError>(koch@),
            well_bracketed(koch@.sequence),
    {
        proof {
            lemma_catalog_is_sound(KochModel::Sierpinski);
        }
        Koch::sure("sierpinski", SIERPINSKI_START, SIERPINSKI_RULES, 6, SIXTY_DEGREES)
    }

    /// The hexagonal Gosper curve.
    pub fn hex_gosper() -> (koch: Koch)
        ensures
            instance_of(KochModel::HexGosper) == Ok::<KochView, ParseError>(koch@),
            well_bracketed(koch@.sequence),
    {
        proof {
            lemma_catalog_is_sound(KochModel::HexGosper);
        }
        Koch::sure("hex_gosper", HEX_GOSPER_START, HEX_GOSPER_RULES, 4, SIXTY_DEGREES)
    }

    /// The quadratic Gosper curve.
    pub fn quad_gosper() -> (koch: Koch)
        ensures
            instance_of(KochModel::QuadGosper) == Ok::<KochView, ParseError>(koch@),
            well_bracketed(koch@.sequence),
    {
        proof {
            lemma_catalog_is_sound(KochModel::QuadGosper);
        }
        Koch::sure("quad_gosper", QUAD_GOSPER_START, QUAD_GOSPER_RULES, 2, RIGHT_ANGLE)
    }

    /// A plant that branches to both sides of every segment.
    pub fn tree_a() -> (koch: Koch)
        ensures
            instance_of(KochModel::TreeA) == Ok::<KochView, ParseError>(koch@),
            well_bracketed(koch@.sequence),
    {
        proof {
            lemma_catalog_is_sound(KochModel::TreeA);
        }
        Koch::sure("tree_a", TREE_A_START, TREE_A_RULES, 5, DEGREES_25_7)
    }

    /// A plant with a third branch straight ahead.
    pub fn tree_b() -> (koch: Koch)
        ensures
            instance_of(KochModel::TreeB) == Ok::<KochView, ParseError>(koch@),
            well_bracketed(koch@.sequence),
    {
        proof {
            lemma_catalog_is_sound(KochModel::TreeB);
        }
        Koch::sure("tree_b", TREE_B_START, TREE_B_RULES, 5, DEGREES_20)
    }

    /// A bushy plant.
    pub fn tree_c() -> (koch: Koch)
        ensures
            instance_of(KochModel::TreeC) == Ok::<KochView, ParseError>(koch@),
            well_bracketed(koch@.sequence),
    {
        proof {
            lemma_catalog_is_sound(KochModel::TreeC);
        }
        Koch::sure("tree_c", TREE_C_START, TREE_C_RULES, 5, DEGREES_22_5)
    }

    /// A plant that grows at its tips while its stems stretch.
    pub fn tree_d() -> (koch: Koch)
        ensures
            instance_of(KochModel::TreeD) == Ok::<KochView, ParseError>(koch@),
            well_bracketed(koch@.sequence),
    {
        proof {
            lemma_catalog_is_sound(KochModel::TreeD);
        }
        Koch::sure("tree_d", TREE_D_START, TREE_D_RULES, 7, DEGREES_20)
    }

    /// A plant that forks at every tip.
    pub fn tree_e() -> (koch: Koch)
        ensures
            instance_of(KochModel::TreeE) == Ok::<KochView, ParseError>(koch@),
            well_bracketed(koch@.sequence),
    {
        proof {
            lemma_catalog_is_sound(KochModel::TreeE);
        }
        Koch::sure("tree_e", TREE_E_START, TREE_E_RULES, 7, DEGREES_25_7)
    }

    /// A plant that leans to one side.
    pub fn tree_f() -> (koch: Koch)
        ensures
            instance_of(KochModel::TreeF) == Ok::<KochView, ParseError>(koch@),
            well_bracketed(koch@.sequence),
    {
        proof {
            lemma_catalog_is_sound(KochModel::TreeF);
        }
        Koch::sure("tree_f", TREE_F_START, TREE_F_RULES, 5, DEGREES_22_5)
    }
}

/// The random source that `random_preset` draws from: `rand`'s `StdRng`,
/// taken as a type of which nothing is known.
#[verifier::external_type_specification]
#[verifier::external_body]
pub struct ExStdRng(StdRng);

/// Draws a number from `0..=high` with `rand`'s `Rng::gen_range`.
///
/// Not proved, but taken from `rand`: the number drawn lies in the range
/// asked for. The range `0..=high` is never empty, so the call does not
/// panic. Which number comes depends on the state of `rng`; nothing is
/// claimed about it.
#[verifier::external_body]
fn draw_up_to(rng: &mut StdRng, high: u32) -> (drawn: u32)
    ensures
        drawn <= high,
{
    rng.gen_range(0..=high)
}

/// Picks one of the built-in systems, each with the same chance, from the
/// random source that the caller supplies.
pub fn random_preset(rng: &mut StdRng) -> (model: KochModel)
    ensures
        model.spec_index() < MODEL_COUNT,
{
    let drawn = draw_up_to(rng, MODEL_COUNT - 1);
    KochModel::at(drawn)
}

} // verus!
