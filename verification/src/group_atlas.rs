//! An atlas of finite simple groups: cyclic groups of prime order,
//! alternating groups, groups of Lie type and sporadic groups, each with
//! its order, properties and how it is drawn as a tile; and compositions
//! of groups.
//!
//! Orders are held as decimal strings (the Monster's order has 54 digits)
//! and multiplied and compared with `num_bigint`.
use vstd::prelude::*;
use crate::atlas_math::{alternating_order, calculate_alternating_order, factorial};
use crate::order::{first_above, lemma_first_above_bound, lemma_stable_order_sorted, stable_order};
use crate::text::{all_digits, cat, cat3, decimal, decimal_string, digits_value, lemma_decimal_digits, owned, push_str, str_eq, views};

verus! {

broadcast use vstd::string::group_string_axioms;

/// The rank and field size of a group of Lie type.
#[derive(PartialEq, Eq, Structural, Clone, Copy, Debug)]
#[allow(non_camel_case_types)]
pub struct n {
    pub value: u32,
    pub field_size: u32,
}

impl n {
    /// `<value>(<field size>)`.
    pub fn to_string(&self) -> (r: String)
        ensures
            r@ == decimal(self.value as nat) + "("@ + decimal(self.field_size as nat) + ")"@,
    {
        let v = decimal_string(self.value as usize);
        let f = decimal_string(self.field_size as usize);
        let mut r = cat3(v.as_str(), "(", f.as_str());
        push_str(&mut r, ")");
        r
    }
}

/// Suzuki and Ree groups.
#[derive(PartialEq, Eq, Structural, Clone, Copy, Debug)]
pub enum SuzukiReeType {
    Suzuki,
    Ree,
}

/// Exceptional groups of Lie type.
#[derive(PartialEq, Eq, Structural, Clone, Copy, Debug)]
pub enum ExceptionalType {
    G2,
    F4,
    E6,
    E7,
    E8,
    SuzukiRee(SuzukiReeType),
}

/// Classical groups of Lie type.
#[derive(PartialEq, Eq, Structural, Clone, Copy, Debug)]
pub enum ClassicalLieType {
    An(n),
    Bn(n),
    Cn(n),
    Dn(n),
    Exceptional(ExceptionalType),
}

/// Twisted groups of Lie type.
#[derive(PartialEq, Eq, Structural, Clone, Copy, Debug)]
pub enum TwistedLieType {
    TwoAn(n),
    TwoBn(n),
    TwoDn(n),
    TwoG2,
    TwoF4,
    TwoE6,
    ThreeD4,
}

/// The sporadic groups.
#[derive(PartialEq, Eq, Structural, Clone, Copy, Debug)]
pub enum SporadicGroup {
    Mathieu11,
    Mathieu12,
    Mathieu22,
    Mathieu23,
    Mathieu24,
    ConwayCo1,
    ConwayCo2,
    ConwayCo3,
    Fischer22,
    Fischer23,
    Fischer24,
    HigmanSims,
    McLaughlin,
    Held,
    Rudvalis,
    Suzuki,
    ONan,
    HaradaNorton,
    Lyons,
    Thompson,
    BabyMonster,
    Monster,
    Janko1,
    Janko2,
    Janko3,
    Janko4,
}

/// The family of a finite simple group.
#[derive(PartialEq, Eq, Structural, Clone, Copy, Debug)]
pub enum GroupFamily {
    Cyclic,
    Alternating,
    LieType(ClassicalLieType),
    Sporadic(SporadicGroup),
    TwistedLieType(TwistedLieType),
}

/// Properties of a group.
pub struct GroupProperties {
    pub simple: bool,
    pub perfect: bool,
    pub centerless: bool,
    pub schur_multiplier: Vec<u64>,
    pub outer_automorphism_group: String,
    pub conjugacy_classes: u32,
    pub maximal_subgroups: Vec<String>,
}

/// How a group is drawn as a tile.
pub struct GroupVisualization {
    pub tile_size: (u32, u32),
    pub color_scheme: String,
    pub pattern: String,
    pub complexity: u32,
    pub connections: Vec<String>,
}

/// A finite simple group.
pub struct FiniteSimpleGroup {
    pub name: String,
    /// The order, in decimal.
    pub order: String,
    pub family: GroupFamily,
    pub description: String,
    pub properties: GroupProperties,
    pub visualization: GroupVisualization,
}

/// How groups are composed.
#[derive(PartialEq, Eq, Structural, Clone, Copy, Debug)]
pub enum CompositionType {
    DirectProduct,
    SemidirectProduct,
    WreathProduct,
    CentralProduct,
}

/// A composition of groups.
pub struct GroupComposition {
    pub name: String,
    pub groups: Vec<String>,
    pub composition_type: CompositionType,
    /// The order, in decimal.
    pub order: String,
    pub visualization: GroupVisualization,
}

/// The atlas: its groups and the compositions made of them.
pub struct GroupAtlas {
    pub groups: Vec<FiniteSimpleGroup>,
    pub compositions: Vec<GroupComposition>,
}

// ───────────────────────────── views ───────────────────────────────────

pub type PropertiesView = (bool, bool, bool, Seq<u64>, Seq<char>, u32, Seq<Seq<char>>);

pub type VisualizationView = ((u32, u32), Seq<char>, Seq<char>, u32, Seq<Seq<char>>);

pub type GroupView = (Seq<char>, Seq<char>, GroupFamily, Seq<char>, PropertiesView, VisualizationView);

pub open spec fn properties_view(p: GroupProperties) -> PropertiesView {
    (
        p.simple,
        p.perfect,
        p.centerless,
        p.schur_multiplier@,
        p.outer_automorphism_group@,
        p.conjugacy_classes,
        views(p.maximal_subgroups@),
    )
}

pub open spec fn visualization_view(v: GroupVisualization) -> VisualizationView {
    (v.tile_size, v.color_scheme@, v.pattern@, v.complexity, views(v.connections@))
}

pub open spec fn group_view(g: FiniteSimpleGroup) -> GroupView {
    (g.name@, g.order@, g.family, g.description@, properties_view(g.properties), visualization_view(g.visualization))
}

// ───────────────────────────── the catalogue ───────────────────────────

/// The cyclic group of prime order `p`.
pub open spec fn cyclic_view(p: nat) -> GroupView {
    (
        "C_"@ + decimal(p),
        decimal(p),
        GroupFamily::Cyclic,
        "Cyclic group of prime order "@ + decimal(p),
        (true, p == 2 || p == 3, true, Seq::empty(), "C_"@ + decimal((p - 1) as nat), p as u32, Seq::empty()),
        ((64, 64), "monochromatic"@, "circular"@, 1, Seq::empty()),
    )
}

/// The alternating group of degree `d`.
pub open spec fn alternating_view(d: nat) -> GroupView {
    (
        "A_"@ + decimal(d),
        decimal(factorial(d) / 2),
        GroupFamily::Alternating,
        "Alternating group A_{"@ + decimal(d) + "}"@,
        (
            d >= 5,
            d >= 5,
            d >= 4,
            if d == 6 { seq![2u64] } else if d == 7 { seq![6u64] } else { Seq::empty() },
            "C_2"@,
            (d * (d - 1) / 2) as u32,
            seq!["A_"@ + decimal((d - 1) as nat)],
        ),
        (((80 + d * 4) as u32, (80 + d * 4) as u32), "gradient"@, "triangular"@, 2, Seq::empty()),
    )
}

/// A group of Lie type.
pub open spec fn lie_view(name: Seq<char>, order: Seq<char>, family: GroupFamily, description: Seq<char>) -> GroupView {
    (
        name,
        order,
        family,
        description,
        (true, true, true, Seq::empty(), "C_2"@, 0, Seq::empty()),
        ((96, 96), "spectral"@, "geometric"@, 3, Seq::empty()),
    )
}

/// A sporadic group.
pub open spec fn sporadic_view(name: Seq<char>, order: Seq<char>, family: GroupFamily, description: Seq<char>) -> GroupView {
    (
        name,
        order,
        family,
        description,
        (true, true, true, Seq::empty(), "trivial"@, 0, Seq::empty()),
        ((128, 128), "rainbow"@, "complex"@, 4, Seq::empty()),
    )
}

/// `PSL(2, q)` or `PSL(3, q)`: type `A_{value}` over the field of size `q`.
pub open spec fn psl(value: u32, q: u32) -> GroupFamily {
    GroupFamily::LieType(ClassicalLieType::An(n { value, field_size: q }))
}

/// The groups of the atlas, in order.
pub open spec fn catalogue() -> Seq<GroupView> {
    seq![
        cyclic_view(2), cyclic_view(3), cyclic_view(5), cyclic_view(7), cyclic_view(11), cyclic_view(13),
        cyclic_view(17), cyclic_view(19), cyclic_view(23), cyclic_view(29), cyclic_view(31),
        alternating_view(5), alternating_view(6), alternating_view(7), alternating_view(8), alternating_view(9),
        alternating_view(10), alternating_view(11),
        lie_view("PSL(2,4)"@, "60"@, psl(1, 4), "Projective special linear group PSL(2,4) \u{2245} A\u{2085}"@),
        lie_view("PSL(2,5)"@, "60"@, psl(1, 5), "Projective special linear group PSL(2,5) \u{2245} A\u{2085}"@),
        lie_view("PSL(2,7)"@, "168"@, psl(1, 7), "Projective special linear group PSL(2,7)"@),
        lie_view("PSL(2,8)"@, "504"@, psl(1, 8), "Projective special linear group PSL(2,8)"@),
        lie_view("PSL(2,9)"@, "360"@, psl(1, 9), "Projective special linear group PSL(2,9) \u{2245} A\u{2086}"@),
        lie_view("PSL(3,2)"@, "168"@, psl(2, 2), "Projective special linear group PSL(3,2) \u{2245} PSL(2,7)"@),
        lie_view("PSL(3,3)"@, "5616"@, psl(2, 3), "Projective special linear group PSL(3,3)"@),
        sporadic_view("Mathieu11"@, "7920"@, GroupFamily::Sporadic(SporadicGroup::Mathieu11), "Mathieu group M\u{2081}\u{2081}"@),
        sporadic_view("Mathieu12"@, "95040"@, GroupFamily::Sporadic(SporadicGroup::Mathieu12), "Mathieu group M\u{2081}\u{2082}"@),
        sporadic_view("Mathieu22"@, "443520"@, GroupFamily::Sporadic(SporadicGroup::Mathieu22), "Mathieu group M\u{2082}\u{2082}"@),
        sporadic_view("Mathieu23"@, "10200960"@, GroupFamily::Sporadic(SporadicGroup::Mathieu23), "Mathieu group M\u{2082}\u{2083}"@),
        sporadic_view("Mathieu24"@, "244823040"@, GroupFamily::Sporadic(SporadicGroup::Mathieu24), "Mathieu group M\u{2082}\u{2084}"@),
        sporadic_view(
            "Monster"@,
            "808017424794512875886459904961710757005754368000000000"@,
            GroupFamily::Sporadic(SporadicGroup::Monster),
            "Monster group (largest sporadic group)"@,
        ),
    ]
}

fn strs(a: &[&str]) -> (r: Vec<String>)
    ensures
        views(r@) == a@.map_values(|x: &str| x@),
{
    let mut r: Vec<String> = Vec::new();
    let mut i: usize = 0;
    while i < a.len()
        invariant
            i <= a.len(),
            views(r@) == a@.map_values(|x: &str| x@).take(i as int),
        decreases a.len() - i,
    {
        let ghost before = r@;
        r.push(owned(a[i]));
        assert(views(r@) =~= views(before).push(a@[i as int]@));
        assert(views(r@) =~= a@.map_values(|x: &str| x@).take(i + 1));
        i += 1;
    }
    assert(a@.map_values(|x: &str| x@).take(i as int) =~= a@.map_values(|x: &str| x@));
    r
}

/// The cyclic group of prime order `p` (`cyclic_view`).
pub fn create_cyclic_group(p: u32) -> (g: FiniteSimpleGroup)
    requires
        p >= 1,
    ensures
        group_view(g) == cyclic_view(p as nat),
{
    let d = decimal_string(p as usize);
    let below = decimal_string((p - 1) as usize);
    let g = FiniteSimpleGroup {
        name: cat("C_", d.as_str()),
        order: d.clone(),
        family: GroupFamily::Cyclic,
        description: cat("Cyclic group of prime order ", d.as_str()),
        properties: GroupProperties {
            simple: true,
            perfect: p == 2 || p == 3,
            centerless: true,
            schur_multiplier: Vec::new(),
            outer_automorphism_group: cat("C_", below.as_str()),
            conjugacy_classes: p,
            maximal_subgroups: Vec::new(),
        },
        visualization: GroupVisualization {
            tile_size: (64, 64),
            color_scheme: owned("monochromatic"),
            pattern: owned("circular"),
            complexity: 1,
            connections: Vec::new(),
        },
    };
    assert(views(g.properties.maximal_subgroups@) =~= Seq::<Seq<char>>::empty());
    assert(views(g.visualization.connections@) =~= Seq::<Seq<char>>::empty());
    assert(g.properties.schur_multiplier@ =~= Seq::<u64>::empty());
    g
}

/// `n!` fits in a `u128` up to `n = 34`.
proof fn lemma_factorial_u128(n: nat)
    requires
        n <= 34,
    ensures
        factorial(n) <= u128::MAX,
{
    reveal_with_fuel(factorial, 2);
        assert(factorial(0) == 1);
        assert(factorial(1) == 1);
        assert(factorial(2) == 2);
        assert(factorial(3) == 6);
        assert(factorial(4) == 24);
        assert(factorial(5) == 120);
        assert(factorial(6) == 720);
        assert(factorial(7) == 5040);
        assert(factorial(8) == 40320);
        assert(factorial(9) == 362880);
        assert(factorial(10) == 3628800);
        assert(factorial(11) == 39916800);
        assert(factorial(12) == 479001600);
        assert(factorial(13) == 6227020800);
        assert(factorial(14) == 87178291200);
        assert(factorial(15) == 1307674368000);
        assert(factorial(16) == 20922789888000);
        assert(factorial(17) == 355687428096000);
        assert(factorial(18) == 6402373705728000);
        assert(factorial(19) == 121645100408832000);
        assert(factorial(20) == 2432902008176640000);
        assert(factorial(21) == 51090942171709440000);
        assert(factorial(22) == 1124000727777607680000);
        assert(factorial(23) == 25852016738884976640000);
        assert(factorial(24) == 620448401733239439360000);
        assert(factorial(25) == 15511210043330985984000000);
        assert(factorial(26) == 403291461126605635584000000);
        assert(factorial(27) == 10888869450418352160768000000);
        assert(factorial(28) == 304888344611713860501504000000);
        assert(factorial(29) == 8841761993739701954543616000000);
        assert(factorial(30) == 265252859812191058636308480000000);
        assert(factorial(31) == 8222838654177922817725562880000000);
        assert(factorial(32) == 263130836933693530167218012160000000);
        assert(factorial(33) == 8683317618811886495518194401280000000);
        assert(factorial(34) == 295232799039604140847618609643520000000);
    crate::atlas_math::lemma_factorial_monotone(n, 34);
}

/// `n!` in a `u128`, for `n` up to 34.
fn factorial_u128(n: u32) -> (r: u128)
    requires
        n <= 34,
    ensures
        r == factorial(n as nat),
{
    let mut f: u128 = 1;
    let mut i: u32 = 0;
    while i < n
        invariant
            i <= n <= 34,
            f == factorial(i as nat),
        decreases n - i,
    {
        i += 1;
        proof {
            lemma_factorial_u128(i as nat);
        }
        assert(factorial(i as nat) == i * factorial((i - 1) as nat));
        assert(f * i == factorial(i as nat)) by (nonlinear_arith)
            requires
                f == factorial((i - 1) as nat),
                factorial(i as nat) == i * factorial((i - 1) as nat),
        ;
        f = f * (i as u128);
    }
    f
}

/// The alternating group of degree `d` (`alternating_view`): its order is
/// `d!/2`, computed in 128 bits, which holds it up to degree 34.
pub fn create_alternating_group(d: u32) -> (g: FiniteSimpleGroup)
    requires
        1 <= d <= 34,
    ensures
        group_view(g) == alternating_view(d as nat),
{
    proof {
        assert(d * (d - 1) <= 34 * 33) by (nonlinear_arith)
            requires
                1 <= d <= 34,
        ;
    }
    let order = factorial_u128(d) / 2;
    let od = crate::text::decimal_string_u128(order);
    let dd = decimal_string(d as usize);
    let below = decimal_string((d - 1) as usize);
    let mut schur: Vec<u64> = Vec::new();
    if d == 6 {
        schur.push(2);
    } else if d == 7 {
        schur.push(6);
    }
    let mut maximal: Vec<String> = Vec::new();
    maximal.push(cat("A_", below.as_str()));
    let g = FiniteSimpleGroup {
        name: cat("A_", dd.as_str()),
        order: od,
        family: GroupFamily::Alternating,
        description: cat3("Alternating group A_{", dd.as_str(), "}"),
        properties: GroupProperties {
            simple: d >= 5,
            perfect: d >= 5,
            centerless: d >= 4,
            schur_multiplier: schur,
            outer_automorphism_group: owned("C_2"),
            conjugacy_classes: d * (d - 1) / 2,
            maximal_subgroups: maximal,
        },
        visualization: GroupVisualization {
            tile_size: (80 + d * 4, 80 + d * 4),
            color_scheme: owned("gradient"),
            pattern: owned("triangular"),
            complexity: 2,
            connections: Vec::new(),
        },
    };
    assert(views(g.properties.maximal_subgroups@) =~= seq!["A_"@ + decimal((d - 1) as nat)]);
    assert(views(g.visualization.connections@) =~= Seq::<Seq<char>>::empty());
    assert(g.properties.schur_multiplier@ =~= (if d == 6 {
        seq![2u64]
    } else if d == 7 {
        seq![6u64]
    } else {
        Seq::empty()
    }));
    g
}

/// A group of Lie type (`lie_view`).
pub fn create_lie_type_group(name: String, order: String, family: GroupFamily, description: String) -> (g: FiniteSimpleGroup)
    ensures
        group_view(g) == lie_view(name@, order@, family, description@),
{
    let g = FiniteSimpleGroup {
        name,
        order,
        family,
        description,
        properties: GroupProperties {
            simple: true,
            perfect: true,
            centerless: true,
            schur_multiplier: Vec::new(),
            outer_automorphism_group: owned("C_2"),
            conjugacy_classes: 0,
            maximal_subgroups: Vec::new(),
        },
        visualization: GroupVisualization {
            tile_size: (96, 96),
            color_scheme: owned("spectral"),
            pattern: owned("geometric"),
            complexity: 3,
            connections: Vec::new(),
        },
    };
    assert(views(g.properties.maximal_subgroups@) =~= Seq::<Seq<char>>::empty());
    assert(views(g.visualization.connections@) =~= Seq::<Seq<char>>::empty());
    assert(g.properties.schur_multiplier@ =~= Seq::<u64>::empty());
    g
}

/// A sporadic group (`sporadic_view`).
pub fn create_sporadic_group(name: String, order: String, family: GroupFamily, description: String) -> (g: FiniteSimpleGroup)
    ensures
        group_view(g) == sporadic_view(name@, order@, family, description@),
{
    let g = FiniteSimpleGroup {
        name,
        order,
        family,
        description,
        properties: GroupProperties {
            simple: true,
            perfect: true,
            centerless: true,
            schur_multiplier: Vec::new(),
            outer_automorphism_group: owned("trivial"),
            conjugacy_classes: 0,
            maximal_subgroups: Vec::new(),
        },
        visualization: GroupVisualization {
            tile_size: (128, 128),
            color_scheme: owned("rainbow"),
            pattern: owned("complex"),
            complexity: 4,
            connections: Vec::new(),
        },
    };
    assert(views(g.properties.maximal_subgroups@) =~= Seq::<Seq<char>>::empty());
    assert(views(g.visualization.connections@) =~= Seq::<Seq<char>>::empty());
    assert(g.properties.schur_multiplier@ =~= Seq::<u64>::empty());
    g
}

fn push_group(gs: &mut Vec<FiniteSimpleGroup>, g: FiniteSimpleGroup)
    ensures
        final(gs)@.map_values(|x: FiniteSimpleGroup| group_view(x)) == old(gs)@.map_values(
            |x: FiniteSimpleGroup| group_view(x),
        ).push(group_view(g)),
{
    let ghost gv = group_view(g);
    gs.push(g);
    assert(gs@.map_values(|x: FiniteSimpleGroup| group_view(x)) =~= old(gs)@.map_values(
        |x: FiniteSimpleGroup| group_view(x),
    ).push(gv));
}

/// All the groups of the atlas (`catalogue`).
pub fn create_all_finite_simple_groups() -> (r: Vec<FiniteSimpleGroup>)
    ensures
        r@.map_values(|x: FiniteSimpleGroup| group_view(x)) == catalogue(),
{
    let mut gs: Vec<FiniteSimpleGroup> = Vec::new();
    let primes: [u32; 11] = [2, 3, 5, 7, 11, 13, 17, 19, 23, 29, 31];
    let mut i: usize = 0;
    while i < 11
        invariant
            i <= 11,
            primes@ == seq![2u32, 3, 5, 7, 11, 13, 17, 19, 23, 29, 31],
            gs@.map_values(|x: FiniteSimpleGroup| group_view(x)) == catalogue().take(i as int),
        decreases 11 - i,
    {
        push_group(&mut gs, create_cyclic_group(primes[i]));
        assert(catalogue().take(i + 1) =~= catalogue().take(i as int).push(cyclic_view(primes@[i as int] as nat)));
        i += 1;
    }
    let mut d: u32 = 5;
    while d <= 11
        invariant
            5 <= d <= 12,
            gs@.map_values(|x: FiniteSimpleGroup| group_view(x)) == catalogue().take(11 + d - 5),
        decreases 12 - d,
    {
        push_group(&mut gs, create_alternating_group(d));
        assert(catalogue().take(11 + d - 5 + 1) =~= catalogue().take(11 + d - 5).push(alternating_view(d as nat)));
        d += 1;
    }
    let ghost mid = gs@.map_values(|x: FiniteSimpleGroup| group_view(x));
    push_group(&mut gs, create_lie_type_group(owned("PSL(2,4)"), owned("60"), psl_family(1, 4), owned("Projective special linear group PSL(2,4) \u{2245} A\u{2085}")));
    push_group(&mut gs, create_lie_type_group(owned("PSL(2,5)"), owned("60"), psl_family(1, 5), owned("Projective special linear group PSL(2,5) \u{2245} A\u{2085}")));
    push_group(&mut gs, create_lie_type_group(owned("PSL(2,7)"), owned("168"), psl_family(1, 7), owned("Projective special linear group PSL(2,7)")));
    push_group(&mut gs, create_lie_type_group(owned("PSL(2,8)"), owned("504"), psl_family(1, 8), owned("Projective special linear group PSL(2,8)")));
    push_group(&mut gs, create_lie_type_group(owned("PSL(2,9)"), owned("360"), psl_family(1, 9), owned("Projective special linear group PSL(2,9) \u{2245} A\u{2086}")));
    push_group(&mut gs, create_lie_type_group(owned("PSL(3,2)"), owned("168"), psl_family(2, 2), owned("Projective special linear group PSL(3,2) \u{2245} PSL(2,7)")));
    push_group(&mut gs, create_lie_type_group(owned("PSL(3,3)"), owned("5616"), psl_family(2, 3), owned("Projective special linear group PSL(3,3)")));
    push_group(&mut gs, create_sporadic_group(owned("Mathieu11"), owned("7920"), GroupFamily::Sporadic(SporadicGroup::Mathieu11), owned("Mathieu group M\u{2081}\u{2081}")));
    push_group(&mut gs, create_sporadic_group(owned("Mathieu12"), owned("95040"), GroupFamily::Sporadic(SporadicGroup::Mathieu12), owned("Mathieu group M\u{2081}\u{2082}")));
    push_group(&mut gs, create_sporadic_group(owned("Mathieu22"), owned("443520"), GroupFamily::Sporadic(SporadicGroup::Mathieu22), owned("Mathieu group M\u{2082}\u{2082}")));
    push_group(&mut gs, create_sporadic_group(owned("Mathieu23"), owned("10200960"), GroupFamily::Sporadic(SporadicGroup::Mathieu23), owned("Mathieu group M\u{2082}\u{2083}")));
    push_group(&mut gs, create_sporadic_group(owned("Mathieu24"), owned("244823040"), GroupFamily::Sporadic(SporadicGroup::Mathieu24), owned("Mathieu group M\u{2082}\u{2084}")));
    push_group(&mut gs, create_sporadic_group(
        owned("Monster"),
        owned("808017424794512875886459904961710757005754368000000000"),
        GroupFamily::Sporadic(SporadicGroup::Monster),
        owned("Monster group (largest sporadic group)"),
    ));
    assert(gs@.map_values(|x: FiniteSimpleGroup| group_view(x)) =~= catalogue());
    gs
}

fn psl_family(value: u32, q: u32) -> (f: GroupFamily)
    ensures
        f == psl(value, q),
{
    GroupFamily::LieType(ClassicalLieType::An(n { value, field_size: q }))
}


// ───────────────────────────── orders ──────────────────────────────────

/// `a < b` for decimal numbers, compared as `num_bigint::BigUint`s.
///
/// Parses both strings with `BigUint`'s `FromStr` and compares them; the
/// contract claims that the result is the numeric comparison of the
/// decimal values.
#[verifier::external_body]
fn decimal_less(a: &str, b: &str) -> (r: bool)
    requires
        all_digits(a@),
        all_digits(b@),
    ensures
        r == (digits_value(a@) < digits_value(b@)),
{
    a.parse::<num_bigint::BigUint>().unwrap() < b.parse::<num_bigint::BigUint>().unwrap()
}

/// The product of two decimal numbers, computed with `num_bigint::BigUint`.
///
/// Parses both strings, multiplies them and writes the product with
/// `to_string`; the contract claims that the result is the decimal
/// representation, without leading zeros, of the product of the two values.
#[verifier::external_body]
fn decimal_product(a: &str, b: &str) -> (r: String)
    requires
        all_digits(a@),
        all_digits(b@),
    ensures
        r@ == decimal(digits_value(a@) * digits_value(b@)),
{
    (a.parse::<num_bigint::BigUint>().unwrap() * b.parse::<num_bigint::BigUint>().unwrap()).to_string()
}

/// The complexity of a family: 1 cyclic, 2 alternating, 3 Lie type,
/// 4 sporadic, 5 twisted Lie type.
pub open spec fn family_complexity(f: GroupFamily) -> u32 {
    match f {
        GroupFamily::Cyclic => 1,
        GroupFamily::Alternating => 2,
        GroupFamily::LieType(_) => 3,
        GroupFamily::Sporadic(_) => 4,
        GroupFamily::TwistedLieType(_) => 5,
    }
}

/// The colour of a family.
pub open spec fn family_color(f: GroupFamily) -> Seq<char> {
    match f {
        GroupFamily::Cyclic => "#FF6B6B"@,
        GroupFamily::Alternating => "#4ECDC4"@,
        GroupFamily::LieType(_) => "#45B7D1"@,
        GroupFamily::Sporadic(_) => "#96CEB4"@,
        GroupFamily::TwistedLieType(_) => "#FFEAA7"@,
    }
}

/// The side of a group's tile: 64, and 16 more per decimal digit of its
/// order beyond the first.
pub open spec fn tile_side(order: Seq<char>) -> int {
    64 + (if order.len() > 1 { order.len() - 1 } else { 0 }) * 16
}

impl FiniteSimpleGroup {
    /// A group with the given parts.
    pub fn new(
        name: String,
        order: String,
        family: GroupFamily,
        description: String,
        properties: GroupProperties,
        visualization: GroupVisualization,
    ) -> (g: Self)
        ensures
            g.name == name,
            g.order == order,
            g.family == family,
            g.description == description,
            g.properties == properties,
            g.visualization == visualization,
    {
        FiniteSimpleGroup { name, order, family, description, properties, visualization }
    }

    /// The tile of the group, square, sized by the number of digits of its
    /// order (`tile_side`).
    pub fn get_tile_size(&self) -> (r: (u32, u32))
        requires
            tile_side(self.order@) <= u32::MAX,
        ensures
            r.0 == tile_side(self.order@) && r.1 == tile_side(self.order@),
    {
        let len = self.order.as_str().unicode_len();
        let extra: usize = if len > 1 { len - 1 } else { 0 };
        let side = (64 + extra * 16) as u32;
        (side, side)
    }

    /// The colour of the group's family.
    pub fn get_color(&self) -> (r: &'static str)
        ensures
            r@ == family_color(self.family),
    {
        match &self.family {
            GroupFamily::Cyclic => "#FF6B6B",
            GroupFamily::Alternating => "#4ECDC4",
            GroupFamily::LieType(_) => "#45B7D1",
            GroupFamily::Sporadic(_) => "#96CEB4",
            GroupFamily::TwistedLieType(_) => "#FFEAA7",
        }
    }

    /// The complexity of the group's family.
    pub fn get_complexity(&self) -> (r: u32)
        ensures
            r == family_complexity(self.family),
    {
        match &self.family {
            GroupFamily::Cyclic => 1,
            GroupFamily::Alternating => 2,
            GroupFamily::LieType(_) => 3,
            GroupFamily::Sporadic(_) => 4,
            GroupFamily::TwistedLieType(_) => 5,
        }
    }

    /// Two groups compose when their families or their orders differ.
    pub fn can_compose_with(&self, other: &FiniteSimpleGroup) -> (r: bool)
        requires
            all_digits(self.order@),
            all_digits(other.order@),
        ensures
            r == (self.family != other.family || digits_value(self.order@) != digits_value(other.order@)),
    {
        self.family != other.family || decimal_less(self.order.as_str(), other.order.as_str()) || decimal_less(
            other.order.as_str(),
            self.order.as_str(),
        )
    }

    /// The order of the direct product with `other`.
    pub fn direct_product_order(&self, other: &FiniteSimpleGroup) -> (r: String)
        requires
            all_digits(self.order@),
            all_digits(other.order@),
        ensures
            r@ == decimal(digits_value(self.order@) * digits_value(other.order@)),
    {
        decimal_product(self.order.as_str(), other.order.as_str())
    }
}


// ───────────────────────────── copies ──────────────────────────────────

fn copy_strings(v: &Vec<String>) -> (r: Vec<String>)
    ensures
        views(r@) == views(v@),
{
    let mut r: Vec<String> = Vec::new();
    let mut i: usize = 0;
    while i < v.len()
        invariant
            i <= v.len(),
            views(r@) == views(v@).take(i as int),
        decreases v.len() - i,
    {
        let ghost before = r@;
        r.push(v[i].clone());
        assert(views(r@) =~= views(before).push(v@[i as int]@));
        assert(views(v@).take(i + 1) =~= views(v@).take(i as int).push(v@[i as int]@));
        i += 1;
    }
    assert(views(v@).take(i as int) =~= views(v@));
    r
}

fn copy_u64s(v: &Vec<u64>) -> (r: Vec<u64>)
    ensures
        r@ == v@,
{
    let mut r: Vec<u64> = Vec::new();
    let mut i: usize = 0;
    while i < v.len()
        invariant
            i <= v.len(),
            r@ == v@.take(i as int),
        decreases v.len() - i,
    {
        r.push(v[i]);
        assert(v@.take(i + 1) =~= v@.take(i as int).push(v@[i as int]));
        i += 1;
    }
    assert(v@.take(i as int) =~= v@);
    r
}

fn copy_visualization(v: &GroupVisualization) -> (r: GroupVisualization)
    ensures
        visualization_view(r) == visualization_view(*v),
{
    GroupVisualization {
        tile_size: v.tile_size,
        color_scheme: v.color_scheme.clone(),
        pattern: v.pattern.clone(),
        complexity: v.complexity,
        connections: copy_strings(&v.connections),
    }
}

/// A copy of a group.
pub fn copy_group(g: &FiniteSimpleGroup) -> (r: FiniteSimpleGroup)
    ensures
        group_view(r) == group_view(*g),
{
    let p = &g.properties;
    FiniteSimpleGroup {
        name: g.name.clone(),
        order: g.order.clone(),
        family: g.family,
        description: g.description.clone(),
        properties: GroupProperties {
            simple: p.simple,
            perfect: p.perfect,
            centerless: p.centerless,
            schur_multiplier: copy_u64s(&p.schur_multiplier),
            outer_automorphism_group: p.outer_automorphism_group.clone(),
            conjugacy_classes: p.conjugacy_classes,
            maximal_subgroups: copy_strings(&p.maximal_subgroups),
        },
        visualization: copy_visualization(&g.visualization),
    }
}

// ───────────────────────────── the atlas ───────────────────────────────

pub type CompositionView = (Seq<char>, Seq<Seq<char>>, CompositionType, Seq<char>, VisualizationView);

pub open spec fn composition_view(c: GroupComposition) -> CompositionView {
    (c.name@, views(c.groups@), c.composition_type, c.order@, visualization_view(c.visualization))
}

/// The views of a sequence of groups.
pub open spec fn group_views(gs: Seq<FiniteSimpleGroup>) -> Seq<GroupView> {
    gs.map_values(|g: FiniteSimpleGroup| group_view(g))
}

/// The views of a sequence of compositions.
pub open spec fn composition_views(cs: Seq<GroupComposition>) -> Seq<CompositionView> {
    cs.map_values(|c: GroupComposition| composition_view(c))
}

/// Every order is written in decimal digits.
pub open spec fn orders_decimal(gs: Seq<FiniteSimpleGroup>) -> bool {
    forall|i: int| 0 <= i < gs.len() ==> all_digits(#[trigger] gs[i].order@)
}

/// The position of the first group named `name`.
pub open spec fn position(gv: Seq<GroupView>, name: Seq<char>) -> Option<int>
    decreases gv.len(),
{
    if gv.len() == 0 {
        None
    } else {
        match position(gv.drop_last(), name) {
            Some(i) => Some(i),
            None => if gv.last().0 == name {
                Some(gv.len() - 1)
            } else {
                None
            },
        }
    }
}

/// The order of the first group named `name`, 1 if there is none.
pub open spec fn found_order(gv: Seq<GroupView>, name: Seq<char>) -> nat {
    match position(gv, name) {
        Some(k) => digits_value(gv[k].1),
        None => 1,
    }
}

/// The product of the orders of the groups named in `names`.
pub open spec fn names_order(gv: Seq<GroupView>, names: Seq<Seq<char>>) -> nat
    decreases names.len(),
{
    if names.len() == 0 {
        1
    } else {
        names_order(gv, names.drop_last()) * found_order(gv, names.last())
    }
}

/// The complexity of the first group named `name`, 0 if there is none.
pub open spec fn found_complexity(gv: Seq<GroupView>, name: Seq<char>) -> u32 {
    match position(gv, name) {
        Some(k) => family_complexity(gv[k].2),
        None => 0,
    }
}

/// The largest complexity of the groups named in `names`, 0 for none.
pub open spec fn names_complexity(gv: Seq<GroupView>, names: Seq<Seq<char>>) -> u32
    decreases names.len(),
{
    if names.len() == 0 {
        0
    } else {
        let a = names_complexity(gv, names.drop_last());
        let b = found_complexity(gv, names.last());
        if a >= b {
            a
        } else {
            b
        }
    }
}

/// Every name in `names` names a group.
pub open spec fn all_found(gv: Seq<GroupView>, names: Seq<Seq<char>>) -> bool {
    forall|k: int| 0 <= k < names.len() ==> (#[trigger] position(gv, names[k])) is Some
}

/// The composition named `name` of the groups named in `names`: its order
/// is the product of theirs, its tile 64 per group on a side, its
/// complexity one more than the largest of theirs.
pub open spec fn composition_of(
    gv: Seq<GroupView>,
    name: Seq<char>,
    names: Seq<Seq<char>>,
    composition_type: CompositionType,
) -> CompositionView {
    let side = (64 * names.len()) as u32;
    (
        name,
        names,
        composition_type,
        decimal(names_order(gv, names)),
        ((side, side), "composite"@, "mosaic"@, (names_complexity(gv, names) + 1) as u32, names),
    )
}

/// Two groups compose when their families or their orders differ.
pub open spec fn composable(a: GroupView, b: GroupView) -> bool {
    a.2 != b.2 || digits_value(a.1) != digits_value(b.1)
}

/// The direct product of the `i`-th and `j`-th groups, named
/// `<first> × <second>`.
pub open spec fn direct(gv: Seq<GroupView>, i: int, j: int) -> CompositionView {
    composition_of(gv, gv[i].0 + " \u{d7} "@ + gv[j].0, seq![gv[i].0, gv[j].0], CompositionType::DirectProduct)
}

/// The direct products of the `i`-th group with the `j`-th, for
/// `i < j < k`, of the groups that compose.
pub open spec fn products_row(gv: Seq<GroupView>, i: int, k: int) -> Seq<CompositionView>
    decreases k - i,
{
    if k <= i + 1 {
        Seq::empty()
    } else {
        products_row(gv, i, k - 1) + if composable(gv[i], gv[k - 1]) {
            seq![direct(gv, i, k - 1)]
        } else {
            Seq::empty()
        }
    }
}

/// The direct products of all pairs whose first group is among the first
/// `m`, pair by pair.
pub open spec fn products_upto(gv: Seq<GroupView>, m: int) -> Seq<CompositionView>
    decreases m,
{
    if m <= 0 {
        Seq::empty()
    } else {
        products_upto(gv, m - 1) + products_row(gv, m - 1, gv.len() as int)
    }
}

/// The groups of the family `f`, in order.
pub open spec fn of_family(gv: Seq<GroupView>, f: GroupFamily) -> Seq<GroupView>
    decreases gv.len(),
{
    if gv.len() == 0 {
        Seq::empty()
    } else {
        let r = of_family(gv.drop_last(), f);
        if gv.last().2 == f {
            r.push(gv.last())
        } else {
            r
        }
    }
}

/// The numeric orders of the groups.
pub open spec fn order_keys(gv: Seq<GroupView>) -> Seq<nat> {
    gv.map_values(|g: GroupView| digits_value(g.1))
}

/// The groups in a stable order by their numeric orders.
pub open spec fn sorted_by_order(gv: Seq<GroupView>) -> Seq<GroupView> {
    stable_order(order_keys(gv), gv.len()).map_values(|i: int| gv[i])
}

/// Sorting the groups by order is a stable permutation: the groups come
/// out at the positions `stable_order` gives, which name each input
/// position once, with orders that never decrease, and groups of equal
/// order keep their input order.
pub proof fn lemma_sorted_groups_permutation(gv: Seq<GroupView>)
    ensures
        sorted_by_order(gv).len() == gv.len(),
        forall|q: int| 0 <= q < gv.len() ==> 0 <= #[trigger] stable_order(order_keys(gv), gv.len())[q] < gv.len()
            && sorted_by_order(gv)[q] == gv[stable_order(order_keys(gv), gv.len())[q]],
        forall|x: int| 0 <= x < gv.len() ==> stable_order(order_keys(gv), gv.len()).contains(x),
        forall|a: int, b: int| 0 <= a < b < gv.len() ==> stable_order(order_keys(gv), gv.len())[a]
            != stable_order(order_keys(gv), gv.len())[b],
        forall|a: int, b: int| 0 <= a <= b < gv.len() ==> digits_value(sorted_by_order(gv)[a].1) <= digits_value(
            sorted_by_order(gv)[b].1,
        ),
        forall|a: int, b: int|
            0 <= a < b < gv.len() && digits_value(sorted_by_order(gv)[a].1) == digits_value(sorted_by_order(gv)[b].1)
                ==> stable_order(order_keys(gv), gv.len())[a] < stable_order(order_keys(gv), gv.len())[b],
{
    let keys = order_keys(gv);
    let o = stable_order(keys, gv.len());
    crate::order::lemma_stable_order_sorted(keys, gv.len());
    crate::order::lemma_stable_order_stable(keys, gv.len());
    assert forall|q: int| 0 <= q < gv.len() implies #[trigger] sorted_by_order(gv)[q] == gv[o[q]] && keys[o[q]] == digits_value(gv[o[q]].1) by {}
    assert forall|a: int, b: int| 0 <= a <= b < gv.len() implies digits_value(sorted_by_order(gv)[a].1) <= digits_value(
        sorted_by_order(gv)[b].1,
    ) by {
        assert(sorted_by_order(gv)[a] == gv[o[a]]);
        assert(sorted_by_order(gv)[b] == gv[o[b]]);
        assert(keys[o[a]] <= keys[o[b]]);
    }
    assert forall|a: int, b: int|
        0 <= a < b < gv.len() && digits_value(sorted_by_order(gv)[a].1) == digits_value(sorted_by_order(gv)[b].1)
        implies o[a] < o[b] by {
        assert(sorted_by_order(gv)[a] == gv[o[a]]);
        assert(sorted_by_order(gv)[b] == gv[o[b]]);
        assert(keys[o[a]] == keys[o[b]]);
    }
}

proof fn lemma_position_prefix(gv: Seq<GroupView>, m: int, name: Seq<char>)
    requires
        0 <= m <= gv.len(),
        position(gv.take(m), name) is Some,
    ensures
        position(gv, name) == position(gv.take(m), name),
    decreases gv.len(),
{
    if m < gv.len() {
        assert(gv.drop_last().take(m) =~= gv.take(m));
        lemma_position_prefix(gv.drop_last(), m, name);
    } else {
        assert(gv.take(m) =~= gv);
    }
}

proof fn lemma_position_bound(gv: Seq<GroupView>, name: Seq<char>)
    ensures
        position(gv, name) matches Some(k) ==> 0 <= k < gv.len() && gv[k].0 == name,
    decreases gv.len(),
{
    if gv.len() > 0 {
        lemma_position_bound(gv.drop_last(), name);
    }
}

proof fn lemma_position_found(gv: Seq<GroupView>, i: int)
    requires
        0 <= i < gv.len(),
    ensures
        position(gv, gv[i].0) is Some,
    decreases gv.len(),
{
    if i < gv.len() - 1 {
        lemma_position_found(gv.drop_last(), i);
    }
}

proof fn lemma_catalogue_orders()
    ensures
        forall|i: int| 0 <= i < catalogue().len() ==> all_digits(#[trigger] catalogue()[i].1),
{
    reveal_strlit("60");
    reveal_strlit("168");
    reveal_strlit("504");
    reveal_strlit("360");
    reveal_strlit("5616");
    reveal_strlit("7920");
    reveal_strlit("95040");
    reveal_strlit("443520");
    reveal_strlit("10200960");
    reveal_strlit("244823040");
    reveal_strlit("808017424794512875886459904961710757005754368000000000");
    let c = catalogue();
    assert forall|i: int| 0 <= i < c.len() implies all_digits(#[trigger] c[i].1) by {
        if i < 11 {
            let p = c[i].1;
            lemma_decimal_digits(seq![2nat, 3, 5, 7, 11, 13, 17, 19, 23, 29, 31][i]);
        } else if i < 18 {
            lemma_decimal_digits(factorial((i - 6) as nat) / 2);
        }
    }
}

impl GroupAtlas {
    /// The atlas with every group of the catalogue and no composition.
    pub fn new() -> (r: Self)
        ensures
            group_views(r.groups@) == catalogue(),
            r.compositions@.len() == 0,
            orders_decimal(r.groups@),
    {
        let groups = create_all_finite_simple_groups();
        proof {
            lemma_catalogue_orders();
            assert forall|i: int| 0 <= i < groups@.len() implies all_digits(#[trigger] groups@[i].order@) by {
                assert(group_views(groups@)[i] == group_view(groups@[i]));
                assert(catalogue()[i].1 == groups@[i].order@);
            }
        }
        GroupAtlas { groups, compositions: Vec::new() }
    }

    fn position_of(&self, name: &str) -> (r: Option<usize>)
        ensures
            match r {
                Some(k) => position(group_views(self.groups@), name@) == Some(k as int),
                None => position(group_views(self.groups@), name@) is None,
            },
    {
        let ghost gv = group_views(self.groups@);
        let mut i: usize = 0;
        while i < self.groups.len()
            invariant
                i <= self.groups.len(),
                gv == group_views(self.groups@),
                position(gv.take(i as int), name@) is None,
            decreases self.groups.len() - i,
        {
            assert(gv.take(i + 1).drop_last() =~= gv.take(i as int));
            assert(gv.take(i + 1).last() == group_view(self.groups@[i as int]));
            if str_eq(self.groups[i].name.as_str(), name) {
                proof {
                    lemma_position_prefix(gv, i + 1, name@);
                }
                return Some(i);
            }
            i += 1;
        }
        assert(gv.take(i as int) =~= gv);
        None
    }

    /// The first group named `name`.
    pub fn get_group(&self, name: &str) -> (r: Option<&FiniteSimpleGroup>)
        ensures
            match position(group_views(self.groups@), name@) {
                Some(k) => r matches Some(g) && group_view(*g) == group_views(self.groups@)[k],
                None => r is None,
            },
    {
        proof {
            lemma_position_bound(group_views(self.groups@), name@);
        }
        match self.position_of(name) {
            Some(k) => Some(&self.groups[k]),
            None => None,
        }
    }
    /// The groups of the family `family`, in the atlas's order.
    pub fn get_groups_by_family(&self, family: GroupFamily) -> (r: Vec<&FiniteSimpleGroup>)
        ensures
            r@.map_values(|g: &FiniteSimpleGroup| group_view(*g)) == of_family(group_views(self.groups@), family),
    {
        let ghost gv = group_views(self.groups@);
        let mut r: Vec<&FiniteSimpleGroup> = Vec::new();
        let mut i: usize = 0;
        while i < self.groups.len()
            invariant
                i <= self.groups.len(),
                gv == group_views(self.groups@),
                r@.map_values(|g: &FiniteSimpleGroup| group_view(*g)) == of_family(gv.take(i as int), family),
            decreases self.groups.len() - i,
        {
            let g = &self.groups[i];
            assert(gv.take(i + 1).drop_last() =~= gv.take(i as int));
            assert(gv.take(i + 1).last() == group_view(*g));
            let ghost before = r@;
            if g.family == family {
                r.push(g);
                assert(r@.map_values(|g: &FiniteSimpleGroup| group_view(*g)) =~= before.map_values(
                    |g: &FiniteSimpleGroup| group_view(*g),
                ).push(group_view(*g)));
            }
            i += 1;
        }
        assert(gv.take(i as int) =~= gv);
        r
    }

    /// Copies of the groups in a stable order by their numeric orders,
    /// whose orders never decrease.
    pub fn get_groups_sorted_by_order(&self) -> (r: Vec<FiniteSimpleGroup>)
        requires
            orders_decimal(self.groups@),
        ensures
            group_views(r@) == sorted_by_order(group_views(self.groups@)),
            forall|a: int, b: int|
                0 <= a <= b < r.len() ==> digits_value(r@[a].order@) <= digits_value(r@[b].order@),
    {
        let ghost gv = group_views(self.groups@);
        let ghost keys = order_keys(gv);
        let n = self.groups.len();
        let mut order: Vec<usize> = Vec::new();
        let mut i: usize = 0;
        while i < n
            invariant
                i <= n,
                n == self.groups.len(),
                gv == group_views(self.groups@),
                keys == order_keys(gv),
                orders_decimal(self.groups@),
                order@.map_values(|x: usize| x as int) == stable_order(keys, i as nat),
                forall|q: int| 0 <= q < order.len() ==> (#[trigger] order@[q]) < i,
            decreases n - i,
        {
            let ghost o = stable_order(keys, i as nat);
            let ghost k = keys[i as int];
            proof {
                lemma_stable_order_sorted(keys, i as nat);
                lemma_first_above_bound(o, keys, k);
            }
            assert(keys[i as int] == digits_value(self.groups@[i as int].order@));
            let mut p: usize = 0;
            assert(o.skip(0) =~= o);
            while p < order.len() && !decimal_less(self.groups[i].order.as_str(), self.groups[order[p]].order.as_str())
                invariant
                    p <= order.len(),
                    i < n,
                    n == self.groups.len(),
                    gv == group_views(self.groups@),
                    keys == order_keys(gv),
                    orders_decimal(self.groups@),
                    k == keys[i as int],
                    o == stable_order(keys, i as nat),
                    order@.map_values(|x: usize| x as int) == o,
                    forall|q: int| 0 <= q < order.len() ==> (#[trigger] order@[q]) < i,
                    first_above(o, keys, k) == p + first_above(o.skip(p as int), keys, k),
                decreases order.len() - p,
            {
                assert(o.skip(p as int).drop_first() =~= o.skip(p + 1));
                assert(o.skip(p as int)[0] == order@[p as int] as int);
                assert(keys[order@[p as int] as int] == digits_value(self.groups@[order@[p as int] as int].order@));
                p += 1;
            }
            proof {
                if p < order.len() {
                    assert(o.skip(p as int)[0] == order@[p as int] as int);
                    assert(keys[order@[p as int] as int] == digits_value(self.groups@[order@[p as int] as int].order@));
                }
            }
            order.insert(p, i);
            assert(order@.map_values(|x: usize| x as int) =~= o.insert(p as int, i as int));
            i += 1;
        }
        proof {
            lemma_stable_order_sorted(keys, n as nat);
        }
        let mut r: Vec<FiniteSimpleGroup> = Vec::new();
        let mut j: usize = 0;
        while j < n
            invariant
                j <= n,
                n == self.groups.len(),
                order.len() == n,
                gv == group_views(self.groups@),
                gv.len() == n,
                keys == order_keys(gv),
                order@.map_values(|x: usize| x as int) == stable_order(keys, n as nat),
                forall|q: int| 0 <= q < order.len() ==> (#[trigger] order@[q]) < n,
                group_views(r@) == sorted_by_order(gv).take(j as int),
            decreases n - j,
        {
            let ghost before = r@;
            let ghost so = stable_order(keys, n as nat);
            assert(so[j as int] == order@[j as int] as int);
            assert(sorted_by_order(gv).len() == n);
            assert(sorted_by_order(gv)[j as int] == gv[order@[j as int] as int]);
            r.push(copy_group(&self.groups[order[j]]));
            assert(group_views(r@) =~= group_views(before).push(gv[order@[j as int] as int]));
            assert(sorted_by_order(gv).take(j + 1) =~= sorted_by_order(gv).take(j as int).push(
                gv[order@[j as int] as int],
            ));
            j += 1;
        }
        assert(sorted_by_order(gv).take(j as int) =~= sorted_by_order(gv));
        proof {
            let so = stable_order(keys, n as nat);
            assert forall|a: int, b: int|
                0 <= a <= b < r.len() implies digits_value(r@[a].order@) <= digits_value(r@[b].order@) by {
                assert(group_views(r@)[a] == group_view(r@[a]));
                assert(group_views(r@)[b] == group_view(r@[b]));
                assert(keys[so[a]] == digits_value(gv[so[a]].1));
                assert(keys[so[b]] == digits_value(gv[so[b]].1));
            }
        }
        r
    }
    /// Composes the groups named in `group_names` into a composition named
    /// `name` (`composition_of`) and adds it; where a name names no group,
    /// nothing changes.
    pub fn create_composition(&mut self, name: String, group_names: Vec<String>, composition_type: CompositionType)
        requires
            orders_decimal(old(self).groups@),
            group_names.len() * 64 <= u32::MAX,
        ensures
            final(self).groups@ == old(self).groups@,
            composition_views(final(self).compositions@) == if all_found(
                group_views(old(self).groups@),
                views(group_names@),
            ) {
                composition_views(old(self).compositions@).push(
                    composition_of(group_views(old(self).groups@), name@, views(group_names@), composition_type),
                )
            } else {
                composition_views(old(self).compositions@)
            },
    {
        let ghost gv = group_views(self.groups@);
        let ghost names = views(group_names@);
        proof {
            reveal_strlit("1");
            assert(decimal(1) =~= "1"@);
        }
        let mut order = owned("1");
        let mut max_c: u32 = 0;
        let mut i: usize = 0;
        while i < group_names.len()
            invariant
                i <= group_names.len(),
                gv == group_views(self.groups@),
                names == views(group_names@),
                orders_decimal(self.groups@),
                self.groups@ == old(self).groups@,
                self.compositions@ == old(self).compositions@,
                order@ == decimal(names_order(gv, names.take(i as int))),
                max_c == names_complexity(gv, names.take(i as int)),
                max_c <= 5,
                all_found(gv, names.take(i as int)),
            decreases group_names.len() - i,
        {
            let ghost t = names.take(i + 1);
            assert(t.drop_last() =~= names.take(i as int));
            assert(t.last() == group_names@[i as int]@);
            match self.position_of(group_names[i].as_str()) {
                None => {
                    proof {
                        assert(position(gv, names[i as int]) is None);
                    }
                    return;
                },
                Some(k) => {
                    proof {
                        lemma_position_bound(gv, names[i as int]);
                        lemma_decimal_digits(names_order(gv, names.take(i as int)));
                        assert(gv[k as int] == group_view(self.groups@[k as int]));
                        assert(all_digits(self.groups@[k as int].order@));
                    }
                    order = decimal_product(order.as_str(), self.groups[k].order.as_str());
                    let c = self.groups[k].get_complexity();
                    if c > max_c {
                        max_c = c;
                    }
                    assert(all_found(gv, t)) by {
                        assert forall|q: int| 0 <= q < t.len() implies (#[trigger] position(gv, t[q])) is Some by {
                            if q < i {
                                assert(t[q] == names.take(i as int)[q]);
                            }
                        }
                    }
                },
            }
            i += 1;
        }
        assert(names.take(i as int) =~= names);
        let count = group_names.len() as u32;
        let side = 64 * count;
        let visualization = GroupVisualization {
            tile_size: (side, side),
            color_scheme: owned("composite"),
            pattern: owned("mosaic"),
            complexity: max_c + 1,
            connections: copy_strings(&group_names),
        };
        let composition = GroupComposition { name, groups: group_names, composition_type, order, visualization };
        let ghost before = self.compositions@;
        self.compositions.push(composition);
        assert(composition_views(self.compositions@) =~= composition_views(before).push(
            composition_view(composition),
        ));
    }
    /// Adds the direct product of every pair of groups, the earlier one
    /// first, whose families or orders differ (`products_upto`).
    pub fn generate_all_direct_products(&mut self)
        requires
            orders_decimal(old(self).groups@),
        ensures
            final(self).groups@ == old(self).groups@,
            composition_views(final(self).compositions@) == composition_views(old(self).compositions@)
                + products_upto(group_views(old(self).groups@), old(self).groups@.len() as int),
    {
        let ghost gv = group_views(self.groups@);
        let ghost start = composition_views(self.compositions@);
        let n = self.groups.len();
        let mut i: usize = 0;
        while i < n
            invariant
                i <= n,
                n == self.groups.len(),
                gv == group_views(self.groups@),
                self.groups@ == old(self).groups@,
                orders_decimal(self.groups@),
                composition_views(self.compositions@) == start + products_upto(gv, i as int),
            decreases n - i,
        {
            let mut j: usize = i + 1;
            while j < n
                invariant
                    i < n,
                    i + 1 <= j <= n,
                    n == self.groups.len(),
                    gv == group_views(self.groups@),
                    self.groups@ == old(self).groups@,
                    orders_decimal(self.groups@),
                    composition_views(self.compositions@) == start + products_upto(gv, i as int) + products_row(
                        gv,
                        i as int,
                        j as int,
                    ),
                decreases n - j,
            {
                let ghost before = composition_views(self.compositions@);
                assert(gv[i as int] == group_view(self.groups@[i as int]));
                assert(gv[j as int] == group_view(self.groups@[j as int]));
                if self.groups[i].can_compose_with(&self.groups[j]) {
                    let name = cat3(self.groups[i].name.as_str(), " \u{d7} ", self.groups[j].name.as_str());
                    let names = vec![self.groups[i].name.clone(), self.groups[j].name.clone()];
                    proof {
                        lemma_position_found(gv, i as int);
                        lemma_position_found(gv, j as int);
                        assert(views(names@) =~= seq![gv[i as int].0, gv[j as int].0]);
                        assert(all_found(gv, views(names@)));
                    }
                    self.create_composition(name, names, CompositionType::DirectProduct);
                }
                assert(products_row(gv, i as int, j + 1) == products_row(gv, i as int, j as int) + if composable(
                    gv[i as int],
                    gv[j as int],
                ) {
                    seq![direct(gv, i as int, j as int)]
                } else {
                    Seq::empty()
                });
                assert(composition_views(self.compositions@) =~= start + products_upto(gv, i as int) + products_row(
                    gv,
                    i as int,
                    j + 1,
                ));
                j += 1;
            }
            assert(products_upto(gv, i + 1) == products_upto(gv, i as int) + products_row(gv, i as int, gv.len() as int));
            assert(composition_views(self.compositions@) =~= start + products_upto(gv, i + 1));
            i += 1;
        }
    }
}

impl Default for GroupAtlas {
    /// The atlas of `GroupAtlas::new`.
    fn default() -> (r: Self)
        ensures
            group_views(r.groups@) == catalogue(),
            r.compositions@.len() == 0,
            orders_decimal(r.groups@),
    {
        GroupAtlas::new()
    }
}

} // verus!
