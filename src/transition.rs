//! World transitions caused by crossings of the membrane.
use vstd::prelude::*;
use vstd::arithmetic::div_mod::{
    lemma_add_mod_noop, lemma_fundamental_div_mod, lemma_mod_add_multiples_vanish,
    lemma_mod_multiples_vanish, lemma_sub_mod_noop_right,
};
use crate::membrane::{RegionTests, arc_base_of, arc_label, crossed_arc_of};

verus! {

/// Number of worlds glued along the membrane.
pub const WORLD_COUNT: i32 = 6;

/// The world index after reflecting `world` through the base value of each
/// crossing in turn, `w := base - w`, before any normalisation.
pub open spec fn reflect_all(world: int, crossings: Seq<RegionTests>) -> int
    decreases crossings.len(),
{
    if crossings.len() == 0 {
        world
    } else {
        reflect_all(arc_base_of(crossings[0]) - world, crossings.drop_first())
    }
}

/// The representative of `world` in `[0, 6)`.
pub open spec fn normalized(world: int) -> int {
    world % 6
}

/// The world reached from `world` through `crossings`, taken in order and
/// normalised into `[0, 6)` at the end.
pub open spec fn world_after(world: int, crossings: Seq<RegionTests>) -> int {
    normalized(reflect_all(world, crossings))
}

/// Reflecting worlds that agree modulo six gives results that agree modulo six.
pub proof fn lemma_reflect_all_mod(world: int, crossings: Seq<RegionTests>)
    ensures
        reflect_all(world, crossings) % 6 == reflect_all(world % 6, crossings) % 6,
    decreases crossings.len(),
{
    if crossings.len() > 0 {
        let a = arc_base_of(crossings[0]);
        let rest = crossings.drop_first();
        lemma_reflect_all_mod(a - world, rest);
        lemma_reflect_all_mod(a - world % 6, rest);
        lemma_sub_mod_noop_right(a, world, 6);
    }
}

/// `world` brought into `[0, 6)`, the Euclidean remainder modulo six.
pub fn normalize_world(world: i32) -> (r: i32)
    ensures
        r == normalized(world as int),
        0 <= r < 6,
{
    if world >= 0 {
        world % WORLD_COUNT
    } else {
        let wide: i64 = world as i64;
        let down: i64 = (-wide) % 6;
        proof {
            let k: int = -wide;
            assert(k == 6 * (k / 6) + k % 6) by {
                lemma_fundamental_div_mod(k, 6);
            }
            assert(world as int == 6 * (-(k / 6) - 1) + (6 - k % 6));
            lemma_mod_multiples_vanish(-(k / 6) - 1, 6 - k % 6, 6);
        }
        if down == 0 {
            0
        } else {
            (6 - down) as i32
        }
    }
}

/// One crossing: the world index reflected through the crossing's base
/// value, `base - world`, normalised into `[0, 6)`.
pub fn reflect_world(world: i32, crossing: &RegionTests) -> (r: i32)
    ensures
        r == normalized(arc_base_of(*crossing) - world),
        0 <= r < 6,
{
    let w = normalize_world(world);
    let base = crossing.arc_base();
    let raw: i32 = base - w + WORLD_COUNT;
    proof {
        lemma_mod_add_multiples_vanish(base - w, 6);
        lemma_sub_mod_noop_right(base as int, world as int, 6);
    }
    raw % WORLD_COUNT
}

/// Applies the crossings of one step, in the order in which the segment
/// meets them, to `world`, and leaves it normalised into `[0, 6)`. Each
/// crossing is a fresh reflection of the then-current world index.
pub fn apply_crossings(world: &mut i32, crossings: &[RegionTests])
    ensures
        *final(world) == world_after(*old(world) as int, crossings@),
        0 <= *final(world) < 6,
{
    let ghost start: int = *world as int;
    let mut cur: i32 = normalize_world(*world);
    proof {
        lemma_reflect_all_mod(start, crossings@);
        assert(crossings@.subrange(0, crossings@.len() as int) =~= crossings@);
    }
    let mut i: usize = 0;
    while i < crossings.len()
        invariant
            i <= crossings@.len(),
            0 <= cur < 6,
            reflect_all(cur as int, crossings@.subrange(i as int, crossings@.len() as int)) % 6
                == world_after(start, crossings@),
        decreases crossings@.len() - i,
    {
        let next = reflect_world(cur, &crossings[i]);
        proof {
            let tail = crossings@.subrange(i as int, crossings@.len() as int);
            let rest = crossings@.subrange(i + 1, crossings@.len() as int);
            assert(tail.drop_first() =~= rest);
            assert(tail[0] == crossings@[i as int]);
            lemma_reflect_all_mod(arc_base_of(crossings@[i as int]) - cur, rest);
        }
        cur = next;
        i = i + 1;
    }
    proof {
        assert(crossings@.subrange(i as int, crossings@.len() as int).len() == 0);
    }
    *world = cur;
}

/// Reflecting through a concatenation is reflecting through each part in turn.
pub proof fn lemma_reflect_all_append(world: int, first: Seq<RegionTests>, second: Seq<RegionTests>)
    ensures
        reflect_all(world, first + second) == reflect_all(reflect_all(world, first), second),
    decreases first.len(),
{
    if first.len() > 0 {
        assert((first + second).drop_first() =~= first.drop_first() + second);
        assert((first + second)[0] == first[0]);
        lemma_reflect_all_append(arc_base_of(first[0]) - world, first.drop_first(), second);
    }
}

/// A step in which the segment crosses no membrane leaves a world index of
/// `[0, 6)` as it is.
pub proof fn lemma_no_crossing_keeps_world(world: int)
    requires
        0 <= world < 6,
    ensures
        world_after(world, Seq::<RegionTests>::empty()) == world,
{
}

/// A single crossing takes the world index to `(base - world) mod 6`, where
/// `base` is the crossing's base value.
pub proof fn lemma_single_crossing(world: int, crossing: RegionTests)
    ensures
        world_after(world, seq![crossing]) == normalized(arc_base_of(crossing) - world),
{
    assert(seq![crossing].len() == 1 && seq![crossing][0] == crossing);
    assert(seq![crossing].drop_first() =~= Seq::<RegionTests>::empty());
    let empty = Seq::<RegionTests>::empty();
    assert(reflect_all(arc_base_of(crossing) - world, empty) == arc_base_of(crossing) - world);
}

/// A path of two legs, each applied to the world index the previous one left,
/// ends in the same world as the crossings of both legs applied in one go.
pub proof fn lemma_legs_compose(world: int, first: Seq<RegionTests>, second: Seq<RegionTests>)
    ensures
        world_after(world_after(world, first), second) == world_after(world, first + second),
{
    lemma_reflect_all_append(world, first, second);
    lemma_reflect_all_mod(reflect_all(world, first), second);
}

/// Two crossings in a row shift the world index by the difference of their
/// base values; they cancel exactly when both pass under the same arc.
pub proof fn lemma_two_crossings(world: int, first: RegionTests, second: RegionTests)
    ensures
        world_after(world, seq![first, second]) == normalized(
            world + arc_base_of(second) - arc_base_of(first),
        ),
        world_after(world, seq![first, second]) == normalized(world) <==> crossed_arc_of(first)
            == crossed_arc_of(second),
{
    let s = seq![first, second];
    assert(s.len() == 2 && s[0] == first);
    assert(seq![second].len() == 1 && seq![second][0] == second);
    assert(s.drop_first() =~= seq![second]);
    assert(seq![second].drop_first() =~= Seq::<RegionTests>::empty());
    let inner = arc_base_of(first) - world;
    assert(reflect_all(arc_base_of(second) - inner, Seq::<RegionTests>::empty())
        == arc_base_of(second) - inner);
    assert(reflect_all(inner, seq![second]) == arc_base_of(second) - inner);
    let d = arc_base_of(second) - arc_base_of(first);
    assert(normalized(world + d) == normalized(world) <==> d % 6 == 0) by {
        lemma_add_mod_noop(world, d, 6);
        lemma_mod_add_multiples_vanish(world, 6);
    }
    assert(d % 6 == 0 <==> crossed_arc_of(first) == crossed_arc_of(second));
}

} // verus!
