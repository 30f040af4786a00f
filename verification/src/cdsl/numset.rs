//! Sets of small numbers: lane counts and bit widths.

use std::collections::BTreeSet;
use std::ops;

use vstd::prelude::*;
use vstd::std_specs::cmp::OrdSpec;
use vstd::std_specs::iter::IteratorSpec;

verus! {

/// A lane count or a bit width.
pub type RangeBound = u16;

/// A range of lane counts or bit widths. Both bounds belong to it.
pub type Range = ops::Range<RangeBound>;

/// A set of lane counts or bit widths.
pub type NumSet = BTreeSet<RangeBound>;

/// Whether `q` lists the members of `s`, smallest first and each once.
pub open spec fn enumerates(q: Seq<RangeBound>, s: Set<RangeBound>) -> bool {
    &&& forall|i: int, j: int| 0 <= i < j < q.len() ==> q[i] < q[j]
    &&& q.to_set() == s
}

/// The members of `s`, smallest first.
pub open spec fn ascending(s: Set<RangeBound>) -> Seq<RangeBound> {
    choose|q: Seq<RangeBound>| enumerates(q, s)
}

/// Whether `x` is a power of two.
pub open spec fn is_power_of_two(x: RangeBound) -> bool {
    exists|k: u16| k < 16 && x == #[trigger] (1u16 << k)
}

/// The powers of two from `low` to `high`.
pub open spec fn powers_between(low: RangeBound, high: RangeBound) -> Set<RangeBound> {
    Set::new(|x: RangeBound| is_power_of_two(x) && low <= x <= high)
}

/// The powers of two included in `range`: none where there is no range.
pub open spec fn range_set(range: Option<Range>) -> Set<RangeBound> {
    match range {
        Some(range) => powers_between(range.start, range.end),
        None => Set::empty(),
    }
}

/// The halves of the members of `s` above `floor`.
pub open spec fn halved(s: Set<RangeBound>, floor: RangeBound) -> Set<RangeBound> {
    s.filter(|x: RangeBound| x > floor).map(|x: RangeBound| x / 2)
}

/// The doubles of the members of `s` below `limit`.
pub open spec fn doubled(s: Set<RangeBound>, limit: RangeBound) -> Set<RangeBound> {
    s.filter(|x: RangeBound| x < limit).map(|x: RangeBound| (2 * x) as RangeBound)
}

/// The members of `s` below `limit`.
pub open spec fn below(s: Set<RangeBound>, limit: RangeBound) -> Set<RangeBound> {
    s.filter(|x: RangeBound| x < limit)
}

/// A set of numbers has one ascending enumeration only.
pub proof fn lemma_enumeration_unique(p: Seq<RangeBound>, q: Seq<RangeBound>, s: Set<RangeBound>)
    requires
        enumerates(p, s),
        enumerates(q, s),
    ensures
        p == q,
    decreases p.len(),
{
    if p.len() == 0 {
        if q.len() > 0 {
            assert(q.to_set().contains(q[0]));
            assert(p.to_set().contains(q[0]));
        }
        assert(p =~= q);
    } else {
        assert(p.to_set().contains(p.last()));
        assert(q.to_set().contains(p.last()));
        assert(q.to_set().contains(q.last()));
        assert(p.to_set().contains(q.last()));
        assert(p.last() == q.last());
        let rest = s.remove(p.last());
        assert(p.drop_last().to_set() =~= rest) by {
            lemma_drop_last_members(p, s);
        }
        assert(q.drop_last().to_set() =~= rest) by {
            lemma_drop_last_members(q, s);
        }
        lemma_enumeration_unique(p.drop_last(), q.drop_last(), rest);
        assert(p =~= p.drop_last().push(p.last()));
        assert(q =~= q.drop_last().push(q.last()));
    }
}

proof fn lemma_drop_last_members(q: Seq<RangeBound>, s: Set<RangeBound>)
    requires
        enumerates(q, s),
        q.len() > 0,
    ensures
        q.drop_last().to_set() == s.remove(q.last()),
{
    assert forall|x: RangeBound| q.drop_last().to_set().contains(x) == s.remove(
        q.last(),
    ).contains(x) by {
        if q.drop_last().to_set().contains(x) {
            let i = choose|i: int| 0 <= i < q.drop_last().len() && q.drop_last()[i] == x;
            assert(q[i] == x);
            assert(q.to_set().contains(x));
        }
        if s.remove(q.last()).contains(x) {
            assert(q.to_set().contains(x));
            let i = choose|i: int| 0 <= i < q.len() && q[i] == x;
            assert(q.drop_last()[i] == x);
        }
    }
    assert(q.drop_last().to_set() =~= s.remove(q.last()));
}

/// An enumeration has as many items as the set has members.
pub proof fn lemma_enumeration_len(q: Seq<RangeBound>, s: Set<RangeBound>)
    requires
        enumerates(q, s),
    ensures
        s.finite(),
        q.len() == s.len(),
{
    q.unique_seq_to_set();
}

/// Every set of numbers has an ascending enumeration.
pub proof fn lemma_ascending(s: Set<RangeBound>)
    ensures
        s.finite(),
        enumerates(ascending(s), s),
        ascending(s).len() == s.len(),
{
    let q = lemma_enumeration_below(s, 0x10000);
    lemma_enumeration_len(ascending(s), s);
}

proof fn lemma_enumeration_below(s: Set<RangeBound>, bound: int) -> (q: Seq<RangeBound>)
    requires
        0 <= bound <= 0x10000,
        forall|x: RangeBound| s.contains(x) ==> x < bound,
    ensures
        enumerates(q, s),
    decreases bound,
{
    if bound == 0 {
        let q = Seq::<RangeBound>::empty();
        assert(q.to_set() =~= s);
        q
    } else {
        let top = (bound - 1) as RangeBound;
        if s.contains(top) {
            let p = lemma_enumeration_below(s.remove(top), bound - 1);
            let q = p.push(top);
            assert forall|i: int, j: int| 0 <= i < j < q.len() implies q[i] < q[j] by {
                assert(p.to_set().contains(p[i]));
            }
            assert forall|x: RangeBound| q.to_set().contains(x) == s.contains(x) by {
                if q.to_set().contains(x) {
                    let i = choose|i: int| 0 <= i < q.len() && q[i] == x;
                    if i < p.len() {
                        assert(p.to_set().contains(p[i]));
                    }
                }
                if s.contains(x) {
                    if x == top {
                        assert(q[p.len() as int] == x);
                    } else {
                        assert(p.to_set().contains(x));
                        let i = choose|i: int| 0 <= i < p.len() && p[i] == x;
                        assert(q[i] == x);
                    }
                }
            }
            assert(q.to_set() =~= s);
            q
        } else {
            lemma_enumeration_below(s, bound - 1)
        }
    }
}

/// What iterating over a set of numbers promises, in terms of `<`.
proof fn lemma_iteration_order(all: Seq<&RangeBound>)
    requires
        vstd::std_specs::btree::increasing_seq(all),
    ensures
        forall|i: int, j: int| 0 <= i < j < all.len() ==> *all[i] < *all[j],
{
    broadcast use vstd::laws_cmp::group_laws_cmp;

    assert(vstd::laws_cmp::obeys_cmp::<&RangeBound>());
    assert forall|i: int, j: int| 0 <= i < j < all.len() implies *all[i] < *all[j] by {
        assert(OrdSpec::cmp_spec(&all[i], &all[j]) is Less);
    }
}

/// List the members of `set`, smallest first.
pub fn to_vec(set: &NumSet) -> (items: Vec<RangeBound>)
    ensures
        items@ == ascending(set@),
        enumerates(items@, set@),
        items.len() == set@.len(),
{
    broadcast use vstd::laws_cmp::group_laws_cmp;

    let mut items: Vec<RangeBound> = Vec::new();
    let ghost all = vstd::std_specs::btree::spec_btree_keys_iter(set).remaining();
    for x in iter: set.iter()
        invariant
            iter.seq() == all,
            items@ == all.take(iter.index()).unref(),
    {
        items.push(*x);
        assert(items@ =~= all.take(iter.index() + 1).unref());
    }
    proof {
        assert(all.take(all.len() + 0int) =~= all);
        assert(items@ == all.unref());
        lemma_iteration_order(all);
        assert(enumerates(items@, set@));
        lemma_enumeration_unique(items@, ascending(set@), set@);
        lemma_enumeration_len(items@, set@);
    }
    items
}

/// Add `x` to `set`.
pub fn insert(set: &mut NumSet, x: RangeBound)
    ensures
        final(set)@ == old(set)@.insert(x),
{
    broadcast use vstd::laws_cmp::group_laws_cmp;

    set.insert(x);
}

/// A set of numbers is no larger than their range.
pub proof fn lemma_len_bound(s: Set<RangeBound>)
    ensures
        s.len() <= 0x10000,
{
    lemma_ascending(s);
    let q = ascending(s);
    if q.len() > 0 {
        lemma_enumeration_growth(q, q.len() - 1);
    }
}

proof fn lemma_enumeration_growth(q: Seq<RangeBound>, i: int)
    requires
        forall|i: int, j: int| 0 <= i < j < q.len() ==> q[i] < q[j],
        0 <= i < q.len(),
    ensures
        q[i] >= i,
    decreases i,
{
    if i > 0 {
        lemma_enumeration_growth(q, i - 1);
    }
}

/// Return the number of members of `set`.
pub fn count(set: &NumSet) -> (members: usize)
    ensures
        members == set@.len(),
        members <= 0x10000,
{
    broadcast use vstd::laws_cmp::group_laws_cmp;

    proof {
        lemma_len_bound(set@);
    }
    set.len()
}

/// Return the set of the halves of the members of `set` above `floor`.
pub fn halve_above(set: &NumSet, floor: RangeBound) -> (halves: NumSet)
    ensures
        halves@ == halved(set@, floor),
{
    let items = to_vec(set);
    let mut halves = NumSet::new();
    for i in 0..items.len()
        invariant
            halves@ == halved(items@.take(i as int).to_set(), floor),
    {
        let ghost seen = items@.take(i as int);
        let x = items[i];
        if x > floor {
            insert(&mut halves, x / 2);
        }
        proof {
            assert(items@.take(i + 1) =~= seen.push(x));
            lemma_push_members(seen, x);
            lemma_halved_insert(seen.to_set(), x, floor);
        }
    }
    assert(items@.take(items.len() as int) =~= items@);
    halves
}

/// Return the set of the doubles of the members of `set` below `limit`.
pub fn double_below(set: &NumSet, limit: RangeBound) -> (doubles: NumSet)
    requires
        limit <= 0x8000,
    ensures
        doubles@ == doubled(set@, limit),
{
    let items = to_vec(set);
    let mut doubles = NumSet::new();
    for i in 0..items.len()
        invariant
            limit <= 0x8000,
            doubles@ == doubled(items@.take(i as int).to_set(), limit),
    {
        let ghost seen = items@.take(i as int);
        let x = items[i];
        if x < limit {
            insert(&mut doubles, x * 2);
        }
        proof {
            assert(items@.take(i + 1) =~= seen.push(x));
            lemma_push_members(seen, x);
            lemma_doubled_insert(seen.to_set(), x, limit);
        }
    }
    assert(items@.take(items.len() as int) =~= items@);
    doubles
}

/// Return the set of the members of `set` below `limit`.
pub fn keep_below(set: &NumSet, limit: RangeBound) -> (kept: NumSet)
    ensures
        kept@ == below(set@, limit),
{
    let items = to_vec(set);
    let mut kept = NumSet::new();
    for i in 0..items.len()
        invariant
            kept@ == below(items@.take(i as int).to_set(), limit),
    {
        let ghost seen = items@.take(i as int);
        let x = items[i];
        if x < limit {
            insert(&mut kept, x);
        }
        proof {
            assert(items@.take(i + 1) =~= seen.push(x));
            lemma_push_members(seen, x);
            assert(kept@ =~= below(seen.push(x).to_set(), limit));
        }
    }
    assert(items@.take(items.len() as int) =~= items@);
    kept
}

proof fn lemma_push_members(q: Seq<RangeBound>, x: RangeBound)
    ensures
        q.push(x).to_set() == q.to_set().insert(x),
{
    assert forall|y: RangeBound| q.push(x).to_set().contains(y) == q.to_set().insert(
        x,
    ).contains(y) by {
        if q.to_set().contains(y) {
            let i = choose|i: int| 0 <= i < q.len() && q[i] == y;
            assert(q.push(x)[i] == y);
        }
        assert(q.push(x)[q.len() as int] == x);
    }
    assert(q.push(x).to_set() =~= q.to_set().insert(x));
}

/// Membership in the halves of a set.
pub proof fn lemma_halved_members(s: Set<RangeBound>, floor: RangeBound)
    ensures
        forall|y: RangeBound| #[trigger]
            halved(s, floor).contains(y) <==> exists|x: RangeBound| #[trigger]
                s.contains(x) && x > floor && y == x / 2,
{
    assert forall|y: RangeBound| #[trigger]
        halved(s, floor).contains(y) <==> exists|x: RangeBound| #[trigger]
            s.contains(x) && x > floor && y == x / 2 by {
        if exists|x: RangeBound| #[trigger] s.contains(x) && x > floor && y == x / 2 {
            let x = choose|x: RangeBound| #[trigger] s.contains(x) && x > floor && y == x / 2;
            assert(s.filter(|x: RangeBound| x > floor).contains(x));
        }
    }
}

/// Membership in the doubles of a set.
pub proof fn lemma_doubled_members(s: Set<RangeBound>, limit: RangeBound)
    ensures
        forall|y: RangeBound| #[trigger]
            doubled(s, limit).contains(y) <==> exists|x: RangeBound| #[trigger]
                s.contains(x) && x < limit && y == (2 * x) as RangeBound,
{
    assert forall|y: RangeBound| #[trigger]
        doubled(s, limit).contains(y) <==> exists|x: RangeBound| #[trigger]
            s.contains(x) && x < limit && y == (2 * x) as RangeBound by {
        if exists|x: RangeBound| #[trigger]
            s.contains(x) && x < limit && y == (2 * x) as RangeBound {
            let x = choose|x: RangeBound| #[trigger]
                s.contains(x) && x < limit && y == (2 * x) as RangeBound;
            assert(s.filter(|x: RangeBound| x < limit).contains(x));
        }
    }
}

proof fn lemma_halved_insert(s: Set<RangeBound>, x: RangeBound, floor: RangeBound)
    ensures
        halved(s.insert(x), floor) == if x > floor {
            halved(s, floor).insert(x / 2)
        } else {
            halved(s, floor)
        },
{
    lemma_halved_members(s, floor);
    lemma_halved_members(s.insert(x), floor);
    let grown = s.insert(x);
    assert forall|y: RangeBound| halved(s, floor).contains(y) implies halved(
        grown,
        floor,
    ).contains(y) by {
        let z = choose|z: RangeBound| #[trigger] s.contains(z) && z > floor && y == z / 2;
        assert(grown.contains(z));
    }
    assert(grown.contains(x));
    if x > floor {
        assert(halved(grown, floor) =~= halved(s, floor).insert(x / 2));
    } else {
        assert(halved(grown, floor) =~= halved(s, floor));
    }
}

proof fn lemma_doubled_insert(s: Set<RangeBound>, x: RangeBound, limit: RangeBound)
    ensures
        doubled(s.insert(x), limit) == if x < limit {
            doubled(s, limit).insert((2 * x) as RangeBound)
        } else {
            doubled(s, limit)
        },
{
    lemma_doubled_members(s, limit);
    lemma_doubled_members(s.insert(x), limit);
    let grown = s.insert(x);
    assert forall|y: RangeBound| doubled(s, limit).contains(y) implies doubled(
        grown,
        limit,
    ).contains(y) by {
        let z = choose|z: RangeBound| #[trigger]
            s.contains(z) && z < limit && y == (2 * z) as RangeBound;
        assert(grown.contains(z));
    }
    assert(grown.contains(x));
    if x < limit {
        assert(doubled(grown, limit) =~= doubled(s, limit).insert((2 * x) as RangeBound));
    } else {
        assert(doubled(grown, limit) =~= doubled(s, limit));
    }
}

/// The powers of two up to 256.
pub proof fn lemma_small_powers(x: RangeBound)
    requires
        x <= 256,
    ensures
        is_power_of_two(x) <==> (x == 1 || x == 2 || x == 4 || x == 8 || x == 16 || x == 32 || x
            == 64 || x == 128 || x == 256),
{
    assert(1u16 << 0 == 1 && 1u16 << 1 == 2 && 1u16 << 2 == 4 && 1u16 << 3 == 8 && 1u16 << 4 == 16
        && 1u16 << 5 == 32 && 1u16 << 6 == 64 && 1u16 << 7 == 128 && 1u16 << 8 == 256)
        by (bit_vector);
    if is_power_of_two(x) {
        let k = choose|k: u16| k < 16 && x == #[trigger] (1u16 << k);
        assert(k <= 8) by (bit_vector)
            requires
                k < 16,
                1u16 << k <= 256,
        ;
    }
}

/// Test whether `x` is a power of two.
pub fn test_power_of_two(x: RangeBound) -> (power: bool)
    ensures
        power == is_power_of_two(x),
{
    for k in 0..16u16
        invariant
            forall|j: u16| j < k ==> x != #[trigger] (1u16 << j),
    {
        if x == 1u16 << k {
            return true;
        }
    }
    false
}

/// The number of trailing zeros of a power of two is its exponent.
proof fn lemma_trailing_zeros(k: u16)
    requires
        k < 16,
    ensures
        vstd::std_specs::bits::u16_trailing_zeros(1u16 << k) == k,
{
    let x = 1u16 << k;
    vstd::std_specs::bits::axiom_u16_trailing_zeros(x);
    let t = vstd::std_specs::bits::u16_trailing_zeros(x) as u16;
    assert(x != 0) by (bit_vector)
        requires
            x == 1u16 << k,
            k < 16,
    ;
    assert(t == k) by (bit_vector)
        requires
            x == 1u16 << k,
            k < 16,
            t < 16,
            (x >> t) & 1u16 == 1u16,
    ;
}

/// The powers of two are ordered as their exponents are.
proof fn lemma_shift_order(j: u16, k: u16)
    requires
        j < 16,
        k < 16,
    ensures
        (1u16 << j) <= (1u16 << k) <==> j <= k,
        j == k <==> (1u16 << j) == (1u16 << k),
{
    assert((1u16 << j) <= (1u16 << k) <==> j <= k) by (bit_vector)
        requires
            j < 16,
            k < 16,
    ;
    assert(j == k <==> (1u16 << j) == (1u16 << k)) by (bit_vector)
        requires
            j < 16,
            k < 16,
    ;
}

/// Generates a set with all the powers of two included in the range.
pub fn range_to_set(range: Option<Range>) -> (set: NumSet)
    requires
        range matches Some(range) ==> {
            &&& is_power_of_two(range.start)
            &&& is_power_of_two(range.end)
            &&& range.start <= range.end
        },
    ensures
        set@ == range_set(range),
{
    let mut set = NumSet::new();
    let (low, high) = match range {
        Some(range) => (range.start, range.end),
        None => {
            return set;
        },
    };
    let first = low.trailing_zeros();
    let last = high.trailing_zeros();
    let ghost a = choose|k: u16| k < 16 && low == #[trigger] (1u16 << k);
    let ghost b = choose|k: u16| k < 16 && high == #[trigger] (1u16 << k);
    proof {
        lemma_trailing_zeros(a);
        lemma_trailing_zeros(b);
        lemma_shift_order(a, b);
    }
    let mut i: u32 = first;
    while i <= last
        invariant
            first == a,
            last == b,
            a <= b < 16,
            a <= i <= b + 1,
            forall|x: RangeBound|
                set@.contains(x) <==> exists|k: u16| a <= k < i && x == #[trigger] (1u16 << k),
        decreases b + 1 - i,
    {
        let ghost before = set@;
        let x: RangeBound = 1u16 << i;
        insert(&mut set, x);
        proof {
            assert forall|y: RangeBound|
                set@.contains(y) <==> exists|k: u16|
                    a <= k < i + 1 && y == #[trigger] (1u16 << k) by {
                if y == x {
                    let n = i as u16;
                    assert(y == 1u16 << n);
                } else if before.contains(y) {
                    let k = choose|k: u16| a <= k < i && y == #[trigger] (1u16 << k);
                    assert(a <= k < i + 1);
                }
            }
        }
        i = i + 1;
    }
    proof {
        assert forall|x: RangeBound| set@.contains(x) <==> powers_between(low, high).contains(x) by {
            if set@.contains(x) {
                let k = choose|k: u16| a <= k < i && x == #[trigger] (1u16 << k);
                lemma_shift_order(a, k);
                lemma_shift_order(k, b);
            }
            if powers_between(low, high).contains(x) {
                let k = choose|k: u16| k < 16 && x == #[trigger] (1u16 << k);
                lemma_shift_order(a, k);
                lemma_shift_order(k, b);
            }
        }
        assert(set@ =~= powers_between(low, high));
    }
    set
}

} // verus!
