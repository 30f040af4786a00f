//! What the texts of sets of value types tell of the sets.

use vstd::prelude::*;

use crate::cdsl::numset::{
    ascending, enumerates, lemma_ascending, lemma_enumeration_unique, RangeBound,
};
use crate::cdsl::types::SpecialType;
use crate::cdsl::typeset::{number_field, special_field, TypeSetView};
use crate::text::{decimal, digit, joined};

verus! {

/// Texts that run up to a character that they do not hold, or to the end, are told apart by where
/// that is.
proof fn lemma_split(a: Seq<char>, x: Seq<char>, b: Seq<char>, y: Seq<char>, c: char)
    requires
        a + x == b + y,
        forall|i: int| 0 <= i < a.len() ==> #[trigger] a[i] != c,
        forall|i: int| 0 <= i < b.len() ==> #[trigger] b[i] != c,
        x.len() > 0 ==> x[0] == c,
        y.len() > 0 ==> y[0] == c,
    ensures
        a == b,
        x == y,
{
    let (p, q) = (a + x, b + y);
    if a.len() < b.len() {
        assert(p.len() == q.len());
        assert(p[a.len() as int] == x[0]);
        assert(q[a.len() as int] == b[a.len() as int]);
    }
    if b.len() < a.len() {
        assert(q[b.len() as int] == y[0]);
        assert(p[b.len() as int] == a[b.len() as int]);
    }
    assert forall|i: int| 0 <= i < a.len() implies a[i] == b[i] by {
        assert(p[i] == q[i]);
    }
    assert(a =~= b);
    assert forall|i: int| 0 <= i < x.len() implies x[i] == y[i] by {
        assert(p[a.len() + i] == q[a.len() + i]);
    }
    assert(x =~= y);
}

/// Texts that start with the same text are told apart by the rest.
proof fn lemma_same_start(a: Seq<char>, x: Seq<char>, y: Seq<char>)
    requires
        a + x == a + y,
    ensures
        x == y,
{
    assert(x =~= (a + x).skip(a.len() as int));
    assert(y =~= (a + y).skip(a.len() as int));
}

/// Texts that end with the same text are told apart by what comes before.
proof fn lemma_same_end(x: Seq<char>, y: Seq<char>, z: Seq<char>)
    requires
        x + z == y + z,
    ensures
        x == y,
{
    assert((x + z).len() == (y + z).len());
    assert(x =~= (x + z).take(x.len() as int));
    assert(y =~= (y + z).take(y.len() as int));
}

/// A numeral is made of digits.
proof fn lemma_digits(n: nat)
    ensures
        decimal(n).len() > 0,
        forall|i: int| 0 <= i < decimal(n).len() ==> '0' <= #[trigger] decimal(n)[i] <= '9',
    decreases n,
{
    let last = digit(n % 10);
    assert('0' <= last <= '9');
    if n >= 10 {
        let front = decimal(n / 10);
        lemma_digits(n / 10);
        assert(decimal(n) == front.push(last));
        assert forall|i: int| 0 <= i < decimal(n).len() implies '0' <= #[trigger] decimal(n)[i]
            <= '9' by {
            if i < front.len() {
                assert(decimal(n)[i] == front[i]);
            }
        }
    } else {
        assert(decimal(n) =~= seq![last]);
    }
}

/// A numeral tells its number.
proof fn lemma_decimal_injective(m: nat, n: nat)
    requires
        decimal(m) == decimal(n),
    ensures
        m == n,
    decreases m,
{
    lemma_digits(m / 10);
    lemma_digits(n / 10);
    assert(decimal(m).last() == digit(m % 10));
    assert(decimal(n).last() == digit(n % 10));
    assert(m % 10 == n % 10);
    if m >= 10 && n >= 10 {
        assert(decimal(m / 10) =~= decimal(m).drop_last());
        assert(decimal(n / 10) =~= decimal(n).drop_last());
        lemma_decimal_injective(m / 10, n / 10);
    } else if m >= 10 {
        assert(decimal(m).len() > 1);
    } else if n >= 10 {
        assert(decimal(n).len() > 1);
    }
}

/// What follows the first item of a list in its text.
spec fn rest_text(rest: Seq<Seq<char>>) -> Seq<char> {
    if rest.len() == 0 {
        seq![]
    } else {
        ", "@ + joined(rest, ", "@)
    }
}

/// The text of a list starts with its first item.
proof fn lemma_joined_front(items: Seq<Seq<char>>)
    requires
        items.len() > 0,
    ensures
        joined(items, ", "@) == items[0] + rest_text(items.drop_first()),
    decreases items.len(),
{
    let rest = items.drop_first();
    if items.len() == 1 {
        assert(items[0] + rest_text(rest) =~= items[0]);
    } else {
        let front = items.drop_last();
        lemma_joined_front(front);
        assert(front.drop_first() =~= rest.drop_last());
        assert(rest.last() == items.last());
        assert(front[0] == items[0]);
        if items.len() == 2 {
            assert(front =~= seq![items[0]]);
            assert(rest =~= seq![items[1]]);
            assert(joined(rest, ", "@) == items[1]);
            assert(joined(items, ", "@) =~= items[0] + (", "@ + items[1]));
        } else {
            assert(joined(rest, ", "@) == joined(rest.drop_last(), ", "@) + ", "@ + rest.last());
            assert(joined(items, ", "@) =~= items[0] + (", "@ + joined(rest, ", "@)));
        }
    }
}

/// The numerals of a list of numbers.
spec fn numerals(numbers: Seq<RangeBound>) -> Seq<Seq<char>> {
    numbers.map_values(|x: RangeBound| decimal(x as nat))
}

/// The text of a list of numbers has no braces.
proof fn lemma_numbers_without_brace(numbers: Seq<RangeBound>)
    ensures
        forall|i: int|
            0 <= i < joined(numerals(numbers), ", "@).len() ==> #[trigger] joined(
                numerals(numbers),
                ", "@,
            )[i] != '}',
    decreases numbers.len(),
{
    reveal_strlit(", ");
    let text = joined(numerals(numbers), ", "@);
    if numbers.len() > 0 {
        let rest = numbers.drop_first();
        let first = decimal(numbers[0] as nat);
        lemma_joined_front(numerals(numbers));
        lemma_digits(numbers[0] as nat);
        lemma_numbers_without_brace(rest);
        assert(numerals(numbers).drop_first() =~= numerals(rest));
        assert(numerals(numbers)[0] == first);
        assert forall|i: int| 0 <= i < text.len() implies #[trigger] text[i] != '}' by {
            let n = first.len() as int;
            if i < n {
                assert(text[i] == first[i]);
            } else if rest.len() > 0 {
                if i < n + 2 {
                    assert(text[i] == ", "@[i - n]);
                } else {
                    assert(text[i] == joined(numerals(rest), ", "@)[i - n - 2]);
                }
            }
        }
    }
}

/// The text of a list of numbers tells the numbers.
proof fn lemma_numbers_injective(p: Seq<RangeBound>, q: Seq<RangeBound>)
    requires
        p.len() > 0,
        q.len() > 0,
        joined(numerals(p), ", "@) == joined(numerals(q), ", "@),
    ensures
        p == q,
    decreases p.len(),
{
    reveal_strlit(", ");
    let (m, n) = (decimal(p[0] as nat), decimal(q[0] as nat));
    let (v, w) = (p.drop_first(), q.drop_first());
    lemma_joined_front(numerals(p));
    lemma_joined_front(numerals(q));
    lemma_digits(p[0] as nat);
    lemma_digits(q[0] as nat);
    assert(numerals(p).drop_first() =~= numerals(v));
    assert(numerals(q).drop_first() =~= numerals(w));
    let (x, y) = (rest_text(numerals(v)), rest_text(numerals(w)));
    assert(v.len() > 0 ==> x[0] == ", "@[0]);
    assert(w.len() > 0 ==> y[0] == ", "@[0]);
    lemma_split(m, x, n, y, ',');
    lemma_decimal_injective(p[0] as nat, q[0] as nat);
    if v.len() > 0 && w.len() > 0 {
        lemma_same_start(", "@, joined(numerals(v), ", "@), joined(numerals(w), ", "@));
        lemma_numbers_injective(v, w);
    }
    assert(v.len() == 0 ==> x.len() == 0);
    assert(w.len() == 0 ==> y.len() == 0);
    assert(v =~= w);
    assert(p =~= seq![p[0]] + v);
    assert(q =~= seq![q[0]] + w);
}

/// The text of a set of numbers, without its label.
spec fn numbers_text(set: Set<RangeBound>) -> Seq<char> {
    joined(numerals(ascending(set)), ", "@)
}

/// The text of a set of numbers tells the set.
proof fn lemma_set_injective(a: Set<RangeBound>, b: Set<RangeBound>)
    requires
        !a.is_empty(),
        !b.is_empty(),
        numbers_text(a) == numbers_text(b),
    ensures
        a == b,
{
    lemma_ascending(a);
    lemma_ascending(b);
    assert(ascending(a).to_set() == a);
    assert(ascending(b).to_set() == b);
    if ascending(a).len() == 0 {
        let x = choose|x: RangeBound| a.contains(x);
        assert(ascending(a).to_set().contains(x));
    }
    if ascending(b).len() == 0 {
        let x = choose|x: RangeBound| b.contains(x);
        assert(ascending(b).to_set().contains(x));
    }
    lemma_numbers_injective(ascending(a), ascending(b));
}

/// The texts of the sets that are not empty, in order.
spec fn fields(labels: Seq<Seq<char>>, sets: Seq<Set<RangeBound>>) -> Seq<Seq<char>>
    decreases labels.len(),
{
    if labels.len() == 0 {
        seq![]
    } else {
        number_field(labels[0], sets[0]) + fields(labels.drop_first(), sets.drop_first())
    }
}

/// Whether labels can be told apart by their first characters, and hold no braces.
spec fn distinct_labels(labels: Seq<Seq<char>>) -> bool {
    &&& forall|i: int| 0 <= i < labels.len() ==> (#[trigger] labels[i]).len() > 0
    &&& forall|i: int, j: int|
        0 <= i < j < labels.len() ==> #[trigger] labels[i][0] != #[trigger] labels[j][0]
    &&& forall|i: int, k: int|
        0 <= i < labels.len() && 0 <= k < labels[i].len() ==> #[trigger] labels[i][k] != '}'
}

/// The text of the fields starts with one of the labels, unless all sets are empty.
proof fn lemma_fields_start(labels: Seq<Seq<char>>, sets: Seq<Set<RangeBound>>)
    requires
        distinct_labels(labels),
        labels.len() == sets.len(),
    ensures
        fields(labels, sets).len() == 0 ==> forall|i: int|
            0 <= i < sets.len() ==> (#[trigger] sets[i]).is_empty(),
        fields(labels, sets).len() > 0 ==> {
            let text = joined(fields(labels, sets), ", "@);
            text.len() > 0 && exists|i: int|
                0 <= i < labels.len() && #[trigger] labels[i][0] == text[0]
        },
    decreases labels.len(),
{
    if labels.len() > 0 {
        let (ls, ss) = (labels.drop_first(), sets.drop_first());
        let all = fields(labels, sets);
        lemma_fields_start(ls, ss);
        if sets[0].is_empty() {
            assert(all =~= fields(ls, ss));
            assert forall|i: int| all.len() == 0 && 0 <= i < sets.len() implies (
            #[trigger] sets[i]).is_empty() by {
                if i > 0 {
                    assert(ss[i - 1] == sets[i]);
                }
            }
            if all.len() > 0 {
                let text = joined(all, ", "@);
                let i = choose|i: int| 0 <= i < ls.len() && #[trigger] ls[i][0] == text[0];
                assert(labels[i + 1][0] == text[0]);
            }
        } else {
            lemma_joined_front(all);
            assert(all[0][0] == labels[0][0]);
        }
    }
}

/// The text of the fields tells the sets.
proof fn lemma_fields_injective(
    labels: Seq<Seq<char>>,
    a: Seq<Set<RangeBound>>,
    b: Seq<Set<RangeBound>>,
)
    requires
        distinct_labels(labels),
        labels.len() == a.len(),
        labels.len() == b.len(),
        joined(fields(labels, a), ", "@) == joined(fields(labels, b), ", "@),
    ensures
        a == b,
    decreases labels.len(),
{
    if labels.len() == 0 {
        assert(a =~= b);
    } else {
        let (ls, sa, sb) = (labels.drop_first(), a.drop_first(), b.drop_first());
        let (fa, fb) = (fields(labels, a), fields(labels, b));
        if a[0].is_empty() && b[0].is_empty() {
            assert(fa =~= fields(ls, sa));
            assert(fb =~= fields(ls, sb));
            assert(a[0] =~= b[0]);
        } else if a[0].is_empty() {
            assert(fa =~= fields(ls, sa));
            lemma_first_differs(labels, b, sa);
        } else if b[0].is_empty() {
            assert(fb =~= fields(ls, sb));
            lemma_first_differs(labels, a, sb);
        } else {
            lemma_first_field(labels, a, b);
        }
        lemma_fields_injective(ls, sa, sb);
        assert(a =~= seq![a[0]] + sa);
        assert(b =~= seq![b[0]] + sb);
    }
}

/// A text that starts with the first label differs from one that starts with another.
proof fn lemma_first_differs(
    labels: Seq<Seq<char>>,
    a: Seq<Set<RangeBound>>,
    rest: Seq<Set<RangeBound>>,
)
    requires
        distinct_labels(labels),
        labels.len() > 0,
        labels.len() == a.len(),
        rest.len() == labels.len() - 1,
        !a[0].is_empty(),
    ensures
        joined(fields(labels, a), ", "@) != joined(fields(labels.drop_first(), rest), ", "@),
{
    let ls = labels.drop_first();
    let all = fields(labels, a);
    lemma_joined_front(all);
    assert(all[0][0] == labels[0][0]);
    assert(joined(all, ", "@)[0] == labels[0][0]);
    lemma_fields_start(ls, rest);
    let other = fields(ls, rest);
    if other.len() > 0 {
        let text = joined(other, ", "@);
        let i = choose|i: int| 0 <= i < ls.len() && #[trigger] ls[i][0] == text[0];
        assert(labels[0][0] != labels[i + 1][0]);
    }
}

/// Two texts that start with the field of the same label agree in that field, and in the rest.
proof fn lemma_first_field(
    labels: Seq<Seq<char>>,
    a: Seq<Set<RangeBound>>,
    b: Seq<Set<RangeBound>>,
)
    requires
        distinct_labels(labels),
        labels.len() > 0,
        labels.len() == a.len(),
        labels.len() == b.len(),
        !a[0].is_empty(),
        !b[0].is_empty(),
        joined(fields(labels, a), ", "@) == joined(fields(labels, b), ", "@),
    ensures
        a[0] == b[0],
        joined(fields(labels.drop_first(), a.drop_first()), ", "@) == joined(
            fields(labels.drop_first(), b.drop_first()),
            ", "@,
        ),
{
    reveal_strlit(", ");
    reveal_strlit("={");
    reveal_strlit("}");
    let (ls, sa, sb) = (labels.drop_first(), a.drop_first(), b.drop_first());
    let (ra, rb) = (fields(ls, sa), fields(ls, sb));
    let head = labels[0] + "={"@;
    let (na, nb) = (numbers_text(a[0]), numbers_text(b[0]));
    let (ta, tb) = (rest_text(ra), rest_text(rb));
    lemma_joined_front(fields(labels, a));
    lemma_joined_front(fields(labels, b));
    assert(fields(labels, a).drop_first() =~= ra);
    assert(fields(labels, b).drop_first() =~= rb);
    lemma_field_text(labels[0], a[0]);
    lemma_field_text(labels[0], b[0]);
    lemma_numbers_without_brace(ascending(a[0]));
    lemma_numbers_without_brace(ascending(b[0]));
    assert(joined(fields(labels, a), ", "@) =~= (head + na) + ("}"@ + ta));
    assert(joined(fields(labels, b), ", "@) =~= (head + nb) + ("}"@ + tb));
    lemma_no_brace(labels[0], na);
    lemma_no_brace(labels[0], nb);
    lemma_split(head + na, "}"@ + ta, head + nb, "}"@ + tb, '}');
    lemma_same_start(head, na, nb);
    lemma_set_injective(a[0], b[0]);
    lemma_same_start("}"@, ta, tb);
    assert(ra.len() > 0 ==> ta.len() >= 2);
    assert(rb.len() > 0 ==> tb.len() >= 2);
    if ra.len() > 0 && rb.len() > 0 {
        lemma_same_start(", "@, joined(ra, ", "@), joined(rb, ", "@));
    }
}

/// The text of a set that is not empty.
proof fn lemma_field_text(label: Seq<char>, set: Set<RangeBound>)
    requires
        !set.is_empty(),
    ensures
        number_field(label, set) == seq![label + "={"@ + numbers_text(set) + "}"@],
{
}

/// A label and the text of numbers have no closing brace.
proof fn lemma_no_brace(label: Seq<char>, numbers: Seq<char>)
    requires
        forall|k: int| 0 <= k < label.len() ==> #[trigger] label[k] != '}',
        forall|k: int| 0 <= k < numbers.len() ==> #[trigger] numbers[k] != '}',
    ensures
        forall|k: int|
            0 <= k < (label + "={"@ + numbers).len() ==> #[trigger] (label + "={"@ + numbers)[k]
                != '}',
{
    reveal_strlit("={");
    let text = label + "={"@ + numbers;
    assert forall|k: int| 0 <= k < text.len() implies #[trigger] text[k] != '}' by {
        let n = label.len() as int;
        if k < n {
            assert(text[k] == label[k]);
        } else if k < n + 2 {
            assert(text[k] == "={"@[k - n]);
        } else {
            assert(text[k] == numbers[k - n - 2]);
        }
    }
}

/// The labels of the sets of numbers.
spec fn all_labels() -> Seq<Seq<char>> {
    seq!["lanes"@, "dynamic_lanes"@, "ints"@, "floats"@, "refs"@]
}

/// The sets of numbers of a set of types.
spec fn all_sets(set: TypeSetView) -> Seq<Set<RangeBound>> {
    seq![set.lanes, set.dynamic_lanes, set.ints, set.floats, set.refs]
}

proof fn lemma_all_labels()
    ensures
        distinct_labels(all_labels()),
{
    reveal_strlit("lanes");
    reveal_strlit("dynamic_lanes");
    reveal_strlit("ints");
    reveal_strlit("floats");
    reveal_strlit("refs");
}

/// The text of a set without special types is the text of its fields.
proof fn lemma_debug_text(set: TypeSetView)
    requires
        set.specials.len() == 0,
    ensures
        set.debug_text() == "TypeSet("@ + joined(fields(all_labels(), all_sets(set)), ", "@) + ")"@,
{
    reveal_with_fuel(fields, 6);
    let (l, s) = (all_labels(), all_sets(set));
    let (l1, s1) = (l.drop_first(), s.drop_first());
    let (l2, s2) = (l1.drop_first(), s1.drop_first());
    let (l3, s3) = (l2.drop_first(), s2.drop_first());
    let (l4, s4) = (l3.drop_first(), s3.drop_first());
    assert(l4.drop_first() =~= seq![]);
    assert(fields(l, s) =~= number_field("lanes"@, set.lanes) + number_field(
        "dynamic_lanes"@,
        set.dynamic_lanes,
    ) + number_field("ints"@, set.ints) + number_field("floats"@, set.floats) + number_field(
        "refs"@,
        set.refs,
    ) + special_field(set.specials));
}

/// A set of numbers has a text exactly if it is not empty, and the text lists its members in
/// ascending order, each once.
pub proof fn law_text_lists_members(label: Seq<char>, set: Set<RangeBound>)
    ensures
        number_field(label, set).len() == if set.is_empty() {
            0nat
        } else {
            1
        },
        enumerates(ascending(set), set),
{
    lemma_ascending(set);
}

/// The text of a set without special types tells the set: sets with the same text are the same.
pub proof fn law_text_tells_set(a: TypeSetView, b: TypeSetView)
    requires
        a.specials.len() == 0,
        b.specials.len() == 0,
    ensures
        a.debug_text() == b.debug_text() <==> a == b,
{
    if a.debug_text() == b.debug_text() {
        let (fa, fb) = (fields(all_labels(), all_sets(a)), fields(all_labels(), all_sets(b)));
        lemma_debug_text(a);
        lemma_debug_text(b);
        lemma_same_end(
            "TypeSet("@ + joined(fa, ", "@),
            "TypeSet("@ + joined(fb, ", "@),
            ")"@,
        );
        lemma_same_start("TypeSet("@, joined(fa, ", "@), joined(fb, ", "@));
        lemma_all_labels();
        lemma_fields_injective(all_labels(), all_sets(a), all_sets(b));
        assert(all_sets(a)[0] == all_sets(b)[0] && all_sets(a)[1] == all_sets(b)[1]
            && all_sets(a)[2] == all_sets(b)[2] && all_sets(a)[3] == all_sets(b)[3] && all_sets(
            a,
        )[4] == all_sets(b)[4]);
        assert(a.specials =~= b.specials);
        assert(a =~= b);
    }
}

/// The section of a list of texts: none where the list is empty.
pub open spec fn section(label: Seq<char>, items: Seq<Seq<char>>) -> Seq<Seq<char>> {
    if items.len() == 0 {
        seq![]
    } else {
        seq![label + "={"@ + joined(items, ", "@) + "}"@]
    }
}

/// The text of a set has a section for each part that is not empty: lane counts, dynamic lane
/// counts, integer, float and reference widths by ascending numerals, and special types by name.
pub proof fn law_text(
    set: TypeSetView,
    lanes: Seq<RangeBound>,
    dynamic_lanes: Seq<RangeBound>,
    ints: Seq<RangeBound>,
    floats: Seq<RangeBound>,
    refs: Seq<RangeBound>,
)
    requires
        enumerates(lanes, set.lanes),
        enumerates(dynamic_lanes, set.dynamic_lanes),
        enumerates(ints, set.ints),
        enumerates(floats, set.floats),
        enumerates(refs, set.refs),
    ensures
        set.debug_text() == "TypeSet("@ + joined(
            section("lanes"@, lanes.map_values(|x: RangeBound| decimal(x as nat))) + section(
                "dynamic_lanes"@,
                dynamic_lanes.map_values(|x: RangeBound| decimal(x as nat)),
            ) + section("ints"@, ints.map_values(|x: RangeBound| decimal(x as nat))) + section(
                "floats"@,
                floats.map_values(|x: RangeBound| decimal(x as nat)),
            ) + section("refs"@, refs.map_values(|x: RangeBound| decimal(x as nat))) + section(
                "specials"@,
                set.specials.map_values(|special: SpecialType| special.spec_name()),
            ),
            ", "@,
        ) + ")"@,
{
    lemma_section("lanes"@, set.lanes, lanes);
    lemma_section("dynamic_lanes"@, set.dynamic_lanes, dynamic_lanes);
    lemma_section("ints"@, set.ints, ints);
    lemma_section("floats"@, set.floats, floats);
    lemma_section("refs"@, set.refs, refs);
    assert("specials"@ + "={"@ =~= "specials={"@) by {
        reveal_strlit("specials");
        reveal_strlit("={");
        reveal_strlit("specials={");
    }
}

proof fn lemma_section(label: Seq<char>, set: Set<RangeBound>, q: Seq<RangeBound>)
    requires
        enumerates(q, set),
    ensures
        number_field(label, set) == section(
            label,
            q.map_values(|x: RangeBound| decimal(x as nat)),
        ),
{
    lemma_ascending(set);
    lemma_enumeration_unique(q, ascending(set), set);
    if q.len() > 0 {
        assert(q.to_set().contains(q[0]));
    }
    if !set.is_empty() {
        let x = choose|x: RangeBound| set.contains(x);
        assert(q.to_set().contains(x));
    }
}

} // verus!
