//! The build-time constant classifier and enum generator.
//!
//! Named integer constants discovered in the native interface are bucketed
//! into enumeration groups by prefix rules. Rules are tested in lexicographic
//! order of their prefix, first match wins; a claimed constant becomes a
//! variant keyed by its value (a later constant with the same value silently
//! replaces the earlier name); unclaimed constants are passed through as
//! plain 32-bit signed values when they fit, and left out otherwise. Each
//! non-empty group is finally emitted as an enumeration whose variants come
//! in ascending value order.

use vstd::prelude::*;
use vstd::string::*;

use crate::text::decimal_digit;
use crate::text::is_prefix_of;
use crate::text::lex_lt;
use crate::text::lemma_lex_lt_irrefl;
use crate::text::lemma_lex_lt_total;
use crate::text::lemma_lex_lt_trans;
use crate::text::str_is_prefix;
use crate::text::str_lex_lt;
use crate::text::to_upper;
use crate::text::upper_of;

verus! {

/// Width of the discriminants a group is generated with.
#[derive(Clone, Copy, Debug, PartialEq, Eq, Structural)]
pub enum IntWidth {
    Signed32,
    Unsigned32,
}

/// One generated variant: a discriminant value bound to a variant name.
pub struct Variant {
    pub value: i64,
    pub name: String,
}

/// One classification rule together with the group it has collected so far.
pub struct GroupEntry {
    /// The literal prefix this rule claims constants by.
    pub prefix: String,
    /// The name of the generated enumeration.
    pub name: String,
    /// The discriminant width the enumeration is generated with.
    pub width: IntWidth,
    /// The collected variants, in strictly ascending value order.
    pub variants: Vec<Variant>,
}

/// A generated enumeration: one variant per collected discriminant value,
/// in ascending value order, each bound to its exact integer value.
pub struct GeneratedEnum {
    pub name: String,
    pub width: IntWidth,
    pub variants: Vec<Variant>,
}

/// How one constant was classified.
#[derive(Clone, Copy, Debug, PartialEq, Eq, Structural)]
pub enum ConstantClass {
    /// Claimed by the rule at this index, in lexicographic rule order.
    Grouped(usize),
    /// No rule matched; the value fits a plain 32-bit signed constant.
    Plain,
    /// No rule matched and the value lies outside the 32-bit signed range.
    Unclassified,
}

/// The variant name recorded at value `v`, front to back.
pub open spec fn value_of(s: Seq<Variant>, v: i64) -> Option<Seq<char>>
    decreases s.len(),
{
    if s.len() == 0 {
        None
    } else if s[0].value == v {
        Some(s[0].name@)
    } else {
        value_of(s.drop_first(), v)
    }
}

/// A variant table holds strictly ascending discriminant values.
pub open spec fn table_sorted(s: Seq<Variant>) -> bool {
    forall|i: int, j: int| 0 <= i < j < s.len() ==> s[i].value < s[j].value
}

/// A rule claims `name` when its prefix is non-empty and literally
/// prefixes it.
pub open spec fn rule_matches(prefix: Seq<char>, name: Seq<char>) -> bool {
    prefix.len() > 0 && is_prefix_of(prefix, name)
}

/// The first rule in rule order whose prefix claims `name`.
pub open spec fn first_match(groups: Seq<GroupEntry>, name: Seq<char>) -> Option<int>
    decreases groups.len(),
{
    if groups.len() == 0 {
        None
    } else if rule_matches(groups[0].prefix@, name) {
        Some(0int)
    } else {
        match first_match(groups.drop_first(), name) {
            Some(i) => Some(i + 1),
            None => None,
        }
    }
}

/// The variant name a rule derives from a constant's name: the constant's
/// name with the prefix stripped, and the uppercased group name prepended
/// when the stripped name would begin with a decimal digit.
pub open spec fn spec_variant_name(
    group_name: Seq<char>,
    prefix: Seq<char>,
    const_name: Seq<char>,
) -> Seq<char>
    recommends
        prefix.len() <= const_name.len(),
{
    let stripped = const_name.subrange(prefix.len() as int, const_name.len() as int);
    if stripped.len() > 0 && decimal_digit(stripped[0]) {
        upper_of(group_name) + stripped
    } else {
        stripped
    }
}

/// The 32-bit signed range, which unclaimed constants must fit to be kept.
pub open spec fn fits_i32(v: i64) -> bool {
    i32::MIN <= v <= i32::MAX
}

/// Inserting a variant at a position before which its value does not occur
/// records its name at its value and leaves every other value's entry as
/// it was.
proof fn lemma_value_of_insert(s: Seq<Variant>, p: int, x: Variant)
    requires
        0 <= p <= s.len(),
        forall|j: int| 0 <= j < p ==> s[j].value != x.value,
    ensures
        value_of(s.insert(p, x), x.value) == Some(x.name@),
        forall|v: i64| v != x.value ==> value_of(s.insert(p, x), v) == value_of(s, v),
    decreases p,
{
    let t = s.insert(p, x);
    if p == 0 {
        assert(t[0] == x);
        assert(t.drop_first() =~= s);
    } else {
        assert(t[0] == s[0]);
        assert(s[0].value != x.value);
        assert(t.drop_first() =~= s.drop_first().insert(p - 1, x));
        assert forall|j: int| 0 <= j < p - 1 implies s.drop_first()[j].value != x.value by {
            assert(s.drop_first()[j] == s[j + 1]);
        }
        lemma_value_of_insert(s.drop_first(), p - 1, x);
    }
    assert forall|v: i64| v != x.value implies value_of(t, v) == value_of(s, v) by {
        if p == 0 {
            assert(value_of(t, v) == value_of(t.drop_first(), v));
        } else {
            if s[0].value == v {
                assert(value_of(t, v) == Some(t[0].name@));
                assert(value_of(s, v) == Some(s[0].name@));
            } else {
                assert(value_of(t, v) == value_of(t.drop_first(), v));
                assert(value_of(s, v) == value_of(s.drop_first(), v));
            }
        }
    }
}

/// Replacing the variant that holds a value records the new name at that
/// value and leaves every other value's entry as it was.
proof fn lemma_value_of_update(s: Seq<Variant>, p: int, x: Variant)
    requires
        0 <= p < s.len(),
        s[p].value == x.value,
        forall|j: int| 0 <= j < p ==> s[j].value != x.value,
    ensures
        value_of(s.update(p, x), x.value) == Some(x.name@),
        forall|v: i64| v != x.value ==> value_of(s.update(p, x), v) == value_of(s, v),
    decreases p,
{
    let t = s.update(p, x);
    if p == 0 {
        assert(t[0] == x);
        assert(t.drop_first() =~= s.drop_first());
        assert(s[0].value == x.value);
    } else {
        assert(t[0] == s[0]);
        assert(s[0].value != x.value);
        assert(t.drop_first() =~= s.drop_first().update(p - 1, x));
        assert forall|j: int| 0 <= j < p - 1 implies s.drop_first()[j].value != x.value by {
            assert(s.drop_first()[j] == s[j + 1]);
        }
        lemma_value_of_update(s.drop_first(), p - 1, x);
    }
    assert forall|v: i64| v != x.value implies value_of(t, v) == value_of(s, v) by {
        if p == 0 {
            assert(value_of(t, v) == value_of(t.drop_first(), v));
            assert(value_of(s, v) == value_of(s.drop_first(), v));
        } else {
            if s[0].value == v {
                assert(value_of(t, v) == Some(t[0].name@));
                assert(value_of(s, v) == Some(s[0].name@));
            } else {
                assert(value_of(t, v) == value_of(t.drop_first(), v));
                assert(value_of(s, v) == value_of(s.drop_first(), v));
            }
        }
    }
}

/// Inserts `(value, name)` into a sorted variant table, overwriting the
/// name already recorded at `value` if there is one.
fn table_insert(table: &mut Vec<Variant>, value: i64, name: String)
    requires
        table_sorted(old(table)@),
    ensures
        table_sorted(final(table)@),
        value_of(final(table)@, value) == Some(name@),
        forall|v: i64| v != value ==> value_of(final(table)@, v) == value_of(old(table)@, v),
{
    let ghost s = table@;
    let mut i: usize = 0;
    while i < table.len() && table[i].value < value
        invariant
            0 <= i <= table@.len(),
            table@ == s,
            forall|j: int| 0 <= j < i ==> table@[j].value < value,
        decreases table@.len() - i,
    {
        i = i + 1;
    }
    let x = Variant { value, name };
    if i < table.len() && table[i].value == value {
        table.remove(i);
        table.insert(i, x);
        proof {
            assert(table@ =~= s.update(i as int, x));
            lemma_value_of_update(s, i as int, x);
        }
    } else {
        table.insert(i, x);
        proof {
            assert(forall|j: int| i <= j < s.len() ==> s[j].value > value);
            lemma_value_of_insert(s, i as int, x);
        }
    }
}

/// `first_match` returns the least index whose rule claims the name, and
/// `None` exactly when no rule does.
pub proof fn lemma_first_match_props(groups: Seq<GroupEntry>, name: Seq<char>)
    ensures
        match first_match(groups, name) {
            Some(i) => 0 <= i < groups.len() && rule_matches(groups[i].prefix@, name) && forall|
                j: int,
            | 0 <= j < i ==> !rule_matches(groups[j].prefix@, name),
            None => forall|j: int|
                0 <= j < groups.len() ==> !rule_matches(groups[j].prefix@, name),
        },
    decreases groups.len(),
{
    if groups.len() > 0 && !rule_matches(groups[0].prefix@, name) {
        lemma_first_match_props(groups.drop_first(), name);
        assert(forall|j: int|
            1 <= j < groups.len() ==> groups[j] == groups.drop_first()[j - 1]);
    }
}

/// The constant classifier and enum generator: the registered rules in
/// lexicographic prefix order, each with the group it has collected.
pub struct Generator {
    groups: Vec<GroupEntry>,
}

impl Generator {
    /// The rules and their groups, in lexicographic prefix order.
    pub closed spec fn model(&self) -> Seq<GroupEntry> {
        self.groups@
    }

    /// Well-formed: rule prefixes strictly ascending in lexicographic
    /// order, and every variant table strictly ascending by value.
    pub open spec fn wf(&self) -> bool {
        &&& forall|i: int, j: int|
            0 <= i < j < self.model().len() ==> lex_lt(
                self.model()[i].prefix@,
                self.model()[j].prefix@,
            )
        &&& forall|k: int| 0 <= k < self.model().len() ==> table_sorted(
            #[trigger] self.model()[k].variants@,
        )
    }

    /// A generator with no rules registered.
    pub fn new() -> (g: Self)
        ensures
            g.wf(),
            g.model().len() == 0,
    {
        Generator { groups: Vec::new() }
    }

    /// How many rules are registered.
    pub fn rule_count(&self) -> (n: usize)
        ensures
            n == self.model().len(),
    {
        self.groups.len()
    }

    /// The prefix of the rule at `i`, in rule order.
    pub fn rule_prefix(&self, i: usize) -> (r: &String)
        requires
            i < self.model().len(),
        ensures
            r@ == self.model()[i as int].prefix@,
    {
        &self.groups[i].prefix
    }

    /// The group name of the rule at `i`, in rule order.
    pub fn rule_group_name(&self, i: usize) -> (r: &String)
        requires
            i < self.model().len(),
        ensures
            r@ == self.model()[i as int].name@,
    {
        &self.groups[i].name
    }

    /// Registers the rule that claims constants whose name begins with
    /// `prefix` for the enumeration group `name`, generated with `width`
    /// discriminants. A rule already registered for the same prefix is
    /// replaced, and its collected variants are discarded.
    pub fn add_rule(&mut self, prefix: String, name: String, width: IntWidth)
        requires
            old(self).wf(),
        ensures
            final(self).wf(),
            ({
                let m = final(self).model();
                let o = old(self).model();
                exists|p: int|
                    #![auto]
                    {
                        &&& 0 <= p < m.len()
                        &&& m[p].prefix@ == prefix@
                        &&& m[p].name@ == name@
                        &&& m[p].width == width
                        &&& m[p].variants@.len() == 0
                        &&& if exists|q: int| 0 <= q < o.len() && o[q].prefix@ == prefix@ {
                            p < o.len() && o[p].prefix@ == prefix@ && m == o.update(p, m[p])
                        } else {
                            m == o.insert(p, m[p])
                        }
                    }
            }),
    {
        let ghost o = self.groups@;
        let entry = GroupEntry { prefix, name, width, variants: Vec::new() };
        let mut i: usize = 0;
        while i < self.groups.len() && str_lex_lt(self.groups[i].prefix.as_str(), entry.prefix.as_str())
            invariant
                0 <= i <= self.groups@.len(),
                self.groups@ == o,
                entry.prefix@ == prefix@,
                forall|j: int| 0 <= j < i ==> lex_lt(o[j].prefix@, prefix@),
            decreases self.groups@.len() - i,
        {
            i = i + 1;
        }
        proof {
            assert forall|j: int| 0 <= j < i implies o[j].prefix@ != prefix@ by {
                if o[j].prefix@ == prefix@ {
                    lemma_lex_lt_irrefl(prefix@);
                }
            }
        }
        if i < self.groups.len() && self.groups[i].prefix == entry.prefix {
            proof {
                assert(o[i as int].prefix@ == prefix@);
            }
            self.groups.remove(i);
            self.groups.insert(i, entry);
            proof {
                let m = self.groups@;
                assert(m =~= o.update(i as int, m[i as int]));
                assert forall|a: int, b: int| 0 <= a < b < m.len() implies lex_lt(
                    m[a].prefix@,
                    m[b].prefix@,
                ) by {
                    assert(m[a].prefix@ == o[a].prefix@);
                    assert(m[b].prefix@ == o[b].prefix@);
                }
            }
        } else {
            proof {
                if i < o.len() {
                    assert(!lex_lt(o[i as int].prefix@, prefix@));
                    assert(o[i as int].prefix@ != prefix@);
                    lemma_lex_lt_total(prefix@, o[i as int].prefix@);
                    assert(lex_lt(prefix@, o[i as int].prefix@));
                }
                assert forall|j: int| i <= j < o.len() implies lex_lt(prefix@, o[j].prefix@) by {
                    if j > i {
                        lemma_lex_lt_trans(prefix@, o[i as int].prefix@, o[j].prefix@);
                    }
                }
            }
            self.groups.insert(i, entry);
            proof {
                let m = self.groups@;
                o.insert_ensures(i as int, m[i as int]);
                assert(m == o.insert(i as int, m[i as int]));
                assert forall|q: int| 0 <= q < o.len() implies o[q].prefix@ != prefix@ by {
                    if q < i {
                        if o[q].prefix@ == prefix@ {
                            lemma_lex_lt_irrefl(prefix@);
                        }
                    } else {
                        if o[q].prefix@ == prefix@ {
                            lemma_lex_lt_irrefl(prefix@);
                        }
                    }
                }
                assert forall|a: int, b: int| 0 <= a < b < m.len() implies lex_lt(
                    m[a].prefix@,
                    m[b].prefix@,
                ) by {
                    if a < i && b < i {
                        assert(m[a] == o[a] && m[b] == o[b]);
                    } else if a < i && b == i {
                        assert(m[a] == o[a]);
                    } else if a < i && b > i {
                        assert(m[a] == o[a] && m[b] == o[b - 1]);
                    } else if a == i {
                        assert(m[b] == o[b - 1]);
                    } else {
                        assert(m[a] == o[a - 1] && m[b] == o[b - 1]);
                    }
                }
                assert forall|k: int| 0 <= k < m.len() implies table_sorted(
                    #[trigger] m[k].variants@,
                ) by {
                    if k < i {
                        assert(m[k] == o[k]);
                    } else if k > i {
                        assert(m[k] == o[k - 1]);
                    }
                }
            }
        }
    }

    /// The index of the first rule in rule order that claims `const_name`,
    /// or `None` when no rule does.
    fn find_rule(&self, const_name: &str) -> (r: Option<usize>)
        ensures
            match r {
                Some(i) => first_match(self.model(), const_name@) == Some(i as int),
                None => first_match(self.model(), const_name@) is None,
            },
    {
        let n = self.groups.len();
        let mut i: usize = 0;
        while i < n
            invariant
                0 <= i <= n,
                n == self.model().len(),
                forall|j: int| 0 <= j < i ==> !rule_matches(self.model()[j].prefix@, const_name@),
            decreases n - i,
        {
            if !self.groups[i].prefix.as_str().is_empty() && str_is_prefix(
                self.groups[i].prefix.as_str(),
                const_name,
            ) {
                proof {
                    assert(rule_matches(self.model()[i as int].prefix@, const_name@));
                    lemma_first_match_props(self.model(), const_name@);
                    match first_match(self.model(), const_name@) {
                        Some(k) => {
                            if k < i {
                                assert(!rule_matches(self.model()[k].prefix@, const_name@));
                            } else if k > i {
                                assert(!rule_matches(self.model()[i as int].prefix@, const_name@));
                            }
                        },
                        None => {
                            assert(!rule_matches(self.model()[i as int].prefix@, const_name@));
                        },
                    }
                }
                return Some(i);
            }
            i = i + 1;
        }
        proof {
            lemma_first_match_props(self.model(), const_name@);
            match first_match(self.model(), const_name@) {
                Some(k) => {
                    assert(!rule_matches(self.model()[k].prefix@, const_name@));
                },
                None => {},
            }
        }
        None
    }

    /// Classifies one discovered constant. The first rule in rule order
    /// whose prefix claims the constant's name records a variant for it,
    /// overwriting any variant already recorded at the same value; a
    /// constant no rule claims is passed through as a plain 32-bit signed
    /// value when it fits, and left unclassified otherwise.
    pub fn classify(&mut self, const_name: &str, value: i64) -> (r: ConstantClass)
        requires
            old(self).wf(),
        ensures
            final(self).wf(),
            ({
                let o = old(self).model();
                let m = final(self).model();
                match first_match(o, const_name@) {
                    Some(i) => {
                        &&& r == ConstantClass::Grouped(i as usize)
                        &&& m.len() == o.len()
                        &&& forall|j: int| 0 <= j < o.len() && j != i ==> m[j] == o[j]
                        &&& m[i].prefix == o[i].prefix
                        &&& m[i].name == o[i].name
                        &&& m[i].width == o[i].width
                        &&& value_of(m[i].variants@, value) == Some(
                            spec_variant_name(o[i].name@, o[i].prefix@, const_name@),
                        )
                        &&& forall|v: i64|
                            v != value ==> value_of(m[i].variants@, v) == value_of(
                                o[i].variants@,
                                v,
                            )
                    },
                    None => {
                        &&& m == o
                        &&& r == if fits_i32(value) {
                            ConstantClass::Plain
                        } else {
                            ConstantClass::Unclassified
                        }
                    },
                }
            }),
    {
        let ghost o = self.groups@;
        match self.find_rule(const_name) {
            Some(i) => {
                proof {
                    lemma_first_match_props(o, const_name@);
                }
                let mut entry = self.groups.remove(i);
                let vname = variant_name(
                    entry.name.as_str(),
                    entry.prefix.as_str(),
                    const_name,
                );
                table_insert(&mut entry.variants, value, vname);
                self.groups.insert(i, entry);
                proof {
                    let m = self.groups@;
                    assert(m =~= o.update(i as int, m[i as int]));
                    assert forall|a: int, b: int| 0 <= a < b < m.len() implies lex_lt(
                        m[a].prefix@,
                        m[b].prefix@,
                    ) by {
                        assert(m[a].prefix@ == o[a].prefix@);
                        assert(m[b].prefix@ == o[b].prefix@);
                    }
                }
                ConstantClass::Grouped(i)
            },
            None => {
                if value >= i32::MIN as i64 && value <= i32::MAX as i64 {
                    ConstantClass::Plain
                } else {
                    ConstantClass::Unclassified
                }
            },
        }
    }
}

/// `out` is exactly the emission of the groups `gs`: one enumeration per
/// group with at least one variant, in rule order, carrying the group's
/// name, width and variant table.
pub open spec fn emission_ok(gs: Seq<GroupEntry>, out: Seq<GeneratedEnum>) -> bool
    decreases gs.len(),
{
    if gs.len() == 0 {
        out.len() == 0
    } else if gs[0].variants@.len() > 0 {
        &&& out.len() > 0
        &&& out[0].name@ == gs[0].name@
        &&& out[0].width == gs[0].width
        &&& out[0].variants@ == gs[0].variants@
        &&& emission_ok(gs.drop_first(), out.drop_first())
    } else {
        emission_ok(gs.drop_first(), out)
    }
}

proof fn lemma_emission_push_nonempty(
    gs: Seq<GroupEntry>,
    out: Seq<GeneratedEnum>,
    g: GroupEntry,
    e: GeneratedEnum,
)
    requires
        emission_ok(gs, out),
        g.variants@.len() > 0,
        e.name@ == g.name@,
        e.width == g.width,
        e.variants@ == g.variants@,
    ensures
        emission_ok(gs.push(g), out.push(e)),
    decreases gs.len(),
{
    if gs.len() == 0 {
        assert(gs.push(g)[0] == g);
        assert(out.len() == 0);
        assert(out.push(e)[0] == e);
        assert(gs.push(g).drop_first() =~= Seq::<GroupEntry>::empty());
        assert(out.push(e).drop_first() =~= Seq::<GeneratedEnum>::empty());
        assert(emission_ok(Seq::<GroupEntry>::empty(), Seq::<GeneratedEnum>::empty()));
        assert(emission_ok(gs.push(g).drop_first(), out.push(e).drop_first()));
    } else if gs[0].variants@.len() > 0 {
        assert(gs.push(g)[0] == gs[0]);
        assert(out.len() > 0);
        assert(out.push(e)[0] == out[0]);
        assert(gs.push(g).drop_first() =~= gs.drop_first().push(g));
        assert(out.push(e).drop_first() =~= out.drop_first().push(e));
        lemma_emission_push_nonempty(gs.drop_first(), out.drop_first(), g, e);
        assert(emission_ok(gs.push(g).drop_first(), out.push(e).drop_first()));
    } else {
        assert(gs.push(g)[0] == gs[0]);
        assert(gs.push(g).drop_first() =~= gs.drop_first().push(g));
        lemma_emission_push_nonempty(gs.drop_first(), out, g, e);
        assert(emission_ok(gs.push(g).drop_first(), out.push(e)));
    }
}

proof fn lemma_emission_push_empty(gs: Seq<GroupEntry>, out: Seq<GeneratedEnum>, g: GroupEntry)
    requires
        emission_ok(gs, out),
        g.variants@.len() == 0,
    ensures
        emission_ok(gs.push(g), out),
    decreases gs.len(),
{
    if gs.len() == 0 {
        assert(gs.push(g)[0] == g);
        assert(out.len() == 0);
        assert(gs.push(g).drop_first() =~= Seq::<GroupEntry>::empty());
        assert(emission_ok(Seq::<GroupEntry>::empty(), out));
        assert(emission_ok(gs.push(g).drop_first(), out));
    } else if gs[0].variants@.len() > 0 {
        assert(gs.push(g)[0] == gs[0]);
        assert(gs.push(g).drop_first() =~= gs.drop_first().push(g));
        lemma_emission_push_empty(gs.drop_first(), out.drop_first(), g);
        assert(emission_ok(gs.push(g).drop_first(), out.drop_first()));
    } else {
        assert(gs.push(g)[0] == gs[0]);
        assert(gs.push(g).drop_first() =~= gs.drop_first().push(g));
        lemma_emission_push_empty(gs.drop_first(), out, g);
        assert(emission_ok(gs.push(g).drop_first(), out));
    }
}

/// A copy of a variant table, element for element.
fn clone_variants(v: &Vec<Variant>) -> (r: Vec<Variant>)
    ensures
        r@ == v@,
{
    let mut r: Vec<Variant> = Vec::new();
    let mut i: usize = 0;
    while i < v.len()
        invariant
            0 <= i <= v@.len(),
            r@ == v@.take(i as int),
        decreases v@.len() - i,
    {
        r.push(Variant { value: v[i].value, name: v[i].name.clone() });
        proof {
            assert(r@ =~= v@.take(i as int + 1));
        }
        i = i + 1;
    }
    proof {
        assert(v@.take(v@.len() as int) =~= v@);
    }
    r
}

impl Generator {
    /// Emits one enumeration per group that has collected at least one
    /// variant, in rule order; within each enumeration the variants come
    /// in strictly ascending value order.
    pub fn emit(&self) -> (r: Vec<GeneratedEnum>)
        requires
            self.wf(),
        ensures
            emission_ok(self.model(), r@),
            forall|k: int| 0 <= k < r@.len() ==> table_sorted(#[trigger] r@[k].variants@),
    {
        let mut out: Vec<GeneratedEnum> = Vec::new();
        let n = self.groups.len();
        let mut i: usize = 0;
        while i < n
            invariant
                0 <= i <= n,
                n == self.model().len(),
                self.wf(),
                emission_ok(self.model().take(i as int), out@),
                forall|k: int| 0 <= k < out@.len() ==> table_sorted(#[trigger] out@[k].variants@),
            decreases n - i,
        {
            let ghost prev = out@;
            if self.groups[i].variants.len() > 0 {
                let e = GeneratedEnum {
                    name: self.groups[i].name.clone(),
                    width: self.groups[i].width,
                    variants: clone_variants(&self.groups[i].variants),
                };
                out.push(e);
                proof {
                    lemma_emission_push_nonempty(
                        self.model().take(i as int),
                        prev,
                        self.model()[i as int],
                        out@[out@.len() - 1],
                    );
                    assert(self.model().take(i as int + 1) =~= self.model().take(i as int).push(
                        self.model()[i as int],
                    ));
                }
            } else {
                proof {
                    lemma_emission_push_empty(
                        self.model().take(i as int),
                        prev,
                        self.model()[i as int],
                    );
                    assert(self.model().take(i as int + 1) =~= self.model().take(i as int).push(
                        self.model()[i as int],
                    ));
                }
            }
            i = i + 1;
        }
        proof {
            assert(self.model().take(n as int) =~= self.model());
        }
        out
    }
}

/// Within a sorted variant table the discriminant values are unique, so
/// every emitted enumeration binds each value to exactly one variant.
pub proof fn lemma_sorted_values_unique(s: Seq<Variant>)
    requires
        table_sorted(s),
    ensures
        forall|i: int, j: int|
            0 <= i < s.len() && 0 <= j < s.len() && i != j ==> s[i].value != s[j].value,
{
}

/// A constant a rule has claimed reaches the emitted output: the
/// enumeration emitted for that rule's group carries the group's name and
/// records the same variant name at the constant's value.
pub proof fn lemma_claimed_constant_emitted(
    gs: Seq<GroupEntry>,
    out: Seq<GeneratedEnum>,
    i: int,
    value: i64,
)
    requires
        emission_ok(gs, out),
        0 <= i < gs.len(),
        value_of(gs[i].variants@, value) is Some,
    ensures
        exists|k: int|
            #![auto]
            0 <= k < out.len() && out[k].name@ == gs[i].name@ && value_of(out[k].variants@, value)
                == value_of(gs[i].variants@, value),
    decreases gs.len(),
{
    if i == 0 {
        assert(gs[0].variants@.len() > 0);
        assert(0 <= 0 < out.len() && out[0].name@ == gs[0].name@ && value_of(
            out[0].variants@,
            value,
        ) == value_of(gs[0].variants@, value));
    } else {
        assert(gs.drop_first()[i - 1] == gs[i]);
        if gs[0].variants@.len() > 0 {
            lemma_claimed_constant_emitted(gs.drop_first(), out.drop_first(), i - 1, value);
            let kp = choose|kp: int|
                #![auto]
                0 <= kp < out.drop_first().len() && out.drop_first()[kp].name@
                    == gs.drop_first()[i - 1].name@ && value_of(
                    out.drop_first()[kp].variants@,
                    value,
                ) == value_of(gs.drop_first()[i - 1].variants@, value);
            assert(out.drop_first()[kp] == out[kp + 1]);
            assert(0 <= kp + 1 < out.len() && out[kp + 1].name@ == gs[i].name@ && value_of(
                out[kp + 1].variants@,
                value,
            ) == value_of(gs[i].variants@, value));
        } else {
            lemma_claimed_constant_emitted(gs.drop_first(), out, i - 1, value);
        }
    }
}

/// When exactly one rule claims a constant's name, that rule is the one
/// the classifier records the constant under.
pub proof fn lemma_sole_matching_rule_wins(g: Generator, name: Seq<char>, j: int)
    requires
        0 <= j < g.model().len(),
        rule_matches(g.model()[j].prefix@, name),
        forall|k: int|
            0 <= k < g.model().len() && k != j ==> !rule_matches(g.model()[k].prefix@, name),
    ensures
        first_match(g.model(), name) == Some(j),
{
    lemma_first_match_props(g.model(), name);
    match first_match(g.model(), name) {
        Some(i) => {
            if i != j {
                assert(!rule_matches(g.model()[i].prefix@, name));
            }
        },
        None => {
            assert(!rule_matches(g.model()[j].prefix@, name));
        },
    }
}

/// Among the rules whose prefix claims a constant's name, the rule whose
/// prefix sorts first lexicographically is the one that wins.
pub proof fn lemma_lex_least_prefix_wins(g: Generator, name: Seq<char>, j: int)
    requires
        g.wf(),
        0 <= j < g.model().len(),
        rule_matches(g.model()[j].prefix@, name),
    ensures
        exists|i: int|
            #![auto]
            first_match(g.model(), name) == Some(i) && 0 <= i < g.model().len() && rule_matches(
                g.model()[i].prefix@,
                name,
            ) && (i == j || lex_lt(g.model()[i].prefix@, g.model()[j].prefix@)),
{
    lemma_first_match_props(g.model(), name);
    match first_match(g.model(), name) {
        Some(i) => {
            if i > j {
                assert(!rule_matches(g.model()[j].prefix@, name));
            }
            assert(first_match(g.model(), name) == Some(i) && 0 <= i < g.model().len()
                && rule_matches(g.model()[i].prefix@, name) && (i == j || lex_lt(
                g.model()[i].prefix@,
                g.model()[j].prefix@,
            )));
        },
        None => {
            assert(!rule_matches(g.model()[j].prefix@, name));
        },
    }
}

/// The variant name derived from a claimed constant's name.
fn variant_name(group_name: &str, prefix: &str, const_name: &str) -> (r: String)
    requires
        prefix@.len() <= const_name@.len(),
    ensures
        r@ == spec_variant_name(group_name@, prefix@, const_name@),
{
    let plen = prefix.unicode_len();
    let nlen = const_name.unicode_len();
    let stripped = const_name.substring_char(plen, nlen);
    if plen < nlen {
        let c = stripped.get_char(0);
        if (c as u32) >= 48 && (c as u32) <= 57 {
            let up = to_upper(group_name);
            return up.concat(stripped);
        }
    }
    stripped.to_owned()
}

} // verus!
