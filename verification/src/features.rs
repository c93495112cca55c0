//! Target features: which ones a target enables, given its own feature list
//! and the `-C target-feature` flag.
use crate::{selection, text};
use vstd::prelude::*;
use vstd::string::*;

verus! {

/// A target feature that the compiler knows for the target at hand.
#[derive(Debug)]
pub struct KnownFeature {
    pub name: String,
    /// The features that come with this one.
    pub implied: Vec<String>,
    /// Whether `cfg(target_feature)` may show the feature.
    pub in_cfg: bool,
}

/// What a `KnownFeature` holds, as mathematical values.
#[verifier::ext_equal]
pub struct FeatureView {
    pub name: Seq<char>,
    pub implied: Seq<Seq<char>>,
    pub in_cfg: bool,
}

impl View for KnownFeature {
    type V = FeatureView;

    open spec fn view(&self) -> FeatureView {
        FeatureView {
            name: self.name@,
            implied: text::texts(self.implied@),
            in_cfg: self.in_cfg,
        }
    }
}

/// The known features of a target, as mathematical values.
pub open spec fn feature_table(known: Seq<KnownFeature>) -> Seq<FeatureView> {
    Seq::new(known.len(), |i: int| known[i]@)
}

/// The table holds every known feature at its place, with its own name, all
/// that comes with it, and whether it may be shown.
pub proof fn law_feature_table(known: Seq<KnownFeature>, i: int)
    requires
        0 <= i < known.len(),
    ensures
        feature_table(known).len() == known.len(),
        feature_table(known)[i].name == known[i].name@,
        feature_table(known)[i].in_cfg == known[i].in_cfg,
        feature_table(known)[i].implied.len() == known[i].implied@.len(),
        forall|j: int|
            0 <= j < known[i].implied@.len() ==> #[trigger] feature_table(known)[i].implied[j]
                == known[i].implied@[j]@,
{
}

/// Whether the table lists `b` among the features that come with `a`.
pub open spec fn implies(table: Seq<FeatureView>, a: Seq<char>, b: Seq<char>) -> bool {
    exists|i: int|
        0 <= i < table.len() && (#[trigger] table[i]).name == a && table[i].implied.contains(b)
}

/// Whether `steps` implications in a row lead from `a` to `b`.
pub open spec fn leads_in(
    table: Seq<FeatureView>,
    a: Seq<char>,
    b: Seq<char>,
    steps: nat,
) -> bool
    decreases steps,
{
    if steps == 0 {
        a == b
    } else {
        exists|c: Seq<char>|
            leads_in(table, a, c, (steps - 1) as nat) && #[trigger] implies(table, c, b)
    }
}

/// Whether enabling `a` enables `b`: they are the same feature, or a chain of
/// implications leads from `a` to `b`.
pub open spec fn leads_to(table: Seq<FeatureView>, a: Seq<char>, b: Seq<char>) -> bool {
    exists|steps: nat| leads_in(table, a, b, steps)
}

/// The features after one more item of a feature list. `+f` adds `f` with all
/// that it leads to, `-f` takes away `f` with all that leads to it, and any
/// other item changes nothing.
pub open spec fn after_item(
    table: Seq<FeatureView>,
    on: Set<Seq<char>>,
    item: Seq<char>,
) -> Set<Seq<char>> {
    if item.len() > 0 && item[0] == '+' {
        on.union(Set::new(|g: Seq<char>| leads_to(table, item.skip(1), g)))
    } else if item.len() > 0 && item[0] == '-' {
        on.difference(Set::new(|g: Seq<char>| leads_to(table, g, item.skip(1))))
    } else {
        on
    }
}

/// The features after the first `count` items of a feature list.
pub open spec fn after_items(
    table: Seq<FeatureView>,
    on: Set<Seq<char>>,
    items: Seq<Seq<char>>,
    count: nat,
) -> Set<Seq<char>>
    decreases count,
{
    if count == 0 {
        on
    } else {
        after_item(table, after_items(table, on, items, (count - 1) as nat), items[count - 1])
    }
}

/// The features after a comma-separated feature list.
pub open spec fn after_list(
    table: Seq<FeatureView>,
    on: Set<Seq<char>>,
    list: Seq<char>,
) -> Set<Seq<char>> {
    after_items(table, on, text::pieces(list, ','), text::pieces(list, ',').len())
}

/// The features of a target: those of its own list, changed by the flag.
pub open spec fn enabled_features(
    table: Seq<FeatureView>,
    spec_list: Seq<char>,
    flag_list: Seq<char>,
) -> Set<Seq<char>> {
    after_list(table, after_list(table, Set::empty(), spec_list), flag_list)
}

/// The names of the known features in `on`, in the order of the table; with
/// `cfg_only`, without those that `cfg(target_feature)` may not show.
pub open spec fn reported(
    table: Seq<FeatureView>,
    on: Set<Seq<char>>,
    cfg_only: bool,
) -> Seq<Seq<char>> {
    reported_prefix(table, on, cfg_only, table.len())
}

/// `reported` for the first `count` features of the table.
pub open spec fn reported_prefix(
    table: Seq<FeatureView>,
    on: Set<Seq<char>>,
    cfg_only: bool,
    count: nat,
) -> Seq<Seq<char>>
    decreases count,
{
    if count == 0 {
        Seq::empty()
    } else {
        let before = reported_prefix(table, on, cfg_only, (count - 1) as nat);
        let feature = table[count - 1];
        if on.contains(feature.name) && (!cfg_only || feature.in_cfg) {
            before.push(feature.name)
        } else {
            before
        }
    }
}

/// Whether `marks` tells which known features are in `on`.
spec fn marks_match(marks: Seq<bool>, table: Seq<FeatureView>, on: Set<Seq<char>>) -> bool {
    &&& marks.len() == table.len()
    &&& forall|i: int| 0 <= i < table.len() ==> (#[trigger] marks[i] <==> on.contains(table[i].name))
}

/// Whether a list holds a text.
fn list_contains(list: &Vec<String>, text: &String) -> (res: bool)
    ensures
        res == text::texts(list@).contains(text@),
{
    for i in 0..list.len()
        invariant
            forall|k: int| 0 <= k < i ==> text::texts(list@)[k] != text@,
    {
        if list[i] == *text {
            assert(text::texts(list@)[i as int] == text@);
            return true;
        }
    }
    false
}

/// How many marks are not set.
spec fn unset(marks: Seq<bool>) -> nat
    decreases marks.len(),
{
    if marks.len() == 0 {
        0
    } else {
        unset(marks.drop_last()) + if marks.last() {
            0nat
        } else {
            1nat
        }
    }
}

/// Setting a mark leaves one fewer unset.
proof fn lemma_set_mark(marks: Seq<bool>, i: int)
    requires
        0 <= i < marks.len(),
        !marks[i],
    ensures
        unset(marks.update(i, true)) + 1 == unset(marks),
    decreases marks.len(),
{
    let after = marks.update(i, true);
    if i == marks.len() - 1 {
        assert(after.drop_last() =~= marks.drop_last());
    } else {
        assert(after.drop_last() =~= marks.drop_last().update(i, true));
        lemma_set_mark(marks.drop_last(), i);
    }
}

/// One more implication after a chain is a chain.
proof fn lemma_leads_then_implies(
    table: Seq<FeatureView>,
    a: Seq<char>,
    b: Seq<char>,
    c: Seq<char>,
)
    requires
        leads_to(table, a, b),
        implies(table, b, c),
    ensures
        leads_to(table, a, c),
{
    let steps = choose|steps: nat| leads_in(table, a, b, steps);
    assert(leads_in(table, a, c, steps + 1));
}

/// A chain after a chain is a chain.
proof fn lemma_leads_in_transitive(
    table: Seq<FeatureView>,
    a: Seq<char>,
    b: Seq<char>,
    c: Seq<char>,
    steps: nat,
)
    requires
        leads_to(table, a, b),
        leads_in(table, b, c, steps),
    ensures
        leads_to(table, a, c),
    decreases steps,
{
    if steps > 0 {
        let d = choose|d: Seq<char>|
            leads_in(table, b, d, (steps - 1) as nat) && #[trigger] implies(table, d, c);
        lemma_leads_in_transitive(table, a, b, d, (steps - 1) as nat);
        lemma_leads_then_implies(table, a, d, c);
    }
}

/// Every feature leads to itself, and chains of implications compose.
pub proof fn law_leads_to_preorder(
    table: Seq<FeatureView>,
    a: Seq<char>,
    b: Seq<char>,
    c: Seq<char>,
)
    ensures
        leads_to(table, a, a),
        leads_to(table, a, b) && leads_to(table, b, c) ==> leads_to(table, a, c),
{
    assert(leads_in(table, a, a, 0));
    if leads_to(table, a, b) && leads_to(table, b, c) {
        let steps = choose|steps: nat| leads_in(table, b, c, steps);
        lemma_leads_in_transitive(table, a, b, c, steps);
    }
}

/// Whether a marked feature lists `name` among those that come with it.
spec fn marked_before(table: Seq<FeatureView>, marks: Seq<bool>, name: Seq<char>) -> bool {
    exists|j: int|
        0 <= j < table.len() && #[trigger] marks[j] && table[j].implied.contains(name)
}

/// Whether a marked feature lists the name of the feature at `i` among those
/// that come with it.
fn is_marked_before(known: &Vec<KnownFeature>, marks: &Vec<bool>, i: usize) -> (res: bool)
    requires
        marks.len() == known.len(),
        i < known.len(),
    ensures
        res == marked_before(feature_table(known@), marks@, known@[i as int].name@),
{
    let ghost table = feature_table(known@);
    for j in 0..known.len()
        invariant
            marks.len() == known.len(),
            i < known.len(),
            table == feature_table(known@),
            forall|k: int|
                0 <= k < j ==> !(#[trigger] marks[k] && table[k].implied.contains(table[i as int].name)),
    {
        if marks[j] && list_contains(&known[j].implied, &known[i].name) {
            assert(marks@[j as int] && table[j as int].implied.contains(table[i as int].name));
            return true;
        }
    }
    false
}

/// Marks that hold the features named `from`, and every feature that comes
/// with a marked one, hold all that `from` leads to.
proof fn lemma_closed_after(
    table: Seq<FeatureView>,
    marks: Seq<bool>,
    from: Seq<char>,
    i: int,
    steps: nat,
)
    requires
        marks.len() == table.len(),
        0 <= i < table.len(),
        forall|k: int| 0 <= k < table.len() && (#[trigger] table[k]).name == from ==> marks[k],
        forall|k: int|
            0 <= k < table.len() && marked_before(table, marks, (#[trigger] table[k]).name)
                ==> marks[k],
        leads_in(table, from, table[i].name, steps),
    ensures
        marks[i],
    decreases steps,
{
    if steps > 0 {
        let c = choose|c: Seq<char>|
            leads_in(table, from, c, (steps - 1) as nat) && #[trigger] implies(
                table,
                c,
                table[i].name,
            );
        let j = choose|j: int|
            0 <= j < table.len() && (#[trigger] table[j]).name == c && table[j].implied.contains(
                table[i].name,
            );
        lemma_closed_after(table, marks, from, j, (steps - 1) as nat);
        assert(marks[j] && table[j].implied.contains(table[i].name));
    }
}

/// Marks the known features that `from` leads to.
fn mark_after(known: &Vec<KnownFeature>, from: &String) -> (res: Vec<bool>)
    ensures
        marks_match(
            res@,
            feature_table(known@),
            Set::new(|g: Seq<char>| leads_to(feature_table(known@), from@, g)),
        ),
{
    let ghost table = feature_table(known@);
    let mut marks: Vec<bool> = Vec::new();
    for i in 0..known.len()
        invariant
            table == feature_table(known@),
            marks.len() == i,
            forall|k: int| 0 <= k < i ==> (#[trigger] marks[k] <==> table[k].name == from@),
    {
        marks.push(known[i].name == *from);
    }
    proof {
        law_leads_to_preorder(table, from@, from@, from@);
    }
    let mut changed = true;
    while changed
        invariant
            table == feature_table(known@),
            marks.len() == known.len(),
            forall|k: int|
                0 <= k < table.len() ==> (#[trigger] marks[k] ==> leads_to(
                    table,
                    from@,
                    table[k].name,
                )),
            forall|k: int| 0 <= k < table.len() && (#[trigger] table[k]).name == from@ ==> marks[k],
            !changed ==> forall|k: int|
                0 <= k < table.len() && marked_before(table, marks@, (#[trigger] table[k]).name)
                    ==> marks[k],
        decreases unset(marks@) + if changed { 1nat } else { 0nat },
    {
        changed = false;
        let ghost before = marks@;
        for i in 0..known.len()
            invariant
                table == feature_table(known@),
                marks.len() == known.len(),
                forall|k: int|
                    0 <= k < table.len() ==> (#[trigger] marks[k] ==> leads_to(
                        table,
                        from@,
                        table[k].name,
                    )),
                forall|k: int|
                    0 <= k < table.len() && (#[trigger] table[k]).name == from@ ==> marks[k],
                changed ==> unset(marks@) < unset(before),
                !changed ==> marks@ == before,
                !changed ==> forall|k: int|
                    0 <= k < i && marked_before(table, marks@, (#[trigger] table[k]).name)
                        ==> marks[k],
        {
            if !marks[i] && is_marked_before(known, &marks, i) {
                proof {
                    let j = choose|j: int|
                        0 <= j < table.len() && #[trigger] marks@[j] && table[j].implied.contains(
                            table[i as int].name,
                        );
                    assert(implies(table, table[j].name, table[i as int].name));
                    lemma_leads_then_implies(table, from@, table[j].name, table[i as int].name);
                    lemma_set_mark(marks@, i as int);
                }
                marks.set(i, true);
                changed = true;
            }
        }
    }
    assert forall|i: int| 0 <= i < table.len() && leads_to(table, from@, table[i].name) implies (
    #[trigger] marks@[i]) by {
        let steps = choose|steps: nat| leads_in(table, from@, table[i].name, steps);
        lemma_closed_after(table, marks@, from@, i, steps);
    }
    marks
}

/// A chain of implications starts with an implication.
proof fn lemma_leads_in_first(table: Seq<FeatureView>, a: Seq<char>, b: Seq<char>, steps: nat)
    requires
        steps > 0,
        leads_in(table, a, b, steps),
    ensures
        exists|c: Seq<char>|
            #[trigger] implies(table, a, c) && leads_in(table, c, b, (steps - 1) as nat),
    decreases steps,
{
    let d = choose|d: Seq<char>|
        leads_in(table, a, d, (steps - 1) as nat) && #[trigger] implies(table, d, b);
    if steps == 1 {
        assert(leads_in(table, b, b, 0));
        assert(implies(table, a, b));
    } else {
        lemma_leads_in_first(table, a, d, (steps - 1) as nat);
        let c = choose|c: Seq<char>|
            #[trigger] implies(table, a, c) && leads_in(table, c, d, (steps - 2) as nat);
        assert(leads_in(table, c, b, (steps - 1) as nat));
    }
}

/// An implication before a chain is a chain.
proof fn lemma_implies_then_leads(
    table: Seq<FeatureView>,
    a: Seq<char>,
    b: Seq<char>,
    c: Seq<char>,
)
    requires
        implies(table, a, b),
        leads_to(table, b, c),
    ensures
        leads_to(table, a, c),
{
    law_leads_to_preorder(table, a, a, a);
    lemma_leads_then_implies(table, a, a, b);
    law_leads_to_preorder(table, a, b, c);
}

/// Whether the feature at `i` comes with `to` or with a marked feature, or
/// shares its name with a marked feature.
spec fn marked_ahead(table: Seq<FeatureView>, marks: Seq<bool>, to: Seq<char>, i: int) -> bool {
    ||| table[i].implied.contains(to)
    ||| exists|j: int|
        0 <= j < table.len() && #[trigger] marks[j] && (table[j].name == table[i].name
            || table[i].implied.contains(table[j].name))
}

/// Whether the feature at `i` comes with `to` or with a marked feature, or
/// shares its name with a marked feature.
fn is_marked_ahead(
    known: &Vec<KnownFeature>,
    marks: &Vec<bool>,
    to: &String,
    i: usize,
) -> (res: bool)
    requires
        marks.len() == known.len(),
        i < known.len(),
    ensures
        res == marked_ahead(feature_table(known@), marks@, to@, i as int),
{
    let ghost table = feature_table(known@);
    if list_contains(&known[i].implied, to) {
        return true;
    }
    for j in 0..known.len()
        invariant
            marks.len() == known.len(),
            i < known.len(),
            table == feature_table(known@),
            forall|k: int|
                0 <= k < j ==> !(#[trigger] marks[k] && (table[k].name == table[i as int].name
                    || table[i as int].implied.contains(table[k].name))),
    {
        if marks[j] && (known[j].name == known[i].name || list_contains(
            &known[i].implied,
            &known[j].name,
        )) {
            assert(marks@[j as int] && (table[j as int].name == table[i as int].name
                || table[i as int].implied.contains(table[j as int].name)));
            return true;
        }
    }
    false
}

/// Marks that hold the features named `to`, and every feature that comes with
/// a marked one or shares its name, hold all that leads to `to`.
proof fn lemma_closed_before(
    table: Seq<FeatureView>,
    marks: Seq<bool>,
    to: Seq<char>,
    i: int,
    steps: nat,
)
    requires
        marks.len() == table.len(),
        0 <= i < table.len(),
        forall|k: int| 0 <= k < table.len() && (#[trigger] table[k]).name == to ==> marks[k],
        forall|k: int|
            0 <= k < table.len() && #[trigger] marked_ahead(table, marks, to, k) ==> marks[k],
        leads_in(table, table[i].name, to, steps),
    ensures
        marks[i],
    decreases steps,
{
    if steps > 0 {
        lemma_leads_in_first(table, table[i].name, to, steps);
        let c = choose|c: Seq<char>|
            #[trigger] implies(table, table[i].name, c) && leads_in(
                table,
                c,
                to,
                (steps - 1) as nat,
            );
        let j = choose|j: int|
            0 <= j < table.len() && (#[trigger] table[j]).name == table[i].name
                && table[j].implied.contains(c);
        if c != to {
            lemma_leads_in_first(table, c, to, (steps - 1) as nat);
            let d = choose|d: Seq<char>|
                #[trigger] implies(table, c, d) && leads_in(table, d, to, (steps - 2) as nat);
            let k = choose|k: int|
                0 <= k < table.len() && (#[trigger] table[k]).name == c
                    && table[k].implied.contains(d);
            lemma_closed_before(table, marks, to, k, (steps - 1) as nat);
            assert(marks[k]);
        }
        assert(marked_ahead(table, marks, to, j));
        assert(marks[j]);
        assert(marked_ahead(table, marks, to, i));
    }
}

/// Marks the known features that lead to `to`.
fn mark_before(known: &Vec<KnownFeature>, to: &String) -> (res: Vec<bool>)
    ensures
        marks_match(
            res@,
            feature_table(known@),
            Set::new(|g: Seq<char>| leads_to(feature_table(known@), g, to@)),
        ),
{
    let ghost table = feature_table(known@);
    let mut marks: Vec<bool> = Vec::new();
    for i in 0..known.len()
        invariant
            table == feature_table(known@),
            marks.len() == i,
            forall|k: int| 0 <= k < i ==> (#[trigger] marks[k] <==> table[k].name == to@),
    {
        marks.push(known[i].name == *to);
    }
    proof {
        law_leads_to_preorder(table, to@, to@, to@);
    }
    let mut changed = true;
    while changed
        invariant
            table == feature_table(known@),
            leads_to(table, to@, to@),
            marks.len() == known.len(),
            forall|k: int|
                0 <= k < table.len() ==> (#[trigger] marks[k] ==> leads_to(
                    table,
                    table[k].name,
                    to@,
                )),
            forall|k: int| 0 <= k < table.len() && (#[trigger] table[k]).name == to@ ==> marks[k],
            !changed ==> forall|k: int|
                0 <= k < table.len() && #[trigger] marked_ahead(table, marks@, to@, k) ==> marks[k],
        decreases unset(marks@) + if changed { 1nat } else { 0nat },
    {
        changed = false;
        let ghost before = marks@;
        for i in 0..known.len()
            invariant
                table == feature_table(known@),
                leads_to(table, to@, to@),
                marks.len() == known.len(),
                forall|k: int|
                    0 <= k < table.len() ==> (#[trigger] marks[k] ==> leads_to(
                        table,
                        table[k].name,
                        to@,
                    )),
                forall|k: int|
                    0 <= k < table.len() && (#[trigger] table[k]).name == to@ ==> marks[k],
                changed ==> unset(marks@) < unset(before),
                !changed ==> marks@ == before,
                !changed ==> forall|k: int|
                    0 <= k < i && #[trigger] marked_ahead(table, marks@, to@, k) ==> marks[k],
        {
            if !marks[i] && is_marked_ahead(known, &marks, to, i) {
                proof {
                    let name = table[i as int].name;
                    if table[i as int].implied.contains(to@) {
                        assert(implies(table, name, to@));
                        lemma_implies_then_leads(table, name, to@, to@);
                    } else {
                        let j = choose|j: int|
                            0 <= j < table.len() && #[trigger] marks@[j] && (table[j].name
                                == table[i as int].name || table[i as int].implied.contains(
                                table[j].name,
                            ));
                        if table[j].name != name {
                            assert(implies(table, name, table[j].name));
                            lemma_implies_then_leads(table, name, table[j].name, to@);
                        }
                    }
                    lemma_set_mark(marks@, i as int);
                }
                marks.set(i, true);
                changed = true;
            }
        }
    }
    assert forall|i: int| 0 <= i < table.len() && leads_to(table, table[i].name, to@) implies (
    #[trigger] marks@[i]) by {
        let steps = choose|steps: nat| leads_in(table, table[i].name, to@, steps);
        lemma_closed_before(table, marks@, to@, i, steps);
    }
    marks
}

/// Lets one item of a feature list change which known features are on.
fn apply_item(
    known: &Vec<KnownFeature>,
    marks: &mut Vec<bool>,
    item: &String,
    Ghost(on): Ghost<Set<Seq<char>>>,
)
    requires
        marks_match(old(marks)@, feature_table(known@), on),
    ensures
        marks_match(
            final(marks)@,
            feature_table(known@),
            after_item(feature_table(known@), on, item@),
        ),
{
    let ghost table = feature_table(known@);
    let ghost before = marks@;
    let length = item.as_str().unicode_len();
    if length == 0 {
        return;
    }
    let sign = item.as_str().get_char(0);
    if sign != '+' && sign != '-' {
        return;
    }
    let name = item.as_str().substring_char(1, length).to_owned();
    assert(name@ == item@.skip(1));
    let chosen = if sign == '+' {
        mark_after(known, &name)
    } else {
        mark_before(known, &name)
    };
    for i in 0..known.len()
        invariant
            marks.len() == known.len(),
            chosen.len() == known.len(),
            before.len() == known.len(),
            forall|k: int|
                0 <= k < i ==> #[trigger] marks[k] == if sign == '+' {
                    before[k] || chosen[k]
                } else {
                    before[k] && !chosen[k]
                },
            forall|k: int| i <= k < known.len() ==> #[trigger] marks[k] == before[k],
    {
        if chosen[i] {
            marks.set(i, sign == '+');
        }
    }
    assert forall|i: int| 0 <= i < table.len() implies (#[trigger] marks@[i] <==> after_item(
        table,
        on,
        item@,
    ).contains(table[i].name)) by {
        assert(before[i] <==> on.contains(table[i].name));
    }
}

/// Lets a comma-separated feature list change which known features are on.
fn apply_list(
    known: &Vec<KnownFeature>,
    marks: &mut Vec<bool>,
    list: &str,
    Ghost(on): Ghost<Set<Seq<char>>>,
)
    requires
        marks_match(old(marks)@, feature_table(known@), on),
    ensures
        marks_match(
            final(marks)@,
            feature_table(known@),
            after_list(feature_table(known@), on, list@),
        ),
{
    let items = text::split(list, ',');
    for i in 0..items.len()
        invariant
            text::texts(items@) == text::pieces(list@, ','),
            marks_match(
                marks@,
                feature_table(known@),
                after_items(feature_table(known@), on, text::pieces(list@, ','), i as nat),
            ),
    {
        let ghost so_far = after_items(
            feature_table(known@),
            on,
            text::pieces(list@, ','),
            i as nat,
        );
        apply_item(known, marks, &items[i], Ghost(so_far));
    }
}

/// The names of the marked features in the order of the table.
fn report(
    known: &Vec<KnownFeature>,
    marks: &Vec<bool>,
    cfg_only: bool,
    Ghost(on): Ghost<Set<Seq<char>>>,
) -> (res: Vec<String>)
    requires
        marks_match(marks@, feature_table(known@), on),
    ensures
        text::texts(res@) == reported(feature_table(known@), on, cfg_only),
{
    let ghost table = feature_table(known@);
    let mut res: Vec<String> = Vec::new();
    for i in 0..known.len()
        invariant
            table == feature_table(known@),
            marks_match(marks@, table, on),
            text::texts(res@) == reported_prefix(table, on, cfg_only, i as nat),
    {
        let ghost before = text::texts(res@);
        if marks[i] && (!cfg_only || known[i].in_cfg) {
            res.push(known[i].name.clone());
            assert(text::texts(res@) == before.push(known@[i as int].name@));
        }
    }
    res
}

/// Whether a feature is visible: it is meant for `cfg`, and it is not gated or
/// the compiler is a nightly build.
pub open spec fn visible(in_cfg: bool, nightly: bool, gated: bool) -> bool {
    in_cfg && (nightly || !gated)
}

/// What is not meant for `cfg` is never visible; a gate hides a feature from
/// all but nightly builds, and hides nothing from these.
pub proof fn law_visible(in_cfg: bool, nightly: bool, gated: bool)
    ensures
        visible(in_cfg, nightly, gated) ==> in_cfg,
        visible(in_cfg, true, gated) == in_cfg,
        visible(in_cfg, nightly, false) == in_cfg,
        !visible(in_cfg, false, true),
{
}

/// Whether `cfg(target_feature)` may show a feature: it is meant for `cfg`, and
/// it is not gated or the compiler is a nightly build.
pub fn shown_in_cfg(in_cfg: bool, nightly: bool, gated: bool) -> (res: bool)
    ensures
        res == visible(in_cfg, nightly, gated),
{
    in_cfg && (nightly || !gated)
}

/// Whether `shown` and `all` are the known features that a target enables:
/// those that `cfg(target_feature)` may show, and all of them.
pub open spec fn lists_features(
    table: Seq<FeatureView>,
    spec_list: Seq<char>,
    flag_list: Seq<char>,
    shown: Seq<Seq<char>>,
    all: Seq<Seq<char>>,
) -> bool {
    let on = enabled_features(table, spec_list, flag_list);
    &&& shown == reported(table, on, true)
    &&& all == reported(table, on, false)
}

/// The features that a target enables, as the compiler's configuration lists
/// them: first those that `cfg(target_feature)` may show, then all of them.
pub fn target_features(
    known: &Vec<KnownFeature>,
    spec_list: &str,
    flag_list: &str,
) -> (res: (Vec<String>, Vec<String>))
    ensures
        lists_features(
            feature_table(known@),
            spec_list@,
            flag_list@,
            text::texts(res.0@),
            text::texts(res.1@),
        ),
{
    let ghost table = feature_table(known@);
    let mut marks: Vec<bool> = Vec::new();
    for i in 0..known.len()
        invariant
            marks.len() == i,
            forall|k: int| 0 <= k < i ==> !#[trigger] marks[k],
    {
        marks.push(false);
    }
    let ghost none = Set::<Seq<char>>::empty();
    assert(marks_match(marks@, table, none));
    apply_list(known, &mut marks, spec_list, Ghost(none));
    let ghost base = after_list(table, none, spec_list@);
    apply_list(known, &mut marks, flag_list, Ghost(base));
    let ghost on = enabled_features(table, spec_list@, flag_list@);
    let cfg = report(known, &marks, true, Ghost(on));
    let all = report(known, &marks, false, Ghost(on));
    (cfg, all)
}

/// Whether a set of features holds all that its members lead to.
pub open spec fn closed_under_implication(table: Seq<FeatureView>, on: Set<Seq<char>>) -> bool {
    forall|a: Seq<char>, b: Seq<char>|
        on.contains(a) && #[trigger] leads_to(table, a, b) ==> on.contains(b)
}

/// A feature list keeps a set of features closed under implication.
proof fn lemma_items_keep_closed(
    table: Seq<FeatureView>,
    on: Set<Seq<char>>,
    items: Seq<Seq<char>>,
    count: nat,
)
    requires
        closed_under_implication(table, on),
    ensures
        closed_under_implication(table, after_items(table, on, items, count)),
    decreases count,
{
    if count > 0 {
        let before = after_items(table, on, items, (count - 1) as nat);
        let item = items[count - 1];
        lemma_items_keep_closed(table, on, items, (count - 1) as nat);
        let after = after_item(table, before, item);
        assert forall|a: Seq<char>, b: Seq<char>|
            after.contains(a) && #[trigger] leads_to(table, a, b) implies after.contains(b) by {
            if item.len() > 0 && item[0] == '+' {
                law_leads_to_preorder(table, item.skip(1), a, b);
            } else if item.len() > 0 && item[0] == '-' {
                law_leads_to_preorder(table, a, b, item.skip(1));
            }
        }
    }
}

/// An enabled feature comes with everything that it leads to.
pub proof fn law_enabled_features_closed(
    table: Seq<FeatureView>,
    spec_list: Seq<char>,
    flag_list: Seq<char>,
)
    ensures
        closed_under_implication(table, enabled_features(table, spec_list, flag_list)),
{
    let base = after_list(table, Set::empty(), spec_list);
    lemma_items_keep_closed(
        table,
        Set::empty(),
        text::pieces(spec_list, ','),
        text::pieces(spec_list, ',').len(),
    );
    lemma_items_keep_closed(
        table,
        base,
        text::pieces(flag_list, ','),
        text::pieces(flag_list, ',').len(),
    );
}

/// Whether none of the items from `from` on takes away a feature that `f`
/// leads to.
pub open spec fn untouched(
    table: Seq<FeatureView>,
    items: Seq<Seq<char>>,
    from: int,
    f: Seq<char>,
) -> bool {
    forall|k: int|
        from <= k < items.len() && (#[trigger] items[k]).len() > 0 && items[k][0] == '-'
            ==> !leads_to(table, f, items[k].skip(1))
}

/// What `f` leads to stays on where no item takes it away.
proof fn lemma_stays_on(
    table: Seq<FeatureView>,
    on: Set<Seq<char>>,
    items: Seq<Seq<char>>,
    from: nat,
    count: nat,
    f: Seq<char>,
)
    requires
        from <= count <= items.len(),
        untouched(table, items, from as int, f),
        forall|h: Seq<char>| #[trigger]
            leads_to(table, f, h) ==> after_items(table, on, items, from).contains(h),
    ensures
        forall|h: Seq<char>| #[trigger]
            leads_to(table, f, h) ==> after_items(table, on, items, count).contains(h),
    decreases count,
{
    if count > from {
        lemma_stays_on(table, on, items, from, (count - 1) as nat, f);
        let item = items[count - 1];
        assert forall|h: Seq<char>| #[trigger]
            leads_to(table, f, h) implies after_items(table, on, items, count).contains(h) by {
            if item.len() > 0 && item[0] == '-' {
                law_leads_to_preorder(table, f, h, item.skip(1));
            }
        }
    }
}

/// A feature that the target's own list enables is on, with all that it leads
/// to, unless a later item of that list or the flag takes away something that
/// it leads to.
pub proof fn law_spec_features_enabled(
    table: Seq<FeatureView>,
    spec_list: Seq<char>,
    flag_list: Seq<char>,
    k: int,
    f: Seq<char>,
    h: Seq<char>,
)
    requires
        0 <= k < text::pieces(spec_list, ',').len(),
        text::pieces(spec_list, ',')[k] == seq!['+'] + f,
        untouched(table, text::pieces(spec_list, ','), k + 1, f),
        untouched(table, text::pieces(flag_list, ','), 0, f),
        leads_to(table, f, h),
    ensures
        enabled_features(table, spec_list, flag_list).contains(h),
{
    let items = text::pieces(spec_list, ',');
    let flags = text::pieces(flag_list, ',');
    assert(items[k].skip(1) =~= f);
    lemma_stays_on(table, Set::empty(), items, (k + 1) as nat, items.len(), f);
    let base = after_list(table, Set::empty(), spec_list);
    lemma_stays_on(table, base, flags, 0, flags.len(), f);
}

/// What was taken away stays off where no item brings it back.
proof fn lemma_stays_off(
    table: Seq<FeatureView>,
    on: Set<Seq<char>>,
    items: Seq<Seq<char>>,
    from: nat,
    count: nat,
    f: Seq<char>,
)
    requires
        from <= count <= items.len(),
        forall|k: int|
            from <= k < items.len() && (#[trigger] items[k]).len() > 0 && items[k][0] == '+'
                ==> !leads_to(table, items[k].skip(1), f),
        !after_items(table, on, items, from).contains(f),
    ensures
        !after_items(table, on, items, count).contains(f),
    decreases count,
{
    if count > from {
        lemma_stays_off(table, on, items, from, (count - 1) as nat, f);
    }
}

/// The flag overrides the target's own list: a feature that it takes away is
/// off, unless a later item of the flag brings it back.
pub proof fn law_flag_overrides_spec(
    table: Seq<FeatureView>,
    spec_list: Seq<char>,
    flag_list: Seq<char>,
    k: int,
    f: Seq<char>,
)
    requires
        0 <= k < text::pieces(flag_list, ',').len(),
        text::pieces(flag_list, ',')[k] == seq!['-'] + f,
        forall|j: int|
            k < j < text::pieces(flag_list, ',').len() && (#[trigger] text::pieces(
                flag_list,
                ',',
            )[j]).len() > 0 && text::pieces(flag_list, ',')[j][0] == '+' ==> !leads_to(
                table,
                text::pieces(flag_list, ',')[j].skip(1),
                f,
            ),
    ensures
        !enabled_features(table, spec_list, flag_list).contains(f),
{
    let base = after_list(table, Set::empty(), spec_list);
    let flags = text::pieces(flag_list, ',');
    assert(flags[k].skip(1) =~= f);
    law_leads_to_preorder(table, f, f, f);
    lemma_stays_off(table, base, flags, (k + 1) as nat, flags.len(), f);
}

/// A feature leads to each of those that come with it.
pub proof fn law_leads_to_implied(table: Seq<FeatureView>, i: int, b: Seq<char>)
    requires
        0 <= i < table.len(),
        table[i].implied.contains(b),
    ensures
        leads_to(table, table[i].name, b),
{
    let a = table[i].name;
    law_leads_to_preorder(table, a, a, a);
    assert(implies(table, a, b));
    lemma_leads_then_implies(table, a, a, b);
}

/// A feature leads to nothing that need not come with it: whatever it leads to
/// is in every set that has it and has, with a known feature, those that come
/// with that one.
pub proof fn law_leads_to_nothing_else(
    table: Seq<FeatureView>,
    a: Seq<char>,
    b: Seq<char>,
    closed: Set<Seq<char>>,
)
    requires
        leads_to(table, a, b),
        closed.contains(a),
        forall|i: int, c: Seq<char>|
            0 <= i < table.len() && closed.contains(table[i].name)
                && #[trigger] table[i].implied.contains(c) ==> closed.contains(c),
    ensures
        closed.contains(b),
{
    let steps = choose|steps: nat| leads_in(table, a, b, steps);
    lemma_leads_in_closed(table, a, b, closed, steps);
}

proof fn lemma_leads_in_closed(
    table: Seq<FeatureView>,
    a: Seq<char>,
    b: Seq<char>,
    closed: Set<Seq<char>>,
    steps: nat,
)
    requires
        leads_in(table, a, b, steps),
        closed.contains(a),
        forall|i: int, c: Seq<char>|
            0 <= i < table.len() && closed.contains(table[i].name)
                && #[trigger] table[i].implied.contains(c) ==> closed.contains(c),
    ensures
        closed.contains(b),
    decreases steps,
{
    if steps > 0 {
        let c = choose|c: Seq<char>|
            leads_in(table, a, c, (steps - 1) as nat) && #[trigger] implies(table, c, b);
        lemma_leads_in_closed(table, a, c, closed, (steps - 1) as nat);
        let i = choose|i: int|
            0 <= i < table.len() && (#[trigger] table[i]).name == c && table[i].implied.contains(b);
        assert(table[i].implied.contains(b));
    }
}

/// Whether an item of a feature list enables `f`: it is a plus sign and a
/// feature that leads to `f`.
pub open spec fn enables(table: Seq<FeatureView>, item: Seq<char>, f: Seq<char>) -> bool {
    exists|g: Seq<char>| item == seq!['+'] + g && #[trigger] leads_to(table, g, f)
}

/// Whether an item of a feature list disables `f`: it is a minus sign and a
/// feature that `f` leads to.
pub open spec fn disables(table: Seq<FeatureView>, item: Seq<char>, f: Seq<char>) -> bool {
    exists|g: Seq<char>| item == seq!['-'] + g && #[trigger] leads_to(table, f, g)
}

/// Whether the item at `k` enables `f` and none of the items after it, up to
/// `count`, disables it.
pub open spec fn enables_for_good(
    table: Seq<FeatureView>,
    items: Seq<Seq<char>>,
    k: int,
    count: int,
    f: Seq<char>,
) -> bool {
    &&& enables(table, items[k], f)
    &&& forall|j: int| k < j < count ==> !disables(table, #[trigger] items[j], f)
}

proof fn lemma_item_effect(
    table: Seq<FeatureView>,
    on: Set<Seq<char>>,
    item: Seq<char>,
    f: Seq<char>,
)
    ensures
        after_item(table, on, item).contains(f) <==> enables(table, item, f) || (on.contains(f)
            && !disables(table, item, f)),
{
    if item.len() > 0 {
        let g = item.skip(1);
        assert(item =~= seq![item[0]] + g);
        assert forall|sign: char, h: Seq<char>| item == #[trigger] (seq![sign] + h) implies sign
            == item[0] && h == g by {
            assert((seq![sign] + h)[0] == sign);
            assert((seq![sign] + h).skip(1) =~= h);
        }
        if item[0] == '+' && leads_to(table, g, f) {
            assert(enables(table, item, f));
        }
        if item[0] == '-' && leads_to(table, f, g) {
            assert(disables(table, item, f));
        }
    }
}

proof fn lemma_items_effect(
    table: Seq<FeatureView>,
    on: Set<Seq<char>>,
    items: Seq<Seq<char>>,
    count: nat,
    f: Seq<char>,
)
    requires
        count <= items.len(),
    ensures
        after_items(table, on, items, count).contains(f) <==> {
            ||| on.contains(f) && forall|j: int|
                0 <= j < count ==> !disables(table, #[trigger] items[j], f)
            ||| exists|k: int|
                0 <= k < count && #[trigger] enables_for_good(table, items, k, count as int, f)
        },
    decreases count,
{
    if count > 0 {
        let n = count - 1;
        let before = after_items(table, on, items, n as nat);
        lemma_items_effect(table, on, items, n as nat, f);
        lemma_item_effect(table, before, items[n], f);
        if after_items(table, on, items, count).contains(f) {
            if enables(table, items[n], f) {
                assert(enables_for_good(table, items, n, count as int, f));
            } else if !(on.contains(f) && forall|j: int|
                0 <= j < n ==> !disables(table, #[trigger] items[j], f)) {
                let k = choose|k: int|
                    0 <= k < n && #[trigger] enables_for_good(table, items, k, n, f);
                assert(enables_for_good(table, items, k, count as int, f));
            }
        }
        if exists|k: int|
            0 <= k < count && #[trigger] enables_for_good(table, items, k, count as int, f) {
            let k = choose|k: int|
                0 <= k < count && #[trigger] enables_for_good(table, items, k, count as int, f);
            if k < n {
                assert(enables_for_good(table, items, k, n, f));
                assert(!disables(table, items[n], f));
            }
        }
    }
}

/// A feature is on exactly where some item of the two lists, the target's own
/// and then the flag, enables it and no later item disables it.
pub proof fn law_enabled_exactly(
    table: Seq<FeatureView>,
    spec_list: Seq<char>,
    flag_list: Seq<char>,
    f: Seq<char>,
)
    ensures
        ({
            let items = text::pieces(spec_list, ',') + text::pieces(flag_list, ',');
            enabled_features(table, spec_list, flag_list).contains(f) <==> exists|k: int|
                0 <= k < items.len() && #[trigger] enables_for_good(
                    table,
                    items,
                    k,
                    items.len() as int,
                    f,
                )
        }),
{
    let own = text::pieces(spec_list, ',');
    let flags = text::pieces(flag_list, ',');
    let items = own + flags;
    let base = after_list(table, Set::empty(), spec_list);
    lemma_items_effect(table, Set::empty(), own, own.len(), f);
    lemma_items_effect(table, base, flags, flags.len(), f);
    let n = own.len() as int;
    let all = items.len() as int;
    assert forall|j: int| 0 <= j < flags.len() implies #[trigger] items[n + j] == flags[j] by {}
    if enabled_features(table, spec_list, flag_list).contains(f) {
        if exists|k: int|
            0 <= k < flags.len() && #[trigger] enables_for_good(
                table,
                flags,
                k,
                flags.len() as int,
                f,
            ) {
            let k = choose|k: int|
                0 <= k < flags.len() && #[trigger] enables_for_good(
                    table,
                    flags,
                    k,
                    flags.len() as int,
                    f,
                );
            assert forall|j: int| n + k < j < all implies !disables(
                table,
                #[trigger] items[j],
                f,
            ) by {
                assert(items[j] == flags[j - n]);
            }
            assert(items[n + k] == flags[k]);
            assert(enables_for_good(table, items, n + k, all, f));
        } else {
            let k = choose|k: int|
                0 <= k < own.len() && #[trigger] enables_for_good(table, own, k, n, f);
            assert forall|j: int| k < j < all implies !disables(table, #[trigger] items[j], f) by {
                if j < n {
                    assert(items[j] == own[j]);
                } else {
                    assert(items[j] == flags[j - n]);
                }
            }
            assert(enables_for_good(table, items, k, all, f));
        }
    }
    if exists|k: int| 0 <= k < all && #[trigger] enables_for_good(table, items, k, all, f) {
        let k = choose|k: int| 0 <= k < all && #[trigger] enables_for_good(table, items, k, all, f);
        if k < n {
            assert forall|j: int| k < j < n implies !disables(table, #[trigger] own[j], f) by {
                assert(items[j] == own[j]);
            }
            assert(enables_for_good(table, own, k, n, f));
            assert forall|j: int| 0 <= j < flags.len() implies !disables(
                table,
                #[trigger] flags[j],
                f,
            ) by {
                assert(items[n + j] == flags[j]);
            }
        } else {
            assert forall|j: int| k - n < j < flags.len() implies !disables(
                table,
                #[trigger] flags[j],
                f,
            ) by {
                assert(items[n + j] == flags[j]);
            }
            assert(enables_for_good(table, flags, k - n, flags.len() as int, f));
        }
    }
}

/// The list of all features holds the names of exactly the known features that
/// are on, in the order of the table; the list of those shown holds those among
/// them that may be shown. The results give their places in the table.
pub proof fn law_listed_in_table_order(
    table: Seq<FeatureView>,
    spec_list: Seq<char>,
    flag_list: Seq<char>,
    shown: Seq<Seq<char>>,
    all: Seq<Seq<char>>,
) -> (places: (Seq<int>, Seq<int>))
    requires
        lists_features(table, spec_list, flag_list, shown, all),
    ensures
        ({
            let on = enabled_features(table, spec_list, flag_list);
            &&& selection::selects(
                places.0,
                table.len(),
                |i: int| on.contains(table[i].name) && table[i].in_cfg,
            )
            &&& selection::selects(places.1, table.len(), |i: int| on.contains(table[i].name))
        }),
        shown.len() == places.0.len(),
        all.len() == places.1.len(),
        forall|i: int| 0 <= i < shown.len() ==> #[trigger] shown[i] == table[places.0[i]].name,
        forall|i: int| 0 <= i < all.len() ==> #[trigger] all[i] == table[places.1[i]].name,
{
    let on = enabled_features(table, spec_list, flag_list);
    let visible = |i: int| on.contains(table[i].name) && table[i].in_cfg;
    let any = |i: int| on.contains(table[i].name);
    selection::law_places_select(table.len(), visible);
    selection::law_places_select(table.len(), any);
    lemma_reported_places(table, on, true, visible, table.len());
    lemma_reported_places(table, on, false, any, table.len());
    (selection::places(table.len(), visible), selection::places(table.len(), any))
}

proof fn lemma_reported_places(
    table: Seq<FeatureView>,
    on: Set<Seq<char>>,
    cfg_only: bool,
    wanted: spec_fn(int) -> bool,
    count: nat,
)
    requires
        forall|i: int|
            0 <= i < table.len() ==> (#[trigger] wanted(i) <==> on.contains(table[i].name) && (
            !cfg_only || table[i].in_cfg)),
        count <= table.len(),
    ensures
        ({
            let found = reported_prefix(table, on, cfg_only, count);
            let places = selection::places(count, wanted);
            &&& found.len() == places.len()
            &&& forall|i: int|
                0 <= i < found.len() ==> #[trigger] found[i] == table[places[i]].name
        }),
    decreases count,
{
    if count > 0 {
        lemma_reported_places(table, on, cfg_only, wanted, (count - 1) as nat);
        assert(wanted(count - 1) <==> on.contains(table[count - 1].name) && (!cfg_only
            || table[count - 1].in_cfg));
    }
}

/// The report lists exactly the known features that are on (and, with
/// `cfg_only`, may be shown).
pub proof fn law_reported_exactly(
    table: Seq<FeatureView>,
    on: Set<Seq<char>>,
    cfg_only: bool,
    name: Seq<char>,
)
    ensures
        reported(table, on, cfg_only).contains(name) <==> exists|i: int|
            0 <= i < table.len() && (#[trigger] table[i]).name == name && on.contains(name) && (
            !cfg_only || table[i].in_cfg),
{
    lemma_reported_prefix(table, on, cfg_only, name, table.len());
}

proof fn lemma_reported_prefix(
    table: Seq<FeatureView>,
    on: Set<Seq<char>>,
    cfg_only: bool,
    name: Seq<char>,
    count: nat,
)
    requires
        count <= table.len(),
    ensures
        reported_prefix(table, on, cfg_only, count).contains(name) <==> exists|i: int|
            0 <= i < count && (#[trigger] table[i]).name == name && on.contains(name) && (!cfg_only
                || table[i].in_cfg),
    decreases count,
{
    if count > 0 {
        let before = reported_prefix(table, on, cfg_only, (count - 1) as nat);
        lemma_reported_prefix(table, on, cfg_only, name, (count - 1) as nat);
        let feature = table[count - 1];
        if on.contains(feature.name) && (!cfg_only || feature.in_cfg) {
            let after = before.push(feature.name);
            if before.contains(name) {
                let i = before.index_of(name);
                assert(after[i] == name);
            }
            if feature.name == name {
                assert(after[before.len() as int] == name);
            }
            if after.contains(name) && feature.name != name {
                let i = choose|i: int| 0 <= i < after.len() && after[i] == name;
                assert(before[i] == name);
            }
        }
    }
}

} // verus!
