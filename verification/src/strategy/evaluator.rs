use vstd::prelude::*;
use super::types::{CompareTarget, Condition, ConditionGroup, ConditionNode, leaf_count, leaf_count_seq, leaves, leaves_seq, lemma_leaf_count_take, lemma_leaf_count_prefix, count_conditions, same_tree, same_trees, lemma_same_tree_agrees};
use crate::types::{ExitReason, Side, Signal};

verus! {

/// The outcome of an all-of group from its children's outcomes: false as soon as
/// one child is false, otherwise unknown if one child is unknown, otherwise true.
pub open spec fn all_of_outcome(s: Seq<Option<bool>>) -> Option<bool> {
    if exists|i: int| 0 <= i < s.len() && s[i] == Some(false) {
        Some(false)
    } else if exists|i: int| 0 <= i < s.len() && s[i] is None {
        None
    } else {
        Some(true)
    }
}

/// The outcome of an any-of group from its children's outcomes: true as soon as
/// one child is true, otherwise unknown if one child is unknown, otherwise false.
pub open spec fn any_of_outcome(s: Seq<Option<bool>>) -> Option<bool> {
    if exists|i: int| 0 <= i < s.len() && s[i] == Some(true) {
        Some(true)
    } else if exists|i: int| 0 <= i < s.len() && s[i] is None {
        None
    } else {
        Some(false)
    }
}

/// The outcome of a condition tree, given the outcomes `rs` of its leaves in
/// left-to-right order (`None`: not enough data yet).
pub open spec fn outcome<V>(node: ConditionNode<V>, rs: Seq<Option<bool>>) -> Option<bool>
    decreases node,
{
    match node {
        ConditionNode::Condition(_) => rs[0],
        ConditionNode::Group(ConditionGroup::AllOf(c)) => all_of_outcome(child_outcomes(c@, rs)),
        ConditionNode::Group(ConditionGroup::AnyOf(c)) => any_of_outcome(child_outcomes(c@, rs)),
    }
}

/// The outcomes of a list of trees whose leaf outcomes, left to right, are `rs`.
pub open spec fn child_outcomes<V>(ch: Seq<ConditionNode<V>>, rs: Seq<Option<bool>>) -> Seq<Option<bool>>
    decreases ch,
{
    if ch.len() == 0 {
        Seq::empty()
    } else {
        let off = leaf_count_seq(ch.drop_last());
        child_outcomes(ch.drop_last(), rs).push(
            outcome(ch.last(), rs.subrange(off as int, (off + leaf_count(ch.last())) as int)),
        )
    }
}

proof fn lemma_child_outcomes_len<V>(ch: Seq<ConditionNode<V>>, rs: Seq<Option<bool>>)
    ensures
        child_outcomes(ch, rs).len() == ch.len(),
    decreases ch.len(),
{
    if ch.len() > 0 {
        lemma_child_outcomes_len(ch.drop_last(), rs);
    }
}

proof fn lemma_child_outcomes<V>(ch: Seq<ConditionNode<V>>, rs: Seq<Option<bool>>, k: int)
    requires
        0 <= k < ch.len(),
    ensures
        child_outcomes(ch, rs).len() == ch.len(),
        child_outcomes(ch, rs)[k] == outcome(
            ch[k],
            rs.subrange(leaf_count_seq(ch.take(k)) as int, (leaf_count_seq(ch.take(k)) + leaf_count(ch[k])) as int),
        ),
    decreases ch.len(),
{
    let n = ch.len() - 1;
    lemma_child_outcomes_len(ch, rs);
    lemma_child_outcomes_len(ch.drop_last(), rs);
    if k < n {
        lemma_child_outcomes(ch.drop_last(), rs, k);
        assert(ch.drop_last().take(k) =~= ch.take(k));
    } else {
        assert(ch.take(k) =~= ch.drop_last());
    }
}

/// The leaf conditions of a tree, left to right.
pub fn conditions<V: Copy>(node: &ConditionNode<V>) -> (r: Vec<Condition<V>>)
    ensures
        r@ == leaves(*node),
{
    let mut out: Vec<Condition<V>> = Vec::new();
    push_leaves(node, &mut out);
    assert(out@ =~= leaves(*node));
    out
}

fn push_leaves<V: Copy>(node: &ConditionNode<V>, out: &mut Vec<Condition<V>>)
    ensures
        final(out)@ == old(out)@ + leaves(*node),
    decreases node,
{
    match node {
        ConditionNode::Condition(c) => {
            out.push(c.clone());
        },
        ConditionNode::Group(ConditionGroup::AllOf(children)) => push_leaves_seq(children, out),
        ConditionNode::Group(ConditionGroup::AnyOf(children)) => push_leaves_seq(children, out),
    }
}

fn push_leaves_seq<V: Copy>(children: &Vec<ConditionNode<V>>, out: &mut Vec<Condition<V>>)
    ensures
        final(out)@ == old(out)@ + leaves_seq(children@),
    decreases children@,
{
    let ghost start = out@;
    let mut i: usize = 0;
    assert(children@.take(0) =~= Seq::<ConditionNode<V>>::empty());
    assert(start + leaves_seq(children@.take(0)) =~= start);
    while i < children.len()
        invariant
            i <= children@.len(),
            out@ == start + leaves_seq(children@.take(i as int)),
        decreases children@.len() - i,
    {
        push_leaves(&children[i], out);
        proof {
            lemma_leaf_count_take(children@, i as int);
            assert(out@ =~= start + leaves_seq(children@.take(i + 1)));
        }
        i = i + 1;
    }
    assert(children@.take(children@.len() as int) =~= children@);
}


/// Combine the outcomes of the leaf conditions of a tree, given left to right
/// in `results`, into the outcome of the whole tree.
pub fn eval_node<V>(node: &ConditionNode<V>, results: &Vec<Option<bool>>) -> (r: Option<bool>)
    requires
        results@.len() == leaf_count(*node),
    ensures
        r == outcome(*node, results@),
{
    let r = eval_from(node, results, 0);
    assert(results@.subrange(0, leaf_count(*node) as int) =~= results@);
    r
}

fn eval_from<V>(node: &ConditionNode<V>, results: &Vec<Option<bool>>, off: usize) -> (r: Option<bool>)
    requires
        off + leaf_count(*node) <= results@.len(),
    ensures
        r == outcome(*node, results@.subrange(off as int, off + leaf_count(*node))),
    decreases node,
{
    match node {
        ConditionNode::Condition(_) => results[off],
        ConditionNode::Group(ConditionGroup::AllOf(children)) => eval_children(children, results, off, true),
        ConditionNode::Group(ConditionGroup::AnyOf(children)) => eval_children(children, results, off, false),
    }
}

/// Outcome of an all-of group (`all` true) or of an any-of group (`all` false).
fn eval_children<V>(children: &Vec<ConditionNode<V>>, results: &Vec<Option<bool>>, off: usize, all: bool) -> (r: Option<bool>)
    requires
        off + leaf_count_seq(children@) <= results@.len(),
    ensures
        ({
            let co = child_outcomes(children@, results@.subrange(off as int, off + leaf_count_seq(children@)));
            r == if all { all_of_outcome(co) } else { any_of_outcome(co) }
        }),
    decreases children@,
{
    let total = results.len();
    let ghost big = results@.subrange(off as int, off + leaf_count_seq(children@));
    let ghost co = child_outcomes(children@, big);
    proof { lemma_child_outcomes_len(children@, big); }
    // The value that decides the group at once, and the other definite value.
    let decisive = !all;
    let mut o: usize = off;
    let mut any_none = false;
    let mut i: usize = 0;
    assert(children@.take(0) =~= Seq::<ConditionNode<V>>::empty());
    while i < children.len()
        invariant
            total == results@.len(),
            off + leaf_count_seq(children@) <= total,
            big == results@.subrange(off as int, off + leaf_count_seq(children@)),
            co == child_outcomes(children@, big),
            co.len() == children@.len(),
            decisive == !all,
            i <= children@.len(),
            o == off + leaf_count_seq(children@.take(i as int)),
            forall|j: int| 0 <= j < i ==> co[j] != Some(decisive),
            any_none == exists|j: int| 0 <= j < i && co[j] is None,
        decreases children@.len() - i,
    {
        proof {
            lemma_leaf_count_take(children@, i as int);
            lemma_leaf_count_prefix(children@, i + 1);
            lemma_child_outcomes(children@, big, i as int);
            let a = leaf_count_seq(children@.take(i as int));
            let b = a + leaf_count(children@[i as int]);
            assert(big.subrange(a as int, b as int) =~= results@.subrange(o as int, o + leaf_count(children@[i as int])));
        }
        let n = count_conditions(&children[i]);
        let r = eval_from(&children[i], results, o);
        match r {
            Some(v) => {
                if v == decisive {
                    assert(co[i as int] == Some(decisive));
                    return Some(decisive);
                }
            },
            None => {
                any_none = true;
            },
        }
        o = o + n;
        i = i + 1;
    }
    if any_none {
        None
    } else {
        assert forall|j: int| 0 <= j < co.len() implies co[j] == Some(!decisive) by {
            if co[j] is None {
                assert(exists|j: int| 0 <= j < i && co[j] is None);
            }
        }
        Some(!decisive)
    }
}


/// The signal for one bar: hold until every referenced indicator has a value;
/// then exit when the exit rule holds, else enter long when the entry rule
/// holds, else hold.
pub open spec fn bar_signal(ready: bool, entry: Option<bool>, exit: Option<bool>) -> Signal {
    if !ready {
        Signal::Hold
    } else if exit == Some(true) {
        Signal::Exit(ExitReason::RuleTriggered)
    } else if entry == Some(true) {
        Signal::Entry(Side::Long)
    } else {
        Signal::Hold
    }
}

/// The signal of a strategy with entry rule `entry` and optional exit rule
/// `exit` on one bar. `ready` tells whether every referenced indicator has a
/// value on this bar; the outcomes of the leaf conditions of each rule, left to
/// right, are `entry_results` and `exit_results` (read only when `ready`).
pub fn strategy_signal<V>(
    entry: &ConditionNode<V>,
    exit: Option<&ConditionNode<V>>,
    ready: bool,
    entry_results: &Vec<Option<bool>>,
    exit_results: &Vec<Option<bool>>,
) -> (s: Signal)
    requires
        ready ==> entry_results@.len() == leaf_count(*entry),
        ready && exit is Some ==> exit_results@.len() == leaf_count(*exit.unwrap()),
    ensures
        s == bar_signal(
            ready,
            outcome(*entry, entry_results@),
            match exit {
                Some(x) => outcome(*x, exit_results@),
                None => None,
            },
        ),
{
    if !ready {
        return Signal::Hold;
    }
    let entry_outcome = eval_node(entry, entry_results);
    let exit_outcome = match exit {
        Some(x) => eval_node(x, exit_results),
        None => None,
    };
    if exit_outcome == Some(true) {
        Signal::Exit(ExitReason::RuleTriggered)
    } else if entry_outcome == Some(true) {
        Signal::Entry(Side::Long)
    } else {
        Signal::Hold
    }
}

/// The indicator names that one condition refers to.
pub open spec fn condition_names<V>(c: Condition<V>) -> Set<Seq<char>> {
    set![c.left@] + match c.right {
        CompareTarget::Indicator(name) => set![name@],
        CompareTarget::Scaled { indicator, multiplier: _ } => set![indicator@],
        _ => Set::empty(),
    }
}

/// The indicator names that a condition tree refers to.
pub open spec fn referenced_names<V>(node: ConditionNode<V>) -> Set<Seq<char>>
    decreases node,
{
    match node {
        ConditionNode::Condition(c) => condition_names(c),
        ConditionNode::Group(ConditionGroup::AllOf(ch)) => referenced_names_seq(ch@),
        ConditionNode::Group(ConditionGroup::AnyOf(ch)) => referenced_names_seq(ch@),
    }
}

/// The indicator names that a list of condition trees refers to.
pub open spec fn referenced_names_seq<V>(ch: Seq<ConditionNode<V>>) -> Set<Seq<char>>
    decreases ch,
{
    if ch.len() == 0 {
        Set::empty()
    } else {
        referenced_names_seq(ch.drop_last()) + referenced_names(ch.last())
    }
}

/// The texts held by a list of strings.
pub open spec fn names_of(v: Seq<String>) -> Set<Seq<char>> {
    Set::new(|s: Seq<char>| exists|i: int| 0 <= i < v.len() && v[i]@ == s)
}

/// No text occurs twice in a list of strings.
pub open spec fn distinct_names(v: Seq<String>) -> bool {
    forall|i: int, j: int| 0 <= i < v.len() && 0 <= j < v.len() && i != j ==> v[i]@ != v[j]@
}

fn insert_name(names: &mut Vec<String>, name: &String)
    requires
        distinct_names(old(names)@),
    ensures
        distinct_names(final(names)@),
        names_of(final(names)@) == names_of(old(names)@).insert(name@),
{
    let mut i: usize = 0;
    while i < names.len()
        invariant
            i <= names@.len(),
            names@ == old(names)@,
            distinct_names(names@),
            forall|j: int| 0 <= j < i ==> names@[j]@ != name@,
        decreases names@.len() - i,
    {
        if names[i] == *name {
            assert(names_of(names@).insert(name@) =~= names_of(names@));
            return;
        }
        i = i + 1;
    }
    let ghost pre = names@;
    names.push(name.clone());
    assert(names_of(names@) =~= names_of(pre).insert(name@)) by {
        assert(names@[pre.len() as int] == *name);
        assert forall|s: Seq<char>| names_of(pre).contains(s) implies names_of(names@).contains(s) by {
            let k = choose|k: int| 0 <= k < pre.len() && pre[k]@ == s;
            assert(names@[k] == pre[k]);
        }
        assert forall|s: Seq<char>| names_of(names@).contains(s) implies names_of(pre).insert(name@).contains(s) by {
            let k = choose|k: int| 0 <= k < names@.len() && names@[k]@ == s;
            if k < pre.len() {
                assert(names@[k] == pre[k]);
            }
        }
    }
}

fn collect_names<V>(node: &ConditionNode<V>, names: &mut Vec<String>)
    requires
        distinct_names(old(names)@),
    ensures
        distinct_names(final(names)@),
        names_of(final(names)@) == names_of(old(names)@) + referenced_names(*node),
    decreases node,
{
    match node {
        ConditionNode::Condition(c) => {
            let ghost pre = names_of(names@);
            insert_name(names, &c.left);
            match &c.right {
                CompareTarget::Indicator(name) => insert_name(names, name),
                CompareTarget::Scaled { indicator, multiplier: _ } => insert_name(names, indicator),
                _ => {},
            }
            assert(names_of(names@) =~= pre + condition_names(*c));
        },
        ConditionNode::Group(ConditionGroup::AllOf(children)) => collect_names_seq(children, names),
        ConditionNode::Group(ConditionGroup::AnyOf(children)) => collect_names_seq(children, names),
    }
}

fn collect_names_seq<V>(children: &Vec<ConditionNode<V>>, names: &mut Vec<String>)
    requires
        distinct_names(old(names)@),
    ensures
        distinct_names(final(names)@),
        names_of(final(names)@) == names_of(old(names)@) + referenced_names_seq(children@),
    decreases children@,
{
    let ghost start = names_of(names@);
    let mut i: usize = 0;
    assert(children@.take(0) =~= Seq::<ConditionNode<V>>::empty());
    assert(start + referenced_names_seq(children@.take(0)) =~= start);
    while i < children.len()
        invariant
            i <= children@.len(),
            distinct_names(names@),
            names_of(names@) == start + referenced_names_seq(children@.take(i as int)),
        decreases children@.len() - i,
    {
        collect_names(&children[i], names);
        proof {
            assert(children@.take(i + 1).drop_last() =~= children@.take(i as int));
            assert(names_of(names@) =~= start + referenced_names_seq(children@.take(i + 1)));
        }
        i = i + 1;
    }
    assert(children@.take(children@.len() as int) =~= children@);
}

/// The distinct indicator names that a strategy's entry rule and optional exit
/// rule refer to.
pub fn required_indicators<V>(entry: &ConditionNode<V>, exit: Option<&ConditionNode<V>>) -> (r: Vec<String>)
    ensures
        distinct_names(r@),
        names_of(r@) == referenced_names(*entry) + match exit {
            Some(x) => referenced_names(*x),
            None => Set::empty(),
        },
{
    let mut names: Vec<String> = Vec::new();
    assert(names_of(names@) =~= Set::empty());
    collect_names(entry, &mut names);
    match exit {
        Some(x) => collect_names(x, &mut names),
        None => {},
    }
    assert(names_of(names@) =~= referenced_names(*entry) + match exit {
        Some(x) => referenced_names(*x),
        None => Set::<Seq<char>>::empty(),
    });
    names
}


/// Whether every name in `required` has a value, given the names `produced`
/// that have one on this bar: the warm-up test before a signal is computed.
pub fn all_ready(required: &Vec<String>, produced: &Vec<String>) -> (r: bool)
    ensures
        r == names_of(required@).subset_of(names_of(produced@)),
{
    let mut i: usize = 0;
    while i < required.len()
        invariant
            i <= required@.len(),
            forall|k: int| 0 <= k < i ==> names_of(produced@).contains(#[trigger] required@[k]@),
        decreases required@.len() - i,
    {
        let mut j: usize = 0;
        let mut found = false;
        while j < produced.len()
            invariant
                j <= produced@.len(),
                i < required@.len(),
                found ==> names_of(produced@).contains(required@[i as int]@),
                !found ==> forall|k: int| 0 <= k < j ==> produced@[k]@ != required@[i as int]@,
            decreases produced@.len() - j,
        {
            if produced[j] == required[i] {
                found = true;
            }
            j = j + 1;
        }
        if !found {
            assert(!names_of(produced@).contains(required@[i as int]@));
            assert(names_of(required@).contains(required@[i as int]@));
            return false;
        }
        i = i + 1;
    }
    assert forall|s: Seq<char>| names_of(required@).contains(s) implies names_of(produced@).contains(s) by {
        let k = choose|k: int| 0 <= k < required@.len() && required@[k]@ == s;
        assert(names_of(produced@).contains(required@[k]@));
    }
    true
}

/// The indicator names that a list of conditions refers to.
pub open spec fn leaf_names<V>(cs: Seq<Condition<V>>) -> Set<Seq<char>>
    decreases cs.len(),
{
    if cs.len() == 0 {
        Set::empty()
    } else {
        leaf_names(cs.drop_last()) + condition_names(cs.last())
    }
}

proof fn lemma_leaf_names_concat<V>(a: Seq<Condition<V>>, b: Seq<Condition<V>>)
    ensures
        leaf_names(a + b) == leaf_names(a) + leaf_names(b),
    decreases b.len(),
{
    if b.len() == 0 {
        assert(a + b =~= a);
        assert(leaf_names(a) + leaf_names(b) =~= leaf_names(a));
    } else {
        lemma_leaf_names_concat(a, b.drop_last());
        assert((a + b).drop_last() =~= a + b.drop_last());
        assert(leaf_names(a + b) =~= leaf_names(a) + leaf_names(b));
    }
}

/// Law: the names a condition tree refers to are exactly the names its leaf
/// conditions refer to; so once every name that `required_indicators` lists has
/// a value, every condition that evaluation reads has its operands.
pub proof fn lemma_referenced_names_are_leaf_names<V>(node: ConditionNode<V>)
    ensures
        referenced_names(node) == leaf_names(leaves(node)),
    decreases node,
{
    match node {
        ConditionNode::Condition(c) => {
            let one = seq![c];
            assert(one.drop_last() =~= Seq::<Condition<V>>::empty());
            assert(one.last() == c);
            assert(leaf_names(one.drop_last()) =~= Set::<Seq<char>>::empty());
            assert(leaf_names(one) == leaf_names(one.drop_last()) + condition_names(c));
            assert(leaf_names(one) =~= condition_names(c));
        },
        ConditionNode::Group(ConditionGroup::AllOf(ch)) => lemma_referenced_names_seq(ch@),
        ConditionNode::Group(ConditionGroup::AnyOf(ch)) => lemma_referenced_names_seq(ch@),
    }
}

proof fn lemma_referenced_names_seq<V>(ch: Seq<ConditionNode<V>>)
    ensures
        referenced_names_seq(ch) == leaf_names(leaves_seq(ch)),
    decreases ch,
{
    if ch.len() > 0 {
        lemma_referenced_names_seq(ch.drop_last());
        lemma_referenced_names_are_leaf_names(ch.last());
        lemma_leaf_names_concat(leaves_seq(ch.drop_last()), leaves(ch.last()));
    } else {
        assert(leaf_names(leaves_seq(ch)) =~= Set::<Seq<char>>::empty());
    }
}

} // verus!

verus! {

proof fn lemma_leaf_names_contain<V>(cs: Seq<Condition<V>>, i: int)
    requires
        0 <= i < cs.len(),
    ensures
        leaf_names(cs).contains(cs[i].left@),
        cs[i].right matches CompareTarget::Indicator(n) ==> leaf_names(cs).contains(n@),
        cs[i].right matches CompareTarget::Scaled { indicator, .. } ==> leaf_names(cs).contains(indicator@),
    decreases cs.len(),
{
    if i < cs.len() - 1 {
        lemma_leaf_names_contain(cs.drop_last(), i);
        assert(cs.drop_last()[i] == cs[i]);
    }
}

/// Law: every indicator that a leaf condition reads is among the names the
/// tree refers to (and so among those `required_indicators` returns): its left
/// operand, and a right-hand indicator, plain or scaled, whatever the operator.
pub proof fn lemma_operands_are_referenced<V>(node: ConditionNode<V>, i: int)
    requires
        0 <= i < leaves(node).len(),
    ensures
        referenced_names(node).contains(leaves(node)[i].left@),
        leaves(node)[i].right matches CompareTarget::Indicator(n) ==> referenced_names(node).contains(n@),
        leaves(node)[i].right matches CompareTarget::Scaled { indicator, .. }
            ==> referenced_names(node).contains(indicator@),
{
    lemma_referenced_names_are_leaf_names(node);
    lemma_leaf_names_contain(leaves(node), i);
}

/// Law: a bar's signal is Hold until the strategy is ready; once ready, an
/// exit rule that holds gives Exit whatever the entry rule gives; Entry comes
/// exactly when the exit rule does not hold and the entry rule does; every
/// other bar is Hold.
pub proof fn lemma_exit_rule_wins(entry: Option<bool>, exit: Option<bool>)
    ensures
        bar_signal(false, entry, exit) == Signal::Hold,
        exit == Some(true) ==> bar_signal(true, entry, exit) == Signal::Exit(ExitReason::RuleTriggered),
        (bar_signal(true, entry, exit) == Signal::Entry(Side::Long)) <==> (exit != Some(true) && entry == Some(true)),
        (bar_signal(true, entry, exit) == Signal::Hold) <==> (exit != Some(true) && entry != Some(true)),
        bar_signal(true, entry, exit) is Exit ==> exit == Some(true),
{
}

} // verus!

verus! {

proof fn lemma_same_trees_outcomes<V>(a: Seq<ConditionNode<V>>, b: Seq<ConditionNode<V>>, rs: Seq<Option<bool>>)
    requires
        same_trees(a, b),
    ensures
        child_outcomes(a, rs) == child_outcomes(b, rs),
        leaf_count_seq(a) == leaf_count_seq(b),
    decreases a,
{
    if a.len() > 0 {
        lemma_same_trees_outcomes(a.drop_last(), b.drop_last(), rs);
        lemma_same_tree_agrees(a.last(), b.last());
        let off = leaf_count_seq(a.drop_last());
        lemma_same_tree_outcome(a.last(), b.last(), rs.subrange(off as int, (off + leaf_count(a.last())) as int));
    }
}

/// Law: a copy of a condition tree (`clone_node`, `ConditionNode::clone`)
/// evaluates exactly as the original on every list of leaf outcomes, so a
/// strategy and its copy give the same signals.
pub proof fn lemma_same_tree_outcome<V>(a: ConditionNode<V>, b: ConditionNode<V>, rs: Seq<Option<bool>>)
    requires
        same_tree(a, b),
    ensures
        outcome(a, rs) == outcome(b, rs),
    decreases a,
{
    match (a, b) {
        (ConditionNode::Group(ConditionGroup::AllOf(x)), ConditionNode::Group(ConditionGroup::AllOf(y))) => {
            lemma_same_trees_outcomes(x@, y@, rs);
        },
        (ConditionNode::Group(ConditionGroup::AnyOf(x)), ConditionNode::Group(ConditionGroup::AnyOf(y))) => {
            lemma_same_trees_outcomes(x@, y@, rs);
        },
        _ => {},
    }
}

} // verus!
