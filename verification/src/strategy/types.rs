use vstd::prelude::*;
use crate::types::{MantisError, is_validation_error};
use super::evaluator::{names_of, referenced_names, required_indicators};
use super::names::{names_zero_period, parse_indicator, zero_period};

verus! {

/// Comparison operators for condition evaluation.
#[derive(Debug, Clone, Copy, PartialEq, Eq, Structural)]
pub enum Operator {
    /// Left crosses above right
    CrossesAbove,
    /// Left crosses below right
    CrossesBelow,
    /// Left is strictly above right
    IsAbove,
    /// Left is strictly below right
    IsBelow,
    /// Left is between lower and upper bounds
    IsBetween,
    /// Left equals right (within epsilon)
    Equals,
    /// Left is rising over N bars (current > N bars ago)
    IsRising(u32),
    /// Left is falling over N bars (current < N bars ago)
    IsFalling(u32),
}

/// Right-hand side of a comparison in a condition; `V` is the type of the
/// scalar thresholds.
#[derive(Debug, PartialEq)]
pub enum CompareTarget<V> {
    /// Compare against a fixed scalar value
    Value(V),
    /// Compare against another indicator's output
    Indicator(String),
    /// Compare against a scaled value (e.g., ATR * 2.0)
    Scaled { indicator: String, multiplier: V },
    /// Compare against a range of values (lower, upper)
    Range(V, V),
    /// No compare target (used for unary operators like IsRising/IsFalling)
    NoTarget,
}

/// A single condition: left indicator, operator, right target.
#[derive(Debug, PartialEq)]
pub struct Condition<V> {
    pub left: String,
    pub operator: Operator,
    pub right: CompareTarget<V>,
}

impl<V> Condition<V> {
    pub fn new(left: &str, operator: Operator, right: CompareTarget<V>) -> (c: Self)
        ensures
            c.left@ == left@,
            c.operator == operator,
            c.right == right,
    {
        Condition { left: left.to_owned(), operator, right }
    }
}

/// Logical grouping of conditions.
#[derive(Debug, PartialEq)]
pub enum ConditionGroup<V> {
    /// All sub-conditions must be true
    AllOf(Vec<ConditionNode<V>>),
    /// Any sub-condition must be true
    AnyOf(Vec<ConditionNode<V>>),
}

/// A node in the condition tree.
#[derive(Debug, PartialEq)]
pub enum ConditionNode<V> {
    Condition(Condition<V>),
    Group(ConditionGroup<V>),
}

impl<V: Copy> Clone for CompareTarget<V> {
    fn clone(&self) -> (r: Self)
        ensures
            r == *self,
    {
        match self {
            CompareTarget::Value(v) => CompareTarget::Value(*v),
            CompareTarget::Indicator(name) => CompareTarget::Indicator(name.clone()),
            CompareTarget::Scaled { indicator, multiplier } => CompareTarget::Scaled {
                indicator: indicator.clone(),
                multiplier: *multiplier,
            },
            CompareTarget::Range(lower, upper) => CompareTarget::Range(*lower, *upper),
            CompareTarget::NoTarget => CompareTarget::NoTarget,
        }
    }
}

impl<V: Copy> Clone for Condition<V> {
    fn clone(&self) -> (r: Self)
        ensures
            r == *self,
    {
        Condition { left: self.left.clone(), operator: self.operator, right: self.right.clone() }
    }
}

/// Two condition trees have the same shape, group kinds and leaf conditions.
pub open spec fn same_tree<V>(a: ConditionNode<V>, b: ConditionNode<V>) -> bool
    decreases a,
{
    match (a, b) {
        (ConditionNode::Condition(x), ConditionNode::Condition(y)) => x == y,
        (ConditionNode::Group(ConditionGroup::AllOf(x)), ConditionNode::Group(ConditionGroup::AllOf(y))) => same_trees(x@, y@),
        (ConditionNode::Group(ConditionGroup::AnyOf(x)), ConditionNode::Group(ConditionGroup::AnyOf(y))) => same_trees(x@, y@),
        _ => false,
    }
}

/// Two lists of condition trees agree tree by tree.
pub open spec fn same_trees<V>(a: Seq<ConditionNode<V>>, b: Seq<ConditionNode<V>>) -> bool
    decreases a,
{
    a.len() == b.len() && (a.len() > 0 ==> same_trees(a.drop_last(), b.drop_last()) && same_tree(a.last(), b.last()))
}

/// Two groups have the same kind and children.
pub open spec fn same_group<V>(a: ConditionGroup<V>, b: ConditionGroup<V>) -> bool {
    same_tree(ConditionNode::Group(a), ConditionNode::Group(b))
}

/// A copy of a condition tree.
pub fn clone_node<V: Copy>(node: &ConditionNode<V>) -> (r: ConditionNode<V>)
    ensures
        same_tree(r, *node),
        leaves(r) == leaves(*node),
    decreases node,
{
    let r = clone_node_tree(node);
    proof { lemma_same_tree_agrees(r, *node); }
    r
}

fn clone_node_tree<V: Copy>(node: &ConditionNode<V>) -> (r: ConditionNode<V>)
    ensures
        same_tree(r, *node),
    decreases node,
{
    match node {
        ConditionNode::Condition(c) => ConditionNode::Condition(c.clone()),
        ConditionNode::Group(g) => ConditionNode::Group(clone_group(g)),
    }
}

/// A copy of a condition group.
fn clone_group<V: Copy>(group: &ConditionGroup<V>) -> (r: ConditionGroup<V>)
    ensures
        same_group(r, *group),
    decreases group,
{
    match group {
        ConditionGroup::AllOf(children) => ConditionGroup::AllOf(clone_nodes(children)),
        ConditionGroup::AnyOf(children) => ConditionGroup::AnyOf(clone_nodes(children)),
    }
}

/// A copy of a list of condition trees.
fn clone_nodes<V: Copy>(children: &Vec<ConditionNode<V>>) -> (r: Vec<ConditionNode<V>>)
    ensures
        same_trees(r@, children@),
    decreases children@,
{
    let mut out: Vec<ConditionNode<V>> = Vec::new();
    let mut i: usize = 0;
    assert(children@.take(0) =~= Seq::<ConditionNode<V>>::empty());
    while i < children.len()
        invariant
            i <= children@.len(),
            same_trees(out@, children@.take(i as int)),
        decreases children@.len() - i,
    {
        let ghost prev = out@;
        out.push(clone_node_tree(&children[i]));
        proof {
            assert(out@.drop_last() =~= prev);
            assert(children@.take(i + 1).drop_last() =~= children@.take(i as int));
        }
        i = i + 1;
    }
    assert(children@.take(children@.len() as int) =~= children@);
    out
}

impl<V: Copy> Clone for ConditionNode<V> {
    fn clone(&self) -> (r: Self)
        ensures
            same_tree(r, *self),
            leaves(r) == leaves(*self),
    {
        clone_node(self)
    }
}

impl<V: Copy> Clone for ConditionGroup<V> {
    fn clone(&self) -> (r: Self)
        ensures
            same_group(r, *self),
    {
        clone_group(self)
    }
}

/// Maximum nesting depth for condition groups.
pub const MAX_NESTING_DEPTH: usize = 2;

/// Maximum conditions per group.
pub const MAX_CONDITIONS_PER_GROUP: usize = 20;

/// The children of a group, whichever its kind.
pub open spec fn group_children<V>(g: ConditionGroup<V>) -> Seq<ConditionNode<V>> {
    match g {
        ConditionGroup::AllOf(c) => c@,
        ConditionGroup::AnyOf(c) => c@,
    }
}

/// Number of leaf conditions in a tree.
pub open spec fn leaf_count<V>(node: ConditionNode<V>) -> nat
    decreases node,
{
    match node {
        ConditionNode::Condition(_) => 1,
        ConditionNode::Group(ConditionGroup::AllOf(c)) => leaf_count_seq(c@),
        ConditionNode::Group(ConditionGroup::AnyOf(c)) => leaf_count_seq(c@),
    }
}

/// Number of leaf conditions in a list of trees.
pub open spec fn leaf_count_seq<V>(ch: Seq<ConditionNode<V>>) -> nat
    decreases ch,
{
    if ch.len() == 0 {
        0
    } else {
        leaf_count_seq(ch.drop_last()) + leaf_count(ch.last())
    }
}

/// The leaf conditions of a tree, left to right.
pub open spec fn leaves<V>(node: ConditionNode<V>) -> Seq<Condition<V>>
    decreases node,
{
    match node {
        ConditionNode::Condition(c) => seq![c],
        ConditionNode::Group(ConditionGroup::AllOf(c)) => leaves_seq(c@),
        ConditionNode::Group(ConditionGroup::AnyOf(c)) => leaves_seq(c@),
    }
}

/// The leaf conditions of a list of trees, left to right.
pub open spec fn leaves_seq<V>(ch: Seq<ConditionNode<V>>) -> Seq<Condition<V>>
    decreases ch,
{
    if ch.len() == 0 {
        Seq::empty()
    } else {
        leaves_seq(ch.drop_last()) + leaves(ch.last())
    }
}

/// The ways a condition tree can break the structural limits.
#[derive(Debug, Clone, Copy, PartialEq, Eq, Structural)]
pub enum Violation {
    /// A node sits deeper than the maximum nesting depth.
    TooDeep,
    /// A group has more children than allowed.
    TooWide,
}

/// The first structural violation met by a depth-first, left-to-right walk of
/// `node`, which sits at nesting depth `depth`.
pub open spec fn first_violation<V>(node: ConditionNode<V>, depth: nat) -> Option<Violation>
    decreases node,
{
    if depth > MAX_NESTING_DEPTH {
        Some(Violation::TooDeep)
    } else {
        match node {
            ConditionNode::Condition(_) => None,
            ConditionNode::Group(ConditionGroup::AllOf(c)) => if c@.len() > MAX_CONDITIONS_PER_GROUP {
                Some(Violation::TooWide)
            } else {
                first_violation_seq(c@, depth + 1)
            },
            ConditionNode::Group(ConditionGroup::AnyOf(c)) => if c@.len() > MAX_CONDITIONS_PER_GROUP {
                Some(Violation::TooWide)
            } else {
                first_violation_seq(c@, depth + 1)
            },
        }
    }
}

/// The first structural violation among `ch`, all at depth `depth`.
pub open spec fn first_violation_seq<V>(ch: Seq<ConditionNode<V>>, depth: nat) -> Option<Violation>
    decreases ch,
{
    if ch.len() == 0 {
        None
    } else {
        match first_violation(ch[0], depth) {
            Some(v) => Some(v),
            None => first_violation_seq(ch.drop_first(), depth),
        }
    }
}

/// Message of the error for a too deep condition tree.
pub open spec fn too_deep_message() -> Seq<char> {
    "Condition nesting exceeds maximum depth of 2"@
}

/// Message of the error for a too large condition group.
pub open spec fn too_wide_message() -> Seq<char> {
    "Condition group exceeds maximum of 20 conditions"@
}

/// The error that reports violation `v`.
pub open spec fn reports_violation(e: MantisError, v: Violation) -> bool {
    match v {
        Violation::TooDeep => is_validation_error(e, too_deep_message()),
        Violation::TooWide => is_validation_error(e, too_wide_message()),
    }
}

proof fn lemma_first_violation_skip<V>(ch: Seq<ConditionNode<V>>, depth: nat, i: int)
    requires
        0 <= i <= ch.len(),
        forall|j: int| 0 <= j < i ==> first_violation(#[trigger] ch[j], depth) is None,
    ensures
        first_violation_seq(ch, depth) == first_violation_seq(ch.skip(i), depth),
    decreases i,
{
    if i > 0 {
        lemma_first_violation_skip(ch, depth, i - 1);
        let t = ch.skip(i - 1);
        assert(t[0] == ch[i - 1]);
        assert(t.drop_first() =~= ch.skip(i));
    } else {
        assert(ch.skip(0) =~= ch);
    }
}

/// Check nesting depth and group sizes of a condition tree sitting at depth
/// `depth`; the error names the first violation in a depth-first walk.
pub fn validate_condition_node<V>(node: &ConditionNode<V>, depth: usize) -> (r: Result<(), MantisError>)
    ensures
        match first_violation(*node, depth as nat) {
            None => r is Ok,
            Some(v) => r matches Err(e) && reports_violation(e, v),
        },
    decreases node,
{
    if depth > MAX_NESTING_DEPTH {
        return Err(MantisError::StrategyValidation(String::from_str("Condition nesting exceeds maximum depth of 2")));
    }
    match node {
        ConditionNode::Condition(_) => Ok(()),
        ConditionNode::Group(group) => {
            let children = match group {
                ConditionGroup::AllOf(c) => c,
                ConditionGroup::AnyOf(c) => c,
            };
            if children.len() > MAX_CONDITIONS_PER_GROUP {
                return Err(MantisError::StrategyValidation(String::from_str("Condition group exceeds maximum of 20 conditions")));
            }
            let ghost ch = children@;
            assert(ch == group_children(*group));
            assert(first_violation(*node, depth as nat) == first_violation_seq(ch, (depth + 1) as nat));
            let mut i: usize = 0;
            while i < children.len()
                invariant
                    ch == children@,
                    ch == group_children(*group),
                    *node == ConditionNode::Group(*group),
                    first_violation(*node, depth as nat) == first_violation_seq(ch, (depth + 1) as nat),
                    depth <= MAX_NESTING_DEPTH,
                    i <= ch.len(),
                    forall|j: int| 0 <= j < i ==> first_violation(#[trigger] ch[j], (depth + 1) as nat) is None,
                decreases ch.len() - i,
            {
                proof {
                    match group {
                        ConditionGroup::AllOf(c) => {
                            assert(decreases_to!(*node => c@[i as int]));
                        },
                        ConditionGroup::AnyOf(c) => {
                            assert(decreases_to!(*node => c@[i as int]));
                        },
                    }
                }
                let res = validate_condition_node(&children[i], depth + 1);
                match res {
                    Ok(()) => {},
                    Err(e) => {
                        proof {
                            lemma_first_violation_skip(ch, (depth + 1) as nat, i as int);
                            assert(ch.skip(i as int)[0] == ch[i as int]);
                        }
                        return Err(e);
                    },
                }
                i = i + 1;
            }
            proof {
                lemma_first_violation_skip(ch, (depth + 1) as nat, ch.len() as int);
            }
            Ok(())
        },
    }
}

} // verus!

verus! {

/// Leaf counts add up over a list of trees, prefix by prefix.
pub proof fn lemma_leaf_count_take<V>(ch: Seq<ConditionNode<V>>, i: int)
    requires
        0 <= i < ch.len(),
    ensures
        leaf_count_seq(ch.take(i + 1)) == leaf_count_seq(ch.take(i)) + leaf_count(ch[i]),
        leaves_seq(ch.take(i + 1)) == leaves_seq(ch.take(i)) + leaves(ch[i]),
{
    assert(ch.take(i + 1).drop_last() =~= ch.take(i));
}

/// A prefix of a list of trees has no more leaves than the whole list.
pub proof fn lemma_leaf_count_prefix<V>(ch: Seq<ConditionNode<V>>, i: int)
    requires
        0 <= i <= ch.len(),
    ensures
        leaf_count_seq(ch.take(i)) <= leaf_count_seq(ch),
    decreases ch.len() - i,
{
    if i < ch.len() {
        lemma_leaf_count_take(ch, i);
        lemma_leaf_count_prefix(ch, i + 1);
    } else {
        assert(ch.take(i) =~= ch);
    }
}

/// The number of leaves of a tree is the length of its list of leaves.
pub proof fn lemma_leaves_len<V>(node: ConditionNode<V>)
    ensures
        leaves(node).len() == leaf_count(node),
    decreases node,
{
    match node {
        ConditionNode::Condition(_) => {},
        ConditionNode::Group(ConditionGroup::AllOf(c)) => lemma_leaves_seq_len(c@),
        ConditionNode::Group(ConditionGroup::AnyOf(c)) => lemma_leaves_seq_len(c@),
    }
}

/// The number of leaves of a list of trees is the length of its list of leaves.
pub proof fn lemma_leaves_seq_len<V>(ch: Seq<ConditionNode<V>>)
    ensures
        leaves_seq(ch).len() == leaf_count_seq(ch),
    decreases ch,
{
    if ch.len() > 0 {
        lemma_leaves_seq_len(ch.drop_last());
        lemma_leaves_len(ch.last());
    }
}

/// Check the rules a strategy must meet to be built, in the order in which
/// they are checked: an entry condition, a stop-loss rule, the percentage
/// limits (checked by the caller, whose first failure is `range_error`), at
/// least one concurrent position, every indicator period at least 1, then the
/// structure of the entry tree and of the exit tree.
pub fn check_build<V>(
    entry: Option<&ConditionNode<V>>,
    has_stop_loss: bool,
    range_error: Option<MantisError>,
    max_concurrent_positions: usize,
    exit: Option<&ConditionNode<V>>,
) -> (r: Result<(), MantisError>)
    ensures
        entry is None ==> (r matches Err(e) && is_validation_error(e, missing_entry_message())),
        entry is Some && !has_stop_loss ==> (r matches Err(e) && is_validation_error(e, missing_stop_loss_message())),
        entry is Some && has_stop_loss && range_error is Some ==> r == Err::<(), MantisError>(range_error.unwrap()),
        entry is Some && has_stop_loss && range_error is None && max_concurrent_positions == 0
            ==> (r matches Err(e) && is_zero_positions_error(e)),
        entry is Some && has_stop_loss && range_error is None && max_concurrent_positions > 0
            && refers_to_zero_period(*entry.unwrap(), exit)
            ==> (r matches Err(e) && is_validation_error(e, zero_period_message())),
        entry is Some && has_stop_loss && range_error is None && max_concurrent_positions > 0
            && !refers_to_zero_period(*entry.unwrap(), exit) ==> {
            match first_violation(*entry.unwrap(), 0) {
                Some(v) => r matches Err(e) && reports_violation(e, v),
                None => match exit {
                    Some(x) => match first_violation(*x, 0) {
                        Some(v) => r matches Err(e) && reports_violation(e, v),
                        None => r is Ok,
                    },
                    None => r is Ok,
                },
            }
        },
{
    let entry = match entry {
        Some(e) => e,
        None => {
            return Err(MantisError::StrategyValidation(String::from_str("Strategy must have an entry condition")));
        },
    };
    if !has_stop_loss {
        return Err(MantisError::StrategyValidation(String::from_str("Strategy must have a stop-loss rule")));
    }
    if let Some(e) = range_error {
        return Err(e);
    }
    if max_concurrent_positions == 0 {
        return Err(MantisError::InvalidParameter {
            param: "max_concurrent_positions",
            value: String::from_str("0"),
            reason: "must be at least 1",
        });
    }
    if has_zero_period_reference(entry, exit) {
        return Err(MantisError::StrategyValidation(String::from_str("All indicator periods must be at least 1")));
    }
    validate_condition_node(entry, 0)?;
    if let Some(x) = exit {
        validate_condition_node(x, 0)?;
    }
    Ok(())
}

/// The indicator names that a strategy's entry rule and optional exit rule refer to.
pub open spec fn rule_names<V>(entry: ConditionNode<V>, exit: Option<&ConditionNode<V>>) -> Set<Seq<char>> {
    referenced_names(entry) + match exit {
        Some(x) => referenced_names(*x),
        None => Set::empty(),
    }
}

/// The strategy refers to an indicator whose period is zero.
pub open spec fn refers_to_zero_period<V>(entry: ConditionNode<V>, exit: Option<&ConditionNode<V>>) -> bool {
    exists|s: Seq<char>| rule_names(entry, exit).contains(s) && names_zero_period(s)
}

/// Message of the error for an indicator period below 1.
pub open spec fn zero_period_message() -> Seq<char> {
    "All indicator periods must be at least 1"@
}

/// Whether the entry rule or the exit rule refers to an indicator whose period is zero.
pub fn has_zero_period_reference<V>(entry: &ConditionNode<V>, exit: Option<&ConditionNode<V>>) -> (r: bool)
    ensures
        r == refers_to_zero_period(*entry, exit),
{
    let names = required_indicators(entry, exit);
    assert(names_of(names@) == rule_names(*entry, exit));
    let mut i: usize = 0;
    while i < names.len()
        invariant
            i <= names@.len(),
            names_of(names@) == rule_names(*entry, exit),
            forall|j: int| 0 <= j < i ==> !names_zero_period(#[trigger] names@[j]@),
        decreases names@.len() - i,
    {
        match parse_indicator(names[i].as_str()) {
            Some(x) => {
                if zero_period(&x) {
                    assert(names_of(names@).contains(names@[i as int]@));
                    assert(names_zero_period(names@[i as int]@));
                    return true;
                }
            },
            None => {},
        }
        i = i + 1;
    }
    assert forall|s: Seq<char>| rule_names(*entry, exit).contains(s) implies !names_zero_period(s) by {
        assert(names_of(names@).contains(s));
        let k = choose|k: int| 0 <= k < names@.len() && names@[k]@ == s;
        assert(!names_zero_period(names@[k]@));
    }
    false
}

/// Message of the error for a strategy without entry condition.
pub open spec fn missing_entry_message() -> Seq<char> {
    "Strategy must have an entry condition"@
}

/// Message of the error for a strategy without stop-loss rule.
pub open spec fn missing_stop_loss_message() -> Seq<char> {
    "Strategy must have a stop-loss rule"@
}

/// The error for a strategy that allows no concurrent position.
pub open spec fn is_zero_positions_error(e: MantisError) -> bool {
    e matches MantisError::InvalidParameter { param, value, reason } && param@
        == "max_concurrent_positions"@ && value@ == "0"@ && reason@ == "must be at least 1"@
}

} // verus!

verus! {

/// Number of leaf conditions in a condition tree.
pub fn count_conditions<V>(node: &ConditionNode<V>) -> (n: usize)
    requires
        leaf_count(*node) <= usize::MAX,
    ensures
        n == leaf_count(*node),
    decreases node,
{
    match node {
        ConditionNode::Condition(_) => 1,
        ConditionNode::Group(ConditionGroup::AllOf(children)) => count_conditions_seq(children),
        ConditionNode::Group(ConditionGroup::AnyOf(children)) => count_conditions_seq(children),
    }
}

fn count_conditions_seq<V>(children: &Vec<ConditionNode<V>>) -> (n: usize)
    requires
        leaf_count_seq(children@) <= usize::MAX,
    ensures
        n == leaf_count_seq(children@),
    decreases children@,
{
    let mut total: usize = 0;
    let mut i: usize = 0;
    assert(children@.take(0) =~= Seq::<ConditionNode<V>>::empty());
    while i < children.len()
        invariant
            i <= children@.len(),
            leaf_count_seq(children@) <= usize::MAX,
            total == leaf_count_seq(children@.take(i as int)),
        decreases children@.len() - i,
    {
        proof {
            lemma_leaf_count_take(children@, i as int);
            lemma_leaf_count_prefix(children@, i + 1);
        }
        let n = count_conditions(&children[i]);
        total = total + n;
        i = i + 1;
    }
    assert(children@.take(children@.len() as int) =~= children@);
    total
}

} // verus!

verus! {

/// Two conditions bound the same indicator from opposite sides by fixed
/// values: one `IsAbove` a value and one `IsBelow` a value.
pub open spec fn opposed<V>(a: Condition<V>, b: Condition<V>) -> bool {
    &&& a.left@ == b.left@
    &&& a.right is Value
    &&& b.right is Value
    &&& ((a.operator == Operator::IsAbove && b.operator == Operator::IsBelow)
        || (a.operator == Operator::IsBelow && b.operator == Operator::IsAbove))
}

/// The pairs `(c, x)`, in order, of each condition `c` in `prefix` (a list of
/// sibling nodes) that is opposed to `x`.
pub open spec fn pairs_with<V>(prefix: Seq<ConditionNode<V>>, x: Condition<V>) -> Seq<(Condition<V>, Condition<V>)>
    decreases prefix.len(),
{
    if prefix.len() == 0 {
        Seq::empty()
    } else {
        pairs_with(prefix.drop_last(), x) + match prefix.last() {
            ConditionNode::Condition(c) => if opposed(c, x) { seq![(c, x)] } else { Seq::empty() },
            _ => Seq::empty(),
        }
    }
}

/// The opposed pairs among sibling conditions, ordered by the position of
/// the later condition, then of the earlier one.
pub open spec fn direct_pairs<V>(ch: Seq<ConditionNode<V>>) -> Seq<(Condition<V>, Condition<V>)>
    decreases ch.len(),
{
    if ch.len() == 0 {
        Seq::empty()
    } else {
        direct_pairs(ch.drop_last()) + match ch.last() {
            ConditionNode::Condition(x) => pairs_with(ch.drop_last(), x),
            _ => Seq::empty(),
        }
    }
}

/// The opposed pairs of sibling conditions in the same all-of group, for
/// every all-of group of the tree: a group's own pairs, then those of its
/// children, depth first, left to right.
pub open spec fn opposed_pairs<V>(node: ConditionNode<V>) -> Seq<(Condition<V>, Condition<V>)>
    decreases node,
{
    match node {
        ConditionNode::Condition(_) => Seq::empty(),
        ConditionNode::Group(ConditionGroup::AllOf(c)) => direct_pairs(c@) + nested_pairs(c@),
        ConditionNode::Group(ConditionGroup::AnyOf(c)) => nested_pairs(c@),
    }
}

/// The opposed pairs within each of a list of trees, in order.
pub open spec fn nested_pairs<V>(ch: Seq<ConditionNode<V>>) -> Seq<(Condition<V>, Condition<V>)>
    decreases ch,
{
    if ch.len() == 0 {
        Seq::empty()
    } else {
        nested_pairs(ch.drop_last()) + opposed_pairs(ch.last())
    }
}

fn is_opposed<V>(a: &Condition<V>, b: &Condition<V>) -> (r: bool)
    ensures
        r == opposed(*a, *b),
{
    let values = matches!(a.right, CompareTarget::Value(_)) && matches!(b.right, CompareTarget::Value(_));
    let sides = (a.operator == Operator::IsAbove && b.operator == Operator::IsBelow)
        || (a.operator == Operator::IsBelow && b.operator == Operator::IsAbove);
    values && sides && a.left == b.left
}

fn push_pairs_with<V: Copy>(ch: &Vec<ConditionNode<V>>, j: usize, x: &Condition<V>, out: &mut Vec<(Condition<V>, Condition<V>)>)
    requires
        j <= ch@.len(),
    ensures
        final(out)@ == old(out)@ + pairs_with(ch@.take(j as int), *x),
{
    let ghost start = out@;
    let mut i: usize = 0;
    assert(start + pairs_with(ch@.take(0), *x) =~= start);
    while i < j
        invariant
            i <= j <= ch@.len(),
            out@ == start + pairs_with(ch@.take(i as int), *x),
        decreases j - i,
    {
        assert(ch@.take(i + 1).drop_last() =~= ch@.take(i as int));
        assert(ch@.take(i + 1).last() == ch@[i as int]);
        match &ch[i] {
            ConditionNode::Condition(c) => {
                if is_opposed(c, x) {
                    out.push((c.clone(), x.clone()));
                }
            },
            _ => {},
        }
        i = i + 1;
        assert(out@ =~= start + pairs_with(ch@.take(i as int), *x));
    }
}

fn push_direct<V: Copy>(ch: &Vec<ConditionNode<V>>, out: &mut Vec<(Condition<V>, Condition<V>)>)
    ensures
        final(out)@ == old(out)@ + direct_pairs(ch@),
{
    let ghost start = out@;
    let mut j: usize = 0;
    assert(start + direct_pairs(ch@.take(0)) =~= start);
    while j < ch.len()
        invariant
            j <= ch@.len(),
            out@ == start + direct_pairs(ch@.take(j as int)),
        decreases ch@.len() - j,
    {
        assert(ch@.take(j + 1).drop_last() =~= ch@.take(j as int));
        assert(ch@.take(j + 1).last() == ch@[j as int]);
        match &ch[j] {
            ConditionNode::Condition(x) => {
                push_pairs_with(ch, j, x, out);
            },
            _ => {},
        }
        j = j + 1;
        assert(out@ =~= start + direct_pairs(ch@.take(j as int)));
    }
    assert(ch@.take(ch@.len() as int) =~= ch@);
}

fn push_opposed<V: Copy>(node: &ConditionNode<V>, out: &mut Vec<(Condition<V>, Condition<V>)>)
    ensures
        final(out)@ == old(out)@ + opposed_pairs(*node),
    decreases node,
{
    match node {
        ConditionNode::Condition(_) => {
            assert(out@ =~= old(out)@ + opposed_pairs(*node));
        },
        ConditionNode::Group(ConditionGroup::AllOf(ch)) => {
            push_direct(ch, out);
            push_nested(ch, out);
            assert(out@ =~= old(out)@ + opposed_pairs(*node));
        },
        ConditionNode::Group(ConditionGroup::AnyOf(ch)) => {
            push_nested(ch, out);
        },
    }
}

fn push_nested<V: Copy>(ch: &Vec<ConditionNode<V>>, out: &mut Vec<(Condition<V>, Condition<V>)>)
    ensures
        final(out)@ == old(out)@ + nested_pairs(ch@),
    decreases ch@,
{
    let ghost start = out@;
    let mut i: usize = 0;
    assert(start + nested_pairs(ch@.take(0)) =~= start);
    while i < ch.len()
        invariant
            i <= ch@.len(),
            out@ == start + nested_pairs(ch@.take(i as int)),
        decreases ch@.len() - i,
    {
        push_opposed(&ch[i], out);
        assert(ch@.take(i + 1).drop_last() =~= ch@.take(i as int));
        assert(out@ =~= start + nested_pairs(ch@.take(i + 1)));
        i = i + 1;
    }
    assert(ch@.take(ch@.len() as int) =~= ch@);
}

/// The pairs of conditions that bound one indicator from opposite sides by
/// fixed values within one all-of group (`IsAbove a` beside `IsBelow b`);
/// such a pair is contradictory when `a` is not below `b`.
pub fn opposed_conditions<V: Copy>(node: &ConditionNode<V>) -> (r: Vec<(Condition<V>, Condition<V>)>)
    ensures
        r@ == opposed_pairs(*node),
{
    let mut out: Vec<(Condition<V>, Condition<V>)> = Vec::new();
    push_opposed(node, &mut out);
    assert(out@ =~= opposed_pairs(*node));
    out
}

} // verus!

verus! {

/// How many groups, of any kind, lie on the longest path from `node` down to
/// a node of the tree (0 for a single condition or an empty group).
pub open spec fn deepest<V>(node: ConditionNode<V>) -> nat
    decreases node,
{
    match node {
        ConditionNode::Condition(_) => 0,
        ConditionNode::Group(ConditionGroup::AllOf(c)) => deepest_below(c@),
        ConditionNode::Group(ConditionGroup::AnyOf(c)) => deepest_below(c@),
    }
}

/// The largest `1 + deepest(child)` over a list of children (0 if none).
pub open spec fn deepest_below<V>(ch: Seq<ConditionNode<V>>) -> nat
    decreases ch,
{
    if ch.len() == 0 {
        0
    } else {
        let here = 1 + deepest(ch[0]);
        let rest = deepest_below(ch.drop_first());
        if here >= rest { here } else { rest }
    }
}

proof fn lemma_depth_bound_seq<V>(ch: Seq<ConditionNode<V>>, d: nat)
    requires
        d >= 1,
        first_violation_seq(ch, d) is None,
    ensures
        ch.len() == 0 || d + deepest_below(ch) <= MAX_NESTING_DEPTH + 1,
    decreases ch,
{
    if ch.len() > 0 {
        assert(first_violation(ch[0], d) is None);
        assert(first_violation_seq(ch.drop_first(), d) is None);
        lemma_depth_bound(ch[0], d);
        lemma_depth_bound_seq(ch.drop_first(), d);
        assert(deepest_below(ch) == if 1 + deepest(ch[0]) >= deepest_below(ch.drop_first()) {
            1 + deepest(ch[0])
        } else {
            deepest_below(ch.drop_first())
        });
    }
}

/// Law: a tree that passes the structural check at depth `d` has no node
/// deeper than the maximum nesting depth, counting every enclosing group
/// whether all-of or any-of; so a leaf under three nested groups is refused.
pub proof fn lemma_depth_bound<V>(node: ConditionNode<V>, d: nat)
    requires
        first_violation(node, d) is None,
    ensures
        d + deepest(node) <= MAX_NESTING_DEPTH,
    decreases node,
{
    match node {
        ConditionNode::Condition(_) => {},
        ConditionNode::Group(ConditionGroup::AllOf(c)) => lemma_depth_bound_seq(c@, d + 1),
        ConditionNode::Group(ConditionGroup::AnyOf(c)) => lemma_depth_bound_seq(c@, d + 1),
    }
}

proof fn lemma_same_trees_agree<V>(a: Seq<ConditionNode<V>>, b: Seq<ConditionNode<V>>)
    requires
        same_trees(a, b),
    ensures
        leaves_seq(a) == leaves_seq(b),
        leaf_count_seq(a) == leaf_count_seq(b),
        forall|i: int| 0 <= i < a.len() ==> same_tree(#[trigger] a[i], b[i]),
    decreases a,
{
    if a.len() > 0 {
        lemma_same_trees_agree(a.drop_last(), b.drop_last());
        lemma_same_tree_agrees(a.last(), b.last());
        assert forall|i: int| 0 <= i < a.len() implies same_tree(#[trigger] a[i], b[i]) by {
            if i < a.len() - 1 {
                assert(a.drop_last()[i] == a[i]);
                assert(b.drop_last()[i] == b[i]);
            }
        }
    }
}

/// Law: a copy of a condition tree (`clone_node`, `ConditionNode::clone`)
/// has the same leaf conditions in the same order — each keeping its left
/// operand, operator and right-hand side — and so the same leaf count.
pub proof fn lemma_same_tree_agrees<V>(a: ConditionNode<V>, b: ConditionNode<V>)
    requires
        same_tree(a, b),
    ensures
        leaves(a) == leaves(b),
        leaf_count(a) == leaf_count(b),
        a is Condition <==> b is Condition,
    decreases a,
{
    match (a, b) {
        (ConditionNode::Group(ConditionGroup::AllOf(x)), ConditionNode::Group(ConditionGroup::AllOf(y))) => {
            lemma_same_trees_agree(x@, y@);
        },
        (ConditionNode::Group(ConditionGroup::AnyOf(x)), ConditionNode::Group(ConditionGroup::AnyOf(y))) => {
            lemma_same_trees_agree(x@, y@);
        },
        _ => {},
    }
}

} // verus!
