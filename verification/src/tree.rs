//! The collapse state of a whole tree: the state of the root container and,
//! for each child, the state of the tree below it.

use crate::collapse::{
    get_collapsed_state, initial_flags, lemma_toggle_twice, should_reinitialize, toggled,
    CollapseState,
};
use crate::common::value_length;
use crate::value::{Json, JsonEntry, JsonValue};
use crate::JsonViewerOption;
use vstd::prelude::*;

verus! {

/// The model of the collapse state of a whole tree.
pub struct TreeModel {
    pub collapsed: Seq<bool>,
    pub children: Seq<TreeModel>,
}

impl TreeModel {
    /// Whether this state is one for `value`: at every container of the
    /// tree, one flag and one state for each direct child.
    pub open spec fn fits(self, value: Json) -> bool
        decreases self,
    {
        &&& self.collapsed.len() == value.length()
        &&& self.children.len() == value.length()
        &&& forall|i: int|
            0 <= i < self.children.len() ==> (#[trigger] self.children[i]).fits(value.child(i))
    }
}

/// The collapse state of a whole tree: the flags of the root container's
/// children, and for each child the state of the tree below it.
#[derive(Debug, PartialEq, Eq)]
pub struct TreeState {
    pub collapsed: CollapseState,
    pub children: Vec<TreeState>,
}

impl View for TreeState {
    type V = TreeModel;

    open spec fn view(&self) -> TreeModel
        decreases self,
    {
        TreeModel {
            collapsed: self.collapsed@,
            children: Seq::new(
                self.children@.len(),
                |i: int|
                    if 0 <= i < self.children@.len() {
                        self.children@[i].view()
                    } else {
                        TreeModel { collapsed: Seq::empty(), children: Seq::empty() }
                    },
            ),
        }
    }
}

/// The state with which the tree of `value` is first rendered: at every
/// container, the initial flags of its children.
pub open spec fn initial_tree(value: Json, option: JsonViewerOption) -> TreeModel
    decreases value,
{
    TreeModel {
        collapsed: initial_flags(value, option),
        children: Seq::new(
            value.length(),
            |i: int|
                if 0 <= i < value.length() {
                    initial_tree(value.child(i), option)
                } else {
                    TreeModel { collapsed: Seq::empty(), children: Seq::empty() }
                },
        ),
    }
}

/// The initial state of a tree is a state for that tree.
pub proof fn lemma_initial_tree_fits(value: Json, option: JsonViewerOption)
    ensures
        initial_tree(value, option).fits(value),
    decreases value,
{
    let tree = initial_tree(value, option);
    assert forall|i: int| 0 <= i < tree.children.len() implies (#[trigger] tree.children[i]).fits(
        value.child(i),
    ) by {
        lemma_initial_tree_fits(value.child(i), option);
    }
}

fn initial_of_items(items: &Vec<JsonValue>, option: &JsonViewerOption) -> (r: Vec<TreeState>)
    ensures
        r@.len() == items@.len(),
        forall|i: int|
            0 <= i < r@.len() ==> (#[trigger] r@[i])@ == initial_tree(items@[i]@, *option),
    decreases items,
{
    let mut r: Vec<TreeState> = Vec::new();
    let mut k: usize = 0;
    while k < items.len()
        invariant
            k <= items@.len(),
            r@.len() == k,
            forall|i: int| 0 <= i < k ==> (#[trigger] r@[i])@ == initial_tree(items@[i]@, *option),
        decreases items@.len() - k,
    {
        r.push(TreeState::initial(&items[k], option));
        k += 1;
    }
    r
}

fn initial_of_entries(entries: &Vec<JsonEntry>, option: &JsonViewerOption) -> (r: Vec<TreeState>)
    ensures
        r@.len() == entries@.len(),
        forall|i: int|
            0 <= i < r@.len() ==> (#[trigger] r@[i])@ == initial_tree(
                entries@[i].value@,
                *option,
            ),
    decreases entries,
{
    let mut r: Vec<TreeState> = Vec::new();
    let mut k: usize = 0;
    while k < entries.len()
        invariant
            k <= entries@.len(),
            r@.len() == k,
            forall|i: int|
                0 <= i < k ==> (#[trigger] r@[i])@ == initial_tree(entries@[i].value@, *option),
        decreases entries@.len() - k,
    {
        r.push(TreeState::initial(&entries[k].value, option));
        k += 1;
    }
    r
}

impl TreeState {
    /// The state of a tree has the states of the trees below it, in order.
    pub proof fn lemma_children(self)
        ensures
            self@.collapsed == self.collapsed@,
            self@.children.len() == self.children@.len(),
            forall|i: int|
                0 <= i < self.children@.len() ==> (#[trigger] self@.children[i])
                    == self.children@[i]@,
    {
    }

    /// The state with which the tree of `value` is first rendered.
    pub fn initial(value: &JsonValue, option: &JsonViewerOption) -> (r: TreeState)
        ensures
            r@ == initial_tree(value@, *option),
            r@.fits(value@),
        decreases value,
    {
        let collapsed = get_collapsed_state(value, option);
        let children = match value {
            JsonValue::Array(items) => initial_of_items(items, option),
            JsonValue::Object(entries) => initial_of_entries(entries, option),
            _ => Vec::new(),
        };
        let r = TreeState { collapsed, children };
        proof {
            r.lemma_children();
            value.lemma_children();
            assert(r@.children =~= initial_tree(value@, *option).children);
            lemma_initial_tree_fits(value@, *option);
        }
        r
    }
}

/// The state of a tree after a toggle at `path`, the indices that lead
/// from the root to a child: that child's flag in its parent is inverted,
/// and nothing else changes. A path that leads nowhere changes nothing.
pub open spec fn toggled_at(tree: TreeModel, path: Seq<usize>) -> TreeModel
    decreases path.len(),
{
    if path.len() == 0 {
        tree
    } else if path.len() == 1 {
        TreeModel { collapsed: toggled(tree.collapsed, path[0] as int), children: tree.children }
    } else if path[0] < tree.children.len() {
        TreeModel {
            collapsed: tree.collapsed,
            children: tree.children.update(
                path[0] as int,
                toggled_at(tree.children[path[0] as int], path.subrange(1, path.len() as int)),
            ),
        }
    } else {
        tree
    }
}

/// The flag that `path` leads to from the root of a tree, where it leads
/// to one.
pub open spec fn flag_at(tree: TreeModel, path: Seq<usize>) -> Option<bool>
    decreases path.len(),
{
    if path.len() == 0 {
        None
    } else if path.len() == 1 {
        if path[0] < tree.collapsed.len() {
            Some(tree.collapsed[path[0] as int])
        } else {
            None
        }
    } else if path[0] < tree.children.len() {
        flag_at(tree.children[path[0] as int], path.subrange(1, path.len() as int))
    } else {
        None
    }
}

/// A toggle at `path` inverts the flag that `path` leads to and leaves
/// every other flag of the tree as it was: the other flags of the same
/// container, the flag that the parent keeps for that container, and those
/// of every other container.
pub proof fn lemma_toggle_at_changes_one_flag(tree: TreeModel, path: Seq<usize>, other: Seq<usize>)
    ensures
        flag_at(toggled_at(tree, path), path) == match flag_at(tree, path) {
            Some(flag) => Some(!flag),
            None => None,
        },
        other != path ==> flag_at(toggled_at(tree, path), other) == flag_at(tree, other),
    decreases path.len(),
{
    if path.len() >= 2 && path[0] < tree.children.len() {
        let child = tree.children[path[0] as int];
        let rest = path.subrange(1, path.len() as int);
        if other.len() >= 2 {
            let other_rest = other.subrange(1, other.len() as int);
            lemma_toggle_at_changes_one_flag(child, rest, other_rest);
            if other[0] == path[0] && other_rest == rest {
                assert forall|i: int| 0 <= i < other.len() implies other[i] == path[i] by {
                    if i > 0 {
                        assert(other[i] == other_rest[i - 1]);
                        assert(path[i] == rest[i - 1]);
                    }
                }
                assert(other =~= path);
            }
        } else {
            lemma_toggle_at_changes_one_flag(child, rest, rest);
        }
    } else if path.len() == 1 {
        if other.len() == 1 && other[0] == path[0] {
            assert(other =~= path);
        }
    }
}

/// Two toggles at one path give back the state they started from.
pub proof fn lemma_toggle_at_twice(tree: TreeModel, path: Seq<usize>)
    ensures
        toggled_at(toggled_at(tree, path), path) == tree,
    decreases path.len(),
{
    if path.len() == 1 {
        lemma_toggle_twice(tree.collapsed, path[0] as int);
    } else if path.len() >= 2 && path[0] < tree.children.len() {
        let rest = path.subrange(1, path.len() as int);
        lemma_toggle_at_twice(tree.children[path[0] as int], rest);
        assert(toggled_at(toggled_at(tree, path), path).children =~= tree.children);
    }
}

/// A toggle keeps a state for a tree a state for that tree.
pub proof fn lemma_toggle_at_fits(tree: TreeModel, path: Seq<usize>, value: Json)
    requires
        tree.fits(value),
    ensures
        toggled_at(tree, path).fits(value),
    decreases path.len(),
{
    let next = toggled_at(tree, path);
    if path.len() >= 2 && path[0] < tree.children.len() {
        let rest = path.subrange(1, path.len() as int);
        lemma_toggle_at_fits(tree.children[path[0] as int], rest, value.child(path[0] as int));
        assert forall|i: int| 0 <= i < next.children.len() implies (#[trigger] next.children[i]).fits(
            value.child(i),
        ) by {
            if i != path[0] {
                assert(next.children[i] == tree.children[i]);
            }
        }
    } else {
        assert forall|i: int| 0 <= i < next.children.len() implies (#[trigger] next.children[i]).fits(
            value.child(i),
        ) by {
            assert(next.children[i] == tree.children[i]);
        }
    }
}

impl TreeState {
    fn toggle_from(&mut self, path: &Vec<usize>, from: usize)
        requires
            from <= path@.len(),
        ensures
            final(self)@ == toggled_at(old(self)@, path@.subrange(from as int, path@.len() as int)),
        decreases path@.len() - from,
    {
        let ghost before = self@;
        let ghost rest = path@.subrange(from as int, path@.len() as int);
        proof {
            self.lemma_children();
        }
        if from == path.len() {
            return ;
        }
        let index = path[from];
        if from + 1 == path.len() {
            self.collapsed.toggle(index);
            proof {
                self.lemma_children();
                assert(self@.children =~= before.children);
            }
        } else if index < self.children.len() {
            let mut child = self.children.remove(index);
            let ghost child_before = child@;
            child.toggle_from(path, from + 1);
            self.children.insert(index, child);
            proof {
                self.lemma_children();
                assert(rest.subrange(1, rest.len() as int) =~= path@.subrange(
                    from + 1,
                    path@.len() as int,
                ));
                assert(child_before == before.children[index as int]);
                assert(self@.children =~= before.children.update(index as int, child@));
            }
        }
    }

    /// Toggles the flag of the child that `path` leads to from the root.
    pub fn toggle_at(&mut self, path: &Vec<usize>)
        ensures
            final(self)@ == toggled_at(old(self)@, path@),
    {
        proof {
            assert(path@.subrange(0, path@.len() as int) =~= path@);
        }
        self.toggle_from(path, 0);
    }
}

/// The state to go on with when the tree is now that of `value`: a
/// container that kept its number of children keeps its flags, and one
/// whose number of children changed gets the initial state of its new
/// value, with nothing kept.
pub open spec fn reconciled(tree: TreeModel, value: Json, option: JsonViewerOption) -> TreeModel
    decreases value,
{
    if tree.collapsed.len() != value.length() || tree.children.len() != value.length() {
        initial_tree(value, option)
    } else {
        TreeModel {
            collapsed: tree.collapsed,
            children: Seq::new(
                value.length(),
                |i: int|
                    if 0 <= i < value.length() {
                        reconciled(tree.children[i], value.child(i), option)
                    } else {
                        arbitrary()
                    },
            ),
        }
    }
}

/// A reconciled state is a state for the new tree.
pub proof fn lemma_reconciled_fits(tree: TreeModel, value: Json, option: JsonViewerOption)
    ensures
        reconciled(tree, value, option).fits(value),
    decreases value,
{
    let next = reconciled(tree, value, option);
    if tree.collapsed.len() != value.length() || tree.children.len() != value.length() {
        lemma_initial_tree_fits(value, option);
    } else {
        assert forall|i: int| 0 <= i < next.children.len() implies (#[trigger] next.children[i]).fits(
            value.child(i),
        ) by {
            lemma_reconciled_fits(tree.children[i], value.child(i), option);
        }
    }
}

/// A state that is one for the tree is kept as it is.
pub proof fn lemma_reconciled_keeps(tree: TreeModel, value: Json, option: JsonViewerOption)
    requires
        tree.fits(value),
    ensures
        reconciled(tree, value, option) == tree,
    decreases value,
{
    let next = reconciled(tree, value, option);
    assert forall|i: int| 0 <= i < next.children.len() implies next.children[i]
        == tree.children[i] by {
        assert(tree.children[i].fits(value.child(i)));
        lemma_reconciled_keeps(tree.children[i], value.child(i), option);
    }
    assert(next.children =~= tree.children);
}

fn reconcile_items(
    states: &Vec<TreeState>,
    items: &Vec<JsonValue>,
    option: &JsonViewerOption,
) -> (r: Vec<TreeState>)
    requires
        states@.len() == items@.len(),
    ensures
        r@.len() == items@.len(),
        forall|i: int|
            0 <= i < r@.len() ==> (#[trigger] r@[i])@ == reconciled(
                states@[i]@,
                items@[i]@,
                *option,
            ),
    decreases items,
{
    let mut r: Vec<TreeState> = Vec::new();
    let mut k: usize = 0;
    while k < items.len()
        invariant
            k <= items@.len(),
            states@.len() == items@.len(),
            r@.len() == k,
            forall|i: int|
                0 <= i < k ==> (#[trigger] r@[i])@ == reconciled(
                    states@[i]@,
                    items@[i]@,
                    *option,
                ),
        decreases items@.len() - k,
    {
        r.push(states[k].reconcile(&items[k], option));
        k += 1;
    }
    r
}

fn reconcile_entries(
    states: &Vec<TreeState>,
    entries: &Vec<JsonEntry>,
    option: &JsonViewerOption,
) -> (r: Vec<TreeState>)
    requires
        states@.len() == entries@.len(),
    ensures
        r@.len() == entries@.len(),
        forall|i: int|
            0 <= i < r@.len() ==> (#[trigger] r@[i])@ == reconciled(
                states@[i]@,
                entries@[i].value@,
                *option,
            ),
    decreases entries,
{
    let mut r: Vec<TreeState> = Vec::new();
    let mut k: usize = 0;
    while k < entries.len()
        invariant
            k <= entries@.len(),
            states@.len() == entries@.len(),
            r@.len() == k,
            forall|i: int|
                0 <= i < k ==> (#[trigger] r@[i])@ == reconciled(
                    states@[i]@,
                    entries@[i].value@,
                    *option,
                ),
        decreases entries@.len() - k,
    {
        r.push(states[k].reconcile(&entries[k].value, option));
        k += 1;
    }
    r
}

impl TreeState {
    /// The state to go on with when the tree is now that of `value`.
    pub fn reconcile(&self, value: &JsonValue, option: &JsonViewerOption) -> (r: TreeState)
        ensures
            r@ == reconciled(self@, value@, *option),
            r@.fits(value@),
        decreases value,
    {
        proof {
            self.lemma_children();
            value.lemma_children();
            lemma_reconciled_fits(self@, value@, *option);
        }
        let count = value_length(value);
        if should_reinitialize(self.collapsed.len(), count) || self.children.len() != count {
            TreeState::initial(value, option)
        } else {
            let children = match value {
                JsonValue::Array(items) => reconcile_items(&self.children, items, option),
                JsonValue::Object(entries) => reconcile_entries(&self.children, entries, option),
                _ => Vec::new(),
            };
            let r = TreeState { collapsed: self.collapsed.clone(), children };
            proof {
                r.lemma_children();
                assert(r@.children =~= reconciled(self@, value@, *option).children);
            }
            r
        }
    }
}

fn states_fit_items(states: &Vec<TreeState>, items: &Vec<JsonValue>) -> (b: bool)
    requires
        states@.len() == items@.len(),
    ensures
        b == forall|i: int| 0 <= i < items@.len() ==> (#[trigger] states@[i])@.fits(items@[i]@),
    decreases items,
{
    let mut k: usize = 0;
    while k < items.len()
        invariant
            k <= items@.len(),
            states@.len() == items@.len(),
            forall|i: int| 0 <= i < k ==> (#[trigger] states@[i])@.fits(items@[i]@),
        decreases items@.len() - k,
    {
        if !states[k].is_for(&items[k]) {
            return false;
        }
        k += 1;
    }
    true
}

fn states_fit_entries(states: &Vec<TreeState>, entries: &Vec<JsonEntry>) -> (b: bool)
    requires
        states@.len() == entries@.len(),
    ensures
        b == forall|i: int|
            0 <= i < entries@.len() ==> (#[trigger] states@[i])@.fits(entries@[i].value@),
    decreases entries,
{
    let mut k: usize = 0;
    while k < entries.len()
        invariant
            k <= entries@.len(),
            states@.len() == entries@.len(),
            forall|i: int| 0 <= i < k ==> (#[trigger] states@[i])@.fits(entries@[i].value@),
        decreases entries@.len() - k,
    {
        if !states[k].is_for(&entries[k].value) {
            return false;
        }
        k += 1;
    }
    true
}

impl TreeState {
    /// Whether this state is one for `value`: at every container of the
    /// tree, one flag and one state for each direct child.
    pub fn is_for(&self, value: &JsonValue) -> (b: bool)
        ensures
            b == self@.fits(value@),
        decreases value,
    {
        proof {
            self.lemma_children();
            value.lemma_children();
        }
        let count = value_length(value);
        if self.collapsed.len() != count || self.children.len() != count {
            return false;
        }
        let b = match value {
            JsonValue::Array(items) => states_fit_items(&self.children, items),
            JsonValue::Object(entries) => states_fit_entries(&self.children, entries),
            _ => true,
        };
        proof {
            if b {
                assert forall|i: int| 0 <= i < self@.children.len() implies (
                #[trigger] self@.children[i]).fits(value@.child(i)) by {
                    assert(self@.children[i] == self.children@[i]@);
                    assert(value@.child(i) == value.child_value(i)@);
                }
            } else {
                let i = choose|i: int|
                    0 <= i < self.children@.len() && !(#[trigger] self.children@[i])@.fits(
                        value.child_value(i)@,
                    );
                assert(self@.children[i] == self.children@[i]@);
                assert(value@.child(i) == value.child_value(i)@);
                assert(!self@.children[i].fits(value@.child(i)));
            }
        }
        b
    }
}

} // verus!
