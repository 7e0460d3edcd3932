//! The stack of open dialogs: which index a dialog gets, what mounting and
//! unmounting one does to the page, and which dialog a key press closes.

use vstd::prelude::*;
use vstd::string::StringExecFns;

verus! {

/// The highest index among the mounted dialogs, and 0 where none is
/// mounted.
pub open spec fn highest(mounted: Seq<i32>) -> int
    decreases mounted.len(),
{
    if mounted.len() == 0 {
        0
    } else if mounted.last() > highest(mounted.drop_last()) {
        mounted.last() as int
    } else {
        highest(mounted.drop_last())
    }
}

/// The position of the last dialog with `index` among the first `n`
/// mounted ones, and -1 where none of them has it.
pub open spec fn last_position(mounted: Seq<i32>, index: i32, n: nat) -> int
    decreases n,
{
    if n == 0 || n > mounted.len() {
        -1
    } else if mounted[n - 1] == index {
        n - 1
    } else {
        last_position(mounted, index, (n - 1) as nat)
    }
}

/// The mounted dialogs after the one with `index` that was mounted last has
/// gone; the same dialogs where none has that index.
pub open spec fn without(mounted: Seq<i32>, index: i32) -> Seq<i32> {
    let at = last_position(mounted, index, mounted.len());
    if at < 0 {
        mounted
    } else {
        mounted.remove(at)
    }
}

/// Whether the dialogs were opened one on another and closed from the top
/// only: whether each has its position as its index.
pub open spec fn is_stack(mounted: Seq<i32>) -> bool {
    forall|i: int| 0 <= i < mounted.len() ==> mounted[i] == i
}

/// No mounted dialog has an index above the highest, and where a dialog is
/// mounted the highest is the index of one, or 0.
pub proof fn lemma_highest(mounted: Seq<i32>)
    ensures
        highest(mounted) >= 0,
        forall|i: int| 0 <= i < mounted.len() ==> mounted[i] <= highest(mounted),
        highest(mounted) == 0 || exists|i: int|
            0 <= i < mounted.len() && mounted[i] == highest(mounted),
    decreases mounted.len(),
{
    if mounted.len() > 0 {
        let rest = mounted.drop_last();
        lemma_highest(rest);
        assert forall|i: int| 0 <= i < mounted.len() implies mounted[i] <= highest(mounted) by {
            if i < rest.len() {
                assert(rest[i] == mounted[i]);
            }
        }
        if highest(mounted) != 0 {
            if mounted.last() > highest(rest) {
                assert(mounted[mounted.len() - 1] == highest(mounted));
            } else {
                let i = choose|i: int| 0 <= i < rest.len() && rest[i] == highest(rest);
                assert(mounted[i] == highest(mounted));
            }
        }
    }
}

/// In a stack of dialogs the one opened last has the highest index.
pub proof fn lemma_stack_top(mounted: Seq<i32>)
    requires
        is_stack(mounted),
        mounted.len() > 0,
    ensures
        highest(mounted) == mounted.len() - 1,
        highest(mounted) == mounted.last(),
{
    lemma_highest(mounted);
    assert(mounted[mounted.len() - 1] <= highest(mounted));
    if highest(mounted) != 0 {
        let i = choose|i: int| 0 <= i < mounted.len() && mounted[i] == highest(mounted);
        assert(mounted[i] == i);
    }
}

/// What a dialog does to the page when it is mounted or unmounted.
#[derive(Clone, Copy, Debug, PartialEq, Eq, Structural)]
pub struct PageEffects {
    /// Whether the page's scroll is locked (on mount) or released (on
    /// unmount): whether the dialog is the bottommost.
    pub scroll: bool,
    /// Whether the listener for key presses is installed (on mount) or
    /// removed (on unmount).
    pub key_listener: bool,
}

/// The effects of mounting, and of unmounting, the dialog with `index`.
pub fn page_effects(index: i32) -> (r: PageEffects)
    ensures
        r == (PageEffects { scroll: index == 0, key_listener: true }),
{
    PageEffects { scroll: index == 0, key_listener: true }
}

/// What happens to an open dialog.
#[derive(Debug, PartialEq, Eq)]
pub enum DialogEvent {
    /// A click on the backdrop, outside the content panel.
    BackdropClick,
    /// A click inside the content panel.
    ContentClick,
    /// A key press, by the key's name.
    KeyDown(String),
}

/// Whether the event closes a dialog with `index`, where `top` is the
/// highest index among the mounted dialogs: a click on the backdrop does,
/// a click on the content does not, and the Escape key does if the dialog
/// is topmost.
pub open spec fn closes(index: i32, event: DialogEvent, top: int) -> bool {
    match event {
        DialogEvent::BackdropClick => true,
        DialogEvent::ContentClick => false,
        DialogEvent::KeyDown(key) => key@ == "Escape"@ && top == index,
    }
}

/// The style of the backdrop of the dialog with `index`: every dialog but
/// the bottommost darkens what is below it.
pub open spec fn backdrop(index: i32) -> Seq<char> {
    if index == 0 {
        ""@
    } else {
        "background-color: rgba(0, 0, 0, 0.4);"@
    }
}

/// Writes the style of the backdrop of the dialog with `index`.
pub fn overlay_style(index: i32) -> (r: &'static str)
    ensures
        r@ == backdrop(index),
{
    if index == 0 {
        ""
    } else {
        "background-color: rgba(0, 0, 0, 0.4);"
    }
}

/// The indices of the mounted dialogs, in the order in which they were
/// mounted.
#[derive(Debug, PartialEq, Eq)]
pub struct DialogStack {
    pub mounted: Vec<i32>,
}

impl View for DialogStack {
    type V = Seq<i32>;

    open spec fn view(&self) -> Seq<i32> {
        self.mounted@
    }
}

impl DialogStack {
    /// A stack with no dialog mounted.
    pub fn new() -> (r: Self)
        ensures
            r@ == Seq::<i32>::empty(),
    {
        DialogStack { mounted: Vec::new() }
    }

    /// The number of mounted dialogs.
    pub fn len(&self) -> (n: usize)
        ensures
            n == self@.len(),
    {
        self.mounted.len()
    }

    /// The highest index among the mounted dialogs, and 0 where none is
    /// mounted.
    pub fn top(&self) -> (r: i32)
        ensures
            r == highest(self@),
    {
        let mut r: i32 = 0;
        let mut k: usize = 0;
        while k < self.mounted.len()
            invariant
                k <= self.mounted@.len(),
                r == highest(self.mounted@.take(k as int)),
            decreases self.mounted@.len() - k,
        {
            proof {
                assert(self.mounted@.take(k + 1).drop_last() =~= self.mounted@.take(k as int));
            }
            if self.mounted[k] > r {
                r = self.mounted[k];
            }
            k += 1;
        }
        proof {
            assert(self.mounted@.take(k as int) =~= self.mounted@);
        }
        r
    }

    /// Mounts a dialog. Its index is the number of dialogs that were
    /// mounted before it.
    pub fn open(&mut self) -> (index: i32)
        requires
            old(self)@.len() <= i32::MAX,
        ensures
            index == old(self)@.len(),
            final(self)@ == old(self)@.push(index),
    {
        let index = self.mounted.len() as i32;
        self.mounted.push(index);
        index
    }

    /// Unmounts the dialog with `index` that was mounted last. Nothing
    /// changes where no mounted dialog has that index.
    pub fn close(&mut self, index: i32)
        ensures
            final(self)@ == without(old(self)@, index),
    {
        let mut k: usize = self.mounted.len();
        while k > 0
            invariant
                k <= self.mounted@.len(),
                self.mounted@ == old(self)@,
                last_position(self.mounted@, index, self.mounted@.len()) == last_position(
                    self.mounted@,
                    index,
                    k as nat,
                ),
            decreases k,
        {
            if self.mounted[k - 1] == index {
                self.mounted.remove(k - 1);
                return ;
            }
            k -= 1;
        }
    }

    /// Whether the event closes the mounted dialog with `index`.
    pub fn dialog(&self, index: i32, event: &DialogEvent) -> (close: bool)
        ensures
            close == closes(index, *event, highest(self@)),
    {
        match event {
            DialogEvent::BackdropClick => true,
            DialogEvent::ContentClick => false,
            DialogEvent::KeyDown(key) => {
                let escape = String::from_str("Escape");
                *key == escape && self.top() == index
            },
        }
    }
}

} // verus!
