//! A row of labelled tabs with at most one active label, plus a whole-row
//! activation switch.

use vstd::prelude::*;
use crate::text::str_eq;

verus! {

/// One tab: its label and whether it is the selected one.
#[derive(Clone, Debug)]
pub struct TabNode {
    pub label: String,
    pub is_active: bool,
}

/// A tab row. `is_deactivated` hides the selection without forgetting it.
pub struct Tabs {
    pub tabs: Vec<TabNode>,
    pub is_deactivated: bool,
}

impl Tabs {
    /// Builds a row from labels, marking those equal to `active_elm` active.
    pub fn new(items: Vec<&str>, active_elm: &str) -> (r: Self)
        ensures
            r.tabs@.len() == items@.len(),
            forall|i: int|
                0 <= i < items@.len() ==> (#[trigger] r.tabs@[i]).label@ == items@[i]@
                    && r.tabs@[i].is_active == (items@[i]@ == active_elm@),
            !r.is_deactivated,
    {
        let mut tabs: Vec<TabNode> = Vec::new();
        let mut i: usize = 0;
        while i < items.len()
            invariant
                i <= items@.len(),
                tabs@.len() == i,
                forall|j: int|
                    0 <= j < i ==> (#[trigger] tabs@[j]).label@ == items@[j]@
                        && tabs@[j].is_active == (items@[j]@ == active_elm@),
            decreases items@.len() - i,
        {
            let elm: &str = items[i];
            let node = TabNode { label: elm.to_owned(), is_active: str_eq(elm, active_elm) };
            tabs.push(node);
            i = i + 1;
        }
        Tabs { tabs, is_deactivated: false }
    }

    /// The tabs, in order.
    pub fn vec(&self) -> (r: &Vec<TabNode>)
        ensures
            r == &self.tabs,
    {
        &self.tabs
    }

    /// Marks exactly the tabs labelled `active_elm` active.
    pub fn set_active(&mut self, active_elm: &str)
        ensures
            final(self).tabs@.len() == old(self).tabs@.len(),
            forall|i: int|
                0 <= i < old(self).tabs@.len() ==> (#[trigger] final(self).tabs@[i]).label
                    == old(self).tabs@[i].label && final(self).tabs@[i].is_active == (old(
                self,
                ).tabs@[i].label@ == active_elm@),
            final(self).is_deactivated == old(self).is_deactivated,
    {
        let n: usize = self.tabs.len();
        let mut i: usize = 0;
        while i < n
            invariant
                n == self.tabs@.len(),
                n == old(self).tabs@.len(),
                i <= n,
                self.is_deactivated == old(self).is_deactivated,
                forall|j: int|
                    i <= j < n ==> #[trigger] self.tabs@[j] == old(self).tabs@[j],
                forall|j: int|
                    0 <= j < i ==> (#[trigger] self.tabs@[j]).label == old(self).tabs@[j].label
                        && self.tabs@[j].is_active == (old(self).tabs@[j].label@ == active_elm@),
            decreases n - i,
        {
            let hit: bool = str_eq(self.tabs[i].label.as_str(), active_elm);
            self.tabs[i].is_active = hit;
            i = i + 1;
        }
    }

    /// Whether the row as a whole is shown as active.
    pub fn is_active(&self) -> (r: bool)
        ensures
            r == !self.is_deactivated,
    {
        !self.is_deactivated
    }

    /// Hides the row's selection.
    pub fn deactivate(&mut self)
        ensures
            *final(self) == (Tabs { is_deactivated: true, ..*old(self) }),
    {
        self.is_deactivated = true;
    }

    /// Shows the row's selection again.
    pub fn activate(&mut self)
        ensures
            *final(self) == (Tabs { is_deactivated: false, ..*old(self) }),
    {
        self.is_deactivated = false;
    }

    /// Flips the row between shown and hidden.
    pub fn toggle_activation(&mut self)
        ensures
            *final(self) == (Tabs { is_deactivated: !old(self).is_deactivated, ..*old(self) }),
    {
        if self.is_deactivated {
            self.activate();
        } else {
            self.deactivate();
        }
    }

    /// The first active tab, unless the row is hidden.
    pub fn get_active(&self) -> (r: Option<&TabNode>)
        ensures
            self.is_deactivated ==> r is None,
            !self.is_deactivated ==> match r {
                Some(node) => {
                    &&& exists|i: int|
                        0 <= i < self.tabs@.len() && self.tabs@[i] == *node
                            && self.tabs@[i].is_active && forall|j: int|
                            0 <= j < i ==> !(#[trigger] self.tabs@[j]).is_active
                },
                None => forall|i: int| 0 <= i < self.tabs@.len() ==> !(#[trigger] self.tabs@[i]).is_active,
            },
    {
        if self.is_deactivated {
            return None;
        }
        let n: usize = self.tabs.len();
        let mut i: usize = 0;
        while i < n
            invariant
                n == self.tabs@.len(),
                i <= n,
                !self.is_deactivated,
                forall|j: int| 0 <= j < i ==> !(#[trigger] self.tabs@[j]).is_active,
            decreases n - i,
        {
            if self.tabs[i].is_active {
                return Some(&self.tabs[i]);
            }
            i = i + 1;
        }
        None
    }
}

} // verus!
