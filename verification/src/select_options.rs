//! Id-plus-label projections of the store's collections, consumed by
//! selection widgets.

use vstd::prelude::*;

verus! {

/// One selectable entry: a display label and the selected value.
#[derive(Clone)]
pub struct SelectOption<V> {
    pub label: String,
    pub value: V,
}

/// A list of selectable entries.
pub struct SelectItems<V>(pub Vec<SelectOption<V>>);

impl<V> SelectItems<V> {
    /// The underlying options.
    pub fn options(&self) -> (r: &Vec<SelectOption<V>>)
        ensures
            r == &self.0,
    {
        &self.0
    }

    /// How many options there are.
    pub fn len(&self) -> (n: usize)
        ensures
            n == self.0@.len(),
    {
        self.0.len()
    }
}

} // verus!
