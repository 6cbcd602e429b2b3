//! An environment: a named bag of substitutable key/value variables plus an
//! optional base URL.

use vstd::prelude::*;
use crate::ids::new_id;
use crate::rows::blank_row;
use crate::rows::blank_rows;
use crate::rows::clone_rows;
use crate::text::clone_opt_string;
use crate::rows::kv_view;
use crate::rows::rows_key_updated;
use crate::rows::rows_value_updated;
use crate::rows::update_row_key;
use crate::rows::update_row_value;
use crate::subst::substituted;
use crate::subst::substitute_chars;
use crate::text::chars_string;
use crate::text::str_chars;
use crate::text::str_eq;

verus! {

/// A named set of substitution variables plus an optional base URL. The
/// items keep insertion order, keys need not be unique, and the last item is
/// kept as a blank "add new" row by the edit operations.
#[derive(Clone, Debug)]
pub struct Env {
    pub id: String,
    pub name: String,
    pub items: Vec<(String, String)>,
    pub is_active: bool,
    pub base_url: Option<String>,
}

impl Default for Env {
    /// A fresh inactive environment named `Default env` with one blank item
    /// and no base URL. The id is freshly drawn.
    fn default() -> (r: Self)
        ensures
            r.name@ == "Default env"@,
            kv_view(r.items@) =~= seq![blank_row()],
            !r.is_active,
            r.base_url is None,
    {
        Env {
            id: new_id(),
            name: "Default env".to_owned(),
            items: blank_rows(),
            is_active: false,
            base_url: None,
        }
    }
}

/// Whether two environments hold the same data apart from their ids.
pub open spec fn env_data_eq(a: Env, b: Env) -> bool {
    &&& a.name == b.name
    &&& a.items@ == b.items@
    &&& a.is_active == b.is_active
    &&& a.base_url == b.base_url
}

impl Env {
    /// A deep copy of this environment under the given id, with all other
    /// data equal to the source.
    pub fn copy_with_id(&self, id: String) -> (r: Env)
        ensures
            env_data_eq(r, *self),
            r.id == id,
    {
        Env {
            id,
            name: self.name.clone(),
            items: clone_rows(&self.items),
            is_active: self.is_active,
            base_url: clone_opt_string(&self.base_url),
        }
    }

    /// Whether this environment carries the given id.
    pub fn has_id(&self, id: &str) -> (r: bool)
        ensures
            r == (self.id@ == id@),
    {
        str_eq(self.id.as_str(), id)
    }

    /// Edits the key of the item at `index`, appending a blank item when the
    /// last item was edited.
    pub fn update_item_key(&mut self, index: usize, key: String)
        ensures
            kv_view(final(self).items@) == rows_key_updated(
                kv_view(old(self).items@),
                index as int,
                key@,
            ),
            *final(self) == (Env { items: final(self).items, ..*old(self) }),
    {
        update_row_key(&mut self.items, index, key);
    }

    /// Edits the value of the item at `index`, appending a blank item when
    /// the last item was edited.
    pub fn update_item_value(&mut self, index: usize, value: String)
        ensures
            kv_view(final(self).items@) == rows_value_updated(
                kv_view(old(self).items@),
                index as int,
                value@,
            ),
            *final(self) == (Env { items: final(self).items, ..*old(self) }),
    {
        update_row_value(&mut self.items, index, value);
    }

    /// Removes the item at `index`. No blank row is appended here: edits, not
    /// removals, maintain the trailing blank.
    pub fn remove_item(&mut self, index: usize)
        requires
            index < old(self).items@.len(),
        ensures
            final(self).items@ == old(self).items@.remove(index as int),
            *final(self) == (Env { items: final(self).items, ..*old(self) }),
    {
        self.items.remove(index);
    }

    /// Appends an item.
    pub fn add_item(&mut self, key: String, value: String)
        ensures
            final(self).items@ == old(self).items@.push((key, value)),
            *final(self) == (Env { items: final(self).items, ..*old(self) }),
    {
        self.items.push((key, value));
    }

    /// Replaces every recognized `{{KEY}}` / `{{KEY[ARGS]}}` placeholder in
    /// `input` by its resolved value; unknown keys stay untouched.
    pub fn replace_variables(&self, input: &str) -> (r: String)
        ensures
            r@ == substituted(input@, kv_view(self.items@)),
    {
        let chars: Vec<char> = str_chars(input);
        let out: Vec<char> = substitute_chars(&chars, &self.items);
        chars_string(&out)
    }
}

} // verus!
