//! A list of names with a case-insensitive substring filter and a cursor
//! over the filtered entries.

use vstd::prelude::*;
use crate::tui::StateL;
use crate::text::{to_chars, chars_to_string, to_lower, lower_of, contains_sub, has_sub};

verus! {

pub struct FilterList {
    pub state: StateL,
    pub list: Vec<String>,
    pub filter: String,
}

/// A name passes the filter when its lowercase form contains the filter's
/// lowercase form.
pub open spec fn passes_filter(name: Seq<char>, filter: Seq<char>) -> bool {
    has_sub(lower_of(name), lower_of(filter))
}

impl FilterList {
    /// The names that currently pass the filter, in list order.
    pub open spec fn filtered_view(self) -> Seq<Seq<char>> {
        self.list.deep_view().filter(|n: Seq<char>| passes_filter(n, self.filter@))
    }

    /// A list with its filter; the cursor is sized to the unfiltered list
    /// and starts unselected.
    pub fn new(list: Vec<String>, filter: String) -> (r: Self)
        ensures
            r.list == list,
            r.filter == filter,
            r.state.items_len == list@.len(),
            r.state.selected is None,
    {
        let n: usize = list.len();
        Self { state: StateL::new(n), list, filter }
    }

    /// The names passing the filter, resizing the cursor to their count.
    pub fn get_filtered(&mut self) -> (r: Vec<String>)
        ensures
            r.deep_view() == old(self).filtered_view(),
            final(self).list == old(self).list,
            final(self).filter == old(self).filter,
            final(self).state.items_len == r@.len(),
            r@.len() < (match old(self).state.selected {
                None => 0usize,
                Some(i) => i,
            }) ==> final(self).state.selected == Some(r@.len() as usize),
            r@.len() >= (match old(self).state.selected {
                None => 0usize,
                Some(i) => i,
            }) ==> final(self).state.selected == old(self).state.selected,
    {
        let ghost target = self.list.deep_view().filter(
            |n: Seq<char>| passes_filter(n, self.filter@),
        );
        let filter_low: String = to_lower(self.filter.as_str());
        let filter_chars: Vec<char> = to_chars(filter_low.as_str());
        let n: usize = self.list.len();
        let mut out: Vec<String> = Vec::new();
        proof {
            reveal(Seq::filter);
            assert(out.deep_view() =~= self.list.deep_view().subrange(0, 0).filter(
                |n0: Seq<char>| passes_filter(n0, self.filter@),
            ));
        }
        let mut i: usize = 0;
        while i < n
            invariant
                n == self.list@.len(),
                self.list.deep_view().len() == n,
                i <= n,
                filter_chars@ == lower_of(self.filter@),
                out.deep_view() == self.list.deep_view().subrange(0, i as int).filter(
                    |n0: Seq<char>| passes_filter(n0, self.filter@),
                ),
            decreases n - i,
        {
            proof {
                reveal(Seq::filter);
                assert(self.list.deep_view().subrange(0, (i + 1) as int).drop_last()
                    =~= self.list.deep_view().subrange(0, i as int));
                assert(self.list.deep_view().subrange(0, (i + 1) as int).last()
                    == self.list.deep_view()[i as int]);
                assert(self.list.deep_view()[i as int] == self.list@[i as int]@);
            }
            let name_low: String = to_lower(self.list[i].as_str());
            let name_chars: Vec<char> = to_chars(name_low.as_str());
            if contains_sub(&name_chars, &filter_chars) {
                let ghost pre = out.deep_view();
                out.push(self.list[i].clone());
                proof {
                    assert(out.deep_view() =~= pre.push(self.list@[i as int]@));
                }
            }
            i = i + 1;
        }
        proof {
            assert(self.list.deep_view().subrange(0, n as int) =~= self.list.deep_view());
        }
        let m: usize = out.len();
        self.state.new_size(m);
        out
    }

    /// Replaces the names, clears the filter and the selection.
    pub fn set_list(&mut self, new_list: Vec<String>)
        ensures
            final(self).list == new_list,
            final(self).filter@ == Seq::<char>::empty(),
            final(self).state.selected is None,
            final(self).state.items_len == old(self).state.items_len,
    {
        self.list = new_list;
        self.set_filter(String::new());
        self.state.deselect();
    }

    /// Replaces the filter text.
    pub fn set_filter(&mut self, filter: String)
        ensures
            final(self).filter == filter,
            final(self).list == old(self).list,
            final(self).state == old(self).state,
    {
        self.filter = filter;
    }

    /// Appends one character to the filter.
    pub fn filter_append(&mut self, c: char)
        ensures
            final(self).filter@ == old(self).filter@.push(c),
            final(self).list == old(self).list,
            final(self).state == old(self).state,
    {
        let mut v: Vec<char> = to_chars(self.filter.as_str());
        v.push(c);
        self.filter = chars_to_string(&v);
    }

    /// Removes the last character of the filter, if any.
    pub fn filter_remove_last(&mut self)
        ensures
            old(self).filter@.len() > 0 ==> final(self).filter@ == old(self).filter@.drop_last(),
            old(self).filter@.len() == 0 ==> final(self).filter@ == old(self).filter@,
            final(self).list == old(self).list,
            final(self).state == old(self).state,
    {
        let mut v: Vec<char> = to_chars(self.filter.as_str());
        if v.len() > 0 {
            v.pop();
            proof {
                assert(v@ =~= old(self).filter@.drop_last());
            }
            self.filter = chars_to_string(&v);
        }
    }

    /// The cursor's selected index.
    pub fn get_index(&self) -> (r: Option<usize>)
        ensures
            r == self.state.selected,
    {
        self.state.get_selected_index()
    }
}

} // verus!
