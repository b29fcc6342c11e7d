use vstd::prelude::*;

verus! {

/// Page navigation over pages `1..=max_page`: it moves the page it was given
/// and records whether it did.
pub struct Pager<'a> {
    pub current_page: &'a mut u8,
    pub max_page: u8,
    pub changed: bool,
}

impl<'a> Pager<'a> {
    pub fn new(current_page: &'a mut u8, max_page: u8) -> (r: Self)
        ensures
            *r.current_page == *old(current_page),
            r.max_page == max_page,
            !r.changed,
    {
        Pager { current_page, max_page, changed: false }
    }

    /// Moves to the next page unless the current one is the last.
    pub fn next_page(&mut self)
        ensures
            *old(self).current_page < old(self).max_page ==> *final(self).current_page
                == *old(self).current_page + 1 && final(self).changed,
            *old(self).current_page >= old(self).max_page ==> *final(self).current_page
                == *old(self).current_page && final(self).changed == old(self).changed,
            final(self).max_page == old(self).max_page,
    {
        if *self.current_page < self.max_page {
            *self.current_page = *self.current_page + 1;
            self.changed = true;
        }
    }

    /// Moves to the previous page unless the current one is the first.
    pub fn prev_page(&mut self)
        ensures
            *old(self).current_page > 1 ==> *final(self).current_page == *old(self).current_page
                - 1 && final(self).changed,
            *old(self).current_page <= 1 ==> *final(self).current_page == *old(self).current_page
                && final(self).changed == old(self).changed,
            final(self).max_page == old(self).max_page,
    {
        if *self.current_page > 1 {
            *self.current_page = *self.current_page - 1;
            self.changed = true;
        }
    }
}

/// A hub's entry in the hub list.
pub struct HubListItem;

/// An article's entry in the article list.
pub struct ArticleListItem;

/// A hub's card in the hub list.
pub struct HubUI;

} // verus!
