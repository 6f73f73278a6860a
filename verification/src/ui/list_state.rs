use vstd::prelude::*;

verus! {

/// Which row of a list is highlighted, and the first row shown. A terminal list widget keeps
/// the same two values.
#[derive(Clone, Copy, PartialEq, Eq, Structural, Debug)]
pub struct ListSelection {
    pub selected: Option<usize>,
    pub offset: usize,
}

impl ListSelection {
    /// Nothing selected, scrolled to the top.
    pub fn new() -> (s: Self)
        ensures
            s == (ListSelection { selected: None, offset: 0 }),
    {
        ListSelection { selected: None, offset: 0 }
    }

    /// The highlighted row.
    pub fn selected(&self) -> (r: Option<usize>)
        ensures
            r == self.selected,
    {
        self.selected
    }

    /// Highlights `index`; clearing the selection also scrolls back to the top.
    pub fn select(&mut self, index: Option<usize>)
        ensures
            final(self).selected == index,
            final(self).offset == if index is None {
                0
            } else {
                old(self).offset
            },
    {
        self.selected = index;
        if index.is_none() {
            self.offset = 0;
        }
    }

    /// Highlights the first row.
    pub fn select_first(&mut self)
        ensures
            final(self).selected == Some(0usize),
            final(self).offset == old(self).offset,
    {
        self.select(Some(0));
    }

    /// Highlights the last row: the index is set past every row and drawing the list brings
    /// it back to the last one.
    pub fn select_last(&mut self)
        ensures
            final(self).selected == Some(usize::MAX),
            final(self).offset == old(self).offset,
    {
        self.select(Some(usize::MAX));
    }
}

} // verus!
