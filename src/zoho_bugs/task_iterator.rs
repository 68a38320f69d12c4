//! All tasks of a project, listed page by page by start index.
//! The requests are the caller's: the iterator says at which index to fetch
//! and takes in what came back.

use crate::pull_list::pr_iterator::{Step, PAGE_SIZE};
use crate::zoho_bugs::task::Task;
use vstd::prelude::*;

verus! {

/// All tasks of a project, listed page by page by start index.
pub struct TaskIterator {
    /// The items of the last page not yet handed out.
    pub items: Vec<Task>,
    /// Whether the last page was full, so that another may follow.
    pub last_full: bool,
    /// The index of the next page's first item.
    pub start_index: usize,
}

impl TaskIterator {
    /// A pager at the start of the list.
    pub fn new() -> (r: TaskIterator)
        ensures
            r.items@.len() == 0,
            r.last_full,
            r.start_index == 0,
    {
        TaskIterator { items: Vec::new(), last_full: true, start_index: 0 }
    }

    /// The next item, if one is buffered; else the index to fetch at, if the
    /// last page was full; else the end. Asking for a page clears
    /// `last_full`, so after a failed fetch the sequence is over.
    pub fn try_next(&mut self) -> (r: Step<Task, usize>)
        ensures
            final(self).start_index == old(self).start_index,
            old(self).items@.len() > 0 ==> {
                &&& r == Step::<Task, usize>::Item(old(self).items@[0])
                &&& final(self).items@ == old(self).items@.drop_first()
                &&& final(self).last_full == old(self).last_full
            },
            old(self).items@.len() == 0 && !old(self).last_full ==> {
                &&& r is Done
                &&& final(self).items@.len() == 0
                &&& !final(self).last_full
            },
            old(self).items@.len() == 0 && old(self).last_full ==> {
                &&& r == Step::<Task, usize>::Fetch(old(self).start_index)
                &&& final(self).items@.len() == 0
                &&& !final(self).last_full
            },
    {
        if self.items.len() > 0 {
            return Step::Item(self.items.remove(0));
        }
        if !self.last_full {
            return Step::Done;
        }
        self.last_full = false;
        Step::Fetch(self.start_index)
    }

    /// Takes in a fetched page: its items are buffered, the index moves past
    /// them, and only a full page can have a next one.
    pub fn receive_page(&mut self, page: Vec<Task>)
        requires
            old(self).start_index + page@.len() <= usize::MAX,
        ensures
            final(self).items@ == page@,
            final(self).last_full == (page@.len() == PAGE_SIZE),
            final(self).start_index == old(self).start_index + page@.len(),
    {
        self.last_full = page.len() == PAGE_SIZE;
        self.start_index = self.start_index + page.len();
        self.items = page;
    }
}

} // verus!
