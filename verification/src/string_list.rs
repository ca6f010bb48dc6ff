//! The store's list of strings, and walking it front to back.

use vstd::prelude::*;

verus! {

/// A list of byte strings, counted with 32 bits as the store counts it.
#[allow(non_camel_case_types)]
#[derive(Debug)]
pub struct string_list {
    items: Vec<Vec<u8>>,
}

/// A position in a `string_list`: the index of the string to hand out next,
/// or nothing once the walk is over.
#[allow(non_camel_case_types)]
#[derive(Debug)]
pub struct string_list_iter<'a> {
    list: &'a string_list,
    next: Option<u32>,
}

impl View for string_list {
    type V = Seq<Seq<u8>>;

    closed spec fn view(&self) -> Seq<Seq<u8>> {
        Seq::new(self.items@.len(), |i: int| self.items@[i]@)
    }
}

impl string_list {
    /// Makes a list of the given strings.
    pub fn new(items: Vec<Vec<u8>>) -> (r: string_list)
        requires
            items@.len() <= u32::MAX,
        ensures
            r@ == Seq::new(items@.len(), |i: int| items@[i]@),
            r@.len() <= u32::MAX,
    {
        string_list { items }
    }

    pub fn is_empty(&self) -> (r: bool)
        ensures
            r == (self@.len() == 0),
    {
        self.items.len() == 0
    }

    /// A walk that starts at the first string.
    pub fn iter(&self) -> (r: string_list_iter<'_>)
        ensures
            r.spec_list() == self@,
            r.spec_next() == Some(0u32),
    {
        string_list_iter { list: self, next: Some(0) }
    }
}

impl<'a> string_list_iter<'a> {
    /// The strings of the list being walked.
    pub closed spec fn spec_list(&self) -> Seq<Seq<u8>> {
        self.list@
    }

    /// The index of the string that comes next.
    pub closed spec fn spec_next(&self) -> Option<u32> {
        self.next
    }

    /// Hands out the string at the current position and moves on by one; at
    /// the last string, and on an empty list, the walk is over.
    pub fn next(&mut self) -> (r: Option<&'a [u8]>)
        ensures
            final(self).spec_list() == old(self).spec_list(),
            match old(self).spec_next() {
                Some(i) if i < old(self).spec_list().len() => {
                    &&& r matches Some(s) && s@ == old(self).spec_list()[i as int]
                    &&& final(self).spec_next() == if i + 1 < old(self).spec_list().len() && i
                        < u32::MAX {
                        Some((i + 1) as u32)
                    } else {
                        None
                    }
                },
                _ => r is None && final(self).spec_next() is None,
            },
    {
        let i = match self.next {
            Some(i) => i,
            None => {
                return None;
            },
        };
        self.next = None;
        let list: &'a string_list = self.list;
        if i as usize >= list.items.len() {
            return None;
        }
        let result = list.items[i as usize].as_slice();
        if i < u32::MAX && ((i + 1) as usize) < list.items.len() {
            self.next = Some(i + 1);
        }
        Some(result)
    }
}

} // verus!
