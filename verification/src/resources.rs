//! Textures and canvases, found by the number they were given.

use crate::error::VireoError;
use vstd::prelude::*;

verus! {

/// Things numbered in the order in which they came.
pub struct Registry<T> {
    pub items: Vec<T>,
}

impl<T> Registry<T> {
    /// Nothing.
    pub fn new() -> (r: Registry<T>)
        ensures
            r.items@ == Seq::<T>::empty(),
    {
        Registry { items: Vec::new() }
    }

    /// Adds a thing and gives it the next number.
    pub fn add(&mut self, item: T) -> (r: usize)
        ensures
            r == old(self).items@.len(),
            final(self).items@ == old(self).items@.push(item),
    {
        let index: usize = self.items.len();
        self.items.push(item);
        index
    }

    fn get(&self, index: usize) -> (r: Option<&T>)
        ensures
            r is Some <==> index < self.items@.len(),
            r matches Some(item) ==> *item == self.items@[index as int],
    {
        if index < self.items.len() {
            Some(&self.items[index])
        } else {
            None
        }
    }

    /// The texture with a number.
    pub fn texture(&self, index: usize) -> (r: Result<&T, VireoError>)
        ensures
            r is Ok <==> index < self.items@.len(),
            r matches Ok(item) ==> *item == self.items@[index as int],
            r matches Err(e) ==> e == VireoError::TextureNotFound(index),
    {
        match self.get(index) {
            Some(item) => Ok(item),
            None => Err(VireoError::TextureNotFound(index)),
        }
    }

    /// The canvas with a number.
    pub fn offscreen_ref(&self, index: usize) -> (r: Result<&T, VireoError>)
        ensures
            r is Ok <==> index < self.items@.len(),
            r matches Ok(item) ==> *item == self.items@[index as int],
            r matches Err(e) ==> e == VireoError::OffscreenNotFound(index),
    {
        match self.get(index) {
            Some(item) => Ok(item),
            None => Err(VireoError::OffscreenNotFound(index)),
        }
    }
}

/// Law: a thing keeps its number, whatever is added after it.
pub proof fn lemma_numbers_stay<T>(before: Seq<T>, item: T, later: Seq<T>)
    ensures
        (before.push(item) + later)[before.len() as int] == item,
{
}

} // verus!
