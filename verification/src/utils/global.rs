use vstd::prelude::*;

verus! {

/// a handy way to refer to a Wayland global, that tracks its actual global and
/// the name of said global.
#[derive(Debug, PartialEq, Eq, PartialOrd)]
pub struct Global<T> {
    /// The actual global type
    pub global: T,
    /// The name of the global type
    pub name: u32,
}

impl<T> Global<T> {
    /// Create a new [`Global`] from its typesystem representation and its name
    pub fn new(global: T, name: u32) -> (g: Self)
        ensures
            g.global == global,
            g.name == name,
    {
        Self { global, name }
    }

    /// borrow the global object itself
    pub fn get(&self) -> (r: &T)
        ensures
            *r == self.global,
    {
        &self.global
    }

    /// mutably borrow the global object itself; the name is left as it was
    pub fn get_mut(&mut self) -> (r: &mut T)
        ensures
            *r == old(self).global,
            final(self).global == *final(r),
            final(self).name == old(self).name,
    {
        &mut self.global
    }
}

} // verus!
