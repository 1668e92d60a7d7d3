//! A value that remembers whether it was changed on purpose.

use vstd::prelude::*;

verus! {

/// A value with a modified flag. Changes made through
/// [`InheritableVariable::set_value_and_mark_modified`] set the flag, so that
/// persistence and editors know which values differ from their source; silent
/// changes leave it as it was.
#[derive(Clone, Debug)]
pub struct InheritableVariable<T> {
    value: T,
    modified: bool,
}

impl<T> InheritableVariable<T> {
    pub closed spec fn spec_value(&self) -> T {
        self.value
    }

    pub closed spec fn spec_modified(&self) -> bool {
        self.modified
    }

    /// A value that is not marked modified.
    pub fn new(value: T) -> (r: InheritableVariable<T>)
        ensures
            r.spec_value() == value,
            !r.spec_modified(),
    {
        InheritableVariable { value, modified: false }
    }

    /// Replaces the value and marks it modified; returns the old value.
    pub fn set_value_and_mark_modified(&mut self, value: T) -> (r: T)
        ensures
            final(self).spec_value() == value,
            final(self).spec_modified(),
            r == old(self).spec_value(),
    {
        self.modified = true;
        let mut v = value;
        std::mem::swap(&mut self.value, &mut v);
        v
    }

    /// Replaces the value without touching the modified flag; returns the old value.
    pub fn set_value_silent(&mut self, value: T) -> (r: T)
        ensures
            final(self).spec_value() == value,
            final(self).spec_modified() == old(self).spec_modified(),
            r == old(self).spec_value(),
    {
        let mut v = value;
        std::mem::swap(&mut self.value, &mut v);
        v
    }

    /// Whether the value was changed on purpose.
    pub fn is_modified(&self) -> (r: bool)
        ensures
            r == self.spec_modified(),
    {
        self.modified
    }

    /// The current value.
    pub fn get(&self) -> (r: &T)
        ensures
            *r == self.spec_value(),
    {
        &self.value
    }

    /// The current value, consuming the variable.
    pub fn take(self) -> (r: T)
        ensures
            r == self.spec_value(),
    {
        self.value
    }
}

} // verus!
