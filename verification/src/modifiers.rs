use vstd::prelude::*;

verus! {

/// The set of modifier keys held during a key event: an unordered
/// collection over the four modifiers the compositor distinguishes.
#[derive(Clone, Copy, PartialEq, Eq, Structural, Debug)]
pub struct ModifierSet {
    pub shift: bool,
    pub ctrl: bool,
    pub alt: bool,
    pub logo: bool,
}

impl ModifierSet {
    /// `self` is a subset of `other`: every modifier held in `self` is held in `other`.
    pub open spec fn spec_subset_of(self, other: ModifierSet) -> bool {
        (self.shift ==> other.shift) && (self.ctrl ==> other.ctrl) && (self.alt ==> other.alt)
            && (self.logo ==> other.logo)
    }

    /// Number of modifiers held.
    pub open spec fn spec_size(self) -> int {
        (if self.shift {
            1int
        } else {
            0int
        }) + (if self.ctrl {
            1int
        } else {
            0int
        }) + (if self.alt {
            1int
        } else {
            0int
        }) + (if self.logo {
            1int
        } else {
            0int
        })
    }

    /// The empty modifier set: no modifier held.
    pub fn empty() -> (r: ModifierSet)
        ensures
            r == (ModifierSet { shift: false, ctrl: false, alt: false, logo: false }),
            r.spec_size() == 0,
    {
        ModifierSet { shift: false, ctrl: false, alt: false, logo: false }
    }

    pub fn new(shift: bool, ctrl: bool, alt: bool, logo: bool) -> (r: ModifierSet)
        ensures
            r == (ModifierSet { shift, ctrl, alt, logo }),
    {
        ModifierSet { shift, ctrl, alt, logo }
    }

    /// Subset test, used to decide whether a masked binding's required
    /// modifiers are all held.
    pub fn subset_of(self, other: ModifierSet) -> (r: bool)
        ensures
            r == self.spec_subset_of(other),
    {
        (!self.shift || other.shift) && (!self.ctrl || other.ctrl) && (!self.alt || other.alt) && (
        !self.logo || other.logo)
    }

    /// How many modifiers are held; orders masked bindings by specificity.
    pub fn size(self) -> (r: u32)
        ensures
            r == self.spec_size(),
    {
        let mut n: u32 = 0;
        if self.shift {
            n = n + 1;
        }
        if self.ctrl {
            n = n + 1;
        }
        if self.alt {
            n = n + 1;
        }
        if self.logo {
            n = n + 1;
        }
        n
    }
}

} // verus!
