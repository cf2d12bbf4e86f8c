//! How windows are drawn where a rule says so: how opaque they are, and through what glass
//! they are seen.

use vstd::prelude::*;

use crate::assoc::Assoc;

verus! {

/// What the rules say of the looks of a window. Opacities and kinds of glass have numbers.
#[derive(Clone, Copy, Debug, PartialEq, Eq, Structural)]
pub struct LookRule {
    pub opacity: Option<u64>,
    pub glass: Option<u64>,
}

/// The looks of the windows that a rule gives any.
pub struct WindowLooks {
    pub opacity: Assoc<u64, u64>,
    pub glass: Assoc<u64, u64>,
}

/// The map with what a rule says of `s`, and without `s` where it says nothing.
pub open spec fn as_ruled(map: Map<u64, u64>, s: u64, rule: Option<u64>) -> Map<u64, u64> {
    match rule {
        Some(look) => map.insert(s, look),
        None => map.remove(s),
    }
}

/// The map with what a rule says of `s`, and as it is where it says nothing.
pub open spec fn as_added(map: Map<u64, u64>, s: u64, rule: Option<u64>) -> Map<u64, u64> {
    match rule {
        Some(look) => map.insert(s, look),
        None => map,
    }
}

/// `after` is `before` with `s` looking as its rules say, and plain where they say nothing.
pub open spec fn ruled_looks(before: WindowLooks, after: WindowLooks, s: u64, rule: LookRule) -> bool {
    &&& after.wf()
    &&& after.opacity@ == as_ruled(before.opacity@, s, rule.opacity)
    &&& after.glass@ == as_ruled(before.glass@, s, rule.glass)
}

/// `after` is `before` with `s` looking as its rules say, where they say anything.
pub open spec fn added_looks(before: WindowLooks, after: WindowLooks, s: u64, rule: LookRule) -> bool {
    &&& after.wf()
    &&& after.opacity@ == as_added(before.opacity@, s, rule.opacity)
    &&& after.glass@ == as_added(before.glass@, s, rule.glass)
}

fn rule_one(map: &mut Assoc<u64, u64>, s: u64, rule: Option<u64>)
    requires
        old(map).wf(),
    ensures
        final(map).wf(),
        final(map)@ == as_ruled(old(map)@, s, rule),
{
    match rule {
        Some(look) => map.insert(s, look),
        None => {
            let _ = map.remove(&s);
        },
    }
}

impl WindowLooks {
    pub open spec fn wf(&self) -> bool {
        self.opacity.wf() && self.glass.wf()
    }

    pub fn new() -> (r: Self)
        ensures
            r.wf(),
            r.opacity@ == Map::<u64, u64>::empty(),
            r.glass@ == Map::<u64, u64>::empty(),
    {
        WindowLooks { opacity: Assoc::new(), glass: Assoc::new() }
    }

    /// A window looks as its rules say, and plain where they say nothing.
    pub fn apply(&mut self, s: u64, rule: &LookRule)
        requires
            old(self).wf(),
        ensures
            ruled_looks(*old(self), *final(self), s, *rule),
    {
        rule_one(&mut self.opacity, s, rule.opacity);
        rule_one(&mut self.glass, s, rule.glass);
    }

    /// A window is back in its place: it gets what its rules say.
    pub fn restore(&mut self, s: u64, rule: &LookRule)
        requires
            old(self).wf(),
        ensures
            added_looks(*old(self), *final(self), s, *rule),
    {
        if let Some(look) = rule.opacity {
            self.opacity.insert(s, look);
        }
        if let Some(look) = rule.glass {
            self.glass.insert(s, look);
        }
    }

    /// A window is no longer shown.
    pub fn forget(&mut self, s: u64)
        requires
            old(self).wf(),
        ensures
            final(self).wf(),
            final(self).opacity@ == old(self).opacity@.remove(s),
            final(self).glass@ == old(self).glass@.remove(s),
    {
        let _ = self.opacity.remove(&s);
        let _ = self.glass.remove(&s);
    }
}

} // verus!
