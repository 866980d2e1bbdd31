//! Keeping the machine awake while downloads run: a count of running
//! downloads, and when to switch sleep prevention on and off.

use vstd::prelude::*;

verus! {

/// How many downloads hold the machine awake.
pub struct WakeCounter {
    active: usize,
}

impl WakeCounter {
    /// The number of downloads holding the machine awake.
    pub closed spec fn count(&self) -> nat {
        self.active as nat
    }

    /// No download holds the machine awake.
    pub fn new() -> (r: Self)
        ensures
            r.count() == 0,
    {
        WakeCounter { active: 0 }
    }

    /// A download starts holding the machine awake; tells whether sleep
    /// prevention must now be switched on (it was the first).
    pub fn acquire(&mut self) -> (switch_on: bool)
        requires
            old(self).count() < usize::MAX,
        ensures
            final(self).count() == old(self).count() + 1,
            switch_on == (old(self).count() == 0),
    {
        let prev = self.active;
        self.active = prev + 1;
        prev == 0
    }

    /// A download stops holding the machine awake; tells whether sleep
    /// prevention must now be switched off (it was the last).
    pub fn release(&mut self) -> (switch_off: bool)
        requires
            old(self).count() > 0,
        ensures
            final(self).count() == old(self).count() - 1,
            switch_off == (old(self).count() == 1),
    {
        let prev = self.active;
        self.active = prev - 1;
        prev == 1
    }

    /// The number of downloads holding the machine awake.
    pub fn active(&self) -> (r: usize)
        ensures
            r == self.count(),
    {
        self.active
    }
}

/// A running download's hold on the machine: taken with `acquire`, given
/// back with `release` when the download ends.
pub struct WakeGuard {
    held: bool,
}

impl WakeGuard {
    /// Takes a hold on `counter`; tells whether sleep prevention must now be
    /// switched on.
    pub fn acquire(counter: &mut WakeCounter) -> (r: (WakeGuard, bool))
        requires
            old(counter).count() < usize::MAX,
        ensures
            final(counter).count() == old(counter).count() + 1,
            r.1 == (old(counter).count() == 0),
    {
        let on = counter.acquire();
        (WakeGuard { held: true }, on)
    }

    /// Gives the hold back; tells whether sleep prevention must now be
    /// switched off.
    pub fn release(self, counter: &mut WakeCounter) -> (switch_off: bool)
        requires
            old(counter).count() > 0,
        ensures
            final(counter).count() == old(counter).count() - 1,
            switch_off == (old(counter).count() == 1),
    {
        let _ = self.held;
        counter.release()
    }
}

/// Replays acquires (`true`) and releases (`false`) from no holder, as
/// `WakeCounter` answers them: the count, and whether sleep prevention is on
/// after switching it on at each first acquire and off at each last release.
/// A release with no holder leaves everything as it is (`WakeCounter` does
/// not accept one).
pub open spec fn replay(ops: Seq<bool>) -> (nat, bool)
    decreases ops.len(),
{
    if ops.len() == 0 {
        (0, false)
    } else {
        let (count, on) = replay(ops.drop_last());
        if ops.last() {
            (count + 1, if count == 0 { true } else { on })
        } else if count == 0 {
            (count, on)
        } else {
            ((count - 1) as nat, if count == 1 { false } else { on })
        }
    }
}

/// Sleep prevention is on exactly while some download holds the machine
/// awake, whatever acquires and releases came before.
pub proof fn law_prevention_follows_count(ops: Seq<bool>)
    ensures
        replay(ops).1 == (replay(ops).0 > 0),
    decreases ops.len(),
{
    if ops.len() > 0 {
        law_prevention_follows_count(ops.drop_last());
    }
}

/// A release right after an acquire restores the count, and switches
/// prevention off exactly when the acquire switched it on.
pub proof fn law_release_undoes_acquire(ops: Seq<bool>)
    ensures
        replay(ops.push(true).push(false)) == replay(ops),
{
    law_prevention_follows_count(ops);
    let a = ops.push(true);
    let b = a.push(false);
    assert(b.drop_last() =~= a);
    assert(a.drop_last() =~= ops);
    let (c, on) = replay(ops);
    assert(replay(a) == (c + 1, if c == 0 { true } else { on }));
    assert(replay(b) == (c, if c + 1 == 1 { false } else { replay(a).1 }));
}

} // verus!
