//! Edge detection over polled keyboard state.
//!
//! A keyboard backend can only report the set of keys held down at each poll;
//! this module turns two consecutive snapshots into discrete press and
//! release events. Key codes are plain numbers here; the embedding program
//! maps its backend's key type to them.

use vstd::prelude::*;

verus! {

/// A discrete key transition between two snapshots.
#[derive(Hash, Eq, PartialEq, Structural, Debug, Clone, Copy)]
pub enum KeyEvent {
    /// The key is down now and was not down before.
    Press,
    /// The key was down before and is not down now.
    Release,
}

/// The press events between two snapshots: one `(key, Press)` entry per key
/// of `now` that is absent from `last`, in the order of `now`.
pub open spec fn press_events(last: Seq<u32>, now: Seq<u32>) -> Seq<(u32, KeyEvent)>
    decreases now.len(),
{
    if now.len() == 0 {
        Seq::empty()
    } else {
        let rest = press_events(last, now.drop_last());
        if !last.contains(now.last()) {
            rest.push((now.last(), KeyEvent::Press))
        } else {
            rest
        }
    }
}

/// The release events between two snapshots: one `(key, Release)` entry per
/// key of `last` that is absent from `now`, in the order of `last`.
pub open spec fn release_events(last: Seq<u32>, now: Seq<u32>) -> Seq<(u32, KeyEvent)>
    decreases last.len(),
{
    if last.len() == 0 {
        Seq::empty()
    } else {
        let rest = release_events(last.drop_last(), now);
        if !now.contains(last.last()) {
            rest.push((last.last(), KeyEvent::Release))
        } else {
            rest
        }
    }
}

/// Whether `keys` holds `key`.
fn contains_key(keys: &Vec<u32>, key: u32) -> (r: bool)
    ensures
        r == keys@.contains(key),
{
    let mut i: usize = 0;
    while i < keys.len()
        invariant
            i <= keys@.len(),
            forall|j: int| 0 <= j < i ==> keys@[j] != key,
        decreases keys@.len() - i,
    {
        if keys[i] == key {
            return true;
        }
        i += 1;
    }
    false
}

/// Compares the previous snapshot of held keys with the current one and
/// returns all presses (keys newly held, in the order of `now`) followed by
/// all releases (keys no longer held, in the order of `last`).
pub fn diff_key_events(last: &Vec<u32>, now: &Vec<u32>) -> (r: Vec<(u32, KeyEvent)>)
    ensures
        r@ == press_events(last@, now@) + release_events(last@, now@),
{
    let mut r: Vec<(u32, KeyEvent)> = Vec::new();
    let mut i: usize = 0;
    while i < now.len()
        invariant
            i <= now@.len(),
            r@ == press_events(last@, now@.take(i as int)),
        decreases now@.len() - i,
    {
        proof {
            assert(now@.take(i + 1).drop_last() =~= now@.take(i as int));
            assert(now@.take(i + 1).last() == now@[i as int]);
        }
        if !contains_key(last, now[i]) {
            r.push((now[i], KeyEvent::Press));
        }
        i += 1;
    }
    proof {
        assert(now@.take(now@.len() as int) =~= now@);
    }
    let mut j: usize = 0;
    while j < last.len()
        invariant
            j <= last@.len(),
            r@ == press_events(last@, now@) + release_events(last@.take(j as int), now@),
        decreases last@.len() - j,
    {
        proof {
            assert(last@.take(j + 1).drop_last() =~= last@.take(j as int));
            assert(last@.take(j + 1).last() == last@[j as int]);
        }
        if !contains_key(now, last[j]) {
            r.push((last[j], KeyEvent::Release));
        }
        j += 1;
    }
    proof {
        assert(last@.take(last@.len() as int) =~= last@);
    }
    r
}

} // verus!
