use std::collections::HashSet;
use vstd::prelude::*;

verus! {

/// One input event, as the windowing layer reports it. Keys are named by
/// their scancode.
#[derive(Clone, Copy, Debug, PartialEq, Eq)]
pub enum Event {
    /// The user asked to close the window.
    Quit,
    /// The key with this scancode went down.
    KeyDown(i32),
    /// The key with this scancode came up.
    KeyUp(i32),
    /// The pointer moved by this much, horizontally and vertically.
    MouseMotion(i32, i32),
    /// Anything else; it changes nothing.
    Other,
}

/// The keys that are down after `events` have been handled in order,
/// starting from the keys in `keys`.
pub open spec fn keys_after(keys: Set<i32>, events: Seq<Event>) -> Set<i32>
    decreases events.len(),
{
    if events.len() == 0 {
        keys
    } else {
        let before = keys_after(keys, events.drop_last());
        match events.last() {
            Event::KeyDown(key) => before.insert(key),
            Event::KeyUp(key) => before.remove(key),
            _ => before,
        }
    }
}

/// The pointer motion that a batch of events leaves behind: that of its last
/// motion event, or no motion at all.
pub open spec fn delta_after(events: Seq<Event>) -> (i32, i32)
    decreases events.len(),
{
    if events.len() == 0 {
        (0, 0)
    } else {
        match events.last() {
            Event::MouseMotion(xrel, yrel) => (xrel, yrel),
            _ => delta_after(events.drop_last()),
        }
    }
}

/// Whether a batch of events holds a request to quit.
pub open spec fn asks_to_quit(events: Seq<Event>) -> bool {
    exists|i: int| 0 <= i < events.len() && events[i] == Event::Quit
}

/// From position `i` on, `events` say that `key` is down: the event at `i`
/// is the key going down, and the key does not come up after it.
pub open spec fn down_since(events: Seq<Event>, key: i32, i: int) -> bool {
    &&& 0 <= i < events.len()
    &&& events[i] == Event::KeyDown(key)
    &&& forall|j: int| i < j < events.len() ==> events[j] != Event::KeyUp(key)
}

/// `key` does not come up anywhere in `events`.
pub open spec fn never_up(events: Seq<Event>, key: i32) -> bool {
    forall|j: int| 0 <= j < events.len() ==> events[j] != Event::KeyUp(key)
}

/// A key is down after a batch of events exactly if the batch last said so:
/// the key went down in the batch and did not come up afterwards, or it was
/// down before and did not come up in the batch.
pub proof fn lemma_key_follows_last_event(keys: Set<i32>, events: Seq<Event>, key: i32)
    ensures
        keys_after(keys, events).contains(key) <==> {
            ||| exists|i: int| down_since(events, key, i)
            ||| keys.contains(key) && never_up(events, key)
        },
    decreases events.len(),
{
    if events.len() > 0 {
        let earlier = events.drop_last();
        let last = events.last();
        let n = events.len() - 1;
        lemma_key_follows_last_event(keys, earlier, key);
        if last == Event::KeyDown(key) {
            assert(down_since(events, key, n));
        } else if last == Event::KeyUp(key) {
            assert(events[n] == Event::KeyUp(key));
            assert(!never_up(events, key));
            assert forall|i: int| !down_since(events, key, i) by {
                if 0 <= i < n {
                    assert(events[n] == Event::KeyUp(key));
                }
            }
        } else {
            assert(keys_after(keys, events).contains(key) == keys_after(keys, earlier).contains(
                key,
            ));
            if exists|i: int| down_since(earlier, key, i) {
                let i = choose|i: int| down_since(earlier, key, i);
                assert(earlier[i] == events[i]);
                assert forall|j: int| i < j < events.len() implies events[j] != Event::KeyUp(
                    key,
                ) by {
                    if j < n {
                        assert(earlier[j] == events[j]);
                    }
                }
                assert(down_since(events, key, i));
            }
            if exists|i: int| down_since(events, key, i) {
                let i = choose|i: int| down_since(events, key, i);
                assert(i < n);
                assert forall|j: int| i < j < earlier.len() implies earlier[j] != Event::KeyUp(
                    key,
                ) by {
                    assert(earlier[j] == events[j]);
                }
                assert(down_since(earlier, key, i));
            }
            if never_up(earlier, key) {
                assert forall|j: int| 0 <= j < events.len() implies events[j] != Event::KeyUp(
                    key,
                ) by {
                    if j < n {
                        assert(earlier[j] == events[j]);
                    }
                }
            }
            if never_up(events, key) {
                assert forall|j: int| 0 <= j < earlier.len() implies earlier[j] != Event::KeyUp(
                    key,
                ) by {
                    assert(earlier[j] == events[j]);
                }
            }
        }
    }
}

/// The pointer motion after a batch of events is that of the last motion
/// event `events[i]` of the batch.
pub proof fn lemma_delta_is_last_motion(events: Seq<Event>, i: int)
    requires
        0 <= i < events.len(),
        events[i] is MouseMotion,
        forall|j: int| i < j < events.len() ==> !(events[j] is MouseMotion),
    ensures
        delta_after(events) == (events[i]->MouseMotion_0, events[i]->MouseMotion_1),
    decreases events.len(),
{
    if i < events.len() - 1 {
        let earlier = events.drop_last();
        assert(!(events[events.len() - 1] is MouseMotion));
        assert(earlier[i] == events[i]);
        assert forall|j: int| i < j < earlier.len() implies !(earlier[j] is MouseMotion) by {
            assert(earlier[j] == events[j]);
        }
        lemma_delta_is_last_motion(earlier, i);
    }
}

/// A batch of events without a motion event leaves no pointer motion.
pub proof fn lemma_no_motion_no_delta(events: Seq<Event>)
    requires
        forall|j: int| 0 <= j < events.len() ==> !(events[j] is MouseMotion),
    ensures
        delta_after(events) == (0i32, 0i32),
    decreases events.len(),
{
    if events.len() > 0 {
        let earlier = events.drop_last();
        assert(!(events[events.len() - 1] is MouseMotion));
        assert forall|j: int| 0 <= j < earlier.len() implies !(earlier[j] is MouseMotion) by {
            assert(earlier[j] == events[j]);
        }
        lemma_no_motion_no_delta(earlier);
    }
}

/// Handling two batches of events one after the other leaves the same keys
/// down as handling them as one batch.
pub proof fn lemma_key_batches_compose(keys: Set<i32>, first: Seq<Event>, second: Seq<Event>)
    ensures
        keys_after(keys, first + second) == keys_after(keys_after(keys, first), second),
    decreases second.len(),
{
    if second.len() == 0 {
        assert(first + second == first);
    } else {
        lemma_key_batches_compose(keys, first, second.drop_last());
        assert((first + second).drop_last() == first + second.drop_last());
        assert((first + second).last() == second.last());
    }
}

/// Keyboard and pointer state, kept up to date from batches of events.
pub struct Input {
    pressed: HashSet<i32>,
    mouse_delta: (i32, i32),
}

impl Input {
    /// The scancodes of the keys that are down.
    pub closed spec fn pressed(&self) -> Set<i32> {
        self.pressed@
    }

    /// The pointer motion seen in the latest batch of events.
    pub closed spec fn mouse_delta(&self) -> (i32, i32) {
        self.mouse_delta
    }

    /// Starts with no key down and no pointer motion.
    pub fn new() -> (input: Self)
        ensures
            input.pressed() == Set::<i32>::empty(),
            input.mouse_delta() == (0i32, 0i32),
    {
        Input { pressed: HashSet::new(), mouse_delta: (0, 0) }
    }

    /// Records that `key` is down.
    pub fn press(&mut self, key: i32)
        ensures
            final(self).pressed() == old(self).pressed().insert(key),
            final(self).mouse_delta() == old(self).mouse_delta(),
    {
        self.pressed.insert(key);
    }

    /// Records that `key` is up.
    pub fn release(&mut self, key: i32)
        ensures
            final(self).pressed() == old(self).pressed().remove(key),
            final(self).mouse_delta() == old(self).mouse_delta(),
    {
        self.pressed.remove(&key);
    }

    /// Whether `key` is down.
    pub fn is_down(&self, key: i32) -> (down: bool)
        ensures
            down == self.pressed().contains(key),
    {
        self.pressed.contains(&key)
    }

    /// The pointer motion seen in the latest batch of events.
    pub fn get_mouse_delta(&self) -> (delta: (i32, i32))
        ensures
            delta == self.mouse_delta(),
    {
        self.mouse_delta
    }

    /// Handles one batch of events, in order. Key events change the set of
    /// keys that are down; the pointer motion is that of the last motion
    /// event of the batch, and none if the batch has no such event. Returns
    /// whether the program should go on, which is unless the batch asks to
    /// quit; the events after such a request are still handled.
    pub fn update(&mut self, events: &Vec<Event>) -> (running: bool)
        ensures
            final(self).pressed() == keys_after(old(self).pressed(), events@),
            final(self).mouse_delta() == delta_after(events@),
            running == !asks_to_quit(events@),
    {
        self.mouse_delta = (0, 0);
        let mut running = true;
        let mut i: usize = 0;
        while i < events.len()
            invariant
                0 <= i <= events.len(),
                self.pressed() == keys_after(old(self).pressed(), events@.take(i as int)),
                self.mouse_delta() == delta_after(events@.take(i as int)),
                running == !asks_to_quit(events@.take(i as int)),
            decreases events.len() - i,
        {
            let ghost seen = events@.take(i as int);
            let ghost next = events@.take(i + 1);
            proof {
                assert(next.drop_last() == seen);
                assert(next.last() == events@[i as int]);
                if asks_to_quit(seen) {
                    let j = choose|j: int| 0 <= j < seen.len() && seen[j] == Event::Quit;
                    assert(next[j] == Event::Quit);
                }
                if asks_to_quit(next) && events@[i as int] != Event::Quit {
                    let j = choose|j: int| 0 <= j < next.len() && next[j] == Event::Quit;
                    assert(seen[j] == Event::Quit);
                }
                if events@[i as int] == Event::Quit {
                    assert(next[i as int] == Event::Quit);
                }
            }
            match events[i] {
                Event::Quit => {
                    running = false;
                },
                Event::KeyDown(key) => {
                    self.press(key);
                },
                Event::KeyUp(key) => {
                    self.release(key);
                },
                Event::MouseMotion(xrel, yrel) => {
                    self.mouse_delta = (xrel, yrel);
                },
                Event::Other => {},
            }
            i += 1;
        }
        proof {
            assert(events@.take(events.len() as int) == events@);
        }
        running
    }
}

} // verus!
