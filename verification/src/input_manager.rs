//! Keyboard state: which keys are up or down, and which changed in the
//! current frame.
use vstd::prelude::*;

use crate::event_manager::{Event, Keycode};

verus! {

/// The state of one key.
#[derive(Debug, PartialEq, Eq, Clone, Copy, Structural)]
pub enum KeyState {
    Up,
    JustPressed,
    Down,
    JustReleased,
}

/// A change of a key's state.
#[derive(Debug, Clone, Copy, PartialEq, Eq, Structural)]
pub enum KeyChange {
    Pressed,
    Released,
}

/// Number of key codes that the manager tracks.
pub const KEY_COUNT: usize = 512;

/// The state a key moves to one frame later when no new event touches it:
/// a key just pressed is held down, a key just released stays up.
pub open spec fn settle(s: KeyState) -> KeyState {
    match s {
        KeyState::JustPressed => KeyState::Down,
        KeyState::JustReleased => KeyState::Up,
        other => other,
    }
}

/// Whether a key in state `s` counts as held down.
pub open spec fn is_down(s: KeyState) -> bool {
    s == KeyState::JustPressed || s == KeyState::Down
}

/// Whether a key in state `s` counts as up.
pub open spec fn is_up(s: KeyState) -> bool {
    s == KeyState::JustReleased || s == KeyState::Up
}

/// `keys` once every key listed in `changed` has settled.
pub open spec fn settled(keys: Seq<KeyState>, changed: Seq<Keycode>) -> Seq<KeyState> {
    Seq::new(
        keys.len(),
        |i: int|
            if exists|j: int| 0 <= j < changed.len() && (#[trigger] changed[j]).spec_code() == i {
                settle(keys[i])
            } else {
                keys[i]
            },
    )
}

/// `keys` after the key events of `events`, in order; repeats of a held
/// key and events other than key presses and releases change nothing.
pub open spec fn apply_events(keys: Seq<KeyState>, events: Seq<Event>) -> Seq<KeyState>
    decreases events.len(),
{
    if events.len() == 0 {
        keys
    } else {
        let k = apply_events(keys, events.drop_last());
        match events.last() {
            Event::KeyUp(key, repeat) => if repeat {
                k
            } else {
                k.update(key.spec_code() as int, KeyState::JustReleased)
            },
            Event::KeyDown(key, repeat) => if repeat {
                k
            } else {
                k.update(key.spec_code() as int, KeyState::JustPressed)
            },
            _ => k,
        }
    }
}

/// The keys that the key events of `events` change, in order.
pub open spec fn changed_by(events: Seq<Event>) -> Seq<Keycode>
    decreases events.len(),
{
    if events.len() == 0 {
        Seq::empty()
    } else {
        let c = changed_by(events.drop_last());
        match events.last() {
            Event::KeyUp(key, repeat) => if repeat {
                c
            } else {
                c.push(key)
            },
            Event::KeyDown(key, repeat) => if repeat {
                c
            } else {
                c.push(key)
            },
            _ => c,
        }
    }
}

/// The state of every key, and the keys that changed in the last frame.
#[derive(Debug)]
pub struct InputManager {
    keys: Vec<KeyState>,
    just_changed: Vec<Keycode>,
}

impl InputManager {
    /// The state of each key code.
    pub closed spec fn states(&self) -> Seq<KeyState> {
        self.keys@
    }

    /// The keys that changed in the last processed frame, in order.
    pub closed spec fn changed(&self) -> Seq<Keycode> {
        self.just_changed@
    }

    /// The state of `key`.
    pub open spec fn state(&self, key: Keycode) -> KeyState {
        self.states()[key.spec_code() as int]
    }

    /// One state per key code, and every key in a just-changed state is
    /// listed among the keys that changed.
    pub open spec fn wf(&self) -> bool {
        &&& self.states().len() == KEY_COUNT
        &&& forall|i: int|
            #![trigger self.states()[i]]
            0 <= i < KEY_COUNT && (self.states()[i] == KeyState::JustPressed || self.states()[i]
                == KeyState::JustReleased) ==> exists|j: int|
                0 <= j < self.changed().len() && (#[trigger] self.changed()[j]).spec_code() == i
    }

    /// Every key up, none changed.
    pub fn new() -> (res: Self)
        ensures
            res.wf(),
            res.states() == Seq::new(KEY_COUNT as nat, |i: int| KeyState::Up),
            res.changed() == Seq::<Keycode>::empty(),
    {
        let mut keys: Vec<KeyState> = Vec::new();
        let mut i: usize = 0;
        while i < KEY_COUNT
            invariant
                i <= KEY_COUNT,
                keys@.len() == i,
                forall|j: int| 0 <= j < i ==> keys@[j] == KeyState::Up,
            decreases KEY_COUNT - i,
        {
            keys.push(KeyState::Up);
            i = i + 1;
        }
        let res = InputManager { keys, just_changed: Vec::new() };
        assert(res.states() =~= Seq::new(KEY_COUNT as nat, |i: int| KeyState::Up));
        res
    }

    /// Starts a new frame: the keys that changed in the last frame settle
    /// (just pressed becomes down, just released becomes up), then the key
    /// events of `events` apply in order, and the keys they touch become
    /// the keys that changed.
    pub fn process(&mut self, events: &[Event])
        requires
            old(self).wf(),
        ensures
            final(self).wf(),
            final(self).states() == apply_events(
                settled(old(self).states(), old(self).changed()),
                events@,
            ),
            final(self).changed() == changed_by(events@),
    {
        let ghost keys0 = self.keys@;
        let ghost changed0 = self.just_changed@;
        let mut i: usize = 0;
        while i < self.just_changed.len()
            invariant
                self.just_changed@ == changed0,
                self.keys@.len() == KEY_COUNT,
                keys0.len() == KEY_COUNT,
                i <= changed0.len(),
                forall|x: int|
                    0 <= x < KEY_COUNT ==> #[trigger] self.keys@[x] == if exists|j: int|
                        0 <= j < i && (#[trigger] changed0[j]).spec_code() == x {
                        settle(keys0[x])
                    } else {
                        keys0[x]
                    },
            decreases changed0.len() - i,
        {
            let key = self.just_changed[i];
            let c = key.code() as usize;
            let new_state = match self.keys[c] {
                KeyState::JustPressed => KeyState::Down,
                KeyState::JustReleased => KeyState::Up,
                other => other,
            };
            self.keys.set(c, new_state);
            proof {
                assert forall|x: int| 0 <= x < KEY_COUNT implies #[trigger] self.keys@[x] == if exists|j: int|
                    0 <= j < i + 1 && (#[trigger] changed0[j]).spec_code() == x {
                    settle(keys0[x])
                } else {
                    keys0[x]
                } by {
                    if x == c {
                        assert(changed0[i as int].spec_code() == x);
                    } else {
                        if exists|j: int| 0 <= j < i + 1 && (#[trigger] changed0[j]).spec_code() == x {
                            let j = choose|j: int| 0 <= j < i + 1 && (#[trigger] changed0[j]).spec_code() == x;
                            assert(j < i);
                        }
                    }
                }
            }
            i = i + 1;
        }
        let ghost mid = self.keys@;
        assert(mid =~= settled(keys0, changed0));
        self.just_changed.clear();
        let mut e: usize = 0;
        while e < events.len()
            invariant
                e <= events@.len(),
                self.keys@ == apply_events(mid, events@.subrange(0, e as int)),
                self.just_changed@ == changed_by(events@.subrange(0, e as int)),
                self.keys@.len() == KEY_COUNT,
            decreases events@.len() - e,
        {
            let ghost before = events@.subrange(0, e as int);
            let ghost after = events@.subrange(0, e + 1);
            assert(after.drop_last() =~= before);
            match events[e] {
                Event::KeyUp(key, repeat) => {
                    if !repeat {
                        self.keys.set(key.code() as usize, KeyState::JustReleased);
                        self.just_changed.push(key);
                    }
                },
                Event::KeyDown(key, repeat) => {
                    if !repeat {
                        self.keys.set(key.code() as usize, KeyState::JustPressed);
                        self.just_changed.push(key);
                    }
                },
                _ => {},
            }
            e = e + 1;
        }
        assert(events@.subrange(0, events@.len() as int) =~= events@);
        proof {
            lemma_just_changed_listed(mid, events@);
            assert forall|x: int| 0 <= x < KEY_COUNT implies mid[x] != KeyState::JustPressed && mid[x]
                != KeyState::JustReleased by {
                if exists|j: int| 0 <= j < changed0.len() && (#[trigger] changed0[j]).spec_code() == x {
                } else {
                    assert(keys0[x] != KeyState::JustPressed && keys0[x] != KeyState::JustReleased);
                }
            }
            let fin = apply_events(mid, events@);
            assert(self.keys@ == fin);
            assert forall|x: int|
                #![trigger self.states()[x]]
                0 <= x < KEY_COUNT && (self.states()[x] == KeyState::JustPressed || self.states()[x]
                    == KeyState::JustReleased) implies exists|j: int|
                0 <= j < self.changed().len() && (#[trigger] self.changed()[j]).spec_code() == x by {
                assert(fin[x] == self.keys@[x]);
                assert(mid[x] != KeyState::JustPressed && mid[x] != KeyState::JustReleased);
                assert(mid.len() == KEY_COUNT);
                let cb = changed_by(events@);
                let j = choose|j: int| 0 <= j < cb.len() && (#[trigger] cb[j]).spec_code() == x;
                assert(self.changed()[j] == cb[j]);
            }
            assert(self.states().len() == KEY_COUNT);
            assert(self.wf());
        }
    }

    /// Whether `key` is held down (pressed this frame or earlier).
    pub fn is_key_down(&self, key: Keycode) -> (res: bool)
        requires
            self.wf(),
        ensures
            res == is_down(self.state(key)),
    {
        let key = self.keys[key.code() as usize];
        key == KeyState::JustPressed || key == KeyState::Down
    }

    /// Whether `key` is up (released this frame or earlier).
    pub fn is_key_up(&self, key: Keycode) -> (res: bool)
        requires
            self.wf(),
        ensures
            res == is_up(self.state(key)),
    {
        let key = self.keys[key.code() as usize];
        key == KeyState::JustReleased || key == KeyState::Up
    }

    /// Whether `key` was pressed in this frame.
    pub fn is_key_just_pressed(&self, key: Keycode) -> (res: bool)
        requires
            self.wf(),
        ensures
            res == (self.state(key) == KeyState::JustPressed),
    {
        let key = self.keys[key.code() as usize];
        key == KeyState::JustPressed
    }

    /// Whether `key` was released in this frame.
    pub fn is_key_just_released(&self, key: Keycode) -> (res: bool)
        requires
            self.wf(),
        ensures
            res == (self.state(key) == KeyState::JustReleased),
    {
        let key = self.keys[key.code() as usize];
        key == KeyState::JustReleased
    }

    /// The direction along one axis that two keys give: 1 when only `pos`
    /// is held down, -1 when only `neg` is, 0 otherwise.
    pub fn axis_direction(&self, pos: Keycode, neg: Keycode) -> (res: i8)
        requires
            self.wf(),
        ensures
            res == (if is_down(self.state(pos)) { 1int } else { 0int }) - (if is_down(self.state(neg)) {
                1int
            } else {
                0int
            }),
    {
        let mut power: i8 = 0;
        if self.is_key_down(pos) {
            power = power + 1;
        }
        if self.is_key_down(neg) {
            power = power - 1;
        }
        power
    }
}

/// Whether `e` presses or releases a key with the code of `key` (repeats
/// of a held key do not count).
pub open spec fn touches(e: Event, key: Keycode) -> bool {
    match e {
        Event::KeyUp(k, repeat) => !repeat && k.spec_code() == key.spec_code(),
        Event::KeyDown(k, repeat) => !repeat && k.spec_code() == key.spec_code(),
        _ => false,
    }
}

/// A key is up exactly when it is not down.
pub proof fn up_is_not_down(s: KeyState)
    ensures
        is_up(s) <==> !is_down(s),
{
}

/// Events that do not touch a key leave its state alone.
pub proof fn untouched_key_keeps_state(keys: Seq<KeyState>, events: Seq<Event>, key: Keycode)
    requires
        keys.len() == KEY_COUNT,
        forall|i: int| 0 <= i < events.len() ==> !touches(#[trigger] events[i], key),
    ensures
        apply_events(keys, events)[key.spec_code() as int] == keys[key.spec_code() as int],
    decreases events.len(),
{
    if events.len() > 0 {
        let prev = events.drop_last();
        assert forall|i: int| 0 <= i < prev.len() implies !touches(#[trigger] prev[i], key) by {
            assert(prev[i] == events[i]);
        }
        untouched_key_keeps_state(keys, prev, key);
        assert(!touches(events[events.len() - 1], key));
        lemma_apply_events_len(keys, prev);
        match events.last() {
            Event::KeyUp(k, repeat) => {
                k.lemma_code_bound();
            },
            Event::KeyDown(k, repeat) => {
                k.lemma_code_bound();
            },
            _ => {},
        }
    }
}

/// A key pressed in one frame is held down in the next, and a key
/// released in one frame is up in the next, unless the next frame's
/// events press or release it again.
pub proof fn just_changed_key_settles(m: &InputManager, events: Seq<Event>, key: Keycode)
    requires
        m.wf(),
        forall|i: int| 0 <= i < events.len() ==> !touches(#[trigger] events[i], key),
    ensures
        apply_events(settled(m.states(), m.changed()), events)[key.spec_code() as int] == settle(
            m.state(key),
        ),
        m.state(key) == KeyState::JustPressed ==> apply_events(settled(m.states(), m.changed()), events)[key.spec_code() as int] == KeyState::Down,
        m.state(key) == KeyState::JustReleased ==> apply_events(settled(m.states(), m.changed()), events)[key.spec_code() as int] == KeyState::Up,
{
    key.lemma_code_bound();
    let c = key.spec_code() as int;
    let st = settled(m.states(), m.changed());
    untouched_key_keeps_state(st, events, key);
    if exists|j: int| 0 <= j < m.changed().len() && (#[trigger] m.changed()[j]).spec_code() == c {
    } else {
        assert(m.states()[c] != KeyState::JustPressed && m.states()[c] != KeyState::JustReleased);
    }
}

/// How the last event of `events` that touches `key` leaves it: pressed
/// (`Some(true)`) or released (`Some(false)`); `None` when no event
/// touches it.
pub open spec fn last_touch(events: Seq<Event>, key: Keycode) -> Option<bool>
    decreases events.len(),
{
    if events.len() == 0 {
        None
    } else if touches(events.last(), key) {
        Some(events.last() is KeyDown)
    } else {
        last_touch(events.drop_last(), key)
    }
}

/// When no event touches a key, none of them does.
proof fn lemma_no_last_touch(events: Seq<Event>, key: Keycode)
    requires
        last_touch(events, key) is None,
    ensures
        forall|i: int| 0 <= i < events.len() ==> !touches(#[trigger] events[i], key),
    decreases events.len(),
{
    if events.len() > 0 {
        lemma_no_last_touch(events.drop_last(), key);
        assert forall|i: int| 0 <= i < events.len() implies !touches(#[trigger] events[i], key) by {
            if i < events.len() - 1 {
                assert(events[i] == events.drop_last()[i]);
            }
        }
    }
}

/// A key that some event touches ends just pressed if the last such event
/// presses it, and just released if it releases it.
pub proof fn last_touch_decides(keys: Seq<KeyState>, events: Seq<Event>, key: Keycode)
    requires
        keys.len() == KEY_COUNT,
        last_touch(events, key) is Some,
    ensures
        apply_events(keys, events)[key.spec_code() as int] == if last_touch(events, key) == Some(true) {
            KeyState::JustPressed
        } else {
            KeyState::JustReleased
        },
    decreases events.len(),
{
    key.lemma_code_bound();
    let prev = events.drop_last();
    lemma_apply_events_len(keys, prev);
    match events.last() {
        Event::KeyUp(k, repeat) => {
            k.lemma_code_bound();
        },
        Event::KeyDown(k, repeat) => {
            k.lemma_code_bound();
        },
        _ => {},
    }
    if !touches(events.last(), key) {
        last_touch_decides(keys, prev, key);
    }
}

/// What one frame's events do to a key: if some event presses or releases
/// it (repeats aside), the last such event decides between just pressed
/// and just released; otherwise the key settles from the last frame.
pub proof fn processed_key_state(m: &InputManager, events: Seq<Event>, key: Keycode)
    requires
        m.wf(),
    ensures
        apply_events(settled(m.states(), m.changed()), events)[key.spec_code() as int] == match last_touch(
            events,
            key,
        ) {
            Some(true) => KeyState::JustPressed,
            Some(false) => KeyState::JustReleased,
            None => settle(m.state(key)),
        },
{
    let st = settled(m.states(), m.changed());
    assert(st.len() == KEY_COUNT);
    if last_touch(events, key) is Some {
        last_touch_decides(st, events, key);
    } else {
        lemma_no_last_touch(events, key);
        just_changed_key_settles(m, events, key);
    }
}

proof fn lemma_apply_events_len(keys: Seq<KeyState>, events: Seq<Event>)
    requires
        keys.len() == KEY_COUNT,
    ensures
        apply_events(keys, events).len() == KEY_COUNT,
    decreases events.len(),
{
    if events.len() > 0 {
        lemma_apply_events_len(keys, events.drop_last());
        match events.last() {
            Event::KeyUp(k, repeat) => {
                k.lemma_code_bound();
            },
            Event::KeyDown(k, repeat) => {
                k.lemma_code_bound();
            },
            _ => {},
        }
    }
}

/// After the events of `events` apply to `keys`, a key in a just-changed
/// state is one that the events changed, or was already in that state.
proof fn lemma_just_changed_listed(keys: Seq<KeyState>, events: Seq<Event>)
    requires
        keys.len() == KEY_COUNT,
    ensures
        apply_events(keys, events).len() == keys.len(),
        forall|i: int|
            #![trigger apply_events(keys, events)[i]]
            0 <= i < keys.len() && (apply_events(keys, events)[i] == KeyState::JustPressed
                || apply_events(keys, events)[i] == KeyState::JustReleased) ==> (keys[i]
                == apply_events(keys, events)[i] || exists|j: int|
                0 <= j < changed_by(events).len() && (#[trigger] changed_by(events)[j]).spec_code()
                    == i),
    decreases events.len(),
{
    if events.len() > 0 {
        let prev = events.drop_last();
        lemma_just_changed_listed(keys, prev);
        let k = apply_events(keys, prev);
        let c = changed_by(prev);
        let now = apply_events(keys, events);
        let cn = changed_by(events);
        match events.last() {
            Event::KeyUp(key, repeat) => {
                key.lemma_code_bound();
            },
            Event::KeyDown(key, repeat) => {
                key.lemma_code_bound();
            },
            _ => {},
        }
        assert forall|j: int| 0 <= j < c.len() implies cn[j] == c[j] by {}
        assert forall|i: int|
            #![trigger now[i]]
            0 <= i < keys.len() && (now[i] == KeyState::JustPressed || now[i] == KeyState::JustReleased)
                implies (keys[i] == now[i] || exists|j: int|
                0 <= j < cn.len() && (#[trigger] cn[j]).spec_code() == i) by {
            if now[i] == k[i] {
                if keys[i] != now[i] {
                    assert(k[i] == KeyState::JustPressed || k[i] == KeyState::JustReleased);
                    let j = choose|j: int| 0 <= j < c.len() && (#[trigger] c[j]).spec_code() == i;
                    assert(cn[j] == c[j]);
                }
            } else {
                assert(cn[c.len() as int].spec_code() == i);
            }
        }
    }
}

} // verus!
