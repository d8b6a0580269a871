//! Input state: what each key did, where the mouse is, which mouse buttons are down, and
//! how a frame's window events change them.

use vstd::prelude::*;
use vstd::std_specs::convert::FromSpec;

verus! {

/// What a key or button did.
#[derive(Clone, Copy, PartialEq, Eq, Structural, Debug)]
pub enum Action {
    Release,
    Press,
    Repeat,
}

/// How the window shows the cursor.
#[derive(Clone, Copy, PartialEq, Eq, Structural, Debug)]
pub enum CursorMode {
    Normal,
    Hidden,
    Disabled,
}

/// The key code of the F key.
pub const KEY_F: i32 = 70;

/// The key code of the F5 key.
pub const KEY_F5: i32 = 294;

/// The key codes of the keys that move the camera.
pub const KEY_W: i32 = 87;
pub const KEY_S: i32 = 83;
pub const KEY_A: i32 = 65;
pub const KEY_D: i32 = 68;
pub const KEY_Q: i32 = 81;
pub const KEY_E: i32 = 69;

/// Where the mouse is, and where it was in the frame before.
pub struct Mouse<P> {
    pub pos: (P, P),
    pub prev_pos: (P, P),
}

/// The input state of a window: the last action of each key that was not released, the
/// mouse, and which of the first five mouse buttons are down.
pub struct Data<P> {
    pub keys: Vec<(i32, Action)>,
    pub mouse: Mouse<P>,
    pub mouse_press: [bool; 5],
}

/// No key occurs twice in `keys`.
pub open spec fn keys_distinct(keys: Seq<(i32, Action)>) -> bool {
    forall|i: int, j: int| 0 <= i < j < keys.len() ==> keys[i].0 != keys[j].0
}

/// What key `key` last did, if it is held in `keys`.
pub open spec fn key_action(keys: Seq<(i32, Action)>, key: i32) -> Option<Action> {
    if exists|i: int| 0 <= i < keys.len() && keys[i].0 == key {
        Some(keys[choose|i: int| 0 <= i < keys.len() && keys[i].0 == key].1)
    } else {
        None
    }
}

/// The keys at the start of a frame: pressed keys become repeated, released keys go.
pub open spec fn advanced_keys(keys: Seq<(i32, Action)>) -> Seq<(i32, Action)>
    decreases keys.len(),
{
    if keys.len() == 0 {
        Seq::empty()
    } else {
        let before = advanced_keys(keys.drop_last());
        let (k, a) = keys.last();
        match a {
            Action::Release => before,
            Action::Press => before.push((k, Action::Repeat)),
            Action::Repeat => before.push((k, Action::Repeat)),
        }
    }
}

impl<P: From<i16> + Copy> Data<P> {
    /// No key held, the mouse at the origin, no button down.
    pub fn new() -> (r: Data<P>)
        ensures
            r.keys@.len() == 0,
            P::obeys_from_spec() ==> r.mouse.pos == (P::from_spec(0i16), P::from_spec(0i16)),
            P::obeys_from_spec() ==> r.mouse.prev_pos == (P::from_spec(0i16), P::from_spec(0i16)),
            forall|i: int| 0 <= i < 5 ==> !#[trigger] r.mouse_press@[i],
    {
        let origin = (P::from(0i16), P::from(0i16));
        Data { keys: Vec::new(), mouse: Mouse { pos: origin, prev_pos: origin }, mouse_press: [false; 5] }
    }
}

/// What key `key` last did, if it is held.
pub fn key_state(keys: &Vec<(i32, Action)>, key: i32) -> (r: Option<Action>)
    requires
        keys_distinct(keys@),
    ensures
        r == key_action(keys@, key),
{
    let n = keys.len();
    let mut i: usize = 0;
    while i < n
        invariant
            n == keys@.len(),
            i <= n,
            keys_distinct(keys@),
            forall|j: int| 0 <= j < i ==> keys@[j].0 != key,
        decreases n - i,
    {
        if keys[i].0 == key {
            proof {
                assert(keys@[i as int].0 == key);
                let c = choose|j: int| 0 <= j < keys@.len() && keys@[j].0 == key;
                if c < i as int {
                    assert(keys@[c].0 != key);
                } else if c > i as int {
                    assert(keys@[i as int].0 != keys@[c].0);
                }
            }
            return Some(keys[i].1);
        }
        i += 1;
    }
    None
}

/// Key `key` was pressed in this frame.
pub fn is_pressed(keys: &Vec<(i32, Action)>, key: i32) -> (r: bool)
    requires
        keys_distinct(keys@),
    ensures
        r == (key_action(keys@, key) == Some(Action::Press)),
{
    match key_state(keys, key) {
        Some(Action::Press) => true,
        _ => false,
    }
}

/// Key `key` is down: pressed in this frame or held from an earlier one.
pub fn is_held(keys: &Vec<(i32, Action)>, key: i32) -> (r: bool)
    requires
        keys_distinct(keys@),
    ensures
        r == (key_action(keys@, key) == Some(Action::Press) || key_action(keys@, key) == Some(Action::Repeat)),
{
    match key_state(keys, key) {
        Some(Action::Press) => true,
        Some(Action::Repeat) => true,
        _ => false,
    }
}

proof fn lemma_advanced_keys_from(keys: Seq<(i32, Action)>, k: i32)
    ensures
        (exists|i: int| 0 <= i < advanced_keys(keys).len() && advanced_keys(keys)[i].0 == k) ==> (exists|i: int|
            0 <= i < keys.len() && keys[i].0 == k),
    decreases keys.len(),
{
    if keys.len() > 0 {
        lemma_advanced_keys_from(keys.drop_last(), k);
        let before = advanced_keys(keys.drop_last());
        if exists|i: int| 0 <= i < advanced_keys(keys).len() && advanced_keys(keys)[i].0 == k {
            let i = choose|i: int| 0 <= i < advanced_keys(keys).len() && advanced_keys(keys)[i].0 == k;
            if i < before.len() {
                assert(before[i].0 == k);
                let j = choose|j: int| 0 <= j < keys.drop_last().len() && keys.drop_last()[j].0 == k;
                assert(keys[j].0 == k);
            } else {
                assert(keys[keys.len() - 1].0 == k);
            }
        }
    }
}

proof fn lemma_advanced_keys_distinct(keys: Seq<(i32, Action)>)
    requires
        keys_distinct(keys),
    ensures
        keys_distinct(advanced_keys(keys)),
    decreases keys.len(),
{
    if keys.len() > 0 {
        lemma_advanced_keys_distinct(keys.drop_last());
        let before = advanced_keys(keys.drop_last());
        let (k, a) = keys.last();
        lemma_advanced_keys_from(keys.drop_last(), k);
        assert forall|j: int| 0 <= j < keys.drop_last().len() implies keys.drop_last()[j].0 != k by {
            assert(keys[j].0 != keys[keys.len() - 1].0);
        }
        assert forall|i: int| 0 <= i < before.len() implies before[i].0 != k by {
            if before[i].0 == k {
                assert(exists|i: int| 0 <= i < before.len() && before[i].0 == k);
            }
        }
    }
}

/// Starts a frame: pressed keys become repeated ones and released keys are forgotten.
pub fn advance_keys(keys: &mut Vec<(i32, Action)>)
    requires
        keys_distinct(old(keys)@),
    ensures
        final(keys)@ == advanced_keys(old(keys)@),
        keys_distinct(final(keys)@),
{
    let mut kept: Vec<(i32, Action)> = Vec::new();
    let n = keys.len();
    let mut i: usize = 0;
    assert(keys@.take(0) =~= Seq::<(i32, Action)>::empty());
    while i < n
        invariant
            n == keys@.len(),
            i <= n,
            kept@ == advanced_keys(keys@.take(i as int)),
        decreases n - i,
    {
        let (k, a) = keys[i];
        proof {
            let t = keys@.take(i + 1);
            assert(t.drop_last() =~= keys@.take(i as int));
            assert(t.last() == keys@[i as int]);
        }
        match a {
            Action::Release => {},
            _ => {
                kept.push((k, Action::Repeat));
            },
        }
        i += 1;
    }
    assert(keys@.take(n as int) =~= keys@);
    proof {
        lemma_advanced_keys_distinct(keys@);
    }
    *keys = kept;
}

/// Records what key `key` did: its earlier action, if any, is replaced.
pub fn record_key(keys: &mut Vec<(i32, Action)>, key: i32, action: Action)
    requires
        keys_distinct(old(keys)@),
    ensures
        keys_distinct(final(keys)@),
        key_action(final(keys)@, key) == Some(action),
        forall|k: i32| k != key ==> key_action(final(keys)@, k) == key_action(old(keys)@, k),
{
    let n = keys.len();
    let mut i: usize = 0;
    while i < n
        invariant
            n == keys@.len(),
            i <= n,
            keys@ == old(keys)@,
            keys_distinct(keys@),
            forall|j: int| 0 <= j < i ==> keys@[j].0 != key,
        decreases n - i,
    {
        if keys[i].0 == key {
            keys.set(i, (key, action));
            proof {
                assert forall|a: int, b: int| 0 <= a < b < keys@.len() implies keys@[a].0 != keys@[b].0 by {
                    assert(old(keys)@[a].0 != old(keys)@[b].0);
                }
                assert(keys@[i as int].0 == key);
                let c = choose|j: int| 0 <= j < keys@.len() && keys@[j].0 == key;
                assert(c == i as int) by {
                    if c < i as int {
                        assert(old(keys)@[c].0 != key);
                    } else if c > i as int {
                        assert(old(keys)@[c].0 == keys@[c].0);
                        assert(old(keys)@[i as int].0 != old(keys)@[c].0);
                    }
                }
                assert forall|k: i32| k != key implies key_action(keys@, k) == key_action(old(keys)@, k) by {
                    if exists|j: int| 0 <= j < old(keys)@.len() && old(keys)@[j].0 == k {
                        let j1 = choose|j: int| 0 <= j < old(keys)@.len() && old(keys)@[j].0 == k;
                        assert(keys@[j1].0 == k);
                        let j2 = choose|j: int| 0 <= j < keys@.len() && keys@[j].0 == k;
                        assert(j1 == j2) by {
                            if j1 != j2 {
                                assert(old(keys)@[j2].0 == k);
                            }
                        }
                    } else {
                        assert forall|j: int| 0 <= j < keys@.len() implies keys@[j].0 != k by {
                            assert(old(keys)@[j].0 != k || j == i as int);
                        }
                    }
                }
            }
            return;
        }
        i += 1;
    }
    keys.push((key, action));
    proof {
        let m = old(keys)@.len() as int;
        assert(keys@[m].0 == key);
        let c = choose|j: int| 0 <= j < keys@.len() && keys@[j].0 == key;
        assert(c == m);
        assert forall|k: i32| k != key implies key_action(keys@, k) == key_action(old(keys)@, k) by {
            if exists|j: int| 0 <= j < old(keys)@.len() && old(keys)@[j].0 == k {
                let j1 = choose|j: int| 0 <= j < old(keys)@.len() && old(keys)@[j].0 == k;
                assert(keys@[j1].0 == k);
                let j2 = choose|j: int| 0 <= j < keys@.len() && keys@[j].0 == k;
                assert(j1 == j2) by {
                    if j1 != j2 {
                        assert(keys@[j2].0 == k);
                        assert(j2 < m);
                    }
                }
            } else {
                assert forall|j: int| 0 <= j < keys@.len() implies keys@[j].0 != k by {
                    if j < m {
                        assert(old(keys)@[j].0 != k);
                    }
                }
            }
        }
    }
}

/// The slot of mouse button `button` (counted from 0): the first five buttons have their
/// own slots, every other button shares the first.
pub open spec fn mouse_slot(button: i32) -> int {
    if 0 <= button < 5 {
        button as int
    } else {
        0
    }
}

/// Records what mouse button `button` did: it is down unless it was released.
pub fn record_mouse_button<P>(data: &mut Data<P>, button: i32, action: Action)
    ensures
        final(data).keys == old(data).keys,
        final(data).mouse == old(data).mouse,
        final(data).mouse_press@ == old(data).mouse_press@.update(mouse_slot(button), action != Action::Release),
{
    let slot: usize = if 0 <= button && button < 5 {
        button as usize
    } else {
        0
    };
    data.mouse_press.set(slot, action != Action::Release);
}

/// Follows the cursor while the window hides or captures it: the last position becomes the
/// previous one, and `cursor` the current one. A visible cursor is not followed.
pub fn track_cursor<P: Copy>(data: &mut Data<P>, mode: CursorMode, cursor: (P, P))
    ensures
        final(data).keys == old(data).keys,
        final(data).mouse_press == old(data).mouse_press,
        mode == CursorMode::Normal ==> final(data).mouse == old(data).mouse,
        mode != CursorMode::Normal ==> final(data).mouse.prev_pos == old(data).mouse.pos
            && final(data).mouse.pos == cursor,
{
    match mode {
        CursorMode::Normal => {},
        _ => {
            data.mouse.prev_pos = data.mouse.pos;
            data.mouse.pos = cursor;
        },
    }
}

/// The window size after a frame whose framebuffer is `framebuffer_width` by
/// `framebuffer_height`, and whether it changed: a size with a zero side keeps the old
/// size and flag.
pub fn update_window_size(
    width: u32,
    height: u32,
    resized: bool,
    framebuffer_width: i32,
    framebuffer_height: i32,
) -> (r: (u32, u32, bool))
    ensures
        ({
            let w = framebuffer_width as u32;
            let h = framebuffer_height as u32;
            if w > 0 && h > 0 {
                if width != w || height != h {
                    r == (w, h, true)
                } else {
                    r == (width, height, false)
                }
            } else {
                r == (width, height, resized)
            }
        }),
{
    let w = framebuffer_width as u32;
    let h = framebuffer_height as u32;
    if w > 0 && h > 0 {
        if width != w || height != h {
            (w, h, true)
        } else {
            (width, height, false)
        }
    } else {
        (width, height, resized)
    }
}

/// Toggles the cursor between captured and visible when F was pressed in this frame, and
/// returns the mode to switch to. Capturing starts following the mouse at `cursor`; freeing
/// puts it back at `origin`. A hidden cursor cannot be toggled.
pub fn update_cursor_mode<P: Copy>(data: &mut Data<P>, mode: CursorMode, cursor: (P, P), origin: (P, P)) -> (r: Option<CursorMode>)
    requires
        keys_distinct(old(data).keys@),
        key_action(old(data).keys@, KEY_F) == Some(Action::Press) ==> mode != CursorMode::Hidden,
    ensures
        final(data).keys == old(data).keys,
        final(data).mouse_press == old(data).mouse_press,
        key_action(old(data).keys@, KEY_F) != Some(Action::Press) ==> r is None && final(data).mouse == old(data).mouse,
        key_action(old(data).keys@, KEY_F) == Some(Action::Press) && mode == CursorMode::Normal ==> r == Some(
            CursorMode::Disabled,
        ) && final(data).mouse.pos == cursor && final(data).mouse.prev_pos == cursor,
        key_action(old(data).keys@, KEY_F) == Some(Action::Press) && mode == CursorMode::Disabled ==> r == Some(
            CursorMode::Normal,
        ) && final(data).mouse.pos == origin && final(data).mouse.prev_pos == origin,
{
    if !is_pressed(&data.keys, KEY_F) {
        return None;
    }
    match mode {
        CursorMode::Normal => {
            data.mouse.pos = cursor;
            data.mouse.prev_pos = cursor;
            Some(CursorMode::Disabled)
        },
        _ => {
            data.mouse.pos = origin;
            data.mouse.prev_pos = origin;
            Some(CursorMode::Normal)
        },
    }
}

/// The pipeline is to be reloaded: F5 was pressed in this frame.
pub fn reload_requested<P>(data: &Data<P>) -> (r: bool)
    requires
        keys_distinct(data.keys@),
    ensures
        r == (key_action(data.keys@, KEY_F5) == Some(Action::Press)),
{
    is_pressed(&data.keys, KEY_F5)
}

/// Key `key` is held in `keys` with an action other than a release.
spec fn held_unreleased(keys: Seq<(i32, Action)>, key: i32) -> bool {
    exists|j: int| 0 <= j < keys.len() && keys[j].0 == key && keys[j].1 != Action::Release
}

/// Key `key` is held in `keys`.
spec fn held(keys: Seq<(i32, Action)>, key: i32) -> bool {
    exists|i: int| 0 <= i < keys.len() && keys[i].0 == key
}

proof fn lemma_advanced_keys_shape(keys: Seq<(i32, Action)>)
    ensures
        forall|i: int| 0 <= i < advanced_keys(keys).len() ==> (#[trigger] advanced_keys(keys)[i]).1 == Action::Repeat,
        forall|i: int| 0 <= i < advanced_keys(keys).len() ==> held_unreleased(keys, (#[trigger] advanced_keys(keys)[i]).0),
        forall|j: int|
            0 <= j < keys.len() && (#[trigger] keys[j]).1 != Action::Release ==> held(advanced_keys(keys), keys[j].0),
    decreases keys.len(),
{
    if keys.len() == 0 {
        assert(advanced_keys(keys).len() == 0);
    } else {
        let rest = keys.drop_last();
        let before = advanced_keys(rest);
        let adv = advanced_keys(keys);
        lemma_advanced_keys_shape(rest);
        let n = keys.len();
        assert forall|j: int| 0 <= j < rest.len() implies #[trigger] rest[j] == keys[j] by {}
        assert forall|i: int| 0 <= i < before.len() implies #[trigger] adv[i] == before[i] by {}
        assert forall|i: int| 0 <= i < adv.len() implies held_unreleased(keys, (#[trigger] adv[i]).0) by {
            if i < before.len() {
                assert(held_unreleased(rest, before[i].0));
                let j = choose|j: int| 0 <= j < rest.len() && rest[j].0 == before[i].0 && rest[j].1 != Action::Release;
                assert(keys[j] == rest[j]);
            } else {
                assert(keys[n - 1].0 == adv[i].0 && keys[n - 1].1 != Action::Release);
            }
        }
        assert forall|j: int| 0 <= j < keys.len() && (#[trigger] keys[j]).1 != Action::Release implies held(adv, keys[j].0) by {
            if j < n - 1 {
                assert(rest[j] == keys[j]);
                assert(held(before, rest[j].0));
                let i = choose|i: int| 0 <= i < before.len() && before[i].0 == rest[j].0;
                assert(adv[i] == before[i]);
            } else {
                assert(adv[adv.len() - 1].0 == keys[j].0);
            }
        }
    }
}

/// Advancing the keys to a new frame ages every key: a key that was pressed or repeated is
/// repeated now, a released key or one not held is not held, and no key is pressed anew.
pub proof fn lemma_advance_keys_ages_every_key(keys: Seq<(i32, Action)>, key: i32)
    requires
        keys_distinct(keys),
    ensures
        forall|i: int| 0 <= i < advanced_keys(keys).len() ==> (#[trigger] advanced_keys(keys)[i]).1 == Action::Repeat,
        key_action(advanced_keys(keys), key) == match key_action(keys, key) {
            Some(Action::Press) => Some(Action::Repeat),
            Some(Action::Repeat) => Some(Action::Repeat),
            _ => None::<Action>,
        },
{
    let adv = advanced_keys(keys);
    lemma_advanced_keys_shape(keys);
    if exists|i: int| 0 <= i < adv.len() && adv[i].0 == key {
        let i = choose|i: int| 0 <= i < adv.len() && adv[i].0 == key;
        assert(adv[i].1 == Action::Repeat);
        assert(held_unreleased(keys, adv[i].0));
        let j = choose|j: int| 0 <= j < keys.len() && keys[j].0 == adv[i].0 && keys[j].1 != Action::Release;
        let c = choose|c: int| 0 <= c < keys.len() && keys[c].0 == key;
        assert(c == j) by {
            if c < j {
                assert(keys[c].0 != keys[j].0);
            } else if c > j {
                assert(keys[j].0 != keys[c].0);
            }
        }
    } else {
        if exists|j: int| 0 <= j < keys.len() && keys[j].0 == key {
            let c = choose|c: int| 0 <= c < keys.len() && keys[c].0 == key;
            if keys[c].1 != Action::Release {
                assert(held(adv, keys[c].0));
                let i = choose|i: int| 0 <= i < adv.len() && adv[i].0 == keys[c].0;
                assert(adv[i].0 == key);
            }
        }
    }
}

} // verus!
