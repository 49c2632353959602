//! Window-side values: mouse buttons, keys, cursor types, and the record of
//! what is held down.
use vstd::prelude::*;

verus! {

/// A mouse button.
#[derive(Debug, Clone, Copy, PartialEq, Eq, Hash, Structural)]
pub enum MouseButton {
    Left,
    Middle,
    Right,
}

/// A keyboard key.
#[derive(Debug, Clone, Copy, PartialEq, Eq, Hash, Structural)]
pub enum Key {
    A,
    B,
    C,
    D,
    E,
    F,
    G,
    H,
    I,
    J,
    K,
    L,
    M,
    N,
    O,
    P,
    Q,
    R,
    S,
    T,
    U,
    V,
    W,
    X,
    Y,
    Z,
    Num0,
    Num1,
    Num2,
    Num3,
    Num4,
    Num5,
    Num6,
    Num7,
    Num8,
    Num9,
    Escape,
    Space,
    Enter,
    Backspace,
    LShift,
    RShift,
    LCtrl,
    RCtrl,
    LAlt,
    RAlt,
    Left,
    Right,
    Up,
    Down,
    PageUp,
    PageDown,
    F1,
    F2,
    F3,
    F4,
    F5,
    F6,
    F7,
    F8,
    F9,
    F10,
    F11,
    F12,
}

/// The key that a DOM `KeyboardEvent.code` names, if it is one of the keys
/// above.
pub open spec fn key_for_code(code: Seq<char>) -> Option<Key> {
    if code == "KeyA"@ {
        Some(Key::A)
    } else if code == "KeyB"@ {
        Some(Key::B)
    } else if code == "KeyC"@ {
        Some(Key::C)
    } else if code == "KeyD"@ {
        Some(Key::D)
    } else if code == "KeyE"@ {
        Some(Key::E)
    } else if code == "KeyF"@ {
        Some(Key::F)
    } else if code == "KeyG"@ {
        Some(Key::G)
    } else if code == "KeyH"@ {
        Some(Key::H)
    } else if code == "KeyI"@ {
        Some(Key::I)
    } else if code == "KeyJ"@ {
        Some(Key::J)
    } else if code == "KeyK"@ {
        Some(Key::K)
    } else if code == "KeyL"@ {
        Some(Key::L)
    } else if code == "KeyM"@ {
        Some(Key::M)
    } else if code == "KeyN"@ {
        Some(Key::N)
    } else if code == "KeyO"@ {
        Some(Key::O)
    } else if code == "KeyP"@ {
        Some(Key::P)
    } else if code == "KeyQ"@ {
        Some(Key::Q)
    } else if code == "KeyR"@ {
        Some(Key::R)
    } else if code == "KeyS"@ {
        Some(Key::S)
    } else if code == "KeyT"@ {
        Some(Key::T)
    } else if code == "KeyU"@ {
        Some(Key::U)
    } else if code == "KeyV"@ {
        Some(Key::V)
    } else if code == "KeyW"@ {
        Some(Key::W)
    } else if code == "KeyX"@ {
        Some(Key::X)
    } else if code == "KeyY"@ {
        Some(Key::Y)
    } else if code == "KeyZ"@ {
        Some(Key::Z)
    } else if code == "Digit0"@ {
        Some(Key::Num0)
    } else if code == "Digit1"@ {
        Some(Key::Num1)
    } else if code == "Digit2"@ {
        Some(Key::Num2)
    } else if code == "Digit3"@ {
        Some(Key::Num3)
    } else if code == "Digit4"@ {
        Some(Key::Num4)
    } else if code == "Digit5"@ {
        Some(Key::Num5)
    } else if code == "Digit6"@ {
        Some(Key::Num6)
    } else if code == "Digit7"@ {
        Some(Key::Num7)
    } else if code == "Digit8"@ {
        Some(Key::Num8)
    } else if code == "Digit9"@ {
        Some(Key::Num9)
    } else if code == "Escape"@ {
        Some(Key::Escape)
    } else if code == "Space"@ {
        Some(Key::Space)
    } else if code == "Enter"@ {
        Some(Key::Enter)
    } else if code == "Backspace"@ {
        Some(Key::Backspace)
    } else if code == "ShiftLeft"@ {
        Some(Key::LShift)
    } else if code == "ShiftRight"@ {
        Some(Key::RShift)
    } else if code == "ControlLeft"@ {
        Some(Key::LCtrl)
    } else if code == "ControlRight"@ {
        Some(Key::RCtrl)
    } else if code == "AltLeft"@ {
        Some(Key::LAlt)
    } else if code == "AltRight"@ {
        Some(Key::RAlt)
    } else if code == "ArrowLeft"@ {
        Some(Key::Left)
    } else if code == "ArrowRight"@ {
        Some(Key::Right)
    } else if code == "ArrowUp"@ {
        Some(Key::Up)
    } else if code == "ArrowDown"@ {
        Some(Key::Down)
    } else if code == "PageUp"@ {
        Some(Key::PageUp)
    } else if code == "PageDown"@ {
        Some(Key::PageDown)
    } else if code == "F1"@ {
        Some(Key::F1)
    } else if code == "F2"@ {
        Some(Key::F2)
    } else if code == "F3"@ {
        Some(Key::F3)
    } else if code == "F4"@ {
        Some(Key::F4)
    } else if code == "F5"@ {
        Some(Key::F5)
    } else if code == "F6"@ {
        Some(Key::F6)
    } else if code == "F7"@ {
        Some(Key::F7)
    } else if code == "F8"@ {
        Some(Key::F8)
    } else if code == "F9"@ {
        Some(Key::F9)
    } else if code == "F10"@ {
        Some(Key::F10)
    } else if code == "F11"@ {
        Some(Key::F11)
    } else if code == "F12"@ {
        Some(Key::F12)
    } else {
        None
    }
}

impl Key {
    /// The key that a DOM `KeyboardEvent.code` names.
    pub fn from_code(code: &str) -> (r: Option<Key>)
        ensures
            r == key_for_code(code@),
    {
        let c = code.to_owned();
        if c == "KeyA".to_owned() {
            Some(Key::A)
        } else if c == "KeyB".to_owned() {
            Some(Key::B)
        } else if c == "KeyC".to_owned() {
            Some(Key::C)
        } else if c == "KeyD".to_owned() {
            Some(Key::D)
        } else if c == "KeyE".to_owned() {
            Some(Key::E)
        } else if c == "KeyF".to_owned() {
            Some(Key::F)
        } else if c == "KeyG".to_owned() {
            Some(Key::G)
        } else if c == "KeyH".to_owned() {
            Some(Key::H)
        } else if c == "KeyI".to_owned() {
            Some(Key::I)
        } else if c == "KeyJ".to_owned() {
            Some(Key::J)
        } else if c == "KeyK".to_owned() {
            Some(Key::K)
        } else if c == "KeyL".to_owned() {
            Some(Key::L)
        } else if c == "KeyM".to_owned() {
            Some(Key::M)
        } else if c == "KeyN".to_owned() {
            Some(Key::N)
        } else if c == "KeyO".to_owned() {
            Some(Key::O)
        } else if c == "KeyP".to_owned() {
            Some(Key::P)
        } else if c == "KeyQ".to_owned() {
            Some(Key::Q)
        } else if c == "KeyR".to_owned() {
            Some(Key::R)
        } else if c == "KeyS".to_owned() {
            Some(Key::S)
        } else if c == "KeyT".to_owned() {
            Some(Key::T)
        } else if c == "KeyU".to_owned() {
            Some(Key::U)
        } else if c == "KeyV".to_owned() {
            Some(Key::V)
        } else if c == "KeyW".to_owned() {
            Some(Key::W)
        } else if c == "KeyX".to_owned() {
            Some(Key::X)
        } else if c == "KeyY".to_owned() {
            Some(Key::Y)
        } else if c == "KeyZ".to_owned() {
            Some(Key::Z)
        } else if c == "Digit0".to_owned() {
            Some(Key::Num0)
        } else if c == "Digit1".to_owned() {
            Some(Key::Num1)
        } else if c == "Digit2".to_owned() {
            Some(Key::Num2)
        } else if c == "Digit3".to_owned() {
            Some(Key::Num3)
        } else if c == "Digit4".to_owned() {
            Some(Key::Num4)
        } else if c == "Digit5".to_owned() {
            Some(Key::Num5)
        } else if c == "Digit6".to_owned() {
            Some(Key::Num6)
        } else if c == "Digit7".to_owned() {
            Some(Key::Num7)
        } else if c == "Digit8".to_owned() {
            Some(Key::Num8)
        } else if c == "Digit9".to_owned() {
            Some(Key::Num9)
        } else if c == "Escape".to_owned() {
            Some(Key::Escape)
        } else if c == "Space".to_owned() {
            Some(Key::Space)
        } else if c == "Enter".to_owned() {
            Some(Key::Enter)
        } else if c == "Backspace".to_owned() {
            Some(Key::Backspace)
        } else if c == "ShiftLeft".to_owned() {
            Some(Key::LShift)
        } else if c == "ShiftRight".to_owned() {
            Some(Key::RShift)
        } else if c == "ControlLeft".to_owned() {
            Some(Key::LCtrl)
        } else if c == "ControlRight".to_owned() {
            Some(Key::RCtrl)
        } else if c == "AltLeft".to_owned() {
            Some(Key::LAlt)
        } else if c == "AltRight".to_owned() {
            Some(Key::RAlt)
        } else if c == "ArrowLeft".to_owned() {
            Some(Key::Left)
        } else if c == "ArrowRight".to_owned() {
            Some(Key::Right)
        } else if c == "ArrowUp".to_owned() {
            Some(Key::Up)
        } else if c == "ArrowDown".to_owned() {
            Some(Key::Down)
        } else if c == "PageUp".to_owned() {
            Some(Key::PageUp)
        } else if c == "PageDown".to_owned() {
            Some(Key::PageDown)
        } else if c == "F1".to_owned() {
            Some(Key::F1)
        } else if c == "F2".to_owned() {
            Some(Key::F2)
        } else if c == "F3".to_owned() {
            Some(Key::F3)
        } else if c == "F4".to_owned() {
            Some(Key::F4)
        } else if c == "F5".to_owned() {
            Some(Key::F5)
        } else if c == "F6".to_owned() {
            Some(Key::F6)
        } else if c == "F7".to_owned() {
            Some(Key::F7)
        } else if c == "F8".to_owned() {
            Some(Key::F8)
        } else if c == "F9".to_owned() {
            Some(Key::F9)
        } else if c == "F10".to_owned() {
            Some(Key::F10)
        } else if c == "F11".to_owned() {
            Some(Key::F11)
        } else if c == "F12".to_owned() {
            Some(Key::F12)
        } else {
            None
        }
    }
}


impl MouseButton {
    /// The button that a DOM `MouseEvent.button` number stands for.
    pub open spec fn dom_button_spec(button: i16) -> Option<MouseButton> {
        if button == 0 {
            Some(MouseButton::Left)
        } else if button == 1 {
            Some(MouseButton::Middle)
        } else if button == 2 {
            Some(MouseButton::Right)
        } else {
            None
        }
    }

    /// The button that a DOM `MouseEvent.button` number stands for.
    pub fn from_dom_button(button: i16) -> (r: Option<MouseButton>)
        ensures
            r == Self::dom_button_spec(button),
    {
        match button {
            0 => Some(MouseButton::Left),
            1 => Some(MouseButton::Middle),
            2 => Some(MouseButton::Right),
            _ => None,
        }
    }
}

/// A key press or release.
#[derive(Debug, Clone, Copy, PartialEq, Eq, Structural)]
pub enum KeyEvent {
    KeyDown(Key),
    KeyUp(Key),
}

/// The key event of a DOM keyboard event: none for auto-repeats, for keys
/// not listed above, and for types other than `keydown` and `keyup`.
pub fn keyboard_event(repeat: bool, code: &str, event_type: &str) -> (r: Option<KeyEvent>)
    ensures
        r == (if repeat {
            None
        } else {
            match key_for_code(code@) {
                None => None,
                Some(key) => if event_type@ == "keydown"@ {
                    Some(KeyEvent::KeyDown(key))
                } else if event_type@ == "keyup"@ {
                    Some(KeyEvent::KeyUp(key))
                } else {
                    None
                },
            }
        }),
{
    if repeat {
        return None;
    }
    let key = match Key::from_code(code) {
        Some(key) => key,
        None => return None,
    };
    let t = event_type.to_owned();
    if t == "keydown".to_owned() {
        Some(KeyEvent::KeyDown(key))
    } else if t == "keyup".to_owned() {
        Some(KeyEvent::KeyUp(key))
    } else {
        None
    }
}

/// The kind of mouse cursor.
#[derive(Debug, PartialEq, Eq, Hash, Clone, Copy, Structural)]
pub enum CursorType {
    Default,
    Pointer,
    Drag,
    Hidden,
}

impl CursorType {
    /// The CSS `cursor` value that shows this cursor in a browser.
    pub fn css_name(self) -> (r: &'static str)
        ensures
            r@ == match self {
                CursorType::Default => "initial"@,
                CursorType::Pointer => "pointer"@,
                CursorType::Drag => "all-scroll"@,
                CursorType::Hidden => "none"@,
            },
    {
        match self {
            CursorType::Default => "initial",
            CursorType::Pointer => "pointer",
            CursorType::Drag => "all-scroll",
            CursorType::Hidden => "none",
        }
    }

    /// Whether the cursor is shown at all.
    pub fn is_visible(self) -> (r: bool)
        ensures
            r == (self != CursorType::Hidden),
    {
        self != CursorType::Hidden
    }

    /// The icon a desktop window shows for this cursor (a hidden cursor
    /// keeps the default icon and is made invisible, see `is_visible`).
    pub fn native_icon(self) -> (r: NativeCursorIcon)
        ensures
            r == match self {
                CursorType::Default => NativeCursorIcon::Default,
                CursorType::Pointer => NativeCursorIcon::Hand,
                CursorType::Drag => NativeCursorIcon::AllScroll,
                CursorType::Hidden => NativeCursorIcon::Default,
            },
    {
        match self {
            CursorType::Default => NativeCursorIcon::Default,
            CursorType::Pointer => NativeCursorIcon::Hand,
            CursorType::Drag => NativeCursorIcon::AllScroll,
            CursorType::Hidden => NativeCursorIcon::Default,
        }
    }
}

/// The cursor icons of a desktop window that the engine uses.
#[derive(Debug, PartialEq, Eq, Hash, Clone, Copy, Structural)]
pub enum NativeCursorIcon {
    Default,
    Hand,
    AllScroll,
}

/// The size of a window as drawing code sees it: each side at least one
/// pixel, even when the window is minimized.
pub fn window_size(real_width: usize, real_height: usize) -> (r: (usize, usize))
    ensures
        r.0 == (if real_width >= 1 {
            real_width
        } else {
            1
        }),
        r.1 == (if real_height >= 1 {
            real_height
        } else {
            1
        }),
{
    let w = if real_width >= 1 {
        real_width
    } else {
        1
    };
    let h = if real_height >= 1 {
        real_height
    } else {
        1
    };
    (w, h)
}

/// The events that change what is held down.
#[derive(Debug, Clone, Copy, PartialEq, Eq, Structural)]
pub enum InputEvent {
    KeyDown(Key),
    KeyUp(Key),
    MouseDown(MouseButton),
    MouseUp(MouseButton),
    Other,
}

/// Values compared for equality when tracking what is held down.
pub trait Pressable: Copy {
    fn same(&self, other: &Self) -> (r: bool)
        ensures
            r == (*self == *other),
    ;
}

impl Pressable for Key {
    fn same(&self, other: &Self) -> (r: bool) {
        *self == *other
    }
}

impl Pressable for MouseButton {
    fn same(&self, other: &Self) -> (r: bool) {
        *self == *other
    }
}

/// The keys and mouse buttons held down, and whether the cursor is locked.
pub struct InputState {
    pressed_keys: Vec<Key>,
    pressed_buttons: Vec<MouseButton>,
    cursor_locked: bool,
}

fn insert_unique<T: Pressable>(v: &mut Vec<T>, x: T)
    requires
        old(v)@.no_duplicates(),
    ensures
        final(v)@.no_duplicates(),
        final(v)@.to_set() == old(v)@.to_set().insert(x),
{
    let mut i: usize = 0;
    while i < v.len()
        invariant
            i <= v@.len(),
            v@ == old(v)@,
            v@.no_duplicates(),
            forall|t: int| 0 <= t < i ==> v@[t] != x,
        decreases v@.len() - i,
    {
        if v[i].same(&x) {
            proof {
                assert(v@.to_set() =~= v@.to_set().insert(x));
            }
            return;
        }
        i = i + 1;
    }
    let ghost before = v@;
    v.push(x);
    proof {
        assert(v@.to_set() =~= before.to_set().insert(x)) by {
            assert forall|y: T| v@.to_set().contains(y) <==> before.to_set().insert(x).contains(y) by {
                if y != x && v@.contains(y) {
                    let k = choose|k: int| 0 <= k < v@.len() && v@[k] == y;
                    assert(before[k] == y);
                }
                if before.contains(y) {
                    let k = choose|k: int| 0 <= k < before.len() && before[k] == y;
                    assert(v@[k] == y);
                }
                if y == x {
                    assert(v@[before.len() as int] == x);
                }
            }
        }
    }
}

fn remove_all<T: Pressable>(v: &mut Vec<T>, x: T)
    requires
        old(v)@.no_duplicates(),
    ensures
        final(v)@.no_duplicates(),
        final(v)@.to_set() == old(v)@.to_set().remove(x),
{
    let mut i: usize = 0;
    while i < v.len()
        invariant
            i <= v@.len(),
            forall|t: int| 0 <= t < i ==> v@[t] != x,
            v@ == old(v)@,
            v@.no_duplicates(),
        decreases v@.len() - i,
    {
        if v[i].same(&x) {
            let ghost before = v@;
            let _ = v.remove(i);
            proof {
                assert(v@ == before.remove(i as int));
                assert forall|a: int, b: int| 0 <= a < b < v@.len() implies v@[a] != v@[b] by {
                    let a2 = if a < i { a } else { a + 1 };
                    let b2 = if b < i { b } else { b + 1 };
                    assert(v@[a] == before[a2]);
                    assert(v@[b] == before[b2]);
                    assert(a2 != b2);
                    assert(before[a2] != before[b2]);
                }
                assert(v@.to_set() =~= before.to_set().remove(x)) by {
                    assert forall|y: T| v@.to_set().contains(y) <==> before.to_set().remove(x).contains(y) by {
                        if v@.contains(y) {
                            let k = choose|k: int| 0 <= k < v@.len() && v@[k] == y;
                            let k2 = if k < i { k } else { k + 1 };
                            assert(before[k2] == y);
                            assert(k2 != i);
                            assert(before[i as int] == x);
                            assert(before[k2] != before[i as int]);
                        }
                        if before.contains(y) && y != x {
                            let k = choose|k: int| 0 <= k < before.len() && before[k] == y;
                            assert(k != i);
                            let k2 = if k < i { k } else { k - 1 };
                            assert(v@[k2] == y);
                        }
                    }
                }
            }
            return;
        }
        i = i + 1;
    }
    proof {
        assert(v@.to_set() =~= v@.to_set().remove(x));
    }
}

impl InputState {
    /// What is held down: the set of keys and the set of buttons.
    pub closed spec fn keys(&self) -> Set<Key> {
        self.pressed_keys@.to_set()
    }

    pub closed spec fn buttons(&self) -> Set<MouseButton> {
        self.pressed_buttons@.to_set()
    }

    /// Whether the cursor is locked (kept in the middle of the window).
    pub closed spec fn locked(&self) -> bool {
        self.cursor_locked
    }

    /// Each key and each button is listed once.
    #[verifier::type_invariant]
    spec fn wf(&self) -> bool {
        self.pressed_keys@.no_duplicates() && self.pressed_buttons@.no_duplicates()
    }

    /// Nothing held.
    pub fn new() -> (r: Self)
        ensures
            r.keys() == Set::<Key>::empty(),
            r.buttons() == Set::<MouseButton>::empty(),
            !r.locked(),
    {
        let r = InputState {
            pressed_keys: Vec::new(),
            pressed_buttons: Vec::new(),
            cursor_locked: false,
        };
        proof {
            assert(r.pressed_keys@.to_set() =~= Set::<Key>::empty());
            assert(r.pressed_buttons@.to_set() =~= Set::<MouseButton>::empty());
        }
        r
    }

    /// Records a press or a release; pressing Escape also unlocks the
    /// cursor.
    pub fn handle_event(&mut self, event: InputEvent)
        ensures
            final(self).keys() == match event {
                InputEvent::KeyDown(k) => old(self).keys().insert(k),
                InputEvent::KeyUp(k) => old(self).keys().remove(k),
                _ => old(self).keys(),
            },
            final(self).buttons() == match event {
                InputEvent::MouseDown(b) => old(self).buttons().insert(b),
                InputEvent::MouseUp(b) => old(self).buttons().remove(b),
                _ => old(self).buttons(),
            },
            final(self).locked() == (old(self).locked() && event != InputEvent::KeyDown(Key::Escape)),
    {
        proof {
            use_type_invariant(&*self);
        }
        if event == InputEvent::KeyDown(Key::Escape) {
            self.cursor_locked = false;
        }
        let mut keys: Vec<Key> = Vec::new();
        let mut buttons: Vec<MouseButton> = Vec::new();
        std::mem::swap(&mut keys, &mut self.pressed_keys);
        std::mem::swap(&mut buttons, &mut self.pressed_buttons);
        match event {
            InputEvent::KeyDown(k) => insert_unique(&mut keys, k),
            InputEvent::KeyUp(k) => remove_all(&mut keys, k),
            InputEvent::MouseDown(b) => insert_unique(&mut buttons, b),
            InputEvent::MouseUp(b) => remove_all(&mut buttons, b),
            InputEvent::Other => {},
        }
        self.pressed_keys = keys;
        self.pressed_buttons = buttons;
    }

    /// Records the events of a frame, in order (see `handle_event`).
    pub fn handle_events(&mut self, events: &Vec<InputEvent>)
        ensures
            final(self).keys() == keys_after(old(self).keys(), events@),
            final(self).buttons() == buttons_after(old(self).buttons(), events@),
            final(self).locked() == (old(self).locked() && !events@.contains(
                InputEvent::KeyDown(Key::Escape),
            )),
    {
        let mut i: usize = 0;
        while i < events.len()
            invariant
                i <= events@.len(),
                self.keys() == keys_after(old(self).keys(), events@.take(i as int)),
                self.buttons() == buttons_after(old(self).buttons(), events@.take(i as int)),
                self.locked() == (old(self).locked() && !events@.take(i as int).contains(
                    InputEvent::KeyDown(Key::Escape),
                )),
            decreases events@.len() - i,
        {
            proof {
                assert(events@.take(i + 1).drop_last() =~= events@.take(i as int));
                assert(events@.take(i + 1) =~= events@.take(i as int).push(events@[i as int]));
            }
            self.handle_event(events[i]);
            i = i + 1;
        }
        proof {
            assert(events@.take(i as int) =~= events@);
        }
    }

    /// Locks the cursor in the middle of the window.
    pub fn lock_cursor(&mut self)
        ensures
            final(self).locked(),
            final(self).keys() == old(self).keys(),
            final(self).buttons() == old(self).buttons(),
    {
        proof {
            use_type_invariant(&*self);
        }
        self.cursor_locked = true;
    }

    /// Lets the cursor move freely again.
    pub fn unlock_cursor(&mut self)
        ensures
            !final(self).locked(),
            final(self).keys() == old(self).keys(),
            final(self).buttons() == old(self).buttons(),
    {
        proof {
            use_type_invariant(&*self);
        }
        self.cursor_locked = false;
    }

    /// Whether the cursor is locked.
    pub fn cursor_locked(&self) -> (r: bool)
        ensures
            r == self.locked(),
    {
        self.cursor_locked
    }

    /// Where to put the cursor after a frame's events, in a window of
    /// `size`: in the middle while it is locked and the window has the focus,
    /// nowhere (left alone) otherwise.
    pub fn cursor_recenter(&self, focused: bool, size: (usize, usize)) -> (r: Option<(usize, usize)>)
        ensures
            r == (if self.locked() && focused {
                Some((size.0 / 2, size.1 / 2))
            } else {
                None
            }),
    {
        if self.cursor_locked && focused {
            Some(locked_cursor_position(size))
        } else {
            None
        }
    }

    /// Whether `key` is held down.
    pub fn is_key_pressed(&self, key: Key) -> (r: bool)
        ensures
            r == self.keys().contains(key),
    {
        let mut i: usize = 0;
        while i < self.pressed_keys.len()
            invariant
                i <= self.pressed_keys@.len(),
                forall|t: int| 0 <= t < i ==> self.pressed_keys@[t] != key,
            decreases self.pressed_keys@.len() - i,
        {
            if self.pressed_keys[i].same(&key) {
                proof {
                    assert(self.pressed_keys@.contains(key));
                }
                return true;
            }
            i = i + 1;
        }
        false
    }

    /// The mouse buttons held down.
    pub fn pressed_buttons(&self) -> (r: Vec<MouseButton>)
        ensures
            r@.to_set() == self.buttons(),
            r@.no_duplicates(),
    {
        proof {
            use_type_invariant(self);
        }
        let mut r: Vec<MouseButton> = Vec::new();
        let mut i: usize = 0;
        while i < self.pressed_buttons.len()
            invariant
                i <= self.pressed_buttons@.len(),
                r@ == self.pressed_buttons@.take(i as int),
            decreases self.pressed_buttons@.len() - i,
        {
            r.push(self.pressed_buttons[i]);
            i = i + 1;
            assert(r@ =~= self.pressed_buttons@.take(i as int));
        }
        assert(r@ =~= self.pressed_buttons@);
        r
    }

    /// Whether `button` is held down.
    pub fn is_button_pressed(&self, button: MouseButton) -> (r: bool)
        ensures
            r == self.buttons().contains(button),
    {
        let mut i: usize = 0;
        while i < self.pressed_buttons.len()
            invariant
                i <= self.pressed_buttons@.len(),
                forall|t: int| 0 <= t < i ==> self.pressed_buttons@[t] != button,
            decreases self.pressed_buttons@.len() - i,
        {
            if self.pressed_buttons[i].same(&button) {
                proof {
                    assert(self.pressed_buttons@.contains(button));
                }
                return true;
            }
            i = i + 1;
        }
        false
    }

    /// The keys held down.
    pub fn pressed_keys(&self) -> (r: Vec<Key>)
        ensures
            r@.to_set() == self.keys(),
            r@.no_duplicates(),
    {
        proof {
            use_type_invariant(self);
        }
        let mut r: Vec<Key> = Vec::new();
        let mut i: usize = 0;
        while i < self.pressed_keys.len()
            invariant
                i <= self.pressed_keys@.len(),
                r@ == self.pressed_keys@.take(i as int),
            decreases self.pressed_keys@.len() - i,
        {
            r.push(self.pressed_keys[i]);
            i = i + 1;
            assert(r@ =~= self.pressed_keys@.take(i as int));
        }
        assert(r@ =~= self.pressed_keys@);
        r
    }
}

/// The kind of a DOM mouse event.
#[derive(Debug, Clone, Copy, PartialEq, Eq, Structural)]
pub enum MouseEventKind {
    Down(MouseButton),
    Up(MouseButton),
    Move,
}

/// The kind of a DOM mouse event of type `event_type`: presses and releases
/// of the three known buttons, and moves; nothing for other types.
pub fn mouse_event_kind(event_type: &str, button: i16) -> (r: Option<MouseEventKind>)
    ensures
        r == (if event_type@ == "mousedown"@ {
            match MouseButton::dom_button_spec(button) {
                Some(b) => Some(MouseEventKind::Down(b)),
                None => None,
            }
        } else if event_type@ == "mouseup"@ {
            match MouseButton::dom_button_spec(button) {
                Some(b) => Some(MouseEventKind::Up(b)),
                None => None,
            }
        } else if event_type@ == "mousemove"@ {
            Some(MouseEventKind::Move)
        } else {
            None
        }),
{
    let button = MouseButton::from_dom_button(button);
    let t = event_type.to_owned();
    if t == "mousedown".to_owned() {
        match button {
            Some(b) => Some(MouseEventKind::Down(b)),
            None => None,
        }
    } else if t == "mouseup".to_owned() {
        match button {
            Some(b) => Some(MouseEventKind::Up(b)),
            None => None,
        }
    } else if t == "mousemove".to_owned() {
        Some(MouseEventKind::Move)
    } else {
        None
    }
}

/// The kind of a DOM touch event.
#[derive(Debug, Clone, Copy, PartialEq, Eq, Structural)]
pub enum TouchEventKind {
    Start,
    Move,
    End,
}

/// The kind of a DOM touch event of type `event_type`; cancelling a touch
/// counts as ending it.
pub fn touch_event_kind(event_type: &str) -> (r: Option<TouchEventKind>)
    ensures
        r == (if event_type@ == "touchstart"@ {
            Some(TouchEventKind::Start)
        } else if event_type@ == "touchmove"@ {
            Some(TouchEventKind::Move)
        } else if event_type@ == "touchcancel"@ || event_type@ == "touchend"@ {
            Some(TouchEventKind::End)
        } else {
            None
        }),
{
    let t = event_type.to_owned();
    if t == "touchstart".to_owned() {
        Some(TouchEventKind::Start)
    } else if t == "touchmove".to_owned() {
        Some(TouchEventKind::Move)
    } else if t == "touchcancel".to_owned() || t == "touchend".to_owned() {
        Some(TouchEventKind::End)
    } else {
        None
    }
}

/// How many pixels one unit of wheel delta is, by the DOM `deltaMode`
/// (pixels, lines, pages); nothing for an unknown mode.
pub fn wheel_delta_scale(delta_mode: u32) -> (r: Option<u32>)
    ensures
        r == (if delta_mode == 0 {
            Some(1u32)
        } else if delta_mode == 1 {
            Some(51u32)
        } else if delta_mode == 2 {
            Some(800u32)
        } else {
            None
        }),
{
    match delta_mode {
        0 => Some(1),
        1 => Some(51),
        2 => Some(800),
        _ => None,
    }
}

/// Where a locked cursor is kept: the middle of the window.
pub fn locked_cursor_position(size: (usize, usize)) -> (r: (usize, usize))
    ensures
        r.0 == size.0 / 2,
        r.1 == size.1 / 2,
{
    (size.0 / 2, size.1 / 2)
}


/// The keys held after `events`, from `keys` held before.
pub open spec fn keys_after(keys: Set<Key>, events: Seq<InputEvent>) -> Set<Key>
    decreases events.len(),
{
    if events.len() == 0 {
        keys
    } else {
        let held = keys_after(keys, events.drop_last());
        match events.last() {
            InputEvent::KeyDown(k) => held.insert(k),
            InputEvent::KeyUp(k) => held.remove(k),
            _ => held,
        }
    }
}

/// The buttons held after `events`, from `buttons` held before.
pub open spec fn buttons_after(buttons: Set<MouseButton>, events: Seq<InputEvent>) -> Set<MouseButton>
    decreases events.len(),
{
    if events.len() == 0 {
        buttons
    } else {
        let held = buttons_after(buttons, events.drop_last());
        match events.last() {
            InputEvent::MouseDown(b) => held.insert(b),
            InputEvent::MouseUp(b) => held.remove(b),
            _ => held,
        }
    }
}

/// Whether the last press or release of `key` in `events` is a press;
/// `None` where `key` is neither pressed nor released in them.
pub open spec fn last_press_of(events: Seq<InputEvent>, key: Key) -> Option<bool>
    decreases events.len(),
{
    if events.len() == 0 {
        None
    } else if events.last() == InputEvent::KeyDown(key) {
        Some(true)
    } else if events.last() == InputEvent::KeyUp(key) {
        Some(false)
    } else {
        last_press_of(events.drop_last(), key)
    }
}

/// After any sequence of events, a key is held exactly when its last press
/// or release in it was a press, or, where it was neither pressed nor
/// released, when it was held before.
pub proof fn law_held_keys_after_events(keys: Set<Key>, events: Seq<InputEvent>, key: Key)
    ensures
        keys_after(keys, events).contains(key) == match last_press_of(events, key) {
            Some(pressed) => pressed,
            None => keys.contains(key),
        },
    decreases events.len(),
{
    if events.len() > 0 {
        law_held_keys_after_events(keys, events.drop_last(), key);
    }
}


/// The DOM `KeyboardEvent.code` that names each key.
pub open spec fn dom_code(key: Key) -> Seq<char> {
    match key {
        Key::A => "KeyA"@,
        Key::B => "KeyB"@,
        Key::C => "KeyC"@,
        Key::D => "KeyD"@,
        Key::E => "KeyE"@,
        Key::F => "KeyF"@,
        Key::G => "KeyG"@,
        Key::H => "KeyH"@,
        Key::I => "KeyI"@,
        Key::J => "KeyJ"@,
        Key::K => "KeyK"@,
        Key::L => "KeyL"@,
        Key::M => "KeyM"@,
        Key::N => "KeyN"@,
        Key::O => "KeyO"@,
        Key::P => "KeyP"@,
        Key::Q => "KeyQ"@,
        Key::R => "KeyR"@,
        Key::S => "KeyS"@,
        Key::T => "KeyT"@,
        Key::U => "KeyU"@,
        Key::V => "KeyV"@,
        Key::W => "KeyW"@,
        Key::X => "KeyX"@,
        Key::Y => "KeyY"@,
        Key::Z => "KeyZ"@,
        Key::Num0 => "Digit0"@,
        Key::Num1 => "Digit1"@,
        Key::Num2 => "Digit2"@,
        Key::Num3 => "Digit3"@,
        Key::Num4 => "Digit4"@,
        Key::Num5 => "Digit5"@,
        Key::Num6 => "Digit6"@,
        Key::Num7 => "Digit7"@,
        Key::Num8 => "Digit8"@,
        Key::Num9 => "Digit9"@,
        Key::Escape => "Escape"@,
        Key::Space => "Space"@,
        Key::Enter => "Enter"@,
        Key::Backspace => "Backspace"@,
        Key::LShift => "ShiftLeft"@,
        Key::RShift => "ShiftRight"@,
        Key::LCtrl => "ControlLeft"@,
        Key::RCtrl => "ControlRight"@,
        Key::LAlt => "AltLeft"@,
        Key::RAlt => "AltRight"@,
        Key::Left => "ArrowLeft"@,
        Key::Right => "ArrowRight"@,
        Key::Up => "ArrowUp"@,
        Key::Down => "ArrowDown"@,
        Key::PageUp => "PageUp"@,
        Key::PageDown => "PageDown"@,
        Key::F1 => "F1"@,
        Key::F2 => "F2"@,
        Key::F3 => "F3"@,
        Key::F4 => "F4"@,
        Key::F5 => "F5"@,
        Key::F6 => "F6"@,
        Key::F7 => "F7"@,
        Key::F8 => "F8"@,
        Key::F9 => "F9"@,
        Key::F10 => "F10"@,
        Key::F11 => "F11"@,
        Key::F12 => "F12"@,
    }
}

/// Each key's DOM code gives that key, and a code gives a key only when it
/// is that key's DOM code: `Key::from_code` is the inverse of the DOM names.
#[verifier::rlimit(100)]
pub proof fn law_dom_codes_name_their_keys(key: Key, code: Seq<char>)
    ensures
        key_for_code(dom_code(key)) == Some(key),
        key_for_code(code) == Some(key) ==> code == dom_code(key),
{
    reveal_strlit("KeyA");
    reveal_strlit("KeyB");
    reveal_strlit("KeyC");
    reveal_strlit("KeyD");
    reveal_strlit("KeyE");
    reveal_strlit("KeyF");
    reveal_strlit("KeyG");
    reveal_strlit("KeyH");
    reveal_strlit("KeyI");
    reveal_strlit("KeyJ");
    reveal_strlit("KeyK");
    reveal_strlit("KeyL");
    reveal_strlit("KeyM");
    reveal_strlit("KeyN");
    reveal_strlit("KeyO");
    reveal_strlit("KeyP");
    reveal_strlit("KeyQ");
    reveal_strlit("KeyR");
    reveal_strlit("KeyS");
    reveal_strlit("KeyT");
    reveal_strlit("KeyU");
    reveal_strlit("KeyV");
    reveal_strlit("KeyW");
    reveal_strlit("KeyX");
    reveal_strlit("KeyY");
    reveal_strlit("KeyZ");
    reveal_strlit("Digit0");
    reveal_strlit("Digit1");
    reveal_strlit("Digit2");
    reveal_strlit("Digit3");
    reveal_strlit("Digit4");
    reveal_strlit("Digit5");
    reveal_strlit("Digit6");
    reveal_strlit("Digit7");
    reveal_strlit("Digit8");
    reveal_strlit("Digit9");
    reveal_strlit("Escape");
    reveal_strlit("Space");
    reveal_strlit("Enter");
    reveal_strlit("Backspace");
    reveal_strlit("ShiftLeft");
    reveal_strlit("ShiftRight");
    reveal_strlit("ControlLeft");
    reveal_strlit("ControlRight");
    reveal_strlit("AltLeft");
    reveal_strlit("AltRight");
    reveal_strlit("ArrowLeft");
    reveal_strlit("ArrowRight");
    reveal_strlit("ArrowUp");
    reveal_strlit("ArrowDown");
    reveal_strlit("PageUp");
    reveal_strlit("PageDown");
    reveal_strlit("F1");
    reveal_strlit("F2");
    reveal_strlit("F3");
    reveal_strlit("F4");
    reveal_strlit("F5");
    reveal_strlit("F6");
    reveal_strlit("F7");
    reveal_strlit("F8");
    reveal_strlit("F9");
    reveal_strlit("F10");
    reveal_strlit("F11");
    reveal_strlit("F12");
    assert("KeyA"@.len() == 4 && "KeyA"@[0] == 'K' && "KeyA"@[1] == 'e' && "KeyA"@[2] == 'y' && "KeyA"@[3] == 'A');
    assert("KeyB"@.len() == 4 && "KeyB"@[0] == 'K' && "KeyB"@[1] == 'e' && "KeyB"@[2] == 'y' && "KeyB"@[3] == 'B');
    assert("KeyC"@.len() == 4 && "KeyC"@[0] == 'K' && "KeyC"@[1] == 'e' && "KeyC"@[2] == 'y' && "KeyC"@[3] == 'C');
    assert("KeyD"@.len() == 4 && "KeyD"@[0] == 'K' && "KeyD"@[1] == 'e' && "KeyD"@[2] == 'y' && "KeyD"@[3] == 'D');
    assert("KeyE"@.len() == 4 && "KeyE"@[0] == 'K' && "KeyE"@[1] == 'e' && "KeyE"@[2] == 'y' && "KeyE"@[3] == 'E');
    assert("KeyF"@.len() == 4 && "KeyF"@[0] == 'K' && "KeyF"@[1] == 'e' && "KeyF"@[2] == 'y' && "KeyF"@[3] == 'F');
    assert("KeyG"@.len() == 4 && "KeyG"@[0] == 'K' && "KeyG"@[1] == 'e' && "KeyG"@[2] == 'y' && "KeyG"@[3] == 'G');
    assert("KeyH"@.len() == 4 && "KeyH"@[0] == 'K' && "KeyH"@[1] == 'e' && "KeyH"@[2] == 'y' && "KeyH"@[3] == 'H');
    assert("KeyI"@.len() == 4 && "KeyI"@[0] == 'K' && "KeyI"@[1] == 'e' && "KeyI"@[2] == 'y' && "KeyI"@[3] == 'I');
    assert("KeyJ"@.len() == 4 && "KeyJ"@[0] == 'K' && "KeyJ"@[1] == 'e' && "KeyJ"@[2] == 'y' && "KeyJ"@[3] == 'J');
    assert("KeyK"@.len() == 4 && "KeyK"@[0] == 'K' && "KeyK"@[1] == 'e' && "KeyK"@[2] == 'y' && "KeyK"@[3] == 'K');
    assert("KeyL"@.len() == 4 && "KeyL"@[0] == 'K' && "KeyL"@[1] == 'e' && "KeyL"@[2] == 'y' && "KeyL"@[3] == 'L');
    assert("KeyM"@.len() == 4 && "KeyM"@[0] == 'K' && "KeyM"@[1] == 'e' && "KeyM"@[2] == 'y' && "KeyM"@[3] == 'M');
    assert("KeyN"@.len() == 4 && "KeyN"@[0] == 'K' && "KeyN"@[1] == 'e' && "KeyN"@[2] == 'y' && "KeyN"@[3] == 'N');
    assert("KeyO"@.len() == 4 && "KeyO"@[0] == 'K' && "KeyO"@[1] == 'e' && "KeyO"@[2] == 'y' && "KeyO"@[3] == 'O');
    assert("KeyP"@.len() == 4 && "KeyP"@[0] == 'K' && "KeyP"@[1] == 'e' && "KeyP"@[2] == 'y' && "KeyP"@[3] == 'P');
    assert("KeyQ"@.len() == 4 && "KeyQ"@[0] == 'K' && "KeyQ"@[1] == 'e' && "KeyQ"@[2] == 'y' && "KeyQ"@[3] == 'Q');
    assert("KeyR"@.len() == 4 && "KeyR"@[0] == 'K' && "KeyR"@[1] == 'e' && "KeyR"@[2] == 'y' && "KeyR"@[3] == 'R');
    assert("KeyS"@.len() == 4 && "KeyS"@[0] == 'K' && "KeyS"@[1] == 'e' && "KeyS"@[2] == 'y' && "KeyS"@[3] == 'S');
    assert("KeyT"@.len() == 4 && "KeyT"@[0] == 'K' && "KeyT"@[1] == 'e' && "KeyT"@[2] == 'y' && "KeyT"@[3] == 'T');
    assert("KeyU"@.len() == 4 && "KeyU"@[0] == 'K' && "KeyU"@[1] == 'e' && "KeyU"@[2] == 'y' && "KeyU"@[3] == 'U');
    assert("KeyV"@.len() == 4 && "KeyV"@[0] == 'K' && "KeyV"@[1] == 'e' && "KeyV"@[2] == 'y' && "KeyV"@[3] == 'V');
    assert("KeyW"@.len() == 4 && "KeyW"@[0] == 'K' && "KeyW"@[1] == 'e' && "KeyW"@[2] == 'y' && "KeyW"@[3] == 'W');
    assert("KeyX"@.len() == 4 && "KeyX"@[0] == 'K' && "KeyX"@[1] == 'e' && "KeyX"@[2] == 'y' && "KeyX"@[3] == 'X');
    assert("KeyY"@.len() == 4 && "KeyY"@[0] == 'K' && "KeyY"@[1] == 'e' && "KeyY"@[2] == 'y' && "KeyY"@[3] == 'Y');
    assert("KeyZ"@.len() == 4 && "KeyZ"@[0] == 'K' && "KeyZ"@[1] == 'e' && "KeyZ"@[2] == 'y' && "KeyZ"@[3] == 'Z');
    assert("Digit0"@.len() == 6 && "Digit0"@[0] == 'D' && "Digit0"@[1] == 'i' && "Digit0"@[2] == 'g' && "Digit0"@[3] == 'i' && "Digit0"@[4] == 't' && "Digit0"@[5] == '0');
    assert("Digit1"@.len() == 6 && "Digit1"@[0] == 'D' && "Digit1"@[1] == 'i' && "Digit1"@[2] == 'g' && "Digit1"@[3] == 'i' && "Digit1"@[4] == 't' && "Digit1"@[5] == '1');
    assert("Digit2"@.len() == 6 && "Digit2"@[0] == 'D' && "Digit2"@[1] == 'i' && "Digit2"@[2] == 'g' && "Digit2"@[3] == 'i' && "Digit2"@[4] == 't' && "Digit2"@[5] == '2');
    assert("Digit3"@.len() == 6 && "Digit3"@[0] == 'D' && "Digit3"@[1] == 'i' && "Digit3"@[2] == 'g' && "Digit3"@[3] == 'i' && "Digit3"@[4] == 't' && "Digit3"@[5] == '3');
    assert("Digit4"@.len() == 6 && "Digit4"@[0] == 'D' && "Digit4"@[1] == 'i' && "Digit4"@[2] == 'g' && "Digit4"@[3] == 'i' && "Digit4"@[4] == 't' && "Digit4"@[5] == '4');
    assert("Digit5"@.len() == 6 && "Digit5"@[0] == 'D' && "Digit5"@[1] == 'i' && "Digit5"@[2] == 'g' && "Digit5"@[3] == 'i' && "Digit5"@[4] == 't' && "Digit5"@[5] == '5');
    assert("Digit6"@.len() == 6 && "Digit6"@[0] == 'D' && "Digit6"@[1] == 'i' && "Digit6"@[2] == 'g' && "Digit6"@[3] == 'i' && "Digit6"@[4] == 't' && "Digit6"@[5] == '6');
    assert("Digit7"@.len() == 6 && "Digit7"@[0] == 'D' && "Digit7"@[1] == 'i' && "Digit7"@[2] == 'g' && "Digit7"@[3] == 'i' && "Digit7"@[4] == 't' && "Digit7"@[5] == '7');
    assert("Digit8"@.len() == 6 && "Digit8"@[0] == 'D' && "Digit8"@[1] == 'i' && "Digit8"@[2] == 'g' && "Digit8"@[3] == 'i' && "Digit8"@[4] == 't' && "Digit8"@[5] == '8');
    assert("Digit9"@.len() == 6 && "Digit9"@[0] == 'D' && "Digit9"@[1] == 'i' && "Digit9"@[2] == 'g' && "Digit9"@[3] == 'i' && "Digit9"@[4] == 't' && "Digit9"@[5] == '9');
    assert("Escape"@.len() == 6 && "Escape"@[0] == 'E' && "Escape"@[1] == 's' && "Escape"@[2] == 'c' && "Escape"@[3] == 'a' && "Escape"@[4] == 'p' && "Escape"@[5] == 'e');
    assert("Space"@.len() == 5 && "Space"@[0] == 'S' && "Space"@[1] == 'p' && "Space"@[2] == 'a' && "Space"@[3] == 'c' && "Space"@[4] == 'e');
    assert("Enter"@.len() == 5 && "Enter"@[0] == 'E' && "Enter"@[1] == 'n' && "Enter"@[2] == 't' && "Enter"@[3] == 'e' && "Enter"@[4] == 'r');
    assert("Backspace"@.len() == 9 && "Backspace"@[0] == 'B' && "Backspace"@[1] == 'a' && "Backspace"@[2] == 'c' && "Backspace"@[3] == 'k' && "Backspace"@[4] == 's' && "Backspace"@[5] == 'p' && "Backspace"@[6] == 'a' && "Backspace"@[7] == 'c' && "Backspace"@[8] == 'e');
    assert("ShiftLeft"@.len() == 9 && "ShiftLeft"@[0] == 'S' && "ShiftLeft"@[1] == 'h' && "ShiftLeft"@[2] == 'i' && "ShiftLeft"@[3] == 'f' && "ShiftLeft"@[4] == 't' && "ShiftLeft"@[5] == 'L' && "ShiftLeft"@[6] == 'e' && "ShiftLeft"@[7] == 'f' && "ShiftLeft"@[8] == 't');
    assert("ShiftRight"@.len() == 10 && "ShiftRight"@[0] == 'S' && "ShiftRight"@[1] == 'h' && "ShiftRight"@[2] == 'i' && "ShiftRight"@[3] == 'f' && "ShiftRight"@[4] == 't' && "ShiftRight"@[5] == 'R' && "ShiftRight"@[6] == 'i' && "ShiftRight"@[7] == 'g' && "ShiftRight"@[8] == 'h' && "ShiftRight"@[9] == 't');
    assert("ControlLeft"@.len() == 11 && "ControlLeft"@[0] == 'C' && "ControlLeft"@[1] == 'o' && "ControlLeft"@[2] == 'n' && "ControlLeft"@[3] == 't' && "ControlLeft"@[4] == 'r' && "ControlLeft"@[5] == 'o' && "ControlLeft"@[6] == 'l' && "ControlLeft"@[7] == 'L' && "ControlLeft"@[8] == 'e' && "ControlLeft"@[9] == 'f' && "ControlLeft"@[10] == 't');
    assert("ControlRight"@.len() == 12 && "ControlRight"@[0] == 'C' && "ControlRight"@[1] == 'o' && "ControlRight"@[2] == 'n' && "ControlRight"@[3] == 't' && "ControlRight"@[4] == 'r' && "ControlRight"@[5] == 'o' && "ControlRight"@[6] == 'l' && "ControlRight"@[7] == 'R' && "ControlRight"@[8] == 'i' && "ControlRight"@[9] == 'g' && "ControlRight"@[10] == 'h' && "ControlRight"@[11] == 't');
    assert("AltLeft"@.len() == 7 && "AltLeft"@[0] == 'A' && "AltLeft"@[1] == 'l' && "AltLeft"@[2] == 't' && "AltLeft"@[3] == 'L' && "AltLeft"@[4] == 'e' && "AltLeft"@[5] == 'f' && "AltLeft"@[6] == 't');
    assert("AltRight"@.len() == 8 && "AltRight"@[0] == 'A' && "AltRight"@[1] == 'l' && "AltRight"@[2] == 't' && "AltRight"@[3] == 'R' && "AltRight"@[4] == 'i' && "AltRight"@[5] == 'g' && "AltRight"@[6] == 'h' && "AltRight"@[7] == 't');
    assert("ArrowLeft"@.len() == 9 && "ArrowLeft"@[0] == 'A' && "ArrowLeft"@[1] == 'r' && "ArrowLeft"@[2] == 'r' && "ArrowLeft"@[3] == 'o' && "ArrowLeft"@[4] == 'w' && "ArrowLeft"@[5] == 'L' && "ArrowLeft"@[6] == 'e' && "ArrowLeft"@[7] == 'f' && "ArrowLeft"@[8] == 't');
    assert("ArrowRight"@.len() == 10 && "ArrowRight"@[0] == 'A' && "ArrowRight"@[1] == 'r' && "ArrowRight"@[2] == 'r' && "ArrowRight"@[3] == 'o' && "ArrowRight"@[4] == 'w' && "ArrowRight"@[5] == 'R' && "ArrowRight"@[6] == 'i' && "ArrowRight"@[7] == 'g' && "ArrowRight"@[8] == 'h' && "ArrowRight"@[9] == 't');
    assert("ArrowUp"@.len() == 7 && "ArrowUp"@[0] == 'A' && "ArrowUp"@[1] == 'r' && "ArrowUp"@[2] == 'r' && "ArrowUp"@[3] == 'o' && "ArrowUp"@[4] == 'w' && "ArrowUp"@[5] == 'U' && "ArrowUp"@[6] == 'p');
    assert("ArrowDown"@.len() == 9 && "ArrowDown"@[0] == 'A' && "ArrowDown"@[1] == 'r' && "ArrowDown"@[2] == 'r' && "ArrowDown"@[3] == 'o' && "ArrowDown"@[4] == 'w' && "ArrowDown"@[5] == 'D' && "ArrowDown"@[6] == 'o' && "ArrowDown"@[7] == 'w' && "ArrowDown"@[8] == 'n');
    assert("PageUp"@.len() == 6 && "PageUp"@[0] == 'P' && "PageUp"@[1] == 'a' && "PageUp"@[2] == 'g' && "PageUp"@[3] == 'e' && "PageUp"@[4] == 'U' && "PageUp"@[5] == 'p');
    assert("PageDown"@.len() == 8 && "PageDown"@[0] == 'P' && "PageDown"@[1] == 'a' && "PageDown"@[2] == 'g' && "PageDown"@[3] == 'e' && "PageDown"@[4] == 'D' && "PageDown"@[5] == 'o' && "PageDown"@[6] == 'w' && "PageDown"@[7] == 'n');
    assert("F1"@.len() == 2 && "F1"@[0] == 'F' && "F1"@[1] == '1');
    assert("F2"@.len() == 2 && "F2"@[0] == 'F' && "F2"@[1] == '2');
    assert("F3"@.len() == 2 && "F3"@[0] == 'F' && "F3"@[1] == '3');
    assert("F4"@.len() == 2 && "F4"@[0] == 'F' && "F4"@[1] == '4');
    assert("F5"@.len() == 2 && "F5"@[0] == 'F' && "F5"@[1] == '5');
    assert("F6"@.len() == 2 && "F6"@[0] == 'F' && "F6"@[1] == '6');
    assert("F7"@.len() == 2 && "F7"@[0] == 'F' && "F7"@[1] == '7');
    assert("F8"@.len() == 2 && "F8"@[0] == 'F' && "F8"@[1] == '8');
    assert("F9"@.len() == 2 && "F9"@[0] == 'F' && "F9"@[1] == '9');
    assert("F10"@.len() == 3 && "F10"@[0] == 'F' && "F10"@[1] == '1' && "F10"@[2] == '0');
    assert("F11"@.len() == 3 && "F11"@[0] == 'F' && "F11"@[1] == '1' && "F11"@[2] == '1');
    assert("F12"@.len() == 3 && "F12"@[0] == 'F' && "F12"@[1] == '1' && "F12"@[2] == '2');
}

/// A key is held down exactly when it was pressed and not released since:
/// pressing makes it held, releasing makes it not held, and other keys are
/// untouched by either.
pub proof fn law_press_release(keys: Set<Key>, k: Key, other: Key)
    requires
        other != k,
    ensures
        keys.insert(k).contains(k),
        !keys.remove(k).contains(k),
        keys.insert(k).contains(other) == keys.contains(other),
        keys.remove(k).contains(other) == keys.contains(other),
        keys.insert(k).remove(k) == keys.remove(k),
{
    assert(keys.insert(k).remove(k) =~= keys.remove(k));
}

} // verus!
