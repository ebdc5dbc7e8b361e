//! Keyboard of the desktop host: which key is which button, and the input state that the held
//! keys make.

use crate::io::InputState;
use crate::text::str_eq;
use vstd::prelude::*;

verus! {

/// Keys that mean something.
#[derive(Debug, Clone, Copy, PartialEq, Eq, Structural)]
pub enum Key {
    W,
    S,
    A,
    D,
    Up,
    Down,
    Left,
    Right,
    Num1,
    Num3,
    Num5,
    I,
    O,
    P,
    J,
    K,
    L,
    Other,
}

/// Buttons.
pub const BUTTONS: usize = 13;

/// Buttons that are held, by their number.
pub struct Keys {
    held: Vec<bool>,
}

impl View for Keys {
    type V = Seq<bool>;

    closed spec fn view(&self) -> Seq<bool> {
        self.held@
    }
}

/// Nothing is held.
pub open spec fn no_keys() -> Seq<bool> {
    Seq::new(BUTTONS as nat, |i: int| false)
}

impl Default for Keys {
    fn default() -> (r: Self)
        ensures
            r@ == no_keys(),
    {
        let held: Vec<bool> = vec![false; BUTTONS];
        assert(held@ =~= no_keys());
        Keys { held }
    }
}

/// Whether a game has six face buttons.
pub fn is_six_button(game: &str) -> (r: bool)
    ensures
        r == (game@ != "kof98"@),
{
    !str_eq(game, "kof98")
}

/// A button.
#[derive(Debug, Clone, Copy, PartialEq, Eq, Structural)]
pub enum Button {
    Up,
    Down,
    Left,
    Right,
    A,
    B,
    C,
    D,
    E,
    F,
    Start,
    Select,
    Coin,
}

/// The button of a key.  W, A, S, D and the arrows are the stick; 1, 3 and 5 are start, select
/// and coin.  With six buttons I, O, P are punches and J, K, L kicks; with four, I, J, O, K are
/// A, B, C, D.
pub open spec fn button_of(six_button: bool, key: Key) -> Option<Button> {
    match key {
        Key::W | Key::Up => Some(Button::Up),
        Key::S | Key::Down => Some(Button::Down),
        Key::A | Key::Left => Some(Button::Left),
        Key::D | Key::Right => Some(Button::Right),
        Key::Num1 => Some(Button::Start),
        Key::Num3 => Some(Button::Select),
        Key::Num5 => Some(Button::Coin),
        Key::I => Some(Button::A),
        Key::O => Some(if six_button { Button::B } else { Button::C }),
        Key::P => if six_button { Some(Button::C) } else { None },
        Key::J => Some(if six_button { Button::D } else { Button::B }),
        Key::K => Some(if six_button { Button::E } else { Button::D }),
        Key::L => if six_button { Some(Button::F) } else { None },
        Key::Other => None,
    }
}

impl Button {
    /// The number of a button.
    pub open spec fn number(self) -> int {
        match self {
            Button::Up => 0,
            Button::Down => 1,
            Button::Left => 2,
            Button::Right => 3,
            Button::A => 4,
            Button::B => 5,
            Button::C => 6,
            Button::D => 7,
            Button::E => 8,
            Button::F => 9,
            Button::Start => 10,
            Button::Select => 11,
            Button::Coin => 12,
        }
    }

    fn index(self) -> (r: usize)
        ensures
            r == self.number(),
            r < BUTTONS,
    {
        match self {
            Button::Up => 0,
            Button::Down => 1,
            Button::Left => 2,
            Button::Right => 3,
            Button::A => 4,
            Button::B => 5,
            Button::C => 6,
            Button::D => 7,
            Button::E => 8,
            Button::F => 9,
            Button::Start => 10,
            Button::Select => 11,
            Button::Coin => 12,
        }
    }
}

/// The buttons after a key went down or up.
pub open spec fn with_key(keys: Seq<bool>, six_button: bool, key: Key, down: bool) -> Seq<bool> {
    match button_of(six_button, key) {
        Some(b) => keys.update(b.number(), down),
        None => keys,
    }
}

fn find_button(six_button: bool, key: Key) -> (r: Option<Button>)
    ensures
        r == button_of(six_button, key),
{
    match key {
        Key::W | Key::Up => Some(Button::Up),
        Key::S | Key::Down => Some(Button::Down),
        Key::A | Key::Left => Some(Button::Left),
        Key::D | Key::Right => Some(Button::Right),
        Key::Num1 => Some(Button::Start),
        Key::Num3 => Some(Button::Select),
        Key::Num5 => Some(Button::Coin),
        Key::I => Some(Button::A),
        Key::O => Some(if six_button { Button::B } else { Button::C }),
        Key::P => if six_button { Some(Button::C) } else { None },
        Key::J => Some(if six_button { Button::D } else { Button::B }),
        Key::K => Some(if six_button { Button::E } else { Button::D }),
        Key::L => if six_button { Some(Button::F) } else { None },
        Key::Other => None,
    }
}

/// Weight of a line that is high while its button is not held.
pub open spec fn line(keys: Seq<bool>, b: Button, weight: int) -> int {
    if keys[b.number()] { 0 } else { weight }
}

/// The stick, as the low half of a player's byte.
pub open spec fn stick_of(keys: Seq<bool>) -> int {
    line(keys, Button::Up, 1) + line(keys, Button::Down, 2) + line(keys, Button::Left, 4) + line(
        keys,
        Button::Right,
        8,
    )
}

/// The first four buttons, as the high half of a player's byte.
pub open spec fn face_of(keys: Seq<bool>) -> int {
    line(keys, Button::A, 16) + line(keys, Button::B, 32) + line(keys, Button::C, 64) + line(
        keys,
        Button::D,
        128,
    )
}

/// The input state of held buttons: all of them are player 1's, and a cleared bit is a held
/// button.
pub open spec fn input_of(keys: Seq<bool>) -> InputState {
    InputState {
        p1: (stick_of(keys) + face_of(keys)) as u8,
        p2: 0xFF,
        sys: (0xFC + line(keys, Button::Start, 1) + line(keys, Button::Select, 2)) as u8,
        coin: (0x3E + line(keys, Button::Coin, 1)) as u8,
        ext: (0x0C + line(keys, Button::E, 1) + line(keys, Button::F, 2)) as u8,
    }
}

impl Keys {
    /// Every button has its place.
    pub open spec fn wf(&self) -> bool {
        self@.len() == BUTTONS
    }

    /// A key goes down or up.
    pub fn set_key(&mut self, six_button: bool, key: Key, down: bool)
        requires
            old(self).wf(),
        ensures
            final(self)@ == with_key(old(self)@, six_button, key, down),
            final(self).wf(),
    {
        match find_button(six_button, key) {
            Some(b) => {
                self.held.set(b.index(), down);
            },
            None => {},
        }
    }

    fn level(&self, b: Button, weight: u8) -> (r: u8)
        requires
            self.wf(),
        ensures
            r == line(self@, b, weight as int),
            r <= weight,
    {
        if self.held[b.index()] { 0 } else { weight }
    }

    fn stick(&self) -> (r: u8)
        requires
            self.wf(),
        ensures
            r == stick_of(self@),
            r <= 15,
    {
        self.level(Button::Up, 1) + self.level(Button::Down, 2) + self.level(Button::Left, 4) + self.level(
            Button::Right,
            8,
        )
    }

    fn face(&self) -> (r: u8)
        requires
            self.wf(),
        ensures
            r == face_of(self@),
            r <= 240,
    {
        self.level(Button::A, 16) + self.level(Button::B, 32) + self.level(Button::C, 64) + self.level(
            Button::D,
            128,
        )
    }

    /// The input state of the held buttons.
    pub fn input_state(&self) -> (r: InputState)
        requires
            self.wf(),
        ensures
            r == input_of(self@),
    {
        InputState {
            p1: self.stick() + self.face(),
            p2: 0xFF,
            sys: 0xFC + self.level(Button::Start, 1) + self.level(Button::Select, 2),
            coin: 0x3E + self.level(Button::Coin, 1),
            ext: 0x0C + self.level(Button::E, 1) + self.level(Button::F, 2),
        }
    }
}

/// Without held keys the input is idle.
pub proof fn no_keys_is_idle()
    ensures
        input_of(no_keys()) == InputState::idle(),
{
}

/// A key that goes down and up again leaves the buttons as if it had been up all along.
pub proof fn release_undoes_press(keys: Seq<bool>, six_button: bool, key: Key)
    requires
        keys.len() == BUTTONS,
    ensures
        with_key(with_key(keys, six_button, key, true), six_button, key, false) == with_key(
            keys,
            six_button,
            key,
            false,
        ),
{
    match button_of(six_button, key) {
        Some(b) => {
            let n = b.number();
            assert(keys.update(n, true).update(n, false) =~= keys.update(n, false));
        },
        None => {},
    }
}

/// Where a button shows: in which byte of the input and with what weight.
pub enum Place {
    Player(int),
    Switch(int),
    Coin(int),
    Extra(int),
    Nowhere,
}

/// The place of a key: W, S, A, D and the arrows are the stick's four bits, 1 and 3 the first two
/// switches, 5 the first coin; the letters I, O, P, J, K, L are the buttons of a game of six, and
/// I, J, O, K those of a game of four.
pub open spec fn place_of(six_button: bool, key: Key) -> Place {
    match key {
        Key::W => Place::Player(1),
        Key::Up => Place::Player(1),
        Key::S => Place::Player(2),
        Key::Down => Place::Player(2),
        Key::A => Place::Player(4),
        Key::Left => Place::Player(4),
        Key::D => Place::Player(8),
        Key::Right => Place::Player(8),
        Key::Num1 => Place::Switch(1),
        Key::Num3 => Place::Switch(2),
        Key::Num5 => Place::Coin(1),
        Key::I => Place::Player(16),
        Key::O => if six_button { Place::Player(32) } else { Place::Player(64) },
        Key::P => if six_button { Place::Player(64) } else { Place::Nowhere },
        Key::J => if six_button { Place::Player(128) } else { Place::Player(32) },
        Key::K => if six_button { Place::Extra(1) } else { Place::Player(128) },
        Key::L => if six_button { Place::Extra(2) } else { Place::Nowhere },
        Key::Other => Place::Nowhere,
    }
}

/// A key that goes down takes its weight from its byte and changes nothing else of the input.
pub proof fn key_clears_its_bit(keys: Seq<bool>, six_button: bool, key: Key)
    requires
        keys.len() == BUTTONS,
    ensures
        ({
            let up = input_of(with_key(keys, six_button, key, false));
            let down = input_of(with_key(keys, six_button, key, true));
            match place_of(six_button, key) {
                Place::Player(w) => down.p1 + w == up.p1 && down == (InputState { p1: down.p1, ..up }),
                Place::Switch(w) => down.sys + w == up.sys && down == (InputState { sys: down.sys, ..up }),
                Place::Coin(w) => down.coin + w == up.coin && down == (InputState { coin: down.coin, ..up }),
                Place::Extra(w) => down.ext + w == up.ext && down == (InputState { ext: down.ext, ..up }),
                Place::Nowhere => down == up,
            }
        }),
{
}

} // verus!
