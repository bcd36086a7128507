//! Plain input-layer value types: mouse buttons, hotkey patterns, and the
//! redraw verdict the tools hand back to the event loop.

use vstd::prelude::*;

verus! {

/// An error message reported by the windowing layer.
#[derive(Debug, Clone, PartialEq, Eq)]
pub struct SdlError(pub String);

impl SdlError {
    pub open spec fn text(&self) -> Seq<char> {
        self.0@
    }

    pub fn message(&self) -> (r: &str)
        ensures
            r@ == self.text(),
    {
        self.0.as_str()
    }
}

impl From<String> for SdlError {
    fn from(s: String) -> (r: SdlError) {
        SdlError(s)
    }
}

impl vstd::std_specs::convert::FromSpecImpl<String> for SdlError {
    open spec fn obeys_from_spec() -> bool {
        true
    }

    open spec fn from_spec(s: String) -> SdlError {
        SdlError(s)
    }
}

/// A mouse button, as the event loop reports it.
#[derive(Debug, Clone, Copy, PartialEq, Eq, Structural)]
pub enum MouseButton {
    Left,
    Middle,
    Right,
    X1,
    X2,
    Unknown,
}

/// Whether a key event is a press or a release.
#[derive(Debug, Clone, Copy, PartialEq, Eq, Structural)]
pub enum PressOrRelease {
    Press,
    Release,
}

/// Whether handling an event changed anything a redraw would show.
#[derive(Debug, Clone, Copy, PartialEq, Eq, Structural)]
pub enum Redraw {
    Do,
    Dont,
}

/// The modifier keys held during a key event.
#[derive(Debug, Clone, Copy, PartialEq, Eq, Structural)]
pub struct KeyModifier {
    pub ctrl: bool,
    pub alt: bool,
    pub shift: bool,
}

impl KeyModifier {
    pub fn new() -> (r: Self)
        ensures
            r == (KeyModifier { ctrl: false, alt: false, shift: false }),
    {
        KeyModifier { ctrl: false, alt: false, shift: false }
    }

    pub fn ctrl(self) -> (r: Self)
        ensures
            r == (KeyModifier { ctrl: true, ..self }),
    {
        KeyModifier { ctrl: true, ..self }
    }

    pub fn alt(self) -> (r: Self)
        ensures
            r == (KeyModifier { alt: true, ..self }),
    {
        KeyModifier { alt: true, ..self }
    }

    pub fn shift(self) -> (r: Self)
        ensures
            r == (KeyModifier { shift: true, ..self }),
    {
        KeyModifier { shift: true, ..self }
    }

    /// Pairs this modifier set with a key code.
    pub fn key(self, key: i32) -> (r: KeyWithMod)
        ensures
            r == (KeyWithMod { key, modifier: self }),
    {
        KeyWithMod { key, modifier: self }
    }
}

/// A hotkey pattern: a key code with the exact modifier set that must be
/// held.
#[derive(Debug, Clone, Copy, PartialEq, Eq, Structural)]
pub struct KeyWithMod {
    pub key: i32,
    pub modifier: KeyModifier,
}

impl KeyWithMod {
    pub fn new(key: i32, modifier: KeyModifier) -> (r: Self)
        ensures
            r == (KeyWithMod { key, modifier }),
    {
        KeyWithMod { key, modifier }
    }
}

/// The index of the first hotkey pattern that matches the pressed key, or
/// `None` when none does: the dispatcher then runs the action bound at that
/// index.
pub fn first_hotkey_match(bindings: &Vec<KeyWithMod>, key: KeyWithMod) -> (r: Option<usize>)
    ensures
        match r {
            Some(i) => 0 <= i < bindings@.len() && bindings@[i as int] == key && forall|j: int|
                0 <= j < i ==> bindings@[j] != key,
            None => forall|j: int| 0 <= j < bindings@.len() ==> bindings@[j] != key,
        },
{
    let mut i: usize = 0;
    while i < bindings.len()
        invariant
            i <= bindings@.len(),
            forall|j: int| 0 <= j < i ==> bindings@[j] != key,
        decreases bindings@.len() - i,
    {
        if bindings[i] == key {
            return Some(i);
        }
        i = i + 1;
    }
    None
}

} // verus!
