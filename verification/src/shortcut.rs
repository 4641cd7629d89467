//! Keyboard shortcuts written as text, such as "Command+Option+Period".

use vstd::prelude::*;

use crate::text::{chars_are, chars_of, concat, owned, push_char, string_of, to_lowercase, trim, trim_seq, unicode_lowercase};

verus! {

/// A key that a shortcut can end with.
#[derive(Debug, Clone, Copy, PartialEq, Eq, Structural)]
pub enum KeyCode {
    Period,
    Comma,
    Semicolon,
    Quote,
    Slash,
    Backslash,
    BracketLeft,
    BracketRight,
    Minus,
    Equal,
    Escape,
    Space,
    Enter,
    Tab,
    Backspace,
    Delete,
    Home,
    End,
    PageUp,
    PageDown,
    ArrowLeft,
    ArrowRight,
    ArrowUp,
    ArrowDown,
    KeyA,
    KeyB,
    KeyC,
    KeyD,
    KeyE,
    KeyF,
    KeyG,
    KeyH,
    KeyI,
    KeyJ,
    KeyK,
    KeyL,
    KeyM,
    KeyN,
    KeyO,
    KeyP,
    KeyQ,
    KeyR,
    KeyS,
    KeyT,
    KeyU,
    KeyV,
    KeyW,
    KeyX,
    KeyY,
    KeyZ,
    Digit0,
    Digit1,
    Digit2,
    Digit3,
    Digit4,
    Digit5,
    Digit6,
    Digit7,
    Digit8,
    Digit9,
}

/// One modifier key.
#[derive(Debug, Clone, Copy, PartialEq, Eq, Structural)]
pub enum ModifierKey {
    Super,
    Control,
    Alt,
    Shift,
}

/// The set of modifier keys held in a shortcut.
#[derive(Debug, Clone, Copy, PartialEq, Eq, Structural)]
pub struct Modifiers {
    pub super_key: bool,
    pub control: bool,
    pub alt: bool,
    pub shift: bool,
}

/// A parsed shortcut: modifiers plus one key.
#[derive(Debug, Clone, Copy, PartialEq, Eq, Structural)]
pub struct Shortcut {
    pub mods: Modifiers,
    pub key: KeyCode,
}

/// No modifier.
pub open spec fn no_modifiers() -> Modifiers {
    Modifiers { super_key: false, control: false, alt: false, shift: false }
}

/// `m` with `k` added.
pub open spec fn with_modifier(m: Modifiers, k: ModifierKey) -> Modifiers {
    match k {
        ModifierKey::Super => Modifiers { super_key: true, ..m },
        ModifierKey::Control => Modifiers { control: true, ..m },
        ModifierKey::Alt => Modifiers { alt: true, ..m },
        ModifierKey::Shift => Modifiers { shift: true, ..m },
    }
}

/// Whether `m` holds `k`.
pub open spec fn has_modifier(m: Modifiers, k: ModifierKey) -> bool {
    match k {
        ModifierKey::Super => m.super_key,
        ModifierKey::Control => m.control,
        ModifierKey::Alt => m.alt,
        ModifierKey::Shift => m.shift,
    }
}

impl Modifiers {
    /// No modifier.
    pub fn empty() -> (r: Modifiers)
        ensures
            r == no_modifiers(),
    {
        Modifiers { super_key: false, control: false, alt: false, shift: false }
    }

    /// Whether no modifier is held.
    pub fn is_empty(&self) -> (r: bool)
        ensures
            r == (*self == no_modifiers()),
    {
        !self.super_key && !self.control && !self.alt && !self.shift
    }

    /// Whether `k` is held.
    pub fn contains(&self, k: ModifierKey) -> (r: bool)
        ensures
            r == has_modifier(*self, k),
    {
        match k {
            ModifierKey::Super => self.super_key,
            ModifierKey::Control => self.control,
            ModifierKey::Alt => self.alt,
            ModifierKey::Shift => self.shift,
        }
    }

    /// Adds `k`.
    pub fn insert(&mut self, k: ModifierKey)
        ensures
            *final(self) == with_modifier(*old(self), k),
    {
        match k {
            ModifierKey::Super => self.super_key = true,
            ModifierKey::Control => self.control = true,
            ModifierKey::Alt => self.alt = true,
            ModifierKey::Shift => self.shift = true,
        }
    }
}

/// Named and punctuation keys, by their lower-case names.
pub open spec fn named_special_key(s: Seq<char>) -> Option<KeyCode> {
    if s == "period"@ || s == "."@ {
        Some(KeyCode::Period)
    } else if s == "comma"@ || s == ","@ {
        Some(KeyCode::Comma)
    } else if s == "semicolon"@ || s == ";"@ {
        Some(KeyCode::Semicolon)
    } else if s == "quote"@ || s == "'"@ || s == "\""@ {
        Some(KeyCode::Quote)
    } else if s == "slash"@ || s == "/"@ {
        Some(KeyCode::Slash)
    } else if s == "backslash"@ || s == "\\"@ {
        Some(KeyCode::Backslash)
    } else if s == "bracketleft"@ || s == "["@ {
        Some(KeyCode::BracketLeft)
    } else if s == "bracketright"@ || s == "]"@ {
        Some(KeyCode::BracketRight)
    } else if s == "minus"@ || s == "-"@ {
        Some(KeyCode::Minus)
    } else if s == "equal"@ || s == "="@ {
        Some(KeyCode::Equal)
    } else if s == "escape"@ || s == "esc"@ {
        Some(KeyCode::Escape)
    } else if s == "space"@ {
        Some(KeyCode::Space)
    } else if s == "return"@ || s == "enter"@ {
        Some(KeyCode::Enter)
    } else if s == "tab"@ {
        Some(KeyCode::Tab)
    } else if s == "backspace"@ {
        Some(KeyCode::Backspace)
    } else if s == "delete"@ || s == "del"@ {
        Some(KeyCode::Delete)
    } else if s == "home"@ {
        Some(KeyCode::Home)
    } else if s == "end"@ {
        Some(KeyCode::End)
    } else if s == "pageup"@ {
        Some(KeyCode::PageUp)
    } else if s == "pagedown"@ {
        Some(KeyCode::PageDown)
    } else if s == "left"@ {
        Some(KeyCode::ArrowLeft)
    } else if s == "right"@ {
        Some(KeyCode::ArrowRight)
    } else if s == "up"@ {
        Some(KeyCode::ArrowUp)
    } else if s == "down"@ {
        Some(KeyCode::ArrowDown)
    } else {
        None
    }
}

/// Letter keys, by their lower-case letter.
pub open spec fn named_letter_key(s: Seq<char>) -> Option<KeyCode> {
    if s == "a"@ {
        Some(KeyCode::KeyA)
    } else if s == "b"@ {
        Some(KeyCode::KeyB)
    } else if s == "c"@ {
        Some(KeyCode::KeyC)
    } else if s == "d"@ {
        Some(KeyCode::KeyD)
    } else if s == "e"@ {
        Some(KeyCode::KeyE)
    } else if s == "f"@ {
        Some(KeyCode::KeyF)
    } else if s == "g"@ {
        Some(KeyCode::KeyG)
    } else if s == "h"@ {
        Some(KeyCode::KeyH)
    } else if s == "i"@ {
        Some(KeyCode::KeyI)
    } else if s == "j"@ {
        Some(KeyCode::KeyJ)
    } else if s == "k"@ {
        Some(KeyCode::KeyK)
    } else if s == "l"@ {
        Some(KeyCode::KeyL)
    } else if s == "m"@ {
        Some(KeyCode::KeyM)
    } else if s == "n"@ {
        Some(KeyCode::KeyN)
    } else if s == "o"@ {
        Some(KeyCode::KeyO)
    } else if s == "p"@ {
        Some(KeyCode::KeyP)
    } else if s == "q"@ {
        Some(KeyCode::KeyQ)
    } else if s == "r"@ {
        Some(KeyCode::KeyR)
    } else if s == "s"@ {
        Some(KeyCode::KeyS)
    } else if s == "t"@ {
        Some(KeyCode::KeyT)
    } else if s == "u"@ {
        Some(KeyCode::KeyU)
    } else if s == "v"@ {
        Some(KeyCode::KeyV)
    } else if s == "w"@ {
        Some(KeyCode::KeyW)
    } else if s == "x"@ {
        Some(KeyCode::KeyX)
    } else if s == "y"@ {
        Some(KeyCode::KeyY)
    } else if s == "z"@ {
        Some(KeyCode::KeyZ)
    } else {
        None
    }
}

/// Digit keys.
pub open spec fn named_digit_key(s: Seq<char>) -> Option<KeyCode> {
    if s == "0"@ {
        Some(KeyCode::Digit0)
    } else if s == "1"@ {
        Some(KeyCode::Digit1)
    } else if s == "2"@ {
        Some(KeyCode::Digit2)
    } else if s == "3"@ {
        Some(KeyCode::Digit3)
    } else if s == "4"@ {
        Some(KeyCode::Digit4)
    } else if s == "5"@ {
        Some(KeyCode::Digit5)
    } else if s == "6"@ {
        Some(KeyCode::Digit6)
    } else if s == "7"@ {
        Some(KeyCode::Digit7)
    } else if s == "8"@ {
        Some(KeyCode::Digit8)
    } else if s == "9"@ {
        Some(KeyCode::Digit9)
    } else {
        None
    }
}

/// The key a lower-cased key name denotes, if any.
pub open spec fn named_key(s: Seq<char>) -> Option<KeyCode> {
    match named_special_key(s) {
        Some(k) => Some(k),
        None => match named_letter_key(s) {
            Some(k) => Some(k),
            None => named_digit_key(s),
        },
    }
}

/// The names of each key, as written in shortcut texts (lower case): the
/// first is its name, the others its aliases.
pub open spec fn key_names(k: KeyCode) -> Seq<Seq<char>> {
    match k {
        KeyCode::Period => seq!["period"@, "."@],
        KeyCode::Comma => seq!["comma"@, ","@],
        KeyCode::Semicolon => seq!["semicolon"@, ";"@],
        KeyCode::Quote => seq!["quote"@, "'"@, "\""@],
        KeyCode::Slash => seq!["slash"@, "/"@],
        KeyCode::Backslash => seq!["backslash"@, "\\"@],
        KeyCode::BracketLeft => seq!["bracketleft"@, "["@],
        KeyCode::BracketRight => seq!["bracketright"@, "]"@],
        KeyCode::Minus => seq!["minus"@, "-"@],
        KeyCode::Equal => seq!["equal"@, "="@],
        KeyCode::Escape => seq!["escape"@, "esc"@],
        KeyCode::Space => seq!["space"@],
        KeyCode::Enter => seq!["return"@, "enter"@],
        KeyCode::Tab => seq!["tab"@],
        KeyCode::Backspace => seq!["backspace"@],
        KeyCode::Delete => seq!["delete"@, "del"@],
        KeyCode::Home => seq!["home"@],
        KeyCode::End => seq!["end"@],
        KeyCode::PageUp => seq!["pageup"@],
        KeyCode::PageDown => seq!["pagedown"@],
        KeyCode::ArrowLeft => seq!["left"@],
        KeyCode::ArrowRight => seq!["right"@],
        KeyCode::ArrowUp => seq!["up"@],
        KeyCode::ArrowDown => seq!["down"@],
        KeyCode::KeyA => seq!["a"@],
        KeyCode::KeyB => seq!["b"@],
        KeyCode::KeyC => seq!["c"@],
        KeyCode::KeyD => seq!["d"@],
        KeyCode::KeyE => seq!["e"@],
        KeyCode::KeyF => seq!["f"@],
        KeyCode::KeyG => seq!["g"@],
        KeyCode::KeyH => seq!["h"@],
        KeyCode::KeyI => seq!["i"@],
        KeyCode::KeyJ => seq!["j"@],
        KeyCode::KeyK => seq!["k"@],
        KeyCode::KeyL => seq!["l"@],
        KeyCode::KeyM => seq!["m"@],
        KeyCode::KeyN => seq!["n"@],
        KeyCode::KeyO => seq!["o"@],
        KeyCode::KeyP => seq!["p"@],
        KeyCode::KeyQ => seq!["q"@],
        KeyCode::KeyR => seq!["r"@],
        KeyCode::KeyS => seq!["s"@],
        KeyCode::KeyT => seq!["t"@],
        KeyCode::KeyU => seq!["u"@],
        KeyCode::KeyV => seq!["v"@],
        KeyCode::KeyW => seq!["w"@],
        KeyCode::KeyX => seq!["x"@],
        KeyCode::KeyY => seq!["y"@],
        KeyCode::KeyZ => seq!["z"@],
        KeyCode::Digit0 => seq!["0"@],
        KeyCode::Digit1 => seq!["1"@],
        KeyCode::Digit2 => seq!["2"@],
        KeyCode::Digit3 => seq!["3"@],
        KeyCode::Digit4 => seq!["4"@],
        KeyCode::Digit5 => seq!["5"@],
        KeyCode::Digit6 => seq!["6"@],
        KeyCode::Digit7 => seq!["7"@],
        KeyCode::Digit8 => seq!["8"@],
        KeyCode::Digit9 => seq!["9"@],
    }
}

/// Every name of a key denotes that key, and a name denotes a key only if it
/// is one of that key's listed names: no two keys share a name, and two
/// names denote the same key only when they are listed aliases of it.
pub proof fn law_key_names_denote_their_key(s: Seq<char>, k: KeyCode)
    ensures
        named_key(s) == Some(k) <==> key_names(k).contains(s),
{
    lemma_named_key_listed(s);
    if key_names(k).contains(s) {
        let i = choose|i: int| 0 <= i < key_names(k).len() && key_names(k)[i] == s;
        lemma_listed_name_denotes(k, i);
    }
}

/// Whatever a name denotes, the name is listed for that key.
proof fn lemma_named_key_listed(s: Seq<char>)
    ensures
        named_key(s) matches Some(k) ==> key_names(k).contains(s),
{
    if named_key(s) is Some {
        let names = key_names(named_key(s)->0);
        if names[0] == s {
        } else if names[1] == s {
        } else {
            assert(names[2] == s);
        }
    }
}

/// A name of the given length whose first and last characters are given.
spec fn name_shape(s: Seq<char>, n: nat, first: char, last: char) -> bool {
    &&& s.len() == n
    &&& s[0] == first
    &&& s[n - 1] == last
}

/// Length, first and last character of every key name; no two key names
/// agree on all three.
proof fn lemma_key_name_shapes()
    ensures
        name_shape("period"@, 6, 'p', 'd'),
        name_shape("."@, 1, '.', '.'),
        name_shape("comma"@, 5, 'c', 'a'),
        name_shape(","@, 1, ',', ','),
        name_shape("semicolon"@, 9, 's', 'n'),
        name_shape(";"@, 1, ';', ';'),
        name_shape("quote"@, 5, 'q', 'e'),
        name_shape("'"@, 1, '\'', '\''),
        name_shape("\""@, 1, '"', '"'),
        name_shape("slash"@, 5, 's', 'h'),
        name_shape("/"@, 1, '/', '/'),
        name_shape("backslash"@, 9, 'b', 'h'),
        name_shape("\\"@, 1, '\\', '\\'),
        name_shape("bracketleft"@, 11, 'b', 't'),
        name_shape("["@, 1, '[', '['),
        name_shape("bracketright"@, 12, 'b', 't'),
        name_shape("]"@, 1, ']', ']'),
        name_shape("minus"@, 5, 'm', 's'),
        name_shape("-"@, 1, '-', '-'),
        name_shape("equal"@, 5, 'e', 'l'),
        name_shape("="@, 1, '=', '='),
        name_shape("escape"@, 6, 'e', 'e'),
        name_shape("esc"@, 3, 'e', 'c'),
        name_shape("space"@, 5, 's', 'e'),
        name_shape("return"@, 6, 'r', 'n'),
        name_shape("enter"@, 5, 'e', 'r'),
        name_shape("tab"@, 3, 't', 'b'),
        name_shape("backspace"@, 9, 'b', 'e'),
        name_shape("delete"@, 6, 'd', 'e'),
        name_shape("del"@, 3, 'd', 'l'),
        name_shape("home"@, 4, 'h', 'e'),
        name_shape("end"@, 3, 'e', 'd'),
        name_shape("pageup"@, 6, 'p', 'p'),
        name_shape("pagedown"@, 8, 'p', 'n'),
        name_shape("left"@, 4, 'l', 't'),
        name_shape("right"@, 5, 'r', 't'),
        name_shape("up"@, 2, 'u', 'p'),
        name_shape("down"@, 4, 'd', 'n'),
        name_shape("a"@, 1, 'a', 'a'),
        name_shape("b"@, 1, 'b', 'b'),
        name_shape("c"@, 1, 'c', 'c'),
        name_shape("d"@, 1, 'd', 'd'),
        name_shape("e"@, 1, 'e', 'e'),
        name_shape("f"@, 1, 'f', 'f'),
        name_shape("g"@, 1, 'g', 'g'),
        name_shape("h"@, 1, 'h', 'h'),
        name_shape("i"@, 1, 'i', 'i'),
        name_shape("j"@, 1, 'j', 'j'),
        name_shape("k"@, 1, 'k', 'k'),
        name_shape("l"@, 1, 'l', 'l'),
        name_shape("m"@, 1, 'm', 'm'),
        name_shape("n"@, 1, 'n', 'n'),
        name_shape("o"@, 1, 'o', 'o'),
        name_shape("p"@, 1, 'p', 'p'),
        name_shape("q"@, 1, 'q', 'q'),
        name_shape("r"@, 1, 'r', 'r'),
        name_shape("s"@, 1, 's', 's'),
        name_shape("t"@, 1, 't', 't'),
        name_shape("u"@, 1, 'u', 'u'),
        name_shape("v"@, 1, 'v', 'v'),
        name_shape("w"@, 1, 'w', 'w'),
        name_shape("x"@, 1, 'x', 'x'),
        name_shape("y"@, 1, 'y', 'y'),
        name_shape("z"@, 1, 'z', 'z'),
        name_shape("0"@, 1, '0', '0'),
        name_shape("1"@, 1, '1', '1'),
        name_shape("2"@, 1, '2', '2'),
        name_shape("3"@, 1, '3', '3'),
        name_shape("4"@, 1, '4', '4'),
        name_shape("5"@, 1, '5', '5'),
        name_shape("6"@, 1, '6', '6'),
        name_shape("7"@, 1, '7', '7'),
        name_shape("8"@, 1, '8', '8'),
        name_shape("9"@, 1, '9', '9'),
{
    reveal_strlit("period");
    reveal_strlit(".");
    reveal_strlit("comma");
    reveal_strlit(",");
    reveal_strlit("semicolon");
    reveal_strlit(";");
    reveal_strlit("quote");
    reveal_strlit("'");
    reveal_strlit("\"");
    reveal_strlit("slash");
    reveal_strlit("/");
    reveal_strlit("backslash");
    reveal_strlit("\\");
    reveal_strlit("bracketleft");
    reveal_strlit("[");
    reveal_strlit("bracketright");
    reveal_strlit("]");
    reveal_strlit("minus");
    reveal_strlit("-");
    reveal_strlit("equal");
    reveal_strlit("=");
    reveal_strlit("escape");
    reveal_strlit("esc");
    reveal_strlit("space");
    reveal_strlit("return");
    reveal_strlit("enter");
    reveal_strlit("tab");
    reveal_strlit("backspace");
    reveal_strlit("delete");
    reveal_strlit("del");
    reveal_strlit("home");
    reveal_strlit("end");
    reveal_strlit("pageup");
    reveal_strlit("pagedown");
    reveal_strlit("left");
    reveal_strlit("right");
    reveal_strlit("up");
    reveal_strlit("down");
    reveal_strlit("a");
    reveal_strlit("b");
    reveal_strlit("c");
    reveal_strlit("d");
    reveal_strlit("e");
    reveal_strlit("f");
    reveal_strlit("g");
    reveal_strlit("h");
    reveal_strlit("i");
    reveal_strlit("j");
    reveal_strlit("k");
    reveal_strlit("l");
    reveal_strlit("m");
    reveal_strlit("n");
    reveal_strlit("o");
    reveal_strlit("p");
    reveal_strlit("q");
    reveal_strlit("r");
    reveal_strlit("s");
    reveal_strlit("t");
    reveal_strlit("u");
    reveal_strlit("v");
    reveal_strlit("w");
    reveal_strlit("x");
    reveal_strlit("y");
    reveal_strlit("z");
    reveal_strlit("0");
    reveal_strlit("1");
    reveal_strlit("2");
    reveal_strlit("3");
    reveal_strlit("4");
    reveal_strlit("5");
    reveal_strlit("6");
    reveal_strlit("7");
    reveal_strlit("8");
    reveal_strlit("9");
}

/// The `i`-th listed name of a key denotes that key.
proof fn lemma_listed_name_denotes(k: KeyCode, i: int)
    requires
        0 <= i < key_names(k).len(),
    ensures
        named_key(key_names(k)[i]) == Some(k),
{
    lemma_key_name_shapes();
}

fn special_key(v: &Vec<char>) -> (r: Option<KeyCode>)
    ensures
        r == named_special_key(v@),
{
    if chars_are(v, "period") || chars_are(v, ".") {
        Some(KeyCode::Period)
    } else if chars_are(v, "comma") || chars_are(v, ",") {
        Some(KeyCode::Comma)
    } else if chars_are(v, "semicolon") || chars_are(v, ";") {
        Some(KeyCode::Semicolon)
    } else if chars_are(v, "quote") || chars_are(v, "'") || chars_are(v, "\"") {
        Some(KeyCode::Quote)
    } else if chars_are(v, "slash") || chars_are(v, "/") {
        Some(KeyCode::Slash)
    } else if chars_are(v, "backslash") || chars_are(v, "\\") {
        Some(KeyCode::Backslash)
    } else if chars_are(v, "bracketleft") || chars_are(v, "[") {
        Some(KeyCode::BracketLeft)
    } else if chars_are(v, "bracketright") || chars_are(v, "]") {
        Some(KeyCode::BracketRight)
    } else if chars_are(v, "minus") || chars_are(v, "-") {
        Some(KeyCode::Minus)
    } else if chars_are(v, "equal") || chars_are(v, "=") {
        Some(KeyCode::Equal)
    } else if chars_are(v, "escape") || chars_are(v, "esc") {
        Some(KeyCode::Escape)
    } else if chars_are(v, "space") {
        Some(KeyCode::Space)
    } else if chars_are(v, "return") || chars_are(v, "enter") {
        Some(KeyCode::Enter)
    } else if chars_are(v, "tab") {
        Some(KeyCode::Tab)
    } else if chars_are(v, "backspace") {
        Some(KeyCode::Backspace)
    } else if chars_are(v, "delete") || chars_are(v, "del") {
        Some(KeyCode::Delete)
    } else if chars_are(v, "home") {
        Some(KeyCode::Home)
    } else if chars_are(v, "end") {
        Some(KeyCode::End)
    } else if chars_are(v, "pageup") {
        Some(KeyCode::PageUp)
    } else if chars_are(v, "pagedown") {
        Some(KeyCode::PageDown)
    } else if chars_are(v, "left") {
        Some(KeyCode::ArrowLeft)
    } else if chars_are(v, "right") {
        Some(KeyCode::ArrowRight)
    } else if chars_are(v, "up") {
        Some(KeyCode::ArrowUp)
    } else if chars_are(v, "down") {
        Some(KeyCode::ArrowDown)
    } else {
        None
    }
}

fn letter_key(v: &Vec<char>) -> (r: Option<KeyCode>)
    ensures
        r == named_letter_key(v@),
{
    if chars_are(v, "a") {
        Some(KeyCode::KeyA)
    } else if chars_are(v, "b") {
        Some(KeyCode::KeyB)
    } else if chars_are(v, "c") {
        Some(KeyCode::KeyC)
    } else if chars_are(v, "d") {
        Some(KeyCode::KeyD)
    } else if chars_are(v, "e") {
        Some(KeyCode::KeyE)
    } else if chars_are(v, "f") {
        Some(KeyCode::KeyF)
    } else if chars_are(v, "g") {
        Some(KeyCode::KeyG)
    } else if chars_are(v, "h") {
        Some(KeyCode::KeyH)
    } else if chars_are(v, "i") {
        Some(KeyCode::KeyI)
    } else if chars_are(v, "j") {
        Some(KeyCode::KeyJ)
    } else if chars_are(v, "k") {
        Some(KeyCode::KeyK)
    } else if chars_are(v, "l") {
        Some(KeyCode::KeyL)
    } else if chars_are(v, "m") {
        Some(KeyCode::KeyM)
    } else if chars_are(v, "n") {
        Some(KeyCode::KeyN)
    } else if chars_are(v, "o") {
        Some(KeyCode::KeyO)
    } else if chars_are(v, "p") {
        Some(KeyCode::KeyP)
    } else if chars_are(v, "q") {
        Some(KeyCode::KeyQ)
    } else if chars_are(v, "r") {
        Some(KeyCode::KeyR)
    } else if chars_are(v, "s") {
        Some(KeyCode::KeyS)
    } else if chars_are(v, "t") {
        Some(KeyCode::KeyT)
    } else if chars_are(v, "u") {
        Some(KeyCode::KeyU)
    } else if chars_are(v, "v") {
        Some(KeyCode::KeyV)
    } else if chars_are(v, "w") {
        Some(KeyCode::KeyW)
    } else if chars_are(v, "x") {
        Some(KeyCode::KeyX)
    } else if chars_are(v, "y") {
        Some(KeyCode::KeyY)
    } else if chars_are(v, "z") {
        Some(KeyCode::KeyZ)
    } else {
        None
    }
}

fn digit_key(v: &Vec<char>) -> (r: Option<KeyCode>)
    ensures
        r == named_digit_key(v@),
{
    if chars_are(v, "0") {
        Some(KeyCode::Digit0)
    } else if chars_are(v, "1") {
        Some(KeyCode::Digit1)
    } else if chars_are(v, "2") {
        Some(KeyCode::Digit2)
    } else if chars_are(v, "3") {
        Some(KeyCode::Digit3)
    } else if chars_are(v, "4") {
        Some(KeyCode::Digit4)
    } else if chars_are(v, "5") {
        Some(KeyCode::Digit5)
    } else if chars_are(v, "6") {
        Some(KeyCode::Digit6)
    } else if chars_are(v, "7") {
        Some(KeyCode::Digit7)
    } else if chars_are(v, "8") {
        Some(KeyCode::Digit8)
    } else if chars_are(v, "9") {
        Some(KeyCode::Digit9)
    } else {
        None
    }
}

/// The key a lower-cased key name denotes: punctuation by name or symbol
/// ("period" or "."), named keys ("esc", "enter", arrows as "left" ...),
/// letters "a".."z" and digits "0".."9".
pub fn normalize_key(s: &str) -> (r: Option<KeyCode>)
    ensures
        r == named_key(s@),
{
    let v = chars_of(s);
    match special_key(&v) {
        Some(k) => Some(k),
        None => match letter_key(&v) {
            Some(k) => Some(k),
            None => digit_key(&v),
        },
    }
}

/// The modifier a lower-cased modifier name denotes, if any.
pub open spec fn named_modifier(s: Seq<char>) -> Option<ModifierKey> {
    if s == "command"@ || s == "cmd"@ || s == "super"@ || s == "win"@ {
        Some(ModifierKey::Super)
    } else if s == "control"@ || s == "ctrl"@ {
        Some(ModifierKey::Control)
    } else if s == "option"@ || s == "alt"@ {
        Some(ModifierKey::Alt)
    } else if s == "shift"@ {
        Some(ModifierKey::Shift)
    } else {
        None
    }
}

fn modifier_key(v: &Vec<char>) -> (r: Option<ModifierKey>)
    ensures
        r == named_modifier(v@),
{
    if chars_are(v, "command") || chars_are(v, "cmd") || chars_are(v, "super") || chars_are(v, "win") {
        Some(ModifierKey::Super)
    } else if chars_are(v, "control") || chars_are(v, "ctrl") {
        Some(ModifierKey::Control)
    } else if chars_are(v, "option") || chars_are(v, "alt") {
        Some(ModifierKey::Alt)
    } else if chars_are(v, "shift") {
        Some(ModifierKey::Shift)
    } else {
        None
    }
}

/// The modifier a lower-cased name stands for: command/cmd/super/win,
/// control/ctrl, option/alt or shift.
pub fn normalize_modifier(s: &str) -> (r: Option<ModifierKey>)
    ensures
        r == named_modifier(s@),
{
    let v = chars_of(s);
    modifier_key(&v)
}

/// The pieces of `s` between '+' signs (one piece more than there are signs).
pub open spec fn split_plus(s: Seq<char>) -> Seq<Seq<char>>
    decreases s.len(),
{
    if s.len() == 0 {
        seq![seq![]]
    } else {
        let r = split_plus(s.drop_last());
        if s.last() == '+' {
            r.push(seq![])
        } else {
            r.update(r.len() - 1, r.last().push(s.last()))
        }
    }
}

proof fn lemma_split_plus_len(s: Seq<char>)
    ensures
        split_plus(s).len() >= 1,
    decreases s.len(),
{
    if s.len() > 0 {
        lemma_split_plus_len(s.drop_last());
    }
}

/// Reads the modifier pieces (each trimmed, lower-cased for matching) into a
/// set; the first unknown one is returned, trimmed, as the error.
pub open spec fn fold_modifiers(parts: Seq<Seq<char>>) -> Result<Modifiers, Seq<char>>
    decreases parts.len(),
{
    if parts.len() == 0 {
        Ok(no_modifiers())
    } else {
        match fold_modifiers(parts.drop_last()) {
            Err(e) => Err(e),
            Ok(m) => match named_modifier(unicode_lowercase(trim_seq(parts.last()))) {
                Some(k) => Ok(with_modifier(m, k)),
                None => Err(trim_seq(parts.last())),
            },
        }
    }
}

/// What `parse_shortcut` yields for the text `s`.
pub open spec fn parsed_shortcut(s: Seq<char>) -> Result<Shortcut, Seq<char>> {
    let t = trim_seq(s);
    if t.len() == 0 {
        Err("快捷键不能为空"@)
    } else {
        let parts = split_plus(t);
        let key_part = unicode_lowercase(trim_seq(parts.last()));
        match named_key(key_part) {
            None => Err("不支持的按键: "@ + key_part),
            Some(key) => match fold_modifiers(parts.drop_last()) {
                Err(p) => Err("不支持的修饰键: "@ + p),
                Ok(mods) => Ok(Shortcut { mods, key }),
            },
        }
    }
}

/// Splits on '+'.
fn split_on_plus(v: &Vec<char>) -> (parts: Vec<Vec<char>>)
    ensures
        parts@.len() == split_plus(v@).len(),
        forall|k: int| 0 <= k < parts@.len() ==> (#[trigger] parts@[k])@ == split_plus(v@)[k],
{
    let mut parts: Vec<Vec<char>> = Vec::new();
    let mut cur: Vec<char> = Vec::new();
    let mut i: usize = 0;
    while i < v.len()
        invariant
            i <= v@.len(),
            parts@.len() + 1 == split_plus(v@.take(i as int)).len(),
            forall|k: int| 0 <= k < parts@.len() ==> (#[trigger] parts@[k])@ == split_plus(v@.take(i as int))[k],
            cur@ == split_plus(v@.take(i as int)).last(),
        decreases v@.len() - i,
    {
        proof {
            lemma_split_plus_len(v@.take(i as int));
            assert(v@.take(i + 1).drop_last() =~= v@.take(i as int));
        }
        if v[i] == '+' {
            parts.push(cur);
            cur = Vec::new();
        } else {
            cur.push(v[i]);
        }
        i = i + 1;
    }
    proof {
        assert(v@.take(i as int) =~= v@);
        lemma_split_plus_len(v@);
    }
    parts.push(cur);
    parts
}

/// Parses a shortcut such as "Command+Option+Period": pieces between '+' are
/// trimmed; the last names the key and the others modifiers (names compared
/// lower-cased: command/cmd/super/win, control/ctrl, option/alt, shift).
/// The key is checked first, then the modifiers left to right.
pub fn parse_shortcut(s: &str) -> (r: Result<Shortcut, String>)
    ensures
        r matches Ok(sc) ==> parsed_shortcut(s@) == Ok::<Shortcut, Seq<char>>(sc),
        r matches Err(m) ==> parsed_shortcut(s@) == Err::<Shortcut, Seq<char>>(m@),
{
    let t = trim(s);
    if t.as_str().is_empty() {
        return Err(owned("快捷键不能为空"));
    }
    let tv = chars_of(t.as_str());
    let parts = split_on_plus(&tv);
    proof {
        lemma_split_plus_len(tv@);
    }
    let n = parts.len();
    let last = string_of(&parts[n - 1]);
    let key_part = to_lowercase(trim(last.as_str()).as_str());
    let key = match normalize_key(key_part.as_str()) {
        Some(k) => k,
        None => {
            return Err(concat("不支持的按键: ", key_part.as_str()));
        },
    };
    let ghost ps = split_plus(tv@).drop_last();
    let mut mods = Modifiers::empty();
    let mut i: usize = 0;
    while i < n - 1
        invariant
            n == parts@.len(),
            n == split_plus(tv@).len(),
            n >= 1,
            i <= n - 1,
            tv@ == trim_seq(s@),
            trim_seq(s@).len() > 0,
            named_key(unicode_lowercase(trim_seq(split_plus(tv@).last()))) == Some(key),
            ps == split_plus(tv@).drop_last(),
            forall|k: int| 0 <= k < parts@.len() ==> (#[trigger] parts@[k])@ == split_plus(tv@)[k],
            fold_modifiers(ps.take(i as int)) == Ok::<Modifiers, Seq<char>>(mods),
        decreases n - 1 - i,
    {
        assert(ps.take(i + 1).drop_last() =~= ps.take(i as int));
        let part = trim(string_of(&parts[i]).as_str());
        let lower = to_lowercase(part.as_str());
        match normalize_modifier(lower.as_str()) {
            Some(k) => mods.insert(k),
            None => {
                proof {
                    lemma_fold_stays_err(ps, i + 1, part@);
                }
                return Err(concat("不支持的修饰键: ", part.as_str()));
            },
        }
        i = i + 1;
    }
    assert(ps.take(i as int) =~= ps);
    Ok(Shortcut { mods, key })
}

proof fn lemma_fold_stays_err(ps: Seq<Seq<char>>, i: int, e: Seq<char>)
    requires
        0 <= i <= ps.len(),
        fold_modifiers(ps.take(i)) == Err::<Modifiers, Seq<char>>(e),
    ensures
        fold_modifiers(ps) == Err::<Modifiers, Seq<char>>(e),
    decreases ps.len() - i,
{
    if i < ps.len() {
        assert(ps.take(i + 1).drop_last() =~= ps.take(i));
        lemma_fold_stays_err(ps, i + 1, e);
    } else {
        assert(ps.take(i) =~= ps);
    }
}

/// The shortcut is Escape with no modifier.
pub fn is_bare_escape(shortcut: &Shortcut) -> (r: bool)
    ensures
        r == (shortcut.key == KeyCode::Escape && shortcut.mods == no_modifiers()),
{
    shortcut.key == KeyCode::Escape && shortcut.mods.is_empty()
}

} // verus!
