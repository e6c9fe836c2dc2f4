//! Global hot keys: parsing bindings such as `Ctrl+Shift+P`, and deciding
//! from key presses and releases when a binding fires. Listening to the
//! keyboard is the host's part.

use vstd::prelude::*;
use crate::config::Config;
use crate::text::{chars_of, lower_of, lowercase, same_chars, string_of, trim, trimmed};

verus! {

/// What a hot key asks for.
#[derive(Clone, Copy, Debug, PartialEq, Eq, Structural)]
pub enum HotkeyAction {
    PauseResume,
    Screenshot,
}

/// A key as the hot key listener tells them apart.
#[derive(Clone, Copy, Debug, PartialEq, Eq, Structural)]
pub enum HotkeyKey {
    ControlLeft,
    ShiftLeft,
    Alt,
    MetaLeft,
    /// A letter key, by its lower-case letter.
    Letter(char),
    /// Any key that no binding can name.
    Other,
}

/// The key a lower-cased, trimmed part of a binding names, if any.
pub open spec fn token_key(t: Seq<char>) -> Option<HotkeyKey> {
    if t == "ctrl"@ {
        Some(HotkeyKey::ControlLeft)
    } else if t == "shift"@ {
        Some(HotkeyKey::ShiftLeft)
    } else if t == "alt"@ {
        Some(HotkeyKey::Alt)
    } else if t == "cmd"@ || t == "win"@ {
        Some(HotkeyKey::MetaLeft)
    } else if t.len() == 1 && 'a' <= t[0] <= 'z' {
        Some(HotkeyKey::Letter(t[0]))
    } else {
        None
    }
}

/// The key one part of a binding names: the part is trimmed and lower-cased first.
pub open spec fn part_key(p: Seq<char>) -> Option<HotkeyKey> {
    token_key(lower_of(trimmed(p)))
}

/// The parts of `s` before its last `+`, and the text after it.
pub open spec fn plus_split(s: Seq<char>) -> (Seq<Seq<char>>, Seq<char>)
    decreases s.len(),
{
    if s.len() == 0 {
        (Seq::empty(), Seq::empty())
    } else {
        let (done, cur) = plus_split(s.drop_last());
        if s.last() == '+' {
            (done.push(cur), Seq::empty())
        } else {
            (done, cur.push(s.last()))
        }
    }
}

/// The keys a binding names, in order; parts that name no key are skipped.
pub open spec fn keys_of_parts(parts: Seq<Seq<char>>) -> Seq<HotkeyKey>
    decreases parts.len(),
{
    if parts.len() == 0 {
        Seq::empty()
    } else {
        let rest = keys_of_parts(parts.drop_last());
        match part_key(parts.last()) {
            Some(k) => rest.push(k),
            None => rest,
        }
    }
}

/// The keys of a binding such as `Ctrl+Shift+P`: its `+`-separated parts.
pub open spec fn combo_keys(s: Seq<char>) -> Seq<HotkeyKey> {
    let (done, cur) = plus_split(s);
    keys_of_parts(done.push(cur))
}

/// The key a lower-cased, trimmed part of a binding names, if any.
pub fn token_key_of(t: &str) -> (r: Option<HotkeyKey>)
    ensures
        r == token_key(t@),
{
    let l = chars_of(t);
    if same_chars(&l, &chars_of("ctrl")) {
        Some(HotkeyKey::ControlLeft)
    } else if same_chars(&l, &chars_of("shift")) {
        Some(HotkeyKey::ShiftLeft)
    } else if same_chars(&l, &chars_of("alt")) {
        Some(HotkeyKey::Alt)
    } else if same_chars(&l, &chars_of("cmd")) || same_chars(&l, &chars_of("win")) {
        Some(HotkeyKey::MetaLeft)
    } else if l.len() == 1 && 'a' <= l[0] && l[0] <= 'z' {
        Some(HotkeyKey::Letter(l[0]))
    } else {
        None
    }
}

/// The key one part names.
fn parse_part(part: &Vec<char>) -> (r: Option<HotkeyKey>)
    ensures
        r == part_key(part@),
{
    let t = string_of(&trim(part));
    let low = lowercase(t.as_str());
    token_key_of(low.as_str())
}

/// Parses a binding such as `Ctrl+Shift+P` into its keys.
pub fn parse_hotkey_string(combo: &str) -> (r: Vec<HotkeyKey>)
    ensures
        r@ == combo_keys(combo@),
{
    let cs = chars_of(combo);
    let mut keys: Vec<HotkeyKey> = Vec::new();
    let mut cur: Vec<char> = Vec::new();
    let ghost mut parts: Seq<Seq<char>> = Seq::empty();
    let mut i: usize = 0;
    assert(cs@.subrange(0, 0) =~= Seq::<char>::empty());
    while i < cs.len()
        invariant
            i <= cs@.len(),
            (parts, cur@) == plus_split(cs@.subrange(0, i as int)),
            keys@ == keys_of_parts(parts),
        decreases cs@.len() - i,
    {
        assert(cs@.subrange(0, i + 1).drop_last() =~= cs@.subrange(0, i as int));
        if cs[i] == '+' {
            let k = parse_part(&cur);
            proof {
                assert(parts.push(cur@).drop_last() =~= parts);
            }
            match k {
                Some(k) => keys.push(k),
                None => {},
            }
            proof {
                parts = parts.push(cur@);
            }
            cur = Vec::new();
        } else {
            cur.push(cs[i]);
        }
        i = i + 1;
    }
    assert(cs@.subrange(0, cs@.len() as int) =~= cs@);
    let k = parse_part(&cur);
    assert(parts.push(cur@).drop_last() =~= parts);
    match k {
        Some(k) => keys.push(k),
        None => {},
    }
    keys
}

/// Whether every key of `combo` is among `pressed`.
pub open spec fn combo_held(pressed: Seq<HotkeyKey>, combo: Seq<HotkeyKey>) -> bool {
    forall|i: int| 0 <= i < combo.len() ==> pressed.contains(#[trigger] combo[i])
}

fn holds(keys: &Vec<HotkeyKey>, k: HotkeyKey) -> (r: bool)
    ensures
        r == keys@.contains(k),
{
    let mut i: usize = 0;
    while i < keys.len()
        invariant
            i <= keys@.len(),
            forall|j: int| 0 <= j < i ==> keys@[j] != k,
        decreases keys@.len() - i,
    {
        if keys[i] == k {
            return true;
        }
        i = i + 1;
    }
    false
}

/// Whether all keys of `combo` are pressed.
pub fn is_combo_pressed(pressed: &Vec<HotkeyKey>, combo: &Vec<HotkeyKey>) -> (r: bool)
    ensures
        r == combo_held(pressed@, combo@),
{
    let mut i: usize = 0;
    while i < combo.len()
        invariant
            i <= combo@.len(),
            forall|j: int| 0 <= j < i ==> pressed@.contains(#[trigger] combo@[j]),
        decreases combo@.len() - i,
    {
        if !holds(pressed, combo[i]) {
            return false;
        }
        i = i + 1;
    }
    true
}

/// The parsed hot key bindings of a configuration.
pub struct HotkeyBindings {
    pub pause_resume: Option<Vec<HotkeyKey>>,
    pub screenshot: Option<Vec<HotkeyKey>>,
}

/// The keys of an optional binding.
pub open spec fn binding_of(b: Option<Seq<char>>) -> Option<Seq<HotkeyKey>> {
    match b {
        Some(s) => Some(combo_keys(s)),
        None => None,
    }
}

/// The value of an optional parsed binding.
pub open spec fn keys_opt(b: Option<Vec<HotkeyKey>>) -> Option<Seq<HotkeyKey>> {
    match b {
        Some(v) => Some(v@),
        None => None,
    }
}

fn parse_opt(b: Option<&str>) -> (r: Option<Vec<HotkeyKey>>)
    ensures
        keys_opt(r) == binding_of(crate::config::opt_str(b)),
{
    match b {
        Some(s) => Some(parse_hotkey_string(s)),
        None => None,
    }
}

impl HotkeyBindings {
    /// The bindings that a configuration sets.
    pub fn from_config(config: &Config) -> (r: HotkeyBindings)
        ensures
            keys_opt(r.pause_resume) == binding_of(
                match config.hotkeys {
                    Some(h) => crate::config::opt_text(h.pause_resume),
                    None => None,
                },
            ),
            keys_opt(r.screenshot) == binding_of(
                match config.hotkeys {
                    Some(h) => crate::config::opt_text(h.screenshot),
                    None => None,
                },
            ),
    {
        HotkeyBindings {
            pause_resume: parse_opt(config.hotkey_pause_resume()),
            screenshot: parse_opt(config.hotkey_screenshot()),
        }
    }
}

/// Whether an optional binding is fully held.
pub open spec fn fires(pressed: Seq<HotkeyKey>, b: Option<Seq<HotkeyKey>>) -> bool {
    b matches Some(c) && combo_held(pressed, c)
}

/// The actions that fire with `pressed` held: pause/resume first.
pub open spec fn fired(pressed: Seq<HotkeyKey>, pause: Option<Seq<HotkeyKey>>, shot: Option<Seq<HotkeyKey>>) -> Seq<HotkeyAction> {
    (if fires(pressed, pause) {
        seq![HotkeyAction::PauseResume]
    } else {
        Seq::empty()
    }) + (if fires(pressed, shot) {
        seq![HotkeyAction::Screenshot]
    } else {
        Seq::empty()
    })
}

/// `s` without any `k`.
pub open spec fn without(s: Seq<HotkeyKey>, k: HotkeyKey) -> Seq<HotkeyKey>
    decreases s.len(),
{
    if s.len() == 0 {
        s
    } else if s.last() == k {
        without(s.drop_last(), k)
    } else {
        without(s.drop_last(), k).push(s.last())
    }
}

/// The keys the hot key listener holds as pressed.
pub struct HotkeyState {
    pressed: Vec<HotkeyKey>,
}

impl View for HotkeyState {
    type V = Seq<HotkeyKey>;

    closed spec fn view(&self) -> Seq<HotkeyKey> {
        self.pressed@
    }
}

fn fires_now(pressed: &Vec<HotkeyKey>, b: &Option<Vec<HotkeyKey>>) -> (r: bool)
    ensures
        r == fires(pressed@, keys_opt(*b)),
{
    match b {
        Some(c) => is_combo_pressed(pressed, c),
        None => false,
    }
}

impl HotkeyState {
    /// No key pressed.
    pub fn new() -> (r: HotkeyState)
        ensures
            r@ == Seq::<HotkeyKey>::empty(),
    {
        HotkeyState { pressed: Vec::new() }
    }

    /// A key went down: it joins the pressed keys, once, and the bindings
    /// now fully held fire, pause/resume first.
    pub fn on_press(&mut self, key: HotkeyKey, bindings: &HotkeyBindings) -> (r: Vec<HotkeyAction>)
        ensures
            final(self)@ == if old(self)@.contains(key) {
                old(self)@
            } else {
                old(self)@.push(key)
            },
            r@ == fired(final(self)@, keys_opt(bindings.pause_resume), keys_opt(bindings.screenshot)),
    {
        if !holds(&self.pressed, key) {
            self.pressed.push(key);
        }
        let mut out: Vec<HotkeyAction> = Vec::new();
        if fires_now(&self.pressed, &bindings.pause_resume) {
            out.push(HotkeyAction::PauseResume);
        }
        let ghost first = out@;
        if fires_now(&self.pressed, &bindings.screenshot) {
            out.push(HotkeyAction::Screenshot);
        }
        assert(out@ =~= fired(self@, keys_opt(bindings.pause_resume), keys_opt(bindings.screenshot)));
        out
    }

    /// A key went up: it leaves the pressed keys.
    pub fn on_release(&mut self, key: HotkeyKey)
        ensures
            final(self)@ == without(old(self)@, key),
    {
        let mut kept: Vec<HotkeyKey> = Vec::new();
        let mut i: usize = 0;
        let ghost p = self.pressed@;
        assert(p.subrange(0, 0) =~= Seq::<HotkeyKey>::empty());
        while i < self.pressed.len()
            invariant
                i <= p.len(),
                self.pressed@ == p,
                kept@ == without(p.subrange(0, i as int), key),
            decreases p.len() - i,
        {
            assert(p.subrange(0, i + 1).drop_last() =~= p.subrange(0, i as int));
            if self.pressed[i] != key {
                kept.push(self.pressed[i]);
            }
            i = i + 1;
        }
        assert(p.subrange(0, p.len() as int) =~= p);
        self.pressed = kept;
    }

    /// The keys held now, in the order they went down.
    pub fn pressed(&self) -> (r: Vec<HotkeyKey>)
        ensures
            r@ == self@,
    {
        let mut r: Vec<HotkeyKey> = Vec::new();
        let mut i: usize = 0;
        while i < self.pressed.len()
            invariant
                i <= self.pressed@.len(),
                r@ == self.pressed@.subrange(0, i as int),
            decreases self.pressed@.len() - i,
        {
            r.push(self.pressed[i]);
            assert(r@ =~= self.pressed@.subrange(0, i + 1));
            i = i + 1;
        }
        assert(r@ =~= self.pressed@);
        r
    }
}

} // verus!
