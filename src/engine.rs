//! The activity engine: a single-owner state machine that turns polled
//! key sets and window labels into log actions.
//!
//! The loop that polls the platform, sleeps, captures screens and appends
//! to the log files lives outside the library; at every tick it hands the
//! engine what it observed and performs the actions it gets back, in order.

use vstd::prelude::*;
use crate::text::{
    alnum_char, chars_of, ends_with, ends_with_chars, is_alnum, lower_of, lowercase,
    same_chars, string_of,
};

verus! {

/// A key as the key signal source reports it.
#[derive(Clone, Copy, Debug, PartialEq, Eq, Structural)]
pub enum Key {
    Key0,
    Key1,
    Key2,
    Key3,
    Key4,
    Key5,
    Key6,
    Key7,
    Key8,
    Key9,
    A,
    B,
    C,
    D,
    E,
    F,
    G,
    H,
    I,
    J,
    K,
    L,
    M,
    N,
    O,
    P,
    Q,
    R,
    S,
    T,
    U,
    V,
    W,
    X,
    Y,
    Z,
    Space,
    Comma,
    Dot,
    Apostrophe,
    Semicolon,
    Minus,
    Equal,
    Slash,
    BackSlash,
    Grave,
    LeftBracket,
    RightBracket,
    Enter,
    LShift,
    RShift,
    /// Any other key, under a code that tells such keys apart.
    Other(u16),
}

/// The character table: what a newly pressed key types, given whether a
/// shift key is held. Keys outside the table type nothing.
pub open spec fn glyph(k: Key, shift: bool) -> Option<char> {
    match k {
        Key::A => Some(if shift { 'A' } else { 'a' }),
        Key::B => Some(if shift { 'B' } else { 'b' }),
        Key::C => Some(if shift { 'C' } else { 'c' }),
        Key::D => Some(if shift { 'D' } else { 'd' }),
        Key::E => Some(if shift { 'E' } else { 'e' }),
        Key::F => Some(if shift { 'F' } else { 'f' }),
        Key::G => Some(if shift { 'G' } else { 'g' }),
        Key::H => Some(if shift { 'H' } else { 'h' }),
        Key::I => Some(if shift { 'I' } else { 'i' }),
        Key::J => Some(if shift { 'J' } else { 'j' }),
        Key::K => Some(if shift { 'K' } else { 'k' }),
        Key::L => Some(if shift { 'L' } else { 'l' }),
        Key::M => Some(if shift { 'M' } else { 'm' }),
        Key::N => Some(if shift { 'N' } else { 'n' }),
        Key::O => Some(if shift { 'O' } else { 'o' }),
        Key::P => Some(if shift { 'P' } else { 'p' }),
        Key::Q => Some(if shift { 'Q' } else { 'q' }),
        Key::R => Some(if shift { 'R' } else { 'r' }),
        Key::S => Some(if shift { 'S' } else { 's' }),
        Key::T => Some(if shift { 'T' } else { 't' }),
        Key::U => Some(if shift { 'U' } else { 'u' }),
        Key::V => Some(if shift { 'V' } else { 'v' }),
        Key::W => Some(if shift { 'W' } else { 'w' }),
        Key::X => Some(if shift { 'X' } else { 'x' }),
        Key::Y => Some(if shift { 'Y' } else { 'y' }),
        Key::Z => Some(if shift { 'Z' } else { 'z' }),
        Key::Key0 => Some(if shift { ')' } else { '0' }),
        Key::Key1 => Some(if shift { '!' } else { '1' }),
        Key::Key2 => Some(if shift { '@' } else { '2' }),
        Key::Key3 => Some(if shift { '#' } else { '3' }),
        Key::Key4 => Some(if shift { '$' } else { '4' }),
        Key::Key5 => Some(if shift { '%' } else { '5' }),
        Key::Key6 => Some(if shift { '^' } else { '6' }),
        Key::Key7 => Some(if shift { '&' } else { '7' }),
        Key::Key8 => Some(if shift { '*' } else { '8' }),
        Key::Key9 => Some(if shift { '(' } else { '9' }),
        Key::Space => Some(' '),
        Key::Comma => Some(if shift { '<' } else { ',' }),
        Key::Dot => Some(if shift { '>' } else { '.' }),
        Key::Apostrophe => Some(if shift { '"' } else { '\'' }),
        Key::Semicolon => Some(if shift { ':' } else { ';' }),
        Key::Minus => Some(if shift { '_' } else { '-' }),
        Key::Equal => Some(if shift { '+' } else { '=' }),
        Key::Slash => Some(if shift { '?' } else { '/' }),
        Key::BackSlash => Some(if shift { '|' } else { '\\' }),
        Key::Grave => Some(if shift { '~' } else { '`' }),
        Key::LeftBracket => Some(if shift { '{' } else { '[' }),
        Key::RightBracket => Some(if shift { '}' } else { ']' }),
        _ => None,
    }
}

/// Looks a key up in the character table.
pub fn keycode_to_char(key: &Key, shift: bool) -> (r: Option<char>)
    ensures
        r == glyph(*key, shift),
{
    match *key {
        Key::A => Some(if shift { 'A' } else { 'a' }),
        Key::B => Some(if shift { 'B' } else { 'b' }),
        Key::C => Some(if shift { 'C' } else { 'c' }),
        Key::D => Some(if shift { 'D' } else { 'd' }),
        Key::E => Some(if shift { 'E' } else { 'e' }),
        Key::F => Some(if shift { 'F' } else { 'f' }),
        Key::G => Some(if shift { 'G' } else { 'g' }),
        Key::H => Some(if shift { 'H' } else { 'h' }),
        Key::I => Some(if shift { 'I' } else { 'i' }),
        Key::J => Some(if shift { 'J' } else { 'j' }),
        Key::K => Some(if shift { 'K' } else { 'k' }),
        Key::L => Some(if shift { 'L' } else { 'l' }),
        Key::M => Some(if shift { 'M' } else { 'm' }),
        Key::N => Some(if shift { 'N' } else { 'n' }),
        Key::O => Some(if shift { 'O' } else { 'o' }),
        Key::P => Some(if shift { 'P' } else { 'p' }),
        Key::Q => Some(if shift { 'Q' } else { 'q' }),
        Key::R => Some(if shift { 'R' } else { 'r' }),
        Key::S => Some(if shift { 'S' } else { 's' }),
        Key::T => Some(if shift { 'T' } else { 't' }),
        Key::U => Some(if shift { 'U' } else { 'u' }),
        Key::V => Some(if shift { 'V' } else { 'v' }),
        Key::W => Some(if shift { 'W' } else { 'w' }),
        Key::X => Some(if shift { 'X' } else { 'x' }),
        Key::Y => Some(if shift { 'Y' } else { 'y' }),
        Key::Z => Some(if shift { 'Z' } else { 'z' }),
        Key::Key0 => Some(if shift { ')' } else { '0' }),
        Key::Key1 => Some(if shift { '!' } else { '1' }),
        Key::Key2 => Some(if shift { '@' } else { '2' }),
        Key::Key3 => Some(if shift { '#' } else { '3' }),
        Key::Key4 => Some(if shift { '$' } else { '4' }),
        Key::Key5 => Some(if shift { '%' } else { '5' }),
        Key::Key6 => Some(if shift { '^' } else { '6' }),
        Key::Key7 => Some(if shift { '&' } else { '7' }),
        Key::Key8 => Some(if shift { '*' } else { '8' }),
        Key::Key9 => Some(if shift { '(' } else { '9' }),
        Key::Space => Some(' '),
        Key::Comma => Some(if shift { '<' } else { ',' }),
        Key::Dot => Some(if shift { '>' } else { '.' }),
        Key::Apostrophe => Some(if shift { '"' } else { '\'' }),
        Key::Semicolon => Some(if shift { ':' } else { ';' }),
        Key::Minus => Some(if shift { '_' } else { '-' }),
        Key::Equal => Some(if shift { '+' } else { '=' }),
        Key::Slash => Some(if shift { '?' } else { '/' }),
        Key::BackSlash => Some(if shift { '|' } else { '\\' }),
        Key::Grave => Some(if shift { '~' } else { '`' }),
        Key::LeftBracket => Some(if shift { '{' } else { '[' }),
        Key::RightBracket => Some(if shift { '}' } else { ']' }),
        _ => None,
    }
}

/// A lower-cased window label that carries no information: the placeholder
/// `unknown`, a name ending in `.exe`, or one with no alphanumeric character
/// at all (the empty label among them).
pub open spec fn is_noise_lower(l: Seq<char>) -> bool {
    ||| l == "unknown"@
    ||| ends_with(l, ".exe"@)
    ||| forall|i: int| 0 <= i < l.len() ==> !alnum_char(#[trigger] l[i])
}

/// A window label that carries no information, compared case-insensitively.
pub open spec fn is_noise(title: Seq<char>) -> bool {
    is_noise_lower(lower_of(title))
}

/// Whether a lower-cased window label is noise.
pub fn is_noise_lowered(lower: &str) -> (r: bool)
    ensures
        r == is_noise_lower(lower@),
{
    let l = chars_of(lower);
    let unknown = chars_of("unknown");
    if same_chars(&l, &unknown) {
        return true;
    }
    let exe = chars_of(".exe");
    if ends_with_chars(&l, &exe) {
        return true;
    }
    let mut i: usize = 0;
    while i < l.len()
        invariant
            i <= l@.len(),
            l@ == lower@,
            l@ != "unknown"@,
            !ends_with(l@, ".exe"@),
            forall|k: int| 0 <= k < i ==> !alnum_char(#[trigger] l@[k]),
        decreases l@.len() - i,
    {
        if is_alnum(l[i]) {
            assert(alnum_char(l@[i as int]));
            return false;
        }
        i = i + 1;
    }
    true
}

/// Whether a window label is noise, to be dropped silently.
pub fn is_garbage_title(title: &str) -> (r: bool)
    ensures
        r == is_noise(title@),
{
    let lower = lowercase(title);
    is_noise_lowered(lower.as_str())
}

/// What the engine asks its host to do, in the order given.
pub enum EngineAction {
    /// Capture one screenshot now.
    Capture,
    /// Append a key log record.
    KeyEntry { window: String, input: String },
    /// Append a window log record.
    WindowEntry { title: String },
}

/// The mathematical value of an [`EngineAction`].
pub enum Act {
    Capture,
    KeyEntry { window: Seq<char>, input: Seq<char> },
    WindowEntry { title: Seq<char> },
}

impl View for EngineAction {
    type V = Act;

    open spec fn view(&self) -> Act {
        match self {
            EngineAction::Capture => Act::Capture,
            EngineAction::KeyEntry { window, input } => Act::KeyEntry { window: window@, input: input@ },
            EngineAction::WindowEntry { title } => Act::WindowEntry { title: title@ },
        }
    }
}

/// The values of a sequence of actions.
pub open spec fn acts_of(v: Seq<EngineAction>) -> Seq<Act> {
    v.map_values(|a: EngineAction| a@)
}

/// The mathematical value of an [`Engine`].
pub struct EngineState {
    pub timeout_secs: u64,
    pub capture: bool,
    pub last_keys: Seq<Key>,
    pub last_window: Seq<char>,
    pub line: Seq<char>,
    pub last_input: u64,
}

/// Session state of the activity engine: owned by the single polling loop
/// and never shared.
pub struct Engine {
    timeout_secs: u64,
    capture: bool,
    last_keys: Vec<Key>,
    last_window: String,
    line: Vec<char>,
    last_input: u64,
}

impl View for Engine {
    type V = EngineState;

    closed spec fn view(&self) -> EngineState {
        EngineState {
            timeout_secs: self.timeout_secs,
            capture: self.capture,
            last_keys: self.last_keys@,
            last_window: self.last_window@,
            line: self.line@,
            last_input: self.last_input,
        }
    }
}

/// Whether a shift key is among the pressed keys.
pub open spec fn shift_held(keys: Seq<Key>) -> bool {
    keys.contains(Key::LShift) || keys.contains(Key::RShift)
}

/// Whether two key lists hold the same keys, as sets.
pub open spec fn same_keys(a: Seq<Key>, b: Seq<Key>) -> bool {
    forall|k: Key| a.contains(k) == b.contains(k)
}

/// The actions of one flush: the screenshot first, when enabled, then the record.
pub open spec fn flush_acts(capture: bool, window: Seq<char>, line: Seq<char>) -> Seq<Act> {
    if capture {
        seq![Act::Capture, Act::KeyEntry { window, input: line }]
    } else {
        seq![Act::KeyEntry { window, input: line }]
    }
}

/// The effect of one key of the current poll on the buffer and the actions.
pub open spec fn press(
    k: Key,
    prev: Seq<Key>,
    shift: bool,
    capture: bool,
    window: Seq<char>,
    line: Seq<char>,
    acts: Seq<Act>,
) -> (Seq<char>, Seq<Act>) {
    if prev.contains(k) {
        (line, acts)
    } else if glyph(k, shift) is Some {
        (line.push(glyph(k, shift)->0), acts)
    } else if k == Key::Enter && line.len() > 0 {
        (Seq::empty(), acts + flush_acts(capture, window, line))
    } else {
        (line, acts)
    }
}

/// The keys of one poll, taken in order: newly pressed keys type their
/// character, and a newly pressed Enter flushes a non-empty buffer.
pub open spec fn presses(
    keys: Seq<Key>,
    prev: Seq<Key>,
    shift: bool,
    capture: bool,
    window: Seq<char>,
    line: Seq<char>,
) -> (Seq<char>, Seq<Act>)
    decreases keys.len(),
{
    if keys.len() == 0 {
        (line, Seq::empty())
    } else {
        let (l, a) = presses(keys.drop_last(), prev, shift, capture, window, line);
        press(keys.last(), prev, shift, capture, window, l, a)
    }
}

/// Whether more than the timeout has passed between `last` and `now` (milliseconds).
pub open spec fn idle(timeout_secs: u64, last: u64, now: u64) -> bool {
    now > last && now - last > timeout_secs * 1000
}

/// One poll of the engine at time `now` (milliseconds), with the keys held
/// and the window label observed: the next state and the actions, in order.
pub open spec fn step(s: EngineState, now: u64, keys: Seq<Key>, window: Option<Seq<char>>) -> (
    EngineState,
    Seq<Act>,
) {
    let (line1, acts1) = presses(
        keys,
        s.last_keys,
        shift_held(keys),
        s.capture,
        s.last_window,
        s.line,
    );
    let last_input = if same_keys(keys, s.last_keys) {
        s.last_input
    } else {
        now
    };
    let timed_out = idle(s.timeout_secs, last_input, now) && line1.len() > 0;
    let line2 = if timed_out {
        Seq::empty()
    } else {
        line1
    };
    let acts2 = if timed_out {
        acts1 + flush_acts(s.capture, s.last_window, line1)
    } else {
        acts1
    };
    let new_title = window is Some && !is_noise(window->0) && window->0 != s.last_window;
    let last_window = if new_title {
        window->0
    } else {
        s.last_window
    };
    let acts3 = if new_title {
        acts2.push(Act::WindowEntry { title: window->0 })
    } else {
        acts2
    };
    (EngineState { last_keys: keys, last_window, line: line2, last_input, ..s }, acts3)
}

/// The value of an observed window label.
pub open spec fn label_of(window: Option<String>) -> Option<Seq<char>> {
    match window {
        Some(t) => Some(t@),
        None => None,
    }
}

/// Whether `k` is in `keys`.
fn holds_key(keys: &Vec<Key>, k: Key) -> (r: bool)
    ensures
        r == keys@.contains(k),
{
    let mut i: usize = 0;
    while i < keys.len()
        invariant
            i <= keys@.len(),
            forall|j: int| 0 <= j < i ==> keys@[j] != k,
        decreases keys@.len() - i,
    {
        if keys[i] == k {
            return true;
        }
        i = i + 1;
    }
    false
}

/// Whether every key of `a` is in `b`.
fn keys_within(a: &Vec<Key>, b: &Vec<Key>) -> (r: bool)
    ensures
        r == (forall|k: Key| a@.contains(k) ==> b@.contains(k)),
{
    let mut i: usize = 0;
    while i < a.len()
        invariant
            i <= a@.len(),
            forall|j: int| 0 <= j < i ==> b@.contains(#[trigger] a@[j]),
        decreases a@.len() - i,
    {
        if !holds_key(b, a[i]) {
            assert(a@.contains(a@[i as int]));
            return false;
        }
        i = i + 1;
    }
    true
}

/// A copy of a key list.
fn copy_keys(v: &Vec<Key>) -> (r: Vec<Key>)
    ensures
        r@ == v@,
{
    let mut r: Vec<Key> = Vec::new();
    let mut i: usize = 0;
    while i < v.len()
        invariant
            i <= v@.len(),
            r@ == v@.subrange(0, i as int),
        decreases v@.len() - i,
    {
        r.push(v[i]);
        assert(r@ =~= v@.subrange(0, i + 1));
        i = i + 1;
    }
    assert(r@ =~= v@);
    r
}

impl Engine {
    /// A fresh session at time `now` (milliseconds): no keys held, no window
    /// seen, an empty buffer, and `now` as the last input activity.
    pub fn new(timeout_secs: u64, capture: bool, now: u64) -> (r: Engine)
        ensures
            r@ == (EngineState {
                timeout_secs,
                capture,
                last_keys: Seq::empty(),
                last_window: Seq::empty(),
                line: Seq::empty(),
                last_input: now,
            }),
    {
        Engine {
            timeout_secs,
            capture,
            last_keys: Vec::new(),
            last_window: String::new(),
            line: Vec::new(),
            last_input: now,
        }
    }

    /// The text typed since the last flush.
    pub fn pending_input(&self) -> (r: String)
        ensures
            r@ == self@.line,
    {
        string_of(&self.line)
    }

    /// The last window label that was logged.
    pub fn last_window(&self) -> (r: String)
        ensures
            r@ == self@.last_window,
    {
        self.last_window.clone()
    }

    /// Flushes the buffer: the screenshot action when enabled, then the record.
    fn flush(&mut self, acts: &mut Vec<EngineAction>)
        ensures
            acts_of(final(acts)@) == acts_of(old(acts)@) + flush_acts(
                old(self)@.capture,
                old(self)@.last_window,
                old(self)@.line,
            ),
            final(self)@ == (EngineState { line: Seq::empty(), ..old(self)@ }),
    {
        let ghost a0 = acts@;
        if self.capture {
            acts.push(EngineAction::Capture);
        }
        let input = string_of(&self.line);
        acts.push(EngineAction::KeyEntry { window: self.last_window.clone(), input });
        self.line = Vec::new();
        assert(acts_of(acts@) =~= acts_of(a0) + flush_acts(
            old(self)@.capture,
            old(self)@.last_window,
            old(self)@.line,
        ));
    }

    /// One poll at time `now` (milliseconds since any fixed origin), with the
    /// keys held now, in the order the source lists them, and the label of
    /// the focused window, if any. Returns the actions to perform, in order.
    pub fn poll(&mut self, now: u64, keys: &Vec<Key>, window: Option<String>) -> (r: Vec<
        EngineAction,
    >)
        ensures
            final(self)@ == step(old(self)@, now, keys@, label_of(window)).0,
            acts_of(r@) == step(old(self)@, now, keys@, label_of(window)).1,
    {
        let ghost s0 = self@;
        let shift = holds_key(keys, Key::LShift) || holds_key(keys, Key::RShift);
        let mut acts: Vec<EngineAction> = Vec::new();
        let mut i: usize = 0;
        assert(keys@.subrange(0, 0) =~= Seq::<Key>::empty());
        assert(acts_of(acts@) =~= Seq::<Act>::empty());
        while i < keys.len()
            invariant
                i <= keys@.len(),
                shift == shift_held(keys@),
                self@ == (EngineState { line: self@.line, ..s0 }),
                (self@.line, acts_of(acts@)) == presses(
                    keys@.subrange(0, i as int),
                    s0.last_keys,
                    shift,
                    s0.capture,
                    s0.last_window,
                    s0.line,
                ),
            decreases keys@.len() - i,
        {
            let k = keys[i];
            let ghost pre = keys@.subrange(0, i as int);
            assert(keys@.subrange(0, i + 1).drop_last() =~= pre);
            if !holds_key(&self.last_keys, k) {
                match keycode_to_char(&k, shift) {
                    Some(c) => {
                        self.line.push(c);
                    },
                    None => {
                        if k == Key::Enter && self.line.len() > 0 {
                            self.flush(&mut acts);
                        }
                    },
                }
            }
            i = i + 1;
        }
        assert(keys@.subrange(0, keys@.len() as int) =~= keys@);
        let ghost line1 = self@.line;
        let ghost acts1 = acts_of(acts@);
        if !(keys_within(keys, &self.last_keys) && keys_within(&self.last_keys, keys)) {
            self.last_input = now;
        }
        let elapsed: u64 = if now > self.last_input {
            now - self.last_input
        } else {
            0
        };
        if (elapsed as u128) > (self.timeout_secs as u128) * 1000 && self.line.len() > 0 {
            self.flush(&mut acts);
        }
        self.last_keys = copy_keys(keys);
        match window {
            Some(t) => {
                if !is_garbage_title(t.as_str()) && !(t == self.last_window) {
                    acts.push(EngineAction::WindowEntry { title: t.clone() });
                    self.last_window = t;
                }
            },
            None => {},
        }
        acts
    }
}

/// The inputs of the key log records among `acts`, in order.
pub open spec fn key_inputs(acts: Seq<Act>) -> Seq<Seq<char>>
    decreases acts.len(),
{
    if acts.len() == 0 {
        Seq::empty()
    } else {
        let rest = key_inputs(acts.drop_last());
        match acts.last() {
            Act::KeyEntry { input, .. } => rest.push(input),
            _ => rest,
        }
    }
}

/// The titles of the window log records among `acts`, in order.
pub open spec fn window_titles(acts: Seq<Act>) -> Seq<Seq<char>>
    decreases acts.len(),
{
    if acts.len() == 0 {
        Seq::empty()
    } else {
        let rest = window_titles(acts.drop_last());
        match acts.last() {
            Act::WindowEntry { title } => rest.push(title),
            _ => rest,
        }
    }
}

/// Every key log record among `acts` comes right after a screenshot when
/// capture is on, and every screenshot comes right before a key log record.
pub open spec fn capture_paired(acts: Seq<Act>, capture: bool) -> bool {
    &&& forall|i: int|
        0 <= i < acts.len() && (#[trigger] acts[i]) is KeyEntry && capture ==> i > 0 && acts[i
            - 1] is Capture
    &&& forall|i: int|
        0 <= i < acts.len() && (#[trigger] acts[i]) is Capture ==> capture && i + 1 < acts.len()
            && acts[i + 1] is KeyEntry
}

proof fn lemma_key_inputs_concat(a: Seq<Act>, b: Seq<Act>)
    ensures
        key_inputs(a + b) == key_inputs(a) + key_inputs(b),
        window_titles(a + b) == window_titles(a) + window_titles(b),
    decreases b.len(),
{
    if b.len() == 0 {
        assert(a + b =~= a);
        assert(key_inputs(a) + key_inputs(b) =~= key_inputs(a));
        assert(window_titles(a) + window_titles(b) =~= window_titles(a));
    } else {
        assert((a + b).drop_last() =~= a + b.drop_last());
        lemma_key_inputs_concat(a, b.drop_last());
        match b.last() {
            Act::KeyEntry { input, .. } => {
                assert(key_inputs(a) + key_inputs(b) =~= (key_inputs(a) + key_inputs(b.drop_last())).push(input));
            },
            Act::WindowEntry { title } => {
                assert(window_titles(a) + window_titles(b) =~= (window_titles(a) + window_titles(b.drop_last())).push(title));
            },
            _ => {},
        }
    }
}

proof fn lemma_flush_acts(capture: bool, window: Seq<char>, line: Seq<char>)
    ensures
        key_inputs(flush_acts(capture, window, line)) == seq![line],
        window_titles(flush_acts(capture, window, line)) == Seq::<Seq<char>>::empty(),
        capture_paired(flush_acts(capture, window, line), capture),
{
    let f = flush_acts(capture, window, line);
    let e = Seq::<Act>::empty();
    assert(key_inputs(e) == Seq::<Seq<char>>::empty());
    assert(window_titles(e) == Seq::<Seq<char>>::empty());
    if capture {
        let c = seq![Act::Capture];
        assert(c.drop_last() =~= e);
        assert(key_inputs(c) == Seq::<Seq<char>>::empty());
        assert(window_titles(c) == Seq::<Seq<char>>::empty());
        assert(f.drop_last() =~= c);
        assert(f.last() == Act::KeyEntry { window, input: line });
    } else {
        assert(f.drop_last() =~= e);
        assert(f.last() == Act::KeyEntry { window, input: line });
    }
    assert(key_inputs(f) =~= seq![line]);
    assert(window_titles(f) =~= Seq::<Seq<char>>::empty());
}

proof fn lemma_paired_concat(a: Seq<Act>, b: Seq<Act>, capture: bool)
    requires
        capture_paired(a, capture),
        capture_paired(b, capture),
    ensures
        capture_paired(a + b, capture),
{
    let c = a + b;
    assert forall|i: int| 0 <= i < c.len() && (#[trigger] c[i]) is KeyEntry && capture implies i
        > 0 && c[i - 1] is Capture by {
        if i >= a.len() {
            assert(b[i - a.len()] is KeyEntry);
        } else {
            assert(a[i] is KeyEntry);
        }
    }
    assert forall|i: int| 0 <= i < c.len() && (#[trigger] c[i]) is Capture implies capture && i
        + 1 < c.len() && c[i + 1] is KeyEntry by {
        if i >= a.len() {
            assert(b[i - a.len()] is Capture);
        } else {
            assert(a[i] is Capture);
        }
    }
}

/// What one poll's keys produce: only flushes of non-empty buffers, each
/// screenshot paired with its record, and no window record.
proof fn lemma_presses(
    keys: Seq<Key>,
    prev: Seq<Key>,
    shift: bool,
    capture: bool,
    window: Seq<char>,
    line: Seq<char>,
)
    ensures
        ({
            let (l, a) = presses(keys, prev, shift, capture, window, line);
            &&& forall|i: int|
                0 <= i < key_inputs(a).len() ==> (#[trigger] key_inputs(a)[i]).len() > 0
            &&& window_titles(a) == Seq::<Seq<char>>::empty()
            &&& capture_paired(a, capture)
            &&& (forall|j: int| 0 <= j < keys.len() ==> prev.contains(#[trigger] keys[j])) ==> (l
                == line && a == Seq::<Act>::empty())
            &&& (!keys.contains(Key::Enter) || prev.contains(Key::Enter)) ==> a
                == Seq::<Act>::empty()
        }),
    decreases keys.len(),
{
    if keys.len() == 0 {
        assert(key_inputs(Seq::<Act>::empty()) =~= Seq::<Seq<char>>::empty());
    } else {
        let rest = keys.drop_last();
        lemma_presses(rest, prev, shift, capture, window, line);
        let (l, a) = presses(rest, prev, shift, capture, window, line);
        let k = keys.last();
        if (forall|j: int| 0 <= j < keys.len() ==> prev.contains(#[trigger] keys[j])) {
            assert forall|j: int| 0 <= j < rest.len() implies prev.contains(#[trigger] rest[j]) by {
                assert(rest[j] == keys[j]);
            }
            assert(prev.contains(keys[keys.len() - 1]));
        }
        if !keys.contains(Key::Enter) {
            assert forall|j: int| 0 <= j < rest.len() implies rest[j] != Key::Enter by {
                assert(rest[j] == keys[j]);
            }
            assert(!rest.contains(Key::Enter));
            assert(k != Key::Enter);
        }
        if !prev.contains(k) && glyph(k, shift) is None && k == Key::Enter && l.len() > 0 {
            lemma_flush_acts(capture, window, l);
            lemma_key_inputs_concat(a, flush_acts(capture, window, l));
            lemma_paired_concat(a, flush_acts(capture, window, l), capture);
            let ki = key_inputs(a + flush_acts(capture, window, l));
            assert forall|i: int| 0 <= i < ki.len() implies (#[trigger] ki[i]).len() > 0 by {
                if i < key_inputs(a).len() {
                    assert(ki[i] == key_inputs(a)[i]);
                } else {
                    assert(ki[i] == l);
                }
            }
            assert(keys.contains(Key::Enter)) by {
                assert(keys[keys.len() - 1] == Key::Enter);
            }
        }
    }
}

proof fn lemma_push_window(a: Seq<Act>, title: Seq<char>, capture: bool)
    requires
        capture_paired(a, capture),
    ensures
        key_inputs(a.push(Act::WindowEntry { title })) == key_inputs(a),
        window_titles(a.push(Act::WindowEntry { title })) == window_titles(a).push(title),
        capture_paired(a.push(Act::WindowEntry { title }), capture),
{
    let b = a.push(Act::WindowEntry { title });
    assert(b.drop_last() =~= a);
    assert forall|i: int| 0 <= i < b.len() && (#[trigger] b[i]) is Capture implies capture && i
        + 1 < b.len() && b[i + 1] is KeyEntry by {
        assert(i < a.len());
        assert(a[i] is Capture);
    }
    assert forall|i: int| 0 <= i < b.len() && (#[trigger] b[i]) is KeyEntry && capture implies i
        > 0 && b[i - 1] is Capture by {
        assert(i < a.len());
        assert(a[i] is KeyEntry);
    }
}

/// The facts about one poll that the laws below rest on.
proof fn lemma_step(s: EngineState, now: u64, keys: Seq<Key>, window: Option<Seq<char>>)
    ensures
        ({
            let (l1, a1) = presses(keys, s.last_keys, shift_held(keys), s.capture, s.last_window, s.line);
            let (t, acts) = step(s, now, keys, window);
            let new_title = window is Some && !is_noise(window->0) && window->0 != s.last_window;
            let timed_out = t.line.len() == 0 && l1.len() > 0;
            &&& forall|i: int|
                0 <= i < key_inputs(acts).len() ==> (#[trigger] key_inputs(acts)[i]).len() > 0
            &&& capture_paired(acts, s.capture)
            &&& key_inputs(acts) == if timed_out {
                key_inputs(a1).push(l1)
            } else {
                key_inputs(a1)
            }
            &&& window_titles(acts) == if new_title {
                seq![window->0]
            } else {
                Seq::<Seq<char>>::empty()
            }
            &&& timed_out ==> idle(s.timeout_secs, t.last_input, now)
            &&& !timed_out ==> t.line == l1
        }),
{
    let (l1, a1) = presses(keys, s.last_keys, shift_held(keys), s.capture, s.last_window, s.line);
    lemma_presses(keys, s.last_keys, shift_held(keys), s.capture, s.last_window, s.line);
    let last_input = if same_keys(keys, s.last_keys) {
        s.last_input
    } else {
        now
    };
    let timed_out = idle(s.timeout_secs, last_input, now) && l1.len() > 0;
    let a2 = if timed_out {
        a1 + flush_acts(s.capture, s.last_window, l1)
    } else {
        a1
    };
    if timed_out {
        lemma_flush_acts(s.capture, s.last_window, l1);
        lemma_key_inputs_concat(a1, flush_acts(s.capture, s.last_window, l1));
        lemma_paired_concat(a1, flush_acts(s.capture, s.last_window, l1), s.capture);
        assert(key_inputs(a1) + seq![l1] =~= key_inputs(a1).push(l1));
        assert(window_titles(a1) + Seq::<Seq<char>>::empty() =~= window_titles(a1));
        let ki = key_inputs(a2);
        assert forall|i: int| 0 <= i < ki.len() implies (#[trigger] ki[i]).len() > 0 by {
            if i < key_inputs(a1).len() {
                assert(ki[i] == key_inputs(a1)[i]);
            }
        }
    }
    let new_title = window is Some && !is_noise(window->0) && window->0 != s.last_window;
    if new_title {
        lemma_push_window(a2, window->0, s.capture);
        assert(Seq::<Seq<char>>::empty().push(window->0) =~= seq![window->0]);
    }
}

/// Debounce, while typing: a poll that comes no later than the timeout after
/// the last change of the key set, and in which Enter is not newly pressed,
/// writes no key log record.
pub proof fn lemma_no_flush_within_timeout(
    s: EngineState,
    now: u64,
    keys: Seq<Key>,
    window: Option<Seq<char>>,
)
    requires
        !idle(s.timeout_secs, s.last_input, now),
        !keys.contains(Key::Enter) || s.last_keys.contains(Key::Enter),
    ensures
        key_inputs(step(s, now, keys, window).1) == Seq::<Seq<char>>::empty(),
{
    lemma_step(s, now, keys, window);
    lemma_presses(keys, s.last_keys, shift_held(keys), s.capture, s.last_window, s.line);
    assert(key_inputs(Seq::<Act>::empty()) =~= Seq::<Seq<char>>::empty());
}

/// Debounce, after a pause: once more than the timeout has passed since the
/// last change of the key set, a poll with an unchanged key set flushes the
/// pending text as exactly one record, and a further poll with the same keys
/// flushes nothing more.
pub proof fn lemma_pause_flushes_once(
    s: EngineState,
    now: u64,
    keys: Seq<Key>,
    window: Option<Seq<char>>,
    later: u64,
    next_window: Option<Seq<char>>,
)
    requires
        same_keys(keys, s.last_keys),
        s.line.len() > 0,
        idle(s.timeout_secs, s.last_input, now),
    ensures
        key_inputs(step(s, now, keys, window).1) == seq![s.line],
        step(s, now, keys, window).0.line == Seq::<char>::empty(),
        key_inputs(step(step(s, now, keys, window).0, later, keys, next_window).1) == Seq::<
            Seq<char>,
        >::empty(),
{
    let t = step(s, now, keys, window).0;
    assert forall|j: int| 0 <= j < keys.len() implies s.last_keys.contains(#[trigger] keys[j]) by {
        assert(keys.contains(keys[j]));
    }
    lemma_presses(keys, s.last_keys, shift_held(keys), s.capture, s.last_window, s.line);
    lemma_step(s, now, keys, window);
    assert(key_inputs(Seq::<Act>::empty()) =~= Seq::<Seq<char>>::empty());
    assert(Seq::<Seq<char>>::empty().push(s.line) =~= seq![s.line]);
    assert forall|j: int| 0 <= j < keys.len() implies t.last_keys.contains(#[trigger] keys[j]) by {
        assert(keys.contains(keys[j]));
    }
    lemma_presses(keys, t.last_keys, shift_held(keys), t.capture, t.last_window, t.line);
    lemma_step(t, later, keys, next_window);
}

/// Terminator: a poll in which Enter is the one newly pressed key flushes a
/// non-empty buffer at once, whatever the time.
pub proof fn lemma_enter_flushes(s: EngineState, now: u64, window: Option<Seq<char>>)
    requires
        !s.last_keys.contains(Key::Enter),
        s.line.len() > 0,
    ensures
        key_inputs(step(s, now, s.last_keys.push(Key::Enter), window).1) == seq![s.line],
        step(s, now, s.last_keys.push(Key::Enter), window).0.line == Seq::<char>::empty(),
{
    let keys = s.last_keys.push(Key::Enter);
    let shift = shift_held(keys);
    assert(keys.drop_last() =~= s.last_keys);
    assert forall|j: int| 0 <= j < s.last_keys.len() implies s.last_keys.contains(
        #[trigger] s.last_keys[j],
    ) by {}
    lemma_presses(s.last_keys, s.last_keys, shift, s.capture, s.last_window, s.line);
    lemma_flush_acts(s.capture, s.last_window, s.line);
    assert(Seq::<Act>::empty() + flush_acts(s.capture, s.last_window, s.line) =~= flush_acts(
        s.capture,
        s.last_window,
        s.line,
    ));
    assert(keys.contains(Key::Enter)) by {
        assert(keys[keys.len() - 1] == Key::Enter);
    }
    assert(!same_keys(keys, s.last_keys));
    lemma_step(s, now, keys, window);
}

/// A flush never writes an empty buffer: every key log record of a poll
/// carries non-empty input.
pub proof fn lemma_records_not_empty(
    s: EngineState,
    now: u64,
    keys: Seq<Key>,
    window: Option<Seq<char>>,
)
    ensures
        forall|i: int|
            0 <= i < key_inputs(step(s, now, keys, window).1).len() ==> (#[trigger] key_inputs(
                step(s, now, keys, window).1,
            )[i]).len() > 0,
{
    lemma_step(s, now, keys, window);
}

/// Noise labels never produce a window record.
pub proof fn lemma_noise_not_logged(s: EngineState, now: u64, keys: Seq<Key>, title: Seq<char>)
    requires
        is_noise(title),
    ensures
        window_titles(step(s, now, keys, Some(title)).1) == Seq::<Seq<char>>::empty(),
{
    lemma_step(s, now, keys, Some(title));
}

/// Window deduplication: a label seen on two polls in a row produces at
/// most one window record, on the first of them, and only when it differs
/// from the last logged label and is not noise.
pub proof fn lemma_window_logged_once(
    s: EngineState,
    now: u64,
    keys: Seq<Key>,
    later: u64,
    next_keys: Seq<Key>,
    title: Seq<char>,
)
    ensures
        window_titles(step(s, now, keys, Some(title)).1) == if !is_noise(title) && title
            != s.last_window {
            seq![title]
        } else {
            Seq::<Seq<char>>::empty()
        },
        window_titles(step(step(s, now, keys, Some(title)).0, later, next_keys, Some(title)).1)
            == Seq::<Seq<char>>::empty(),
{
    lemma_step(s, now, keys, Some(title));
    lemma_step(step(s, now, keys, Some(title)).0, later, next_keys, Some(title));
}

/// Screenshot ordering: with capture on, every key log record of a poll comes
/// right after its screenshot; with capture off there is no screenshot; and
/// no screenshot stands without its key log record, so window changes never
/// take one.
pub proof fn lemma_capture_precedes_record(
    s: EngineState,
    now: u64,
    keys: Seq<Key>,
    window: Option<Seq<char>>,
)
    ensures
        capture_paired(step(s, now, keys, window).1, s.capture),
{
    lemma_step(s, now, keys, window);
}

/// One observation handed to the engine: the time (milliseconds), the keys
/// held and the window label.
pub struct Poll {
    pub at: u64,
    pub keys: Seq<Key>,
    pub window: Option<Seq<char>>,
}

/// A run of polls from state `s`: the final state and all actions, in order.
pub open spec fn run(s: EngineState, polls: Seq<Poll>) -> (EngineState, Seq<Act>)
    decreases polls.len(),
{
    if polls.len() == 0 {
        (s, Seq::empty())
    } else {
        let (t, a) = run(s, polls.drop_last());
        let p = polls.last();
        let (u, b) = step(t, p.at, p.keys, p.window);
        (u, a + b)
    }
}

/// Whether every poll of a run changes the key set and comes no later than
/// the timeout after the poll before it (the first: after the state's last
/// input), and no poll holds Enter.
pub open spec fn typing_run(s: EngineState, polls: Seq<Poll>) -> bool {
    &&& forall|i: int| 0 <= i < polls.len() ==> !(#[trigger] polls[i]).keys.contains(Key::Enter)
    &&& polls.len() > 0 ==> !same_keys(polls[0].keys, s.last_keys) && !idle(
        s.timeout_secs,
        s.last_input,
        polls[0].at,
    )
    &&& forall|i: int|
        0 < i < polls.len() ==> !same_keys(#[trigger] polls[i].keys, polls[i - 1].keys) && !idle(
            s.timeout_secs,
            polls[i - 1].at,
            polls[i].at,
        )
}

/// Debounce over a whole run: while the key set keeps changing at intervals
/// no longer than the timeout, without Enter, no key log record is written,
/// however long the run.
pub proof fn lemma_typing_run_never_flushes(s: EngineState, polls: Seq<Poll>)
    requires
        typing_run(s, polls),
    ensures
        key_inputs(run(s, polls).1) == Seq::<Seq<char>>::empty(),
        run(s, polls).0.timeout_secs == s.timeout_secs,
        polls.len() > 0 ==> run(s, polls).0.last_input == polls.last().at && run(
            s,
            polls,
        ).0.last_keys == polls.last().keys,
    decreases polls.len(),
{
    if polls.len() == 0 {
        assert(key_inputs(Seq::<Act>::empty()) =~= Seq::<Seq<char>>::empty());
    } else {
        let rest = polls.drop_last();
        assert forall|i: int| 0 <= i < rest.len() implies !(#[trigger] rest[i]).keys.contains(
            Key::Enter,
        ) by {
            assert(rest[i] == polls[i]);
        }
        assert forall|i: int| 0 < i < rest.len() implies !same_keys(
            #[trigger] rest[i].keys,
            rest[i - 1].keys,
        ) && !idle(s.timeout_secs, rest[i - 1].at, rest[i].at) by {
            assert(rest[i] == polls[i]);
            assert(rest[i - 1] == polls[i - 1]);
        }
        if rest.len() > 0 {
            assert(rest[0] == polls[0]);
        }
        lemma_typing_run_never_flushes(s, rest);
        let (t, a) = run(s, rest);
        let p = polls.last();
        assert(p == polls[polls.len() - 1]);
        assert(!p.keys.contains(Key::Enter));
        if rest.len() > 0 {
            assert(rest.last() == polls[polls.len() - 2]);
        }
        assert(!same_keys(p.keys, t.last_keys));
        lemma_no_flush_within_timeout(t, p.at, p.keys, p.window);
        lemma_key_inputs_concat(a, step(t, p.at, p.keys, p.window).1);
        assert(Seq::<Seq<char>>::empty() + Seq::<Seq<char>>::empty() =~= Seq::<Seq<char>>::empty());
    }
}

} // verus!
