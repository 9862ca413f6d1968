//! Hotkey chords: their grammar, their canonical text, and what each action is called.
use vstd::prelude::*;
use vstd::string::*;

use crate::text::{
    ascii_lower, chars_of, debug_text, decimal, decimal_text, digit, ends_with,
    eq_ignore_ascii_case,
    is_whitespace, join, law_decimals_read_back, lemma_join_ends, lemma_split_join,
    lemma_trimmed_same, lowered, number_in, quoted, same_ignoring_case, split, split_text, starts_with,
    texts, trim, trimmed,
};

verus! {

/// What a hotkey asks for.
#[derive(Clone, Copy, Debug, Eq, Hash, Ord, PartialEq, PartialOrd, Structural)]
pub enum HotkeyAction {
    LastWorkflow,
    Region,
    Window,
    FullDisplay,
    RepeatLastRegion,
}

impl HotkeyAction {
    /// Every action, in registration order.
    pub open spec fn all() -> Seq<HotkeyAction> {
        seq![
            HotkeyAction::LastWorkflow,
            HotkeyAction::Region,
            HotkeyAction::Window,
            HotkeyAction::FullDisplay,
            HotkeyAction::RepeatLastRegion,
        ]
    }

    /// The name of the action in configuration files and logs.
    pub open spec fn name(self) -> Seq<char> {
        match self {
            HotkeyAction::LastWorkflow => "last_workflow"@,
            HotkeyAction::Region => "region"@,
            HotkeyAction::Window => "window"@,
            HotkeyAction::FullDisplay => "full_display"@,
            HotkeyAction::RepeatLastRegion => "repeat_last_region"@,
        }
    }

    /// Every action, in registration order.
    pub fn every() -> (actions: Vec<HotkeyAction>)
        ensures
            actions@ == Self::all(),
    {
        vec![
            HotkeyAction::LastWorkflow,
            HotkeyAction::Region,
            HotkeyAction::Window,
            HotkeyAction::FullDisplay,
            HotkeyAction::RepeatLastRegion,
        ]
    }

    /// The name of the action in configuration files and logs.
    pub fn as_str(self) -> (name: &'static str)
        ensures
            name@ == self.name(),
    {
        match self {
            HotkeyAction::LastWorkflow => "last_workflow",
            HotkeyAction::Region => "region",
            HotkeyAction::Window => "window",
            HotkeyAction::FullDisplay => "full_display",
            HotkeyAction::RepeatLastRegion => "repeat_last_region",
        }
    }

    /// The position of the action in [`HotkeyAction::every`].
    pub fn registration_index(self) -> (index: i32)
        ensures
            0 <= index < Self::all().len(),
            Self::all()[index as int] == self,
    {
        match self {
            HotkeyAction::LastWorkflow => 0,
            HotkeyAction::Region => 1,
            HotkeyAction::Window => 2,
            HotkeyAction::FullDisplay => 3,
            HotkeyAction::RepeatLastRegion => 4,
        }
    }
}

/// The key of a chord, by its ASCII capital, its ASCII digit, or its function-key number.
#[derive(Clone, Copy, Debug, Eq, Hash, Ord, PartialEq, PartialOrd, Structural)]
pub enum HotkeyKey {
    Letter(u8),
    Digit(u8),
    Function(u8),
}

impl HotkeyKey {
    /// Whether a chord can hold this key.
    pub open spec fn valid(self) -> bool {
        match self {
            HotkeyKey::Letter(code) => 'A' as int <= code <= 'Z' as int,
            HotkeyKey::Digit(code) => '0' as int <= code <= '9' as int,
            HotkeyKey::Function(number) => 1 <= number <= 24,
        }
    }

    /// The canonical text of the key.
    pub open spec fn text(self) -> Seq<char> {
        match self {
            HotkeyKey::Letter(code) => seq![code as char],
            HotkeyKey::Digit(code) => seq![code as char],
            HotkeyKey::Function(number) => seq!['F'] + decimal(number as nat),
        }
    }
}

/// A key that is held while another one is pressed.
#[derive(Clone, Copy, Debug, Eq, PartialEq, Structural)]
pub enum Modifier {
    Ctrl,
    Alt,
    Shift,
    Win,
}

impl Modifier {
    /// The canonical name of the modifier.
    pub open spec fn label(self) -> Seq<char> {
        match self {
            Modifier::Ctrl => "Ctrl"@,
            Modifier::Alt => "Alt"@,
            Modifier::Shift => "Shift"@,
            Modifier::Win => "Win"@,
        }
    }

    fn as_label(self) -> (label: &'static str)
        ensures
            label@ == self.label(),
    {
        match self {
            Modifier::Ctrl => "Ctrl",
            Modifier::Alt => "Alt",
            Modifier::Shift => "Shift",
            Modifier::Win => "Win",
        }
    }
}

/// The modifiers of a chord.
#[derive(Clone, Copy, Debug, Eq, Hash, Ord, PartialEq, PartialOrd, Structural)]
pub struct HotkeyModifiers {
    win: bool,
    shift: bool,
    alt: bool,
    ctrl: bool,
}

impl HotkeyModifiers {
    /// Whether the modifier is held.
    pub closed spec fn holds(self, modifier: Modifier) -> bool {
        match modifier {
            Modifier::Ctrl => self.ctrl,
            Modifier::Alt => self.alt,
            Modifier::Shift => self.shift,
            Modifier::Win => self.win,
        }
    }

    /// The modifiers for which `held` is true.
    pub closed spec fn of(held: spec_fn(Modifier) -> bool) -> HotkeyModifiers {
        HotkeyModifiers {
            win: held(Modifier::Win),
            shift: held(Modifier::Shift),
            alt: held(Modifier::Alt),
            ctrl: held(Modifier::Ctrl),
        }
    }

    /// No modifier at all.
    pub open spec fn none() -> HotkeyModifiers {
        Self::of(|m: Modifier| false)
    }

    /// These modifiers and one more.
    pub open spec fn with(self, modifier: Modifier) -> HotkeyModifiers {
        Self::of(|m: Modifier| m == modifier || self.holds(m))
    }

    pub fn ctrl(self) -> (held: bool)
        ensures
            held == self.holds(Modifier::Ctrl),
    {
        self.ctrl
    }

    pub fn alt(self) -> (held: bool)
        ensures
            held == self.holds(Modifier::Alt),
    {
        self.alt
    }

    pub fn shift(self) -> (held: bool)
        ensures
            held == self.holds(Modifier::Shift),
    {
        self.shift
    }

    pub fn win(self) -> (held: bool)
        ensures
            held == self.holds(Modifier::Win),
    {
        self.win
    }

    /// Adds a modifier that is not held yet.
    fn insert(&mut self, modifier: Modifier) -> (result: Result<(), HotkeyParseError>)
        ensures
            result is Err <==> old(self).holds(modifier),
            result matches Err(error) ==> error@ == HotkeyFault::DuplicateModifier(
                modifier.label(),
            ) && *final(self) == *old(self),
            result is Ok ==> *final(self) == old(self).with(modifier),
    {
        let held = match modifier {
            Modifier::Ctrl => self.ctrl,
            Modifier::Alt => self.alt,
            Modifier::Shift => self.shift,
            Modifier::Win => self.win,
        };
        if held {
            return Err(HotkeyParseError::DuplicateModifier(modifier.as_label().to_owned()));
        }
        match modifier {
            Modifier::Ctrl => {
                self.ctrl = true;
            },
            Modifier::Alt => {
                self.alt = true;
            },
            Modifier::Shift => {
                self.shift = true;
            },
            Modifier::Win => {
                self.win = true;
            },
        }
        Ok(())
    }
}

impl Default for HotkeyModifiers {
    fn default() -> (none: Self)
        ensures
            none == Self::none(),
    {
        HotkeyModifiers { win: false, shift: false, alt: false, ctrl: false }
    }
}

/// Modifiers are determined by which of the four are held.
pub proof fn lemma_modifiers_extensional(a: HotkeyModifiers, b: HotkeyModifiers)
    requires
        forall|m: Modifier| #[trigger] a.holds(m) == b.holds(m),
    ensures
        a == b,
{
    assert(a.holds(Modifier::Ctrl) == b.holds(Modifier::Ctrl));
    assert(a.holds(Modifier::Alt) == b.holds(Modifier::Alt));
    assert(a.holds(Modifier::Shift) == b.holds(Modifier::Shift));
    assert(a.holds(Modifier::Win) == b.holds(Modifier::Win));
}

/// What [`HotkeyModifiers::of`] holds.
pub broadcast proof fn lemma_modifiers_of(held: spec_fn(Modifier) -> bool, m: Modifier)
    ensures
        #[trigger] HotkeyModifiers::of(held).holds(m) == held(m),
{
}

/// One key together with the modifiers held while it is pressed.
#[derive(Clone, Copy, Debug, Eq, Hash, Ord, PartialEq, PartialOrd, Structural)]
pub struct HotkeyChord {
    modifiers: HotkeyModifiers,
    key: HotkeyKey,
}

/// A chord and the action that it asks for.
#[derive(Clone, Copy, Debug, Eq, PartialEq, Structural)]
pub struct HotkeyBinding {
    pub action: HotkeyAction,
    pub chord: HotkeyChord,
}

/// Why a text is not a chord.
#[derive(Clone, Debug, Eq, PartialEq)]
pub enum HotkeyParseError {
    Empty,
    EmptyToken,
    DuplicateModifier(String),
    MissingKey,
    MultipleKeys,
    UnsupportedKey(String),
}

/// The content of a [`HotkeyParseError`].
pub enum HotkeyFault {
    Empty,
    EmptyToken,
    DuplicateModifier(Seq<char>),
    MissingKey,
    MultipleKeys,
    UnsupportedKey(Seq<char>),
}

impl View for HotkeyParseError {
    type V = HotkeyFault;

    open spec fn view(&self) -> HotkeyFault {
        match self {
            HotkeyParseError::Empty => HotkeyFault::Empty,
            HotkeyParseError::EmptyToken => HotkeyFault::EmptyToken,
            HotkeyParseError::DuplicateModifier(label) => HotkeyFault::DuplicateModifier(label@),
            HotkeyParseError::MissingKey => HotkeyFault::MissingKey,
            HotkeyParseError::MultipleKeys => HotkeyFault::MultipleKeys,
            HotkeyParseError::UnsupportedKey(token) => HotkeyFault::UnsupportedKey(token@),
        }
    }
}

impl HotkeyFault {
    /// The explanation shown for the fault.
    pub open spec fn message(self) -> Seq<char> {
        match self {
            HotkeyFault::Empty => "hotkey binding must not be empty"@,
            HotkeyFault::EmptyToken => "hotkey binding contains an empty token"@,
            HotkeyFault::DuplicateModifier(label) => "hotkey binding repeats modifier "@ + label,
            HotkeyFault::MissingKey => "hotkey binding must contain exactly one non-modifier key"@,
            HotkeyFault::MultipleKeys => "hotkey binding contains multiple non-modifier keys"@,
            HotkeyFault::UnsupportedKey(token) => "unsupported hotkey key "@ + debug_text(token)
                + "; use A-Z, 0-9, or F1-F24"@,
        }
    }
}

impl HotkeyParseError {
    /// The explanation shown for the error.
    pub fn message(&self) -> (text: String)
        ensures
            text@ == self@.message(),
    {
        match self {
            HotkeyParseError::Empty => "hotkey binding must not be empty".to_owned(),
            HotkeyParseError::EmptyToken => "hotkey binding contains an empty token".to_owned(),
            HotkeyParseError::DuplicateModifier(label) => {
                let mut text = "hotkey binding repeats modifier ".to_owned();
                text.append(label.as_str());
                text
            },
            HotkeyParseError::MissingKey => {
                "hotkey binding must contain exactly one non-modifier key".to_owned()
            },
            HotkeyParseError::MultipleKeys => {
                "hotkey binding contains multiple non-modifier keys".to_owned()
            },
            HotkeyParseError::UnsupportedKey(token) => {
                let mut text = "unsupported hotkey key ".to_owned();
                text.append(quoted(token.as_str()).as_str());
                text.append("; use A-Z, 0-9, or F1-F24");
                text
            },
        }
    }
}

/// The modifier that a token names, in any case.
pub open spec fn modifier_of(token: Seq<char>) -> Option<Modifier> {
    if same_ignoring_case(token, "ctrl"@) || same_ignoring_case(token, "control"@) {
        Some(Modifier::Ctrl)
    } else if same_ignoring_case(token, "alt"@) {
        Some(Modifier::Alt)
    } else if same_ignoring_case(token, "shift"@) {
        Some(Modifier::Shift)
    } else if same_ignoring_case(token, "win"@) || same_ignoring_case(token, "windows"@) {
        Some(Modifier::Win)
    } else {
        None
    }
}

/// The function-key number that one or two characters spell: digits without a leading zero, or a
/// plus sign and a digit.
pub open spec fn function_number(text: Seq<char>) -> Option<int> {
    let value = |c: char| c as int - '0' as int;
    let is_digit = |c: char| '0' <= c <= '9';
    if text.len() == 1 && is_digit(text[0]) {
        Some(value(text[0]))
    } else if text.len() == 2 && is_digit(text[0]) && text[0] != '0' && is_digit(text[1]) {
        Some(10 * value(text[0]) + value(text[1]))
    } else if text.len() == 2 && text[0] == '+' && is_digit(text[1]) {
        Some(value(text[1]))
    } else {
        None
    }
}

/// The key that a token names.
pub open spec fn key_of(token: Seq<char>) -> Option<HotkeyKey> {
    if token.len() == 1 && 'a' <= ascii_lower(token[0]) <= 'z' {
        Some(HotkeyKey::Letter((ascii_lower(token[0]) as int - 32) as u8))
    } else if token.len() == 1 && '0' <= token[0] <= '9' {
        Some(HotkeyKey::Digit(token[0] as u8))
    } else if token.len() >= 2 && ascii_lower(token[0]) == 'f' {
        match function_number(token.drop_first()) {
            Some(number) => if 1 <= number <= 24 {
                Some(HotkeyKey::Function(number as u8))
            } else {
                None
            },
            None => None,
        }
    } else {
        None
    }
}

/// Reads the key that a token names.
pub fn parse_hotkey_key(token: &str) -> (result: Result<HotkeyKey, HotkeyParseError>)
    ensures
        match key_of(token@) {
            Some(key) => result == Ok::<HotkeyKey, HotkeyParseError>(key),
            None => result matches Err(error) && error@ == HotkeyFault::UnsupportedKey(token@),
        },
        result matches Ok(key) ==> key.valid(),
{
    let chars = chars_of(token);
    if chars.len() == 1 {
        let c = chars[0];
        if 'a' <= c && c <= 'z' {
            return Ok(HotkeyKey::Letter(c as u8 - 32));
        }
        if 'A' <= c && c <= 'Z' {
            return Ok(HotkeyKey::Letter(c as u8));
        }
        if '0' <= c && c <= '9' {
            return Ok(HotkeyKey::Digit(c as u8));
        }
    }
    if chars.len() >= 2 && (chars[0] == 'f' || chars[0] == 'F') {
        let number: Option<u8> = if chars.len() == 2 && '0' <= chars[1] && chars[1] <= '9' {
            Some(chars[1] as u8 - 48)
        } else if chars.len() == 3 && '1' <= chars[1] && chars[1] <= '9' && '0' <= chars[2]
            && chars[2] <= '9' {
            Some((chars[1] as u8 - 48) * 10 + (chars[2] as u8 - 48))
        } else if chars.len() == 3 && chars[1] == '+' && '0' <= chars[2] && chars[2] <= '9' {
            Some(chars[2] as u8 - 48)
        } else {
            None
        };
        if let Some(number) = number {
            if 1 <= number && number <= 24 {
                return Ok(HotkeyKey::Function(number));
            }
        }
    }
    Err(HotkeyParseError::UnsupportedKey(token.to_owned()))
}

/// What the tokens of a binding have named so far.
pub struct Scanned {
    pub modifiers: HotkeyModifiers,
    pub key: Option<HotkeyKey>,
}

/// What a list of tokens names, or the first fault in it.
pub open spec fn scanned(tokens: Seq<Seq<char>>) -> Result<Scanned, HotkeyFault>
    decreases tokens.len(),
{
    if tokens.len() == 0 {
        Ok(Scanned { modifiers: HotkeyModifiers::none(), key: None })
    } else {
        let token = trimmed(tokens.last());
        match scanned(tokens.drop_last()) {
            Err(fault) => Err(fault),
            Ok(before) => if token.len() == 0 {
                Err(HotkeyFault::EmptyToken)
            } else if let Some(modifier) = modifier_of(token) {
                if before.modifiers.holds(modifier) {
                    Err(HotkeyFault::DuplicateModifier(modifier.label()))
                } else {
                    Ok(Scanned { modifiers: before.modifiers.with(modifier), ..before })
                }
            } else if before.key is Some {
                Err(HotkeyFault::MultipleKeys)
            } else {
                match key_of(token) {
                    Some(key) => Ok(Scanned { key: Some(key), ..before }),
                    None => Err(HotkeyFault::UnsupportedKey(token)),
                }
            },
        }
    }
}

/// The chord that a text spells, or why it spells none.
pub open spec fn chord_of(text: Seq<char>) -> Result<HotkeyChord, HotkeyFault> {
    let text = trimmed(text);
    if text.len() == 0 {
        Err(HotkeyFault::Empty)
    } else {
        match scanned(split(text, '+')) {
            Err(fault) => Err(fault),
            Ok(named) => match named.key {
                Some(key) => Ok(HotkeyChord::made(named.modifiers, key)),
                None => Err(HotkeyFault::MissingKey),
            },
        }
    }
}

/// A fault among the first tokens is the fault of the whole list.
proof fn lemma_fault_stays(tokens: Seq<Seq<char>>, i: int)
    requires
        0 <= i <= tokens.len(),
        scanned(tokens.take(i)) is Err,
    ensures
        scanned(tokens) == scanned(tokens.take(i)),
    decreases tokens.len() - i,
{
    if i < tokens.len() {
        assert(tokens.take(i + 1).drop_last() =~= tokens.take(i));
        lemma_fault_stays(tokens, i + 1);
    } else {
        assert(tokens.take(i) =~= tokens);
    }
}

impl HotkeyChord {
    /// The chord of a key and its modifiers.
    pub closed spec fn made(modifiers: HotkeyModifiers, key: HotkeyKey) -> HotkeyChord {
        HotkeyChord { modifiers, key }
    }

    pub closed spec fn spec_modifiers(self) -> HotkeyModifiers {
        self.modifiers
    }

    pub closed spec fn spec_key(self) -> HotkeyKey {
        self.key
    }

    #[verifier::type_invariant]
    spec fn holds_a_valid_key(self) -> bool {
        self.key.valid()
    }

    pub fn modifiers(self) -> (modifiers: HotkeyModifiers)
        ensures
            modifiers == self.spec_modifiers(),
    {
        self.modifiers
    }

    pub fn key(self) -> (key: HotkeyKey)
        ensures
            key == self.spec_key(),
            key.valid(),
    {
        proof {
            use_type_invariant(&self);
        }
        self.key
    }

    /// Reads a chord: tokens joined by `+`, each a modifier or the one key, in any case and with
    /// white space around them.
    pub fn parse(value: &str) -> (result: Result<HotkeyChord, HotkeyParseError>)
        ensures
            match chord_of(value@) {
                Ok(chord) => result == Ok::<HotkeyChord, HotkeyParseError>(chord),
                Err(fault) => result matches Err(error) && error@ == fault,
            },
            result matches Ok(chord) ==> chord.spec_key().valid(),
    {
        let body = trim(value);
        if body.as_str().is_empty() {
            return Err(HotkeyParseError::Empty);
        }
        let pieces = split_text(body.as_str(), '+');
        let ghost tokens = texts(pieces@);
        let mut modifiers = HotkeyModifiers::default();
        let mut key: Option<HotkeyKey> = None;
        let mut i: usize = 0;
        while i < pieces.len()
            invariant
                i <= pieces@.len(),
                tokens == texts(pieces@),
                scanned(tokens.take(i as int)) == Ok::<Scanned, HotkeyFault>(
                    Scanned { modifiers, key },
                ),
                key matches Some(k) ==> k.valid(),
                body@ == trimmed(value@),
                body@.len() > 0,
                tokens == split(body@, '+'),
            decreases pieces@.len() - i,
        {
            let token = trim(pieces[i].as_str());
            proof {
                assert(tokens.take(i + 1).drop_last() =~= tokens.take(i as int));
            }
            if token.as_str().is_empty() {
                proof {
                    lemma_fault_stays(tokens, i + 1);
                }
                return Err(HotkeyParseError::EmptyToken);
            }
            let modifier = modifier_named(token.as_str());
            i += 1;
            if let Some(modifier) = modifier {
                match modifiers.insert(modifier) {
                    Ok(()) => {},
                    Err(error) => {
                        proof {
                            lemma_fault_stays(tokens, i as int);
                        }
                        return Err(error);
                    },
                }
            } else {
                if key.is_some() {
                    proof {
                        lemma_fault_stays(tokens, i as int);
                    }
                    return Err(HotkeyParseError::MultipleKeys);
                }
                match parse_hotkey_key(token.as_str()) {
                    Ok(parsed) => {
                        key = Some(parsed);
                    },
                    Err(error) => {
                        proof {
                            lemma_fault_stays(tokens, i as int);
                        }
                        return Err(error);
                    },
                }
            }
        }
        proof {
            assert(tokens.take(tokens.len() as int) =~= tokens);
        }
        match key {
            Some(key) => Ok(HotkeyChord { modifiers, key }),
            None => Err(HotkeyParseError::MissingKey),
        }
    }

    /// The names of the chord's parts, in canonical order.
    pub open spec fn parts(self) -> Seq<Seq<char>> {
        labels(held(self.spec_modifiers())).push(self.spec_key().text())
    }

    /// The canonical text of the chord.
    pub open spec fn text(self) -> Seq<char> {
        join(self.parts(), '+')
    }

    /// The canonical text of the chord: its modifiers in a fixed order, then its key.
    pub fn to_text(self) -> (text: String)
        ensures
            text@ == self.text(),
    {
        let mut text = String::new();
        let ghost mut done: Seq<Modifier> = Seq::empty();
        proof {
            assert(labels(done) =~= Seq::<Seq<char>>::empty());
        }
        if self.modifiers.ctrl {
            text.append("Ctrl+");
            proof {
                lemma_prefix_push(done, Modifier::Ctrl);
                done = done.push(Modifier::Ctrl);
                reveal_strlit("Ctrl+");
                reveal_strlit("Ctrl");
                assert("Ctrl+"@ =~= "Ctrl"@.push('+'));
            }
        }
        if self.modifiers.alt {
            text.append("Alt+");
            proof {
                lemma_prefix_push(done, Modifier::Alt);
                done = done.push(Modifier::Alt);
                reveal_strlit("Alt+");
                reveal_strlit("Alt");
                assert("Alt+"@ =~= "Alt"@.push('+'));
            }
        }
        if self.modifiers.shift {
            text.append("Shift+");
            proof {
                lemma_prefix_push(done, Modifier::Shift);
                done = done.push(Modifier::Shift);
                reveal_strlit("Shift+");
                reveal_strlit("Shift");
                assert("Shift+"@ =~= "Shift"@.push('+'));
            }
        }
        if self.modifiers.win {
            text.append("Win+");
            proof {
                lemma_prefix_push(done, Modifier::Win);
                done = done.push(Modifier::Win);
                reveal_strlit("Win+");
                reveal_strlit("Win");
                assert("Win+"@ =~= "Win"@.push('+'));
            }
        }
        proof {
            assert(done =~= held(self.modifiers));
            lemma_join_prefix(labels(done), self.key.text());
        }
        let ghost prefix = text@;
        match self.key {
            HotkeyKey::Letter(code) => {
                text.push(code as char);
            },
            HotkeyKey::Digit(code) => {
                text.push(code as char);
            },
            HotkeyKey::Function(number) => {
                text.push('F');
                text.append(decimal_text(number as u64).as_str());
            },
        }
        proof {
            assert(text@ =~= prefix + self.key.text());
        }
        text
    }
}

impl std::str::FromStr for HotkeyChord {
    type Err = HotkeyParseError;

    fn from_str(value: &str) -> (result: Result<HotkeyChord, HotkeyParseError>)
        ensures
            match chord_of(value@) {
                Ok(chord) => result == Ok::<HotkeyChord, HotkeyParseError>(chord),
                Err(fault) => result matches Err(error) && error@ == fault,
            },
    {
        HotkeyChord::parse(value)
    }
}

/// The held modifiers, in canonical order.
pub open spec fn held(modifiers: HotkeyModifiers) -> Seq<Modifier> {
    let optional = |m: Modifier|
        if modifiers.holds(m) {
            seq![m]
        } else {
            Seq::<Modifier>::empty()
        };
    optional(Modifier::Ctrl) + optional(Modifier::Alt) + optional(Modifier::Shift) + optional(
        Modifier::Win,
    )
}

/// The names of modifiers.
pub open spec fn labels(modifiers: Seq<Modifier>) -> Seq<Seq<char>> {
    Seq::new(modifiers.len(), |i: int| modifiers[i].label())
}

/// Each piece with a plus sign behind it, one after the other.
spec fn plus_terminated(pieces: Seq<Seq<char>>) -> Seq<char>
    decreases pieces.len(),
{
    if pieces.len() == 0 {
        Seq::<char>::empty()
    } else {
        plus_terminated(pieces.drop_last()) + pieces.last().push('+')
    }
}

proof fn lemma_prefix_push(modifiers: Seq<Modifier>, more: Modifier)
    ensures
        plus_terminated(labels(modifiers.push(more))) == plus_terminated(labels(modifiers))
            + more.label().push('+'),
{
    assert(labels(modifiers.push(more)).drop_last() =~= labels(modifiers));
}

proof fn lemma_join_prefix(pieces: Seq<Seq<char>>, last: Seq<char>)
    ensures
        join(pieces.push(last), '+') == plus_terminated(pieces) + last,
    decreases pieces.len(),
{
    assert(pieces.push(last).drop_last() =~= pieces);
    if pieces.len() == 0 {
        assert(plus_terminated(pieces) + last =~= last);
    } else {
        let before = pieces.drop_last();
        assert(before.push(pieces.last()) =~= pieces);
        lemma_join_prefix(before, pieces.last());
    }
}

proof fn lemma_label_facts(m: Modifier)
    ensures
        modifier_of(m.label()) == Some(m),
        trimmed(m.label()) == m.label(),
        m.label().len() > 0,
        !m.label().contains('+'),
        !is_whitespace(m.label()[0]),
{
    reveal_strlit("Ctrl");
    reveal_strlit("Alt");
    reveal_strlit("Shift");
    reveal_strlit("Win");
    reveal_strlit("ctrl");
    reveal_strlit("control");
    reveal_strlit("alt");
    reveal_strlit("shift");
    reveal_strlit("win");
    reveal_strlit("windows");
    assert(lowered("Ctrl"@) =~= lowered("ctrl"@));
    assert(lowered("Alt"@) =~= lowered("alt"@));
    assert(lowered("Shift"@) =~= lowered("shift"@));
    assert(lowered("Win"@) =~= lowered("win"@));
    assert(lowered(m.label())[0] == ascii_lower(m.label()[0]));
    lemma_trimmed_same(m.label());
}

proof fn lemma_key_facts(key: HotkeyKey)
    requires
        key.valid(),
    ensures
        key_of(key.text()) == Some(key),
        modifier_of(key.text()) is None,
        trimmed(key.text()) == key.text(),
        key.text().len() > 0,
        !key.text().contains('+'),
        !is_whitespace(key.text()[0]),
        !is_whitespace(key.text().last()),
{
    reveal_with_fuel(decimal, 3);
    reveal_strlit("ctrl");
    reveal_strlit("control");
    reveal_strlit("alt");
    reveal_strlit("shift");
    reveal_strlit("win");
    reveal_strlit("windows");
    let text = key.text();
    assert(lowered(text).len() == text.len());
    assert(lowered("alt"@)[0] == 'a' && lowered("alt"@).len() == 3);
    assert(lowered("win"@)[0] == 'w' && lowered("win"@).len() == 3);
    match key {
        HotkeyKey::Function(number) => {
            assert(text.drop_first() =~= decimal(number as nat));
        },
        _ => {},
    }
    lemma_trimmed_same(text);
}

/// Scanning the names of distinct modifiers finds exactly those modifiers.
proof fn lemma_scan_labels(modifiers: Seq<Modifier>)
    requires
        modifiers.no_duplicates(),
    ensures
        scanned(labels(modifiers)) matches Ok(found) && found.key is None && (forall|m: Modifier| #[trigger]
            found.modifiers.holds(m) == modifiers.contains(m)),
    decreases modifiers.len(),
{
    broadcast use lemma_modifiers_of;

    if modifiers.len() > 0 {
        let before = modifiers.drop_last();
        let last = modifiers.last();
        assert forall|m: Modifier| #[trigger] modifiers.contains(m) == (before.contains(m) || m
            == last) by {
            if modifiers.contains(m) {
                let i = choose|i: int| 0 <= i < modifiers.len() && modifiers[i] == m;
                if i < before.len() {
                    assert(before[i] == m);
                }
            }
            if m == last {
                assert(modifiers[modifiers.len() - 1] == m);
            }
        }
        assert(!before.contains(last));
        lemma_scan_labels(before);
        assert(labels(modifiers).drop_last() =~= labels(before));
        lemma_label_facts(last);
    }
}

/// The listed modifiers are the held ones, each once.
proof fn lemma_held(modifiers: HotkeyModifiers)
    ensures
        held(modifiers).no_duplicates(),
        forall|m: Modifier| #[trigger] held(modifiers).contains(m) == modifiers.holds(m),
{
    let list = held(modifiers);
    let c: int = if modifiers.holds(Modifier::Ctrl) { 1 } else { 0 };
    let a: int = if modifiers.holds(Modifier::Alt) { 1 } else { 0 };
    let s: int = if modifiers.holds(Modifier::Shift) { 1 } else { 0 };
    assert forall|m: Modifier| #[trigger] list.contains(m) == modifiers.holds(m) by {
        if modifiers.holds(m) {
            match m {
                Modifier::Ctrl => assert(list[0] == m),
                Modifier::Alt => assert(list[c] == m),
                Modifier::Shift => assert(list[c + a] == m),
                Modifier::Win => assert(list[c + a + s] == m),
            }
        }
    }
}

/// What the parts of a chord look like.
proof fn lemma_parts(chord: HotkeyChord)
    requires
        chord.spec_key().valid(),
    ensures
        chord.parts().len() >= 1,
        forall|i: int|
            0 <= i < chord.parts().len() ==> !(#[trigger] chord.parts()[i]).contains('+')
                && chord.parts()[i].len() > 0 && !is_whitespace(chord.parts()[i][0]),
        !is_whitespace(chord.parts().last().last()),
{
    let modifiers = held(chord.spec_modifiers());
    let parts = chord.parts();
    lemma_key_facts(chord.spec_key());
    assert forall|i: int| 0 <= i < parts.len() implies !(#[trigger] parts[i]).contains('+')
        && parts[i].len() > 0 && !is_whitespace(parts[i][0]) by {
        if i < modifiers.len() {
            lemma_label_facts(modifiers[i]);
        }
    }
}

/// The parts of a made chord.
pub proof fn lemma_made(modifiers: HotkeyModifiers, key: HotkeyKey)
    ensures
        HotkeyChord::made(modifiers, key).spec_modifiers() == modifiers,
        HotkeyChord::made(modifiers, key).spec_key() == key,
{
}

/// Reading the canonical text of a chord gives the chord back.
pub proof fn law_chord_text_reads_back(chord: HotkeyChord)
    requires
        chord.spec_key().valid(),
    ensures
        chord_of(chord.text()) == Ok::<HotkeyChord, HotkeyFault>(chord),
{
    let modifiers = held(chord.spec_modifiers());
    let parts = chord.parts();
    let key = chord.spec_key();
    lemma_parts(chord);
    lemma_join_ends(parts, '+');
    lemma_trimmed_same(chord.text());
    lemma_split_join(parts, '+');
    lemma_held(chord.spec_modifiers());
    lemma_scan_labels(modifiers);
    lemma_key_facts(key);
    assert(parts.drop_last() =~= labels(modifiers));
    let found = scanned(labels(modifiers))->Ok_0;
    lemma_modifiers_extensional(found.modifiers, chord.spec_modifiers());
}

/// Two chords with the same canonical text are the same chord.
pub proof fn law_chord_text_is_unique(a: HotkeyChord, b: HotkeyChord)
    requires
        a.spec_key().valid(),
        b.spec_key().valid(),
        a.text() == b.text(),
    ensures
        a == b,
{
    law_chord_text_reads_back(a);
    law_chord_text_reads_back(b);
}

/// The modifier that a token names.
fn modifier_named(token: &str) -> (modifier: Option<Modifier>)
    ensures
        modifier == modifier_of(token@),
{
    if eq_ignore_ascii_case(token, "ctrl") || eq_ignore_ascii_case(token, "control") {
        Some(Modifier::Ctrl)
    } else if eq_ignore_ascii_case(token, "alt") {
        Some(Modifier::Alt)
    } else if eq_ignore_ascii_case(token, "shift") {
        Some(Modifier::Shift)
    } else if eq_ignore_ascii_case(token, "win") || eq_ignore_ascii_case(token, "windows") {
        Some(Modifier::Win)
    } else {
        None
    }
}

/// A modifier is named by its key, in whatever case: `ctrl` or `control`, `alt`, `shift`, and `win` or
/// `windows`. Nothing else names one.
pub proof fn law_modifiers_are_named_by_their_keys(token: Seq<char>)
    ensures
        modifier_of(token) == Some(Modifier::Ctrl) <==> lowered(token) == seq!['c', 't', 'r', 'l']
            || lowered(token) == seq!['c', 'o', 'n', 't', 'r', 'o', 'l'],
        modifier_of(token) == Some(Modifier::Alt) <==> lowered(token) == seq!['a', 'l', 't'],
        modifier_of(token) == Some(Modifier::Shift) <==> lowered(token) == seq![
            's',
            'h',
            'i',
            'f',
            't',
        ],
        modifier_of(token) == Some(Modifier::Win) <==> lowered(token) == seq!['w', 'i', 'n']
            || lowered(token) == seq!['w', 'i', 'n', 'd', 'o', 'w', 's'],
{
    reveal_strlit("ctrl");
    reveal_strlit("control");
    reveal_strlit("alt");
    reveal_strlit("shift");
    reveal_strlit("win");
    reveal_strlit("windows");
    assert(lowered("ctrl"@) =~= seq!['c', 't', 'r', 'l']);
    assert(lowered("control"@) =~= seq!['c', 'o', 'n', 't', 'r', 'o', 'l']);
    assert(lowered("alt"@) =~= seq!['a', 'l', 't']);
    assert(lowered("shift"@) =~= seq!['s', 'h', 'i', 'f', 't']);
    assert(lowered("win"@) =~= seq!['w', 'i', 'n']);
    assert(lowered("windows"@) =~= seq!['w', 'i', 'n', 'd', 'o', 'w', 's']);
    let low = lowered(token);
    assert(low.len() == 3 ==> low[0] == 'a' || low != seq!['a', 'l', 't']);
    assert(low.len() == 4 || low != seq!['c', 't', 'r', 'l']);
    assert(low.len() == 7 || low != seq!['c', 'o', 'n', 't', 'r', 'o', 'l']);
    assert(low.len() == 5 || low != seq!['s', 'h', 'i', 'f', 't']);
    assert(low.len() == 3 && low[0] == 'w' || low != seq!['w', 'i', 'n']);
    assert(low.len() == 7 && low[0] == 'w' || low != seq!['w', 'i', 'n', 'd', 'o', 'w', 's']);
    assert(low.len() == 7 && low[0] == 'c' || low != seq!['c', 'o', 'n', 't', 'r', 'o', 'l']);
    assert(low.len() == 3 && low[0] == 'a' || low != seq!['a', 'l', 't']);
}

/// A letter is its own key in either case, and a digit is its own. `F` with a number is the function
/// key of that number from 1 to 24, and of no other.
pub proof fn law_keys_are_named_by_what_is_on_them(c: char, number: nat)
    ensures
        'A' <= c <= 'Z' ==> key_of(seq![c]) == Some(HotkeyKey::Letter(c as u8)),
        'a' <= c <= 'z' ==> key_of(seq![c]) == Some(HotkeyKey::Letter((c as int - 32) as u8)),
        '0' <= c <= '9' ==> key_of(seq![c]) == Some(HotkeyKey::Digit(c as u8)),
        1 <= number <= 24 ==> key_of(seq!['F'] + decimal(number)) == Some(
            HotkeyKey::Function(number as u8),
        ) && key_of(seq!['f'] + decimal(number)) == Some(HotkeyKey::Function(number as u8)),
        number == 0 || number > 24 ==> key_of(seq!['F'] + decimal(number)) is None && key_of(
            seq!['f'] + decimal(number),
        ) is None,
{
    let digits = decimal(number);
    law_decimals_read_back(number);
    reveal_with_fuel(number_in, 3);
    let (big, small) = (seq!['F'] + digits, seq!['f'] + digits);
    assert(big.drop_first() =~= digits);
    assert(small.drop_first() =~= digits);
    assert(big.len() >= 2 && small.len() >= 2);
    assert(digits[0] != '+');
    if digits.len() == 1 {
        assert(digits.drop_last() =~= Seq::<char>::empty());
        assert(function_number(digits) == Some(number as int));
    } else if digits.len() == 2 {
        assert(digits.drop_last().drop_last() =~= Seq::<char>::empty());
        assert(digits.drop_last().last() == digits[0]);
        assert(digits.last() == digits[1]);
        assert(function_number(digits) == Some(number as int));
    } else {
        assert(number >= 100) by {
            if number < 100 {
                if number >= 10 {
                    assert(decimal(number) == decimal(number / 10).push(
                        digit((number % 10) as int),
                    ));
                    assert(decimal(number / 10).len() == 1);
                }
            }
        }
        assert(function_number(digits) is None);
    }
}

/// Of the parts of a binding that can be read, those that name modifiers are held, each once and no
/// other, and exactly one other part is the key where there is one.
pub proof fn law_a_binding_holds_what_its_parts_name(tokens: Seq<Seq<char>>)
    ensures
        scanned(tokens) matches Ok(found) ==> {
            &&& forall|m: Modifier| #[trigger]
                found.modifiers.holds(m) <==> exists|i: int|
                    0 <= i < tokens.len() && modifier_of(trimmed(#[trigger] tokens[i])) == Some(m)
            &&& forall|i: int, j: int|
                #![trigger tokens[i], tokens[j]]
                0 <= i < j < tokens.len() && modifier_of(trimmed(tokens[i])) is Some
                    ==> modifier_of(trimmed(tokens[i])) != modifier_of(trimmed(tokens[j]))
            &&& found.key matches Some(key) ==> exists|i: int|
                0 <= i < tokens.len() && modifier_of(trimmed(#[trigger] tokens[i])) is None
                    && key_of(trimmed(tokens[i])) == Some(key)
            &&& forall|i: int, j: int|
                #![trigger tokens[i], tokens[j]]
                0 <= i < j < tokens.len() ==> modifier_of(trimmed(tokens[i])) is Some || modifier_of(
                    trimmed(tokens[j]),
                ) is Some
            &&& found.key is None ==> forall|i: int|
                0 <= i < tokens.len() ==> modifier_of(trimmed(#[trigger] tokens[i])) is Some
        },
    decreases tokens.len(),
{
    if tokens.len() > 0 {
        let front = tokens.drop_last();
        law_a_binding_holds_what_its_parts_name(front);
        if let Ok(found) = scanned(tokens) {
            let before = scanned(front)->Ok_0;
            let last = tokens.len() - 1;
            let token = trimmed(tokens[last]);
            assert(forall|i: int| 0 <= i < front.len() ==> front[i] == tokens[i]);
            assert forall|m: Modifier| #[trigger] found.modifiers.holds(m) <==> exists|i: int|
                0 <= i < tokens.len() && modifier_of(trimmed(#[trigger] tokens[i])) == Some(m) by {
                if before.modifiers.holds(m) {
                    let i = choose|i: int|
                        0 <= i < front.len() && modifier_of(trimmed(#[trigger] front[i])) == Some(m);
                    assert(modifier_of(trimmed(tokens[i])) == Some(m));
                }
                if exists|i: int|
                    0 <= i < tokens.len() && modifier_of(trimmed(#[trigger] tokens[i])) == Some(m) {
                    let i = choose|i: int|
                        0 <= i < tokens.len() && modifier_of(trimmed(#[trigger] tokens[i])) == Some(
                            m,
                        );
                    if i < last {
                        assert(modifier_of(trimmed(front[i])) == Some(m));
                    }
                }
            }
            assert forall|i: int, j: int|
                #![trigger tokens[i], tokens[j]]
                0 <= i < j < tokens.len() && modifier_of(trimmed(tokens[i])) is Some implies modifier_of(
                trimmed(tokens[i]),
            ) != modifier_of(trimmed(tokens[j])) by {
                assert(front[i] == tokens[i]);
                if j < last {
                    assert(front[j] == tokens[j]);
                } else if modifier_of(token) is Some {
                    let m = modifier_of(trimmed(tokens[i]))->Some_0;
                    assert(modifier_of(trimmed(front[i])) == Some(m));
                    assert(before.modifiers.holds(m));
                }
            }
            assert forall|i: int, j: int|
                #![trigger tokens[i], tokens[j]]
                0 <= i < j < tokens.len() implies modifier_of(trimmed(tokens[i])) is Some
                || modifier_of(trimmed(tokens[j])) is Some by {
                assert(front[i] == tokens[i]);
                if j < last {
                    assert(front[j] == tokens[j]);
                } else if modifier_of(token) is None {
                    assert(before.key is None);
                    assert(modifier_of(trimmed(front[i])) is Some);
                }
            }
            if let Some(key) = found.key {
                if modifier_of(token) is Some {
                    let i = choose|i: int|
                        0 <= i < front.len() && modifier_of(trimmed(#[trigger] front[i])) is None
                            && key_of(trimmed(front[i])) == Some(key);
                    assert(modifier_of(trimmed(tokens[i])) is None);
                }
            } else {
                assert forall|i: int| 0 <= i < tokens.len() implies modifier_of(
                    trimmed(#[trigger] tokens[i]),
                ) is Some by {
                    if i < last {
                        assert(modifier_of(trimmed(front[i])) is Some);
                    }
                }
            }
        }
    }
}

/// A binding is read as a chord only if it has a key, and then as that key with exactly the modifiers
/// that its parts between plus signs name.
pub proof fn law_a_chord_is_what_its_binding_names(text: Seq<char>)
    ensures
        chord_of(text) matches Ok(chord) ==> {
            let parts = split(trimmed(text), '+');
            &&& forall|m: Modifier| #[trigger]
                chord.spec_modifiers().holds(m) <==> exists|i: int|
                    0 <= i < parts.len() && modifier_of(trimmed(#[trigger] parts[i])) == Some(m)
            &&& exists|i: int|
                0 <= i < parts.len() && modifier_of(trimmed(#[trigger] parts[i])) is None && key_of(
                    trimmed(parts[i]),
                ) == Some(chord.spec_key())
        },
        trimmed(text).len() == 0 ==> chord_of(text) == Err::<HotkeyChord, HotkeyFault>(
            HotkeyFault::Empty,
        ),
{
    law_a_binding_holds_what_its_parts_name(split(trimmed(text), '+'));
}

/// Actions have names of their own.
pub proof fn law_actions_have_their_own_names(a: HotkeyAction, b: HotkeyAction)
    requires
        a.name() == b.name(),
    ensures
        a == b,
{
    reveal_strlit("last_workflow");
    reveal_strlit("region");
    reveal_strlit("window");
    reveal_strlit("full_display");
    reveal_strlit("repeat_last_region");
    let (p, q) = (a.name(), b.name());
    assert(p.len() == q.len());
    assert(p[0] == q[0]);
}

/// What is wrong with a binding is said with what is wrong in it.
pub proof fn law_faults_name_what_is_wrong(label: Seq<char>, token: Seq<char>)
    ensures
        ends_with(
            HotkeyFault::DuplicateModifier(label).message(),
            "hotkey binding repeats modifier "@ + label,
        ),
        starts_with(
            HotkeyFault::UnsupportedKey(token).message(),
            "unsupported hotkey key "@ + debug_text(token),
        ),
        ends_with(HotkeyFault::UnsupportedKey(token).message(), "; use A-Z, 0-9, or F1-F24"@),
        HotkeyFault::Empty.message() == "hotkey binding must not be empty"@,
        HotkeyFault::EmptyToken.message() == "hotkey binding contains an empty token"@,
        HotkeyFault::MissingKey.message()
            == "hotkey binding must contain exactly one non-modifier key"@,
        HotkeyFault::MultipleKeys.message() == "hotkey binding contains multiple non-modifier keys"@,
{
    let repeats = HotkeyFault::DuplicateModifier(label).message();
    assert(repeats.skip(0) =~= repeats);
    let start = "unsupported hotkey key "@ + debug_text(token);
    let end = "; use A-Z, 0-9, or F1-F24"@;
    assert((start + end).take(start.len() as int) =~= start);
    assert((start + end).skip(start.len() as int) =~= end);
}

/// A chord can hold every letter, every digit and the function keys from the first to the
/// twenty-fourth, and nothing else.
pub proof fn law_keys_that_a_chord_can_hold(key: HotkeyKey)
    ensures
        key matches HotkeyKey::Letter(code) ==> (key.valid() <==> 65 <= code <= 90),
        key matches HotkeyKey::Digit(code) ==> (key.valid() <==> 48 <= code <= 57),
        key matches HotkeyKey::Function(number) ==> (key.valid() <==> 1 <= number <= 24),
{
}

} // verus!
