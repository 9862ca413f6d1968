//! Which display is captured, and which engine captures it.
use vstd::prelude::*;
use vstd::string::*;

use crate::capture::{CaptureError, CaptureErrorKind, CaptureSource, DisplayId};
use crate::config::names_display_policy;
use crate::error::AppError;
use crate::text::{
    is_whitespace, lemma_trimmed_same, same, starts_with, strip_prefix, trim, trimmed, trimmed_end,
    trimmed_start,
};

verus! {

/// How the display to capture is chosen.
#[derive(Debug, Eq, PartialEq)]
pub enum DisplayPolicy {
    /// The display that the pointer is on.
    Pointer,
    Primary,
    /// One display, by its persistent name.
    Fixed(DisplayId),
    /// All displays together.
    VirtualDesktop,
}

impl Clone for DisplayPolicy {
    fn clone(&self) -> (copy: Self)
        ensures
            copy == *self,
    {
        match self {
            DisplayPolicy::Pointer => DisplayPolicy::Pointer,
            DisplayPolicy::Primary => DisplayPolicy::Primary,
            DisplayPolicy::Fixed(id) => DisplayPolicy::Fixed(id.clone()),
            DisplayPolicy::VirtualDesktop => DisplayPolicy::VirtualDesktop,
        }
    }
}

/// A choice of display.
pub enum Policy {
    Pointer,
    Primary,
    Fixed(Seq<char>),
    VirtualDesktop,
}

impl View for DisplayPolicy {
    type V = Policy;

    open spec fn view(&self) -> Policy {
        match self {
            DisplayPolicy::Pointer => Policy::Pointer,
            DisplayPolicy::Primary => Policy::Primary,
            DisplayPolicy::Fixed(id) => Policy::Fixed(id@),
            DisplayPolicy::VirtualDesktop => Policy::VirtualDesktop,
        }
    }
}

impl Policy {
    /// How the choice is written in a configuration.
    pub open spec fn text(self) -> Seq<char> {
        match self {
            Policy::Pointer => "pointer"@,
            Policy::Primary => "primary"@,
            Policy::Fixed(id) => "display:"@ + id,
            Policy::VirtualDesktop => "virtual_desktop"@,
        }
    }
}

impl DisplayPolicy {
    /// How the choice is written in a configuration.
    pub fn as_config_value(&self) -> (text: String)
        ensures
            text@ == self@.text(),
    {
        match self {
            DisplayPolicy::Pointer => "pointer".to_owned(),
            DisplayPolicy::Primary => "primary".to_owned(),
            DisplayPolicy::Fixed(id) => {
                let mut text = "display:".to_owned();
                text.append(id.0.as_str());
                text
            },
            DisplayPolicy::VirtualDesktop => "virtual_desktop".to_owned(),
        }
    }
}

/// The choice that a text stands for.
pub open spec fn policy_in(text: Seq<char>) -> Option<Policy> {
    let value = trimmed(text);
    let id = trimmed(value.skip("display:"@.len() as int));
    if value == "pointer"@ {
        Some(Policy::Pointer)
    } else if value == "primary"@ {
        Some(Policy::Primary)
    } else if value == "virtual_desktop"@ {
        Some(Policy::VirtualDesktop)
    } else if starts_with(value, "display:"@) && id.len() > 0 {
        Some(Policy::Fixed(id))
    } else {
        None
    }
}

/// Reads a display policy.
pub fn resolve_display_policy(value: &str) -> (result: Result<DisplayPolicy, AppError>)
    ensures
        match policy_in(value@) {
            Some(policy) => result matches Ok(found) && found@ == policy,
            None => result matches Err(AppError::InvalidArgument(text)) && text@
                == "display must be pointer, primary, virtual_desktop, or display:<persistent-id>"@,
        },
{
    let value = trim(value);
    if same(value.as_str(), "pointer") {
        return Ok(DisplayPolicy::Pointer);
    }
    if same(value.as_str(), "primary") {
        return Ok(DisplayPolicy::Primary);
    }
    if same(value.as_str(), "virtual_desktop") {
        return Ok(DisplayPolicy::VirtualDesktop);
    }
    if let Some(rest) = strip_prefix(value.as_str(), "display:") {
        let id = trim(rest.as_str());
        if !id.as_str().is_empty() {
            return Ok(DisplayPolicy::Fixed(DisplayId(id)));
        }
    }
    Err(
        AppError::InvalidArgument(
            "display must be pointer, primary, virtual_desktop, or display:<persistent-id>".to_owned(),
        ),
    )
}

/// A choice written into a configuration is read back as it was, as long as the name of a display is
/// not empty and has no white space around it.
pub proof fn law_policies_read_back(policy: Policy)
    requires
        policy matches Policy::Fixed(id) ==> id.len() > 0 && !is_whitespace(id[0])
            && !is_whitespace(id.last()),
    ensures
        policy_in(policy.text()) == Some(policy),
{
    reveal_strlit("pointer");
    reveal_strlit("primary");
    reveal_strlit("virtual_desktop");
    reveal_strlit("display:");
    let text = policy.text();
    lemma_trimmed_same(text);
    match policy {
        Policy::Fixed(id) => {
            assert(text.skip(8) =~= id);
            assert(text.take(8) =~= "display:"@);
            lemma_trimmed_same(id);
        },
        Policy::Primary => {
            assert(text[1] == 'r');
        },
        Policy::Pointer => {},
        Policy::VirtualDesktop => {
            assert(text[0] == 'v');
        },
    }
}

/// What is left behind the white space at the start is the rest of the text, from its first other
/// character on.
proof fn lemma_trimmed_start(s: Seq<char>)
    ensures
        trimmed_start(s).len() <= s.len(),
        trimmed_start(s) == s.skip(s.len() - trimmed_start(s).len()),
        forall|i: int|
            0 <= i < s.len() && !is_whitespace(#[trigger] s[i]) ==> s.len() - trimmed_start(s).len()
                <= i,
    decreases s.len(),
{
    if s.len() > 0 && is_whitespace(s[0]) {
        let rest = s.drop_first();
        lemma_trimmed_start(rest);
        assert forall|i: int| 0 <= i < s.len() && !is_whitespace(#[trigger] s[i]) implies s.len()
            - trimmed_start(s).len() <= i by {
            assert(rest[i - 1] == s[i]);
        }
    } else {
        assert(s.skip(0) =~= s);
    }
}

/// What is left before the white space at the end is the text up to its last other character.
proof fn lemma_trimmed_end(s: Seq<char>)
    ensures
        trimmed_end(s).len() <= s.len(),
        trimmed_end(s) == s.take(trimmed_end(s).len() as int),
        trimmed_end(s).len() > 0 ==> !is_whitespace(trimmed_end(s).last()),
        forall|i: int|
            0 <= i < s.len() && !is_whitespace(#[trigger] s[i]) ==> i < trimmed_end(s).len(),
    decreases s.len(),
{
    if s.len() > 0 && is_whitespace(s.last()) {
        let rest = s.drop_last();
        lemma_trimmed_end(rest);
        assert forall|i: int| 0 <= i < s.len() && !is_whitespace(#[trigger] s[i]) implies i
            < trimmed_end(s).len() by {
            assert(rest[i] == s[i]);
        }
    } else {
        assert(s.take(s.len() as int) =~= s);
    }
}

/// What is left of white space is nothing, so what is left of a text holds something else.
proof fn lemma_not_blank(s: Seq<char>) -> (i: int)
    requires
        trimmed(s).len() > 0,
    ensures
        0 <= i < s.len(),
        !is_whitespace(s[i]),
{
    let start = trimmed_start(s);
    lemma_trimmed_start(s);
    lemma_trimmed_end(start);
    s.len() - start.len() + trimmed_end(start).len() - 1
}

/// A display setting that a valid configuration can hold always stands for a choice.
pub proof fn law_valid_display_settings_resolve(text: Seq<char>)
    requires
        names_display_policy(text),
    ensures
        policy_in(text) is Some,
{
    reveal_strlit("pointer");
    reveal_strlit("primary");
    reveal_strlit("virtual_desktop");
    reveal_strlit("display:");
    if text == "primary"@ || text == "pointer"@ || text == "virtual_desktop"@ {
        lemma_trimmed_same(text);
    } else {
        let rest = text.skip(8);
        let i = lemma_not_blank(rest);
        assert(text.take(8)[0] == 'd');
        assert(text[i + 8] == rest[i]);
        lemma_trimmed_end(text);
        let value = trimmed(text);
        assert(value.take(8) =~= text.take(8));
        let tail = value.skip(8);
        assert(tail[i] == rest[i]);
        lemma_trimmed_start(tail);
        let start = trimmed_start(tail);
        let skipped = tail.len() - start.len();
        assert(start[i - skipped] == tail[i]);
        lemma_trimmed_end(start);
    }
}

/// Whether a choice needs to know where the pointer is.
pub fn needs_pointer(policy: &DisplayPolicy) -> (yes: bool)
    ensures
        yes == (policy@ is Pointer),
{
    match policy {
        DisplayPolicy::Pointer => true,
        _ => false,
    }
}

/// What a choice comes to. `pointer` is the display that the pointer is on, where the platform can
/// tell.
pub fn resolve_capture_source(
    policy: &DisplayPolicy,
    pointer: Option<Result<DisplayId, CaptureError>>,
) -> (result: Result<CaptureSource, CaptureError>)
    ensures
        match policy@ {
            Policy::Pointer => match pointer {
                Some(Ok(id)) => result == Ok::<CaptureSource, CaptureError>(
                    CaptureSource::Display(id),
                ),
                Some(Err(error)) => result == Err::<CaptureSource, CaptureError>(error),
                None => result matches Err(error) && error.kind == CaptureErrorKind::Unsupported
                    && error.message@
                    == "pointer display selection is currently available only on Windows"@,
            },
            Policy::Primary => result matches Ok(CaptureSource::Display(id)) && id@ == "primary"@,
            Policy::Fixed(name) => result matches Ok(CaptureSource::Display(id)) && id@ == name,
            Policy::VirtualDesktop => result == Ok::<CaptureSource, CaptureError>(
                CaptureSource::VirtualDesktop,
            ),
        },
{
    match policy {
        DisplayPolicy::Pointer => match pointer {
            Some(Ok(id)) => Ok(CaptureSource::Display(id)),
            Some(Err(error)) => Err(error),
            None => Err(
                CaptureError {
                    kind: CaptureErrorKind::Unsupported,
                    message: "pointer display selection is currently available only on Windows".to_owned(),
                },
            ),
        },
        DisplayPolicy::Primary => Ok(CaptureSource::Display(DisplayId::primary())),
        DisplayPolicy::Fixed(id) => Ok(CaptureSource::Display(id.clone())),
        DisplayPolicy::VirtualDesktop => Ok(CaptureSource::VirtualDesktop),
    }
}

/// What a benchmark on the synthetic engine captures.
pub fn fake_benchmark_source(policy: &DisplayPolicy) -> (result: Result<CaptureSource, AppError>)
    ensures
        match policy@ {
            Policy::Primary => result matches Ok(CaptureSource::Display(id)) && id@ == "primary"@,
            Policy::Fixed(name) => result matches Ok(CaptureSource::Display(id)) && id@ == name,
            Policy::Pointer => result matches Err(AppError::InvalidArgument(text)) && text@
                == "the fake benchmark backend does not support pointer display selection"@,
            Policy::VirtualDesktop => result matches Err(AppError::InvalidArgument(text)) && text@
                == "the fake benchmark backend does not support virtual-desktop capture"@,
        },
{
    match policy {
        DisplayPolicy::Primary => Ok(CaptureSource::Display(DisplayId::primary())),
        DisplayPolicy::Fixed(id) => Ok(CaptureSource::Display(id.clone())),
        DisplayPolicy::Pointer => Err(
            AppError::InvalidArgument(
                "the fake benchmark backend does not support pointer display selection".to_owned(),
            ),
        ),
        DisplayPolicy::VirtualDesktop => Err(
            AppError::InvalidArgument(
                "the fake benchmark backend does not support virtual-desktop capture".to_owned(),
            ),
        ),
    }
}

/// The engine behind a capture.
#[derive(Clone, Copy, Debug, Eq, PartialEq, Structural)]
pub enum BackendChoice {
    /// Synthetic frames.
    Fake,
    /// The native engine.
    Dxgi,
}

/// The engine that a name stands for.
pub fn backend_named(name: &str) -> (result: Result<BackendChoice, AppError>)
    ensures
        if name@ == "fake"@ {
            result == Ok::<BackendChoice, AppError>(BackendChoice::Fake)
        } else if name@ == "auto"@ || name@ == "dxgi"@ {
            result == Ok::<BackendChoice, AppError>(BackendChoice::Dxgi)
        } else {
            result matches Err(AppError::BackendUnavailable(text)) && text@ == "unknown backend "@
                + name@ + "; available backends: fake, dxgi"@
        },
{
    if same(name, "fake") {
        return Ok(BackendChoice::Fake);
    }
    if same(name, "auto") || same(name, "dxgi") {
        return Ok(BackendChoice::Dxgi);
    }
    let mut text = "unknown backend ".to_owned();
    text.append(name);
    text.append("; available backends: fake, dxgi");
    Err(AppError::BackendUnavailable(text))
}

/// The display that the native engine is opened for, or `None` where it has to be able to capture
/// any of them.
pub fn dxgi_display(policy: &DisplayPolicy) -> (display: Option<DisplayId>)
    ensures
        match policy@ {
            Policy::Pointer | Policy::VirtualDesktop => display is None,
            Policy::Primary => display matches Some(id) && id@ == "primary"@,
            Policy::Fixed(name) => display matches Some(id) && id@ == name,
        },
{
    match policy {
        DisplayPolicy::Pointer => None,
        DisplayPolicy::VirtualDesktop => None,
        DisplayPolicy::Primary => Some(DisplayId::primary()),
        DisplayPolicy::Fixed(id) => Some(id.clone()),
    }
}

/// A display is chosen by what a text says between its white space: the pointer, the primary display,
/// all of them, or behind `display:` the display of that name. Any other text chooses none.
pub proof fn law_a_display_is_chosen_by_what_a_text_says(text: Seq<char>)
    ensures
        policy_in(text) == Some(Policy::Pointer) <==> trimmed(text) == "pointer"@,
        policy_in(text) == Some(Policy::Primary) <==> trimmed(text) == "primary"@,
        policy_in(text) == Some(Policy::VirtualDesktop) <==> trimmed(text) == "virtual_desktop"@,
        policy_in(text) matches Some(Policy::Fixed(id)) ==> id.len() > 0 && exists|rest: Seq<char>|
            trimmed(text) == #[trigger] ("display:"@ + rest) && trimmed(rest) == id,
        (exists|rest: Seq<char>|
            trimmed(text) == #[trigger] ("display:"@ + rest) && trimmed(rest).len() > 0)
            <==> policy_in(text) matches Some(Policy::Fixed(_)),
{
    reveal_strlit("pointer");
    reveal_strlit("primary");
    reveal_strlit("virtual_desktop");
    reveal_strlit("display:");
    let value = trimmed(text);
    assert("pointer"@[1] == 'o' && "primary"@[1] == 'r');
    assert("virtual_desktop"@[0] == 'v' && "display:"@[0] == 'd');
    if starts_with(value, "display:"@) {
        assert(value =~= "display:"@ + value.skip(8));
        assert(value[0] == value.take(8)[0]);
    }
    if exists|rest: Seq<char>|
        trimmed(text) == #[trigger] ("display:"@ + rest) && trimmed(rest).len() > 0 {
        let rest = choose|rest: Seq<char>|
            trimmed(text) == #[trigger] ("display:"@ + rest) && trimmed(rest).len() > 0;
        assert(value.skip(8) =~= rest);
        assert(value.take(8) =~= "display:"@);
        assert(value[0] == 'd');
    }
}

} // verus!
