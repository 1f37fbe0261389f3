//! The character classifier and the transition table: the formal grammar of
//! the validator.
//!
//! A raw byte is first mapped to a [`CharClass`], the structural category it
//! belongs to for grammar purposes. The transition table then maps the current
//! [`ParseState`] together with that class to a [`Transition`]: reject the
//! byte, advance to a new simple state, or advance and perform an operation on
//! the nesting stack. The table is the single source of truth for JSON
//! structural legality; the verifier contains no grammar knowledge beyond
//! looking transitions up and applying the prescribed stack effects.

use vstd::prelude::*;

verus! {

/// The parse state of the verifier.
///
/// `Done` means a complete value has just been closed at this position; it is
/// not terminal, since more input can still extend the document while a
/// nesting context remains open.
#[derive(Debug, Clone, Copy, PartialEq, Eq, Structural)]
pub enum ParseState {
    /// Initial state: nothing but whitespace consumed yet.
    Begin,
    /// Inside an object, just past a comma: a key string is expected.
    Key,
    /// A value is expected (after a colon, or after a comma in an array).
    Value,
    /// Inside or just past a key string: a colon is expected eventually.
    Colon,
    /// An array was just opened: a value or a closing bracket is expected.
    Array,
    /// An object was just opened: a key or a closing brace is expected.
    Object,
    /// A complete value has just been closed at this position.
    Done,
}

/// One entry of the nesting stack: the kind of container or sub-phase that is
/// currently open. The top of the stack identifies the innermost open
/// structure.
#[derive(Debug, Clone, Copy, PartialEq, Eq, Structural)]
pub enum Context {
    /// Inside an object, before the key's colon was seen: a key string or the
    /// object's closing brace is expected.
    Key,
    /// Inside an array: a value, a comma, or the closing bracket is expected.
    Array,
    /// Inside an object, past a key: a value, a comma, or the closing brace is
    /// expected.
    Object,
}

/// The lexical class a raw byte belongs to for grammar purposes. Bytes with
/// value at least 128 are never classified; they are the UTF-8 continuation
/// case that the verifier handles before consulting the classifier.
#[derive(Debug, Clone, Copy, PartialEq, Eq, Structural)]
pub enum CharClass {
    Whitespace,
    Quote,
    Colon,
    Comma,
    BraceOpen,
    BraceClose,
    BracketOpen,
    BracketClose,
    /// Any other allowed byte: content of a string literal, or part of a
    /// number or of one of the literal words.
    Literal,
}

/// A transition that additionally operates on the nesting stack.
#[derive(Debug, Clone, Copy, PartialEq, Eq, Structural)]
pub enum ComplexOp {
    /// A closing brace while an object was open but no key was written yet:
    /// pop one `Key` context.
    CloseEmptyObject,
    /// A closing brace after a value: pop one `Object` context.
    CloseObject,
    /// A closing bracket: pop one `Array` context.
    CloseArray,
    /// An opening brace: push a `Key` context.
    OpenObject,
    /// An opening bracket: push an `Array` context.
    OpenArray,
    /// A quote: the effect depends on the innermost open context.
    Quote,
    /// A comma: the effect depends on the innermost open context.
    Comma,
    /// A colon: the key just read is consumed, a value is expected next.
    Colon,
}

/// The outcome of a transition table lookup.
#[derive(Debug, Clone, Copy, PartialEq, Eq, Structural)]
pub enum Transition {
    /// The byte is not acceptable in the current state.
    Reject,
    /// Advance to the given state; the stack is untouched.
    Advance(ParseState),
    /// Advance and perform the given stack operation.
    AdvanceComplex(ComplexOp),
}

/// The lexical class of a byte, or `None` for a disallowed raw control
/// character. Meaningful for bytes below 128 only.
pub open spec fn classify(b: u8) -> Option<CharClass> {
    if b == 0x20 || b == 0x09 || b == 0x0a || b == 0x0d {
        Some(CharClass::Whitespace)
    } else if b == 0x22 {
        Some(CharClass::Quote)
    } else if b == 0x3a {
        Some(CharClass::Colon)
    } else if b == 0x2c {
        Some(CharClass::Comma)
    } else if b == 0x7b {
        Some(CharClass::BraceOpen)
    } else if b == 0x7d {
        Some(CharClass::BraceClose)
    } else if b == 0x5b {
        Some(CharClass::BracketOpen)
    } else if b == 0x5d {
        Some(CharClass::BracketClose)
    } else if b < 0x20 {
        None
    } else {
        Some(CharClass::Literal)
    }
}

/// The transition table: what a byte of the given class means in the given
/// state. Any pair that is not meaningful to the grammar yields `Reject`.
pub open spec fn transition_of(state: ParseState, class: CharClass) -> Transition {
    match class {
        CharClass::Whitespace => Transition::Advance(state),
        CharClass::Quote => Transition::AdvanceComplex(ComplexOp::Quote),
        CharClass::Colon => match state {
            ParseState::Colon => Transition::AdvanceComplex(ComplexOp::Colon),
            _ => Transition::Reject,
        },
        CharClass::Comma => match state {
            ParseState::Done => Transition::AdvanceComplex(ComplexOp::Comma),
            _ => Transition::Reject,
        },
        CharClass::BraceOpen => match state {
            ParseState::Begin | ParseState::Value | ParseState::Array => Transition::AdvanceComplex(
                ComplexOp::OpenObject,
            ),
            _ => Transition::Reject,
        },
        CharClass::BraceClose => match state {
            ParseState::Object => Transition::AdvanceComplex(ComplexOp::CloseEmptyObject),
            ParseState::Done => Transition::AdvanceComplex(ComplexOp::CloseObject),
            _ => Transition::Reject,
        },
        CharClass::BracketOpen => match state {
            ParseState::Begin | ParseState::Value | ParseState::Array => Transition::AdvanceComplex(
                ComplexOp::OpenArray,
            ),
            _ => Transition::Reject,
        },
        CharClass::BracketClose => match state {
            ParseState::Array | ParseState::Done => Transition::AdvanceComplex(
                ComplexOp::CloseArray,
            ),
            _ => Transition::Reject,
        },
        CharClass::Literal => match state {
            ParseState::Begin | ParseState::Value | ParseState::Array => Transition::Advance(
                ParseState::Done,
            ),
            ParseState::Colon => Transition::Advance(ParseState::Colon),
            ParseState::Done => Transition::Advance(ParseState::Done),
            _ => Transition::Reject,
        },
    }
}

/// Maps a raw input byte to its lexical class, or `None` for a disallowed raw
/// control character. Pure function, no state.
pub fn character_type(b: u8) -> (r: Option<CharClass>)
    ensures
        r == classify(b),
{
    match b {
        0x20 | 0x09 | 0x0a | 0x0d => Some(CharClass::Whitespace),
        0x22 => Some(CharClass::Quote),
        0x3a => Some(CharClass::Colon),
        0x2c => Some(CharClass::Comma),
        0x7b => Some(CharClass::BraceOpen),
        0x7d => Some(CharClass::BraceClose),
        0x5b => Some(CharClass::BracketOpen),
        0x5d => Some(CharClass::BracketClose),
        _ => {
            if b < 0x20 {
                None
            } else {
                Some(CharClass::Literal)
            }
        },
    }
}

/// Looks the transition up for the current state and a lexical class. Pure
/// function, no state.
pub fn transition(state: ParseState, class: CharClass) -> (r: Transition)
    ensures
        r == transition_of(state, class),
{
    match class {
        CharClass::Whitespace => Transition::Advance(state),
        CharClass::Quote => Transition::AdvanceComplex(ComplexOp::Quote),
        CharClass::Colon => match state {
            ParseState::Colon => Transition::AdvanceComplex(ComplexOp::Colon),
            _ => Transition::Reject,
        },
        CharClass::Comma => match state {
            ParseState::Done => Transition::AdvanceComplex(ComplexOp::Comma),
            _ => Transition::Reject,
        },
        CharClass::BraceOpen => match state {
            ParseState::Begin | ParseState::Value | ParseState::Array => Transition::AdvanceComplex(
                ComplexOp::OpenObject,
            ),
            _ => Transition::Reject,
        },
        CharClass::BraceClose => match state {
            ParseState::Object => Transition::AdvanceComplex(ComplexOp::CloseEmptyObject),
            ParseState::Done => Transition::AdvanceComplex(ComplexOp::CloseObject),
            _ => Transition::Reject,
        },
        CharClass::BracketOpen => match state {
            ParseState::Begin | ParseState::Value | ParseState::Array => Transition::AdvanceComplex(
                ComplexOp::OpenArray,
            ),
            _ => Transition::Reject,
        },
        CharClass::BracketClose => match state {
            ParseState::Array | ParseState::Done => Transition::AdvanceComplex(
                ComplexOp::CloseArray,
            ),
            _ => Transition::Reject,
        },
        CharClass::Literal => match state {
            ParseState::Begin | ParseState::Value | ParseState::Array => Transition::Advance(
                ParseState::Done,
            ),
            ParseState::Colon => Transition::Advance(ParseState::Colon),
            ParseState::Done => Transition::Advance(ParseState::Done),
            _ => Transition::Reject,
        },
    }
}

} // verus!
