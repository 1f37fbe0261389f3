//! The verifier: a state machine that consumes one byte at a time and tracks
//! whether the bytes seen so far form (a prefix of) a structurally well-formed
//! JSON document.
//!
//! The behaviour of the machine is captured by the pure transition function
//! [`step`] over the mathematical model [`VerifierModel`]; every method of
//! [`JsonVerifier`] is specified against that model.

use vstd::prelude::*;

use crate::table::classify;
use crate::table::character_type;
use crate::table::transition;
use crate::table::transition_of;
use crate::table::CharClass;
use crate::table::ComplexOp;
use crate::table::Context;
use crate::table::ParseState;
use crate::table::Transition;
use crate::JsonError;
use crate::JsonStatus;

verus! {

/// The mathematical model of a [`JsonVerifier`]: the configured maximum
/// nesting depth, the parse state, the nesting stack (bottom first), the
/// nesting stack as it stood at the last fully valid position, the number of
/// bytes accepted so far, and the number of bytes accepted at the last point
/// where the state was [`ParseState::Done`].
#[verifier::ext_equal]
pub ghost struct VerifierModel {
    pub maximum: nat,
    pub state: ParseState,
    pub stack: Seq<Context>,
    pub ok_stack: Seq<Context>,
    pub length: nat,
    pub last_ok: nat,
}

/// No entry of the stack is a context still awaiting its key's colon.
pub open spec fn key_free(stack: Seq<Context>) -> bool {
    forall|i: int| 0 <= i < stack.len() ==> stack[i] != Context::Key
}

impl VerifierModel {
    /// The model of a freshly constructed verifier with the given maximum
    /// depth.
    pub open spec fn init(maximum: nat) -> VerifierModel {
        VerifierModel {
            maximum: maximum,
            state: ParseState::Begin,
            stack: Seq::empty(),
            ok_stack: Seq::empty(),
            length: 0,
            last_ok: 0,
        }
    }

    /// Where a context awaiting its key's colon can stand, given the state:
    /// such a context is only ever the top of the stack, it is there exactly
    /// in the key-reading states, and the initial state has an empty stack.
    /// In particular, whenever a value has just been closed, no context on
    /// the stack awaits a key.
    pub open spec fn key_invariant(self) -> bool {
        match self.state {
            ParseState::Begin => self.stack.len() == 0,
            ParseState::Key | ParseState::Colon | ParseState::Object => self.stack.len() > 0
                && self.stack.last() == Context::Key && key_free(self.stack.drop_last()),
            ParseState::Value | ParseState::Array | ParseState::Done => key_free(self.stack),
        }
    }

    /// Well-formedness: the maximum depth is positive, the stack never
    /// exceeds it, the last fully valid position never exceeds the total
    /// accepted length, and contexts awaiting a key stand only where the
    /// state allows them.
    pub open spec fn wf(self) -> bool {
        &&& 1 <= self.maximum
        &&& self.stack.len() <= self.maximum
        &&& self.last_ok <= self.length
        &&& self.key_invariant()
    }

    /// The model after accepting one byte and moving to state `s`: the length
    /// counter advances, and if the new state is `Done` the last fully valid
    /// position and the stack snapshot taken there are brought up to date.
    pub open spec fn advanced(self, s: ParseState) -> VerifierModel {
        VerifierModel {
            state: s,
            length: self.length + 1,
            last_ok: if s == ParseState::Done {
                self.length + 1
            } else {
                self.last_ok
            },
            ok_stack: if s == ParseState::Done {
                self.stack
            } else {
                self.ok_stack
            },
            ..self
        }
    }

    /// The same model with the nesting stack replaced.
    pub open spec fn with_stack(self, stack: Seq<Context>) -> VerifierModel {
        VerifierModel { stack: stack, ..self }
    }
}

/// The status of a model: `Valid` exactly when the state is `Done` and the
/// nesting stack is empty.
pub open spec fn status_of(m: VerifierModel) -> JsonStatus {
    if m.state == ParseState::Done && m.stack.len() == 0 {
        JsonStatus::Valid
    } else {
        JsonStatus::Continue
    }
}

/// The stack effect of a complex transition, per the grammar: push on open
/// (bounded by the maximum depth), pop the matching context on close, and
/// resolve quotes, commas and colons against the innermost open context. Any
/// mismatch is a syntax failure that leaves the model unchanged.
pub open spec fn step_complex(m: VerifierModel, op: ComplexOp) -> Result<VerifierModel, JsonError> {
    match op {
        ComplexOp::CloseEmptyObject => if m.stack.len() > 0 && m.stack.last() == Context::Key {
            Ok(m.with_stack(m.stack.drop_last()).advanced(ParseState::Done))
        } else {
            Err(JsonError::Invalid)
        },
        ComplexOp::CloseObject => if m.stack.len() > 0 && m.stack.last() == Context::Object {
            Ok(m.with_stack(m.stack.drop_last()).advanced(ParseState::Done))
        } else {
            Err(JsonError::Invalid)
        },
        ComplexOp::CloseArray => if m.stack.len() > 0 && m.stack.last() == Context::Array {
            Ok(m.with_stack(m.stack.drop_last()).advanced(ParseState::Done))
        } else {
            Err(JsonError::Invalid)
        },
        ComplexOp::OpenObject => if m.stack.len() < m.maximum {
            Ok(m.with_stack(m.stack.push(Context::Key)).advanced(ParseState::Object))
        } else {
            Err(JsonError::Exceeded)
        },
        ComplexOp::OpenArray => if m.stack.len() < m.maximum {
            Ok(m.with_stack(m.stack.push(Context::Array)).advanced(ParseState::Array))
        } else {
            Err(JsonError::Exceeded)
        },
        ComplexOp::Quote => if m.stack.len() > 0 && m.stack.last() == Context::Key {
            Ok(m.advanced(ParseState::Colon))
        } else if m.stack.len() > 0 {
            Ok(m.advanced(ParseState::Done))
        } else {
            Err(JsonError::Invalid)
        },
        ComplexOp::Comma => if m.stack.len() > 0 && m.stack.last() == Context::Object {
            Ok(
                m.with_stack(m.stack.update(m.stack.len() - 1, Context::Key)).advanced(
                    ParseState::Key,
                ),
            )
        } else if m.stack.len() > 0 && m.stack.last() == Context::Array {
            Ok(m.advanced(ParseState::Value))
        } else {
            Err(JsonError::Invalid)
        },
        ComplexOp::Colon => if m.stack.len() > 0 && m.stack.last() == Context::Key {
            Ok(
                m.with_stack(m.stack.update(m.stack.len() - 1, Context::Object)).advanced(
                    ParseState::Value,
                ),
            )
        } else {
            Err(JsonError::Invalid)
        },
    }
}

/// The pure transition function of the verifier: what one byte does to the
/// model. A byte of 128 or above is a UTF-8 continuation byte and reaffirms
/// the current state; any other byte is classified and looked up in the
/// transition table. An error leaves the model unchanged.
pub open spec fn step(m: VerifierModel, b: u8) -> Result<VerifierModel, JsonError> {
    if 128 <= b {
        Ok(m.advanced(m.state))
    } else {
        match classify(b) {
            None => Err(JsonError::Invalid),
            Some(class) => match transition_of(m.state, class) {
                Transition::Reject => Err(JsonError::Invalid),
                Transition::Advance(s) => Ok(m.advanced(s)),
                Transition::AdvanceComplex(op) => step_complex(m, op),
            },
        }
    }
}

/// A step that succeeds preserves well-formedness and the configured maximum.
pub proof fn lemma_step_wf(m: VerifierModel, b: u8)
    requires
        m.wf(),
        step(m, b) is Ok,
    ensures
        step(m, b)->Ok_0.wf(),
        step(m, b)->Ok_0.maximum == m.maximum,
{
    let m2 = step(m, b)->Ok_0;
    let s = m.stack;
    let top = s.len() - 1;
    if b < 128 {
        match classify(b) {
            Some(class) => match transition_of(m.state, class) {
                Transition::AdvanceComplex(op) => match op {
                    ComplexOp::CloseEmptyObject | ComplexOp::CloseObject
                        | ComplexOp::CloseArray => {
                        assert forall|i: int| 0 <= i < s.drop_last().len() implies s.drop_last()[i]
                            != Context::Key by {
                            assert(s.drop_last()[i] == s[i]);
                        }
                    },
                    ComplexOp::OpenObject => {
                        assert(s.push(Context::Key).drop_last() =~= s);
                    },
                    ComplexOp::OpenArray => {
                        assert(key_free(s.push(Context::Array)));
                    },
                    ComplexOp::Comma => {
                        if s.len() > 0 && s.last() == Context::Object {
                            let s2 = s.update(top, Context::Key);
                            assert(s2.last() == Context::Key);
                            assert(s2.drop_last() =~= s.drop_last());
                            assert forall|i: int| 0 <= i < s.drop_last().len() implies s.drop_last()[i]
                                != Context::Key by {
                                assert(s.drop_last()[i] == s[i]);
                            }
                        }
                    },
                    ComplexOp::Colon => {
                        if s.len() > 0 && s.last() == Context::Key {
                            let s2 = s.update(top, Context::Object);
                            assert forall|i: int| 0 <= i < s2.len() implies s2[i] != Context::Key by {
                                if i < top {
                                    assert(s2[i] == s.drop_last()[i]);
                                }
                            }
                        }
                    },
                    _ => {},
                },
                _ => {},
            },
            None => {},
        }
    }
}

/// A fast, byte-at-a-time JSON syntax validator.
///
/// An invocation of `update` mutates the state only if the byte keeps the
/// input sequence a prefix of a structurally valid JSON document. If the byte
/// would make the sequence invalid, `update` returns an error and keeps its
/// state: the next invocation operates as if the bad byte had never been
/// applied, so a caller may test bytes for validity one after the other until
/// one is accepted.
pub struct JsonVerifier {
    maximum: usize,
    state: ParseState,
    stack: Vec<Context>,
    ok_stack: Vec<Context>,
    length: usize,
    last_ok: usize,
}

impl View for JsonVerifier {
    type V = VerifierModel;

    closed spec fn view(&self) -> VerifierModel {
        VerifierModel {
            maximum: self.maximum as nat,
            state: self.state,
            stack: self.stack@,
            ok_stack: self.ok_stack@,
            length: self.length as nat,
            last_ok: self.last_ok as nat,
        }
    }
}

/// A copy of a stack of nesting contexts.
fn copy_contexts(v: &Vec<Context>) -> (r: Vec<Context>)
    ensures
        r@ == v@,
{
    let mut r: Vec<Context> = Vec::new();
    let mut i: usize = 0;
    proof {
        assert(v@.take(0) =~= Seq::<Context>::empty());
    }
    while i < v.len()
        invariant
            i <= v@.len(),
            r@ == v@.take(i as int),
        decreases v@.len() - i,
    {
        r.push(v[i]);
        i = i + 1;
        proof {
            assert(v@.take(i as int) =~= v@.take(i as int - 1).push(v@[i as int - 1]));
        }
    }
    proof {
        assert(v@.take(v@.len() as int) =~= v@);
    }
    r
}

impl JsonVerifier {
    /// A fresh verifier with an effectively unbounded maximum depth.
    pub fn new() -> (r: JsonVerifier)
        ensures
            r@ == VerifierModel::init(usize::MAX as nat),
            r@.wf(),
    {
        JsonVerifier::with_maximum_depth(usize::MAX)
    }

    /// A fresh verifier that fails with [`JsonError::Exceeded`] as soon as
    /// more than `maximum_depth` containers are open at once.
    pub fn with_maximum_depth(maximum_depth: usize) -> (r: JsonVerifier)
        requires
            maximum_depth >= 1,
        ensures
            r@ == VerifierModel::init(maximum_depth as nat),
            r@.wf(),
    {
        let r = JsonVerifier {
            stack: Vec::new(),
            ok_stack: Vec::new(),
            state: ParseState::Begin,
            maximum: maximum_depth,
            length: 0,
            last_ok: 0,
        };
        proof {
            assert(r@ =~= VerifierModel::init(maximum_depth as nat));
        }
        r
    }

    /// The number of bytes accepted so far.
    pub fn len(&self) -> (r: usize)
        ensures
            r as nat == self@.length,
    {
        self.length
    }

    /// `Valid` exactly when the bytes accepted so far form a complete JSON
    /// document: a value has just been closed and no nesting context remains
    /// open. Otherwise `Continue`: more bytes are needed.
    pub fn status(&self) -> (r: JsonStatus)
        ensures
            r == status_of(self@),
    {
        if self.state == ParseState::Done && self.stack.len() == 0 {
            JsonStatus::Valid
        } else {
            JsonStatus::Continue
        }
    }

    /// Returns the verifier to its initial state, keeping the configured
    /// maximum depth: afterwards it behaves exactly like a freshly
    /// constructed verifier with the same configuration.
    pub fn reset(&mut self)
        ensures
            final(self)@ == VerifierModel::init(old(self)@.maximum),
    {
        self.length = 0;
        self.last_ok = 0;
        self.state = ParseState::Begin;
        self.stack.clear();
        self.ok_stack.clear();
        proof {
            assert(self@ =~= VerifierModel::init(old(self)@.maximum));
        }
    }

    /// Applies one byte to the verifier, exactly as the transition function
    /// [`step`] prescribes: on success the model advances to `step`'s result;
    /// on failure the returned error is `step`'s error and the state is left
    /// unchanged, so the bad byte can be retried or replaced.
    pub fn update(&mut self, character: u8) -> (r: Result<(), JsonError>)
        requires
            old(self)@.wf(),
            old(self)@.length < usize::MAX,
        ensures
            final(self)@.wf(),
            final(self)@.maximum == old(self)@.maximum,
            (match step(old(self)@, character) {
                Ok(m) => r is Ok && final(self)@ == m,
                Err(e) => r == Err::<(), JsonError>(e) && final(self)@ == old(self)@,
            }),
    {
        proof {
            if step(old(self)@, character) is Ok {
                lemma_step_wf(old(self)@, character);
            }
        }
        // utf8 continuation.
        if character >= 128 {
            let s = self.state;
            self.state(s);
            return Ok(());
        }
        let character_class = match character_type(character) {
            Some(class) => class,
            None => {
                return Err(JsonError::Invalid);
            },
        };
        match transition(self.state, character_class) {
            Transition::Reject => Err(JsonError::Invalid),
            Transition::Advance(s) => {
                self.state(s);
                Ok(())
            },
            Transition::AdvanceComplex(op) => match op {
                ComplexOp::CloseEmptyObject => {
                    self.pop(Context::Key)?;
                    self.state(ParseState::Done);
                    Ok(())
                },
                ComplexOp::CloseObject => {
                    self.pop(Context::Object)?;
                    self.state(ParseState::Done);
                    Ok(())
                },
                ComplexOp::CloseArray => {
                    self.pop(Context::Array)?;
                    self.state(ParseState::Done);
                    Ok(())
                },
                ComplexOp::OpenObject => {
                    self.push(Context::Key)?;
                    self.state(ParseState::Object);
                    Ok(())
                },
                ComplexOp::OpenArray => {
                    self.push(Context::Array)?;
                    self.state(ParseState::Array);
                    Ok(())
                },
                ComplexOp::Quote => {
                    if self.stack.len() > 0 {
                        match self.stack[self.stack.len() - 1] {
                            Context::Key => self.state(ParseState::Colon),
                            _ => self.state(ParseState::Done),
                        }
                        Ok(())
                    } else {
                        Err(JsonError::Invalid)
                    }
                },
                ComplexOp::Comma => {
                    if self.stack.len() > 0 {
                        match self.stack[self.stack.len() - 1] {
                            Context::Object => {
                                self.switch(Context::Object, Context::Key)?;
                                self.state(ParseState::Key);
                                Ok(())
                            },
                            Context::Array => {
                                self.state(ParseState::Value);
                                Ok(())
                            },
                            Context::Key => Err(JsonError::Invalid),
                        }
                    } else {
                        Err(JsonError::Invalid)
                    }
                },
                ComplexOp::Colon => {
                    self.switch(Context::Key, Context::Object)?;
                    self.state(ParseState::Value);
                    Ok(())
                },
            },
        }
    }

    /// The byte count at which the document was last fully valid, and the
    /// closing bytes synthesized from the nesting stack as it stood at that
    /// position, innermost context first: `]` for each open array and `}`
    /// for each open object. Containers opened after that position are not
    /// closed: their opening bytes fall to the same truncation that the
    /// completion applies. Read-only.
    pub(crate) fn complete(&self) -> (r: (usize, Vec<u8>))
        ensures
            r.0 as nat == self@.last_ok,
            r.1@ == closers(self@.ok_stack),
    {
        let mut tokens: Vec<u8> = Vec::new();
        let mut i: usize = self.ok_stack.len();
        proof {
            assert(self.ok_stack@.skip(i as int) =~= Seq::<Context>::empty());
        }
        while i > 0
            invariant
                i <= self.ok_stack@.len(),
                tokens@ == closers(self.ok_stack@.skip(i as int)),
            decreases i,
        {
            i = i - 1;
            match self.ok_stack[i] {
                Context::Array => tokens.push(0x5du8),
                Context::Object => tokens.push(0x7du8),
                Context::Key => {},
            }
            proof {
                let s = self.ok_stack@;
                assert(s.skip(i as int).drop_first() =~= s.skip(i as int + 1));
                assert(tokens@ =~= closers(s.skip(i as int)));
            }
        }
        proof {
            assert(self.ok_stack@.skip(0) =~= self.ok_stack@);
        }
        (self.last_ok, tokens)
    }

    /// Pushes a nesting context, unless the stack is already at the
    /// configured maximum depth; in that case nothing changes and the depth
    /// failure is returned.
    fn push(&mut self, ty: Context) -> (r: Result<(), JsonError>)
        requires
            old(self)@.length < usize::MAX,
        ensures
            final(self)@.length == old(self)@.length,
            (if old(self)@.stack.len() < old(self)@.maximum {
                r is Ok && final(self)@ == old(self)@.with_stack(old(self)@.stack.push(ty))
            } else {
                r == Err::<(), JsonError>(JsonError::Exceeded) && final(self)@ == old(self)@
            }),
    {
        if self.stack.len() < self.maximum {
            self.stack.push(ty);
            Ok(())
        } else {
            Err(JsonError::Exceeded)
        }
    }

    /// Pops the innermost nesting context if it matches `ty`; a mismatch (or
    /// an empty stack) is a syntax failure that changes nothing.
    fn pop(&mut self, ty: Context) -> (r: Result<(), JsonError>)
        ensures
            final(self)@.length == old(self)@.length,
            (if old(self)@.stack.len() > 0 && old(self)@.stack.last() == ty {
                r is Ok && final(self)@ == old(self)@.with_stack(old(self)@.stack.drop_last())
            } else {
                r == Err::<(), JsonError>(JsonError::Invalid) && final(self)@ == old(self)@
            }),
    {
        if self.stack.len() > 0 && self.stack[self.stack.len() - 1] == ty {
            self.stack.pop();
            proof {
                assert(self@ =~= old(self)@.with_stack(old(self)@.stack.drop_last()));
            }
            Ok(())
        } else {
            Err(JsonError::Invalid)
        }
    }

    /// Replaces the innermost nesting context `from` with `to`; a mismatch is
    /// a syntax failure that changes nothing.
    fn switch(&mut self, from: Context, to: Context) -> (r: Result<(), JsonError>)
        requires
            old(self)@.length < usize::MAX,
            old(self)@.stack.len() <= old(self)@.maximum,
        ensures
            final(self)@.length == old(self)@.length,
            (if old(self)@.stack.len() > 0 && old(self)@.stack.last() == from {
                r is Ok && final(self)@ == old(self)@.with_stack(
                    old(self)@.stack.update(old(self)@.stack.len() - 1, to),
                )
            } else {
                r == Err::<(), JsonError>(JsonError::Invalid) && final(self)@ == old(self)@
            }),
    {
        self.pop(from)?;
        let r = self.push(to);
        proof {
            assert(r is Ok);
            assert(
                old(self)@.stack.drop_last().push(to) =~= old(self)@.stack.update(
                    old(self)@.stack.len() - 1,
                    to,
                )
            );
            assert(self@ =~= old(self)@.with_stack(
                old(self)@.stack.update(old(self)@.stack.len() - 1, to),
            ));
        }
        Ok(())
    }

    /// Accepts the current byte: records the new state, advances the length
    /// counter, and if the new state is `Done` marks this position as the
    /// last fully valid one and snapshots the nesting stack as it stands
    /// there, for the completion to close from.
    fn state(&mut self, state: ParseState)
        requires
            old(self)@.length < usize::MAX,
        ensures
            final(self)@ == old(self)@.advanced(state),
    {
        self.state = state;
        self.length = self.length + 1;
        if self.state == ParseState::Done {
            self.last_ok = self.length;
            let snapshot = copy_contexts(&self.stack);
            self.ok_stack = snapshot;
        }
        proof {
            assert(self@ =~= old(self)@.advanced(state));
        }
    }
}

/// The closing byte for one nesting context: `]` for an open array, `}` for
/// an open object. A context still awaiting its key's colon cannot be closed
/// by punctuation and contributes nothing; the stacks the completion closes
/// are snapshots taken where a value had just closed, which hold no such
/// context.
pub open spec fn close_byte(c: Context) -> Seq<u8> {
    match c {
        Context::Key => Seq::empty(),
        Context::Array => seq![0x5du8],
        Context::Object => seq![0x7du8],
    }
}

/// See [`close_byte`]: the whole stack's closing bytes, top of the stack
/// first.
pub open spec fn closers(stack: Seq<Context>) -> Seq<u8>
    decreases stack.len(),
{
    if stack.len() == 0 {
        Seq::empty()
    } else {
        closers(stack.drop_first()) + close_byte(stack.first())
    }
}

/// The closing bytes can also be peeled off at the top of the stack.
pub proof fn lemma_closers_unsnoc(stack: Seq<Context>)
    requires
        stack.len() > 0,
    ensures
        closers(stack) == close_byte(stack.last()) + closers(stack.drop_last()),
    decreases stack.len(),
{
    if stack.len() == 1 {
        assert(stack.drop_first() =~= Seq::<Context>::empty());
        assert(stack.drop_last() =~= Seq::<Context>::empty());
        assert(closers(stack) =~= close_byte(stack.last()) + closers(stack.drop_last()));
    } else {
        let rest = stack.drop_first();
        lemma_closers_unsnoc(rest);
        assert(rest.drop_last() =~= stack.drop_last().drop_first());
        assert(stack.drop_last().first() == stack.first());
        assert(closers(stack) =~= close_byte(stack.last()) + closers(stack.drop_last()));
    }
}

/// Whether every byte of `s`, fed in order, is accepted from model `m`.
pub open spec fn accepts(m: VerifierModel, s: Seq<u8>) -> bool
    decreases s.len(),
{
    s.len() == 0 || (step(m, s.first()) is Ok && accepts(step(m, s.first())->Ok_0, s.drop_first()))
}

/// The model after feeding every byte of `s` in order, where a rejected byte
/// leaves the model unchanged, exactly as `update` does.
pub open spec fn run(m: VerifierModel, s: Seq<u8>) -> VerifierModel
    decreases s.len(),
{
    if s.len() == 0 {
        m
    } else {
        match step(m, s.first()) {
            Ok(m2) => run(m2, s.drop_first()),
            Err(_) => run(m, s.drop_first()),
        }
    }
}

/// The length of the longest prefix of `s` whose bytes, fed in order, are all
/// accepted: the position of the first rejected byte, if any.
pub open spec fn accepted_len(m: VerifierModel, s: Seq<u8>) -> nat
    decreases s.len(),
{
    if s.len() == 0 {
        0
    } else {
        match step(m, s.first()) {
            Ok(m2) => 1 + accepted_len(m2, s.drop_first()),
            Err(_) => 0,
        }
    }
}

/// Pins `accepted_len` down: if the first `i` bytes are accepted and the
/// byte after them (if any) is rejected, the accepted prefix length is `i`.
pub proof fn lemma_accepted_len_of(m: VerifierModel, s: Seq<u8>, i: int)
    requires
        0 <= i <= s.len(),
        accepts(m, s.take(i)),
        i < s.len() ==> step(run(m, s.take(i)), s[i]) is Err,
    ensures
        accepted_len(m, s) == i,
    decreases s.len(),
{
    if i == 0 {
        assert(s.take(0) =~= Seq::<u8>::empty());
        assert(run(m, s.take(0)) == m);
        if s.len() > 0 {
            assert(step(m, s.first()) is Err);
        }
    } else {
        assert(s.take(i).first() == s.first());
        assert(s.take(i).drop_first() =~= s.drop_first().take(i - 1));
        let m2 = step(m, s.first())->Ok_0;
        assert(run(m, s.take(i)) == run(m2, s.drop_first().take(i - 1)));
        if i < s.len() {
            assert(s.drop_first()[i - 1] == s[i]);
        }
        lemma_accepted_len_of(m2, s.drop_first(), i - 1);
    }
}

/// Feeding any byte sequence preserves well-formedness and the configured
/// maximum.
pub proof fn lemma_run_wf(m: VerifierModel, s: Seq<u8>)
    requires
        m.wf(),
    ensures
        run(m, s).wf(),
        run(m, s).maximum == m.maximum,
    decreases s.len(),
{
    if s.len() > 0 {
        match step(m, s.first()) {
            Ok(m2) => {
                lemma_step_wf(m, s.first());
                lemma_run_wf(m2, s.drop_first());
            },
            Err(_) => {
                lemma_run_wf(m, s.drop_first());
            },
        }
    }
}

/// An accepted sequence can be extended by one more accepted byte.
pub proof fn lemma_run_snoc(m: VerifierModel, s: Seq<u8>, b: u8)
    requires
        accepts(m, s),
        step(run(m, s), b) is Ok,
    ensures
        accepts(m, s.push(b)),
        run(m, s.push(b)) == step(run(m, s), b)->Ok_0,
    decreases s.len(),
{
    if s.len() == 0 {
        let m2 = step(m, b)->Ok_0;
        assert(s.push(b).first() == b);
        assert(s.push(b).drop_first() =~= Seq::<u8>::empty());
        assert(accepts(m2, Seq::<u8>::empty()));
        assert(run(m2, Seq::<u8>::empty()) == m2);
        assert(accepts(m, s.push(b)));
        assert(run(m, s.push(b)) == m2);
    } else {
        let m2 = step(m, s.first())->Ok_0;
        assert(s.push(b).first() == s.first());
        assert(s.push(b).drop_first() =~= s.drop_first().push(b));
        lemma_run_snoc(m2, s.drop_first(), b);
        assert(accepts(m2, s.drop_first().push(b)));
        assert(accepts(m, s.push(b)));
        assert(run(m, s.push(b)) == run(m2, s.drop_first().push(b)));
    }
}

/// An accepted sequence can also be taken apart at its last byte.
pub proof fn lemma_accepts_unsnoc(m: VerifierModel, s: Seq<u8>, b: u8)
    requires
        accepts(m, s.push(b)),
    ensures
        accepts(m, s),
        step(run(m, s), b) is Ok,
        run(m, s.push(b)) == step(run(m, s), b)->Ok_0,
    decreases s.len(),
{
    if s.len() == 0 {
        assert(s.push(b).first() == b);
        assert(s.push(b).drop_first() =~= Seq::<u8>::empty());
        assert(run(m, Seq::<u8>::empty()) == m);
        assert(run(m, s) == m);
        assert(accepts(m, s));
        let m2 = step(m, b)->Ok_0;
        assert(run(m2, Seq::<u8>::empty()) == m2);
        assert(run(m, s.push(b)) == m2);
    } else {
        assert(s.push(b).first() == s.first());
        assert(s.push(b).drop_first() =~= s.drop_first().push(b));
        let m2 = step(m, s.first())->Ok_0;
        lemma_accepts_unsnoc(m2, s.drop_first(), b);
        assert(accepts(m, s));
        assert(run(m, s) == run(m2, s.drop_first()));
        assert(run(m, s.push(b)) == run(m2, s.drop_first().push(b)));
    }
}

/// Every accepted byte advances the length counter by exactly one.
pub proof fn lemma_run_length(m: VerifierModel, s: Seq<u8>)
    requires
        accepts(m, s),
    ensures
        run(m, s).length == m.length + s.len(),
    decreases s.len(),
{
    if s.len() > 0 {
        lemma_run_length(step(m, s.first())->Ok_0, s.drop_first());
    }
}

/// A step that succeeds advances the length counter by one, and brings the
/// last fully valid position and the stack snapshot taken there up to date
/// exactly when the new state has just closed a value.
pub proof fn lemma_step_counters(m: VerifierModel, b: u8)
    requires
        step(m, b) is Ok,
    ensures
        step(m, b)->Ok_0.length == m.length + 1,
        step(m, b)->Ok_0.last_ok == (if step(m, b)->Ok_0.state == ParseState::Done {
            m.length + 1 as nat
        } else {
            m.last_ok
        }),
        step(m, b)->Ok_0.ok_stack == (if step(m, b)->Ok_0.state == ParseState::Done {
            step(m, b)->Ok_0.stack
        } else {
            m.ok_stack
        }),
{
}

/// Law: after feeding an accepted byte sequence to a fresh verifier, the
/// last fully valid position is the largest prefix length at which the state
/// had just closed a value — zero when no prefix ever did — and the stack
/// snapshot is exactly the nesting stack as it stood at that position.
pub proof fn lemma_last_ok_marks_latest_done(max: nat, d: Seq<u8>)
    requires
        max >= 1,
        accepts(VerifierModel::init(max), d),
    ensures
        run(VerifierModel::init(max), d).last_ok <= d.len(),
        run(VerifierModel::init(max), d).last_ok > 0 ==> run(
            VerifierModel::init(max),
            d.take(run(VerifierModel::init(max), d).last_ok as int),
        ).state == ParseState::Done,
        run(VerifierModel::init(max), d).last_ok > 0 ==> run(
            VerifierModel::init(max),
            d.take(run(VerifierModel::init(max), d).last_ok as int),
        ).stack == run(VerifierModel::init(max), d).ok_stack,
        run(VerifierModel::init(max), d).last_ok == 0 ==> run(VerifierModel::init(max), d).ok_stack
            == Seq::<Context>::empty(),
        forall|j: int|
            run(VerifierModel::init(max), d).last_ok < j <= d.len() ==> run(
                VerifierModel::init(max),
                d.take(j),
            ).state != ParseState::Done,
    decreases d.len(),
{
    let init = VerifierModel::init(max);
    if d.len() == 0 {
        assert(run(init, d) == init);
    } else {
        let d0 = d.drop_last();
        let b = d.last();
        assert(d0.push(b) =~= d);
        lemma_accepts_unsnoc(init, d0, b);
        lemma_last_ok_marks_latest_done(max, d0);
        lemma_run_length(init, d0);
        let prev = run(init, d0);
        let m = step(prev, b)->Ok_0;
        lemma_step_counters(prev, b);
        assert(run(init, d) == m);
        if m.state == ParseState::Done {
            assert(m.last_ok == d.len());
            assert(m.ok_stack == m.stack);
            assert(d.take(d.len() as int) =~= d);
        } else {
            assert(m.last_ok == prev.last_ok);
            assert(m.ok_stack == prev.ok_stack);
            if m.last_ok > 0 {
                assert(d.take(m.last_ok as int) =~= d0.take(m.last_ok as int));
            }
            assert forall|j: int| m.last_ok < j <= d.len() implies run(init, d.take(j)).state
                != ParseState::Done by {
                if j <= d0.len() {
                    assert(d.take(j) =~= d0.take(j));
                } else {
                    assert(d.take(j) =~= d);
                }
            }
        }
    }
}

/// Law: every prefix of an accepted byte sequence is accepted, so feeding a
/// well-formed document byte by byte returns success at every intermediate
/// call, not only at the end.
pub proof fn lemma_prefix_accepted(m: VerifierModel, s: Seq<u8>, i: int)
    requires
        accepts(m, s),
        0 <= i <= s.len(),
    ensures
        accepts(m, s.take(i)),
    decreases s.len(),
{
    if i > 0 && s.len() > 0 {
        assert(s.take(i).first() == s.first());
        assert(s.take(i).drop_first() =~= s.drop_first().take(i - 1));
        lemma_prefix_accepted(step(m, s.first())->Ok_0, s.drop_first(), i - 1);
    }
}

/// Feeding a concatenation is feeding the parts one after the other.
pub proof fn lemma_run_append(m: VerifierModel, s1: Seq<u8>, s2: Seq<u8>)
    requires
        accepts(m, s1),
    ensures
        run(m, s1 + s2) == run(run(m, s1), s2),
        accepts(m, s1 + s2) == accepts(run(m, s1), s2),
    decreases s1.len(),
{
    if s1.len() == 0 {
        assert(s1 + s2 =~= s2);
    } else {
        assert((s1 + s2).first() == s1.first());
        assert((s1 + s2).drop_first() =~= s1.drop_first() + s2);
        lemma_run_append(step(m, s1.first())->Ok_0, s1.drop_first(), s2);
    }
}

/// Law: when the state machine has just closed a value, feeding the closing
/// bytes synthesized from its stack seals every open container and ends with
/// a valid document. (No context awaits a key there: well-formedness puts
/// such a context only under the key-reading states.)
pub proof fn lemma_completion_closes(m: VerifierModel)
    requires
        m.wf(),
        m.state == ParseState::Done,
    ensures
        accepts(m, closers(m.stack)),
        status_of(run(m, closers(m.stack))) == JsonStatus::Valid,
    decreases m.stack.len(),
{
    if m.stack.len() == 0 {
        assert(closers(m.stack) =~= Seq::<u8>::empty());
    } else {
        lemma_closers_unsnoc(m.stack);
        let top = m.stack.last();
        let b: u8 = if top == Context::Object {
            0x7du8
        } else {
            0x5du8
        };
        assert(closers(m.stack).first() == b);
        assert(closers(m.stack).drop_first() =~= closers(m.stack.drop_last()));
        let m2 = step(m, b)->Ok_0;
        assert(m2.stack == m.stack.drop_last());
        lemma_step_wf(m, b);
        lemma_completion_closes(m2);
    }
}

/// Whether a byte asks, in the given state, for a new container to be opened.
pub open spec fn opens_container(state: ParseState, b: u8) -> bool {
    b < 128 && match classify(b) {
        Some(class) => transition_of(state, class) == Transition::AdvanceComplex(
            ComplexOp::OpenObject,
        ) || transition_of(state, class) == Transition::AdvanceComplex(ComplexOp::OpenArray),
        None => false,
    }
}

/// Law: a byte fails with the depth failure exactly when it would open one
/// more container while the stack already stands at the configured maximum:
/// not before, not after, and never for any other kind of byte.
pub proof fn lemma_depth_exceeded(m: VerifierModel, b: u8)
    requires
        m.wf(),
    ensures
        step(m, b) == Err::<VerifierModel, JsonError>(JsonError::Exceeded) <==> (m.stack.len()
            == m.maximum && opens_container(m.state, b)),
{
}

/// Law: a rejected byte leaves the model unchanged, so rejection is
/// idempotent: feeding the same bad byte again yields the very same error,
/// and the model still stands where it stood before the first attempt.
pub proof fn lemma_rejection_idempotent(m: VerifierModel, b: u8)
    requires
        step(m, b) is Err,
    ensures
        run(m, seq![b, b]) == m,
        step(run(m, seq![b]), b) == step(m, b),
{
    assert(seq![b, b].first() == b);
    assert(seq![b, b].drop_first() =~= seq![b]);
    assert(seq![b].first() == b);
    assert(seq![b].drop_first() =~= Seq::<u8>::empty());
    assert(run(m, Seq::<u8>::empty()) == m);
    assert(run(m, seq![b]) == m);
    assert(run(m, seq![b, b]) == run(m, seq![b]));
}

/// Law: a closing brace while the innermost open context is an array is a
/// syntax failure, not a depth failure, and changes nothing.
pub proof fn lemma_close_mismatch(m: VerifierModel, b: u8)
    requires
        m.state == ParseState::Done,
        m.stack.len() > 0,
        m.stack.last() == Context::Array,
        classify(b) == Some(CharClass::BraceClose),
    ensures
        step(m, b) == Err::<VerifierModel, JsonError>(JsonError::Invalid),
{
}

} // verus!
