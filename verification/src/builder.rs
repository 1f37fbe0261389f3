//! The builder: wraps a [`JsonVerifier`] and an append-only byte buffer, and
//! can repair a truncated byte stream by trimming back to the last fully
//! valid position and closing every still-open container.
//!
//! Unlike the verifier, the builder is sticky: a sequence of bytes that would
//! make the underlying document invalid leaves the builder permanently
//! invalid, even if more acceptable bytes are offered later. Only `reset`
//! clears that damage.

use vstd::prelude::*;

use crate::table::ParseState;
use crate::verify::accepted_len;
use crate::verify::accepts;
use crate::verify::closers;
use crate::verify::lemma_accepted_len_of;
use crate::verify::lemma_completion_closes;
use crate::verify::lemma_last_ok_marks_latest_done;
use crate::verify::lemma_prefix_accepted;
use crate::verify::lemma_run_append;
use crate::verify::lemma_run_snoc;
use crate::verify::lemma_run_wf;
use crate::verify::run;
use crate::verify::status_of;
use crate::verify::step;
use crate::verify::JsonVerifier;
use crate::verify::VerifierModel;
use crate::JsonError;
use crate::JsonStatus;
use vstd::string::StringSliceAdditionalSpecFns;
use vstd::utf8::decode_utf8;
use vstd::utf8::encode_utf8;
use vstd::utf8::valid_utf8;

verus! {

/// The mathematical model of a [`JsonBuilder`]: the accumulated bytes, the
/// sticky-invalid flag, and the model of the wrapped verifier.
#[verifier::ext_equal]
pub ghost struct BuilderModel {
    pub data: Seq<u8>,
    pub invalid: bool,
    pub verifier: VerifierModel,
}

impl BuilderModel {
    /// The model of a freshly constructed builder with the given maximum
    /// depth.
    pub open spec fn init(maximum: nat) -> BuilderModel {
        BuilderModel {
            data: Seq::empty(),
            invalid: false,
            verifier: VerifierModel::init(maximum),
        }
    }

    /// Well-formedness: the verifier is well formed, and as long as the
    /// builder is not damaged, the buffer holds exactly the accepted history
    /// of the verifier: feeding the buffer to a fresh verifier with the same
    /// configuration accepts every byte and reproduces the verifier's model.
    pub open spec fn wf(self) -> bool {
        &&& self.verifier.wf()
        &&& (!self.invalid ==> accepts(VerifierModel::init(self.verifier.maximum), self.data))
        &&& (!self.invalid ==> self.verifier == run(
            VerifierModel::init(self.verifier.maximum),
            self.data,
        ))
        &&& (!self.invalid ==> self.verifier.length == self.data.len())
    }
}

/// A fresh builder model is well formed.
pub proof fn lemma_init_wf(maximum: nat)
    requires
        maximum >= 1,
    ensures
        BuilderModel::init(maximum).wf(),
{
    assert(accepts(VerifierModel::init(maximum), Seq::<u8>::empty()));
    assert(run(VerifierModel::init(maximum), Seq::<u8>::empty()) == VerifierModel::init(maximum));
}

/// The bytes that a repair of the builder's buffer yields: the buffer itself
/// if it is already a complete document, and otherwise the buffer trimmed
/// back to the last fully valid position, with a closing byte appended for
/// every container that stood open there.
pub open spec fn completion_of(b: BuilderModel) -> Seq<u8> {
    if status_of(b.verifier) == JsonStatus::Valid {
        b.data
    } else {
        b.data.take(b.verifier.last_ok as int) + closers(b.verifier.ok_stack)
    }
}

/// Law: repair round-trip. For any undamaged builder, as long as some prefix
/// of the buffer was ever fully valid (or the buffer already is a complete
/// document), the repaired bytes are accepted in full by a fresh verifier
/// with the same configuration and leave it reporting a valid document. In
/// the one remaining case — no prefix was ever fully valid — the repaired
/// buffer is empty.
pub proof fn lemma_completed_reverifies(b: BuilderModel)
    requires
        b.wf(),
        !b.invalid,
    ensures
        b.verifier.last_ok > 0 || status_of(b.verifier) == JsonStatus::Valid ==> accepts(
            VerifierModel::init(b.verifier.maximum),
            completion_of(b),
        ) && status_of(
            run(VerifierModel::init(b.verifier.maximum), completion_of(b)),
        ) == JsonStatus::Valid,
        b.verifier.last_ok == 0 && status_of(b.verifier) != JsonStatus::Valid ==> completion_of(b)
            == Seq::<u8>::empty(),
{
    let init = VerifierModel::init(b.verifier.maximum);
    lemma_last_ok_marks_latest_done(b.verifier.maximum, b.data);
    if status_of(b.verifier) == JsonStatus::Valid {
        assert(completion_of(b) == b.data);
    } else {
        let p = b.data.take(b.verifier.last_ok as int);
        lemma_prefix_accepted(init, b.data, b.verifier.last_ok as int);
        lemma_run_wf(init, p);
        let mp = run(init, p);
        if b.verifier.last_ok > 0 {
            assert(mp.state == ParseState::Done);
            assert(mp.stack == b.verifier.ok_stack);
            lemma_completion_closes(mp);
            lemma_run_append(init, p, closers(b.verifier.ok_stack));
        } else {
            assert(closers(b.verifier.ok_stack) =~= Seq::<u8>::empty());
            assert(p =~= Seq::<u8>::empty());
            assert(completion_of(b) =~= Seq::<u8>::empty());
        }
    }
}

/// Relies on `core::slice::from_ref`: the returned slice has length one and
/// holds exactly the referenced value.
#[verifier::external_body]
fn byte_as_slice(item: &u8) -> (r: &[u8])
    ensures
        r@ == seq![*item],
{
    core::slice::from_ref(item)
}

/// Relies on `String::from_utf8`: it succeeds exactly when the bytes are a
/// well-formed UTF-8 sequence, and then returns precisely those bytes,
/// decoded. A failure is surfaced as the UTF-8 error kind.
#[verifier::external_body]
fn vec_to_string(data: Vec<u8>) -> (r: Result<String, JsonError>)
    ensures
        (match r {
            Ok(s) => valid_utf8(data@) && s@ == decode_utf8(data@),
            Err(e) => !valid_utf8(data@) && e == JsonError::Utf8,
        }),
{
    String::from_utf8(data).map_err(|_| JsonError::Utf8)
}

/// A source of bytes for the builder: a single byte, a borrowed or owned
/// byte sequence, or a borrowed or owned string.
pub trait JsonSource {
    /// The byte sequence this source stands for.
    spec fn byte_seq(&self) -> Seq<u8>;

    /// The bytes themselves, as a slice.
    fn stream(&self) -> (r: &[u8])
        ensures
            r@ == self.byte_seq(),
    ;
}

impl JsonSource for u8 {
    open spec fn byte_seq(&self) -> Seq<u8> {
        seq![*self]
    }

    fn stream(&self) -> (r: &[u8]) {
        byte_as_slice(self)
    }
}

impl JsonSource for &[u8] {
    open spec fn byte_seq(&self) -> Seq<u8> {
        (*self)@
    }

    fn stream(&self) -> (r: &[u8]) {
        *self
    }
}

impl JsonSource for Vec<u8> {
    open spec fn byte_seq(&self) -> Seq<u8> {
        self@
    }

    fn stream(&self) -> (r: &[u8]) {
        self.as_slice()
    }
}

impl JsonSource for &str {
    open spec fn byte_seq(&self) -> Seq<u8> {
        (*self).spec_bytes()
    }

    fn stream(&self) -> (r: &[u8]) {
        (*self).as_bytes()
    }
}

impl JsonSource for String {
    open spec fn byte_seq(&self) -> Seq<u8> {
        encode_utf8(self@)
    }

    fn stream(&self) -> (r: &[u8]) {
        self.as_str().as_bytes()
    }
}

/// Expanded options for constructing a [`JsonBuilder`] instance: the maximum
/// nesting depth, and the initial capacity of the byte buffer (a performance
/// hint only, with no bearing on behaviour).
#[derive(Debug, Clone, PartialEq, Eq, PartialOrd, Ord, Hash, Structural)]
pub struct JsonBuilderOptions {
    pub maximum_depth: usize,
    pub initial_capacity: usize,
}

impl Default for JsonBuilderOptions {
    fn default() -> (r: JsonBuilderOptions)
        ensures
            r.maximum_depth == usize::MAX,
            r.initial_capacity == 512,
    {
        JsonBuilderOptions { maximum_depth: usize::MAX, initial_capacity: 512 }
    }
}

/// A byte buffer builder for JSON that can repair and complete truncated
/// ("damaged") input.
///
/// Every byte offered through `update` runs through the wrapped
/// [`JsonVerifier`]; accepted bytes are mirrored into the buffer. The first
/// rejected byte makes the builder permanently invalid: unlike the verifier
/// alone, it cannot be resumed by offering acceptable bytes afterwards. Only
/// [`JsonBuilder::reset`] clears the damage.
pub struct JsonBuilder {
    data: Vec<u8>,
    invalid: bool,
    verifier: JsonVerifier,
}

impl View for JsonBuilder {
    type V = BuilderModel;

    closed spec fn view(&self) -> BuilderModel {
        BuilderModel { data: self.data@, invalid: self.invalid, verifier: self.verifier@ }
    }
}

impl JsonBuilder {
    /// A fresh builder with an effectively unbounded maximum depth.
    pub fn new() -> (r: JsonBuilder)
        ensures
            r@ == BuilderModel::init(usize::MAX as nat),
            r@.wf(),
    {
        let options = JsonBuilderOptions::default();
        JsonBuilder::with_options(options)
    }

    /// A fresh builder whose verifier fails with [`JsonError::Exceeded`] as
    /// soon as more than `maximum_depth` containers are open at once.
    pub fn with_maximum_depth(maximum_depth: usize) -> (r: JsonBuilder)
        requires
            maximum_depth >= 1,
        ensures
            r@ == BuilderModel::init(maximum_depth as nat),
            r@.wf(),
    {
        let mut options = JsonBuilderOptions::default();
        options.maximum_depth = maximum_depth;
        JsonBuilder::with_options(options)
    }

    /// A fresh builder whose buffer starts out with the given capacity.
    pub fn with_capacity(initial_capacity: usize) -> (r: JsonBuilder)
        ensures
            r@ == BuilderModel::init(usize::MAX as nat),
            r@.wf(),
    {
        let mut options = JsonBuilderOptions::default();
        options.initial_capacity = initial_capacity;
        JsonBuilder::with_options(options)
    }

    /// A fresh builder with the given options.
    pub fn with_options(options: JsonBuilderOptions) -> (r: JsonBuilder)
        requires
            options.maximum_depth >= 1,
        ensures
            r@ == BuilderModel::init(options.maximum_depth as nat),
            r@.wf(),
    {
        let r = JsonBuilder {
            data: Vec::with_capacity(options.initial_capacity),
            invalid: false,
            verifier: JsonVerifier::with_maximum_depth(options.maximum_depth),
        };
        proof {
            lemma_init_wf(options.maximum_depth as nat);
            assert(r@ =~= BuilderModel::init(options.maximum_depth as nat));
        }
        r
    }

    /// The number of bytes accepted into the buffer so far.
    pub fn len(&self) -> (r: usize)
        ensures
            r as nat == self@.data.len(),
    {
        self.data.len()
    }

    /// The parse status of the buffered bytes; see [`JsonVerifier::status`].
    pub fn status(&self) -> (r: JsonStatus)
        ensures
            r == status_of(self@.verifier),
    {
        self.verifier.status()
    }

    /// Returns the builder to its initial state, keeping the configured
    /// maximum depth: the buffer and the sticky-invalid flag are cleared, and
    /// afterwards the builder behaves exactly like a freshly constructed one
    /// with the same configuration.
    pub fn reset(&mut self)
        requires
            old(self)@.wf(),
        ensures
            final(self)@ == BuilderModel::init(old(self)@.verifier.maximum),
            final(self)@.wf(),
    {
        self.invalid = false;
        self.data.clear();
        self.verifier.reset();
        proof {
            assert(self@ =~= BuilderModel::init(old(self)@.verifier.maximum));
            lemma_init_wf(old(self)@.verifier.maximum);
        }
    }

    /// Feeds the source's bytes through the verifier one at a time, mirroring
    /// each accepted byte into the buffer.
    ///
    /// A builder already marked invalid fails immediately with
    /// [`JsonError::Invalid`] and performs no work. Otherwise, on the first
    /// rejected byte the sticky-invalid flag is set and the verifier's error
    /// is returned; the buffer keeps every byte accepted before the failing
    /// one, but the builder is permanently damaged from then on.
    pub fn update<S: JsonSource>(&mut self, source: S) -> (r: Result<(), JsonError>)
        requires
            old(self)@.wf(),
            old(self)@.invalid || old(self)@.data.len() + source.byte_seq().len() <= usize::MAX,
        ensures
            final(self)@.wf(),
            final(self)@.verifier.maximum == old(self)@.verifier.maximum,
            old(self)@.invalid ==> r == Err::<(), JsonError>(JsonError::Invalid) && final(self)@
                == old(self)@,
            !old(self)@.invalid ==> ({
                let s = source.byte_seq();
                let k = accepted_len(old(self)@.verifier, s) as int;
                &&& final(self)@.data == old(self)@.data + s.take(k)
                &&& final(self)@.verifier == run(old(self)@.verifier, s.take(k))
                &&& (k == s.len() ==> r is Ok && !final(self)@.invalid)
                &&& (k < s.len() ==> final(self)@.invalid && r == Err::<(), JsonError>(
                    step(run(old(self)@.verifier, s.take(k)), s[k])->Err_0,
                ))
            }),
    {
        if self.invalid {
            return Err(JsonError::Invalid);
        }
        let ghost m0 = old(self)@.verifier;
        let ghost s = source.byte_seq();
        let stream = source.stream();
        let mut idx: usize = 0;
        proof {
            assert(s.take(0) =~= Seq::<u8>::empty());
            assert(self@.data =~= old(self)@.data + s.take(0));
        }
        while idx < stream.len()
            invariant
                idx <= stream.len(),
                stream@ == s,
                s == source.byte_seq(),
                old(self)@.wf(),
                !old(self)@.invalid,
                old(self)@.data.len() + s.len() <= usize::MAX,
                m0 == old(self)@.verifier,
                !self@.invalid,
                self@.verifier.wf(),
                self@.verifier.maximum == m0.maximum,
                self@.data == old(self)@.data + s.take(idx as int),
                self@.data.len() == old(self)@.data.len() + idx,
                self@.verifier.length == self@.data.len(),
                accepts(m0, s.take(idx as int)),
                self@.verifier == run(m0, s.take(idx as int)),
            decreases stream.len() - idx,
        {
            let b = stream[idx];
            let ghost taken = s.take(idx as int);
            match self.verifier.update(b) {
                Ok(()) => {
                    self.data.push(b);
                    idx = idx + 1;
                    proof {
                        lemma_run_snoc(m0, taken, b);
                        assert(s.take(idx as int) =~= taken.push(b));
                        assert(self@.data =~= old(self)@.data + s.take(idx as int));
                    }
                },
                Err(e) => {
                    self.invalid = true;
                    proof {
                        lemma_accepted_len_of(m0, s, idx as int);
                        lemma_wf_after(old(self)@, s, idx as int, self@);
                    }
                    return Err(e);
                },
            }
        }
        proof {
            assert(s.take(s.len() as int) =~= s);
            lemma_accepted_len_of(m0, s, s.len() as int);
            lemma_wf_after(old(self)@, s, s.len() as int, self@);
        }
        Ok(())
    }

    /// The raw accumulated buffer, unless the builder is damaged.
    pub fn bytes(self) -> (r: Result<Vec<u8>, JsonError>)
        ensures
            self@.invalid ==> r == Err::<Vec<u8>, JsonError>(JsonError::Invalid),
            !self@.invalid ==> (r matches Ok(d) && d@ == self@.data),
    {
        if self.invalid {
            Err(JsonError::Invalid)
        } else {
            Ok(self.data)
        }
    }

    /// The accumulated buffer decoded as text, unless the builder is damaged
    /// or the buffer is not a well-formed UTF-8 sequence.
    pub fn string(self) -> (r: Result<String, JsonError>)
        ensures
            self@.invalid ==> r == Err::<String, JsonError>(JsonError::Invalid),
            (!self@.invalid && valid_utf8(self@.data)) ==> (r matches Ok(t) && t@ == decode_utf8(
                self@.data,
            )),
            (!self@.invalid && !valid_utf8(self@.data)) ==> r == Err::<String, JsonError>(
                JsonError::Utf8,
            ),
    {
        let data = match self.bytes() {
            Ok(d) => d,
            Err(e) => {
                return Err(e);
            },
        };
        vec_to_string(data)
    }

    /// The repaired buffer, unless the builder is damaged: the buffer itself
    /// if it already holds a complete document, and otherwise the buffer
    /// trimmed back to the last fully valid position with a closing byte
    /// appended for every container that stood open there — trailing,
    /// structurally unclosable fragments (a half-written token or key) are
    /// dropped, not guessed at, and the result parses as a valid document
    /// again. The one exception: when no prefix was ever fully valid, the
    /// repaired buffer is empty, which is no document at all.
    pub fn completed_bytes(self) -> (r: Result<Vec<u8>, JsonError>)
        requires
            self@.wf(),
        ensures
            self@.invalid ==> r == Err::<Vec<u8>, JsonError>(JsonError::Invalid),
            !self@.invalid ==> (r matches Ok(d) && d@ == completion_of(self@)),
    {
        if self.invalid {
            return Err(JsonError::Invalid);
        }
        if self.verifier.status() == JsonStatus::Continue {
            let (until, mut tokens) = self.verifier.complete();
            let mut data = self.data;
            data.truncate(until);
            data.append(&mut tokens);
            Ok(data)
        } else {
            Ok(self.data)
        }
    }

    /// The repaired buffer decoded as text; see
    /// [`JsonBuilder::completed_bytes`].
    pub fn completed_string(self) -> (r: Result<String, JsonError>)
        requires
            self@.wf(),
        ensures
            self@.invalid ==> r == Err::<String, JsonError>(JsonError::Invalid),
            (!self@.invalid && valid_utf8(completion_of(self@))) ==> (r matches Ok(t) && t@
                == decode_utf8(completion_of(self@))),
            (!self@.invalid && !valid_utf8(completion_of(self@))) ==> r == Err::<
                String,
                JsonError,
            >(JsonError::Utf8),
    {
        let data = match self.completed_bytes() {
            Ok(d) => d,
            Err(e) => {
                return Err(e);
            },
        };
        vec_to_string(data)
    }
}

/// After an update that accepted the first `k` bytes of `s`, the builder is
/// well formed again, whether or not a byte was rejected after them.
proof fn lemma_wf_after(b0: BuilderModel, s: Seq<u8>, k: int, b1: BuilderModel)
    requires
        b0.wf(),
        !b0.invalid,
        0 <= k <= s.len(),
        accepts(b0.verifier, s.take(k)),
        b1.verifier == run(b0.verifier, s.take(k)),
        b1.data == b0.data + s.take(k),
        b1.verifier.length == b1.data.len(),
    ensures
        b1.wf(),
{
    let init = VerifierModel::init(b0.verifier.maximum);
    lemma_run_wf(b0.verifier, s.take(k));
    lemma_run_append(init, b0.data, s.take(k));
    assert(accepts(init, b1.data));
    assert(run(init, b1.data) == b1.verifier);
    assert(b1.verifier.maximum == b0.verifier.maximum);
}

} // verus!
