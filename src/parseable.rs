use vstd::prelude::*;
use crate::text::{push_char, MAX_TEXT_CHARS};

verus! {

/// What a classifier decides about the prefix scanned so far.
#[derive(PartialEq, Clone, Debug)]
pub enum Action<T> {
    /// The prefix is a token with this value; a longer one may still follow.
    Request(T),
    /// The prefix is incomplete: more characters must follow.
    Require,
    /// The prefix is a token with this value; scanning stops here.
    Return(T),
}

/// Why a character could not be had, or why a scan failed.
#[derive(Clone, PartialEq, Eq, Debug)]
pub enum Error {
    /// The input ended cleanly.
    EOS,
    /// Reading or decoding failed, with the reason.
    Broken(String),
    /// A prefix that had to be continued was not.
    SyntaxError,
}

/// The message that describes `e`.
pub open spec fn error_text(e: Error) -> Seq<char> {
    match e {
        Error::EOS => "End of stream"@,
        Error::Broken(detail) => "Unexpected end of stream: "@ + detail@,
        Error::SyntaxError => "Error parsing"@,
    }
}

impl Error {
    pub fn message(&self) -> (r: String)
        ensures
            r@ == error_text(*self),
    {
        match self {
            Error::EOS => String::from_str("End of stream"),
            Error::Broken(detail) => {
                let mut s = String::from_str("Unexpected end of stream: ");
                s.append(detail.as_str());
                s
            },
            Error::SyntaxError => String::from_str("Error parsing"),
        }
    }
}

/// Where a reader stands: the characters consumed so far, oldest first, and
/// the character read ahead and not yet consumed, if any.
pub struct Reading {
    pub consumed: Seq<char>,
    pub lookahead: Option<char>,
}

/// `after` is `before` once `pop` returned `r`: the character read ahead, if
/// any, comes first, and a character returned is consumed.
pub open spec fn popped(before: Reading, after: Reading, r: Result<char, Error>) -> bool {
    &&& before.lookahead is Some ==> r == Ok::<char, Error>(before.lookahead->0)
    &&& after.lookahead is None
    &&& match r {
        Ok(c) => after.consumed == before.consumed.push(c),
        Err(e) => after.consumed == before.consumed && !(e is SyntaxError),
    }
}

/// `after` is `before` once `peek` returned `r`: nothing is consumed, and a
/// character returned is held as the lookahead.
pub open spec fn peeked(before: Reading, after: Reading, r: Result<char, Error>) -> bool {
    &&& after.consumed == before.consumed
    &&& before.lookahead is Some ==> r == Ok::<char, Error>(before.lookahead->0)
    &&& match r {
        Ok(c) => after.lookahead == Some(c),
        Err(e) => after.lookahead is None && !(e is SyntaxError),
    }
}

/// `after` is `before` once `take(x)` returned `r`: `x` is consumed exactly
/// when it is the next character; any other character stays ahead.
pub open spec fn took(before: Reading, after: Reading, x: char, r: Result<bool, Error>) -> bool {
    &&& before.lookahead is Some ==> r == Ok::<bool, Error>(before.lookahead->0 == x)
    &&& match r {
        Ok(true) => after.consumed == before.consumed.push(x) && after.lookahead is None,
        Ok(false) => {
            &&& after.consumed == before.consumed
            &&& after.lookahead is Some
            &&& after.lookahead->0 != x
            &&& before.lookahead is Some ==> after.lookahead == before.lookahead
        },
        Err(e) => {
            &&& after.consumed == before.consumed
            &&& after.lookahead is None
            &&& !(e is SyntaxError)
        },
    }
}

/// A run from `before` to `after` that was handed the characters `input`,
/// then `end` had it asked for more, returned `r` and consumed the first
/// `outcome.1` characters of `input`, where `outcome` is what the rule gives
/// for that input.
pub open spec fn ran<R>(
    before: Reading,
    after: Reading,
    input: Seq<char>,
    end: Error,
    outcome: (R, nat),
    r: R,
) -> bool {
    &&& r == outcome.0
    &&& outcome.1 <= input.len()
    &&& after.consumed == before.consumed + input.take(outcome.1 as int)
    &&& before.lookahead is Some ==> input.len() > 0 && input[0] == before.lookahead->0
    &&& after.lookahead == if outcome.1 < input.len() {
        Some(input[outcome.1 as int])
    } else {
        None
    }
    &&& !(end is SyntaxError)
}

/// What `transform` with mapping `f` returns on `input` (then `end`), and how
/// many characters it consumes.
pub open spec fn transform_outcome<T>(f: spec_fn(char) -> Option<T>, input: Seq<char>, end: Error) -> (
    Result<Option<T>, Error>,
    nat,
) {
    if input.len() == 0 {
        (Err(end), 0)
    } else {
        match f(input[0]) {
            Some(v) => (Ok(Some(v)), 1),
            None => (Ok(None), 0),
        }
    }
}

/// The scan from the `n`-th character of `input` on, with the `required` flag
/// and the `best` result so far: what it returns and how many characters
/// it has consumed when it stops.
pub open spec fn scan_from<T>(
    k: spec_fn(Seq<char>) -> Option<Action<T>>,
    input: Seq<char>,
    end: Error,
    n: nat,
    required: bool,
    best: Option<T>,
) -> (Result<Option<T>, Error>, nat)
    decreases input.len() - n,
{
    if n >= input.len() {
        (
            match end {
                Error::EOS => if required {
                    Err(Error::EOS)
                } else {
                    Ok(best)
                },
                _ => Err(end),
            },
            n,
        )
    } else if n >= MAX_TEXT_CHARS {
        (Err(Error::SyntaxError), n)
    } else {
        match k(input.take(n + 1 as int)) {
            Some(Action::Return(v)) => (Ok(Some(v)), n + 1),
            Some(Action::Request(v)) => scan_from(k, input, end, n + 1, false, Some(v)),
            Some(Action::Require) => scan_from(k, input, end, n + 1, true, best),
            None => (
                if required {
                    Err(Error::SyntaxError)
                } else {
                    Ok(best)
                },
                n,
            ),
        }
    }
}

/// What `scan` with classifier `k` returns on `input` (then `end`), and how
/// many characters it consumes.
pub open spec fn scan_outcome<T>(
    k: spec_fn(Seq<char>) -> Option<Action<T>>,
    input: Seq<char>,
    end: Error,
) -> (Result<Option<T>, Error>, nat) {
    scan_from(k, input, end, 0, false, None)
}

/// The view of a `ScanState`.
pub struct ScanView<T> {
    pub prefix: Seq<char>,
    pub required: bool,
    pub best: Option<T>,
}

/// One scan in progress: the prefix read so far, whether it must go on, and
/// the best result so far.
pub struct ScanState<T> {
    prefix: String,
    count: usize,
    required: bool,
    best: Option<T>,
}

/// What a scan does once the classifier has answered for the prefix that
/// ends with the next character.
pub enum Verdict<T> {
    /// Consume the character and read on, from this state.
    Continue(ScanState<T>),
    /// Consume the character and stop with this value.
    Accept(T),
    /// Leave the character ahead and stop with this result.
    Halt(Result<Option<T>, Error>),
}

impl<T> View for ScanState<T> {
    type V = ScanView<T>;

    closed spec fn view(&self) -> ScanView<T> {
        ScanView { prefix: self.prefix@, required: self.required, best: self.best }
    }
}

impl<T> ScanState<T> {
    #[verifier::type_invariant]
    spec fn counted(self) -> bool {
        self.count == self.prefix@.len()
    }

    /// A scan before its first character.
    pub fn new() -> (r: Self)
        ensures
            r@ == (ScanView::<T> { prefix: Seq::empty(), required: false, best: None }),
    {
        ScanState { prefix: String::new(), count: 0, required: false, best: None }
    }

    /// Whether the prefix can take one more character.
    pub fn has_room(&self) -> (r: bool)
        ensures
            r == (self@.prefix.len() < MAX_TEXT_CHARS),
    {
        proof {
            use_type_invariant(self);
        }
        self.count < MAX_TEXT_CHARS
    }

    /// Adds the next character to the prefix.
    pub fn extend(self, c: char) -> (r: Self)
        requires
            self@.prefix.len() < MAX_TEXT_CHARS,
        ensures
            r@ == (ScanView { prefix: self@.prefix.push(c), ..self@ }),
    {
        proof {
            use_type_invariant(&self);
        }
        let ScanState { mut prefix, count, required, best } = self;
        push_char(&mut prefix, c);
        ScanState { prefix, count: count + 1, required, best }
    }

    pub fn prefix(&self) -> (r: &str)
        ensures
            r@ == self@.prefix,
    {
        self.prefix.as_str()
    }

    /// The step that the classifier's `answer` for the prefix calls for:
    /// `Return` stops with its value; `Request` records its value and clears
    /// the requirement; `Require` sets the requirement; no answer stops with
    /// the best result so far, or with `SyntaxError` where the prefix had to
    /// go on.
    pub fn decide(self, answer: Option<Action<T>>) -> (v: Verdict<T>)
        ensures
            match answer {
                Some(Action::Return(x)) => v == Verdict::Accept(x),
                Some(Action::Request(x)) => v matches Verdict::Continue(next) && next@ == (ScanView {
                    required: false,
                    best: Some(x),
                    ..self@
                }),
                Some(Action::Require) => v matches Verdict::Continue(next) && next@ == (ScanView {
                    required: true,
                    ..self@
                }),
                None => v == Verdict::<T>::Halt(
                    if self@.required {
                        Err(Error::SyntaxError)
                    } else {
                        Ok(self@.best)
                    },
                ),
            },
    {
        proof {
            use_type_invariant(&self);
        }
        match answer {
            Some(Action::Return(result)) => Verdict::Accept(result),
            Some(Action::Request(result)) => Verdict::Continue(
                ScanState { prefix: self.prefix, count: self.count, required: false, best: Some(result) },
            ),
            Some(Action::Require) => Verdict::Continue(
                ScanState { prefix: self.prefix, count: self.count, required: true, best: self.best },
            ),
            None => if self.required {
                Verdict::Halt(Err(Error::SyntaxError))
            } else {
                Verdict::Halt(Ok(self.best))
            },
        }
    }

    /// The result of a scan whose input ended with `end`: a clean end gives
    /// the best result so far, or `EOS` where the prefix had to go on; a
    /// failure is passed on.
    pub fn finish(self, end: Error) -> (r: Result<Option<T>, Error>)
        ensures
            r == match end {
                Error::EOS => if self@.required {
                    Err(Error::EOS)
                } else {
                    Ok(self@.best)
                },
                _ => Err(end),
            },
    {
        match end {
            Error::EOS => if self.required {
                Err(Error::EOS)
            } else {
                Ok(self.best)
            },
            _ => Err(end),
        }
    }
}

/// The classification that `cb` gives to a prefix.
pub open spec fn classifier_of<T, F: Fn(&str) -> Option<Action<T>>>(cb: F) -> spec_fn(
    Seq<char>,
) -> Option<Action<T>> {
    |p: Seq<char>|
        (choose|a: Option<Action<T>>, s: &str| s@ == p && #[trigger] call_ensures(cb, (s,), a)).0
}

/// `cb` answers by the characters of the prefix alone, one answer for each.
pub open spec fn classifies<T, F: Fn(&str) -> Option<Action<T>>>(cb: F) -> bool {
    &&& forall|s: &str| call_requires(cb, (s,))
    &&& forall|s: &str, t: &str, a: Option<Action<T>>, b: Option<Action<T>>|
        s@ == t@ && #[trigger] call_ensures(cb, (s,), a) && #[trigger] call_ensures(cb, (t,), b)
            ==> a == b
}

/// The value that `f` maps a character to.
pub open spec fn mapping_of<T, F: FnOnce(char) -> Option<T>>(f: F) -> spec_fn(char) -> Option<T> {
    |c: char| choose|v: Option<T>| call_ensures(f, (c,), v)
}

/// `f` accepts every character and gives one answer for each.
pub open spec fn maps<T, F: FnOnce(char) -> Option<T>>(f: F) -> bool {
    &&& forall|c: char| call_requires(f, (c,))
    &&& forall|c: char, a: Option<T>, b: Option<T>|
        #[trigger] call_ensures(f, (c,), a) && #[trigger] call_ensures(f, (c,), b) ==> a == b
}

/// Peeking again, with nothing in between, gives the same character and
/// consumes nothing: the reader stands where the first peek left it, and a
/// position, which follows the consumed characters, has not moved.
pub proof fn lemma_peek_idempotent(
    s0: Reading,
    s1: Reading,
    s2: Reading,
    r1: Result<char, Error>,
    r2: Result<char, Error>,
)
    requires
        peeked(s0, s1, r1),
        r1 is Ok,
        peeked(s1, s2, r2),
    ensures
        r2 == r1,
        s2 == s1,
        s2.consumed == s0.consumed,
{
}

/// A `take(x)` that meets another character consumes nothing and keeps that
/// character ahead: the next `peek` returns it, and the next `pop` returns and
/// consumes it. Where a character was already ahead, the reader is left as it
/// was.
pub proof fn lemma_take_mismatch(s0: Reading, s1: Reading, x: char)
    requires
        took(s0, s1, x, Ok(false)),
    ensures
        s1.consumed == s0.consumed,
        s1.lookahead is Some && s1.lookahead->0 != x,
        s0.lookahead is Some ==> s1 == s0,
        forall|s2: Reading, r: Result<char, Error>|
            peeked(s1, s2, r) ==> r == Ok::<char, Error>(s1.lookahead->0) && s2 == s1,
        forall|s2: Reading, r: Result<char, Error>|
            popped(s1, s2, r) ==> r == Ok::<char, Error>(s1.lookahead->0) && s2.consumed
                == s0.consumed.push(s1.lookahead->0),
{
}

/// A classifier that answers a single character with `Return(v)` where `f`
/// maps it to `v`, and with nothing where `f` maps it to nothing, and answers
/// nothing to any longer prefix, makes `scan` return and consume what
/// `transform` with `f` does, on every input but one that ends cleanly before
/// its first character.
pub proof fn lemma_scan_as_transform<T>(
    k: spec_fn(Seq<char>) -> Option<Action<T>>,
    f: spec_fn(char) -> Option<T>,
    input: Seq<char>,
    end: Error,
)
    requires
        forall|c: char|
            #[trigger] k(seq![c]) == match f(c) {
                Some(v) => Some(Action::Return(v)),
                None => None,
            },
        forall|p: Seq<char>| p.len() > 1 ==> #[trigger] k(p) is None,
        !(input.len() == 0 && end is EOS),
    ensures
        scan_outcome(k, input, end) == transform_outcome(f, input, end),
{
    if input.len() > 0 {
        assert(input.take(1) =~= seq![input[0]]);
    }
}

/// A source of characters read one at a time, with one character of
/// lookahead.
pub trait Parseable: Sized {
    /// Where the reader stands.
    spec fn reading(&self) -> Reading;

    /// The name the reader is shown under; no read changes it.
    spec fn label(&self) -> Seq<char>;

    /// Consumes and returns the next character.
    fn pop(&mut self) -> (r: Result<char, Error>)
        ensures
            final(self).label() == old(self).label(),
            popped(old(self).reading(), final(self).reading(), r),
    ;

    /// Returns the next character without consuming it.
    fn peek(&mut self) -> (r: Result<char, Error>)
        ensures
            final(self).label() == old(self).label(),
            peeked(old(self).reading(), final(self).reading(), r),
    ;

    /// Consumes the next character.
    fn skip(&mut self) -> (r: Result<(), Error>)
        ensures
            final(self).label() == old(self).label(),
            exists|c: Result<char, Error>|
                popped(old(self).reading(), final(self).reading(), c) && r == match c {
                    Ok(_) => Ok::<(), Error>(()),
                    Err(e) => Err(e),
                },
    {
        let ghost before = self.reading();
        let c = self.pop();
        proof {
            assert(popped(before, self.reading(), c));
        }
        match c {
            Ok(_) => Ok(()),
            Err(err) => Err(err),
        }
    }

    /// Consumes the next character if it is `target`; says whether it was.
    fn take(&mut self, target: char) -> (r: Result<bool, Error>)
        ensures
            final(self).label() == old(self).label(),
            took(old(self).reading(), final(self).reading(), target, r),
    {
        let ghost before = self.reading();
        match self.peek() {
            Ok(c) => if target == c {
                let ghost mid = self.reading();
                let p = self.pop();
                proof {
                    assert(popped(mid, self.reading(), p));
                }
                Ok(true)
            } else {
                Ok(false)
            },
            Err(err) => Err(err),
        }
    }

    /// Scans the longest token that `cb` describes. `cb` sees each prefix in
    /// turn, the next character included, and the scan goes as
    /// `ScanState::decide` says; at the end of input, as `ScanState::finish`
    /// says. A prefix that would grow beyond `MAX_TEXT_CHARS` characters
    /// gives `SyntaxError`.
    fn scan<T, F: Fn(&str) -> Option<Action<T>>>(&mut self, cb: F) -> (r: Result<Option<T>, Error>)
        requires
            classifies(cb),
        ensures
            final(self).label() == old(self).label(),
            exists|input: Seq<char>, end: Error|
                ran(
                    old(self).reading(),
                    final(self).reading(),
                    input,
                    end,
                    scan_outcome(classifier_of(cb), input, end),
                    r,
                ),
    {
        let ghost before = self.reading();
        let ghost k = classifier_of(cb);
        let mut state: ScanState<T> = ScanState::new();
        loop
            invariant
                before == old(self).reading(),
                self.label() == old(self).label(),
                classifies(cb),
                k == classifier_of(cb),
                state@.prefix.len() <= MAX_TEXT_CHARS,
                self.reading().consumed == before.consumed + state@.prefix,
                state@.prefix.len() == 0 ==> self.reading().lookahead == before.lookahead,
                state@.prefix.len() > 0 ==> self.reading().lookahead is None,
                state@.prefix.len() > 0 && before.lookahead is Some ==> state@.prefix[0]
                    == before.lookahead->0,
                forall|inp: Seq<char>, e: Error|
                    state@.prefix.len() <= inp.len() && inp.take(state@.prefix.len() as int)
                        == state@.prefix ==> #[trigger] scan_outcome(k, inp, e) == scan_from(
                        k,
                        inp,
                        e,
                        state@.prefix.len(),
                        state@.required,
                        state@.best,
                    ),
            decreases MAX_TEXT_CHARS - state@.prefix.len(),
        {
            let ghost s0 = state@;
            let ghost n = s0.prefix.len();
            match self.peek() {
                Ok(target) => {
                    let ghost inp = s0.prefix.push(target);
                    proof {
                        assert(inp.take(n as int) =~= s0.prefix);
                        assert(inp.take(n + 1 as int) =~= inp);
                        assert(scan_outcome(k, inp, Error::EOS) == scan_from(
                            k,
                            inp,
                            Error::EOS,
                            n,
                            s0.required,
                            s0.best,
                        ));
                    }
                    if !state.has_room() {
                        proof {
                            assert(ran(
                                before,
                                self.reading(),
                                inp,
                                Error::EOS,
                                scan_outcome(classifier_of(cb), inp, Error::EOS),
                                Err::<Option<T>, Error>(Error::SyntaxError),
                            ));
                        }
                        return Err(Error::SyntaxError);
                    }
                    state = state.extend(target);
                    let prefix = state.prefix();
                    let answer = cb(prefix);
                    proof {
                        assert(call_ensures(cb, (prefix,), answer));
                        assert(k(inp) == answer);
                    }
                    match state.decide(answer) {
                        Verdict::Continue(next) => {
                            let ghost mid = self.reading();
                            let c = self.pop();
                            proof {
                                assert(popped(mid, self.reading(), c));
                                assert(before.consumed + inp =~= (before.consumed + s0.prefix).push(
                                    target,
                                ));
                                assert forall|i: Seq<char>, e: Error|
                                    n + 1 <= i.len() && i.take(n + 1 as int) == inp implies #[trigger] scan_outcome(
                                    k,
                                    i,
                                    e,
                                ) == scan_from(k, i, e, n + 1, next@.required, next@.best) by {
                                    assert(i.take(n as int) =~= s0.prefix);
                                }
                            }
                            state = next;
                        },
                        Verdict::Accept(result) => {
                            let ghost mid = self.reading();
                            let c = self.pop();
                            proof {
                                assert(popped(mid, self.reading(), c));
                                assert(before.consumed + inp =~= before.consumed + s0.prefix + seq![
                                    target,
                                ]);
                                assert(ran(
                                    before,
                                    self.reading(),
                                    inp,
                                    Error::EOS,
                                    scan_outcome(classifier_of(cb), inp, Error::EOS),
                                    Ok::<Option<T>, Error>(Some(result)),
                                ));
                            }
                            return Ok(Some(result));
                        },
                        Verdict::Halt(result) => {
                            proof {
                                assert(ran(
                                    before,
                                    self.reading(),
                                    inp,
                                    Error::EOS,
                                    scan_outcome(classifier_of(cb), inp, Error::EOS),
                                    result,
                                ));
                            }
                            return result;
                        },
                    }
                },
                Err(err) => {
                    proof {
                        assert(s0.prefix.take(n as int) =~= s0.prefix);
                        assert(scan_outcome(k, s0.prefix, err) == scan_from(
                            k,
                            s0.prefix,
                            err,
                            n,
                            s0.required,
                            s0.best,
                        ));
                    }
                    let result = state.finish(err);
                    proof {
                        assert(ran(
                            before,
                            self.reading(),
                            s0.prefix,
                            err,
                            scan_outcome(classifier_of(cb), s0.prefix, err),
                            result,
                        ));
                    }
                    return result;
                },
            }
        }
    }

    /// Hands the next character to `cb`; consumes it and returns the value
    /// where `cb` gives one, and leaves it ahead where `cb` gives `None`.
    fn transform<T, F: FnOnce(char) -> Option<T>>(&mut self, cb: F) -> (r: Result<Option<T>, Error>)
        requires
            maps(cb),
        ensures
            final(self).label() == old(self).label(),
            exists|input: Seq<char>, end: Error|
                ran(
                    old(self).reading(),
                    final(self).reading(),
                    input,
                    end,
                    transform_outcome(mapping_of(cb), input, end),
                    r,
                ),
    {
        let ghost before = self.reading();
        match self.peek() {
            Ok(input) => {
                let ghost mid = self.reading();
                let out = cb(input);
                proof {
                    assert(mapping_of(cb)(input) == out);
                }
                match out {
                    Some(output) => {
                        let p = self.pop();
                        proof {
                            assert(popped(mid, self.reading(), p));
                            assert(seq![input].take(1) =~= seq![input]);
                            assert(before.consumed + seq![input] =~= before.consumed.push(input));
                            assert(ran(
                                before,
                                self.reading(),
                                seq![input],
                                Error::EOS,
                                transform_outcome(mapping_of(cb), seq![input], Error::EOS),
                                Ok(Some(output)),
                            ));
                        }
                        Ok(Some(output))
                    },
                    None => {
                        proof {
                            assert(seq![input].take(0) =~= Seq::<char>::empty());
                            assert(ran(
                                before,
                                self.reading(),
                                seq![input],
                                Error::EOS,
                                transform_outcome(mapping_of(cb), seq![input], Error::EOS),
                                Ok(None::<T>),
                            ));
                        }
                        Ok(None)
                    },
                }
            },
            Err(err) => {
                proof {
                    assert(Seq::<char>::empty().take(0) =~= Seq::<char>::empty());
                    assert(ran(
                        before,
                        self.reading(),
                        Seq::<char>::empty(),
                        err,
                        transform_outcome(mapping_of(cb), Seq::<char>::empty(), err),
                        Err::<Option<T>, Error>(err),
                    ));
                }
                Err(err)
            },
        }
    }
}

} // verus!
