use vstd::prelude::*;
use crate::charpos::{advance_all, position_text, CharPos};
use crate::parseable::{Error, Parseable, Reading};
use vstd::std_specs::iter::IteratorSpec;

verus! {

/// Where characters come from: each call gives the next character, `None`
/// once the input has ended cleanly, or the reason reading failed.
pub trait CharSource {
    fn read_char(&mut self) -> Result<Option<char>, String>;
}

/// What a read from a source means for the reader: the character read,
/// `EOS` at a clean end, or `Broken` with the reason reading failed.
pub open spec fn read_outcome(read: Result<Option<char>, String>) -> Result<char, Error> {
    match read {
        Ok(Some(c)) => Ok(c),
        Ok(None) => Err(Error::EOS),
        Err(detail) => Err(Error::Broken(detail)),
    }
}

pub fn read_result(read: Result<Option<char>, String>) -> (r: Result<char, Error>)
    ensures
        r == read_outcome(read),
{
    match read {
        Ok(Some(c)) => Ok(c),
        Ok(None) => Err(Error::EOS),
        Err(detail) => Err(Error::Broken(detail)),
    }
}

/// Characters held in memory, handed out in order.
pub struct TextSource {
    chars: Vec<char>,
    next: usize,
}

impl TextSource {
    #[verifier::type_invariant]
    spec fn in_bounds(self) -> bool {
        self.next <= self.chars.len()
    }

    /// The characters not handed out yet.
    pub closed spec fn remaining(&self) -> Seq<char> {
        self.chars@.skip(self.next as int)
    }

    pub fn new(text: &str) -> (r: Self)
        ensures
            r.remaining() == text@,
    {
        let mut chars: Vec<char> = Vec::new();
        let mut it = text.chars();
        loop
            invariant
                chars@ + it.remaining() == text@,
                it.decrease() is Some,
            ensures
                chars@ == text@,
            decreases it.decrease()->0,
        {
            match it.next() {
                Some(c) => chars.push(c),
                None => {
                    proof {
                        assert(chars@ + it.remaining() =~= chars@);
                        assert(chars@ == text@);
                    }
                    break;
                },
            }
        }
        proof {
            assert(chars@.skip(0) =~= text@);
        }
        TextSource { chars, next: 0 }
    }
}

impl CharSource for TextSource {
    fn read_char(&mut self) -> (r: Result<Option<char>, String>)
        ensures
            old(self).remaining().len() > 0 ==> r == Ok::<Option<char>, String>(
                Some(old(self).remaining()[0]),
            ) && final(self).remaining() == old(self).remaining().drop_first(),
            old(self).remaining().len() == 0 ==> r == Ok::<Option<char>, String>(None)
                && final(self).remaining() == old(self).remaining(),
    {
        proof {
            use_type_invariant(&*self);
        }
        if self.next < self.chars.len() {
            let c = self.chars[self.next];
            proof {
                assert(old(self).remaining()[0] == c);
                assert(self.chars@.skip(self.next + 1) =~= old(self).remaining().drop_first());
            }
            self.next = self.next + 1;
            Ok(Some(c))
        } else {
            Ok(None)
        }
    }
}

/// The position reached and the characters consumed to reach it.
struct Progress {
    pos: CharPos,
    seen: Ghost<Seq<char>>,
}

impl Progress {
    #[verifier::type_invariant]
    spec fn tracks(self) -> bool {
        self.pos@ == advance_all((1nat, 1nat), self.seen@)
    }

    fn start() -> (r: Self)
        ensures
            r.seen@ == Seq::<char>::empty(),
    {
        Progress { pos: CharPos::new(), seen: Ghost(Seq::empty()) }
    }

    fn position(&self) -> (r: CharPos)
        ensures
            r@ == advance_all((1nat, 1nat), self.seen@),
    {
        proof {
            use_type_invariant(self);
        }
        self.pos
    }

    fn advance(&mut self, c: char)
        ensures
            final(self).seen@ == old(self).seen@.push(c),
    {
        proof {
            use_type_invariant(&*self);
        }
        let mut pos = self.pos;
        pos.skip(c);
        let ghost seen = self.seen@.push(c);
        proof {
            assert(seen.drop_last() =~= self.seen@);
        }
        *self = Progress { pos, seen: Ghost(seen) };
    }
}

/// A named source read one character at a time, with one character of
/// lookahead and the line and column of the next character to consume.
pub struct Stream<S: CharSource> {
    name: String,
    chr: Option<char>,
    progress: Progress,
    reader: S,
}

impl<S: CharSource> Stream<S> {
    /// A stream named `name` over `reader`, before its first character.
    pub fn new(reader: S, name: &str) -> (r: Self)
        ensures
            r.reading() == (Reading { consumed: Seq::empty(), lookahead: None }),
            r.label() == name@,
    {
        Stream { name: String::from_str(name), chr: None, progress: Progress::start(), reader }
    }

    pub fn name(&self) -> (r: &str)
        ensures
            r@ == self.label(),
    {
        self.name.as_str()
    }

    /// The line and column of the next character to consume.
    pub fn position(&self) -> (r: CharPos)
        ensures
            r@ == advance_all((1nat, 1nat), self.reading().consumed),
    {
        self.progress.position()
    }

    /// `name:line:column` of the next character to consume.
    pub fn location(&self) -> (r: String)
        ensures
            r@ == self.label() + seq![':'] + position_text(
                advance_all((1nat, 1nat), self.reading().consumed),
            ),
    {
        let mut s = self.name.clone();
        let pos = self.progress.position().to_text();
        s.append(":");
        s.append(pos.as_str());
        proof {
            reveal_strlit(":");
        }
        s
    }
}

impl<S: CharSource> Parseable for Stream<S> {
    closed spec fn reading(&self) -> Reading {
        Reading { consumed: self.progress.seen@, lookahead: self.chr }
    }

    closed spec fn label(&self) -> Seq<char> {
        self.name@
    }

    fn pop(&mut self) -> (r: Result<char, Error>) {
        let r = match self.chr {
            Some(c) => {
                self.chr = None;
                Ok(c)
            },
            None => read_result(self.reader.read_char()),
        };
        match r {
            Ok(c) => self.progress.advance(c),
            Err(_) => {},
        }
        r
    }

    fn peek(&mut self) -> (r: Result<char, Error>) {
        match self.chr {
            Some(c) => Ok(c),
            None => {
                let r = read_result(self.reader.read_char());
                match r {
                    Ok(c) => self.chr = Some(c),
                    Err(_) => {},
                }
                r
            },
        }
    }
}

} // verus!
