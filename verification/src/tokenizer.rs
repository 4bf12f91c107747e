//! The character cursor over an input.

use vstd::prelude::*;

verus! {

/// The mathematical content of a [`Tokenizer`]: the full input and the
/// cursor offset into it.
pub ghost struct TokenizerV {
    pub input: Seq<char>,
    pub pos: int,
}

/// A mutable cursor over an in-memory character sequence.
///
/// All consuming operations move the offset forward, never backward, and
/// never past the end of the input. No operation changes the input itself.
pub struct Tokenizer {
    input: Vec<char>,
    pos: usize,
}

impl View for Tokenizer {
    type V = TokenizerV;

    closed spec fn view(&self) -> TokenizerV {
        TokenizerV { input: self.input@, pos: self.pos as int }
    }
}

impl Tokenizer {
    /// The cursor stands somewhere inside the input, at worst just past its
    /// last character.
    pub open spec fn wf(&self) -> bool {
        0 <= self@.pos <= self@.input.len()
    }

    /// Builds a cursor that stands at the start of `input`.
    pub fn new(input: Vec<char>) -> (t: Tokenizer)
        ensures
            t@.input == input@,
            t@.pos == 0,
            t.wf(),
    {
        Tokenizer { input, pos: 0 }
    }

    /// The character at the current offset, left unconsumed; `None` at the
    /// end of the input.
    pub fn peek(&self) -> (r: Option<char>)
        ensures
            r == (if self@.pos < self@.input.len() {
                Some(self@.input[self@.pos])
            } else {
                None::<char>
            }),
    {
        if self.pos < self.input.len() {
            Some(self.input[self.pos])
        } else {
            None
        }
    }

    /// The character `n` places past the current offset, left unconsumed;
    /// `None` when the input ends before it.
    pub fn peek_n(&self, n: usize) -> (r: Option<char>)
        requires
            self.wf(),
        ensures
            r == (if self@.pos + n < self@.input.len() {
                Some(self@.input[self@.pos + n])
            } else {
                None::<char>
            }),
    {
        if n < self.input.len() - self.pos {
            Some(self.input[self.pos + n])
        } else {
            None
        }
    }

    /// Consumes and returns the character at the current offset, moving the
    /// cursor one place forward; `None` at the end of the input, where the
    /// cursor stays put.
    pub fn next(&mut self) -> (r: Option<char>)
        requires
            old(self).wf(),
        ensures
            final(self).wf(),
            final(self)@.input == old(self)@.input,
            old(self)@.pos < old(self)@.input.len() ==> {
                &&& r == Some(old(self)@.input[old(self)@.pos])
                &&& final(self)@.pos == old(self)@.pos + 1
            },
            old(self)@.pos >= old(self)@.input.len() ==> {
                &&& r == None::<char>
                &&& final(self)@.pos == old(self)@.pos
            },
    {
        if self.pos < self.input.len() {
            let c = self.input[self.pos];
            self.pos = self.pos + 1;
            Some(c)
        } else {
            None
        }
    }

    /// Consumes `n` characters without inspecting them, stopping at the end
    /// of the input when fewer remain.
    pub fn advance(&mut self, n: usize)
        requires
            old(self).wf(),
        ensures
            final(self).wf(),
            final(self)@.input == old(self)@.input,
            final(self)@.pos == (if old(self)@.pos + n <= old(self)@.input.len() {
                old(self)@.pos + n
            } else {
                old(self)@.input.len() as int
            }),
    {
        if n <= self.input.len() - self.pos {
            self.pos = self.pos + n;
        } else {
            self.pos = self.input.len();
        }
    }

    /// True exactly when no character remains.
    pub fn end(&self) -> (r: bool)
        ensures
            r == (self@.pos >= self@.input.len()),
    {
        self.pos >= self.input.len()
    }

    /// The current offset, used to stamp newly produced tokens.
    pub fn last_position(&self) -> (r: usize)
        ensures
            r as int == self@.pos,
    {
        self.pos
    }
}

} // verus!
