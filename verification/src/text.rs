//! Target texts: the immutable sources the user has to reproduce, stored
//! character by character so that every offset in the library counts Unicode
//! scalar values, never bytes.

use vstd::prelude::*;

verus! {

use vstd::std_specs::iter::IteratorSpec;

/// Collects the characters of a string into a vector, so that the rest of
/// the library can index the text by character position.
pub fn chars_of(s: &str) -> (r: Vec<char>)
    ensures
        r@ == s@,
{
    let mut it = s.chars();
    let mut r: Vec<char> = Vec::new();
    loop
        invariant
            r@ + it.remaining() == s@,
        ensures
            r@ == s@,
        decreases s@.len() - r@.len(),
    {
        match it.next() {
            Some(c) => {
                r.push(c);
            },
            None => {
                proof {
                    assert(r@ =~= s@);
                }
                break ;
            },
        }
    }
    r
}

/// The abstract value of a target text: its name and its content as a
/// sequence of characters, plus the (unused here, session-level) flag the
/// concrete struct carries.
pub struct ProgramView {
    pub name: Seq<char>,
    pub content: Seq<char>,
    pub finished: bool,
}

/// One target text. `content` holds the text's Unicode scalar values in
/// order; it is never mutated after construction.
#[derive(Debug)]
pub struct Program {
    pub name: String,
    pub content: Vec<char>,
    pub finished: bool,
}

impl View for Program {
    type V = ProgramView;

    open spec fn view(&self) -> ProgramView {
        ProgramView { name: self.name@, content: self.content@, finished: self.finished }
    }
}

impl Clone for Program {
    fn clone(&self) -> (r: Self)
        ensures
            r@ == self@,
    {
        let content = self.content.clone();
        proof {
            assert(content@ =~= self.content@);
        }
        Program { name: self.name.clone(), content, finished: self.finished }
    }
}

impl Program {
    /// Builds a target text from its name and its content, counting the
    /// content in characters.
    pub fn new(name: String, content: String) -> (p: Self)
        ensures
            p@.name == name@,
            p@.content == content@,
            !p@.finished,
    {
        Self { name, content: chars_of(content.as_str()), finished: false }
    }
}

} // verus!
