//! A cursor over the text of a configuration.

use vstd::prelude::*;
use crate::parser::errors::{ParserError, ParserErrorView};
use crate::text::{chars_of, push_char, quote_text, quoted_text};

verus! {

/// A cursor over a text: the characters that have not been taken yet, which
/// are handed out from the front, one or several at a time.
pub struct Pointer {
    /// What is left of the text, last character first.
    content: Vec<char>,
}

impl View for Pointer {
    type V = Seq<char>;

    /// What is left of the text, in reading order.
    closed spec fn view(&self) -> Seq<char> {
        self.content@.reverse()
    }
}

proof fn lemma_reverse_drop_last(content: Seq<char>)
    requires
        content.len() > 0,
    ensures
        content.reverse()[0] == content.last(),
        content.drop_last().reverse() == content.reverse().skip(1),
{
    assert(content.drop_last().reverse() =~= content.reverse().skip(1));
}

/// A cursor as it is shown, where `quoted` is what is left of its text,
/// quoted: `Pointer { `, the quoted text, and ` }`.
pub fn shown(quoted: &str) -> (text: String)
    ensures
        text@ == "Pointer { "@ + quoted@ + " }"@,
{
    let mut text = "Pointer { ".to_string();
    text.append(quoted);
    text.append(" }");
    text
}

impl Pointer {
    /// A cursor at the start of `content`.
    pub fn new(content: String) -> (pointer: Pointer)
        ensures
            pointer@ == content@,
    {
        let forward: Vec<char> = chars_of(content.as_str());
        let mut backward: Vec<char> = Vec::new();
        let mut i: usize = forward.len();
        while i > 0
            invariant
                i <= forward@.len(),
                backward@ == forward@.reverse().take(forward@.len() - i),
            decreases i,
        {
            i -= 1;
            backward.push(forward[i]);
            assert(forward@.reverse().take(forward@.len() - i) == forward@.reverse().take(
                forward@.len() - i - 1,
            ).push(forward@[i as int]));
        }
        assert(backward@ == forward@.reverse());
        assert(forward@.reverse().reverse() =~= forward@);
        Pointer { content: backward }
    }

    /// The cursor as it is shown: what is left of the text, quoted as
    /// `{:?}` quotes it, between `Pointer { ` and ` }`.
    pub fn text(&self) -> (text: String)
        ensures
            text@ == "Pointer { "@ + quoted_text(self@) + " }"@,
    {
        let mut content = String::new();
        let mut i: usize = self.content.len();
        while i > 0
            invariant
                i <= self.content@.len(),
                content@ == self.content@.reverse().take(self.content@.len() - i),
            decreases i,
        {
            i -= 1;
            push_char(&mut content, self.content[i]);
            assert(self.content@.reverse().take(self.content@.len() - i)
                == self.content@.reverse().take(self.content@.len() - i - 1).push(
                self.content@[i as int],
            ));
        }
        assert(content@ == self.content@.reverse());
        shown(quote_text(content.as_str()).as_str())
    }

    /// The next character, which stays where it is.
    pub fn peek(&self) -> (r: Result<&char, ParserError>)
        ensures
            self@.len() > 0 ==> r == Ok::<&char, ParserError>(&self@[0]),
            self@.len() == 0 ==> (r matches Err(e) && e@ == ParserErrorView::EOF),
    {
        let n: usize = self.content.len();
        if n == 0 {
            Err(ParserError::EOF)
        } else {
            proof {
                lemma_reverse_drop_last(self.content@);
            }
            Ok(&self.content[n - 1])
        }
    }

    /// Takes the next character.
    pub fn next(&mut self) -> (r: Result<char, ParserError>)
        ensures
            old(self)@.len() > 0 ==> r == Ok::<char, ParserError>(old(self)@[0]) && final(self)@
                == old(self)@.skip(1),
            old(self)@.len() == 0 ==> (r matches Err(e) && e@ == ParserErrorView::EOF)
                && final(self)@ == old(self)@,
    {
        proof {
            if self.content@.len() > 0 {
                lemma_reverse_drop_last(self.content@);
            }
        }
        match self.content.pop() {
            Some(c) => Ok(c),
            None => Err(ParserError::EOF),
        }
    }

    /// Takes the next `count` characters. Where fewer are left, all of them
    /// are taken and the call fails: no shorter text is ever handed out.
    pub fn next_multiple(&mut self, count: usize) -> (r: Result<String, ParserError>)
        ensures
            count <= old(self)@.len() ==> (r matches Ok(text) && text@ == old(self)@.take(
                count as int,
            )) && final(self)@ == old(self)@.skip(count as int),
            count > old(self)@.len() ==> (r matches Err(e) && e@ == ParserErrorView::EOF)
                && final(self)@.len() == 0,
    {
        let mut iteration: usize = count;
        let mut result = String::new();
        while iteration > 0
            invariant
                iteration <= count,
                count - iteration <= old(self)@.len(),
                result@ == old(self)@.take(count - iteration),
                self@ == old(self)@.skip(count - iteration),
            decreases iteration,
        {
            match self.next() {
                Ok(c) => {
                    push_char(&mut result, c);
                },
                Err(e) => {
                    return Err(e);
                },
            }
            iteration -= 1;
            assert(old(self)@.take(count - iteration) == old(self)@.take(
                count - iteration - 1,
            ).push(old(self)@[count - iteration - 1]));
            assert(old(self)@.skip(count - iteration - 1).skip(1) == old(self)@.skip(
                count - iteration,
            ));
        }
        Ok(result)
    }

    /// Takes characters up to the first one that `to_find` accepts, which
    /// stays where it is. Where no character left is accepted, all of them
    /// are taken and the call fails.
    pub fn next_until<F>(&mut self, to_find: F) -> (r: Result<String, ParserError>) where
        F: Fn(&char) -> bool,

        requires
            forall|c: char| call_requires(to_find, (&c,)),
        ensures
            match r {
                Ok(text) => {
                    &&& text@.len() < old(self)@.len()
                    &&& text@ == old(self)@.take(text@.len() as int)
                    &&& final(self)@ == old(self)@.skip(text@.len() as int)
                    &&& forall|i: int|
                        0 <= i < text@.len() ==> call_ensures(
                            to_find,
                            (&#[trigger] old(self)@[i],),
                            false,
                        )
                    &&& call_ensures(to_find, (&old(self)@[text@.len() as int],), true)
                },
                Err(e) => {
                    &&& e@ == ParserErrorView::EOF
                    &&& final(self)@.len() == 0
                    &&& forall|i: int|
                        0 <= i < old(self)@.len() ==> call_ensures(
                            to_find,
                            (&#[trigger] old(self)@[i],),
                            false,
                        )
                },
            },
    {
        let mut result = String::new();
        loop
            invariant
                forall|c: char| call_requires(to_find, (&c,)),
                result@.len() <= old(self)@.len(),
                result@ == old(self)@.take(result@.len() as int),
                self@ == old(self)@.skip(result@.len() as int),
                forall|i: int|
                    0 <= i < result@.len() ==> call_ensures(
                        to_find,
                        (&#[trigger] old(self)@[i],),
                        false,
                    ),
            decreases self@.len(),
        {
            let found: bool = match self.peek() {
                Ok(c) => to_find(c),
                Err(e) => {
                    return Err(e);
                },
            };
            if found {
                return Ok(result);
            }
            let ghost before = result@;
            match self.next() {
                Ok(c) => {
                    push_char(&mut result, c);
                },
                Err(e) => {
                    return Err(e);
                },
            }
            assert(old(self)@.take(result@.len() as int) == old(self)@.take(
                before.len() as int,
            ).push(old(self)@[before.len() as int]));
            assert(old(self)@.skip(before.len() as int).skip(1) == old(self)@.skip(
                result@.len() as int,
            ));
        }
    }
}

} // verus!
