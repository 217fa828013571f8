//! Building blocks for SQL text.

use crate::text::{chars_of, join, joined, texts};
use vstd::prelude::*;
use vstd::string::*;

verus! {

/// An identifier with each double quote in it doubled.
pub open spec fn escaped(s: Seq<char>) -> Seq<char>
    decreases s.len(),
{
    if s.len() == 0 {
        Seq::empty()
    } else if s.last() == '"' {
        escaped(s.drop_last()) + seq!['"', '"']
    } else {
        escaped(s.drop_last()).push(s.last())
    }
}

/// An identifier without a double quote is written as it is.
pub proof fn lemma_escaped_plain(s: Seq<char>)
    requires
        forall|i: int| 0 <= i < s.len() ==> s[i] != '"',
    ensures
        escaped(s) == s,
    decreases s.len(),
{
    if s.len() > 0 {
        lemma_escaped_plain(s.drop_last());
        assert(s =~= s.drop_last().push(s.last()));
    }
}

/// The text of a quoted identifier: the identifier between double quotes,
/// with each double quote in it doubled.
pub open spec fn quoted(ident: Seq<char>) -> Seq<char> {
    seq!['"'] + escaped(ident) + seq!['"']
}

/// Quotes an identifier: wraps it in double quotes and doubles each double
/// quote in it, so that the result is one identifier whatever the name holds.
pub fn quote_ident(ident: &str) -> (r: String)
    ensures
        r@ == quoted(ident@),
{
    proof {
        reveal_strlit("\"");
        reveal_strlit("\"\"");
    }
    let chars = chars_of(ident);
    let mut r = String::from_str("\"");
    // The characters from `start` on have no double quote and are not yet written.
    let mut start: usize = 0;
    let mut i: usize = 0;
    assert(chars@.take(0) =~= Seq::empty());
    assert(chars@.subrange(0, 0) =~= Seq::empty());
    while i < chars.len()
        invariant
            start <= i <= chars@.len(),
            chars@ == ident@,
            r@ + chars@.subrange(start as int, i as int) == seq!['"'] + escaped(
                chars@.take(i as int),
            ),
        decreases chars@.len() - i,
    {
        proof {
            let next = chars@.take(i + 1);
            assert(next.drop_last() =~= chars@.take(i as int));
            assert(next.last() == chars@[i as int]);
        }
        let ghost before = r@;
        if chars[i] == '"' {
            let ghost from = start as int;
            let run = ident.substring_char(start, i);
            r.append(run);
            r.append("\"\"");
            start = i + 1;
            proof {
                reveal_strlit("\"\"");
                assert("\"\""@ =~= seq!['"', '"']);
                assert(run@ == chars@.subrange(from, i as int));
                assert(chars@.subrange(start as int, i + 1) =~= Seq::empty());
                assert(r@ =~= (before + chars@.subrange(from, i as int)) + seq!['"', '"']);
                assert(r@ + chars@.subrange(start as int, i + 1) =~= r@);
            }
        } else {
            assert(chars@.subrange(start as int, i + 1) =~= chars@.subrange(
                start as int,
                i as int,
            ).push(chars@[i as int]));
            assert(r@ + chars@.subrange(start as int, i + 1) =~= (r@ + chars@.subrange(
                start as int,
                i as int,
            )).push(chars@[i as int]));
        }
        i += 1;
    }
    assert(chars@.take(i as int) =~= chars@);
    let ghost before = r@;
    let run = ident.substring_char(start, i);
    r.append(run);
    r.append("\"");
    assert(r@ =~= (before + chars@.subrange(start as int, i as int)) + seq!['"']);
    assert(r@ =~= quoted(ident@));
    r
}

/// A statement that is put together from parts.
#[derive(Clone, Debug)]
pub struct StatementBuilder {
    parts: Vec<String>,
}

impl View for StatementBuilder {
    /// The parts added so far.
    type V = Seq<Seq<char>>;

    closed spec fn view(&self) -> Seq<Seq<char>> {
        texts(self.parts@)
    }
}

impl StatementBuilder {
    /// A statement without parts.
    pub fn new() -> (r: Self)
        ensures
            r@ == Seq::<Seq<char>>::empty(),
    {
        let r = StatementBuilder { parts: Vec::new() };
        assert(r@ =~= Seq::empty());
        r
    }

    /// Adds a part as it is.
    pub fn part(&mut self, s: &str)
        ensures
            final(self)@ == old(self)@.push(s@),
    {
        self.parts.push(String::from_str(s));
        assert(self@ =~= old(self)@.push(s@));
    }

    /// Adds an identifier, quoted.
    pub fn ident(&mut self, s: &str)
        ensures
            final(self)@ == old(self)@.push(quoted(s@)),
    {
        let q = quote_ident(s);
        self.part(q.as_str());
    }

    /// The statement: its parts with a space between each two.
    pub fn to_string(&self) -> (r: String)
        ensures
            r@ == joined(self@, " "@),
    {
        join(&self.parts, " ")
    }
}

impl Default for StatementBuilder {
    fn default() -> (r: Self)
        ensures
            r@ == Seq::<Seq<char>>::empty(),
    {
        StatementBuilder::new()
    }
}

} // verus!
