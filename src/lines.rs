//! Splitting a stream of text chunks into newline-terminated records, as
//! the package index arrives: one JSON document per line.
use vstd::prelude::*;
use vstd::string::*;
use vstd::utf8::*;

use crate::text::{
    find_byte, lemma_ascii_byte_boundaries, lemma_no_ascii_byte_no_char, lemma_split_at_ascii,
};

verus! {

broadcast use {vstd::utf8::group_utf8_lib, vstd::string::group_string_axioms};

/// The byte of `'\n'`.
pub const NEWLINE: u8 = 10;

/// The text of `lines`, each followed by a newline.
pub open spec fn terminated(lines: Seq<Seq<char>>) -> Seq<char>
    decreases lines.len(),
{
    if lines.len() == 0 {
        Seq::empty()
    } else {
        terminated(lines.drop_last()) + lines.last() + seq!['\n']
    }
}

/// The texts of a sequence of strings.
pub open spec fn texts(lines: Seq<String>) -> Seq<Seq<char>> {
    lines.map_values(|l: String| l@)
}

/// Holds the text after the last newline seen so far, until a later chunk
/// completes its line.
pub struct LineSplitter {
    pending: String,
}

impl View for LineSplitter {
    /// The text of the line that is not complete yet.
    type V = Seq<char>;

    closed spec fn view(&self) -> Seq<char> {
        self.pending@
    }
}

impl LineSplitter {
    /// The pending text never holds a newline.
    pub open spec fn wf(&self) -> bool {
        !self@.contains('\n')
    }

    /// A splitter that has seen nothing.
    pub fn new() -> (r: Self)
        ensures
            r@ == Seq::<char>::empty(),
            r.wf(),
    {
        LineSplitter { pending: String::new() }
    }

    /// The text of the line that is not complete yet.
    pub fn pending(&self) -> (r: &str)
        ensures
            r@ == self@,
    {
        self.pending.as_str()
    }

    /// Takes the next chunk and returns the lines it completes, in order and
    /// without their newlines; what follows the last newline stays pending.
    pub fn push(&mut self, chunk: &str) -> (lines: Vec<String>)
        requires
            old(self).wf(),
        ensures
            final(self).wf(),
            old(self)@ + chunk@ == terminated(texts(lines@)) + final(self)@,
            forall|i: int| 0 <= i < lines@.len() ==> !(#[trigger] lines@[i])@.contains('\n'),
    {
        let mut lines: Vec<String> = Vec::new();
        let mut rest: &str = chunk;
        proof {
            assert(texts(lines@) =~= Seq::<Seq<char>>::empty());
            assert(old(self)@ + chunk@ =~= terminated(texts(lines@)) + self@ + rest@);
        }
        loop
            invariant
                self.wf(),
                old(self)@ + chunk@ == terminated(texts(lines@)) + self@ + rest@,
                forall|i: int| 0 <= i < lines@.len() ==> !(#[trigger] lines@[i])@.contains('\n'),
            decreases rest@.len(),
        {
            let found = find_byte(rest.as_bytes(), NEWLINE, 0);
            match found {
                None => {
                    proof {
                        lemma_no_ascii_byte_no_char(rest@, '\n');
                    }
                    let ghost before = self@;
                    self.pending.append(rest);
                    proof {
                        assert(old(self)@ + chunk@ =~= terminated(texts(lines@)) + self@);
                        assert forall|k: int| 0 <= k < self@.len() implies self@[k] != '\n' by {
                            if k < before.len() {
                                assert(self@[k] == before[k]);
                            } else {
                                assert(self@[k] == rest@[k - before.len()]);
                            }
                        }
                    }
                    return lines;
                },
                Some(i) => {
                    let ghost rb = encode_utf8(rest@);
                    proof {
                        lemma_split_at_ascii(rb, i as int, '\n');
                        lemma_ascii_byte_boundaries(rb.subrange(i as int, rb.len() as int), 0);
                    }
                    let (head, tail) = rest.split_at(i);
                    let (_, after) = tail.split_at(1);
                    proof {
                        assert(after.spec_bytes() =~= rb.subrange(i + 1, rb.len() as int));
                        assert(encode_utf8(head@) == rb.subrange(0, i as int));
                        lemma_no_ascii_byte_no_char(head@, '\n');
                    }
                    let mut line = String::from_str(self.pending.as_str());
                    line.append(head);
                    let ghost before = self@;
                    let ghost old_lines = lines@;
                    self.pending = String::new();
                    lines.push(line);
                    proof {
                        assert(texts(lines@).drop_last() =~= texts(old_lines));
                        assert(texts(lines@).last() == line@);
                        assert(old(self)@ + chunk@ =~= terminated(texts(lines@)) + self@ + after@);
                        assert(!line@.contains('\n')) by {
                            assert forall|k: int| 0 <= k < line@.len() implies line@[k] != '\n' by {
                                if k < before.len() {
                                    assert(line@[k] == before[k]);
                                } else {
                                    assert(line@[k] == head@[k - before.len()]);
                                }
                            }
                        }
                        assert forall|j: int| 0 <= j < lines@.len() implies !(
                        #[trigger] lines@[j])@.contains('\n') by {
                            if j < old_lines.len() {
                                assert(lines@[j] == old_lines[j]);
                            }
                        }
                        assert(self@ =~= Seq::<char>::empty());
                    }
                    rest = after;
                },
            }
        }
    }
}

} // verus!
