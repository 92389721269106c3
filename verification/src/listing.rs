//! Reading the listing of generations that the system tool prints.
//!
//! The listing has one generation per line. The first word of a line is the
//! generation's number; the line of the active generation also carries the
//! marker `(current)`. Lines whose first word is no number are passed over.

use crate::command_runner::Generation;
use crate::error::LockError;
use crate::text::{
    chars_of, contains, first_word, leading, lemma_leading, number_of, occurs_in, parse_number,
    take_first_word,
};
use vstd::prelude::*;
use vstd::slice::slice_subrange;

verus! {

/// The test for anything but a line feed, as a predicate.
pub open spec fn within_line() -> spec_fn(char) -> bool {
    |c: char| c != '\n'
}

/// The lines of `text`: what stands between line feeds. A line feed at the end
/// of the text ends the last line and begins no further one.
pub open spec fn lines(text: Seq<char>) -> Seq<Seq<char>>
    decreases text.len(),
{
    if text.len() == 0 {
        Seq::empty()
    } else {
        let len = leading(text, within_line()) as int;
        if len >= text.len() {
            seq![text]
        } else {
            seq![text.take(len)] + lines(text.skip(len + 1))
        }
    }
}

/// The generation number at the front of `line`, if its first word is one.
pub open spec fn number_in_line(line: Seq<char>) -> Option<u32> {
    number_of(first_word(line))
}

/// The generation that `line` lists, if it lists one.
pub open spec fn generation_in_line(line: Seq<char>) -> Option<Generation> {
    match number_in_line(line) {
        Some(number) => Some(Generation { number }),
        None => None,
    }
}

/// The generations that the listing `text` holds, in the order of its lines.
pub open spec fn listed_generations(text: Seq<char>) -> Seq<Generation> {
    lines(text).filter_map(|line: Seq<char>| generation_in_line(line))
}

/// The marker of the active generation.
pub open spec fn current_marker() -> Seq<char> {
    seq!['(', 'c', 'u', 'r', 'r', 'e', 'n', 't', ')']
}

/// The number of the active generation, if `line` names it: the line carries
/// the marker and begins with a number.
pub open spec fn current_in_line(line: Seq<char>) -> Option<u32> {
    if occurs_in(line, current_marker()) {
        number_in_line(line)
    } else {
        None
    }
}

/// The number of the active generation according to the listing `text`: that
/// of the first line that names one.
pub open spec fn current_generation(text: Seq<char>) -> Option<u32> {
    let named = lines(text).filter_map(|line: Seq<char>| current_in_line(line));
    if named.len() > 0 {
        Some(named[0])
    } else {
        None
    }
}

/// Where the line that begins at `from` ends: at the next line feed, or at
/// the end of the text.
fn line_end(chars: &[char], from: usize) -> (to: usize)
    requires
        from <= chars@.len(),
    ensures
        from <= to <= chars@.len(),
        to - from == leading(chars@.skip(from as int), within_line()),
{
    let len = chars.len();
    let mut to = from;
    while to < len && chars[to] != '\n'
        invariant
            from <= to <= len,
            len == chars@.len(),
            forall|i: int| from <= i < to ==> chars@[i] != '\n',
        decreases len - to,
    {
        to = to + 1;
    }
    proof {
        let rest = chars@.skip(from as int);
        assert forall|i: int| 0 <= i < to - from implies within_line()(rest[i]) by {
            assert(rest[i] == chars@[from + i]);
        }
        lemma_leading(rest, within_line(), to - from);
    }
    to
}

/// The lines of a text, by positions: the line that begins at `from` ends at
/// `to`, and the lines behind it begin behind the line feed at `to`.
proof fn lemma_lines_step(text: Seq<char>, from: int, to: int)
    requires
        0 <= from < text.len(),
        from <= to <= text.len(),
        to - from == leading(text.skip(from), within_line()),
    ensures
        lines(text.skip(from)) == seq![text.subrange(from, to)] + lines(
            text.skip(if to == text.len() {
                to
            } else {
                to + 1
            }),
        ),
{
    let rest = text.skip(from);
    assert(rest.take(to - from) =~= text.subrange(from, to));
    if to == text.len() {
        assert(rest =~= text.subrange(from, to));
        assert(lines(text.skip(to)) =~= Seq::<Seq<char>>::empty());
        assert(lines(rest) =~= seq![rest] + Seq::<Seq<char>>::empty());
    } else {
        assert(rest.skip(to - from + 1) =~= text.skip(to + 1));
    }
}

/// Reading a list of lines in two parts gives what the parts give, in order.
proof fn lemma_filter_map_concat<B>(
    front: Seq<Seq<char>>,
    back: Seq<Seq<char>>,
    f: spec_fn(Seq<char>) -> Option<B>,
)
    ensures
        (front + back).filter_map(f) == front.filter_map(f) + back.filter_map(f),
    decreases back.len(),
{
    if back.len() == 0 {
        assert(front + back =~= front);
        assert(front.filter_map(f) + back.filter_map(f) =~= front.filter_map(f));
    } else {
        assert((front + back).drop_last() =~= front + back.drop_last());
        assert((front + back).last() == back.last());
        lemma_filter_map_concat(front, back.drop_last(), f);
        match f(back.last()) {
            Some(value) => {
                assert((front.filter_map(f) + back.drop_last().filter_map(f)) + seq![value]
                    =~= front.filter_map(f) + (back.drop_last().filter_map(f) + seq![value]));
            },
            None => {},
        }
    }
}

/// Reads one more line behind the lines `done`.
proof fn lemma_filter_map_push<B>(
    done: Seq<Seq<char>>,
    line: Seq<char>,
    f: spec_fn(Seq<char>) -> Option<B>,
)
    ensures
        done.push(line).filter_map(f) == done.filter_map(f) + (match f(line) {
            Some(value) => seq![value],
            None => Seq::empty(),
        }),
{
    assert(done.push(line).drop_last() =~= done);
    assert(done.push(line).last() == line);
    if f(line) is None {
        assert(done.filter_map(f) + Seq::<B>::empty() =~= done.filter_map(f));
    }
}

/// Reads the listing `output` of the system tool and returns the generations
/// it holds, in the order of its lines. A line counts when its first word is a
/// generation number; every other line is passed over.
pub fn parse_generations(output: &str) -> (generations: Vec<Generation>)
    ensures
        generations@ == listed_generations(output@),
{
    let chars = chars_of(output);
    let len = chars.len();
    let mut generations: Vec<Generation> = Vec::new();
    let mut from: usize = 0;
    let ghost read = |line: Seq<char>| generation_in_line(line);
    let ghost done = Seq::<Seq<char>>::empty();
    proof {
        assert(chars@.skip(0) =~= chars@);
        assert(done + lines(chars@) =~= lines(chars@));
    }
    while from < len
        invariant
            len == chars@.len(),
            from <= len,
            read == |line: Seq<char>| generation_in_line(line),
            lines(chars@) == done + lines(chars@.skip(from as int)),
            generations@ == done.filter_map(read),
        decreases len - from,
    {
        let to = line_end(chars.as_slice(), from);
        let line = slice_subrange(chars.as_slice(), from, to);
        let number = parse_number(take_first_word(line));
        let next = if to == len {
            to
        } else {
            to + 1
        };
        proof {
            lemma_lines_step(chars@, from as int, to as int);
            lemma_filter_map_push(done, line@, read);
            assert(done.push(line@) + lines(chars@.skip(next as int)) =~= done + (seq![line@]
                + lines(chars@.skip(next as int))));
            done = done.push(line@);
        }
        match number {
            Some(number) => {
                generations.push(Generation { number });
            },
            None => {},
        }
        from = next;
    }
    proof {
        assert(lines(chars@.skip(len as int)) =~= Seq::<Seq<char>>::empty());
        assert(done + Seq::<Seq<char>>::empty() =~= done);
    }
    generations
}

/// Reads the listing `output` of the system tool and returns the number of
/// the active generation: that of the first line which carries the marker
/// `(current)` and begins with a generation number. Without such a line the
/// active generation is unknown.
pub fn parse_current_generation(output: &str) -> (current: Result<u32, LockError>)
    ensures
        current == match current_generation(output@) {
            Some(number) => Ok::<u32, LockError>(number),
            None => Err(LockError::CurrentGenerationNotFound),
        },
{
    let chars = chars_of(output);
    let marker: Vec<char> = vec!['(', 'c', 'u', 'r', 'r', 'e', 'n', 't', ')'];
    assert(marker@ =~= current_marker());
    let len = chars.len();
    let mut from: usize = 0;
    let ghost read = |line: Seq<char>| current_in_line(line);
    let ghost done = Seq::<Seq<char>>::empty();
    proof {
        assert(chars@.skip(0) =~= chars@);
        assert(done + lines(chars@) =~= lines(chars@));
    }
    while from < len
        invariant
            len == chars@.len(),
            from <= len,
            chars@ == output@,
            marker@ == current_marker(),
            read == |line: Seq<char>| current_in_line(line),
            lines(chars@) == done + lines(chars@.skip(from as int)),
            done.filter_map(read).len() == 0,
        decreases len - from,
    {
        let to = line_end(chars.as_slice(), from);
        let line = slice_subrange(chars.as_slice(), from, to);
        let next = if to == len {
            to
        } else {
            to + 1
        };
        let ghost behind = lines(chars@.skip(next as int));
        proof {
            lemma_lines_step(chars@, from as int, to as int);
            lemma_filter_map_push(done, line@, read);
            assert(done.push(line@) + behind =~= done + (seq![line@] + behind));
        }
        if contains(line, marker.as_slice()) {
            match parse_number(take_first_word(line)) {
                Some(number) => {
                    proof {
                        lemma_filter_map_concat(done.push(line@), behind, read);
                    }
                    return Ok(number);
                },
                None => {},
            }
        }
        proof {
            done = done.push(line@);
        }
        from = next;
    }
    proof {
        assert(lines(chars@.skip(len as int)) =~= Seq::<Seq<char>>::empty());
        assert(done + Seq::<Seq<char>>::empty() =~= done);
    }
    Err(LockError::CurrentGenerationNotFound)
}

} // verus!
