//! The target source for address lists: one address per line, with an
//! optional `:annotation` after it that is not part of the target.

use vstd::prelude::*;
use vstd::string::*;
use crate::text::{
    before_first, char_at, lemma_first_index_unique, length, slice, split, split_on, texts,
};

verus! {

/// A line as it stands in the list: a piece between line feeds, less one
/// carriage return at its end.
pub open spec fn line_of(piece: Seq<char>) -> Seq<char> {
    if piece.len() > 0 && piece.last() == '\r' {
        piece.drop_last()
    } else {
        piece
    }
}

/// The target that a line names: nothing for an empty line, else the part
/// of the line before its first `:`.
pub open spec fn target_of(line: Seq<char>) -> Option<Seq<char>> {
    if line.len() == 0 {
        None
    } else {
        Some(before_first(line, ':'))
    }
}

/// The targets that the given pieces name, in order; empty lines name
/// none.
pub open spec fn targets_in(pieces: Seq<Seq<char>>) -> Seq<Seq<char>>
    decreases pieces.len(),
{
    if pieces.len() == 0 {
        Seq::empty()
    } else {
        match target_of(line_of(pieces.last())) {
            Some(target) => targets_in(pieces.drop_last()).push(target),
            None => targets_in(pieces.drop_last()),
        }
    }
}

/// The targets that the text of an address list names, in line order.
pub open spec fn file_targets(contents: Seq<char>) -> Seq<Seq<char>> {
    targets_in(split_on(contents, '\n'))
}

/// How many of the pieces are lines that name a target.
pub open spec fn count_named(pieces: Seq<Seq<char>>) -> nat
    decreases pieces.len(),
{
    if pieces.len() == 0 {
        0
    } else if line_of(pieces.last()).len() == 0 {
        count_named(pieces.drop_last())
    } else {
        count_named(pieces.drop_last()) + 1
    }
}

/// A list names as many targets as it has non-empty lines.
pub proof fn lemma_one_target_per_line(pieces: Seq<Seq<char>>)
    ensures
        targets_in(pieces).len() == count_named(pieces),
    decreases pieces.len(),
{
    if pieces.len() > 0 {
        lemma_one_target_per_line(pieces.drop_last());
    }
}

/// The target that one line of an address list names, if it names one.
/// The line comes without its line feed; a carriage return at its end is
/// dropped.
pub fn line_target(line: &str) -> (target: Option<String>)
    ensures
        match target {
            Some(text) => target_of(line_of(line@)) == Some(text@),
            None => target_of(line_of(line@)) is None,
        },
{
    let ascii = line.is_ascii();
    let stored = length(line, ascii);
    let n = if stored > 0 && char_at(line, ascii, stored - 1) == '\r' {
        stored - 1
    } else {
        stored
    };
    assert(line_of(line@) =~= line@.take(n as int));
    if n == 0 {
        return None;
    }
    let mut i: usize = 0;
    while i < n && char_at(line, ascii, i) != ':'
        invariant
            ascii ==> line.is_ascii(),
            i <= n <= line@.len(),
            forall|j: int| 0 <= j < i ==> line@[j] != ':',
        decreases n - i,
    {
        i += 1;
    }
    proof {
        lemma_first_index_unique(line@.take(n as int), ':', i as int);
        assert(line@.take(n as int).take(i as int) =~= line@.subrange(0, i as int));
    }
    Some(String::from_str(slice(line, ascii, 0, i)))
}

/// The targets that the text of an address list names, in line order.
pub fn read_file(contents: &str) -> (targets: Vec<String>)
    ensures
        texts(targets@) == file_targets(contents@),
{
    let pieces = split(contents, '\n');
    let mut targets: Vec<String> = Vec::new();
    let mut i: usize = 0;
    while i < pieces.len()
        invariant
            i <= pieces.len(),
            texts(targets@) == targets_in(texts(pieces@).take(i as int)),
        decreases pieces.len() - i,
    {
        proof {
            let upto = texts(pieces@).take(i + 1);
            assert(upto.drop_last() =~= texts(pieces@).take(i as int));
            assert(upto.last() == pieces@[i as int]@);
        }
        match line_target(pieces[i].as_str()) {
            Some(target) => {
                assert(texts(targets@.push(target)) =~= texts(targets@).push(target@));
                targets.push(target);
            },
            None => {},
        }
        i += 1;
    }
    assert(texts(pieces@).take(i as int) =~= texts(pieces@));
    targets
}

} // verus!
