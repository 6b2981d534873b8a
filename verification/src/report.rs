//! Reading what the service manager prints when it is asked.
//!
//! A report of the services names one service on each line: the name is the
//! first word of the line, and a line without a word names none. A report of
//! the memory in use spells a number of bytes in decimal digits as its first
//! word; where it spells none, nothing is in use.

use vstd::prelude::*;
use vstd::slice::slice_subrange;
use crate::numeral::{decimal_value, read_decimal};
use crate::parse::{find, find_from};
use crate::strings::{chars_of, text_of};

verus! {

/// Whether `c` stands between words: a blank, a tab, a carriage return or a
/// line feed.
pub open spec fn is_blank(c: char) -> bool {
    c == ' ' || c == '\t' || c == '\r' || c == '\n'
}

/// How many characters `s` begins with that are all blank (`blank` true) or
/// all not blank (`blank` false).
pub open spec fn run(s: Seq<char>, blank: bool) -> int
    decreases s.len(),
{
    if s.len() == 0 || is_blank(s.first()) != blank {
        0
    } else {
        1 + run(s.drop_first(), blank)
    }
}

/// The first word of `line`: what stands behind the blanks that the line
/// begins with, up to the next blank or the end of the line.
pub open spec fn first_word(line: Seq<char>) -> Seq<char> {
    let rest = line.skip(run(line, true));
    rest.take(run(rest, false))
}

/// The names that a report of the services holds, line by line.
pub open spec fn names_in(report: Seq<char>) -> Seq<Seq<char>>
    decreases report.len(),
{
    if report.len() == 0 {
        seq![]
    } else {
        let end = find(report, '\n');
        let rest = if 0 <= end < report.len() {
            report.skip(end + 1)
        } else {
            Seq::empty()
        };
        let word = first_word(report.take(end));
        if word.len() == 0 {
            names_in(rest)
        } else {
            seq![word] + names_in(rest)
        }
    }
}

/// The number of bytes that a report of the memory in use spells: the number
/// that its first word spells, or 0 if that is no number that fits.
pub open spec fn memory_in(report: Seq<char>) -> u64 {
    match decimal_value(first_word(report)) {
        Some(value) => if value <= u64::MAX {
            value as u64
        } else {
            0
        },
        None => 0,
    }
}

/// `run` gives the one index that ends a run.
proof fn lemma_run_is(s: Seq<char>, blank: bool, at: int)
    requires
        0 <= at <= s.len(),
        at < s.len() ==> is_blank(s[at]) != blank,
        forall|j: int| 0 <= j < at ==> is_blank(s[j]) == blank,
    ensures
        run(s, blank) == at,
    decreases s.len(),
{
    if s.len() > 0 && is_blank(s.first()) == blank {
        lemma_run_is(s.drop_first(), blank, at - 1);
    }
}

/// The end of the run of blank (`blank` true) or other (`blank` false)
/// characters that begins in `chars` at `from`.
fn run_from(chars: &[char], from: usize, blank: bool) -> (at: usize)
    requires
        from <= chars@.len(),
    ensures
        from <= at <= chars@.len(),
        at - from == run(chars@.skip(from as int), blank),
{
    let n: usize = chars.len();
    let mut at: usize = from;
    while at < n && (chars[at] == ' ' || chars[at] == '\t' || chars[at] == '\r' || chars[at]
        == '\n') == blank
        invariant
            from <= at <= n,
            n == chars@.len(),
            forall|j: int| from <= j < at ==> is_blank(chars@[j]) == blank,
        decreases n - at,
    {
        at += 1;
    }
    proof {
        lemma_run_is(chars@.skip(from as int), blank, at - from);
    }
    at
}

/// The first word of `line`.
fn first_word_of(line: &[char]) -> (word: &[char])
    ensures
        word@ == first_word(line@),
{
    assert(line@.skip(0) =~= line@);
    let from = run_from(line, 0, true);
    let to = run_from(line, from, false);
    slice_subrange(line, from, to)
}

/// The names of the services that `report` holds: the first word of every
/// line that has one, in the order of the lines.
pub fn service_names(report: &str) -> (names: Vec<String>)
    ensures
        names.deep_view() == names_in(report@),
{
    let chars = chars_of(report);
    let all: &[char] = chars.as_slice();
    let n: usize = all.len();
    let mut names: Vec<String> = Vec::new();
    let mut at: usize = 0;
    assert(all@.skip(0) =~= all@);
    while at < n
        invariant
            at <= n,
            n == all@.len(),
            all@ == report@,
            names_in(report@) == names.deep_view() + names_in(all@.skip(at as int)),
        decreases n - at,
    {
        let ghost here = all@.skip(at as int);
        let end = find_from(all, at, '\n');
        let word = first_word_of(slice_subrange(all, at, end));
        let next: usize = if end < n {
            end + 1
        } else {
            n
        };
        proof {
            assert(all@.subrange(at as int, end as int) =~= here.take(end - at));
            if end < n {
                assert(here.skip(end - at + 1) =~= all@.skip(next as int));
            } else {
                assert(all@.skip(next as int) =~= Seq::empty());
            }
        }
        if word.len() > 0 {
            names.push(text_of(word));
        }
        at = next;
    }
    names
}

/// The number of bytes that a report of the memory in use spells, or 0 where
/// it spells none that fits.
pub fn memory_usage(report: &str) -> (bytes: u64)
    ensures
        bytes == memory_in(report@),
{
    let chars = chars_of(report);
    match read_decimal(first_word_of(chars.as_slice())) {
        Some(bytes) => bytes,
        None => 0,
    }
}

} // verus!
