//! Field-separator sniffing by frequency voting over the first lines of a
//! delimited text.

use vstd::prelude::*;
use crate::text::chars_of;

verus! {

/// Number of lines that take part in the vote.
pub const SAMPLE_LINES: usize = 50;

/// Occurrences of `c` in the first `lines` lines of `s` (a line ends with and
/// includes its `'\n'`).
pub open spec fn count_in_lines(s: Seq<char>, c: char, lines: nat) -> nat
    decreases s.len(),
{
    if s.len() == 0 || lines == 0 {
        0
    } else {
        let here: nat = if s[0] == c { 1 } else { 0 };
        let left: nat = if s[0] == '\n' { (lines - 1) as nat } else { lines };
        here + count_in_lines(s.drop_first(), c, left)
    }
}

/// The voting rule: `;` wins ties against the others, `\t` wins ties against
/// `,`, and `,` is the default when neither occurs.
pub open spec fn vote(semi: nat, comma: nat, tab: nat) -> u8 {
    if semi >= comma && semi >= tab && semi > 0 {
        59u8
    } else if tab >= comma && tab > 0 {
        9u8
    } else {
        44u8
    }
}

/// The separator that the rule picks for a whole text.
pub open spec fn sniffed(s: Seq<char>) -> u8 {
    vote(
        count_in_lines(s, ';', SAMPLE_LINES as nat),
        count_in_lines(s, ',', SAMPLE_LINES as nat),
        count_in_lines(s, '\t', SAMPLE_LINES as nat),
    )
}

proof fn count_in_lines_bounded(s: Seq<char>, c: char, lines: nat)
    ensures
        count_in_lines(s, c, lines) <= s.len(),
    decreases s.len(),
{
    if s.len() > 0 && lines > 0 {
        let left: nat = if s[0] == '\n' { (lines - 1) as nat } else { lines };
        count_in_lines_bounded(s.drop_first(), c, left);
    }
}

/// Infers the field separator (`b';'`, `b'\t'` or `b','`) of a delimited
/// text from the first fifty lines.
pub fn detect_delimiter(content: &str) -> (r: u8)
    ensures
        r == sniffed(content@),
{
    let cs = chars_of(content);
    let ghost s = cs@;
    let mut semi: usize = 0;
    let mut comma: usize = 0;
    let mut tab: usize = 0;
    let mut lines: usize = SAMPLE_LINES;
    let mut i: usize = 0;
    assert(s.subrange(0, s.len() as int) =~= s);
    while i < cs.len() && lines > 0
        invariant
            s == cs@,
            i <= cs.len(),
            lines <= SAMPLE_LINES,
            semi <= i && comma <= i && tab <= i,
            semi + count_in_lines(s.subrange(i as int, s.len() as int), ';', lines as nat)
                == count_in_lines(s, ';', SAMPLE_LINES as nat),
            comma + count_in_lines(s.subrange(i as int, s.len() as int), ',', lines as nat)
                == count_in_lines(s, ',', SAMPLE_LINES as nat),
            tab + count_in_lines(s.subrange(i as int, s.len() as int), '\t', lines as nat)
                == count_in_lines(s, '\t', SAMPLE_LINES as nat),
        decreases cs.len() - i,
    {
        let c = cs[i];
        let ghost rest = s.subrange(i as int, s.len() as int);
        assert(rest.drop_first() =~= s.subrange(i + 1, s.len() as int));
        if c == ';' {
            semi = semi + 1;
        } else if c == ',' {
            comma = comma + 1;
        } else if c == '\t' {
            tab = tab + 1;
        }
        if c == '\n' {
            lines = lines - 1;
        }
        i = i + 1;
    }
    let ghost rest = s.subrange(i as int, s.len() as int);
    assert(count_in_lines(rest, ';', lines as nat) == 0);
    assert(count_in_lines(rest, ',', lines as nat) == 0);
    assert(count_in_lines(rest, '\t', lines as nat) == 0);
    if semi >= comma && semi >= tab && semi > 0 {
        59u8
    } else if tab >= comma && tab > 0 {
        9u8
    } else {
        44u8
    }
}

/// A strict majority decides the vote: `;` when it outnumbers both `,` and
/// `\t`, `\t` when it outnumbers both others, and `,` when it outnumbers both
/// others or when none of the three occurs.
pub proof fn strict_majority_decides(s: Seq<char>)
    ensures
        ({
            let semi = count_in_lines(s, ';', SAMPLE_LINES as nat);
            let comma = count_in_lines(s, ',', SAMPLE_LINES as nat);
            let tab = count_in_lines(s, '\t', SAMPLE_LINES as nat);
            &&& (semi > comma && semi > tab ==> sniffed(s) == 59u8)
            &&& (tab > comma && tab > semi ==> sniffed(s) == 9u8)
            &&& (comma > semi && comma > tab ==> sniffed(s) == 44u8)
            &&& (semi == 0 && comma == 0 && tab == 0 ==> sniffed(s) == 44u8)
        }),
{
}

} // verus!
