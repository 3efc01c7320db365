use vstd::prelude::*;

verus! {

/// A span of source text, by line and column.
#[derive(Clone, Copy, Debug, PartialEq, Eq, Structural)]
pub struct Range {
    pub start: Pos,
    pub end: Pos,
}

#[derive(Clone, Copy, Debug, PartialEq, Eq, Structural)]
pub struct Pos {
    pub line: usize,
    pub col: usize,
}

/// One line of source text: its number (from 0) and the character positions
/// of its first character and of its last one (the newline that ends it).
#[derive(Clone, Copy, Debug, PartialEq, Eq, Structural)]
pub struct LineInfo {
    pub line: usize,
    pub source_start: usize,
    pub source_end: usize,
}

/// Where the line that holds position `n` starts: just after the last newline before `n`.
pub open spec fn line_start(s: Seq<char>, n: int) -> int
    decreases n,
{
    if n <= 0 {
        0
    } else if s[n - 1] == '\n' {
        n
    } else {
        line_start(s, n - 1)
    }
}

/// The lines of `s[..n]` that a newline ends.
pub open spec fn ended_lines(s: Seq<char>, n: int) -> Seq<LineInfo>
    decreases n,
{
    if n <= 0 {
        Seq::empty()
    } else {
        let prev = ended_lines(s, n - 1);
        if s[n - 1] == '\n' {
            prev.push(
                LineInfo {
                    line: prev.len() as usize,
                    source_start: line_start(s, n - 1) as usize,
                    source_end: (n - 1) as usize,
                },
            )
        } else {
            prev
        }
    }
}

/// Every line of `s`: those that a newline ends, then the last one, which ends
/// at the last character (for an empty text, at position `-1` taken as `usize`).
pub open spec fn all_lines(s: Seq<char>) -> Seq<LineInfo> {
    let ended = ended_lines(s, s.len() as int);
    ended.push(
        LineInfo {
            line: ended.len() as usize,
            source_start: line_start(s, s.len() as int) as usize,
            source_end: if s.len() == 0 {
                usize::MAX
            } else {
                (s.len() - 1) as usize
            },
        },
    )
}

proof fn lemma_ended_lines_len(s: Seq<char>, n: int)
    ensures
        ended_lines(s, n).len() <= if n < 0 {
            0
        } else {
            n
        },
        0 <= line_start(s, n) <= if n < 0 {
            0
        } else {
            n
        },
    decreases n,
{
    if n > 0 {
        lemma_ended_lines_len(s, n - 1);
    }
}

/// The table of lines of a source text, by character positions.
pub fn calculate_line_info(source_text: &str) -> (r: Vec<LineInfo>)
    ensures
        r@ == all_lines(source_text@),
{
    let n = source_text.unicode_len();
    let mut line_info: Vec<LineInfo> = Vec::new();
    let mut line_num: usize = 0;
    let mut source_start: usize = 0;
    let mut i: usize = 0;
    while i < n
        invariant
            n == source_text@.len(),
            i <= n,
            line_info@ == ended_lines(source_text@, i as int),
            line_num == line_info@.len(),
            line_num <= i,
            source_start == line_start(source_text@, i as int),
        decreases n - i,
    {
        proof {
            lemma_ended_lines_len(source_text@, i as int);
        }
        let c = source_text.get_char(i);
        if c == '\n' {
            line_info.push(LineInfo { line: line_num, source_start, source_end: i });
            source_start = i + 1;
            line_num = line_num + 1;
        }
        i = i + 1;
    }
    let source_end = if n == 0 { usize::MAX } else { n - 1 };
    line_info.push(LineInfo { line: line_num, source_start, source_end });
    line_info
}

/// The first line whose span `[source_start, source_end)` holds `index`.
pub fn line_from_index(line_info: &Vec<LineInfo>, index: usize) -> (r: Option<usize>)
    ensures
        r matches Some(i) ==> i < line_info@.len() && line_info@[i as int].source_start <= index
            < line_info@[i as int].source_end && forall|j: int|
            0 <= j < i ==> !(#[trigger] line_info@[j].source_start <= index < line_info@[j].source_end),
        r is None ==> forall|j: int|
            0 <= j < line_info@.len() ==> !(#[trigger] line_info@[j].source_start <= index
                < line_info@[j].source_end),
{
    let mut i: usize = 0;
    while i < line_info.len()
        invariant
            i <= line_info@.len(),
            forall|j: int|
                0 <= j < i ==> !(#[trigger] line_info@[j].source_start <= index < line_info@[j].source_end),
        decreases line_info@.len() - i,
    {
        if line_info[i].source_start <= index && line_info[i].source_end > index {
            return Some(i);
        }
        i = i + 1;
    }
    None
}

} // verus!
