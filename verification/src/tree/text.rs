use vstd::prelude::*;

verus! {

/// Index of the first line break at or after `from`, or the length of the
/// text when no line break follows.
pub open spec fn line_end(text: Seq<char>, from: int) -> int
    decreases text.len() - from,
{
    if from < 0 || from >= text.len() {
        text.len() as int
    } else if text[from] == '\n' {
        from
    } else {
        line_end(text, from + 1)
    }
}

/// Number of lines that start at or after `from`, where `from` is the start
/// of a line. A line break at the very end opens no further line.
pub open spec fn lines_from(text: Seq<char>, from: int) -> nat
    decreases text.len() - from,
{
    if from < 0 || from >= text.len() {
        0
    } else if line_end(text, from) >= text.len() {
        1
    } else {
        proof {
            lemma_line_end(text, from);
        }
        1 + lines_from(text, line_end(text, from) + 1)
    }
}

/// Number of rows that a text takes: one for each line, and one for the
/// empty text.
pub open spec fn line_count(text: Seq<char>) -> nat {
    if text.len() == 0 {
        1
    } else {
        lines_from(text, 0)
    }
}

/// Index at which line `r` starts.
pub open spec fn line_start(text: Seq<char>, r: nat) -> int
    decreases r,
{
    if r == 0 {
        0
    } else {
        line_end(text, line_start(text, (r - 1) as nat)) + 1
    }
}

/// Line `r` of the text, without its line break.
pub open spec fn line(text: Seq<char>, r: nat) -> Seq<char> {
    text.subrange(line_start(text, r), line_end(text, line_start(text, r)))
}

/// A line ends at or after its start, within the text, at a line break or at
/// the end, and holds no line break.
pub proof fn lemma_line_end(text: Seq<char>, from: int)
    requires
        0 <= from <= text.len(),
    ensures
        from <= line_end(text, from) <= text.len(),
        line_end(text, from) < text.len() ==> text[line_end(text, from)] == '\n',
        forall|j: int| from <= j < line_end(text, from) ==> text[j] != '\n',
    decreases text.len() - from,
{
    if from < text.len() && text[from] != '\n' {
        lemma_line_end(text, from + 1);
    }
}

/// There are no more lines than characters.
pub proof fn lemma_lines_from_bound(text: Seq<char>, from: int)
    requires
        0 <= from,
    ensures
        lines_from(text, from) <= (if from <= text.len() { text.len() - from } else { 0 }),
        from < text.len() ==> lines_from(text, from) >= 1,
    decreases text.len() - from,
{
    if from < text.len() {
        lemma_line_end(text, from);
        if line_end(text, from) < text.len() {
            lemma_lines_from_bound(text, line_end(text, from) + 1);
        }
    }
}

/// A text takes at least one row and, unless it is empty, no more rows than it
/// has characters.
pub proof fn law_text_takes_rows(text: Seq<char>)
    ensures
        1 <= line_count(text),
        line_count(text) <= (if text.len() == 0 { 1 } else { text.len() }),
{
    lemma_lines_from_bound(text, 0);
}

/// Each of the rows of a text starts within the text, and the lines that
/// start there or later are the rows that are left.
pub proof fn lemma_line_start(text: Seq<char>, r: nat)
    requires
        r < line_count(text),
    ensures
        0 <= line_start(text, r) <= text.len(),
        text.len() > 0 ==> line_start(text, r) < text.len(),
        text.len() > 0 ==> lines_from(text, line_start(text, r)) == line_count(text) - r,
    decreases r,
{
    if r > 0 {
        lemma_line_start(text, (r - 1) as nat);
        let before = line_start(text, (r - 1) as nat);
        lemma_line_end(text, before);
        if line_end(text, before) < text.len() {
            lemma_lines_from_bound(text, line_end(text, before) + 1);
        }
    }
}

/// The characters of a string slice, one by one.
pub fn chars_of(s: &str) -> (v: Vec<char>)
    ensures
        v@ == s@,
{
    let mut v: Vec<char> = Vec::new();
    for c in it: s.chars()
        invariant
            v@ == it.seq().take(it.index() as int),
            it.seq() == s@,
    {
        v.push(c);
    }
    v
}

/// Finds the end of the line that starts at `from`.
pub fn find_line_end(text: &Vec<char>, from: usize) -> (end: usize)
    requires
        from <= text@.len(),
    ensures
        end == line_end(text@, from as int),
        from <= end <= text@.len(),
{
    let mut end: usize = from;
    while end < text.len() && text[end] != '\n'
        invariant
            from <= end <= text@.len(),
            line_end(text@, from as int) == line_end(text@, end as int),
        decreases text@.len() - end,
    {
        end = end + 1;
    }
    end
}

/// Counts the rows that a text takes.
pub fn count_lines(text: &Vec<char>) -> (n: usize)
    ensures
        n == line_count(text@),
        n >= 1,
{
    if text.len() == 0 {
        return 1;
    }
    let mut n: usize = 0;
    let mut from: usize = 0;
    while from < text.len()
        invariant
            from <= text@.len(),
            n <= from,
            n + lines_from(text@, from as int) == lines_from(text@, 0),
            from == 0 ==> n == 0,
            from > 0 ==> n >= 1,
        decreases text@.len() - from,
    {
        let end = find_line_end(text, from);
        n = n + 1;
        if end == text.len() {
            from = end;
        } else {
            from = end + 1;
        }
    }
    n
}

/// The number of rows that a string slice takes.
pub fn height_of(s: &str) -> (n: usize)
    ensures
        n == line_count(s@),
        n >= 1,
{
    let text = chars_of(s);
    count_lines(&text)
}

} // verus!
