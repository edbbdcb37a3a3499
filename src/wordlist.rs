//! Word lists: lines of tab-separated columns whose second column is the word.
use vstd::prelude::*;

verus! {

/// The index of the first tab in `s` at or after `from`, or the length of `s`.
pub open spec fn next_tab(s: Seq<char>, from: int) -> int
    decreases s.len() - from,
{
    if from >= s.len() {
        s.len() as int
    } else if s[from] == '\t' {
        from
    } else {
        next_tab(s, from + 1)
    }
}

/// The second tab-separated column of `line`; empty where there is none.
pub open spec fn second_column(line: Seq<char>) -> Seq<char> {
    let a = next_tab(line, 0);
    if a >= line.len() {
        Seq::empty()
    } else {
        line.subrange(a + 1, next_tab(line, a + 1))
    }
}

proof fn lemma_next_tab_bounds(s: Seq<char>, from: int)
    requires
        0 <= from <= s.len(),
    ensures
        from <= next_tab(s, from) <= s.len(),
    decreases s.len() - from,
{
    if from < s.len() && s[from] != '\t' {
        lemma_next_tab_bounds(s, from + 1);
    }
}

/// The index of the first tab in `line` at or after `from`, or its length.
fn find_tab(line: &str, from: usize) -> (r: usize)
    requires
        from <= line@.len(),
    ensures
        r as int == next_tab(line@, from as int),
{
    let n = line.unicode_len();
    let mut i = from;
    while i < n && line.get_char(i) != '\t'
        invariant
            n as int == line@.len(),
            from <= i <= n,
            next_tab(line@, from as int) == next_tab(line@, i as int),
        decreases n - i,
    {
        i = i + 1;
    }
    i
}

/// The word that a line of a word list holds: its second tab-separated
/// column, or the empty string where the line has a single column.
pub fn word_of_line(line: &str) -> (r: String)
    ensures
        r@ == second_column(line@),
{
    let n = line.unicode_len();
    let a = find_tab(line, 0);
    proof {
        lemma_next_tab_bounds(line@, 0);
    }
    if a >= n {
        return String::new();
    }
    let b = find_tab(line, a + 1);
    proof {
        lemma_next_tab_bounds(line@, a + 1);
    }
    String::from_str(line.substring_char(a + 1, b))
}

/// The words of a word list, one for each of its lines, in order.
pub fn parse_word_list(lines: &Vec<String>) -> (r: Vec<String>)
    ensures
        r@.len() == lines@.len(),
        forall|i: int| 0 <= i < lines@.len() ==> #[trigger] r@[i]@ == second_column(lines@[i]@),
{
    let mut words: Vec<String> = Vec::new();
    let mut i: usize = 0;
    while i < lines.len()
        invariant
            i <= lines@.len(),
            words@.len() == i,
            forall|j: int| 0 <= j < i ==> #[trigger] words@[j]@ == second_column(lines@[j]@),
        decreases lines@.len() - i,
    {
        words.push(word_of_line(lines[i].as_str()));
        i = i + 1;
    }
    words
}

} // verus!
