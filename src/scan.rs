//! Splitting a directive list at separators that stand outside quotes and
//! brackets.
use vstd::prelude::*;

verus! {

/// What a scan has seen so far of a directive list.
pub struct ScanState {
    pub in_quotes: bool,
    pub in_single_quotes: bool,
    pub brackets: int,
    pub braces: int,
    pub parentheses: int,
    pub escaped: bool,
}

pub open spec fn initial_state() -> ScanState {
    ScanState {
        in_quotes: false,
        in_single_quotes: false,
        brackets: 0,
        braces: 0,
        parentheses: 0,
        escaped: false,
    }
}

/// The state after reading `c` in state `st`.
pub open spec fn next_state(st: ScanState, c: char) -> ScanState {
    if st.escaped {
        ScanState { escaped: false, ..st }
    } else if c == '\\' {
        ScanState { escaped: true, ..st }
    } else if (st.in_quotes && c != '"') || (st.in_single_quotes && c != '\'') {
        st
    } else if c == '"' {
        ScanState { in_quotes: !st.in_quotes, ..st }
    } else if c == '\'' {
        ScanState { in_single_quotes: !st.in_single_quotes, ..st }
    } else if c == '[' {
        ScanState { brackets: st.brackets + 1, ..st }
    } else if c == ']' {
        ScanState { brackets: st.brackets - 1, ..st }
    } else if c == '{' {
        ScanState { braces: st.braces + 1, ..st }
    } else if c == '}' {
        ScanState { braces: st.braces - 1, ..st }
    } else if c == '(' {
        ScanState { parentheses: st.parentheses + 1, ..st }
    } else if c == ')' {
        ScanState { parentheses: st.parentheses - 1, ..st }
    } else {
        st
    }
}

/// Whether `c`, read in state `st`, is a separator `pat`: it is not escaped,
/// and after it no quote, bracket, brace or parenthesis is open.
pub open spec fn separates(st: ScanState, c: char, pat: char) -> bool {
    let n = next_state(st, c);
    &&& !st.escaped
    &&& !((st.in_quotes && c != '"') || (st.in_single_quotes && c != '\''))
    &&& c == pat
    &&& !n.in_quotes
    &&& !n.in_single_quotes
    &&& n.brackets == 0
    &&& n.braces == 0
    &&& n.parentheses == 0
}

/// The state after reading all of `s`.
pub open spec fn state_after(s: Seq<char>) -> ScanState
    decreases s.len(),
{
    if s.len() == 0 {
        initial_state()
    } else {
        next_state(state_after(s.drop_last()), s.last())
    }
}

/// The pieces of `s` between its separators `pat`, in order; there is one
/// more piece than there are separators.
pub open spec fn pieces(s: Seq<char>, pat: char) -> Seq<Seq<char>>
    decreases s.len(),
{
    if s.len() == 0 {
        seq![Seq::<char>::empty()]
    } else {
        let p = pieces(s.drop_last(), pat);
        if separates(state_after(s.drop_last()), s.last(), pat) {
            p.push(Seq::<char>::empty())
        } else {
            p.update(p.len() - 1, p.last().push(s.last()))
        }
    }
}

/// A scanner that tells, character by character, whether a character is the
/// separator `pat` outside quotes, brackets, braces and parentheses.
pub struct UnenclosedCharFinder {
    pat: char,
    in_quotes: bool,
    in_single_quotes: bool,
    brackets: i128,
    braces: i128,
    parentheses: i128,
    escaped: bool,
}

impl UnenclosedCharFinder {
    pub closed spec fn pattern(&self) -> char {
        self.pat
    }

    pub closed spec fn state(&self) -> ScanState {
        ScanState {
            in_quotes: self.in_quotes,
            in_single_quotes: self.in_single_quotes,
            brackets: self.brackets as int,
            braces: self.braces as int,
            parentheses: self.parentheses as int,
            escaped: self.escaped,
        }
    }

    /// Reads `c` and tells whether it is a separator.
    pub fn matches(&mut self, c: char) -> (r: bool)
        requires
            -i128::MAX < old(self).state().brackets < i128::MAX,
            -i128::MAX < old(self).state().braces < i128::MAX,
            -i128::MAX < old(self).state().parentheses < i128::MAX,
        ensures
            final(self).pattern() == old(self).pattern(),
            final(self).state() == next_state(old(self).state(), c),
            r == separates(old(self).state(), c, old(self).pattern()),
    {
        if self.escaped {
            self.escaped = false;
            return false;
        } else if c == '\\' {
            self.escaped = true;
        } else if (self.in_quotes && c != '"') || (self.in_single_quotes && c != '\'') {
            return false;
        } else if c == '"' {
            self.in_quotes = !self.in_quotes;
        } else if c == '\'' {
            self.in_single_quotes = !self.in_single_quotes;
        } else if c == '[' {
            self.brackets = self.brackets + 1;
        } else if c == ']' {
            self.brackets = self.brackets - 1;
        } else if c == '{' {
            self.braces = self.braces + 1;
        } else if c == '}' {
            self.braces = self.braces - 1;
        } else if c == '(' {
            self.parentheses = self.parentheses + 1;
        } else if c == ')' {
            self.parentheses = self.parentheses - 1;
        }
        c == self.pat && !self.in_quotes && !self.in_single_quotes && self.brackets == 0
            && self.braces == 0 && self.parentheses == 0
    }
}

/// A fresh scanner for the separator `pat`.
pub fn find_unenclosed_char(pat: char) -> (r: UnenclosedCharFinder)
    ensures
        r.pattern() == pat,
        r.state() == initial_state(),
{
    UnenclosedCharFinder {
        pat,
        in_quotes: false,
        in_single_quotes: false,
        brackets: 0,
        braces: 0,
        parentheses: 0,
        escaped: false,
    }
}

proof fn lemma_counts_bounded(s: Seq<char>)
    ensures
        -s.len() <= state_after(s).brackets <= s.len(),
        -s.len() <= state_after(s).braces <= s.len(),
        -s.len() <= state_after(s).parentheses <= s.len(),
    decreases s.len(),
{
    if s.len() > 0 {
        lemma_counts_bounded(s.drop_last());
    }
}

/// `s` cut at every separator `pat` that stands outside quotes and brackets.
pub fn split_unenclosed(s: &Vec<char>, pat: char) -> (r: Vec<Vec<char>>)
    ensures
        r@.map_values(|p: Vec<char>| p@) == pieces(s@, pat),
{
    let mut finder = find_unenclosed_char(pat);
    let mut r: Vec<Vec<char>> = Vec::new();
    let mut cur: Vec<char> = Vec::new();
    let mut i: usize = 0;
    assert(s@.subrange(0, 0) =~= Seq::<char>::empty());
    while i < s.len()
        invariant
            i <= s.len(),
            finder.pattern() == pat,
            finder.state() == state_after(s@.subrange(0, i as int)),
            r@.map_values(|p: Vec<char>| p@).push(cur@) == pieces(s@.subrange(0, i as int), pat),
        decreases s.len() - i,
    {
        let ghost pre = s@.subrange(0, i as int);
        let ghost post = s@.subrange(0, i as int + 1);
        assert(post.drop_last() =~= pre);
        proof {
            lemma_counts_bounded(pre);
        }
        let c = s[i];
        let hit = finder.matches(c);
        if hit {
            let done = cur;
            r.push(done);
            cur = Vec::new();
            assert(r@.map_values(|p: Vec<char>| p@).push(cur@) =~= pieces(pre, pat).push(
                Seq::<char>::empty(),
            ));
        } else {
            let ghost before = r@.map_values(|p: Vec<char>| p@).push(cur@);
            cur.push(c);
            assert(r@.map_values(|p: Vec<char>| p@).push(cur@) =~= before.update(
                before.len() - 1,
                before.last().push(c),
            ));
        }
        i = i + 1;
    }
    assert(s@.subrange(0, s.len() as int) =~= s@);
    r.push(cur);
    assert(r@.map_values(|p: Vec<char>| p@) =~= pieces(s@, pat));
    r
}

} // verus!
