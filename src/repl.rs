use vstd::prelude::*;

use crate::text::{chars_of, string_of};

verus! {

/// Assembles one semicolon-terminated statement from lines of input.
pub struct Repl {
    buffer: String,
    history: Vec<String>,
    is_in_multiline: bool,
}

/// `s` without the line terminators (`\n`, `\r`) at its end.
pub open spec fn trim_line_ends(s: Seq<char>) -> Seq<char>
    decreases s.len(),
{
    if s.len() > 0 && (s.last() == '\n' || s.last() == '\r') {
        trim_line_ends(s.drop_last())
    } else {
        s
    }
}

/// The offset of the first `;` in `s` at or after `i`.
pub open spec fn semicolon_from(s: Seq<char>, i: nat) -> Option<nat>
    decreases s.len() - i,
{
    if i >= s.len() {
        None
    } else if s[i as int] == ';' {
        Some(i)
    } else {
        semicolon_from(s, i + 1)
    }
}

/// A line with its terminators removed and everything after its first `;` cut.
pub open spec fn cleaned(s: Seq<char>) -> Seq<char> {
    let t = trim_line_ends(s);
    match semicolon_from(t, 0) {
        Some(p) => t.subrange(0, p + 1 as int),
        None => t,
    }
}

/// The lines joined by single spaces.
pub open spec fn joined(lines: Seq<Seq<char>>) -> Seq<char>
    decreases lines.len(),
{
    if lines.len() == 0 {
        Seq::empty()
    } else if lines.len() == 1 {
        lines[0]
    } else {
        joined(lines.drop_last()) + seq![' '] + lines.last()
    }
}

/// The first `;` among `v[0..end]`.
fn find_semicolon(v: &Vec<char>, end: usize) -> (r: Option<usize>)
    requires
        end <= v@.len(),
    ensures
        match r {
            Some(p) => p < end && semicolon_from(v@.subrange(0, end as int), 0) == Some(p as nat),
            None => semicolon_from(v@.subrange(0, end as int), 0) is None,
        },
{
    let ghost t = v@.subrange(0, end as int);
    let mut i: usize = 0;
    while i < end
        invariant
            i <= end <= v@.len(),
            t == v@.subrange(0, end as int),
            semicolon_from(t, 0) == semicolon_from(t, i as nat),
        decreases end - i,
    {
        if v[i] == ';' {
            return Some(i);
        }
        i = i + 1;
    }
    None
}

impl Repl {
    /// The lines accepted so far.
    pub closed spec fn lines(&self) -> Seq<Seq<char>> {
        self.history@.map_values(|s: String| s@)
    }

    /// Whether the statement being assembled has lines already.
    pub closed spec fn in_multiline(&self) -> bool {
        self.is_in_multiline
    }

    pub fn new() -> (r: Repl)
        ensures
            r.lines() == Seq::<Seq<char>>::empty(),
            !r.in_multiline(),
    {
        let r = Repl { buffer: String::new(), history: Vec::<String>::new(), is_in_multiline: false };
        assert(r.lines() =~= Seq::<Seq<char>>::empty());
        r
    }

    /// Removes the line terminators at the end of `input` and everything after
    /// its first `;`, which is kept.
    pub fn clean_input(input: &mut String)
        ensures
            final(input)@ == cleaned(old(input)@),
    {
        let v = chars_of(input.as_str());
        let mut end: usize = v.len();
        assert(v@.subrange(0, end as int) =~= v@);
        while end > 0 && (v[end - 1] == '\n' || v[end - 1] == '\r')
            invariant
                end <= v@.len(),
                v@ == old(input)@,
                trim_line_ends(v@.subrange(0, end as int)) == trim_line_ends(v@),
            decreases end,
        {
            assert(v@.subrange(0, end as int).drop_last() =~= v@.subrange(0, end - 1));
            end = end - 1;
        }
        assert(v@.subrange(0, end as int) == trim_line_ends(v@));
        let ghost t = v@.subrange(0, end as int);
        let cut = match find_semicolon(&v, end) {
            Some(p) => {
                assert(semicolon_from(t, 0) == Some(p as nat));
                assert(t.subrange(0, p + 1) =~= v@.subrange(0, p + 1));
                p + 1
            },
            None => {
                assert(semicolon_from(t, 0) is None);
                end
            },
        };
        assert(cleaned(old(input)@) == v@.subrange(0, cut as int));
        *input = string_of(&v, 0, cut);
    }

    /// The lines joined by single spaces; `history` is left as it was.
    pub fn multiline_to_singleline(history: &mut Vec<String>) -> (r: String)
        ensures
            final(history)@ == old(history)@,
            r@ == joined(old(history)@.map_values(|s: String| s@)),
    {
        let ghost lines = history@.map_values(|s: String| s@);
        let mut r = String::new();
        let mut i: usize = 0;
        while i < history.len()
            invariant
                history@ == old(history)@,
                lines == old(history)@.map_values(|s: String| s@),
                i <= history@.len(),
                r@ == joined(lines.subrange(0, i as int)),
            decreases history@.len() - i,
        {
            let ghost before = r@;
            assert(lines.subrange(0, i + 1).drop_last() =~= lines.subrange(0, i as int));
            if i > 0 {
                proof {
                    reveal_strlit(" ");
                }
                r.append(" ");
            }
            r.append(history[i].as_str());
            if i > 0 {
                assert(r@ =~= before + seq![' '] + lines[i as int]);
            } else {
                assert(r@ =~= lines[0]);
            }
            i = i + 1;
        }
        assert(lines.subrange(0, i as int) =~= lines);
        r
    }

    /// The prompt for the next line: `..` while a statement is continued.
    pub fn prompt(&self) -> (r: &'static str)
        ensures
            r@ == (if self.in_multiline() {
                ".."@
            } else {
                ">>"@
            }),
    {
        if self.is_in_multiline {
            ".."
        } else {
            ">>"
        }
    }

    /// Begins a new statement: the next prompt is the first-line prompt.
    pub fn start_statement(&mut self)
        ensures
            final(self).lines() == old(self).lines(),
            !final(self).in_multiline(),
    {
        self.is_in_multiline = false;
    }

    /// Accepts one line read from the user: it is cleaned and added to the
    /// lines. Returns whether it held a `;`, which completes the statement.
    pub fn accept_line(&mut self, line: String) -> (done: bool)
        ensures
            done == (semicolon_from(line@, 0) is Some),
            final(self).lines() == old(self).lines().push(cleaned(line@)),
            final(self).in_multiline() == !done,
    {
        let v = chars_of(line.as_str());
        let done = find_semicolon(&v, v.len()).is_some();
        assert(v@.subrange(0, v@.len() as int) =~= v@);
        self.buffer = line;
        Self::clean_input(&mut self.buffer);
        self.history.push(self.buffer.clone());
        assert(self.lines() =~= old(self).lines().push(cleaned(line@)));
        self.is_in_multiline = !done;
        done
    }

    /// The statement: every line accepted so far, joined by single spaces.
    pub fn statement(&mut self) -> (r: String)
        ensures
            final(self).lines() == old(self).lines(),
            final(self).in_multiline() == old(self).in_multiline(),
            r@ == joined(old(self).lines()),
    {
        Self::multiline_to_singleline(&mut self.history)
    }
}

} // verus!
