//! The per-line cursor model: one line of source text held as a consumed /
//! unconsumed split around the single character expected next.

use crate::text::first_non_space;
use crate::text::is_space_char;
use crate::text::lemma_first_non_space_at;
use crate::text::push_char;
use vstd::prelude::*;
use vstd::string::StrSliceExecFns;
use vstd::string::StringExecFns;

verus! {

/// The view of an optional owned string.
pub open spec fn str_opt_view(o: Option<String>) -> Option<Seq<char>> {
    match o {
        Some(s) => Some(s@),
        None => None,
    }
}

/// The mathematical value of a [`Line`].
pub ghost struct LineModel {
    /// One-based position of the line in the document.
    pub line_no: int,
    /// Leading whitespace, consumed at construction and never re-typed.
    pub head_space: Option<Seq<char>>,
    /// Characters already typed on this line, excluding `head_space`.
    pub entered: Option<Seq<char>>,
    /// The character expected next; `None` once the line is fully consumed.
    pub current: Option<char>,
    /// The untyped suffix after `current`. `Some` of an empty sequence means
    /// `current` is the last pending character; `None` means nothing is queued
    /// after `current` and the line counts as entered.
    pub rest: Option<Seq<char>>,
}

/// The line constructed from one raw text segment: leading whitespace is
/// split off, the first remaining character becomes `current`, and everything
/// after it becomes `rest`. A segment that is empty or all whitespace is
/// immediately entered and keeps no head space.
pub open spec fn line_of(line_no: int, s: Seq<char>) -> LineModel {
    let k = first_non_space(s);
    if k == s.len() {
        LineModel { line_no, head_space: None, entered: None, current: None, rest: None }
    } else {
        LineModel {
            line_no,
            head_space: if k == 0 {
                None
            } else {
                Some(s.take(k))
            },
            entered: None,
            current: Some(s[k]),
            rest: if k + 1 < s.len() {
                Some(s.skip(k + 1))
            } else {
                None
            },
        }
    }
}

/// Whether the keystroke `c` matches what the line expects: the `current`
/// character, or anything at all once nothing is left to match.
pub open spec fn line_accepts(l: LineModel, c: char) -> bool {
    match l.current {
        Some(i) => i == c,
        None => true,
    }
}

/// Everything considered typed on the line: head space followed by the
/// entered characters, either part absent when empty.
pub open spec fn entered_text_of(l: LineModel) -> Option<Seq<char>> {
    match (l.head_space, l.entered) {
        (Some(h), Some(e)) => Some(h + e),
        (Some(h), None) => Some(h),
        (None, Some(e)) => Some(e),
        (None, None) => None,
    }
}

/// A line counts as entered once nothing is queued after `current`.
pub open spec fn line_entered(l: LineModel) -> bool {
    l.rest is None
}

/// The `entered` field after one advance: the previous `current` appended.
pub open spec fn next_entered(l: LineModel) -> Option<Seq<char>> {
    match (l.entered, l.current) {
        (Some(e), Some(c)) => Some(e.push(c)),
        (Some(e), None) => None,
        (None, Some(c)) => Some(seq![c]),
        (None, None) => None,
    }
}

/// One advance of the cursor: `current` moves into `entered` and the head of
/// `rest` becomes the new `current`; when `rest` is exhausted the line becomes
/// fully entered; a line with no `rest` at all is returned unchanged.
pub open spec fn line_next(l: LineModel) -> LineModel {
    match l.rest {
        Some(r) => {
            if r.len() >= 1 {
                LineModel {
                    line_no: l.line_no,
                    head_space: l.head_space,
                    entered: next_entered(l),
                    current: Some(r[0]),
                    rest: Some(r.drop_first()),
                }
            } else {
                LineModel {
                    line_no: l.line_no,
                    head_space: l.head_space,
                    entered: next_entered(l),
                    current: None,
                    rest: None,
                }
            }
        },
        None => l,
    }
}

/// One line of source text as a consumed/unconsumed split around the
/// character to be typed next. Immutable: advancing yields a new value.
#[derive(Clone, Debug)]
pub struct Line {
    line_no: usize,
    head_space: Option<String>,
    entered: Option<String>,
    current: Option<char>,
    rest: Option<String>,
}

impl View for Line {
    type V = LineModel;

    closed spec fn view(&self) -> LineModel {
        LineModel {
            line_no: self.line_no as int,
            head_space: str_opt_view(self.head_space),
            entered: str_opt_view(self.entered),
            current: self.current,
            rest: str_opt_view(self.rest),
        }
    }
}

fn clone_opt(o: &Option<String>) -> (r: Option<String>)
    ensures
        r == *o,
{
    match o {
        Some(s) => Some(s.clone()),
        None => None,
    }
}

impl Line {
    /// Builds the cursor for one raw text segment.
    pub fn new(line_no: usize, line: &str) -> (r: Line)
        ensures
            r@ == line_of(line_no as int, line@),
    {
        let n = line.unicode_len();
        let mut k: usize = 0;
        while k < n && is_space_char(line.get_char(k))
            invariant
                k <= n,
                n == line@.len(),
                forall|j: int| 0 <= j < k ==> crate::text::is_space(line@[j]),
            decreases n - k,
        {
            k += 1;
        }
        proof {
            lemma_first_non_space_at(line@, k as int);
        }
        if k == n {
            Line { line_no, head_space: None, entered: None, current: None, rest: None }
        } else {
            let head_space = if k == 0 {
                None
            } else {
                Some(String::from_str(line.substring_char(0, k)))
            };
            let cur = line.get_char(k);
            let rest = if k + 1 < n {
                Some(String::from_str(line.substring_char(k + 1, n)))
            } else {
                None
            };
            proof {
                assert(line@.take(k as int) == line@.subrange(0, k as int));
                assert(line@.skip(k + 1 as int) == line@.subrange(k + 1 as int, n as int));
            }
            Line { line_no, head_space, entered: None, current: Some(cur), rest }
        }
    }

    /// The character expected next, if any.
    pub fn current_text(&self) -> (r: Option<char>)
        ensures
            r == self@.current,
    {
        self.current
    }

    /// Head space and entered characters, as far as either is present.
    pub fn entered_text(&self) -> (r: Option<String>)
        ensures
            str_opt_view(r) == entered_text_of(self@),
    {
        match (&self.head_space, &self.entered) {
            (Some(h), Some(e)) => Some(h.clone().concat(e.as_str())),
            (Some(h), None) => Some(h.clone()),
            (None, Some(e)) => Some(e.clone()),
            (None, None) => None,
        }
    }

    /// The leading whitespace captured at construction, if any.
    pub fn head_space_text(&self) -> (r: Option<String>)
        ensures
            str_opt_view(r) == self@.head_space,
    {
        clone_opt(&self.head_space)
    }

    /// The untyped suffix after the current character, if any.
    pub fn rest_text(&self) -> (r: Option<String>)
        ensures
            str_opt_view(r) == self@.rest,
    {
        clone_opt(&self.rest)
    }

    /// Whether the keystroke `c` matches what this line expects.
    pub fn input(&self, c: char) -> (r: bool)
        ensures
            r == line_accepts(self@, c),
    {
        match self.current {
            Some(i) => i == c,
            None => true,
        }
    }

    /// One-based position of the line in the document.
    pub fn line_no(&self) -> (r: usize)
        ensures
            r as int == self@.line_no,
    {
        self.line_no
    }

    /// Whether nothing is queued after the current character.
    pub fn is_entered(&self) -> (r: bool)
        ensures
            r == line_entered(self@),
    {
        self.rest.is_none()
    }

    /// Advances the cursor by one accepted keystroke, yielding a new value.
    pub fn next(&self) -> (r: Line)
        ensures
            r@ == line_next(self@),
    {
        match &self.rest {
            Some(rest) => {
                let entered = match (&self.entered, self.current) {
                    (Some(e), Some(c)) => {
                        let mut e2 = e.clone();
                        push_char(&mut e2, c);
                        Some(e2)
                    },
                    (Some(_), None) => None,
                    (None, Some(c)) => {
                        let mut e2 = String::new();
                        push_char(&mut e2, c);
                        proof {
                            assert(e2@ =~= seq![c]);
                        }
                        Some(e2)
                    },
                    (None, None) => None,
                };
                let n = rest.as_str().unicode_len();
                if n >= 1 {
                    let c0 = rest.as_str().get_char(0);
                    let tail = String::from_str(rest.as_str().substring_char(1, n));
                    proof {
                        assert(rest@.drop_first() == rest@.subrange(1, n as int));
                    }
                    Line {
                        line_no: self.line_no,
                        head_space: clone_opt(&self.head_space),
                        entered,
                        current: Some(c0),
                        rest: Some(tail),
                    }
                } else {
                    Line {
                        line_no: self.line_no,
                        head_space: clone_opt(&self.head_space),
                        entered,
                        current: None,
                        rest: None,
                    }
                }
            },
            None => self.duplicate(),
        }
    }

    /// An equal copy of the line.
    pub(crate) fn duplicate(&self) -> (r: Line)
        ensures
            r == *self,
    {
        Line {
            line_no: self.line_no,
            head_space: clone_opt(&self.head_space),
            entered: clone_opt(&self.entered),
            current: self.current,
            rest: clone_opt(&self.rest),
        }
    }
}

} // verus!
