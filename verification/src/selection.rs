//! Text selection state for the rich-text widget.
//!
//! A selection is a pair of end points over a laid-out paragraph, addressed
//! by line and grapheme index, together with the direction of the last
//! movement. The widget machinery that reads glyph geometry stays outside;
//! this module owns the pure bookkeeping of the two end points.

use vstd::prelude::*;

verus! {

/// The direction of a selection.
#[derive(Debug, Clone, Copy, PartialEq, Eq, Structural)]
pub enum Direction {
    Left,
    Right,
}

impl Default for Direction {
    /// The default direction is `Right`.
    fn default() -> (d: Self)
        ensures
            d == Direction::Right,
    {
        Direction::Right
    }
}

/// One of the ends of a [`Selection`].
///
/// The index refers to graphemes, not glyphs or bytes.
#[derive(Debug, Clone, Copy, PartialEq, Eq, Structural)]
pub struct SelectionEnd {
    pub line: usize,
    pub index: usize,
}

/// Lexicographic order on end points: by line, then by grapheme index.
pub open spec fn end_le(a: SelectionEnd, b: SelectionEnd) -> bool {
    a.line < b.line || (a.line == b.line && a.index <= b.index)
}

impl SelectionEnd {
    /// Creates a new [`SelectionEnd`].
    pub fn new(line: usize, index: usize) -> (e: Self)
        ensures
            e == (SelectionEnd { line, index }),
    {
        SelectionEnd { line, index }
    }

    /// Whether `self` comes strictly before `other` in document order.
    pub fn precedes(&self, other: &Self) -> (r: bool)
        ensures
            r == (end_le(*self, *other) && *self != *other),
    {
        self.line < other.line || (self.line == other.line && self.index < other.index)
    }
}

impl Default for SelectionEnd {
    /// The default end point is the start of the paragraph.
    fn default() -> (e: Self)
        ensures
            e == (SelectionEnd { line: 0, index: 0 }),
    {
        SelectionEnd { line: 0, index: 0 }
    }
}

/// A text selection.
#[derive(Debug, Clone, Copy, PartialEq, Eq, Structural)]
pub struct Selection {
    /// The start of the selection.
    pub start: SelectionEnd,
    /// The end of the selection.
    pub end: SelectionEnd,
    /// The last direction of the selection.
    pub direction: Direction,
    /// Grapheme index remembered while moving across shorter lines.
    pub moving_line_index: Option<usize>,
}

/// The selection a call to [`Selection::change_selection`] produces.
pub open spec fn change_selection_spec(sel: Selection, new_end: SelectionEnd) -> Selection {
    if sel.direction == Direction::Right {
        let dir = if end_le(new_end, sel.start) && new_end != sel.start {
            Direction::Left
        } else {
            Direction::Right
        };
        Selection {
            start: if end_le(sel.start, new_end) { sel.start } else { new_end },
            end: if end_le(sel.start, new_end) { new_end } else { sel.start },
            direction: dir,
            moving_line_index: None,
        }
    } else {
        let dir = if end_le(sel.end, new_end) && new_end != sel.end {
            Direction::Right
        } else {
            Direction::Left
        };
        Selection {
            start: if end_le(new_end, sel.end) { new_end } else { sel.end },
            end: if end_le(new_end, sel.end) { sel.end } else { new_end },
            direction: dir,
            moving_line_index: None,
        }
    }
}

impl Default for Selection {
    /// The default selection is empty, at the start of the paragraph.
    fn default() -> (s: Self)
        ensures
            s == (Selection {
                start: SelectionEnd { line: 0, index: 0 },
                end: SelectionEnd { line: 0, index: 0 },
                direction: Direction::Right,
                moving_line_index: None,
            }),
    {
        Selection::new()
    }
}

impl Selection {
    /// The start never comes after the end.
    pub open spec fn wf(self) -> bool {
        end_le(self.start, self.end)
    }

    /// Creates a new empty [`Selection`].
    pub fn new() -> (s: Self)
        ensures
            s == (Selection {
                start: SelectionEnd { line: 0, index: 0 },
                end: SelectionEnd { line: 0, index: 0 },
                direction: Direction::Right,
                moving_line_index: None,
            }),
            s.wf(),
    {
        Selection {
            start: SelectionEnd { line: 0, index: 0 },
            end: SelectionEnd { line: 0, index: 0 },
            direction: Direction::Right,
            moving_line_index: None,
        }
    }

    /// A selection is empty when the start and the end are the same.
    pub fn is_empty(&self) -> (r: bool)
        ensures
            r == (self.start == self.end),
    {
        self.start == self.end
    }

    /// Returns the currently active [`SelectionEnd`]: `self.end` if
    /// `self.direction` is `Right`, `self.start` otherwise.
    pub fn active_end(&self) -> (e: SelectionEnd)
        ensures
            e == if self.direction == Direction::Right {
                self.end
            } else {
                self.start
            },
    {
        if self.direction == Direction::Right {
            self.end
        } else {
            self.start
        }
    }

    /// Select a new range: `self.start` is set to the smaller of the two
    /// points, `self.end` to the larger. Direction and the remembered moving
    /// index are untouched.
    pub fn select_range(&mut self, start: SelectionEnd, end: SelectionEnd)
        ensures
            final(self).start == if end_le(start, end) { start } else { end },
            final(self).end == if end_le(start, end) { end } else { start },
            final(self).direction == old(self).direction,
            final(self).moving_line_index == old(self).moving_line_index,
            final(self).wf(),
    {
        if start.precedes(&end) || start == end {
            self.start = start;
            self.end = end;
        } else {
            self.start = end;
            self.end = start;
        }
    }

    /// Updates the selection by setting a new end point.
    ///
    /// If the current direction is `Right`, the range becomes
    /// `(start, new_end)`, and the direction flips to `Left` when `new_end`
    /// comes before `start`. If it is `Left`, the range becomes
    /// `(new_end, end)`, and the direction flips to `Right` when `new_end`
    /// comes after `end`. The remembered moving index is cleared.
    pub fn change_selection(&mut self, new_end: SelectionEnd)
        ensures
            *final(self) == change_selection_spec(*old(self), new_end),
            final(self).wf(),
    {
        let (start, end) = if self.direction == Direction::Right {
            if new_end.precedes(&self.start) {
                self.direction = Direction::Left;
            }
            (self.start, new_end)
        } else {
            if self.end.precedes(&new_end) {
                self.direction = Direction::Right;
            }
            (new_end, self.end)
        };

        self.moving_line_index = None;
        self.select_range(start, end);
    }

    /// Moves the active [`SelectionEnd`] to the beginning of its current
    /// line.
    pub fn select_line_beginning(&mut self)
        ensures
            ({
                let active = if old(self).direction == Direction::Right {
                    old(self).end
                } else {
                    old(self).start
                };
                if active.index > 0 {
                    *final(self) == change_selection_spec(
                        *old(self),
                        SelectionEnd { line: active.line, index: 0 },
                    )
                } else {
                    *final(self) == *old(self)
                }
            }),
    {
        let mut active_end = self.active_end();

        if active_end.index > 0 {
            active_end.index = 0;

            self.change_selection(active_end);
        }
    }

    /// Moves the active [`SelectionEnd`] to the beginning of the paragraph.
    pub fn select_beginning(&mut self)
        ensures
            *final(self) == change_selection_spec(
                *old(self),
                SelectionEnd { line: 0, index: 0 },
            ),
            final(self).wf(),
    {
        self.change_selection(SelectionEnd::new(0, 0));
    }
}


/// The active end of a selection.
pub open spec fn active_end_spec(sel: Selection) -> SelectionEnd {
    if sel.direction == Direction::Right {
        sel.end
    } else {
        sel.start
    }
}

/// The selection [`Selection::select_up`] produces over a paragraph with
/// the given line lengths.
pub open spec fn select_up_spec(sel: Selection, lens: Seq<usize>) -> Selection {
    let active = active_end_spec(sel);
    if active.line == 0 {
        change_selection_spec(sel, SelectionEnd { line: active.line, index: 0 })
    } else {
        let line = (active.line - 1) as usize;
        let start_index = match sel.moving_line_index {
            Some(i) => i,
            None => active.index,
        };
        let len = lens[line as int];
        let clipped = if start_index > len {
            len
        } else {
            start_index
        };
        let base = change_selection_spec(sel, SelectionEnd { line, index: clipped });
        Selection {
            moving_line_index: if start_index > len {
                Some(start_index)
            } else {
                None
            },
            ..base
        }
    }
}

/// The selection [`Selection::select_down`] produces over a paragraph with
/// the given line lengths.
pub open spec fn select_down_spec(sel: Selection, lens: Seq<usize>) -> Selection {
    let active = active_end_spec(sel);
    if active.line == lens.len() - 1 {
        change_selection_spec(sel, SelectionEnd { line: active.line, index: lens[active.line as int] })
    } else {
        let line = (active.line + 1) as usize;
        let start_index = match sel.moving_line_index {
            Some(i) => i,
            None => active.index,
        };
        let len = lens[line as int];
        let clipped = if start_index > len {
            len
        } else {
            start_index
        };
        let base = change_selection_spec(sel, SelectionEnd { line, index: clipped });
        Selection {
            moving_line_index: if start_index > len {
                Some(start_index)
            } else {
                None
            },
            ..base
        }
    }
}

impl Selection {
    /// Both end points sit on lines of a paragraph with `lens` lines.
    pub open spec fn fits(self, lens: Seq<usize>) -> bool {
        self.start.line < lens.len() && self.end.line < lens.len()
    }

    /// Moves the active [`SelectionEnd`] to the left by one grapheme,
    /// wrapping to the previous line if possible and required. `line_lens`
    /// holds the paragraph's line lengths in graphemes.
    pub fn select_left(&mut self, line_lens: &Vec<usize>)
        requires
            old(self).fits(line_lens@),
        ensures
            ({
                let active = active_end_spec(*old(self));
                if active.index > 0 {
                    *final(self) == change_selection_spec(
                        *old(self),
                        SelectionEnd { line: active.line, index: (active.index - 1) as usize },
                    )
                } else if active.line > 0 {
                    *final(self) == change_selection_spec(
                        *old(self),
                        SelectionEnd {
                            line: (active.line - 1) as usize,
                            index: line_lens@[active.line - 1],
                        },
                    )
                } else {
                    *final(self) == *old(self)
                }
            }),
    {
        let mut active_end = self.active_end();

        if active_end.index > 0 {
            active_end.index -= 1;

            self.change_selection(active_end);
        } else if active_end.line > 0 {
            active_end.line -= 1;
            active_end.index = line_lens[active_end.line];

            self.change_selection(active_end);
        }
    }

    /// Moves the active [`SelectionEnd`] to the right by one grapheme,
    /// wrapping to the next line if possible and required.
    pub fn select_right(&mut self, line_lens: &Vec<usize>)
        requires
            old(self).fits(line_lens@),
        ensures
            ({
                let active = active_end_spec(*old(self));
                if active.index < line_lens@[active.line as int] {
                    *final(self) == change_selection_spec(
                        *old(self),
                        SelectionEnd { line: active.line, index: (active.index + 1) as usize },
                    )
                } else if active.line < line_lens@.len() - 1 {
                    *final(self) == change_selection_spec(
                        *old(self),
                        SelectionEnd { line: (active.line + 1) as usize, index: 0 },
                    )
                } else {
                    *final(self) == *old(self)
                }
            }),
    {
        let mut active_end = self.active_end();

        if active_end.index < line_lens[active_end.line] {
            active_end.index += 1;

            self.change_selection(active_end);
        } else if active_end.line < line_lens.len() - 1 {
            active_end.line += 1;
            active_end.index = 0;

            self.change_selection(active_end);
        }
    }

    /// Moves the active [`SelectionEnd`] up by one line, keeping track of
    /// the original grapheme index across shorter lines.
    pub fn select_up(&mut self, line_lens: &Vec<usize>)
        requires
            old(self).fits(line_lens@),
        ensures
            *final(self) == select_up_spec(*old(self), line_lens@),
    {
        let mut active_end = self.active_end();

        if active_end.line == 0 {
            active_end.index = 0;

            self.change_selection(active_end);
        } else {
            active_end.line -= 1;

            let mut moving_line_index: Option<usize> = None;

            match self.moving_line_index {
                Some(index) => {
                    self.moving_line_index = None;
                    active_end.index = index;
                },
                None => {},
            }

            let len = line_lens[active_end.line];
            if active_end.index > len {
                moving_line_index = Some(active_end.index);
                active_end.index = len;
            }

            self.change_selection(active_end);
            self.moving_line_index = moving_line_index;
        }
    }

    /// Moves the active [`SelectionEnd`] down by one line, keeping track of
    /// the original grapheme index across shorter lines.
    pub fn select_down(&mut self, line_lens: &Vec<usize>)
        requires
            old(self).fits(line_lens@),
            line_lens@.len() > 0,
        ensures
            *final(self) == select_down_spec(*old(self), line_lens@),
    {
        let mut active_end = self.active_end();

        if active_end.line == line_lens.len() - 1 {
            active_end.index = line_lens[active_end.line];

            self.change_selection(active_end);
        } else {
            active_end.line += 1;

            let mut moving_line_index: Option<usize> = None;

            match self.moving_line_index {
                Some(index) => {
                    self.moving_line_index = None;
                    active_end.index = index;
                },
                None => {},
            }

            let len = line_lens[active_end.line];
            if active_end.index > len {
                moving_line_index = Some(active_end.index);
                active_end.index = len;
            }

            self.change_selection(active_end);
            self.moving_line_index = moving_line_index;
        }
    }

    /// Moves the active [`SelectionEnd`] to the end of its current line.
    pub fn select_line_end(&mut self, line_lens: &Vec<usize>)
        requires
            old(self).fits(line_lens@),
        ensures
            ({
                let active = active_end_spec(*old(self));
                if active.index < line_lens@[active.line as int] {
                    *final(self) == change_selection_spec(
                        *old(self),
                        SelectionEnd { line: active.line, index: line_lens@[active.line as int] },
                    )
                } else {
                    *final(self) == *old(self)
                }
            }),
    {
        let mut active_end = self.active_end();

        if active_end.index < line_lens[active_end.line] {
            active_end.index = line_lens[active_end.line];

            self.change_selection(active_end);
        }
    }

    /// Moves the active [`SelectionEnd`] to the end of the paragraph.
    pub fn select_end(&mut self, line_lens: &Vec<usize>)
        requires
            line_lens@.len() > 0,
        ensures
            *final(self) == change_selection_spec(
                *old(self),
                SelectionEnd {
                    line: (line_lens@.len() - 1) as usize,
                    index: line_lens@[line_lens@.len() - 1],
                },
            ),
    {
        let line = line_lens.len() - 1;
        let new_end = SelectionEnd::new(line, line_lens[line]);

        self.change_selection(new_end);
    }

    /// Selects an entire line.
    pub fn select_line(&mut self, line: usize, line_lens: &Vec<usize>)
        requires
            line < line_lens@.len(),
        ensures
            final(self).start == (SelectionEnd { line, index: 0 }),
            final(self).end == (SelectionEnd { line, index: line_lens@[line as int] }),
            final(self).direction == old(self).direction,
    {
        let start = SelectionEnd::new(line, 0);
        let end = SelectionEnd::new(line, line_lens[line]);

        self.select_range(start, end);
    }

    /// Selects the entire paragraph.
    pub fn select_all(&mut self, line_lens: &Vec<usize>)
        requires
            line_lens@.len() > 0,
        ensures
            final(self).start == (SelectionEnd { line: 0, index: 0 }),
            final(self).end == (SelectionEnd {
                line: (line_lens@.len() - 1) as usize,
                index: line_lens@[line_lens@.len() - 1],
            }),
            final(self).direction == old(self).direction,
    {
        let line = line_lens.len() - 1;
        let index = line_lens[line];

        let end = SelectionEnd::new(line, index);

        self.select_range(SelectionEnd::new(0, 0), end);
    }
}


/// Lines joined by a newline between each pair.
pub open spec fn join_lines(lines: Seq<Seq<char>>) -> Seq<char>
    decreases lines.len(),
{
    if lines.len() == 0 {
        Seq::empty()
    } else if lines.len() == 1 {
        lines[0]
    } else {
        join_lines(lines.drop_last()) + seq!['\n'] + lines.last()
    }
}

/// The per-line fragments a selection covers: the first line from the
/// start index on, the last line up to the end index, whole lines between.
pub open spec fn clipped_lines(lines: Seq<Seq<char>>, start: SelectionEnd, end: SelectionEnd)
    -> Seq<Seq<char>> {
    Seq::new(
        (end.line - start.line + 1) as nat,
        |k: int|
            lines[start.line + k].subrange(
                if k == 0 {
                    start.index as int
                } else {
                    0
                },
                if k == end.line - start.line {
                    end.index as int
                } else {
                    lines[start.line + k].len() as int
                },
            ),
    )
}

impl Selection {
    /// The selected end points address real positions of a paragraph with
    /// these lines.
    pub open spec fn in_bounds(self, lines: Seq<Seq<char>>) -> bool {
        &&& self.end.line < lines.len()
        &&& self.start.index <= lines[self.start.line as int].len()
        &&& self.end.index <= lines[self.end.line as int].len()
    }

    /// Returns the selected text from the given paragraph, one sequence of
    /// characters per laid-out line: the start line's suffix, every whole
    /// line between, and the end line's prefix, joined by `\n`.
    #[verifier::loop_isolation(false)]
    pub fn text(&self, lines: &Vec<Vec<char>>) -> (r: String)
        requires
            self.wf(),
            self.in_bounds(lines.deep_view()),
        ensures
            r@ == join_lines(clipped_lines(lines.deep_view(), self.start, self.end)),
    {
        proof {
            crate::message::lemma_vec_deep_view(*lines);
        }
        let ghost all = lines.deep_view();
        let ghost parts = clipped_lines(all, self.start, self.end);
        let nlines = lines.len();
        proof {
            assert(self.start.line <= self.end.line);
            assert(self.end.line < nlines);
        }
        let mut out: Vec<char> = Vec::new();
        let mut k: usize = 0;
        let total = self.end.line - self.start.line + 1;
        while k < total
            invariant
                k <= total,
                out@ == join_lines(parts.subrange(0, k as int)),
            decreases total - k,
        {
            if k > 0 {
                out.push('\n');
            }
            let line = &lines[self.start.line + k];
            proof {
                assert(line.deep_view() == all[self.start.line + k]);
            }
            let lo = if k == 0 {
                self.start.index
            } else {
                0
            };
            let hi = if k == total - 1 {
                self.end.index
            } else {
                line.len()
            };
            let mut j: usize = lo;
            while j < hi
                invariant
                    lo <= j <= hi,
                    hi <= line@.len(),
                    out@ == join_lines(parts.subrange(0, k as int)) + (if k > 0 {
                        seq!['\n']
                    } else {
                        Seq::<char>::empty()
                    }) + line.deep_view().subrange(lo as int, j as int),
                decreases hi - j,
            {
                out.push(line[j]);
                proof {
                    assert(line.deep_view().subrange(lo as int, j as int).push(
                        line.deep_view()[j as int],
                    ) =~= line.deep_view().subrange(lo as int, j as int + 1));
                    assert(out@ =~= join_lines(parts.subrange(0, k as int)) + (if k > 0 {
                        seq!['\n']
                    } else {
                        Seq::<char>::empty()
                    }) + line.deep_view().subrange(lo as int, j as int + 1));
                }
                j += 1;
            }
            k += 1;
            proof {
                let prefix = parts.subrange(0, k as int);
                assert(prefix.drop_last() =~= parts.subrange(0, k as int - 1));
                assert(prefix.last() == parts[k - 1]);
                assert(parts[k - 1] =~= line.deep_view().subrange(lo as int, hi as int));
                if k == 1 {
                    assert(out@ =~= join_lines(prefix));
                } else {
                    assert(out@ =~= join_lines(prefix.drop_last()) + seq!['\n'] + prefix.last());
                }
            }
        }
        proof {
            assert(parts.subrange(0, total as int) =~= parts);
        }
        crate::parse::chars_to_string(&out)
    }
}

} // verus!
