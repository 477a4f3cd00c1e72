//! The line buffer: the mutable document model and its edit primitives.

use vstd::prelude::*;

use crate::position::Position;
use crate::text::{
    basename, basename_of, contains_sub, find_in_line, join_content, join_lines,
    lemma_split_content_lines_ok, line_ok, lines_view, occurs_at, split_content, split_lines,
};

verus! {

/// The side a removal takes from the cursor.
pub enum Direction {
    Forward,
    Backward,
}

/// The buffer's starting name, before any file is attached to it.
pub open spec fn scratch_name() -> Seq<char> {
    seq!['s', 'c', 'r', 'a', 't', 'c', 'h']
}

/// The four spaces a tab expands to.
pub open spec fn four_spaces() -> Seq<char> {
    seq![' ', ' ', ' ', ' ']
}

/// The document after a newline is inserted at row `r`, column `c`: the line
/// is split into its first `c` characters and the rest.  An empty document
/// gains its one first, empty line.
pub open spec fn lines_after_newline(lines: Seq<Seq<char>>, r: int, c: int) -> Seq<Seq<char>> {
    if lines.len() == 0 {
        seq![Seq::empty()]
    } else {
        lines.update(r, lines[r].take(c)).insert(r + 1, lines[r].skip(c))
    }
}

/// The document after a tab is inserted at row `r`, column `c`: four spaces
/// appear at the column.  An empty document gains one line of four spaces.
pub open spec fn lines_after_tab(lines: Seq<Seq<char>>, r: int, c: int) -> Seq<Seq<char>> {
    if lines.len() == 0 {
        seq![four_spaces()]
    } else {
        lines.update(r, lines[r].take(c) + four_spaces() + lines[r].skip(c))
    }
}

/// The document after an ordinary character is inserted at row `r`, column
/// `c`.  An empty document gains one line holding that character.
pub open spec fn lines_after_char(lines: Seq<Seq<char>>, r: int, c: int, ch: char) -> Seq<
    Seq<char>,
> {
    if lines.len() == 0 {
        seq![seq![ch]]
    } else {
        lines.update(r, lines[r].insert(c, ch))
    }
}

/// What `insert` does to the document: nothing on a read-only buffer; a
/// split for the newline character; a four-space expansion for the tab
/// character; a plain insertion otherwise.
pub open spec fn lines_after_insert(
    lines: Seq<Seq<char>>,
    read_only: bool,
    r: int,
    c: int,
    ch: char,
) -> Seq<Seq<char>> {
    if read_only {
        lines
    } else if ch == '\n' {
        lines_after_newline(lines, r, c)
    } else if ch == '\t' {
        lines_after_tab(lines, r, c)
    } else {
        lines_after_char(lines, r, c, ch)
    }
}

/// What `remove` does to the document, keyed by direction and the state of
/// the line at the cursor: nothing on a read-only or empty buffer, or just
/// past the last row.  Forward: an empty line is removed whole; before the
/// end of the line the character at the column goes; at the end of the line
/// the next line is merged in, when there is one.  Backward: an empty line
/// is removed whole; at the end of the line the last character goes;
/// otherwise the character at the column goes, except at column zero, where
/// nothing happens.
pub open spec fn lines_after_remove(
    lines: Seq<Seq<char>>,
    read_only: bool,
    dir: Direction,
    r: int,
    c: int,
) -> Seq<Seq<char>> {
    if read_only || lines.len() == 0 || r == lines.len() {
        lines
    } else {
        let line = lines[r];
        match dir {
            Direction::Forward => {
                if line.len() == 0 {
                    lines.remove(r)
                } else if c != line.len() {
                    lines.update(r, line.remove(c))
                } else if r + 1 != lines.len() {
                    lines.update(r, line + lines[r + 1]).remove(r + 1)
                } else {
                    lines
                }
            },
            Direction::Backward => {
                if line.len() == 0 {
                    lines.remove(r)
                } else if c == line.len() {
                    lines.update(r, line.drop_last())
                } else if c != 0 {
                    lines.update(r, line.remove(c))
                } else {
                    lines
                }
            },
        }
    }
}

/// An in-memory, line-based document.
pub struct Buffer {
    /// The buffer's display name: the base name of its file, or `scratch`.
    pub name: Vec<char>,
    /// The document's lines, in order; the row number is the index.
    pub lines: Vec<Vec<char>>,
    /// Whether the file was read-only when opened; a read-only buffer
    /// refuses every edit.
    pub read_only: bool,
}

impl View for Buffer {
    type V = Seq<Seq<char>>;

    open spec fn view(&self) -> Seq<Seq<char>> {
        lines_view(self.lines)
    }
}

impl Default for Buffer {
    /// The empty scratch buffer the editor starts with.
    fn default() -> (res: Self)
        ensures
            res@ == Seq::<Seq<char>>::empty(),
            res.name@ == scratch_name(),
            !res.read_only,
            res.wf(),
    {
        let mut name: Vec<char> = Vec::new();
        name.push('s');
        name.push('c');
        name.push('r');
        name.push('a');
        name.push('t');
        name.push('c');
        name.push('h');
        proof {
            assert(name@ =~= scratch_name());
        }
        let res = Buffer { name, lines: Vec::new(), read_only: false };
        proof {
            assert(res@ =~= Seq::<Seq<char>>::empty());
        }
        res
    }
}

impl Buffer {
    /// Every line of the document is free of line terminators.
    pub open spec fn wf(&self) -> bool {
        forall|i: int| 0 <= i < self@.len() ==> line_ok(#[trigger] self@[i])
    }

    /// A position that the edit primitives accept: on an empty document only
    /// the origin; otherwise an existing row and a column no further than the
    /// end of that row's line.
    pub open spec fn pos_in(&self, pos: Position) -> bool {
        if self@.len() == 0 {
            pos.r == 0 && pos.c == 0
        } else {
            pos.r < self@.len() && pos.c <= self@[pos.r as int].len()
        }
    }

    /// The outcome of an attempt to open a path: the part of opening that
    /// works on plain values.  `loaded` carries the file's content and its
    /// read-only bit when the file could be read, and nothing when it could
    /// not (missing and denied are deliberately not distinguished).  Returns
    /// the buffer and whether the file existed.
    pub fn open_result(path: &Vec<char>, loaded: Option<(Vec<char>, bool)>) -> (res: (Buffer, bool))
        ensures
            res.0.name@ == basename_of(path@),
            res.0.wf(),
            match loaded {
                Some(cr) => res.0@ == split_content(cr.0@) && res.0.read_only == cr.1 && res.1,
                None => res.0@ == Seq::<Seq<char>>::empty() && !res.0.read_only && !res.1,
            },
    {
        let name = basename(path);
        match loaded {
            Some((content, read_only)) => {
                let lines = split_lines(&content);
                proof {
                    lemma_split_content_lines_ok(content@);
                }
                (Buffer { name, lines, read_only }, true)
            },
            None => {
                let res = Buffer { name, lines: Vec::new(), read_only: false };
                proof {
                    assert(res@ =~= Seq::<Seq<char>>::empty());
                }
                (res, false)
            },
        }
    }

    /// Whether the buffer still carries the starting scratch name, so that
    /// saving it must first ask for a file name.
    pub fn is_scratch(&self) -> (b: bool)
        ensures
            b <==> self.name@ == scratch_name(),
    {
        let b = self.name.len() == 7 && self.name[0] == 's' && self.name[1] == 'c' && self.name[2]
            == 'r' && self.name[3] == 'a' && self.name[4] == 't' && self.name[5] == 'c'
            && self.name[6] == 'h';
        proof {
            if b {
                assert(self.name@ =~= scratch_name());
            }
        }
        b
    }

    /// The content that saving writes: every line followed by one
    /// terminator, the last line included.
    pub fn render_content(&self) -> (res: Vec<char>)
        ensures
            res@ == join_content(self@),
    {
        join_lines(&self.lines)
    }

    /// Records a completed save to `target`: the buffer takes the target's
    /// base name; the document is untouched.  Returns the number of lines
    /// that were written.
    pub fn finish_write(&mut self, target: &Vec<char>) -> (count: usize)
        ensures
            final(self)@ == old(self)@,
            final(self).read_only == old(self).read_only,
            final(self).name@ == basename_of(target@),
            count == old(self)@.len(),
    {
        self.name = basename(target);
        self.lines.len()
    }

    /// The first row, top to bottom, whose line contains `s`; the error
    /// value when no row does.
    pub fn find(&self, s: &Vec<char>) -> (res: Result<usize, ()>)
        ensures
            match res {
                Ok(p) => p < self@.len() && contains_sub(self@[p as int], s@) && forall|q: int|
                    0 <= q < p ==> !contains_sub(#[trigger] self@[q], s@),
                Err(_) => forall|q: int|
                    0 <= q < self@.len() ==> !contains_sub(#[trigger] self@[q], s@),
            },
    {
        let mut p: usize = 0;
        while p < self.lines.len()
            invariant
                p <= self@.len(),
                forall|q: int| 0 <= q < p ==> !contains_sub(#[trigger] self@[q], s@),
            decreases self@.len() - p,
        {
            match find_in_line(&self.lines[p], s) {
                Some(i) => {
                    proof {
                        assert(occurs_at(self@[p as int], s@, i as int));
                    }
                    return Ok(p);
                },
                None => {},
            }
            p += 1;
        }
        Err(())
    }

    /// The number of lines.
    pub fn len(&self) -> (n: usize)
        ensures
            n == self@.len(),
    {
        self.lines.len()
    }

    /// The line at `index`, or nothing when there is no such row.
    pub fn get(&self, index: usize) -> (res: Option<&Vec<char>>)
        ensures
            match res {
                Some(l) => index < self@.len() && l@ == self@[index as int],
                None => index >= self@.len(),
            },
    {
        if index < self.lines.len() {
            Some(&self.lines[index])
        } else {
            None
        }
    }

    /// Inserts `c` at `pos`: a newline splits the line, a tab becomes four
    /// spaces, any other character lands at the column.  A read-only buffer
    /// is left exactly as it was, whatever the position.
    pub fn insert(&mut self, pos: Position, c: char)
        requires
            old(self).read_only || old(self).pos_in(pos),
        ensures
            final(self)@ == lines_after_insert(
                old(self)@,
                old(self).read_only,
                pos.r as int,
                pos.c as int,
                c,
            ),
            final(self).name == old(self).name,
            final(self).read_only == old(self).read_only,
            old(self).read_only ==> *final(self) == *old(self),
            old(self).wf() ==> final(self).wf(),
    {
        if self.read_only {
            return ;
        }
        if c == '\n' {
            self.insert_newline(pos);
        } else if c == '\t' {
            self.insert_tab(pos);
        } else if self.lines.len() != 0 {
            let ghost pre = self@;
            let mut line = self.lines.remove(pos.r);
            line.insert(pos.c, c);
            self.lines.insert(pos.r, line);
            proof {
                assert(self@ =~= pre.update(pos.r as int, pre[pos.r as int].insert(
                    pos.c as int,
                    c,
                )));
                if old(self).wf() {
                    assert forall|i: int| 0 <= i < self@.len() implies line_ok(
                        #[trigger] self@[i],
                    ) by {
                        if i == pos.r as int {
                            assert(forall|j: int|
                                0 <= j < self@[i].len() ==> self@[i][j] != '\n');
                        }
                    }
                }
            }
        } else {
            let ghost pre = self@;
            let mut line: Vec<char> = Vec::new();
            line.push(c);
            self.lines.push(line);
            proof {
                assert(self@ =~= seq![seq![c]]);
            }
        }
    }

    /// Expands a tab at `pos` into four spaces.
    pub fn insert_tab(&mut self, pos: Position)
        requires
            old(self).pos_in(pos),
        ensures
            final(self)@ == lines_after_tab(old(self)@, pos.r as int, pos.c as int),
            final(self).name == old(self).name,
            final(self).read_only == old(self).read_only,
            old(self).wf() ==> final(self).wf(),
    {
        let ghost pre = self@;
        if self.lines.len() == 0 {
            let mut line: Vec<char> = Vec::new();
            line.push(' ');
            line.push(' ');
            line.push(' ');
            line.push(' ');
            proof {
                assert(line@ =~= four_spaces());
            }
            self.lines.push(line);
            proof {
                assert(self@ =~= seq![four_spaces()]);
            }
        } else {
            let mut line = self.lines.remove(pos.r);
            let mut tail = line.split_off(pos.c);
            line.push(' ');
            line.push(' ');
            line.push(' ');
            line.push(' ');
            line.append(&mut tail);
            self.lines.insert(pos.r, line);
            proof {
                assert(line@ =~= pre[pos.r as int].take(pos.c as int) + four_spaces()
                    + pre[pos.r as int].skip(pos.c as int));
                assert(self@ =~= pre.update(
                    pos.r as int,
                    pre[pos.r as int].take(pos.c as int) + four_spaces() + pre[pos.r as int].skip(
                        pos.c as int,
                    ),
                ));
            }
        }
        proof {
            if old(self).wf() {
                assert forall|i: int| 0 <= i < self@.len() implies line_ok(#[trigger] self@[i]) by {
                    assert(forall|j: int| 0 <= j < self@[i].len() ==> self@[i][j] != '\n');
                }
            }
        }
    }

    /// Splits the line at `pos` into its first `pos.c` characters and the
    /// rest; an empty document gains its one first, empty line.
    pub fn insert_newline(&mut self, pos: Position)
        requires
            old(self).pos_in(pos),
        ensures
            final(self)@ == lines_after_newline(old(self)@, pos.r as int, pos.c as int),
            final(self).name == old(self).name,
            final(self).read_only == old(self).read_only,
            old(self).wf() ==> final(self).wf(),
    {
        let ghost pre = self@;
        if self.lines.len() == 0 {
            self.lines.push(Vec::new());
            proof {
                assert(self@ =~= seq![Seq::<char>::empty()]);
            }
        } else {
            let mut line = self.lines.remove(pos.r);
            let tail = line.split_off(pos.c);
            self.lines.insert(pos.r, line);
            self.lines.insert(pos.r + 1, tail);
            proof {
                assert(self@ =~= pre.update(pos.r as int, pre[pos.r as int].take(
                    pos.c as int,
                )).insert(pos.r + 1, pre[pos.r as int].skip(pos.c as int)));
            }
        }
        proof {
            if old(self).wf() {
                assert forall|i: int| 0 <= i < self@.len() implies line_ok(#[trigger] self@[i]) by {
                    assert(forall|j: int| 0 <= j < self@[i].len() ==> self@[i][j] != '\n');
                }
            }
        }
    }

    /// Removes one character (or line) at `pos`, by the case table of
    /// `lines_after_remove`.  Only single-character semantics are defined:
    /// the count is accepted but always treated as one.  A read-only buffer
    /// is left exactly as it was, whatever the position.
    pub fn remove(&mut self, pos: Position, direction: Direction, _num_chars: i32)
        requires
            old(self).read_only || (pos.r <= old(self)@.len() && (pos.r < old(self)@.len()
                ==> pos.c <= old(self)@[pos.r as int].len())),
        ensures
            final(self)@ == lines_after_remove(
                old(self)@,
                old(self).read_only,
                direction,
                pos.r as int,
                pos.c as int,
            ),
            final(self).name == old(self).name,
            final(self).read_only == old(self).read_only,
            old(self).read_only ==> *final(self) == *old(self),
            old(self).wf() ==> final(self).wf(),
    {
        if self.read_only {
            return ;
        }
        if self.lines.len() == 0 || self.lines.len() == pos.r {
            return ;
        }
        let ghost pre = self@;
        let line_len = self.lines[pos.r].len();
        match direction {
            Direction::Forward => {
                if line_len == 0 {
                    self.lines.remove(pos.r);
                    proof {
                        assert(self@ =~= pre.remove(pos.r as int));
                    }
                } else if pos.c != line_len {
                    let mut line = self.lines.remove(pos.r);
                    line.remove(pos.c);
                    self.lines.insert(pos.r, line);
                    proof {
                        assert(self@ =~= pre.update(pos.r as int, pre[pos.r as int].remove(
                            pos.c as int,
                        )));
                    }
                } else if pos.r + 1 != self.lines.len() {
                    self.remove_and_concat(pos);
                }
            },
            Direction::Backward => {
                if line_len == 0 {
                    self.lines.remove(pos.r);
                    proof {
                        assert(self@ =~= pre.remove(pos.r as int));
                    }
                } else if pos.c == line_len {
                    let mut line = self.lines.remove(pos.r);
                    let _ = line.pop();
                    self.lines.insert(pos.r, line);
                    proof {
                        assert(self@ =~= pre.update(
                            pos.r as int,
                            pre[pos.r as int].drop_last(),
                        ));
                    }
                } else if pos.c != 0 {
                    let mut line = self.lines.remove(pos.r);
                    line.remove(pos.c);
                    self.lines.insert(pos.r, line);
                    proof {
                        assert(self@ =~= pre.update(pos.r as int, pre[pos.r as int].remove(
                            pos.c as int,
                        )));
                    }
                }
            },
        }
        proof {
            if old(self).wf() {
                assert forall|i: int| 0 <= i < self@.len() implies line_ok(#[trigger] self@[i]) by {
                    assert(forall|j: int| 0 <= j < self@[i].len() ==> self@[i][j] != '\n');
                }
            }
        }
    }

    /// Merges the line after `pos.r` onto the line at `pos.r` and removes it.
    pub fn remove_and_concat(&mut self, pos: Position)
        requires
            pos.r + 1 < old(self)@.len(),
        ensures
            final(self)@ == old(self)@.update(
                pos.r as int,
                old(self)@[pos.r as int] + old(self)@[pos.r as int + 1],
            ).remove(pos.r as int + 1),
            final(self).name == old(self).name,
            final(self).read_only == old(self).read_only,
            old(self).wf() ==> final(self).wf(),
    {
        let ghost pre = self@;
        let n = self.lines.len();
        proof {
            assert(pos.r < n);
        }
        let mut next = self.lines.remove(pos.r + 1);
        let mut line = self.lines.remove(pos.r);
        line.append(&mut next);
        self.lines.insert(pos.r, line);
        proof {
            assert(self@ =~= pre.update(pos.r as int, pre[pos.r as int] + pre[pos.r as int
                + 1]).remove(pos.r as int + 1));
            if old(self).wf() {
                assert forall|i: int| 0 <= i < self@.len() implies line_ok(#[trigger] self@[i]) by {
                    assert(forall|j: int| 0 <= j < self@[i].len() ==> self@[i][j] != '\n');
                }
            }
        }
    }
}

/// Round trip law: the content a well-formed buffer writes splits back
/// into exactly the buffer's lines when it is opened again.
pub proof fn lemma_buffer_round_trip(b: Buffer)
    requires
        b.wf(),
    ensures
        split_content(join_content(b@)) == b@,
{
    crate::text::lemma_split_join_round_trip(b@);
}

/// Split/merge inverse law: inserting a newline at column `c` of row `r`
/// and then forward-removing at the same spot restores the document.
pub proof fn lemma_split_merge_inverse(lines: Seq<Seq<char>>, r: int, c: int)
    requires
        0 <= r < lines.len(),
        0 <= c <= lines[r].len(),
    ensures
        lines_after_remove(lines_after_newline(lines, r, c), false, Direction::Forward, r, c)
            == lines,
{
    let split = lines_after_newline(lines, r, c);
    assert(split.len() == lines.len() + 1);
    assert(split[r] == lines[r].take(c));
    assert(split[r].len() == c);
    if c == 0 {
        assert(lines_after_remove(split, false, Direction::Forward, r, c) == split.remove(r));
        assert(lines[r].skip(0) =~= lines[r]);
        assert(split.remove(r) =~= lines);
    } else {
        assert(r + 1 != split.len());
        assert(split[r + 1] == lines[r].skip(c));
        assert(lines_after_remove(split, false, Direction::Forward, r, c) == split.update(
            r,
            split[r] + split[r + 1],
        ).remove(r + 1));
        assert(lines[r].take(c) + lines[r].skip(c) =~= lines[r]);
        assert(split.update(r, lines[r]).remove(r + 1) =~= lines);
    }
}

/// Tab expansion law: a tab inserted at column `c` puts exactly four spaces
/// there and makes the line exactly four characters longer.
pub proof fn lemma_tab_expansion(lines: Seq<Seq<char>>, r: int, c: int)
    requires
        0 <= r < lines.len(),
        0 <= c <= lines[r].len(),
    ensures
        lines_after_tab(lines, r, c).len() == lines.len(),
        lines_after_tab(lines, r, c)[r].len() == lines[r].len() + 4,
        lines_after_tab(lines, r, c)[r].subrange(c, c + 4) == four_spaces(),
        lines_after_tab(lines, r, c)[r].take(c) == lines[r].take(c),
        lines_after_tab(lines, r, c)[r].skip(c + 4) == lines[r].skip(c),
        forall|q: int| 0 <= q < lines.len() && q != r ==> lines_after_tab(lines, r, c)[q] == lines[q],
{
    let new_line = lines[r].take(c) + four_spaces() + lines[r].skip(c);
    assert(lines_after_tab(lines, r, c)[r] == new_line);
    assert(new_line.subrange(c, c + 4) =~= four_spaces());
    assert(new_line.take(c) =~= lines[r].take(c));
    assert(new_line.skip(c + 4) =~= lines[r].skip(c));
}

} // verus!
