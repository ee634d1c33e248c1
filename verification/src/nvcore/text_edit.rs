//! An editable text: a text, a cursor and a selection. Columns and absolute
//! indices count bytes of the UTF-8 encoding, as in the rest of the kernel.
use vstd::prelude::*;
use vstd::string::*;
use vstd::utf8::*;
use crate::common::text::{
    Location, Selection, TextChunk, abs_index_ok, abs_range_ok, chunk_lines, last_location_ok,
    lemma_utf8_len_concat, location_lt, spec_abs_index, spec_abs_range, spec_last_location,
    string_push, utf8_len,
};

verus! {

/// `b` is the byte offset of the start of a character of `cs`, or its end.
pub open spec fn is_boundary(cs: Seq<char>, b: int) -> bool {
    exists|k: int| 0 <= k <= cs.len() && #[trigger] utf8_len(cs.take(k)) == b
}

/// The index of the character that starts at byte offset `b` of `cs`.
pub open spec fn char_index(cs: Seq<char>, b: int) -> int {
    choose|k: int| 0 <= k <= cs.len() && #[trigger] utf8_len(cs.take(k)) == b
}

/// The bytes before a character grow with its index.
pub proof fn lemma_take_len_strict(cs: Seq<char>, j: int, k: int)
    requires
        0 <= j < k <= cs.len(),
    ensures
        utf8_len(cs.take(j)) < utf8_len(cs.take(k)),
    decreases k - j,
{
    assert(cs.take(k) =~= cs.take(k - 1) + seq![cs[k - 1]]);
    lemma_utf8_len_concat(cs.take(k - 1), seq![cs[k - 1]]);
    assert(encode_utf8(seq![cs[k - 1]]) =~= encode_scalar(cs[k - 1] as u32) + encode_utf8(
        seq![cs[k - 1]].drop_first(),
    ));
    if j < k - 1 {
        lemma_take_len_strict(cs, j, k - 1);
    }
}

/// The character index of a boundary is the one index with that many bytes
/// before it.
pub proof fn lemma_char_index(cs: Seq<char>, b: int, k: int)
    requires
        0 <= k <= cs.len(),
        utf8_len(cs.take(k)) == b,
    ensures
        is_boundary(cs, b),
        char_index(cs, b) == k,
{
    let c = char_index(cs, b);
    if c < k {
        lemma_take_len_strict(cs, c, k);
    } else if k < c {
        lemma_take_len_strict(cs, k, c);
    }
}

/// The number of bytes of the UTF-8 encoding of `c`.
fn char_width(c: char) -> (w: usize)
    ensures
        w == utf8_len(seq![c]),
        1 <= w <= 4,
{
    let v = c as u32;
    assert(encode_utf8(seq![c]) =~= encode_scalar(c as u32) + encode_utf8(seq![c].drop_first()));
    if v <= 0x7F {
        1
    } else if v <= 0x7FF {
        2
    } else if v <= 0xFFFF {
        3
    } else {
        4
    }
}

/// The index of the character of `s` that starts at byte offset `b`, if
/// one does (or `b` is the end of `s`).
pub fn char_index_of(s: &str, b: usize) -> (r: Option<usize>)
    ensures
        match r {
            Some(k) => k <= s@.len() && utf8_len(s@.take(k as int)) == b && is_boundary(s@, b as int)
                && char_index(s@, b as int) == k,
            None => !is_boundary(s@, b as int),
        },
{
    let n = s.unicode_len();
    let mut k: usize = 0;
    let mut acc: usize = 0;
    assert(s@.take(0) =~= Seq::<char>::empty());
    assert(encode_utf8(Seq::<char>::empty()) =~= Seq::<u8>::empty());
    while k < n && acc < b
        invariant
            n == s@.len(),
            0 <= k <= n,
            acc == utf8_len(s@.take(k as int)),
            k > 0 ==> utf8_len(s@.take(k - 1)) < b,
        decreases n - k,
    {
        let c = s.get_char(k);
        let w = char_width(c);
        proof {
            assert(s@.take(k + 1) =~= s@.take(k as int) + seq![c]);
            lemma_utf8_len_concat(s@.take(k as int), seq![c]);
        }
        if w > b - acc {
            proof {
                assert forall|j: int| 0 <= j <= s@.len() implies utf8_len(#[trigger] s@.take(j)) != b by {
                    if j < k {
                        lemma_take_len_strict(s@, j, k as int);
                    } else if j > k + 1 {
                        lemma_take_len_strict(s@, k + 1, j);
                    }
                }
            }
            return None;
        }
        acc = acc + w;
        k = k + 1;
    }
    if acc == b {
        proof {
            lemma_char_index(s@, b as int, k as int);
        }
        Some(k)
    } else {
        proof {
            assert forall|j: int| 0 <= j <= s@.len() implies utf8_len(#[trigger] s@.take(j)) != b by {
                if j < k {
                    if j < k - 1 {
                        lemma_take_len_strict(s@, j, k - 1);
                    }
                } else if j > k {
                    lemma_take_len_strict(s@, k as int, j);
                }
            }
        }
        None
    }
}

/// Whether `c` ends a word.
pub open spec fn is_word_boundary(c: char) -> bool {
    c == '\n' || c == ' ' || c == '\t' || c == '\r'
}

fn word_boundary(c: char) -> (r: bool)
    ensures
        r == is_word_boundary(c),
{
    c == '\n' || c == ' ' || c == '\t' || c == '\r'
}

/// Where the forward scan from character `i` of `cs` stops: at the first
/// word boundary, or at byte length `blen`; none where it runs past the
/// characters first.
pub open spec fn scan_forward(cs: Seq<char>, blen: int, i: int) -> Option<int>
    decreases blen - i,
{
    if i >= blen {
        Some(i)
    } else if i < 0 || i >= cs.len() {
        None
    } else if is_word_boundary(cs[i]) {
        Some(i)
    } else {
        scan_forward(cs, blen, i + 1)
    }
}

/// Where the backward scan from character `i` of `cs` stops: at a word
/// boundary or at the start.
pub open spec fn scan_backward(cs: Seq<char>, i: int) -> int
    decreases i,
{
    if i <= 0 {
        0
    } else if is_word_boundary(cs[i]) {
        i
    } else {
        scan_backward(cs, i - 1)
    }
}

/// Whether `c` is white space: a newline, a space, a tab or a carriage
/// return.
pub open spec fn is_white(c: char) -> bool {
    c == '\n' || c == ' ' || c == '\t' || c == '\r'
}

/// A word ends at white space: the forward scan from `i` passes only
/// characters that are not white space, and where it stops before the end
/// it stops at white space.
pub proof fn law_word_ends_at_white_space(cs: Seq<char>, blen: int, i: int)
    requires
        0 <= i,
        scan_forward(cs, blen, i) is Some,
    ensures
        i <= scan_forward(cs, blen, i)->0,
        scan_forward(cs, blen, i)->0 == i || scan_forward(cs, blen, i)->0 <= cs.len(),
        forall|k: int|
            i <= k < scan_forward(cs, blen, i)->0 && k < blen && k < cs.len() ==> !is_white(#[trigger] cs[k]),
        scan_forward(cs, blen, i)->0 < blen ==> 0 <= scan_forward(cs, blen, i)->0 < cs.len() && is_white(
            cs[scan_forward(cs, blen, i)->0],
        ),
    decreases blen - i,
{
    if i < blen && 0 <= i < cs.len() && !is_word_boundary(cs[i]) {
        law_word_ends_at_white_space(cs, blen, i + 1);
        assert(scan_forward(cs, blen, i) == scan_forward(cs, blen, i + 1));
    }
}

/// A word starts after white space: the backward scan from `i` passes only
/// characters that are not white space, and where it stops after the start
/// it stops at white space.
pub proof fn law_word_starts_after_white_space(cs: Seq<char>, i: int)
    requires
        i < cs.len(),
    ensures
        ({
            let w = scan_backward(cs, i);
            &&& 0 <= w
            &&& i <= 0 || w <= i
            &&& forall|k: int| w < k <= i ==> !is_white(#[trigger] cs[k])
            &&& w > 0 ==> is_white(cs[w])
        }),
    decreases i,
{
    if i > 0 && !is_word_boundary(cs[i]) {
        law_word_starts_after_white_space(cs, i - 1);
    }
}

/// The pieces of `cs` between newlines, the piece being read last.
pub open spec fn split_nl_state(cs: Seq<char>) -> (Seq<Seq<char>>, Seq<char>)
    decreases cs.len(),
{
    if cs.len() == 0 {
        (Seq::empty(), Seq::empty())
    } else {
        let (done, cur) = split_nl_state(cs.drop_last());
        if cs.last() == '\n' {
            (done.push(cur), Seq::empty())
        } else {
            (done, cur.push(cs.last()))
        }
    }
}

/// The pieces of `cs` between newlines, as `split('\n')` gives them.
pub open spec fn split_nl(cs: Seq<char>) -> Seq<Seq<char>> {
    let (done, cur) = split_nl_state(cs);
    done.push(cur)
}

/// `cs` with `c` put before character `k`.
pub open spec fn inserted(cs: Seq<char>, k: int, c: char) -> Seq<char> {
    cs.take(k) + seq![c] + cs.skip(k)
}

/// The characters `[a, b)` of `s`, as a string.
fn chars_between(s: &str, a: usize, b: usize) -> (r: String)
    requires
        a <= b <= s@.len(),
    ensures
        r@ == s@.subrange(a as int, b as int),
{
    String::from_str(s.substring_char(a, b))
}

/// A text being edited: the text, the cursor and the selection.
pub struct EditableText {
    text: String,
    cursor_pos: Location,
    selection: Option<Selection>,
}

impl EditableText {
    pub closed spec fn spec_text(self) -> Seq<char> {
        self.text@
    }

    pub closed spec fn spec_cursor(self) -> Location {
        self.cursor_pos
    }

    pub closed spec fn spec_selection(self) -> Option<Selection> {
        self.selection
    }

    /// An empty text, with the cursor at the start and no selection.
    pub fn new() -> (r: Self)
        ensures
            r.spec_text() == Seq::<char>::empty(),
            r.spec_cursor() == (Location { line: 0, column: 0 }),
            r.spec_selection() is None,
    {
        EditableText { text: String::new(), cursor_pos: Location { line: 0, column: 0 }, selection: None }
    }

    /// The text `text`, with the cursor at the start and no selection.
    pub fn new_from_str(text: &str) -> (r: Self)
        ensures
            r.spec_text() == text@,
            r.spec_cursor() == (Location { line: 0, column: 0 }),
            r.spec_selection() is None,
    {
        EditableText {
            text: String::from_str(text),
            cursor_pos: Location { line: 0, column: 0 },
            selection: None,
        }
    }

    /// Replaces the text.
    pub fn set_str(&mut self, text: &str)
        ensures
            final(self).spec_text() == text@,
            final(self).spec_cursor() == old(self).spec_cursor(),
            final(self).spec_selection() == old(self).spec_selection(),
    {
        self.text = String::from_str(text);
    }

    /// Puts `c` at the byte offset of the cursor's column, which must start
    /// a character or end the text, and moves the cursor one byte on.
    pub fn insert(&mut self, c: char)
        requires
            is_boundary(old(self).spec_text(), old(self).spec_cursor().column as int),
            old(self).spec_cursor().column < usize::MAX,
        ensures
            final(self).spec_text() == inserted(
                old(self).spec_text(),
                char_index(old(self).spec_text(), old(self).spec_cursor().column as int),
                c,
            ),
            final(self).spec_cursor() == (Location {
                line: old(self).spec_cursor().line,
                column: (old(self).spec_cursor().column + 1) as usize,
            }),
            final(self).spec_selection() == old(self).spec_selection(),
    {
        let n = self.text.as_str().unicode_len();
        let k = char_index_of(self.text.as_str(), self.cursor_pos.column).unwrap();
        let mut t = chars_between(self.text.as_str(), 0, k);
        string_push(&mut t, c);
        t.append(self.text.as_str().substring_char(k, n));
        proof {
            assert(t@ =~= inserted(old(self).spec_text(), k as int, c));
        }
        self.text = t;
        self.cursor_pos.column = self.cursor_pos.column + 1;
    }

    /// Where the cursor's column is past the start, removes the character
    /// that starts one byte before it, and moves the cursor one byte back.
    pub fn delete(&mut self)
        requires
            old(self).spec_cursor().column > 0 ==> {
                &&& is_boundary(old(self).spec_text(), old(self).spec_cursor().column - 1)
                &&& old(self).spec_cursor().column - 1 < utf8_len(old(self).spec_text())
            },
        ensures
            final(self).spec_selection() == old(self).spec_selection(),
            old(self).spec_cursor().column == 0 ==> *final(self) == *old(self),
            old(self).spec_cursor().column > 0 ==> {
                let k = char_index(old(self).spec_text(), old(self).spec_cursor().column - 1);
                &&& final(self).spec_text() == old(self).spec_text().take(k) + old(self).spec_text().skip(k + 1)
                &&& final(self).spec_cursor() == (Location {
                    line: old(self).spec_cursor().line,
                    column: (old(self).spec_cursor().column - 1) as usize,
                })
            },
    {
        if self.cursor_pos.column > 0 {
            let n = self.text.as_str().unicode_len();
            let k = char_index_of(self.text.as_str(), self.cursor_pos.column - 1).unwrap();
            proof {
                if k == n {
                    assert(old(self).spec_text().take(k as int) =~= old(self).spec_text());
                }
            }
            let mut t = chars_between(self.text.as_str(), 0, k);
            t.append(self.text.as_str().substring_char(k + 1, n));
            proof {
                assert(t@ =~= old(self).spec_text().take(k as int) + old(self).spec_text().skip(k + 1));
            }
            self.text = t;
            self.cursor_pos.column = self.cursor_pos.column - 1;
        }
    }

    /// Moves the cursor to `pos` where `pos` comes before the last location
    /// of the text.
    pub fn set_cursor_pos(&mut self, pos: Location)
        requires
            last_location_ok(old(self).spec_text()),
        ensures
            final(self).spec_text() == old(self).spec_text(),
            final(self).spec_selection() == old(self).spec_selection(),
            final(self).spec_cursor() == if location_lt(pos, spec_last_location(old(self).spec_text())) {
                pos
            } else {
                old(self).spec_cursor()
            },
    {
        let last = self.text.as_str().get_last_location();
        if pos.is_before(&last) {
            self.cursor_pos = pos;
        }
    }

    /// The piece of the text between newlines numbered `line`, with the
    /// character indices where it starts and ends.
    fn nl_piece(&self, line: usize) -> (r: (usize, usize))
        requires
            line < split_nl(self.spec_text()).len(),
        ensures
            r.0 <= r.1 <= self.spec_text().len(),
            self.spec_text().subrange(r.0 as int, r.1 as int) == split_nl(self.spec_text())[line as int],
    {
        let s = self.text.as_str();
        let n = s.unicode_len();
        let mut start: usize = 0;
        let mut count: usize = 0;
        let mut i: usize = 0;
        assert(s@.take(0) =~= Seq::<char>::empty());
        proof {
            lemma_split_nl_mono(s@, 0, n as int);
            assert(s@.take(n as int) =~= s@);
        }
        while i < n
            invariant
                n == s@.len(),
                s@ == self.spec_text(),
                0 <= start <= i <= n,
                split_nl_state(s@.take(i as int)).0.len() == count,
                split_nl_state(s@.take(i as int)).1 == s@.subrange(start as int, i as int),
                count <= line,
                line < split_nl(s@).len(),
            decreases n - i,
        {
            let c = s.get_char(i);
            proof {
                assert(s@.take(i + 1).drop_last() =~= s@.take(i as int));
                assert(s@.take(i + 1).last() == c);
            }
            if c == '\n' {
                if count == line {
                    proof {
                        lemma_split_nl_mono(s@, i + 1, n as int);
                        assert(s@.take(n as int) =~= s@);
                    }
                    return (start, i);
                }
                proof {
                    lemma_split_nl_mono(s@, i + 1, n as int);
                    assert(s@.take(n as int) =~= s@);
                }
                count = count + 1;
                start = i + 1;
                assert(s@.subrange(start as int, i + 1) =~= Seq::<char>::empty());
            } else {
                assert(s@.subrange(start as int, i + 1) =~= s@.subrange(start as int, i as int).push(c));
            }
            i = i + 1;
        }
        proof {
            assert(s@.take(n as int) =~= s@);
        }
        (start, n)
    }

    /// The piece of the text between newlines numbered `line`.
    pub fn get_line(&self, line: usize) -> (r: &str)
        requires
            line < split_nl(self.spec_text()).len(),
        ensures
            r@ == split_nl(self.spec_text())[line as int],
    {
        let (a, b) = self.nl_piece(line);
        self.text.as_str().substring_char(a, b)
    }

    /// Moves the cursor one byte on within its line, or to the start of the
    /// next line at the line's end.
    pub fn increment_cursor_pos(&mut self)
        requires
            old(self).spec_cursor().line < split_nl(old(self).spec_text()).len(),
            old(self).spec_cursor().line < usize::MAX,
            utf8_len(old(self).spec_text()) <= usize::MAX,
        ensures
            final(self).spec_text() == old(self).spec_text(),
            final(self).spec_selection() == old(self).spec_selection(),
            final(self).spec_cursor() == if old(self).spec_cursor().column < utf8_len(
                split_nl(old(self).spec_text())[old(self).spec_cursor().line as int],
            ) {
                Location { line: old(self).spec_cursor().line, column: (old(self).spec_cursor().column + 1) as usize }
            } else {
                Location { line: (old(self).spec_cursor().line + 1) as usize, column: 0 }
            },
    {
        let (a, b) = self.nl_piece(self.cursor_pos.line);
        let piece = self.text.as_str().substring_char(a, b);
        proof {
            let cs = self.text@;
            assert(cs =~= cs.take(a as int) + cs.subrange(a as int, b as int) + cs.skip(b as int));
            lemma_utf8_len_concat(cs.take(a as int), cs.subrange(a as int, b as int));
            lemma_utf8_len_concat(cs.take(a as int) + cs.subrange(a as int, b as int), cs.skip(b as int));
        }
        let len = piece.len();
        if self.cursor_pos.column < len {
            self.cursor_pos.column = self.cursor_pos.column + 1;
        } else {
            self.cursor_pos.line = self.cursor_pos.line + 1;
            self.cursor_pos.column = 0;
        }
    }

    pub fn get_cursor_pos(&self) -> (r: Location)
        ensures
            r == self.spec_cursor(),
    {
        self.cursor_pos
    }

    pub fn get_text(&self) -> (r: &str)
        ensures
            r@ == self.spec_text(),
    {
        self.text.as_str()
    }

    pub fn get_selection(&self) -> (r: Option<&Selection>)
        ensures
            match r {
                Some(s) => self.spec_selection() == Some(*s),
                None => self.spec_selection() is None,
            },
    {
        match &self.selection {
            Some(s) => Some(s),
            None => None,
        }
    }

    pub fn set_selection(&mut self, selection: Selection)
        ensures
            final(self).spec_selection() == Some(selection),
            final(self).spec_text() == old(self).spec_text(),
            final(self).spec_cursor() == old(self).spec_cursor(),
    {
        self.selection = Some(selection);
    }

    /// Cuts the selected text out and hands it back; the selection must
    /// exist and its byte range start and end characters.
    pub fn delete_selection(&mut self) -> (r: String)
        requires
            old(self).spec_selection() matches Some(sel) && {
                let (a, b) = spec_abs_range(old(self).spec_text(), sel.spec_start(), sel.spec_end());
                &&& abs_range_ok(old(self).spec_text(), sel.spec_start(), sel.spec_end())
                &&& a <= b
                &&& is_boundary(old(self).spec_text(), a)
                &&& is_boundary(old(self).spec_text(), b)
            },
        ensures
            final(self).spec_cursor() == old(self).spec_cursor(),
            final(self).spec_selection() == old(self).spec_selection(),
            ({
                let sel = old(self).spec_selection()->0;
                let cs = old(self).spec_text();
                let (a, b) = spec_abs_range(cs, sel.spec_start(), sel.spec_end());
                let ka = char_index(cs, a);
                let kb = char_index(cs, b);
                &&& r@ == cs.subrange(ka, kb)
                &&& final(self).spec_text() == cs.take(ka) + cs.skip(kb)
            }),
    {
        let (start, end) = match &self.selection {
            Some(sel) => sel.get_abs_index_range(self.text.as_str()),
            None => (0, 0),
        };
        let s = self.text.as_str();
        let n = s.unicode_len();
        let ka = char_index_of(s, start).unwrap();
        let kb = char_index_of(s, end).unwrap();
        proof {
            if kb < ka {
                lemma_take_len_strict(s@, kb as int, ka as int);
            }
        }
        let removed = chars_between(s, ka, kb);
        let mut t = chars_between(s, 0, ka);
        t.append(s.substring_char(kb, n));
        proof {
            assert(t@ =~= old(self).spec_text().take(ka as int) + old(self).spec_text().skip(kb as int));
        }
        self.text = t;
        removed
    }

    /// The character at the cursor's column taken as a character index into
    /// the whole text, or `'\0'` past its end.
    pub fn get_char_at(&self, pos: Location) -> (r: char)
        ensures
            r == if pos.column < self.spec_text().len() {
                self.spec_text()[pos.column as int]
            } else {
                '\0'
            },
    {
        let n = self.text.as_str().unicode_len();
        if pos.column < n {
            self.text.as_str().get_char(pos.column)
        } else {
            '\0'
        }
    }

    pub fn get_char_at_cursor(&self) -> (r: char)
        ensures
            r == if self.spec_cursor().column < self.spec_text().len() {
                self.spec_text()[self.spec_cursor().column as int]
            } else {
                '\0'
            },
    {
        self.get_char_at(self.cursor_pos)
    }

    /// The word around the cursor: from the word boundary before it (or the
    /// start) to the one after it (or the end), cut out of the cursor's line
    /// by those absolute indices. The character at the cursor must not be a
    /// boundary.
    pub fn get_word_at_cursor(&self) -> (r: String)
        requires
            abs_index_ok(self.spec_text(), self.spec_cursor()),
            ({
                let cs = self.spec_text();
                let a = spec_abs_index(cs, self.spec_cursor());
                let lines = chunk_lines(cs, utf8_len(cs) as int);
                let ws = scan_backward(cs, a);
                &&& a < cs.len()
                &&& !is_word_boundary(cs[a])
                &&& scan_forward(cs, utf8_len(cs) as int, a) is Some
                &&& self.spec_cursor().line < lines.len()
                &&& ws <= scan_forward(cs, utf8_len(cs) as int, a)->0
                &&& is_boundary(lines[self.spec_cursor().line as int], ws)
                &&& is_boundary(lines[self.spec_cursor().line as int], scan_forward(cs, utf8_len(cs) as int, a)->0)
            }),
        ensures
            ({
                let cs = self.spec_text();
                let a = spec_abs_index(cs, self.spec_cursor());
                let line = chunk_lines(cs, utf8_len(cs) as int)[self.spec_cursor().line as int];
                let ws = scan_backward(cs, a);
                let we = scan_forward(cs, utf8_len(cs) as int, a)->0;
                r@ == line.subrange(char_index(line, ws), char_index(line, we))
            }),
    {
        let s = self.text.as_str();
        let pos = self.cursor_pos;
        let abs_index = s.get_abs_index(pos);
        let ghost cs = s@;
        let n = s.unicode_len();
        let blen = s.len();
        let mut i = abs_index;
        while i > 0 && !word_boundary(s.get_char(i))
            invariant
                0 <= i <= abs_index < n,
                n == cs.len(),
                cs == s@,
                scan_backward(cs, i as int) == scan_backward(cs, abs_index as int),
            decreases i,
        {
            i = i - 1;
        }
        let word_start = i;
        i = abs_index;
        while i < blen && !word_boundary(s.get_char(i))
            invariant
                abs_index <= i,
                n == cs.len(),
                cs == s@,
                blen == utf8_len(cs),
                scan_forward(cs, blen as int, i as int) == scan_forward(cs, blen as int, abs_index as int),
                scan_forward(cs, blen as int, i as int) is Some,
            decreases blen - i,
        {
            i = i + 1;
        }
        let word_end = i;
        let lines = s.get_lines();
        let line = lines[pos.line].as_str();
        let ka = char_index_of(line, word_start).unwrap();
        let kb = char_index_of(line, word_end).unwrap();
        proof {
            if kb < ka {
                lemma_take_len_strict(line@, kb as int, ka as int);
            }
        }
        chars_between(line, ka, kb)
    }
}

/// The pieces found by character `k` stay as they are by character `m`.
proof fn lemma_split_nl_mono(cs: Seq<char>, k: int, m: int)
    requires
        0 <= k <= m <= cs.len(),
    ensures
        split_nl_state(cs.take(k)).0.len() <= split_nl_state(cs.take(m)).0.len(),
        forall|j: int| 0 <= j < split_nl_state(cs.take(k)).0.len() ==> #[trigger] split_nl_state(cs.take(m)).0[j]
            == split_nl_state(cs.take(k)).0[j],
        k < m && cs[k] == '\n' ==> split_nl_state(cs.take(m)).0.len() > split_nl_state(cs.take(k)).0.len()
            && split_nl_state(cs.take(m)).0[split_nl_state(cs.take(k)).0.len() as int] == split_nl_state(cs.take(k)).1,
    decreases m - k,
{
    if k < m {
        lemma_split_nl_mono(cs, k, m - 1);
        assert(cs.take(m).drop_last() =~= cs.take(m - 1));
        if k == m - 1 {
            assert(cs.take(m).last() == cs[k]);
        } else if cs[k] == '\n' {
            lemma_split_nl_mono(cs, k, k + 1);
            lemma_split_nl_mono(cs, k + 1, m - 1);
            assert(cs.take(k + 1).drop_last() =~= cs.take(k));
            assert(cs.take(k + 1).last() == cs[k]);
        }
    }
}

/// A view into a range of a text.
pub struct TextView<'a> {
    text: &'a str,
    text_range: (usize, usize),
    current_index: usize,
}

impl<'a> TextView<'a> {
    pub closed spec fn spec_text(self) -> Seq<char> {
        self.text@
    }

    pub closed spec fn spec_range(self) -> (usize, usize) {
        self.text_range
    }

    pub fn new(text: &'a str, text_range: (usize, usize)) -> (r: Self)
        ensures
            r.spec_text() == text@,
            r.spec_range() == text_range,
    {
        TextView { text, text_range, current_index: 0 }
    }

    /// The text between the byte offsets of the range, which must start and
    /// end characters.
    pub fn get_range_string(&self) -> (r: String)
        requires
            self.spec_range().0 <= self.spec_range().1,
            is_boundary(self.spec_text(), self.spec_range().0 as int),
            is_boundary(self.spec_text(), self.spec_range().1 as int),
        ensures
            r@ == self.spec_text().subrange(
                char_index(self.spec_text(), self.spec_range().0 as int),
                char_index(self.spec_text(), self.spec_range().1 as int),
            ),
    {
        let ka = char_index_of(self.text, self.text_range.0).unwrap();
        let kb = char_index_of(self.text, self.text_range.1).unwrap();
        proof {
            if kb < ka {
                lemma_take_len_strict(self.text@, kb as int, ka as int);
            }
        }
        chars_between(self.text, ka, kb)
    }
}

/// Deleting right after inserting gives the text back: the inserted
/// character starts at the byte offset where the cursor was, the delete
/// that follows may run there, and it removes exactly that character.
pub proof fn law_delete_undoes_insert(cs: Seq<char>, b: int, c: char)
    requires
        is_boundary(cs, b),
    ensures
        ({
            let k = char_index(cs, b);
            let t = inserted(cs, k, c);
            &&& is_boundary(t, b)
            &&& b < utf8_len(t)
            &&& char_index(t, b) == k
            &&& t.take(k) + t.skip(k + 1) == cs
        }),
{
    let k = char_index(cs, b);
    let t = inserted(cs, k, c);
    assert(0 <= k <= cs.len() && utf8_len(cs.take(k)) == b);
    assert(t.take(k) =~= cs.take(k));
    lemma_char_index(t, b, k);
    assert(t.take(k + 1) =~= cs.take(k) + seq![c]);
    lemma_utf8_len_concat(cs.take(k), seq![c]);
    assert(encode_utf8(seq![c]) =~= encode_scalar(c as u32) + encode_utf8(seq![c].drop_first()));
    assert(t =~= t.take(k + 1) + t.skip(k + 1));
    lemma_utf8_len_concat(t.take(k + 1), t.skip(k + 1));
    assert(t.skip(k + 1) =~= cs.skip(k));
    assert(t.take(k) + t.skip(k + 1) =~= cs);
}

} // verus!
