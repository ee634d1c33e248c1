//! Text utilities: splitting a chunk of text into lines and converting
//! between (line, column) locations and absolute byte offsets.
use vstd::prelude::*;
use vstd::string::*;
use vstd::utf8::*;

verus! {

/// Number of bytes of the UTF-8 encoding of `cs`.
pub open spec fn utf8_len(cs: Seq<char>) -> nat {
    encode_utf8(cs).len()
}

/// The views of a sequence of strings.
pub open spec fn views(v: Seq<String>) -> Seq<Seq<char>> {
    v.map_values(|s: String| s@)
}

/// `String::push` from std: appends one character.
#[verifier::external_body]
pub(crate) fn string_push(s: &mut String, c: char)
    ensures
        final(s)@ == old(s)@.push(c),
{
    s.push(c);
}

/// The character of the decimal digit `d`.
pub open spec fn digit_char(d: nat) -> char {
    if d == 0 {
        '0'
    } else if d == 1 {
        '1'
    } else if d == 2 {
        '2'
    } else if d == 3 {
        '3'
    } else if d == 4 {
        '4'
    } else if d == 5 {
        '5'
    } else if d == 6 {
        '6'
    } else if d == 7 {
        '7'
    } else if d == 8 {
        '8'
    } else {
        '9'
    }
}

/// The decimal digits of `n`, most significant first, without leading zeros.
pub open spec fn decimal(n: nat) -> Seq<char>
    decreases n,
{
    if n < 10 {
        seq![digit_char(n)]
    } else {
        decimal(n / 10).push(digit_char(n % 10))
    }
}

fn digit(d: u32) -> (c: char)
    requires
        d < 10,
    ensures
        c == digit_char(d as nat),
{
    if d == 0 {
        '0'
    } else if d == 1 {
        '1'
    } else if d == 2 {
        '2'
    } else if d == 3 {
        '3'
    } else if d == 4 {
        '4'
    } else if d == 5 {
        '5'
    } else if d == 6 {
        '6'
    } else if d == 7 {
        '7'
    } else if d == 8 {
        '8'
    } else {
        '9'
    }
}

/// Appends the decimal digits of `n` to `s`.
pub fn push_decimal(s: &mut String, n: u32)
    ensures
        final(s)@ == old(s)@ + decimal(n as nat),
    decreases n,
{
    if n >= 10 {
        push_decimal(s, n / 10);
    }
    string_push(s, digit(n % 10));
    assert(final(s)@ =~= old(s)@ + decimal(n as nat));
}

/// The lines of a chunk of text, as [`TextChunk::get_lines`] splits it: every
/// character goes to the current line, and a newline starts a new line unless
/// its (character) index is the last byte index of the text.
pub open spec fn chunk_lines(cs: Seq<char>, blen: int) -> Seq<Seq<char>>
    decreases cs.len(),
{
    if cs.len() == 0 {
        seq![Seq::<char>::empty()]
    } else {
        let prev = chunk_lines(cs.drop_last(), blen);
        let c = cs.last();
        let updated = prev.update(prev.len() - 1, prev.last().push(c));
        if c == '\n' && cs.len() - 1 != blen - 1 {
            updated.push(Seq::<char>::empty())
        } else {
            updated
        }
    }
}

pub proof fn lemma_chunk_lines_nonempty(cs: Seq<char>, blen: int)
    ensures
        chunk_lines(cs, blen).len() >= 1,
    decreases cs.len(),
{
    if cs.len() > 0 {
        lemma_chunk_lines_nonempty(cs.drop_last(), blen);
    }
}

/// Splits `s` into lines as [`TextChunk::get_lines`] does.
pub fn get_lines_of(s: &str) -> (r: Vec<String>)
    requires
        utf8_len(s@) <= usize::MAX,
    ensures
        views(r@) == chunk_lines(s@, utf8_len(s@) as int),
{
    let n = s.unicode_len();
    let blen = s.len();
    let ghost bl = utf8_len(s@) as int;
    let mut lines: Vec<String> = Vec::new();
    lines.push(String::new());
    assert(s@.take(0) =~= Seq::<char>::empty());
    assert(views(lines@) =~= chunk_lines(s@.take(0), bl));
    let mut i: usize = 0;
    while i < n
        invariant
            n == s@.len(),
            blen == bl,
            bl == utf8_len(s@) as int,
            0 <= i <= n,
            views(lines@) == chunk_lines(s@.take(i as int), bl),
            lines@.len() >= 1,
        decreases n - i,
    {
        let c = s.get_char(i);
        let ghost prev = views(lines@);
        let mut last = lines.pop().unwrap();
        string_push(&mut last, c);
        lines.push(last);
        let ghost upd = views(lines@);
        assert(s@.take(i as int + 1).drop_last() =~= s@.take(i as int));
        assert(upd =~= prev.update(prev.len() - 1, prev.last().push(c)));
        if c == '\n' && i + 1 != blen {
            lines.push(String::new());
            assert(views(lines@) =~= upd.push(Seq::<char>::empty()));
        }
        i = i + 1;
    }
    assert(s@.take(n as int) =~= s@);
    lines
}

} // verus!

verus! {

/// The characters of all lines, one after the other.
pub open spec fn join(lines: Seq<Seq<char>>) -> Seq<char>
    decreases lines.len(),
{
    if lines.len() == 0 {
        Seq::<char>::empty()
    } else {
        join(lines.drop_last()) + lines.last()
    }
}

/// Total number of bytes of the first `k` lines.
pub open spec fn bytes_before(lines: Seq<Seq<char>>, k: int) -> int
    decreases k,
{
    if k <= 0 || lines.len() < k {
        0
    } else {
        bytes_before(lines, k - 1) + utf8_len(lines[k - 1])
    }
}

pub proof fn lemma_utf8_len_concat(a: Seq<char>, b: Seq<char>)
    ensures
        utf8_len(a + b) == utf8_len(a) + utf8_len(b),
    decreases a.len(),
{
    if a.len() == 0 {
        assert(a + b =~= b);
    } else {
        assert((a + b).drop_first() =~= a.drop_first() + b);
        assert((a + b)[0] == a[0]);
        lemma_utf8_len_concat(a.drop_first(), b);
    }
}

/// Splitting a text into lines loses and adds nothing: the lines, one
/// after another, are the text.
pub proof fn lemma_chunk_lines_join(cs: Seq<char>, blen: int)
    ensures
        join(chunk_lines(cs, blen)) == cs,
    decreases cs.len(),
{
    if cs.len() == 0 {
        let one = seq![Seq::<char>::empty()];
        assert(one.drop_last() =~= Seq::<Seq<char>>::empty());
        assert(join(one.drop_last()) =~= Seq::<char>::empty());
        assert(join(one) =~= Seq::<char>::empty());
    } else {
        let prev = chunk_lines(cs.drop_last(), blen);
        lemma_chunk_lines_nonempty(cs.drop_last(), blen);
        lemma_chunk_lines_join(cs.drop_last(), blen);
        let c = cs.last();
        let updated = prev.update(prev.len() - 1, prev.last().push(c));
        assert(updated.drop_last() =~= prev.drop_last());
        assert(join(prev) == join(prev.drop_last()) + prev.last());
        assert(updated.last() == prev.last().push(c));
        assert(join(updated) == join(prev.drop_last()) + prev.last().push(c));
        assert(join(prev.drop_last()) + prev.last().push(c) =~= (join(prev.drop_last())
            + prev.last()).push(c));
        assert(cs.drop_last().push(c) =~= cs);
        assert(join(updated) =~= cs);
        if c == '\n' && cs.len() - 1 != blen - 1 {
            assert(updated.push(Seq::<char>::empty()).drop_last() =~= updated);
            assert(join(updated.push(Seq::<char>::empty())) =~= join(updated));
        }
    }
}

pub proof fn lemma_bytes_before_join(lines: Seq<Seq<char>>)
    ensures
        bytes_before(lines, lines.len() as int) == utf8_len(join(lines)),
    decreases lines.len(),
{
    if lines.len() > 0 {
        let p = lines.drop_last();
        lemma_bytes_before_join(p);
        lemma_bytes_before_prefix(lines, lines.len() - 1);
        lemma_utf8_len_concat(join(p), lines.last());
    } else {
        assert(join(lines) =~= Seq::<char>::empty());
    }
}

/// The byte counts of the first `k` lines of `lines` and of its prefix agree.
pub proof fn lemma_bytes_before_prefix(lines: Seq<Seq<char>>, k: int)
    requires
        0 <= k <= lines.len(),
    ensures
        bytes_before(lines, k) == bytes_before(lines.subrange(0, k), k),
        k == lines.len() - 1 ==> lines.drop_last() =~= lines.subrange(0, k),
    decreases k,
{
    if k > 0 {
        lemma_bytes_before_prefix(lines, k - 1);
        lemma_bytes_before_prefix(lines.subrange(0, k), k - 1);
        assert(lines.subrange(0, k).subrange(0, k - 1) =~= lines.subrange(0, k - 1));
    }
}

pub proof fn lemma_bytes_before_monotone(lines: Seq<Seq<char>>, j: int, k: int)
    requires
        0 <= j <= k <= lines.len(),
    ensures
        0 <= bytes_before(lines, j) <= bytes_before(lines, k),
        k < lines.len() ==> bytes_before(lines, k) + utf8_len(lines[k]) == bytes_before(lines, k + 1),
    decreases k,
{
    if j < k {
        lemma_bytes_before_monotone(lines, j, k - 1);
    } else if j > 0 {
        lemma_bytes_before_monotone(lines, j - 1, j - 1);
    }
}

/// The bytes of every line of a chunk are bounded by the bytes of the chunk.
pub proof fn lemma_chunk_line_bounds(cs: Seq<char>, blen: int, k: int)
    requires
        0 <= k <= chunk_lines(cs, blen).len(),
    ensures
        0 <= bytes_before(chunk_lines(cs, blen), k) <= utf8_len(cs),
        k < chunk_lines(cs, blen).len() ==> bytes_before(chunk_lines(cs, blen), k) + utf8_len(
            chunk_lines(cs, blen)[k],
        ) <= utf8_len(cs),
{
    let l = chunk_lines(cs, blen);
    lemma_chunk_lines_join(cs, blen);
    lemma_bytes_before_join(l);
    lemma_bytes_before_monotone(l, k, l.len() as int);
    lemma_bytes_before_monotone(l, 0, k);
    if k < l.len() {
        lemma_bytes_before_monotone(l, k + 1, l.len() as int);
    }
}

/// A position in a chunk of text.
#[derive(PartialEq, Eq, Clone, Copy, Debug, Structural)]
pub struct Location {
    pub line: usize,
    pub column: usize,
}

/// The order of locations: first by line, then by column.
pub open spec fn location_lt(a: Location, b: Location) -> bool {
    a.line < b.line || (a.line == b.line && a.column < b.column)
}

impl Location {
    pub fn new(line: usize, column: usize) -> (r: Location)
        ensures
            r.line == line,
            r.column == column,
    {
        Location { line, column }
    }

    /// Whether `self` comes strictly before `other`.
    pub fn is_before(&self, other: &Location) -> (r: bool)
        ensures
            r == location_lt(*self, *other),
    {
        self.line < other.line || (self.line == other.line && self.column < other.column)
    }
}

/// The absolute byte index of `loc` in the chunk `cs`.
pub open spec fn spec_abs_index(cs: Seq<char>, loc: Location) -> int {
    bytes_before(chunk_lines(cs, utf8_len(cs) as int), loc.line as int) + loc.column
}

/// Whether `loc` can be converted to an absolute index in `cs`.
pub open spec fn abs_index_ok(cs: Seq<char>, loc: Location) -> bool {
    &&& utf8_len(cs) <= usize::MAX
    &&& loc.line <= chunk_lines(cs, utf8_len(cs) as int).len()
    &&& spec_abs_index(cs, loc) <= usize::MAX
}

/// Computes [`spec_abs_index`]: the bytes of the lines before the location's
/// line, plus its column.
pub fn abs_index_of(s: &str, location: Location) -> (r: usize)
    requires
        abs_index_ok(s@, location),
    ensures
        r == spec_abs_index(s@, location),
{
    let lines = get_lines_of(s);
    let ghost l = chunk_lines(s@, utf8_len(s@) as int);
    let mut index: usize = 0;
    let mut i: usize = 0;
    proof {
        lemma_chunk_line_bounds(s@, utf8_len(s@) as int, location.line as int);
    }
    while i < location.line
        invariant
            views(lines@) == l,
            l == chunk_lines(s@, utf8_len(s@) as int),
            abs_index_ok(s@, location),
            0 <= i <= location.line,
            index == bytes_before(l, i as int),
            bytes_before(l, location.line as int) <= usize::MAX,
        decreases location.line - i,
    {
        proof {
            lemma_bytes_before_monotone(l, i as int + 1, location.line as int);
            lemma_bytes_before_monotone(l, i as int, i as int);
        }
        assert(lines@[i as int]@ == l[i as int]);
        let len = lines[i].as_str().len();
        index = index + len;
        i = i + 1;
    }
    index + location.column
}

/// The running state of [`TextChunk::get_location_from_abs_index`] after
/// looking at the first `k` lines: the byte index of the start of the
/// accepted lines and the chosen line.
pub open spec fn locate_state(lines: Seq<Seq<char>>, abs: int, k: int) -> (int, int)
    decreases k,
{
    if k <= 0 || lines.len() < k {
        (0, 0)
    } else {
        let (idx, ln) = locate_state(lines, abs, k - 1);
        if idx + utf8_len(lines[k - 1]) > abs {
            (idx, k - 1)
        } else {
            (idx + utf8_len(lines[k - 1]), ln)
        }
    }
}

pub proof fn lemma_locate_state_bounds(lines: Seq<Seq<char>>, abs: int, k: int)
    requires
        0 <= abs,
        0 <= k <= lines.len(),
    ensures
        0 <= locate_state(lines, abs, k).0 <= abs,
        0 <= locate_state(lines, abs, k).1,
    decreases k,
{
    if k > 0 {
        lemma_locate_state_bounds(lines, abs, k - 1);
    }
}

/// The location of the absolute byte index `abs` in `cs`.
pub open spec fn spec_location_of(cs: Seq<char>, abs: int) -> Location {
    let l = chunk_lines(cs, utf8_len(cs) as int);
    let (idx, ln) = locate_state(l, abs, l.len() as int);
    Location { line: ln as usize, column: (abs - idx) as usize }
}

/// Computes [`spec_location_of`].
pub fn location_of(s: &str, abs_index: usize) -> (r: Location)
    requires
        utf8_len(s@) <= usize::MAX,
    ensures
        r == spec_location_of(s@, abs_index as int),
{
    let lines = get_lines_of(s);
    let ghost l = chunk_lines(s@, utf8_len(s@) as int);
    let mut index: usize = 0;
    let mut line: usize = 0;
    let mut i: usize = 0;
    while i < lines.len()
        invariant
            views(lines@) == l,
            l == chunk_lines(s@, utf8_len(s@) as int),
            utf8_len(s@) <= usize::MAX,
            0 <= i <= l.len(),
            (index as int, line as int) == locate_state(l, abs_index as int, i as int),
            index <= abs_index,
            line <= i,
        decreases l.len() - i,
    {
        proof {
            lemma_chunk_line_bounds(s@, utf8_len(s@) as int, i as int);
        }
        assert(lines@[i as int]@ == l[i as int]);
        let len = lines[i].as_str().len();
        assert(len == utf8_len(l[i as int]));
        proof {
            lemma_locate_state_bounds(l, abs_index as int, i as int);
        }
        assert(locate_state(l, abs_index as int, i + 1) == (if index + utf8_len(l[i as int]) > abs_index {
            (index as int, i as int)
        } else {
            (index + utf8_len(l[i as int]), line as int)
        }));
        if len > abs_index - index {
            line = i;
        } else {
            index = index + len;
        }
        i = i + 1;
    }
    Location { line, column: abs_index - index }
}

/// The location of the last character of `cs`: the last line and the
/// last byte column of it.
pub open spec fn spec_last_location(cs: Seq<char>) -> Location {
    let l = chunk_lines(cs, utf8_len(cs) as int);
    Location { line: (l.len() - 1) as usize, column: (utf8_len(l.last()) - 1) as usize }
}

/// Whether [`spec_last_location`] is defined: the last line is not empty.
pub open spec fn last_location_ok(cs: Seq<char>) -> bool {
    &&& utf8_len(cs) <= usize::MAX
    &&& utf8_len(chunk_lines(cs, utf8_len(cs) as int).last()) >= 1
}

/// Computes [`spec_last_location`].
pub fn last_location_of(s: &str) -> (r: Location)
    requires
        last_location_ok(s@),
    ensures
        r == spec_last_location(s@),
{
    let lines = get_lines_of(s);
    let ghost l = chunk_lines(s@, utf8_len(s@) as int);
    proof {
        lemma_chunk_lines_nonempty(s@, utf8_len(s@) as int);
        lemma_chunk_line_bounds(s@, utf8_len(s@) as int, l.len() - 1);
    }
    let k = lines.len() - 1;
    assert(lines@[k as int]@ == l.last());
    let len = lines[k].as_str().len();
    assert(len == utf8_len(l.last()));
    Location { line: k, column: len - 1 }
}

} // verus!

verus! {

/// A line without its trailing carriage return, if it has one.
pub open spec fn strip_cr(l: Seq<char>) -> Seq<char> {
    if l.len() > 0 && l.last() == '\r' {
        l.drop_last()
    } else {
        l
    }
}

/// The finished lines and the unfinished line after reading `cs` the way
/// `str::lines` from std reads it.
pub open spec fn std_lines_state(cs: Seq<char>) -> (Seq<Seq<char>>, Seq<char>)
    decreases cs.len(),
{
    if cs.len() == 0 {
        (Seq::<Seq<char>>::empty(), Seq::<char>::empty())
    } else {
        let (done, cur) = std_lines_state(cs.drop_last());
        if cs.last() == '\n' {
            (done.push(strip_cr(cur)), Seq::<char>::empty())
        } else {
            (done, cur.push(cs.last()))
        }
    }
}

/// The lines of `cs` as `str::lines` from std yields them: split at `\n`,
/// a `\r` right before a `\n` is dropped, and a final line ending does not
/// start an empty line.
pub open spec fn std_lines(cs: Seq<char>) -> Seq<Seq<char>> {
    let (done, cur) = std_lines_state(cs);
    if cur.len() > 0 {
        done.push(cur)
    } else {
        done
    }
}

/// Sum of the bytes of the finished lines.
pub open spec fn total_bytes(lines: Seq<Seq<char>>) -> int
    decreases lines.len(),
{
    if lines.len() == 0 {
        0
    } else {
        total_bytes(lines.drop_last()) + utf8_len(lines.last())
    }
}

pub proof fn lemma_total_bytes_element(lines: Seq<Seq<char>>, i: int)
    requires
        0 <= i < lines.len(),
    ensures
        utf8_len(lines[i]) <= total_bytes(lines),
        0 <= total_bytes(lines),
    decreases lines.len(),
{
    if i < lines.len() - 1 {
        assert(lines.drop_last()[i] == lines[i]);
        lemma_total_bytes_element(lines.drop_last(), i);
    } else if lines.len() > 1 {
        lemma_total_bytes_element(lines.drop_last(), 0);
    } else {
        assert(lines.drop_last().len() == 0);
        assert(total_bytes(lines.drop_last()) == 0);
    }
}

pub proof fn lemma_std_lines_state_bytes(cs: Seq<char>)
    ensures
        total_bytes(std_lines_state(cs).0) + utf8_len(std_lines_state(cs).1) <= utf8_len(cs),
        0 <= total_bytes(std_lines_state(cs).0),
    decreases cs.len(),
{
    if cs.len() > 0 {
        let p = cs.drop_last();
        lemma_std_lines_state_bytes(p);
        let (done, cur) = std_lines_state(p);
        let c = cs.last();
        assert(p + seq![c] =~= cs);
        lemma_utf8_len_concat(p, seq![c]);
        if c == '\n' {
            if cur.len() > 0 && cur.last() == '\r' {
                assert(cur.drop_last() + seq![cur.last()] =~= cur);
                lemma_utf8_len_concat(cur.drop_last(), seq![cur.last()]);
            }
            assert(done.push(strip_cr(cur)).drop_last() =~= done);
        } else {
            assert(cur + seq![c] =~= cur.push(c));
            lemma_utf8_len_concat(cur, seq![c]);
        }
    }
}

/// Every line that `str::lines` yields has at most as many bytes as the text.
pub proof fn lemma_std_line_bound(cs: Seq<char>, i: int)
    requires
        0 <= i < std_lines(cs).len(),
    ensures
        utf8_len(std_lines(cs)[i]) <= utf8_len(cs),
{
    lemma_std_lines_state_bytes(cs);
    let (done, cur) = std_lines_state(cs);
    if cur.len() > 0 {
        assert(done.push(cur).drop_last() =~= done);
        lemma_total_bytes_element(done.push(cur), i);
    } else {
        lemma_total_bytes_element(done, i);
    }
}

/// Splits `s` into lines as `str::lines` does.
pub fn std_lines_of(s: &str) -> (r: Vec<String>)
    ensures
        views(r@) == std_lines(s@),
{
    let n = s.unicode_len();
    let mut done: Vec<String> = Vec::new();
    let mut cur = String::new();
    let mut i: usize = 0;
    assert(s@.take(0) =~= Seq::<char>::empty());
    while i < n
        invariant
            n == s@.len(),
            0 <= i <= n,
            (views(done@), cur@) == std_lines_state(s@.take(i as int)),
        decreases n - i,
    {
        let c = s.get_char(i);
        assert(s@.take(i as int + 1).drop_last() =~= s@.take(i as int));
        let ghost d0 = views(done@);
        let ghost c0 = cur@;
        if c == '\n' {
            let len = cur.unicode_len();
            if len > 0 && cur.as_str().get_char(len - 1) == '\r' {
                let trimmed = cur.as_str().substring_char(0, len - 1);
                done.push(String::from_str(trimmed));
                assert(trimmed@ =~= c0.drop_last());
            } else {
                done.push(cur);
            }
            assert(views(done@) =~= d0.push(strip_cr(c0)));
            cur = String::new();
        } else {
            string_push(&mut cur, c);
        }
        i = i + 1;
    }
    assert(s@.take(n as int) =~= s@);
    if cur.unicode_len() > 0 {
        let ghost d0 = views(done@);
        done.push(cur);
        assert(views(done@) =~= d0.push(cur@));
    }
    done
}

} // verus!

verus! {

/// Indexing a `str` by a byte range (`&s[start..end]` from std).
#[verifier::external_body]
fn str_byte_range(s: &str, start: usize, end: usize) -> (r: &str)
    requires
        start <= end <= s.spec_bytes().len(),
        is_char_boundary(s.spec_bytes(), start as int),
        is_char_boundary(s.spec_bytes(), end as int),
    ensures
        r.spec_bytes() == s.spec_bytes().subrange(start as int, end as int),
{
    &s[start..end]
}

/// A range of text between two locations (in either order).
pub struct Selection {
    start: Location,
    end: Location,
}

/// The two locations in order.
pub open spec fn ordered(a: Location, b: Location) -> (Location, Location) {
    if location_lt(b, a) {
        (b, a)
    } else {
        (a, b)
    }
}

/// Bytes of the lines `a..b` of `sl`, each counted with one more byte for
/// its line ending.
pub open spec fn middle_bytes(sl: Seq<Seq<char>>, a: int, b: int) -> int
    decreases b - a,
{
    if a >= b {
        0
    } else {
        middle_bytes(sl, a, b - 1) + utf8_len(sl[b - 1]) + 1
    }
}

pub proof fn lemma_middle_bytes_monotone(sl: Seq<Seq<char>>, a: int, b: int, c: int)
    requires
        a <= b <= c,
    ensures
        0 <= middle_bytes(sl, a, b) <= middle_bytes(sl, a, c),
    decreases c - a,
{
    if b < c {
        lemma_middle_bytes_monotone(sl, a, b, c - 1);
    } else if a < b {
        lemma_middle_bytes_monotone(sl, a, b - 1, b - 1);
    }
}

/// The absolute (start, end) byte range of the selection between `start` and
/// `end` in `cs`.
pub open spec fn spec_abs_range(cs: Seq<char>, start: Location, end: Location) -> (int, int) {
    let (s, e) = ordered(start, end);
    if s.line == e.line {
        let si = spec_abs_index(cs, s);
        (si, si + (e.column - s.column))
    } else {
        let sl = std_lines(cs);
        let si = spec_abs_index(cs, s);
        (
            si,
            si + (utf8_len(sl[s.line as int]) + 1 - s.column) + middle_bytes(
                sl,
                s.line + 1,
                e.line as int,
            ) + e.column + 1,
        )
    }
}

/// A selection over several lines covers every whole line between its two
/// ends: moving its end one line further down, at the same column, keeps
/// its start and makes it longer by the bytes of the line passed over and
/// that line's ending.
pub proof fn law_selection_covers_whole_lines(cs: Seq<char>, start: Location, end: Location)
    requires
        start.line < end.line < usize::MAX,
    ensures
        ({
            let further = Location { line: (end.line + 1) as usize, column: end.column };
            &&& spec_abs_range(cs, start, further).0 == spec_abs_range(cs, start, end).0
            &&& spec_abs_range(cs, start, further).1 == spec_abs_range(cs, start, end).1 + utf8_len(
                std_lines(cs)[end.line as int],
            ) + 1
        }),
{
}

/// A line ending is one byte.
proof fn lemma_utf8_len_push_newline(x: Seq<char>)
    ensures
        utf8_len(x.push('\n')) == utf8_len(x) + 1,
{
    let nl = seq!['\n'];
    assert(nl.drop_first() =~= Seq::<char>::empty());
    assert(encode_utf8(nl.drop_first()) =~= Seq::<u8>::empty());
    assert(utf8_len(nl) == 1);
    assert(x.push('\n') =~= x + nl);
    lemma_utf8_len_concat(x, nl);
}

/// In text without carriage returns, each line that `str::lines` gives and
/// that a line ending closes is, with that ending, a chunk line: the chunk
/// lines of the first `k` characters are the closed lines with their
/// endings, then the line being read (unless the text's final ending closed
/// it).
proof fn lemma_chunks_are_lines(cs: Seq<char>, blen: int, k: int)
    requires
        0 <= k <= cs.len(),
        blen >= cs.len(),
        forall|i: int| 0 <= i < cs.len() ==> cs[i] != '\r',
    ensures
        ({
            let p = cs.take(k);
            let (done, cur) = std_lines_state(p);
            let ch = chunk_lines(p, blen);
            let closed_at_end = k >= 1 && p.last() == '\n' && k - 1 == blen - 1;
            &&& closed_at_end ==> ch.len() == done.len()
            &&& !closed_at_end ==> ch.len() == done.len() + 1 && ch.last() == cur
            &&& forall|j: int| 0 <= j < done.len() ==> ch[j] == (#[trigger] done[j]).push('\n')
            &&& forall|i: int| 0 <= i < cur.len() ==> cur[i] != '\r'
        }),
    decreases k,
{
    let p = cs.take(k);
    if k == 0 {
        assert(p =~= Seq::<char>::empty());
    } else {
        lemma_chunks_are_lines(cs, blen, k - 1);
        let q = cs.take(k - 1);
        assert(p.drop_last() =~= q);
        assert(p.last() == cs[k - 1]);
        let (done0, cur0) = std_lines_state(q);
        let prev = chunk_lines(q, blen);
        let c = p.last();
        assert(!(k - 1 >= 1 && q.last() == '\n' && k - 2 == blen - 1));
        let updated = prev.update(prev.len() - 1, prev.last().push(c));
        assert(chunk_lines(p, blen) == if c == '\n' && p.len() - 1 != blen - 1 {
            updated.push(Seq::<char>::empty())
        } else {
            updated
        });
        if c == '\n' {
            if cur0.len() > 0 {
                assert(cur0.last() != '\r');
            }
            assert(strip_cr(cur0) == cur0);
            let (done, cur) = std_lines_state(p);
            assert(done == done0.push(cur0));
            assert forall|j: int| 0 <= j < done.len() implies chunk_lines(p, blen)[j] == (#[trigger] done[j]).push('\n') by {
                if j < done0.len() {
                    assert(done[j] == done0[j]);
                    assert(updated[j] == prev[j]);
                } else {
                    assert(done[j] == cur0);
                    assert(updated[j] == cur0.push('\n'));
                }
            }
        } else {
            let (done, cur) = std_lines_state(p);
            assert(done == done0);
            assert(cur == cur0.push(c));
            assert forall|j: int| 0 <= j < done.len() implies chunk_lines(p, blen)[j] == (#[trigger] done[j]).push('\n') by {
                assert(updated[j] == prev[j]);
            }
            assert forall|i: int| 0 <= i < cur.len() implies cur[i] != '\r' by {
                if i < cur0.len() {
                    assert(cur[i] == cur0[i]);
                }
            }
        }
    }
}

/// Bytes of the chunk lines between two lines of text without carriage
/// returns: the lines that `str::lines` gives there, each with its ending.
proof fn lemma_bytes_between(cs: Seq<char>, s: int, m: int)
    requires
        0 <= s <= m,
        m < std_lines(cs).len(),
        forall|i: int| 0 <= i < cs.len() ==> cs[i] != '\r',
    ensures
        bytes_before(chunk_lines(cs, utf8_len(cs) as int), m) == bytes_before(
            chunk_lines(cs, utf8_len(cs) as int),
            s,
        ) + if m > s {
            utf8_len(std_lines(cs)[s]) + 1 + middle_bytes(std_lines(cs), s + 1, m)
        } else {
            0
        },
    decreases m - s,
{
    let ch = chunk_lines(cs, utf8_len(cs) as int);
    let sl = std_lines(cs);
    crate::common::lemma_utf8_len_ge_len(cs);
    lemma_chunks_are_lines(cs, utf8_len(cs) as int, cs.len() as int);
    assert(cs.take(cs.len() as int) =~= cs);
    let (done, cur) = std_lines_state(cs);
    if m > s {
        lemma_bytes_between(cs, s, m - 1);
        assert(m - 1 < done.len());
        assert(sl[m - 1] == done[m - 1]);
        assert(ch[m - 1] == done[m - 1].push('\n'));
        lemma_utf8_len_push_newline(done[m - 1]);
        assert(ch.len() >= m);
        assert(bytes_before(ch, m) == bytes_before(ch, m - 1) + utf8_len(ch[m - 1]));
    }
}

/// A selection over several lines of text without carriage returns ends
/// one byte past its end location: the range covers every line between
/// the two locations whole.
pub proof fn law_selection_ends_past_end_location(cs: Seq<char>, start: Location, end: Location)
    requires
        start.line < end.line < std_lines(cs).len(),
        forall|i: int| 0 <= i < cs.len() ==> cs[i] != '\r',
    ensures
        spec_abs_range(cs, start, end).0 == spec_abs_index(cs, start),
        spec_abs_range(cs, start, end).1 == spec_abs_index(cs, end) + 1,
{
    lemma_bytes_between(cs, start.line as int, end.line as int);
}

/// A selection starts at the absolute index of the earlier of its two
/// locations, whichever order they are given in; on one line it is as long
/// as the distance between the two columns.
pub proof fn law_selection_start_and_one_line_length(cs: Seq<char>, a: Location, b: Location)
    ensures
        spec_abs_range(cs, a, b) == spec_abs_range(cs, b, a),
        spec_abs_range(cs, a, b).0 == spec_abs_index(cs, if location_lt(b, a) {
            b
        } else {
            a
        }),
        a.line == b.line ==> spec_abs_range(cs, a, b).1 - spec_abs_range(cs, a, b).0 == if a.column <= b.column {
            b.column - a.column
        } else {
            a.column - b.column
        },
{
}

/// Whether [`spec_abs_range`] is defined: the first location converts to an
/// absolute index, the result fits in `usize`, and, on different lines, the
/// last line exists and the first column is at most one past its line.
pub open spec fn abs_range_ok(cs: Seq<char>, start: Location, end: Location) -> bool {
    let (s, e) = ordered(start, end);
    &&& abs_index_ok(cs, s)
    &&& spec_abs_range(cs, start, end).1 <= usize::MAX
    &&& s.line != e.line ==> {
        &&& e.line < std_lines(cs).len()
        &&& s.column <= utf8_len(std_lines(cs)[s.line as int]) + 1
    }
}

/// The text of the selection between `start` and `end`.
pub open spec fn spec_selection_text(cs: Seq<char>, start: Location, end: Location) -> Seq<char> {
    let (a, b) = spec_abs_range(cs, start, end);
    decode_utf8(encode_utf8(cs).subrange(a, b))
}

/// Whether the selection can be cut out of `cs`: the range is defined, in
/// order, inside the text, and on character boundaries.
pub open spec fn selection_text_ok(cs: Seq<char>, start: Location, end: Location) -> bool {
    let (a, b) = spec_abs_range(cs, start, end);
    &&& abs_range_ok(cs, start, end)
    &&& 0 <= a <= b <= utf8_len(cs)
    &&& is_char_boundary(encode_utf8(cs), a)
    &&& is_char_boundary(encode_utf8(cs), b)
}

impl Selection {
    /// The location the selection was made from.
    pub closed spec fn spec_start(self) -> Location {
        self.start
    }

    /// The location the selection was made to.
    pub closed spec fn spec_end(self) -> Location {
        self.end
    }

    pub fn new(start: Location, end: Location) -> (r: Selection)
        ensures
            r.spec_start() == start,
            r.spec_end() == end,
    {
        Selection { start, end }
    }

    /// The selected text.
    pub fn get_selection_string(&self, text: &str) -> (r: String)
        requires
            selection_text_ok(text@, self.spec_start(), self.spec_end()),
        ensures
            r@ == spec_selection_text(text@, self.spec_start(), self.spec_end()),
    {
        let (start, end) = self.get_abs_index_range(text);
        let part = str_byte_range(text, start, end);
        proof {
            vstd::utf8::encode_utf8_decode_utf8(part@);
        }
        String::from_str(part)
    }

    /// Get the absolute index range of the selection.
    /// Returns (start, end) where start is the index of the first character of
    /// the selection and end the index just past the last character of the
    /// selection in the given text.
    pub fn get_abs_index_range(&self, text: &str) -> (r: (usize, usize))
        requires
            abs_range_ok(text@, self.spec_start(), self.spec_end()),
        ensures
            (r.0 as int, r.1 as int) == spec_abs_range(text@, self.spec_start(), self.spec_end()),
    {
        let lines = std_lines_of(text);
        let ghost sl = std_lines(text@);
        let mut start = self.start;
        let mut end = self.end;
        if end.is_before(&start) {
            let tmp = start;
            start = end;
            end = tmp;
        }
        assert((start, end) == ordered(self.start, self.end));
        if start.line == end.line {
            let start_index = abs_index_of(text, start);
            (start_index, start_index + (end.column - start.column))
        } else {
            let ghost fin = spec_abs_range(text@, self.start, self.end).1;
            let start_index = abs_index_of(text, start);
            proof {
                lemma_std_line_bound(text@, start.line as int);
                lemma_middle_bytes_monotone(sl, start.line + 1, start.line + 1, end.line as int);
            }
            assert(lines@[start.line as int]@ == sl[start.line as int]);
            let len = lines[start.line].as_str().len();
            let term = if start.column <= len {
                len - start.column + 1
            } else {
                0
            };
            let mut end_index = start_index + term;
            let mut i = start.line + 1;
            while i < end.line
                invariant
                    views(lines@) == sl,
                    sl == std_lines(text@),
                    utf8_len(text@) <= usize::MAX,
                    start.line + 1 <= i <= end.line,
                    end.line < sl.len(),
                    end_index == start_index + term + middle_bytes(sl, start.line + 1, i as int),
                    fin == start_index + term + middle_bytes(sl, start.line + 1, end.line as int)
                        + end.column + 1,
                    fin <= usize::MAX,
                decreases end.line - i,
            {
                proof {
                    lemma_std_line_bound(text@, i as int);
                    lemma_middle_bytes_monotone(sl, start.line + 1, i + 1, end.line as int);
                }
                assert(lines@[i as int]@ == sl[i as int]);
                let len_i = lines[i].as_str().len();
                end_index = end_index + len_i + 1;
                i = i + 1;
            }
            (start_index, end_index + end.column + 1)
        }
    }
}

/// Operations on a chunk of text.
pub trait TextChunk: View<V = Seq<char>> {
    /// The location of the last character.
    fn get_last_location(&self) -> (r: Location)
        requires
            last_location_ok(self@),
        ensures
            r == spec_last_location(self@),
    ;

    /// The text of a selection.
    fn get_range_selection(&self, range: Selection) -> (r: String)
        requires
            selection_text_ok(self@, range.spec_start(), range.spec_end()),
        ensures
            r@ == spec_selection_text(self@, range.spec_start(), range.spec_end()),
    ;

    /// The absolute byte index of a location.
    fn get_abs_index(&self, location: Location) -> (r: usize)
        requires
            abs_index_ok(self@, location),
        ensures
            r == spec_abs_index(self@, location),
    ;

    /// The location of an absolute byte index.
    fn get_location_from_abs_index(&self, abs_index: usize) -> (r: Location)
        requires
            utf8_len(self@) <= usize::MAX,
        ensures
            r == spec_location_of(self@, abs_index as int),
    ;

    /// Split the text into lines, including newlines and hanging empty lines.
    fn get_lines(&self) -> (r: Vec<String>)
        requires
            utf8_len(self@) <= usize::MAX,
        ensures
            views(r@) == chunk_lines(self@, utf8_len(self@) as int),
    ;
}

impl TextChunk for str {
    fn get_last_location(&self) -> (r: Location) {
        last_location_of(self)
    }

    fn get_range_selection(&self, range: Selection) -> (r: String) {
        range.get_selection_string(self)
    }

    fn get_abs_index(&self, location: Location) -> (r: usize) {
        abs_index_of(self, location)
    }

    fn get_location_from_abs_index(&self, abs_index: usize) -> (r: Location) {
        location_of(self, abs_index)
    }

    fn get_lines(&self) -> (r: Vec<String>) {
        get_lines_of(self)
    }
}

} // verus!

verus! {

/// Whether two strings hold the same characters.
pub fn str_equals(a: &str, b: &str) -> (r: bool)
    ensures
        r == (a@ == b@),
{
    let n = a.unicode_len();
    let m = b.unicode_len();
    if n != m {
        return false;
    }
    let mut i: usize = 0;
    while i < n
        invariant
            n == a@.len(),
            m == b@.len(),
            n == m,
            0 <= i <= n,
            forall|j: int| 0 <= j < i ==> a@[j] == b@[j],
        decreases n - i,
    {
        if a.get_char(i) != b.get_char(i) {
            return false;
        }
        i = i + 1;
    }
    assert(a@ =~= b@);
    true
}

/// While no earlier line holds the index, the search for the line of an
/// index passes each line whole and keeps the first line.
proof fn lemma_locate_before(lines: Seq<Seq<char>>, abs: int, k: int)
    requires
        0 <= k <= lines.len(),
        bytes_before(lines, k) <= abs,
    ensures
        locate_state(lines, abs, k) == (bytes_before(lines, k), 0int),
    decreases k,
{
    if k > 0 {
        lemma_bytes_before_monotone(lines, k - 1, k - 1);
        lemma_bytes_before_monotone(lines, k - 1, k);
        lemma_locate_before(lines, abs, k - 1);
    }
}

/// The location of the last byte of a text is its last location: the last
/// line, at the last byte column of it.
pub proof fn law_last_index_is_last_location(cs: Seq<char>)
    requires
        last_location_ok(cs),
    ensures
        spec_location_of(cs, utf8_len(cs) - 1) == spec_last_location(cs),
{
    let n = utf8_len(cs) as int;
    let l = chunk_lines(cs, n);
    let len = l.len() as int;
    lemma_chunk_lines_nonempty(cs, n);
    lemma_chunk_lines_join(cs, n);
    lemma_bytes_before_join(l);
    lemma_bytes_before_monotone(l, len - 1, len - 1);
    assert(bytes_before(l, len - 1) + utf8_len(l[len - 1]) == n);
    lemma_locate_before(l, n - 1, len - 1);
    assert(locate_state(l, n - 1, len) == (bytes_before(l, len - 1), len - 1));
}

} // verus!
