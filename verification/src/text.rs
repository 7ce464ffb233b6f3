//! Text primitives over `char` sequences: building strings, decimal
//! rendering, whitespace trimming, searching, splitting and line joining.

use vstd::prelude::*;
use vstd::utf8::*;

verus! {

broadcast use vstd::string::group_string_axioms;

// ---------------------------------------------------------------------------
// Building strings
// ---------------------------------------------------------------------------

/// `String::push` from std: appends one character.
#[verifier::external_body]
fn push_char(s: &mut String, c: char)
    ensures
        final(s)@ == old(s)@.push(c),
{
    s.push(c);
}

/// Appends a string slice.
pub fn push_str(s: &mut String, t: &str)
    ensures
        final(s)@ == old(s)@ + t@,
{
    s.append(t);
}

/// A fresh string with the given contents.
pub fn string_of(t: &str) -> (r: String)
    ensures
        r@ == t@,
{
    t.to_owned()
}

/// The concatenation of two slices.
pub fn concat2(a: &str, b: &str) -> (r: String)
    ensures
        r@ == a@ + b@,
{
    let mut r = string_of(a);
    push_str(&mut r, b);
    r
}

/// The concatenation of three slices.
pub fn concat3(a: &str, b: &str, c: &str) -> (r: String)
    ensures
        r@ == a@ + b@ + c@,
{
    let mut r = concat2(a, b);
    push_str(&mut r, c);
    r
}

/// The characters of a string slice, in order.
pub fn chars_of(s: &str) -> (v: Vec<char>)
    ensures
        v@ == s@,
{
    let mut v: Vec<char> = Vec::new();
    for c in it: s.chars()
        invariant
            it.seq() == s@,
            v@ == it.seq().take(it.index() as int),
    {
        v.push(c);
    }
    v
}

/// Appends the characters `cs[from..to]`.
pub fn push_chars(s: &mut String, cs: &[char], from: usize, to: usize)
    requires
        from <= to <= cs@.len(),
    ensures
        final(s)@ == old(s)@ + cs@.subrange(from as int, to as int),
{
    let ghost start = s@;
    let mut i = from;
    while i < to
        invariant
            from <= i <= to <= cs@.len(),
            s@ == start + cs@.subrange(from as int, i as int),
        decreases to - i,
    {
        push_char(s, cs[i]);
        i = i + 1;
        assert(s@ =~= start + cs@.subrange(from as int, i as int));
    }
}

/// A string made of `cs[from..to]`.
pub fn string_from_chars(cs: &[char], from: usize, to: usize) -> (r: String)
    requires
        from <= to <= cs@.len(),
    ensures
        r@ == cs@.subrange(from as int, to as int),
{
    let mut r = String::new();
    push_chars(&mut r, cs, from, to);
    assert(r@ =~= cs@.subrange(from as int, to as int));
    r
}

// ---------------------------------------------------------------------------
// Decimal rendering
// ---------------------------------------------------------------------------

/// The ASCII digit for `d` (0 to 9).
pub open spec fn digit_char(d: int) -> char {
    if d == 0 {
        '0'
    } else if d == 1 {
        '1'
    } else if d == 2 {
        '2'
    } else if d == 3 {
        '3'
    } else if d == 4 {
        '4'
    } else if d == 5 {
        '5'
    } else if d == 6 {
        '6'
    } else if d == 7 {
        '7'
    } else if d == 8 {
        '8'
    } else {
        '9'
    }
}

/// The decimal representation of `n`, without leading zeros.
pub open spec fn decimal(n: nat) -> Seq<char>
    decreases n,
{
    if n < 10 {
        seq![digit_char(n as int)]
    } else {
        decimal(n / 10) + seq![digit_char((n % 10) as int)]
    }
}

/// The decimal representation of a signed integer, with a leading `-` when negative.
pub open spec fn signed_decimal(i: int) -> Seq<char> {
    if i < 0 {
        seq!['-'] + decimal((-i) as nat)
    } else {
        decimal(i as nat)
    }
}

fn digit(d: u128) -> (c: char)
    requires
        d < 10,
    ensures
        c == digit_char(d as int),
{
    if d == 0 {
        '0'
    } else if d == 1 {
        '1'
    } else if d == 2 {
        '2'
    } else if d == 3 {
        '3'
    } else if d == 4 {
        '4'
    } else if d == 5 {
        '5'
    } else if d == 6 {
        '6'
    } else if d == 7 {
        '7'
    } else if d == 8 {
        '8'
    } else {
        '9'
    }
}

/// Appends the decimal representation of `n`.
pub fn push_decimal(s: &mut String, n: u128)
    ensures
        final(s)@ == old(s)@ + decimal(n as nat),
    decreases n,
{
    let ghost start = s@;
    if n >= 10 {
        push_decimal(s, n / 10);
    }
    push_char(s, digit(n % 10));
    proof {
        if n >= 10 {
            assert(s@ =~= start + decimal(n as nat));
        } else {
            assert(s@ =~= start + decimal(n as nat));
        }
    }
}

/// Appends the decimal representation of a signed integer.
pub fn push_signed_decimal(s: &mut String, i: i64)
    ensures
        final(s)@ == old(s)@ + signed_decimal(i as int),
{
    let ghost start = s@;
    if i < 0 {
        push_char(s, '-');
        let wide: i128 = i as i128;
        let magnitude: u128 = (-wide) as u128;
        push_decimal(s, magnitude);
        assert(s@ =~= start + signed_decimal(i as int));
    } else {
        push_decimal(s, i as u128);
    }
}

/// The decimal representation of `n` as a fresh string.
pub fn decimal_string(n: u128) -> (r: String)
    ensures
        r@ == decimal(n as nat),
{
    let mut r = String::new();
    push_decimal(&mut r, n);
    assert(r@ =~= decimal(n as nat));
    r
}

// ---------------------------------------------------------------------------
// Whitespace and trimming
// ---------------------------------------------------------------------------

/// The Unicode `White_Space` property, which `char::is_whitespace` and
/// `str::trim` go by.
pub open spec fn is_white(c: char) -> bool {
    ||| c == '\t'
    ||| c == '\n'
    ||| c == '\u{0B}'
    ||| c == '\u{0C}'
    ||| c == '\r'
    ||| c == ' '
    ||| c == '\u{85}'
    ||| c == '\u{A0}'
    ||| c == '\u{1680}'
    ||| ('\u{2000}' <= c && c <= '\u{200A}')
    ||| c == '\u{2028}'
    ||| c == '\u{2029}'
    ||| c == '\u{202F}'
    ||| c == '\u{205F}'
    ||| c == '\u{3000}'
}

/// Decides `is_white`.
pub fn is_white_char(c: char) -> (b: bool)
    ensures
        b == is_white(c),
{
    c == '\t' || c == '\n' || c == '\u{0B}' || c == '\u{0C}' || c == '\r' || c == ' ' || c
        == '\u{85}' || c == '\u{A0}' || c == '\u{1680}' || ('\u{2000}' <= c && c <= '\u{200A}')
        || c == '\u{2028}' || c == '\u{2029}' || c == '\u{202F}' || c == '\u{205F}' || c
        == '\u{3000}'
}

/// `s` without its leading whitespace.
pub open spec fn trim_start(s: Seq<char>) -> Seq<char>
    decreases s.len(),
{
    if s.len() > 0 && is_white(s[0]) {
        trim_start(s.drop_first())
    } else {
        s
    }
}

/// `s` without its trailing whitespace.
pub open spec fn trim_end(s: Seq<char>) -> Seq<char>
    decreases s.len(),
{
    if s.len() > 0 && is_white(s.last()) {
        trim_end(s.drop_last())
    } else {
        s
    }
}

/// `s` without leading and trailing whitespace, as `str::trim` gives it.
pub open spec fn trim(s: Seq<char>) -> Seq<char> {
    trim_end(trim_start(s))
}

/// The bounds of `trim(cs[from..to])` within `cs`.
pub fn trim_bounds(cs: &[char], from: usize, to: usize) -> (r: (usize, usize))
    requires
        from <= to <= cs@.len(),
    ensures
        from <= r.0 <= r.1 <= to,
        cs@.subrange(r.0 as int, r.1 as int) == trim(cs@.subrange(from as int, to as int)),
{
    let mut a = from;
    while a < to && is_white_char(cs[a])
        invariant
            from <= a <= to <= cs@.len(),
            trim_start(cs@.subrange(from as int, to as int)) == trim_start(
                cs@.subrange(a as int, to as int),
            ),
        decreases to - a,
    {
        assert(cs@.subrange(a as int, to as int).drop_first() =~= cs@.subrange(
            a + 1,
            to as int,
        ));
        a = a + 1;
    }
    let mut b = to;
    while b > a && is_white_char(cs[b - 1])
        invariant
            from <= a <= b <= to <= cs@.len(),
            trim_end(cs@.subrange(a as int, to as int)) == trim_end(
                cs@.subrange(a as int, b as int),
            ),
        decreases b - a,
    {
        assert(cs@.subrange(a as int, b as int).drop_last() =~= cs@.subrange(
            a as int,
            b - 1,
        ));
        b = b - 1;
    }
    (a, b)
}

// ---------------------------------------------------------------------------
// Prefixes, searching and splitting
// ---------------------------------------------------------------------------

/// `p` is a prefix of `s`.
pub open spec fn has_prefix(s: Seq<char>, p: Seq<char>) -> bool {
    p.len() <= s.len() && s.take(p.len() as int) == p
}

/// `p` occurs in `s` at index `i`.
pub open spec fn occurs_at(s: Seq<char>, p: Seq<char>, i: int) -> bool {
    0 <= i && i + p.len() <= s.len() && s.subrange(i, i + p.len()) == p
}

/// The first index at or after `i` where `p` occurs in `s`.
pub open spec fn find_from(s: Seq<char>, p: Seq<char>, i: int) -> Option<int>
    decreases s.len() + 1 - i,
{
    if i < 0 || i + p.len() > s.len() {
        None
    } else if occurs_at(s, p, i) {
        Some(i)
    } else {
        find_from(s, p, i + 1)
    }
}

/// The first index where `p` occurs in `s`, as `str::find` gives it (counted in characters).
pub open spec fn find(s: Seq<char>, p: Seq<char>) -> Option<int> {
    find_from(s, p, 0)
}

/// Whether `p` occurs at `cs[i..]`.
pub fn matches_at(cs: &[char], i: usize, p: &[char]) -> (b: bool)
    ensures
        b == occurs_at(cs@, p@, i as int),
{
    if i > cs.len() || p.len() > cs.len() - i {
        return false;
    }
    let mut k: usize = 0;
    while k < p.len()
        invariant
            i <= cs@.len(),
            i + p@.len() <= cs.len(),
            k <= p@.len(),
            forall|j: int| 0 <= j < k ==> cs@[i + j] == p@[j],
        decreases p.len() - k,
    {
        if cs[i + k] != p[k] {
            assert(cs@.subrange(i as int, i + p@.len())[k as int] != p@[k as int]);
            return false;
        }
        k = k + 1;
    }
    assert(cs@.subrange(i as int, i + p@.len()) =~= p@);
    true
}

/// Exec form of `find_from`.
pub fn find_chars_from(cs: &[char], p: &[char], from: usize) -> (r: Option<usize>)
    ensures
        match r {
            Some(i) => find_from(cs@, p@, from as int) == Some(i as int),
            None => find_from(cs@, p@, from as int) is None,
        },
{
    let mut i = from;
    while i <= cs.len() && p.len() <= cs.len() - i
        invariant
            from <= i,
            find_from(cs@, p@, from as int) == find_from(cs@, p@, i as int),
        decreases cs.len() + 1 - i,
    {
        proof {
            if p@.len() == 0 {
                assert(cs@.subrange(i as int, i as int) =~= p@);
            }
        }
        if matches_at(cs, i, p) {
            return Some(i);
        }
        i = i + 1;
    }
    None
}

/// Exec form of `find_from` for a single character.
pub fn find_char_from(cs: &[char], c: char, from: usize) -> (r: Option<usize>)
    ensures
        match r {
            Some(i) => find_from(cs@, seq![c], from as int) == Some(i as int),
            None => find_from(cs@, seq![c], from as int) is None,
        },
{
    let mut i = from;
    while i < cs.len()
        invariant
            from <= i,
            find_from(cs@, seq![c], from as int) == find_from(cs@, seq![c], i as int),
        decreases cs.len() - i,
    {
        if cs[i] == c {
            assert(cs@.subrange(i as int, i + 1) =~= seq![c]);
            return Some(i);
        }
        assert(cs@.subrange(i as int, i + 1) != seq![c]) by {
            assert(cs@.subrange(i as int, i + 1)[0] == cs@[i as int]);
        }
        i = i + 1;
    }
    None
}

/// Whether `s` begins with `p`.
pub fn starts_with(s: &[char], p: &str) -> (b: bool)
    ensures
        b == has_prefix(s@, p@),
{
    let pc = chars_of(p);
    let b = matches_at(s, 0, pc.as_slice());
    proof {
        if b {
            assert(s@.take(p@.len() as int) =~= s@.subrange(0, p@.len() as int));
        } else if p@.len() <= s@.len() {
            assert(s@.take(p@.len() as int) =~= s@.subrange(0, p@.len() as int));
        }
    }
    b
}

/// The pieces of `s` between occurrences of `c`, as `str::split(c)` yields them
/// (at least one piece; an empty `s` gives one empty piece).
pub open spec fn split_on(s: Seq<char>, c: char) -> Seq<Seq<char>>
    decreases s.len(),
{
    if s.len() == 0 {
        seq![Seq::empty()]
    } else {
        let r = split_on(s.drop_last(), c);
        if s.last() == c {
            r.push(Seq::empty())
        } else {
            r.update(r.len() - 1, r.last().push(s.last()))
        }
    }
}

/// `split_on` never yields an empty list.
pub proof fn lemma_split_on_nonempty(s: Seq<char>, c: char)
    ensures
        split_on(s, c).len() >= 1,
    decreases s.len(),
{
    if s.len() > 0 {
        lemma_split_on_nonempty(s.drop_last(), c);
    }
}

/// One step of splitting: `cs[..i+1]` given `cs[..i]` splits into `done` and
/// the open piece `cs[start..i]`.
pub proof fn lemma_split_step(cs: Seq<char>, c: char, i: int, start: int, done: Seq<Seq<char>>)
    requires
        0 <= start <= i < cs.len(),
        split_on(cs.take(i), c) == done.push(cs.subrange(start, i)),
    ensures
        cs[i] == c ==> split_on(cs.take(i + 1), c) == done.push(cs.subrange(start, i)).push(
            cs.subrange(i + 1, i + 1),
        ),
        cs[i] != c ==> split_on(cs.take(i + 1), c) == done.push(cs.subrange(start, i + 1)),
{
    assert(cs.take(i + 1).drop_last() =~= cs.take(i));
    assert(cs.take(i + 1).last() == cs[i]);
    if cs[i] == c {
        assert(cs.subrange(i + 1, i + 1) =~= Seq::<char>::empty());
    } else {
        assert(cs.subrange(start, i).push(cs[i]) =~= cs.subrange(start, i + 1));
        assert(done.push(cs.subrange(start, i)).update(done.len() as int, cs.subrange(start, i + 1))
            =~= done.push(cs.subrange(start, i + 1)));
    }
}

// ---------------------------------------------------------------------------
// Joining lines
// ---------------------------------------------------------------------------

/// `lines` joined with `sep` between consecutive items, as `[String]::join` gives it.
pub open spec fn join(lines: Seq<Seq<char>>, sep: Seq<char>) -> Seq<char>
    decreases lines.len(),
{
    if lines.len() == 0 {
        seq![]
    } else if lines.len() == 1 {
        lines[0]
    } else {
        join(lines.drop_last(), sep) + sep + lines.last()
    }
}

/// A text built line by line; the lines are joined with `"\n"`.
pub struct LineText {
    pub text: String,
    pub started: bool,
    pub lines: Ghost<Seq<Seq<char>>>,
}

impl LineText {
    /// The text is the join of the lines pushed so far.
    pub open spec fn wf(&self) -> bool {
        &&& self.text@ == join(self.lines@, "\n"@)
        &&& self.started == (self.lines@.len() > 0)
    }

    /// An empty text with no lines.
    pub fn new() -> (r: LineText)
        ensures
            r.wf(),
            r.lines@ == Seq::<Seq<char>>::empty(),
    {
        LineText { text: String::new(), started: false, lines: Ghost(Seq::empty()) }
    }

    /// Adds one line.
    pub fn push_line(&mut self, line: &str)
        requires
            old(self).wf(),
        ensures
            final(self).wf(),
            final(self).lines@ == old(self).lines@.push(line@),
    {
        let ghost before = self.lines@;
        if self.started {
            self.push_separator_and(line);
        } else {
            self.push_first(line);
        }
        assert(self.lines@.drop_last() =~= before);
    }

    fn push_separator_and(&mut self, line: &str)
        requires
            old(self).wf(),
            old(self).lines@.len() > 0,
        ensures
            final(self).wf(),
            final(self).lines@ == old(self).lines@.push(line@),
    {
        let ghost before = self.lines@;
        push_str(&mut self.text, "\n");
        push_str(&mut self.text, line);
        self.lines = Ghost(before.push(line@));
        assert(self.lines@.drop_last() =~= before);
    }

    fn push_first(&mut self, line: &str)
        requires
            old(self).wf(),
            old(self).lines@.len() == 0,
        ensures
            final(self).wf(),
            final(self).lines@ == old(self).lines@.push(line@),
    {
        assert(self.lines@ =~= Seq::<Seq<char>>::empty());
        push_str(&mut self.text, line);
        self.lines = Ghost(Seq::<Seq<char>>::empty().push(line@));
        self.started = true;
        assert(self.text@ =~= line@);
    }

    /// Adds one line given as a `String`.
    pub fn push_string(&mut self, line: String)
        requires
            old(self).wf(),
        ensures
            final(self).wf(),
            final(self).lines@ == old(self).lines@.push(line@),
    {
        self.push_line(line.as_str());
    }
}

// ---------------------------------------------------------------------------
// Byte-length prefixes
// ---------------------------------------------------------------------------

/// The first `n` bytes of the UTF-8 encoding of `s`, read back as characters.
pub open spec fn byte_prefix(s: Seq<char>, n: int) -> Seq<char> {
    decode_utf8(encode_utf8(s).take(n))
}

/// `n` falls on a character boundary of the UTF-8 encoding of `s`.
pub open spec fn char_boundary_at(s: Seq<char>, n: int) -> bool {
    is_char_boundary(encode_utf8(s), n)
}

/// The length of `s` in UTF-8 bytes, as `str::len` gives it.
pub open spec fn byte_len(s: Seq<char>) -> int {
    encode_utf8(s).len() as int
}

/// `s.len()`: the length of `s` in bytes.
pub fn byte_length(s: &str) -> (n: usize)
    ensures
        n == byte_len(s@),
{
    broadcast use vstd::slice::group_slice_axioms;

    s.as_bytes().len()
}

/// `&s[..n]`, which std allows only at a character boundary.
pub fn byte_prefix_of(s: &str, n: usize) -> (r: &str)
    requires
        n <= byte_len(s@),
        char_boundary_at(s@, n as int),
    ensures
        r@ == byte_prefix(s@, n as int),
{
    broadcast use encode_utf8_decode_utf8;

    let (head, _tail) = s.split_at(n);
    assert(encode_utf8(s@).subrange(0, n as int) =~= encode_utf8(s@).take(n as int));
    head
}


// ---------------------------------------------------------------------------
// Sequences of strings
// ---------------------------------------------------------------------------

/// The character sequences of a list of strings.
pub open spec fn views(v: Seq<String>) -> Seq<Seq<char>> {
    v.map_values(|s: String| s@)
}

/// `views` of a list with one more item.
pub proof fn lemma_views_push(v: Seq<String>, x: String)
    ensures
        views(v.push(x)) == views(v).push(x@),
{
    assert(views(v.push(x)) =~= views(v).push(x@));
}

/// `v.join(sep)`.
pub fn join_strings(v: &Vec<String>, sep: &str) -> (r: String)
    ensures
        r@ == join(views(v@), sep@),
{
    let mut r = String::new();
    let mut i: usize = 0;
    assert(views(v@.take(0)) =~= Seq::<Seq<char>>::empty());
    while i < v.len()
        invariant
            i <= v@.len(),
            r@ == join(views(v@.take(i as int)), sep@),
        decreases v.len() - i,
    {
        let ghost before = r@;
        assert(views(v@.take(i + 1)).drop_last() =~= views(v@.take(i as int)));
        assert(views(v@.take(i + 1)).last() == v@[i as int]@);
        if i > 0 {
            push_str(&mut r, sep);
        } else {
            assert(before =~= Seq::<char>::empty());
        }
        push_str(&mut r, v[i].as_str());
        i = i + 1;
        assert(r@ =~= join(views(v@.take(i as int)), sep@));
    }
    assert(v@.take(v@.len() as int) =~= v@);
    r
}


/// `s.split(c)`, as owned strings.
pub fn split_string(s: &str, c: char) -> (r: Vec<String>)
    ensures
        views(r@) == split_on(s@, c),
{
    let cs = chars_of(s);
    let mut pieces: Vec<String> = Vec::new();
    let mut start: usize = 0;
    let mut i: usize = 0;
    assert(cs@.take(0) =~= Seq::<char>::empty());
    assert(split_on(cs@.take(0), c) =~= views(pieces@).push(cs@.subrange(0, 0)));
    while i < cs.len()
        invariant
            start <= i <= cs@.len(),
            split_on(cs@.take(i as int), c) == views(pieces@).push(cs@.subrange(start as int, i as int)),
        decreases cs.len() - i,
    {
        proof {
            lemma_split_step(cs@, c, i as int, start as int, views(pieces@));
        }
        if cs[i] == c {
            let ghost before = pieces@;
            let piece = string_from_chars(cs.as_slice(), start, i);
            pieces.push(piece);
            proof {
                lemma_views_push(before, piece);
            }
            start = i + 1;
        }
        i = i + 1;
    }
    assert(cs@.take(cs@.len() as int) =~= cs@);
    let ghost before = pieces@;
    let last = string_from_chars(cs.as_slice(), start, cs.len());
    pieces.push(last);
    proof {
        lemma_views_push(before, last);
    }
    pieces
}

/// `s` with every newline replaced by a space.
pub open spec fn newlines_to_spaces(s: Seq<char>) -> Seq<char> {
    s.map_values(|c: char| if c == '\n' { ' ' } else { c })
}

/// `s.replace('\n', " ")`.
pub fn replace_newlines(s: &str) -> (r: String)
    ensures
        r@ == newlines_to_spaces(s@),
{
    let cs = chars_of(s);
    let mut r = String::new();
    let mut i: usize = 0;
    while i < cs.len()
        invariant
            cs@ == s@,
            i <= cs@.len(),
            r@ == newlines_to_spaces(cs@.take(i as int)),
        decreases cs.len() - i,
    {
        let c = cs[i];
        if c == '\n' {
            push_char(&mut r, ' ');
        } else {
            push_char(&mut r, c);
        }
        i = i + 1;
        assert(r@ =~= newlines_to_spaces(cs@.take(i as int)));
    }
    assert(cs@.take(cs@.len() as int) =~= cs@);
    r
}

} // verus!
