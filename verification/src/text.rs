//! Text primitives shared by the rest of the crate.
//!
//! Strings are processed as sequences of `char`: a `&str` is unpacked once into a
//! `Vec<char>`, worked on by index, and packed again at the end.

use vstd::prelude::*;

verus! {

/// `String::push` appends exactly one character.
pub assume_specification[ String::push ](s: &mut String, ch: char)
    ensures
        final(s)@ == old(s)@.push(ch),
;

/// The characters of `s`, in order.
pub fn chars_of(s: &str) -> (out: Vec<char>)
    ensures
        out@ == s@,
{
    let mut out: Vec<char> = Vec::new();
    for c in it: s.chars()
        invariant
            out@ == s@.take(it.index() as int),
            it.seq() == s@,
    {
        out.push(c);
    }
    out
}

/// The string made of the characters of `v`, in order.
pub fn string_of(v: &Vec<char>) -> (out: String)
    ensures
        out@ == v@,
{
    let mut out = String::new();
    let mut i: usize = 0;
    while i < v.len()
        invariant
            i <= v.len(),
            out@ == v@.take(i as int),
        decreases v.len() - i,
    {
        out.push(v[i]);
        i += 1;
    }
    out
}

/// Appends the characters of `more` to `out`.
pub fn push_chars(out: &mut Vec<char>, more: &Vec<char>)
    ensures
        final(out)@ == old(out)@ + more@,
{
    let mut i: usize = 0;
    while i < more.len()
        invariant
            i <= more.len(),
            out@ == old(out)@ + more@.take(i as int),
        decreases more.len() - i,
    {
        out.push(more[i]);
        i += 1;
    }
}

/// A copy of `bytes`.
pub fn copy_bytes(bytes: &Vec<u8>) -> (out: Vec<u8>)
    ensures
        out@ == bytes@,
{
    let mut out: Vec<u8> = Vec::new();
    let mut i: usize = 0;
    while i < bytes.len()
        invariant
            i <= bytes.len(),
            out@ == bytes@.take(i as int),
        decreases bytes.len() - i,
    {
        out.push(bytes[i]);
        i += 1;
    }
    out
}

/// Whether two character sequences are the same.
pub fn chars_eq(a: &Vec<char>, b: &Vec<char>) -> (r: bool)
    ensures
        r == (a@ == b@),
{
    if a.len() != b.len() {
        return false;
    }
    let mut i: usize = 0;
    while i < a.len()
        invariant
            i <= a.len(),
            a.len() == b.len(),
            a@.take(i as int) == b@.take(i as int),
        decreases a.len() - i,
    {
        if a[i] != b[i] {
            return false;
        }
        assert(a@.take(i + 1) == a@.take(i as int).push(a@[i as int]));
        assert(b@.take(i + 1) == b@.take(i as int).push(b@[i as int]));
        i += 1;
    }
    assert(a@ == a@.take(a.len() as int));
    assert(b@ == b@.take(b.len() as int));
    true
}

// ---------------------------------------------------------------------------
// Lexicographic order
// ---------------------------------------------------------------------------

/// `a` sorts strictly before `b` when both are compared from index `i` on:
/// at the first index where they differ `a` holds the smaller code point, or
/// `a` ends there and `b` does not.
pub open spec fn lex_lt_from(a: Seq<char>, b: Seq<char>, i: int) -> bool
    decreases a.len() - i,
{
    if i < 0 || i >= b.len() {
        false
    } else if i >= a.len() {
        true
    } else if a[i] != b[i] {
        a[i] < b[i]
    } else {
        lex_lt_from(a, b, i + 1)
    }
}

/// Strict lexicographic order by code point.
pub open spec fn lex_lt(a: Seq<char>, b: Seq<char>) -> bool {
    lex_lt_from(a, b, 0)
}

/// Lexicographic order by code point.
pub open spec fn lex_le(a: Seq<char>, b: Seq<char>) -> bool {
    a == b || lex_lt(a, b)
}

/// Nothing sorts before itself.
pub proof fn lemma_lex_irreflexive(a: Seq<char>, i: int)
    requires
        0 <= i,
    ensures
        !lex_lt_from(a, a, i),
    decreases a.len() - i,
{
    if i < a.len() {
        lemma_lex_irreflexive(a, i + 1);
    }
}

/// The strict order is transitive.
pub proof fn lemma_lex_transitive(a: Seq<char>, b: Seq<char>, c: Seq<char>, i: int)
    requires
        0 <= i,
        lex_lt_from(a, b, i),
        lex_lt_from(b, c, i),
    ensures
        lex_lt_from(a, c, i),
    decreases a.len() - i,
{
    if i < a.len() && i < b.len() && i < c.len() && a[i] == b[i] && b[i] == c[i] {
        lemma_lex_transitive(a, b, c, i + 1);
    }
}

/// Two sequences that agree before `i` and are unordered from `i` on are equal.
pub proof fn lemma_lex_connected(a: Seq<char>, b: Seq<char>, i: int)
    requires
        0 <= i <= a.len(),
        i <= b.len(),
        a.take(i) == b.take(i),
        !lex_lt_from(a, b, i),
        !lex_lt_from(b, a, i),
    ensures
        a == b,
    decreases a.len() - i,
{
    if i >= a.len() || i >= b.len() {
        assert(a.len() == b.len());
        assert(a == a.take(i));
        assert(b == b.take(i));
    } else {
        assert(a.take(i + 1) == a.take(i).push(a[i]));
        assert(b.take(i + 1) == b.take(i).push(b[i]));
        lemma_lex_connected(a, b, i + 1);
    }
}

/// Of two different sequences exactly one sorts before the other.
pub proof fn lemma_lex_trichotomy(a: Seq<char>, b: Seq<char>)
    ensures
        a == b || lex_lt(a, b) || lex_lt(b, a),
        !(lex_lt(a, b) && lex_lt(b, a)),
        a == b ==> !lex_lt(a, b),
{
    assert(a.take(0) == b.take(0));
    if !lex_lt(a, b) && !lex_lt(b, a) {
        lemma_lex_connected(a, b, 0);
    }
    if lex_lt(a, b) && lex_lt(b, a) {
        lemma_lex_transitive(a, b, a, 0);
        lemma_lex_irreflexive(a, 0);
    }
    lemma_lex_irreflexive(a, 0);
}

/// Whether `a` sorts strictly before `b`.
pub fn chars_lt(a: &Vec<char>, b: &Vec<char>) -> (r: bool)
    ensures
        r == lex_lt(a@, b@),
{
    let mut i: usize = 0;
    while i < a.len() && i < b.len()
        invariant
            i <= a.len(),
            i <= b.len(),
            lex_lt_from(a@, b@, i as int) == lex_lt(a@, b@),
        decreases a.len() - i,
    {
        let x = a[i];
        let y = b[i];
        if x != y {
            return x < y;
        }
        i += 1;
    }
    i < b.len()
}

// ---------------------------------------------------------------------------
// Lines
// ---------------------------------------------------------------------------

/// `line` without one trailing carriage return.
pub open spec fn strip_cr(line: Seq<char>) -> Seq<char> {
    if line.len() > 0 && line.last() == '\r' {
        line.drop_last()
    } else {
        line
    }
}

/// The lines of `s[start..]`, where no line feed stands in `s[start..i]`.
pub open spec fn lines_from(s: Seq<char>, start: int, i: int) -> Seq<Seq<char>>
    decreases s.len() - i,
{
    if i < 0 || start < 0 || start > i {
        Seq::empty()
    } else if i >= s.len() {
        if start >= s.len() {
            Seq::empty()
        } else {
            seq![s.subrange(start, s.len() as int)]
        }
    } else if s[i] == '\n' {
        seq![strip_cr(s.subrange(start, i))] + lines_from(s, i + 1, i + 1)
    } else {
        lines_from(s, start, i + 1)
    }
}

/// The lines of `s`. A line ends at a line feed; the line feed, and a carriage
/// return directly before it, belong to no line. Text after the last line
/// feed is a line of its own, kept as it is; a text that ends in a line feed
/// has no empty line after it.
pub open spec fn lines_of(s: Seq<char>) -> Seq<Seq<char>> {
    lines_from(s, 0, 0)
}

proof fn lemma_lines_from_start(s: Seq<char>, start: int, i: int)
    requires
        0 <= start <= i,
        start < s.len(),
    ensures
        lines_from(s, start, i).len() > 0,
    decreases s.len() - i,
{
    if i < s.len() && s[i] != '\n' {
        lemma_lines_from_start(s, start, i + 1);
    }
}

/// A text that is not empty has at least one line.
pub proof fn lemma_text_has_lines(s: Seq<char>)
    requires
        s.len() > 0,
    ensures
        lines_of(s).len() > 0,
{
    lemma_lines_from_start(s, 0, 0);
}

/// Splits `s` into its lines.
pub fn split_lines(s: &Vec<char>) -> (out: Vec<Vec<char>>)
    ensures
        out@.len() == lines_of(s@).len(),
        forall|n: int| 0 <= n < out@.len() ==> (#[trigger] out@[n])@ == lines_of(s@)[n],
{
    let mut out: Vec<Vec<char>> = Vec::new();
    let mut line: Vec<char> = Vec::new();
    let ghost mut done: Seq<Seq<char>> = Seq::empty();
    let mut start: usize = 0;
    let mut i: usize = 0;
    while i < s.len()
        invariant
            start <= i <= s.len(),
            line@ == s@.subrange(start as int, i as int),
            out@.len() == done.len(),
            forall|n: int| 0 <= n < out@.len() ==> (#[trigger] out@[n])@ == done[n],
            done + lines_from(s@, start as int, i as int) == lines_of(s@),
        decreases s.len() - i,
    {
        let c = s[i];
        if c == '\n' {
            let n = line.len();
            if n > 0 && line[n - 1] == '\r' {
                line.pop();
            }
            assert(line@ == strip_cr(s@.subrange(start as int, i as int)));
            proof {
                let rest = lines_from(s@, i + 1, i + 1);
                assert(done.push(line@) + rest == done + (seq![line@] + rest));
                done = done.push(line@);
            }
            out.push(line);
            line = Vec::new();
            start = i + 1;
        } else {
            line.push(c);
            assert(line@ == s@.subrange(start as int, i + 1));
        }
        i += 1;
    }
    if start < s.len() {
        proof {
            assert(done.push(line@) == done + seq![line@]);
            done = done.push(line@);
        }
        out.push(line);
    } else {
        assert(done + Seq::<Seq<char>>::empty() == done);
    }
    out
}

// ---------------------------------------------------------------------------
// Decimal numbers
// ---------------------------------------------------------------------------

/// The digit that stands for `d`, which is below ten.
pub open spec fn digit_char(d: nat) -> char {
    seq!['0', '1', '2', '3', '4', '5', '6', '7', '8', '9'][d as int]
}

/// `n` in decimal, without leading zeros.
pub open spec fn decimal(n: nat) -> Seq<char>
    decreases n,
{
    if n < 10 {
        seq![digit_char(n)]
    } else {
        decimal(n / 10).push(digit_char(n % 10))
    }
}

fn digit(d: u16) -> (c: char)
    requires
        d < 10,
    ensures
        c == digit_char(d as nat),
{
    if d == 0 {
        '0'
    } else if d == 1 {
        '1'
    } else if d == 2 {
        '2'
    } else if d == 3 {
        '3'
    } else if d == 4 {
        '4'
    } else if d == 5 {
        '5'
    } else if d == 6 {
        '6'
    } else if d == 7 {
        '7'
    } else if d == 8 {
        '8'
    } else {
        '9'
    }
}

/// Appends `n` in decimal to `out`.
pub fn push_decimal(out: &mut Vec<char>, n: u16)
    ensures
        final(out)@ == old(out)@ + decimal(n as nat),
    decreases n,
{
    if n >= 10 {
        push_decimal(out, n / 10);
    }
    out.push(digit(n % 10));
    proof {
        if n >= 10 {
            assert(old(out)@ + decimal((n / 10) as nat).push(digit_char((n % 10) as nat)) == (old(
                out,
            )@ + decimal((n / 10) as nat)).push(digit_char((n % 10) as nat)));
        } else {
            assert(old(out)@ + seq![digit_char(n as nat)] == old(out)@.push(digit_char(n as nat)));
        }
    }
}

// ---------------------------------------------------------------------------
// Shapes
// ---------------------------------------------------------------------------

/// The view of a text that may be missing.
pub open spec fn text_view(text: Option<String>) -> Option<Seq<char>> {
    match text {
        Some(t) => Some(t@),
        None => None,
    }
}

/// Whether `c` may stand where a shape holds `k`: a digit for `9`, a capital
/// letter of ASCII for `A`, a small one for `a`, a sign for `+`, and for
/// every other `k` that character itself.
pub open spec fn char_fits(c: char, k: char) -> bool {
    if k == '9' {
        '0' <= c <= '9'
    } else if k == 'A' {
        'A' <= c <= 'Z'
    } else if k == 'a' {
        'a' <= c <= 'z'
    } else if k == '+' {
        c == '+' || c == '-'
    } else {
        c == k
    }
}

/// `s` has the shape `shape`: the same length, and each character may stand
/// where it stands.
pub open spec fn fits_shape(s: Seq<char>, shape: Seq<char>) -> bool {
    &&& s.len() == shape.len()
    &&& forall|i: int| 0 <= i < s.len() ==> #[trigger] char_fits(s[i], shape[i])
}

/// Whether `text` has the shape `shape`.
pub fn has_shape(text: &str, shape: &str) -> (r: bool)
    ensures
        r == fits_shape(text@, shape@),
{
    let s = chars_of(text);
    let k = chars_of(shape);
    if s.len() != k.len() {
        return false;
    }
    let mut i: usize = 0;
    while i < s.len()
        invariant
            i <= s.len(),
            s.len() == k.len(),
            s@ == text@,
            k@ == shape@,
            forall|j: int| 0 <= j < i ==> #[trigger] char_fits(s@[j], k@[j]),
        decreases s.len() - i,
    {
        let c = s[i];
        let want = k[i];
        let fits = if want == '9' {
            c >= '0' && c <= '9'
        } else if want == 'A' {
            c >= 'A' && c <= 'Z'
        } else if want == 'a' {
            c >= 'a' && c <= 'z'
        } else if want == '+' {
            c == '+' || c == '-'
        } else {
            c == want
        };
        if !fits {
            assert(!char_fits(s@[i as int], k@[i as int]));
            return false;
        }
        i += 1;
    }
    true
}

// ---------------------------------------------------------------------------
// Terminal escape sequences
// ---------------------------------------------------------------------------

/// A character that may stand between the opening and the end of an escape
/// sequence: a digit or a semicolon.
pub open spec fn is_param(c: char) -> bool {
    ('0' <= c <= '9') || c == ';'
}

/// Where the run of digits and semicolons that starts at `i` ends.
pub open spec fn params_end(s: Seq<char>, i: int) -> int
    decreases s.len() - i,
{
    if 0 <= i < s.len() && is_param(s[i]) {
        params_end(s, i + 1)
    } else {
        i
    }
}

/// Where the escape sequence that starts at `i` ends, or `i` where none
/// starts there. An escape sequence is the escape character, an opening
/// square bracket, digits and semicolons, and the letter `m`.
pub open spec fn sequence_end(s: Seq<char>, i: int) -> int {
    let e = params_end(s, i + 2);
    if 0 <= i && i + 1 < s.len() && s[i] == '\x1b' && s[i + 1] == '[' && e < s.len() && s[e]
        == 'm' {
        e + 1
    } else {
        i
    }
}

/// `s` from `i` on with each escape sequence dropped.
pub open spec fn strip_from(s: Seq<char>, i: int) -> Seq<char>
    decreases s.len() - i,
{
    if i < 0 || i >= s.len() {
        Seq::empty()
    } else {
        let e = sequence_end(s, i);
        if i < e <= s.len() {
            strip_from(s, e)
        } else {
            seq![s[i]] + strip_from(s, i + 1)
        }
    }
}

/// `s` with each escape sequence dropped, read from the left.
pub open spec fn without_escapes(s: Seq<char>) -> Seq<char> {
    strip_from(s, 0)
}

/// `s` holds no escape character.
pub open spec fn escape_free(s: Seq<char>) -> bool {
    forall|i: int| 0 <= i < s.len() ==> s[i] != '\x1b'
}

proof fn lemma_strip_keeps_escape_free(s: Seq<char>, i: int)
    requires
        escape_free(s),
        0 <= i <= s.len(),
    ensures
        strip_from(s, i) == s.skip(i),
    decreases s.len() - i,
{
    if i < s.len() {
        lemma_strip_keeps_escape_free(s, i + 1);
        assert(s[i] != '\x1b');
        assert(seq![s[i]] + s.skip(i + 1) =~= s.skip(i));
    } else {
        assert(s.skip(i) =~= Seq::<char>::empty());
    }
}

/// A text without an escape character stays as it is.
pub proof fn lemma_escape_free_is_kept(s: Seq<char>)
    requires
        escape_free(s),
    ensures
        without_escapes(s) == s,
{
    lemma_strip_keeps_escape_free(s, 0);
    assert(s.skip(0) =~= s);
}

/// Where the escape sequence that starts at `i` ends, or `i`.
fn find_sequence_end(s: &Vec<char>, i: usize) -> (e: usize)
    requires
        i < s.len(),
    ensures
        e == sequence_end(s@, i as int),
        i <= e <= s.len(),
{
    if s[i] != '\x1b' || i + 1 >= s.len() {
        return i;
    }
    if s[i + 1] != '[' {
        return i;
    }
    let mut j: usize = i + 2;
    while j < s.len() && ((s[j] >= '0' && s[j] <= '9') || s[j] == ';')
        invariant
            i + 2 <= j <= s.len(),
            params_end(s@, j as int) == params_end(s@, i + 2),
        decreases s.len() - j,
    {
        j += 1;
    }
    if j < s.len() && s[j] == 'm' {
        j + 1
    } else {
        i
    }
}

/// `text` with each escape sequence dropped.
pub fn strip_escapes(text: &str) -> (stripped: String)
    ensures
        stripped@ == without_escapes(text@),
{
    let s = chars_of(text);
    let mut out: Vec<char> = Vec::new();
    let mut i: usize = 0;
    while i < s.len()
        invariant
            i <= s.len(),
            s@ == text@,
            out@ + strip_from(s@, i as int) == without_escapes(s@),
        decreases s.len() - i,
    {
        let e = find_sequence_end(&s, i);
        if e > i {
            i = e;
        } else {
            let ghost before = out@;
            out.push(s[i]);
            assert(out@ + strip_from(s@, i + 1) =~= before + (seq![s@[i as int]] + strip_from(
                s@,
                i + 1,
            )));
            i += 1;
        }
    }
    assert(out@ + Seq::<char>::empty() =~= out@);
    string_of(&out)
}

} // verus!
