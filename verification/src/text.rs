//! Character-level text model: the subset of `str` behaviour (whitespace,
//! trimming, splitting, line breaking, searching, decimal numbers) that the
//! command-output and file parsers are written in.

use vstd::prelude::*;
use vstd::std_specs::iter::IteratorSpec;

verus! {

broadcast use vstd::string::group_string_axioms;

// ---------------------------------------------------------------------------
// Whitespace
// ---------------------------------------------------------------------------

/// The Unicode `White_Space` property, which `char::is_whitespace` follows.
pub open spec fn is_ws(c: char) -> bool {
    let u = c as u32;
    ||| 0x09 <= u <= 0x0D
    ||| u == 0x20
    ||| u == 0x85
    ||| u == 0xA0
    ||| u == 0x1680
    ||| 0x2000 <= u <= 0x200A
    ||| u == 0x2028
    ||| u == 0x2029
    ||| u == 0x202F
    ||| u == 0x205F
    ||| u == 0x3000
}

pub fn is_ws_char(c: char) -> (r: bool)
    ensures
        r == is_ws(c),
{
    let u = c as u32;
    (0x09 <= u && u <= 0x0D) || u == 0x20 || u == 0x85 || u == 0xA0 || u == 0x1680 || (0x2000
        <= u && u <= 0x200A) || u == 0x2028 || u == 0x2029 || u == 0x202F || u == 0x205F || u
        == 0x3000
}

// ---------------------------------------------------------------------------
// Conversions between `str`/`String` and character vectors
// ---------------------------------------------------------------------------

/// The characters of `s`, in order.
pub fn chars_of(s: &str) -> (v: Vec<char>)
    ensures
        v@ == s@,
{
    let mut v: Vec<char> = Vec::new();
    for c in it: s.chars()
        invariant
            it.seq() == s@,
            v@ == s@.take(it.index()),
    {
        assert(s@.take(it.index()).push(c) =~= s@.take(it.index() + 1));
        v.push(c);
    }
    assert(v@ =~= s@);
    v
}

/// An owned copy of `s`.
pub fn owned(s: &str) -> (r: String)
    ensures
        r@ == s@,
{
    s.to_owned()
}

#[verifier::external_body]
fn push_char(s: &mut String, c: char)
    ensures
        final(s)@ == old(s)@.push(c),
{
    s.push(c);
}

/// A `String` holding exactly the characters `cs`.
pub fn string_of(cs: &[char]) -> (s: String)
    ensures
        s@ == cs@,
{
    let mut s = String::new();
    let mut i: usize = 0;
    while i < cs.len()
        invariant
            i <= cs@.len(),
            s@ == cs@.take(i as int),
        decreases cs@.len() - i,
    {
        push_char(&mut s, cs[i]);
        assert(cs@.take(i as int).push(cs@[i as int]) =~= cs@.take(i + 1));
        i += 1;
    }
    assert(cs@.take(cs@.len() as int) =~= cs@);
    s
}


/// Character slices equal as sequences.
pub fn chars_eq(a: &[char], b: &[char]) -> (r: bool)
    ensures
        r == (a@ == b@),
{
    if a.len() != b.len() {
        return false;
    }
    let mut i: usize = 0;
    while i < a.len()
        invariant
            a@.len() == b@.len(),
            i <= a@.len(),
            forall|k: int| 0 <= k < i ==> a@[k] == b@[k],
        decreases a@.len() - i,
    {
        if a[i] != b[i] {
            return false;
        }
        i += 1;
    }
    assert(a@ =~= b@);
    true
}

/// `&str` equality.
pub fn str_eq(a: &str, b: &str) -> (r: bool)
    ensures
        r == (a@ == b@),
{
    let x = chars_of(a);
    let y = chars_of(b);
    chars_eq(x.as_slice(), y.as_slice())
}

// ---------------------------------------------------------------------------
// Spans of a character slice
// ---------------------------------------------------------------------------

/// A half-open range `[start, end)` of character positions.
#[derive(Clone, Copy, Debug, PartialEq, Eq)]
pub struct Span {
    pub start: usize,
    pub end: usize,
}

pub open spec fn piece(s: Seq<char>, sp: Span) -> Seq<char> {
    s.subrange(sp.start as int, sp.end as int)
}

/// The pieces of `s` that `spans` delimit.
pub open spec fn pieces(s: Seq<char>, spans: Seq<Span>) -> Seq<Seq<char>> {
    Seq::new(spans.len(), |k: int| piece(s, spans[k]))
}

pub open spec fn span_in(sp: Span, from: int, to: int) -> bool {
    from <= sp.start <= sp.end <= to
}

/// The characters of `s` in positions `[from, to)`, as a vector.
pub fn copy_range(s: &[char], from: usize, to: usize) -> (v: Vec<char>)
    requires
        from <= to <= s@.len(),
    ensures
        v@ == s@.subrange(from as int, to as int),
{
    let mut v: Vec<char> = Vec::new();
    let mut i = from;
    while i < to
        invariant
            from <= i <= to <= s@.len(),
            v@ == s@.subrange(from as int, i as int),
        decreases to - i,
    {
        v.push(s[i]);
        assert(s@.subrange(from as int, i as int).push(s@[i as int]) =~= s@.subrange(
            from as int,
            i + 1,
        ));
        i += 1;
    }
    v
}

/// The characters of `s` in positions `[from, to)`, as a `String`.
pub fn string_range(s: &[char], from: usize, to: usize) -> (r: String)
    requires
        from <= to <= s@.len(),
    ensures
        r@ == s@.subrange(from as int, to as int),
{
    let v = copy_range(s, from, to);
    string_of(v.as_slice())
}

// ---------------------------------------------------------------------------
// Trimming
// ---------------------------------------------------------------------------

/// `str::trim_start`: drops leading whitespace.
pub open spec fn trim_start(s: Seq<char>) -> Seq<char>
    decreases s.len(),
{
    if s.len() > 0 && is_ws(s[0]) {
        trim_start(s.drop_first())
    } else {
        s
    }
}

/// `str::trim_end`: drops trailing whitespace.
pub open spec fn trim_end(s: Seq<char>) -> Seq<char>
    decreases s.len(),
{
    if s.len() > 0 && is_ws(s.last()) {
        trim_end(s.drop_last())
    } else {
        s
    }
}

/// `str::trim`: drops whitespace at both ends.
pub open spec fn trim(s: Seq<char>) -> Seq<char> {
    trim_end(trim_start(s))
}

/// The span of `s[from..to]` left after trimming whitespace at both ends.
pub fn trim_span(s: &[char], from: usize, to: usize) -> (r: Span)
    requires
        from <= to <= s@.len(),
    ensures
        span_in(r, from as int, to as int),
        piece(s@, r) == trim(s@.subrange(from as int, to as int)),
{
    let mut i = from;
    while i < to && is_ws_char(s[i])
        invariant
            from <= i <= to <= s@.len(),
            trim_start(s@.subrange(from as int, to as int)) == trim_start(
                s@.subrange(i as int, to as int),
            ),
        decreases to - i,
    {
        assert(s@.subrange(i as int, to as int).drop_first() =~= s@.subrange(i + 1, to as int));
        i += 1;
    }
    let mut j = to;
    while j > i && is_ws_char(s[j - 1])
        invariant
            from <= i <= j <= to <= s@.len(),
            trim_end(s@.subrange(i as int, to as int)) == trim_end(
                s@.subrange(i as int, j as int),
            ),
        decreases j - i,
    {
        assert(s@.subrange(i as int, j as int).drop_last() =~= s@.subrange(i as int, j - 1));
        j -= 1;
    }
    Span { start: i, end: j }
}

// ---------------------------------------------------------------------------
// Splitting
// ---------------------------------------------------------------------------

/// `str::split(d)`: the pieces between occurrences of `d` (always at least one).
pub open spec fn split(s: Seq<char>, d: char) -> Seq<Seq<char>>
    decreases s.len(),
{
    if s.len() == 0 {
        seq![Seq::<char>::empty()]
    } else {
        let r = split(s.drop_last(), d);
        if s.last() == d {
            r.push(Seq::<char>::empty())
        } else {
            r.update(r.len() - 1, r.last().push(s.last()))
        }
    }
}

pub proof fn lemma_split_nonempty(s: Seq<char>, d: char)
    ensures
        split(s, d).len() >= 1,
    decreases s.len(),
{
    if s.len() > 0 {
        lemma_split_nonempty(s.drop_last(), d);
    }
}

/// Spans of the pieces of `s[from..to]` split at `d`.
pub fn split_spans(s: &[char], from: usize, to: usize, d: char) -> (r: Vec<Span>)
    requires
        from <= to <= s@.len(),
    ensures
        r@.len() == split(s@.subrange(from as int, to as int), d).len(),
        forall|k: int|
            0 <= k < r@.len() ==> span_in(#[trigger] r@[k], from as int, to as int) && piece(
                s@,
                r@[k],
            ) == split(s@.subrange(from as int, to as int), d)[k],
        pieces(s@, r@) == split(s@.subrange(from as int, to as int), d),
{
    let mut r: Vec<Span> = Vec::new();
    let mut cur = from;
    let mut i = from;
    assert(s@.subrange(from as int, from as int) =~= Seq::<char>::empty());
    while i < to
        invariant
            from <= cur <= i <= to <= s@.len(),
            split(s@.subrange(from as int, i as int), d).len() == r@.len() + 1,
            forall|k: int|
                0 <= k < r@.len() ==> span_in(#[trigger] r@[k], from as int, i as int) && piece(
                    s@,
                    r@[k],
                ) == split(s@.subrange(from as int, i as int), d)[k],
            split(s@.subrange(from as int, i as int), d)[r@.len() as int] == s@.subrange(
                cur as int,
                i as int,
            ),
        decreases to - i,
    {
        let ghost old_r = r@;
        let ghost prev = split(s@.subrange(from as int, i as int), d);
        assert(s@.subrange(from as int, i + 1).drop_last() =~= s@.subrange(from as int, i as int));
        if s[i] == d {
            r.push(Span { start: cur, end: i });
            cur = i + 1;
            assert(s@.subrange(cur as int, i + 1) =~= Seq::<char>::empty());
        } else {
            assert(s@.subrange(cur as int, i as int).push(s@[i as int]) =~= s@.subrange(
                cur as int,
                i + 1,
            ));
        }
        i += 1;
        assert forall|k: int| 0 <= k < r@.len() implies span_in(
            #[trigger] r@[k],
            from as int,
            i as int,
        ) && piece(s@, r@[k]) == split(s@.subrange(from as int, i as int), d)[k] by {
            if k < old_r.len() {
                assert(r@[k] == old_r[k]);
            }
        }
    }
    r.push(Span { start: cur, end: to });
    assert(pieces(s@, r@) =~= split(s@.subrange(from as int, to as int), d));
    r
}

/// `str::lines`: pieces between `\n`, a `\r` before each `\n` removed, and
/// no final empty piece.
pub open spec fn strip_cr(p: Seq<char>) -> Seq<char> {
    if p.len() > 0 && p.last() == '\r' {
        p.drop_last()
    } else {
        p
    }
}

pub open spec fn lines(s: Seq<char>) -> Seq<Seq<char>> {
    let p = split(s, '\n');
    let n = p.len() as int;
    let k = if p[n - 1].len() == 0 {
        n - 1
    } else {
        n
    };
    Seq::new(
        k as nat,
        |i: int|
            if i < n - 1 {
                strip_cr(p[i])
            } else {
                p[i]
            },
    )
}

/// Spans of the lines of `s[from..to]`.
pub fn line_spans(s: &[char], from: usize, to: usize) -> (r: Vec<Span>)
    requires
        from <= to <= s@.len(),
    ensures
        r@.len() == lines(s@.subrange(from as int, to as int)).len(),
        forall|k: int|
            0 <= k < r@.len() ==> span_in(#[trigger] r@[k], from as int, to as int) && piece(
                s@,
                r@[k],
            ) == lines(s@.subrange(from as int, to as int))[k],
        pieces(s@, r@) == lines(s@.subrange(from as int, to as int)),
{
    let p = split_spans(s, from, to, '\n');
    let ghost sp = split(s@.subrange(from as int, to as int), '\n');
    proof {
        lemma_split_nonempty(s@.subrange(from as int, to as int), '\n');
    }
    let n = p.len();
    let k = if p[n - 1].start == p[n - 1].end {
        n - 1
    } else {
        n
    };
    let ghost ls = lines(s@.subrange(from as int, to as int));
    assert(ls.len() == k);
    let mut r: Vec<Span> = Vec::new();
    let mut idx: usize = 0;
    while idx < k
        invariant
            k <= n == p@.len() == sp.len(),
            ls.len() == k,
            idx <= k,
            r@.len() == idx,
            forall|q: int|
                0 <= q < p@.len() ==> span_in(#[trigger] p@[q], from as int, to as int) && piece(
                    s@,
                    p@[q],
                ) == sp[q],
            ls == lines(s@.subrange(from as int, to as int)),
            sp == split(s@.subrange(from as int, to as int), '\n'),
            from <= to <= s@.len(),
            forall|q: int|
                0 <= q < r@.len() ==> span_in(#[trigger] r@[q], from as int, to as int) && piece(
                    s@,
                    r@[q],
                ) == ls[q],
        decreases k - idx,
    {
        let sp_i = p[idx];
        assert(piece(s@, p@[idx as int]) == sp[idx as int]);
        if idx + 1 < n && sp_i.start < sp_i.end && s[sp_i.end - 1] == '\r' {
            let t = Span { start: sp_i.start, end: sp_i.end - 1 };
            assert(piece(s@, t) =~= piece(s@, sp_i).drop_last());
            r.push(t);
        } else {
            r.push(sp_i);
        }
        idx += 1;
    }
    assert(pieces(s@, r@) =~= ls);
    r
}

/// `str::split_whitespace`: the maximal runs of non-whitespace characters.
pub open spec fn words(s: Seq<char>) -> Seq<Seq<char>>
    decreases s.len(),
{
    if s.len() == 0 {
        Seq::empty()
    } else {
        let r = words(s.drop_last());
        let c = s.last();
        if is_ws(c) {
            r
        } else if s.len() >= 2 && !is_ws(s[s.len() - 2]) {
            r.update(r.len() - 1, r.last().push(c))
        } else {
            r.push(seq![c])
        }
    }
}

pub proof fn lemma_words_open(s: Seq<char>)
    ensures
        s.len() > 0 && !is_ws(s.last()) ==> words(s).len() >= 1,
    decreases s.len(),
{
    if s.len() > 0 {
        lemma_words_open(s.drop_last());
    }
}

/// Spans of the whitespace-separated words of `s[from..to]`.
pub fn word_spans(s: &[char], from: usize, to: usize) -> (r: Vec<Span>)
    requires
        from <= to <= s@.len(),
    ensures
        r@.len() == words(s@.subrange(from as int, to as int)).len(),
        forall|k: int|
            0 <= k < r@.len() ==> span_in(#[trigger] r@[k], from as int, to as int) && piece(
                s@,
                r@[k],
            ) == words(s@.subrange(from as int, to as int))[k],
        pieces(s@, r@) == words(s@.subrange(from as int, to as int)),
{
    let mut r: Vec<Span> = Vec::new();
    let mut open = false;
    let mut start = from;
    let mut i = from;
    assert(s@.subrange(from as int, from as int) =~= Seq::<char>::empty());
    while i < to
        invariant
            from <= start <= i <= to <= s@.len(),
            open ==> i > from && !is_ws(s@[i - 1]),
            !open ==> i == from || is_ws(s@[i - 1]),
            words(s@.subrange(from as int, i as int)).len() == r@.len() + (if open {
                1int
            } else {
                0int
            }),
            forall|k: int|
                0 <= k < r@.len() ==> span_in(#[trigger] r@[k], from as int, i as int) && piece(
                    s@,
                    r@[k],
                ) == words(s@.subrange(from as int, i as int))[k],
            open ==> words(s@.subrange(from as int, i as int))[r@.len() as int]
                == s@.subrange(start as int, i as int),
        decreases to - i,
    {
        let ghost old_r = r@;
        let ghost t = s@.subrange(from as int, i + 1);
        assert(t.drop_last() =~= s@.subrange(from as int, i as int));
        assert(t.last() == s@[i as int]);
        if is_ws_char(s[i]) {
            if open {
                r.push(Span { start: start, end: i });
                open = false;
            }
        } else {
            if open {
                assert(t.len() >= 2 && t[t.len() - 2] == s@[i - 1]);
                assert(s@.subrange(start as int, i as int).push(s@[i as int]) =~= s@.subrange(
                    start as int,
                    i + 1,
                ));
            } else {
                assert(i > from ==> t[t.len() - 2] == s@[i - 1]);
                start = i;
                open = true;
                assert(s@.subrange(start as int, i + 1) =~= seq![s@[i as int]]);
            }
        }
        i += 1;
        assert forall|k: int| 0 <= k < r@.len() implies span_in(
            #[trigger] r@[k],
            from as int,
            i as int,
        ) && piece(s@, r@[k]) == words(s@.subrange(from as int, i as int))[k] by {
            if k < old_r.len() {
                assert(r@[k] == old_r[k]);
            }
        }
    }
    if open {
        r.push(Span { start: start, end: to });
    }
    assert(pieces(s@, r@) =~= words(s@.subrange(from as int, to as int)));
    r
}


// ---------------------------------------------------------------------------
// Searching
// ---------------------------------------------------------------------------

/// `pat` occurs in `s` at position `i`.
pub open spec fn occurs_at(s: Seq<char>, pat: Seq<char>, i: int) -> bool {
    0 <= i && i + pat.len() <= s.len() && s.subrange(i, i + pat.len()) == pat
}

/// `str::contains` for a string pattern.
pub open spec fn contains(s: Seq<char>, pat: Seq<char>) -> bool {
    exists|i: int| occurs_at(s, pat, i)
}

/// `str::starts_with` for a string pattern.
pub open spec fn starts_with(s: Seq<char>, pat: Seq<char>) -> bool {
    occurs_at(s, pat, 0)
}

/// `str::ends_with` for a string pattern.
pub open spec fn ends_with(s: Seq<char>, pat: Seq<char>) -> bool {
    occurs_at(s, pat, s.len() - pat.len())
}

/// The position of the first occurrence of `pat` in `s` (`str::find`, counted in characters).
#[verifier::opaque]
pub open spec fn first_occurrence(s: Seq<char>, pat: Seq<char>) -> Option<int> {
    if contains(s, pat) {
        Some(choose|i: int| occurs_at(s, pat, i) && forall|j: int| 0 <= j < i ==> !occurs_at(s, pat, j))
    } else {
        None
    }
}

/// Whether `pat` occurs in `s` at absolute position `i`, looking only inside `s[from..to]`.
pub fn occurs_at_exec(s: &[char], from: usize, to: usize, pat: &[char], i: usize) -> (r: bool)
    requires
        from <= to <= s@.len(),
    ensures
        r == occurs_at(s@.subrange(from as int, to as int), pat@, i - from),
{
    if i < from || i > to || to - i < pat.len() {
        return false;
    }
    let mut k: usize = 0;
    while k < pat.len()
        invariant
            from <= i <= to <= s@.len(),
            i + pat@.len() <= to,
            k <= pat@.len(),
            forall|q: int| 0 <= q < k ==> s@[i + q] == pat@[q],
        decreases pat@.len() - k,
    {
        if s[i + k] != pat[k] {
            assert(s@.subrange(from as int, to as int).subrange(i - from, i - from + pat@.len())[k as int] != pat@[k as int]);
            return false;
        }
        k += 1;
    }
    assert(s@.subrange(from as int, to as int).subrange(i - from, i - from + pat@.len()) =~= pat@);
    true
}

/// `str::find` on `s[from..to]`: the absolute position of the first occurrence of `pat`.
pub fn find_in(s: &[char], from: usize, to: usize, pat: &[char]) -> (r: Option<usize>)
    requires
        from <= to <= s@.len(),
    ensures
        r matches Some(i) ==> from <= i && first_occurrence(s@.subrange(from as int, to as int), pat@) == Some(i - from)
            && occurs_at(s@.subrange(from as int, to as int), pat@, i - from),
        r is None ==> first_occurrence(s@.subrange(from as int, to as int), pat@) is None,
        r is Some <==> contains(s@.subrange(from as int, to as int), pat@),
{
    reveal(first_occurrence);
    let ghost t = s@.subrange(from as int, to as int);
    let mut i = from;
    while i <= to
        invariant
            from <= i <= to + 1,
            to <= s@.len(),
            t == s@.subrange(from as int, to as int),
            forall|j: int| 0 <= j < i - from ==> !occurs_at(t, pat@, j),
        decreases to + 1 - i,
    {
        proof {
            reveal(first_occurrence);
        }
        if occurs_at_exec(s, from, to, pat, i) {
            proof {
                let j0 = (i - from) as int;
                assert(occurs_at(t, pat@, j0));
                assert(contains(t, pat@));
                let c = choose|q: int| occurs_at(t, pat@, q) && forall|j: int| 0 <= j < q ==> !occurs_at(t, pat@, j);
                assert(occurs_at(t, pat@, c) && forall|j: int| 0 <= j < c ==> !occurs_at(t, pat@, j));
                if c < j0 {
                    assert(!occurs_at(t, pat@, c));
                } else if c > j0 {
                    assert(!occurs_at(t, pat@, j0));
                }
            }
            return Some(i);
        }
        if i == to {
            assert forall|j: int| occurs_at(t, pat@, j) implies false by {
                assert(j < i + 1 - from);
            }
            return None;
        }
        i += 1;
    }
    None
}

/// `str::contains` on `s[from..to]`.
pub fn contains_in(s: &[char], from: usize, to: usize, pat: &[char]) -> (r: bool)
    requires
        from <= to <= s@.len(),
    ensures
        r == contains(s@.subrange(from as int, to as int), pat@),
{
    find_in(s, from, to, pat).is_some()
}

/// `str::starts_with` on `s[from..to]`.
pub fn starts_with_in(s: &[char], from: usize, to: usize, pat: &[char]) -> (r: bool)
    requires
        from <= to <= s@.len(),
    ensures
        r == starts_with(s@.subrange(from as int, to as int), pat@),
{
    occurs_at_exec(s, from, to, pat, from)
}

// ---------------------------------------------------------------------------
// Decimal numbers
// ---------------------------------------------------------------------------

pub open spec fn is_digit(c: char) -> bool {
    '0' <= c <= '9'
}

pub open spec fn digit_value(c: char) -> int {
    (c as u32) as int - 48
}

pub open spec fn all_digits(s: Seq<char>) -> bool {
    forall|i: int| 0 <= i < s.len() ==> is_digit(#[trigger] s[i])
}

/// The value of a string of decimal digits.
pub open spec fn dec_value(s: Seq<char>) -> int
    decreases s.len(),
{
    if s.len() == 0 {
        0
    } else {
        dec_value(s.drop_last()) * 10 + digit_value(s.last())
    }
}

/// `<u64 as FromStr>::from_str`: an optional `+`, then one or more decimal
/// digits whose value fits in 64 bits.
pub open spec fn parse_u64_spec(s: Seq<char>) -> Option<u64> {
    let body = if s.len() > 0 && s[0] == '+' {
        s.drop_first()
    } else {
        s
    };
    if body.len() > 0 && all_digits(body) && dec_value(body) <= u64::MAX {
        Some(dec_value(body) as u64)
    } else {
        None
    }
}

/// `<u32 as FromStr>::from_str`: the same grammar, with a 32-bit bound.
pub open spec fn parse_u32_spec(s: Seq<char>) -> Option<u32> {
    match parse_u64_spec(s) {
        Some(v) => if v <= u32::MAX {
            Some(v as u32)
        } else {
            None
        },
        None => None,
    }
}

pub proof fn lemma_dec_value_prefix(s: Seq<char>, k: int)
    requires
        all_digits(s),
        0 <= k <= s.len(),
    ensures
        0 <= dec_value(s.take(k)) <= dec_value(s),
    decreases s.len(),
{
    if s.len() > 0 {
        assert(all_digits(s.drop_last())) by {
            assert forall|i: int| 0 <= i < s.drop_last().len() implies is_digit(#[trigger] s.drop_last()[i]) by {
                assert(s.drop_last()[i] == s[i]);
            }
        }
        if k == s.len() {
            assert(s.take(k) =~= s);
            lemma_dec_value_prefix(s.drop_last(), k - 1);
        } else {
            assert(s.drop_last().take(k) =~= s.take(k));
            lemma_dec_value_prefix(s.drop_last(), k);
            lemma_dec_value_prefix(s.drop_last(), s.len() - 1);
            assert(s.drop_last().take(s.len() - 1) =~= s.drop_last());
            assert(is_digit(s.last()));
        }
    } else {
        assert(s.take(k) =~= s);
    }
}

/// Parses `s[from..to]` as a `u64` exactly as `str::parse::<u64>` does.
pub fn parse_u64(s: &[char], from: usize, to: usize) -> (r: Option<u64>)
    requires
        from <= to <= s@.len(),
    ensures
        r == parse_u64_spec(s@.subrange(from as int, to as int)),
{
    let ghost t = s@.subrange(from as int, to as int);
    let b = if from < to && s[from] == '+' {
        from + 1
    } else {
        from
    };
    let ghost body = s@.subrange(b as int, to as int);
    assert(body =~= (if t.len() > 0 && t[0] == '+' {
        t.drop_first()
    } else {
        t
    }));
    if b == to {
        return None;
    }
    let mut v: u64 = 0;
    let mut i = b;
    assert(s@.subrange(b as int, b as int) =~= Seq::<char>::empty());
    while i < to
        invariant
            b <= i <= to <= s@.len(),
            from <= b,
            t == s@.subrange(from as int, to as int),
            body == s@.subrange(b as int, to as int),
            body == (if t.len() > 0 && t[0] == '+' {
                t.drop_first()
            } else {
                t
            }),
            all_digits(s@.subrange(b as int, i as int)),
            v == dec_value(s@.subrange(b as int, i as int)),
        decreases to - i,
    {
        let c = s[i];
        let ghost next = s@.subrange(b as int, i + 1);
        assert(next.drop_last() =~= s@.subrange(b as int, i as int));
        if !('0' <= c && c <= '9') {
            assert(!is_digit(body[i - b]));
            return None;
        }
        let d = (c as u32 - 48) as u64;
        assert(next.last() == c);
        assert(dec_value(next) == v * 10 + d);
        assert(all_digits(next)) by {
            assert forall|q: int| 0 <= q < next.len() implies is_digit(#[trigger] next[q]) by {
                if q < next.len() - 1 {
                    assert(next[q] == s@.subrange(b as int, i as int)[q]);
                }
            }
        }
        match v.checked_mul(10) {
            Some(m) => match m.checked_add(d) {
                Some(nv) => {
                    v = nv;
                },
                None => {
                    proof {
                        if all_digits(body) {
                            assert(body.take(i + 1 - b) =~= next);
                            lemma_dec_value_prefix(body, i + 1 - b);
                        }
                    }
                    return None;
                },
            },
            None => {
                proof {
                    if all_digits(body) {
                        assert(body.take(i + 1 - b) =~= next);
                        lemma_dec_value_prefix(body, i + 1 - b);
                    }
                }
                return None;
            },
        }
        i += 1;
    }
    Some(v)
}

/// Parses `s[from..to]` as a `u32` exactly as `str::parse::<u32>` does.
pub fn parse_u32(s: &[char], from: usize, to: usize) -> (r: Option<u32>)
    requires
        from <= to <= s@.len(),
    ensures
        r == parse_u32_spec(s@.subrange(from as int, to as int)),
{
    match parse_u64(s, from, to) {
        Some(v) => if v <= 0xFFFF_FFFF {
            Some(v as u32)
        } else {
            None
        },
        None => None,
    }
}

pub open spec fn digit_char(d: int) -> char {
    (d + 48) as char
}

/// The decimal rendering of `n`, as `u64::to_string` produces it.
pub open spec fn decimal(n: nat) -> Seq<char>
    decreases n,
{
    if n < 10 {
        seq![digit_char(n as int)]
    } else {
        decimal(n / 10).push(digit_char((n % 10) as int))
    }
}

/// Appends the decimal rendering of `n` to `out`.
pub fn push_decimal(out: &mut Vec<char>, n: u64)
    ensures
        final(out)@ == old(out)@ + decimal(n as nat),
    decreases n,
{
    if n >= 10 {
        push_decimal(out, n / 10);
    }
    let d = (n % 10) as u8;
    let c = (48u8 + d) as char;
    assert(c == digit_char((n % 10) as int));
    out.push(c);
    proof {
        if n >= 10 {
            assert(decimal(n as nat) == decimal((n / 10) as nat).push(digit_char((n % 10) as int)));
        } else {
            assert(decimal(n as nat) == seq![digit_char(n as int)]);
        }
    }
    assert(final(out)@ =~= old(out)@ + decimal(n as nat));
}

/// Appends the characters of `s` to `out`.
pub fn push_str(out: &mut Vec<char>, s: &str)
    ensures
        final(out)@ == old(out)@ + s@,
{
    let cs = chars_of(s);
    let mut i: usize = 0;
    let ghost start = out@;
    while i < cs.len()
        invariant
            i <= cs@.len(),
            cs@ == s@,
            out@ == start + cs@.take(i as int),
        decreases cs@.len() - i,
    {
        out.push(cs[i]);
        assert(start + cs@.take(i as int).push(cs@[i as int]) =~= start + cs@.take(i + 1));
        i += 1;
    }
    assert(cs@.take(cs@.len() as int) =~= cs@);
}

/// Appends `s[from..to]` to `out`.
pub fn push_range(out: &mut Vec<char>, s: &[char], from: usize, to: usize)
    requires
        from <= to <= s@.len(),
    ensures
        final(out)@ == old(out)@ + s@.subrange(from as int, to as int),
{
    let mut i = from;
    let ghost start = out@;
    while i < to
        invariant
            from <= i <= to <= s@.len(),
            out@ == start + s@.subrange(from as int, i as int),
        decreases to - i,
    {
        out.push(s[i]);
        assert(start + s@.subrange(from as int, i as int).push(s@[i as int]) =~= start
            + s@.subrange(from as int, i + 1));
        i += 1;
    }
}


// ---------------------------------------------------------------------------
// Searching among pieces
// ---------------------------------------------------------------------------

/// `Iterator::position`: the index of the first piece satisfying `f`.
pub open spec fn first_where(ls: Seq<Seq<char>>, f: spec_fn(Seq<char>) -> bool) -> Option<int> {
    if exists|k: int| 0 <= k < ls.len() && f(ls[k]) {
        Some(
            choose|k: int|
                0 <= k < ls.len() && f(ls[k]) && forall|j: int| 0 <= j < k ==> !f(ls[j]),
        )
    } else {
        None
    }
}

/// The predicate "starts with `pat`".
pub open spec fn starts_pred(pat: Seq<char>) -> spec_fn(Seq<char>) -> bool {
    |l: Seq<char>| starts_with(l, pat)
}

/// The predicate "contains `pat`".
pub open spec fn contains_pred(pat: Seq<char>) -> spec_fn(Seq<char>) -> bool {
    |l: Seq<char>| contains(l, pat)
}

pub proof fn lemma_first_where_found(ls: Seq<Seq<char>>, f: spec_fn(Seq<char>) -> bool, k: int)
    requires
        0 <= k < ls.len(),
        f(ls[k]),
        forall|j: int| 0 <= j < k ==> !f(ls[j]),
    ensures
        first_where(ls, f) == Some(k),
{
    let c = choose|c: int|
        0 <= c < ls.len() && f(ls[c]) && forall|j: int| 0 <= j < c ==> !f(ls[j]);
    assert(0 <= c < ls.len() && f(ls[c]) && forall|j: int| 0 <= j < c ==> !f(ls[j]));
    if c < k {
        assert(!f(ls[c]));
    } else if c > k {
        assert(!f(ls[k]));
    }
}

pub proof fn lemma_first_where_none(ls: Seq<Seq<char>>, f: spec_fn(Seq<char>) -> bool)
    requires
        forall|j: int| 0 <= j < ls.len() ==> !f(ls[j]),
    ensures
        first_where(ls, f) is None,
{
}

/// The first of `spans` whose piece starts with `pat`.
pub fn first_span_starting_with(s: &[char], spans: &[Span], pat: &[char]) -> (r: Option<usize>)
    requires
        forall|k: int| 0 <= k < spans@.len() ==> span_in(#[trigger] spans@[k], 0, s@.len() as int),
    ensures
        r matches Some(k) ==> first_where(pieces(s@, spans@), starts_pred(pat@)) == Some(k as int),
        r is None ==> first_where(pieces(s@, spans@), starts_pred(pat@)) is None,
        r matches Some(k) ==> k < spans@.len() && starts_with(piece(s@, spans@[k as int]), pat@),
{
    let ghost ls = pieces(s@, spans@);
    let ghost f = starts_pred(pat@);
    let mut i: usize = 0;
    while i < spans.len()
        invariant
            i <= spans@.len(),
            ls == pieces(s@, spans@),
            f == starts_pred(pat@),
            forall|k: int| 0 <= k < spans@.len() ==> span_in(#[trigger] spans@[k], 0, s@.len() as int),
            forall|j: int| 0 <= j < i ==> !f(ls[j]),
        decreases spans@.len() - i,
    {
        let sp = spans[i];
        assert(span_in(spans@[i as int], 0, s@.len() as int));
        if starts_with_in(s, sp.start, sp.end, pat) {
            proof {
                lemma_first_where_found(ls, f, i as int);
            }
            return Some(i);
        }
        i += 1;
    }
    proof {
        lemma_first_where_none(ls, f);
    }
    None
}

/// The first of `spans` whose piece contains `pat`.
pub fn first_span_containing(s: &[char], spans: &[Span], pat: &[char]) -> (r: Option<usize>)
    requires
        forall|k: int| 0 <= k < spans@.len() ==> span_in(#[trigger] spans@[k], 0, s@.len() as int),
    ensures
        r matches Some(k) ==> first_where(pieces(s@, spans@), contains_pred(pat@)) == Some(k as int),
        r is None ==> first_where(pieces(s@, spans@), contains_pred(pat@)) is None,
        r matches Some(k) ==> k < spans@.len() && contains(piece(s@, spans@[k as int]), pat@),
{
    let ghost ls = pieces(s@, spans@);
    let ghost f = contains_pred(pat@);
    let mut i: usize = 0;
    while i < spans.len()
        invariant
            i <= spans@.len(),
            ls == pieces(s@, spans@),
            f == contains_pred(pat@),
            forall|k: int| 0 <= k < spans@.len() ==> span_in(#[trigger] spans@[k], 0, s@.len() as int),
            forall|j: int| 0 <= j < i ==> !f(ls[j]),
        decreases spans@.len() - i,
    {
        let sp = spans[i];
        assert(span_in(spans@[i as int], 0, s@.len() as int));
        if contains_in(s, sp.start, sp.end, pat) {
            proof {
                lemma_first_where_found(ls, f, i as int);
            }
            return Some(i);
        }
        i += 1;
    }
    proof {
        lemma_first_where_none(ls, f);
    }
    None
}

/// `str::trim_end_matches(c)` for a single character.
pub open spec fn trim_end_char(s: Seq<char>, c: char) -> Seq<char>
    decreases s.len(),
{
    if s.len() > 0 && s.last() == c {
        trim_end_char(s.drop_last(), c)
    } else {
        s
    }
}

/// `str::trim_start_matches(c)` for a single character.
pub open spec fn trim_start_char(s: Seq<char>, c: char) -> Seq<char>
    decreases s.len(),
{
    if s.len() > 0 && s[0] == c {
        trim_start_char(s.drop_first(), c)
    } else {
        s
    }
}

/// The end position of `s[from..to]` once trailing `c` characters are dropped.
pub fn trim_end_char_at(s: &[char], from: usize, to: usize, c: char) -> (r: usize)
    requires
        from <= to <= s@.len(),
    ensures
        from <= r <= to,
        s@.subrange(from as int, r as int) == trim_end_char(s@.subrange(from as int, to as int), c),
{
    let mut j = to;
    while j > from && s[j - 1] == c
        invariant
            from <= j <= to <= s@.len(),
            trim_end_char(s@.subrange(from as int, to as int), c) == trim_end_char(
                s@.subrange(from as int, j as int),
                c,
            ),
        decreases j - from,
    {
        assert(s@.subrange(from as int, j as int).drop_last() =~= s@.subrange(from as int, j - 1));
        j -= 1;
    }
    j
}

/// The start position of `s[from..to]` once leading `c` characters are dropped.
pub fn trim_start_char_at(s: &[char], from: usize, to: usize, c: char) -> (r: usize)
    requires
        from <= to <= s@.len(),
    ensures
        from <= r <= to,
        s@.subrange(r as int, to as int) == trim_start_char(s@.subrange(from as int, to as int), c),
{
    let mut i = from;
    while i < to && s[i] == c
        invariant
            from <= i <= to <= s@.len(),
            trim_start_char(s@.subrange(from as int, to as int), c) == trim_start_char(
                s@.subrange(i as int, to as int),
                c,
            ),
        decreases to - i,
    {
        assert(s@.subrange(i as int, to as int).drop_first() =~= s@.subrange(i + 1, to as int));
        i += 1;
    }
    i
}

pub open spec fn opt_str_view(o: Option<String>) -> Option<Seq<char>> {
    match o {
        Some(s) => Some(s@),
        None => None,
    }
}

pub open spec fn opt_ref_view(o: Option<&str>) -> Option<Seq<char>> {
    match o {
        Some(s) => Some(s@),
        None => None,
    }
}


/// The characters of `s` with surrounding whitespace removed.
pub fn trimmed(s: &str) -> (r: Vec<char>)
    ensures
        r@ == trim(s@),
{
    let cs = chars_of(s);
    let sp = trim_span(cs.as_slice(), 0, cs.len());
    assert(cs@.subrange(0, cs@.len() as int) =~= cs@);
    copy_range(cs.as_slice(), sp.start, sp.end)
}

/// Whether the characters `cs` spell out `lit`.
pub fn eq_str(cs: &[char], lit: &str) -> (r: bool)
    ensures
        r == (cs@ == lit@),
{
    let l = chars_of(lit);
    chars_eq(cs, l.as_slice())
}

/// The texts of a sequence of strings.
pub open spec fn views(v: Seq<String>) -> Seq<Seq<char>> {
    Seq::new(v.len(), |i: int| v[i]@)
}

pub proof fn lemma_views_push(v: Seq<String>, t: String)
    ensures
        views(v.push(t)) == views(v).push(t@),
{
    assert(views(v.push(t)) =~= views(v).push(t@));
}

/// The pieces `spans[lo..hi]` delimit in `s`, as owned strings.
pub fn span_strings(s: &[char], spans: &[Span], lo: usize, hi: usize) -> (r: Vec<String>)
    requires
        lo <= hi <= spans@.len(),
        forall|k: int| 0 <= k < spans@.len() ==> span_in(#[trigger] spans@[k], 0, s@.len() as int),
    ensures
        views(r@) == pieces(s@, spans@).subrange(lo as int, hi as int),
{
    let mut r: Vec<String> = Vec::new();
    let mut i = lo;
    while i < hi
        invariant
            lo <= i <= hi <= spans@.len(),
            forall|k: int| 0 <= k < spans@.len() ==> span_in(#[trigger] spans@[k], 0, s@.len() as int),
            views(r@) == pieces(s@, spans@).subrange(lo as int, i as int),
        decreases hi - i,
    {
        let sp = spans[i];
        assert(span_in(spans@[i as int], 0, s@.len() as int));
        let t = string_range(s, sp.start, sp.end);
        let ghost old_r = r@;
        let ghost tv = t@;
        r.push(t);
        proof {
            lemma_views_push(old_r, r@[r@.len() - 1]);
            assert(old_r.push(r@[r@.len() - 1]) =~= r@);
            assert(pieces(s@, spans@).subrange(lo as int, i as int).push(tv) =~= pieces(
                s@,
                spans@,
            ).subrange(lo as int, i + 1));
        }
        assert(views(r@) =~= pieces(s@, spans@).subrange(lo as int, i + 1));
        i += 1;
    }
    r
}

/// `str::trim_matches(c)` for a single character: both ends.
pub open spec fn trim_char(s: Seq<char>, c: char) -> Seq<char> {
    trim_start_char(trim_end_char(s, c), c)
}

/// The span of `s[from..to]` once `c` is trimmed from both ends.
pub fn trim_char_span(s: &[char], from: usize, to: usize, c: char) -> (r: Span)
    requires
        from <= to <= s@.len(),
    ensures
        span_in(r, from as int, to as int),
        piece(s@, r) == trim_char(s@.subrange(from as int, to as int), c),
{
    let e = trim_end_char_at(s, from, to, c);
    let b = trim_start_char_at(s, from, e, c);
    Span { start: b, end: e }
}

/// `char::to_ascii_lowercase`.
pub open spec fn ascii_lower(c: char) -> char {
    if 'A' <= c <= 'Z' {
        ((c as u32) + 32) as char
    } else {
        c
    }
}

/// `str::to_ascii_lowercase`.
pub open spec fn ascii_lower_seq(s: Seq<char>) -> Seq<char> {
    Seq::new(s.len(), |i: int| ascii_lower(s[i]))
}

/// `str::eq_ignore_ascii_case`: equal once ASCII letters are lowered.
pub open spec fn ascii_eq_ignore_case(a: Seq<char>, b: Seq<char>) -> bool {
    ascii_lower_seq(a) == ascii_lower_seq(b)
}

pub fn ascii_lower_char(c: char) -> (r: char)
    ensures
        r == ascii_lower(c),
{
    if 'A' <= c && c <= 'Z' {
        let b = c as u8;
        assert(b as u32 == c as u32);
        ((b + 32) as u8) as char
    } else {
        c
    }
}

/// The ASCII-lowered characters of `s`.
pub fn ascii_lowered(s: &[char]) -> (r: Vec<char>)
    ensures
        r@ == ascii_lower_seq(s@),
{
    let mut r: Vec<char> = Vec::new();
    let mut i: usize = 0;
    while i < s.len()
        invariant
            i <= s@.len(),
            r@ == ascii_lower_seq(s@.take(i as int)),
        decreases s@.len() - i,
    {
        let c = ascii_lower_char(s[i]);
        r.push(c);
        assert(r@ =~= ascii_lower_seq(s@.take(i + 1)));
        i += 1;
    }
    assert(s@.take(s@.len() as int) =~= s@);
    r
}

/// Whether `a` and `b` match ignoring ASCII case.
pub fn eq_ignore_ascii_case(a: &[char], b: &[char]) -> (r: bool)
    ensures
        r == ascii_eq_ignore_case(a@, b@),
{
    let la = ascii_lowered(a);
    let lb = ascii_lowered(b);
    chars_eq(la.as_slice(), lb.as_slice())
}

/// The text `String::from_utf8_lossy` makes of `bytes`.
pub uninterp spec fn lossy_text(bytes: Seq<u8>) -> Seq<char>;

/// `String::from_utf8_lossy`, owned: the bytes decoded as UTF-8, each
/// invalid sequence replaced by U+FFFD; valid UTF-8 decodes exactly.
#[verifier::external_body]
pub(crate) fn text_of_bytes(bytes: &[u8]) -> (r: String)
    ensures
        r@ == lossy_text(bytes@),
        vstd::utf8::valid_utf8(bytes@) ==> r@ == vstd::utf8::decode_utf8(bytes@),
{
    String::from_utf8_lossy(bytes).into_owned()
}

/// The predicate "contains `p1` or contains `p2`".
pub open spec fn either_pred(p1: Seq<char>, p2: Seq<char>) -> spec_fn(Seq<char>) -> bool {
    |l: Seq<char>| contains(l, p1) || contains(l, p2)
}

/// The first of `spans` whose piece contains `p1` or `p2`.
pub fn first_span_containing_either(s: &[char], spans: &[Span], p1: &[char], p2: &[char]) -> (r:
    Option<usize>)
    requires
        forall|k: int| 0 <= k < spans@.len() ==> span_in(#[trigger] spans@[k], 0, s@.len() as int),
    ensures
        r matches Some(k) ==> k < spans@.len() && first_where(pieces(s@, spans@), either_pred(p1@, p2@)) == Some(
            k as int,
        ),
        r is None ==> first_where(pieces(s@, spans@), either_pred(p1@, p2@)) is None,
{
    let ghost ls = pieces(s@, spans@);
    let ghost f = either_pred(p1@, p2@);
    let mut i: usize = 0;
    while i < spans.len()
        invariant
            i <= spans@.len(),
            ls == pieces(s@, spans@),
            f == either_pred(p1@, p2@),
            forall|k: int| 0 <= k < spans@.len() ==> span_in(#[trigger] spans@[k], 0, s@.len() as int),
            forall|j: int| 0 <= j < i ==> !f(ls[j]),
        decreases spans@.len() - i,
    {
        let sp = spans[i];
        assert(span_in(spans@[i as int], 0, s@.len() as int));
        if contains_in(s, sp.start, sp.end, p1) || contains_in(s, sp.start, sp.end, p2) {
            proof {
                lemma_first_where_found(ls, f, i as int);
            }
            return Some(i);
        }
        i += 1;
    }
    proof {
        lemma_first_where_none(ls, f);
    }
    None
}

/// `str::trim_start_matches(pat)` for a string pattern: every leading
/// repetition of `pat` removed.
pub open spec fn trim_start_str(s: Seq<char>, pat: Seq<char>) -> Seq<char>
    decreases s.len(),
{
    if pat.len() > 0 && starts_with(s, pat) {
        trim_start_str(s.subrange(pat.len() as int, s.len() as int), pat)
    } else {
        s
    }
}

/// The start of `s[from..to]` once leading repetitions of `pat` are removed.
pub fn trim_start_str_at(s: &[char], from: usize, to: usize, pat: &[char]) -> (r: usize)
    requires
        from <= to <= s@.len(),
    ensures
        from <= r <= to,
        s@.subrange(r as int, to as int) == trim_start_str(s@.subrange(from as int, to as int), pat@),
{
    let mut i = from;
    if pat.len() == 0 {
        return from;
    }
    while starts_with_in(s, i, to, pat)
        invariant
            from <= i <= to <= s@.len(),
            pat@.len() > 0,
            trim_start_str(s@.subrange(from as int, to as int), pat@) == trim_start_str(
                s@.subrange(i as int, to as int),
                pat@,
            ),
        decreases to - i,
    {
        assert(s@.subrange(i as int, to as int).subrange(pat@.len() as int, to - i) =~= s@.subrange(
            i + pat@.len(),
            to as int,
        ));
        i = i + pat.len();
    }
    i
}

/// `r` is the error `msg`.
pub open spec fn err_is<T>(r: Result<T, String>, msg: Seq<char>) -> bool {
    r matches Err(e) && e@ == msg
}

/// The text, or nothing (`unwrap_or("")`, `unwrap_or_default()`).
pub open spec fn or_empty(o: Option<Seq<char>>) -> Seq<char> {
    match o {
        Some(s) => s,
        None => Seq::empty(),
    }
}

/// The text, or `d`.
pub open spec fn or_text(o: Option<Seq<char>>, d: Seq<char>) -> Seq<char> {
    match o {
        Some(s) => s,
        None => d,
    }
}

/// `Iterator::position` over any sequence.
pub open spec fn first_index<T>(s: Seq<T>, f: spec_fn(T) -> bool) -> Option<int> {
    if exists|k: int| 0 <= k < s.len() && f(s[k]) {
        Some(choose|k: int| 0 <= k < s.len() && f(s[k]) && forall|j: int| 0 <= j < k ==> !f(s[j]))
    } else {
        None
    }
}

pub proof fn lemma_first_index_found<T>(s: Seq<T>, f: spec_fn(T) -> bool, k: int)
    requires
        0 <= k < s.len(),
        f(s[k]),
        forall|j: int| 0 <= j < k ==> !f(s[j]),
    ensures
        first_index(s, f) == Some(k),
{
    let c = choose|c: int| 0 <= c < s.len() && f(s[c]) && forall|j: int| 0 <= j < c ==> !f(s[j]);
    assert(0 <= c < s.len() && f(s[c]) && forall|j: int| 0 <= j < c ==> !f(s[j]));
    if c < k {
        assert(!f(s[c]));
    } else if c > k {
        assert(!f(s[k]));
    }
}

pub proof fn lemma_first_index_none<T>(s: Seq<T>, f: spec_fn(T) -> bool)
    requires
        forall|j: int| 0 <= j < s.len() ==> !f(s[j]),
    ensures
        first_index(s, f) is None,
{
}

/// What follows the last `d` of `line` (all of it without one), trimmed:
/// `line.split(d).last().unwrap().trim()`.
pub open spec fn last_after(line: Seq<char>, d: char) -> Seq<char> {
    trim(split(line, d).last())
}

/// The span of `last_after` within `s[from..to]`.
pub fn last_after_span(s: &[char], from: usize, to: usize, d: char) -> (r: Span)
    requires
        from <= to <= s@.len(),
    ensures
        span_in(r, from as int, to as int),
        piece(s@, r) == last_after(s@.subrange(from as int, to as int), d),
{
    let parts = split_spans(s, from, to, d);
    proof {
        lemma_split_nonempty(s@.subrange(from as int, to as int), d);
    }
    let last = parts[parts.len() - 1];
    assert(span_in(parts@[parts@.len() - 1], from as int, to as int));
    trim_span(s, last.start, last.end)
}

/// `str::replace` for a non-empty pattern: every occurrence, scanning left
/// to right without overlap, replaced by `rep`.
pub open spec fn replace_all(s: Seq<char>, pat: Seq<char>, rep: Seq<char>) -> Seq<char>
    decreases s.len(),
{
    if pat.len() == 0 || s.len() == 0 {
        s
    } else if starts_with(s, pat) {
        rep + replace_all(s.subrange(pat.len() as int, s.len() as int), pat, rep)
    } else {
        seq![s[0]] + replace_all(s.drop_first(), pat, rep)
    }
}

/// `s[from..to].replace(pat, rep)`, for a non-empty pattern.
pub fn replaced(s: &[char], from: usize, to: usize, pat: &[char], rep: &str) -> (r: Vec<char>)
    requires
        from <= to <= s@.len(),
        pat@.len() > 0,
    ensures
        r@ == replace_all(s@.subrange(from as int, to as int), pat@, rep@),
{
    let mut out: Vec<char> = Vec::new();
    let mut i = from;
    while i < to
        invariant
            from <= i <= to <= s@.len(),
            pat@.len() > 0,
            out@ + replace_all(s@.subrange(i as int, to as int), pat@, rep@) == replace_all(
                s@.subrange(from as int, to as int),
                pat@,
                rep@,
            ),
        decreases to - i,
    {
        let ghost rest = s@.subrange(i as int, to as int);
        let ghost before = out@;
        if starts_with_in(s, i, to, pat) {
            assert(rest.subrange(pat@.len() as int, rest.len() as int) =~= s@.subrange(
                i + pat@.len(),
                to as int,
            ));
            push_str(&mut out, rep);
            i = i + pat.len();
            assert(before + (rep@ + replace_all(s@.subrange(i as int, to as int), pat@, rep@))
                =~= out@ + replace_all(s@.subrange(i as int, to as int), pat@, rep@));
        } else {
            assert(rest.drop_first() =~= s@.subrange(i + 1, to as int));
            assert(rest[0] == s@[i as int]);
            out.push(s[i]);
            i = i + 1;
            assert(before + (seq![s@[i - 1]] + replace_all(s@.subrange(i as int, to as int), pat@, rep@))
                =~= out@ + replace_all(s@.subrange(i as int, to as int), pat@, rep@));
        }
    }
    assert(s@.subrange(to as int, to as int).len() == 0);
    assert(out@ + s@.subrange(to as int, to as int) =~= out@);
    out
}

/// The whole of `s` as a span.
pub open spec fn whole(s: Seq<char>) -> Span {
    Span { start: 0, end: s.len() as usize }
}

} // verus!
