//! Small verified text helpers: characters of a string, whitespace trimming,
//! digit values.
use vstd::prelude::*;

verus! {

/// The characters of `s`, in order.
pub fn chars_of(s: &str) -> (r: Vec<char>)
    ensures
        r@ == s@,
{
    let n = s.unicode_len();
    let mut r: Vec<char> = Vec::new();
    let mut i: usize = 0;
    while i < n
        invariant
            n == s@.len(),
            0 <= i <= n,
            r@ == s@.subrange(0, i as int),
        decreases n - i,
    {
        r.push(s.get_char(i));
        i = i + 1;
        assert(r@ =~= s@.subrange(0, i as int));
    }
    assert(s@.subrange(0, n as int) =~= s@);
    r
}

/// Unicode `White_Space`, the set `char::is_whitespace` and `str::trim`
/// use.
pub open spec fn is_ws(c: char) -> bool {
    ||| '\u{9}' <= c <= '\u{d}'
    ||| c == ' '
    ||| c == '\u{85}'
    ||| c == '\u{a0}'
    ||| c == '\u{1680}'
    ||| '\u{2000}' <= c <= '\u{200a}'
    ||| c == '\u{2028}'
    ||| c == '\u{2029}'
    ||| c == '\u{202f}'
    ||| c == '\u{205f}'
    ||| c == '\u{3000}'
}

pub fn is_whitespace(c: char) -> (r: bool)
    ensures
        r == is_ws(c),
{
    ('\u{9}' <= c && c <= '\u{d}') || c == ' ' || c == '\u{85}' || c == '\u{a0}' || c
        == '\u{1680}' || ('\u{2000}' <= c && c <= '\u{200a}') || c == '\u{2028}' || c
        == '\u{2029}' || c == '\u{202f}' || c == '\u{205f}' || c == '\u{3000}'
}

/// The index of the first non-whitespace character at or after `i`.
pub open spec fn trim_start_index(s: Seq<char>, i: int) -> int
    decreases s.len() - i,
{
    if i < 0 || i >= s.len() {
        s.len() as int
    } else if is_ws(s[i]) {
        trim_start_index(s, i + 1)
    } else {
        i
    }
}

/// One past the last non-whitespace character before `j`.
pub open spec fn trim_end_index(s: Seq<char>, lo: int, j: int) -> int
    decreases j - lo,
{
    if j <= lo {
        lo
    } else if is_ws(s[j - 1]) {
        trim_end_index(s, lo, j - 1)
    } else {
        j
    }
}

/// `s` without leading and trailing whitespace.
pub open spec fn trim(s: Seq<char>) -> Seq<char> {
    let lo = trim_start_index(s, 0);
    s.subrange(lo, trim_end_index(s, lo, s.len() as int))
}

proof fn lemma_trim_start_bounds(s: Seq<char>, i: int)
    requires
        0 <= i <= s.len(),
    ensures
        i <= trim_start_index(s, i) <= s.len(),
    decreases s.len() - i,
{
    if i < s.len() && is_ws(s[i]) {
        lemma_trim_start_bounds(s, i + 1);
    }
}

proof fn lemma_trim_end_bounds(s: Seq<char>, lo: int, j: int)
    requires
        0 <= lo <= j <= s.len(),
    ensures
        lo <= trim_end_index(s, lo, j) <= j,
    decreases j - lo,
{
    if j > lo && is_ws(s[j - 1]) {
        lemma_trim_end_bounds(s, lo, j - 1);
    }
}

/// The bounds of `trim(s)` in `s`.
pub fn trim_bounds(s: &Vec<char>) -> (r: (usize, usize))
    ensures
        r.0 == trim_start_index(s@, 0),
        r.1 == trim_end_index(s@, r.0 as int, s@.len() as int),
        r.0 <= r.1 <= s@.len(),
{
    let mut lo: usize = 0;
    while lo < s.len() && is_whitespace(s[lo])
        invariant
            0 <= lo <= s@.len(),
            trim_start_index(s@, 0) == trim_start_index(s@, lo as int),
        decreases s@.len() - lo,
    {
        lo = lo + 1;
    }
    let mut hi: usize = s.len();
    while hi > lo && is_whitespace(s[hi - 1])
        invariant
            lo <= hi <= s@.len(),
            trim_end_index(s@, lo as int, s@.len() as int) == trim_end_index(s@, lo as int, hi as int),
        decreases hi - lo,
    {
        hi = hi - 1;
    }
    (lo, hi)
}

/// The characters of `trim(s)`.
pub fn trimmed(s: &Vec<char>) -> (r: Vec<char>)
    ensures
        r@ == trim(s@),
{
    let (lo, hi) = trim_bounds(s);
    slice_chars(s, lo, hi)
}

/// `s[lo..hi]` as a new vector.
pub fn slice_chars(s: &Vec<char>, lo: usize, hi: usize) -> (r: Vec<char>)
    requires
        lo <= hi <= s@.len(),
    ensures
        r@ == s@.subrange(lo as int, hi as int),
{
    let mut r: Vec<char> = Vec::new();
    let mut i: usize = lo;
    while i < hi
        invariant
            lo <= i <= hi <= s@.len(),
            r@ == s@.subrange(lo as int, i as int),
        decreases hi - i,
    {
        r.push(s[i]);
        i = i + 1;
        assert(r@ =~= s@.subrange(lo as int, i as int));
    }
    r
}

/// The value of a hexadecimal digit (either case).
pub open spec fn hex_value(c: char) -> Option<u8> {
    if '0' <= c <= '9' {
        Some((c as u32 - '0' as u32) as u8)
    } else if 'a' <= c <= 'f' {
        Some((c as u32 - 'a' as u32 + 10) as u8)
    } else if 'A' <= c <= 'F' {
        Some((c as u32 - 'A' as u32 + 10) as u8)
    } else {
        None
    }
}

pub fn hex_digit(c: char) -> (r: Option<u8>)
    ensures
        r == hex_value(c),
{
    if '0' <= c && c <= '9' {
        Some((c as u32 - '0' as u32) as u8)
    } else if 'a' <= c && c <= 'f' {
        Some((c as u32 - 'a' as u32 + 10) as u8)
    } else if 'A' <= c && c <= 'F' {
        Some((c as u32 - 'A' as u32 + 10) as u8)
    } else {
        None
    }
}

/// The value of a decimal digit.
pub open spec fn dec_value(c: char) -> Option<u8> {
    if '0' <= c <= '9' {
        Some((c as u32 - '0' as u32) as u8)
    } else {
        None
    }
}

pub fn dec_digit(c: char) -> (r: Option<u8>)
    ensures
        r == dec_value(c),
{
    if '0' <= c && c <= '9' {
        Some((c as u32 - '0' as u32) as u8)
    } else {
        None
    }
}

/// Every character is a digit in base `radix` (16 or 10).
pub open spec fn all_digits(s: Seq<char>, radix: int) -> bool {
    forall|i: int|
        0 <= i < s.len() ==> if radix == 16 {
            hex_value(#[trigger] s[i]) is Some
        } else {
            dec_value(s[i]) is Some
        }
}

/// The value of a string of digits in base `radix`.
pub open spec fn digits_value(s: Seq<char>, radix: int) -> int
    decreases s.len(),
{
    if s.len() == 0 {
        0
    } else {
        let d = if radix == 16 {
            hex_value(s.last())
        } else {
            dec_value(s.last())
        };
        digits_value(s.drop_last(), radix) * radix + match d {
            Some(v) => v as int,
            None => 0,
        }
    }
}

/// What `from_str_radix` accepts for an unsigned type: an optional `+`,
/// then at least one digit. `None` when the text is not such a number.
pub open spec fn unsigned_value(s: Seq<char>, radix: int) -> Option<int> {
    let body = if s.len() > 0 && s[0] == '+' {
        s.subrange(1, s.len() as int)
    } else {
        s
    };
    if body.len() > 0 && all_digits(body, radix) {
        Some(digits_value(body, radix))
    } else {
        None
    }
}

pub proof fn lemma_digits_value_nonneg(s: Seq<char>, radix: int)
    requires
        radix == 10 || radix == 16,
    ensures
        digits_value(s, radix) >= 0,
    decreases s.len(),
{
    if s.len() > 0 {
        lemma_digits_value_nonneg(s.drop_last(), radix);
    }
}

/// Parse an unsigned number in base 10 or 16 (`str::parse` and
/// `from_str_radix` on unsigned integers): `None` when the text is not a
/// number or the value exceeds `limit`.
pub fn parse_unsigned(s: &Vec<char>, radix: u32, limit: u64) -> (r: Option<u64>)
    requires
        radix == 10 || radix == 16,
    ensures
        unsigned_value(s@, radix as int) matches Some(v) ==> v >= 0,
        match unsigned_value(s@, radix as int) {
            Some(v) => if v <= limit {
                r == Some(v as u64)
            } else {
                r is None
            },
            None => r is None,
        },
{
    let start: usize = if s.len() > 0 && s[0] == '+' {
        1
    } else {
        0
    };
    let ghost body = if s@.len() > 0 && s@[0] == '+' {
        s@.subrange(1, s@.len() as int)
    } else {
        s@
    };
    assert(body =~= s@.subrange(start as int, s@.len() as int));
    proof {
        lemma_digits_value_nonneg(body, radix as int);
    }
    if start >= s.len() {
        return None;
    }
    let mut value: u64 = 0;
    let mut i: usize = start;
    while i < s.len()
        invariant
            radix == 10 || radix == 16,
            start < s@.len(),
            body == s@.subrange(start as int, s@.len() as int),
            unsigned_value(s@, radix as int) == (if body.len() > 0 && all_digits(body, radix as int) {
                Some(digits_value(body, radix as int))
            } else {
                None::<int>
            }),
            start <= i <= s@.len(),
            all_digits(s@.subrange(start as int, i as int), radix as int),
            value == digits_value(s@.subrange(start as int, i as int), radix as int),
            value <= limit,
        decreases s@.len() - i,
    {
        let d: Option<u8> = if radix == 16 {
            hex_digit(s[i])
        } else {
            dec_digit(s[i])
        };
        let ghost next = s@.subrange(start as int, i + 1);
        assert(next.drop_last() =~= s@.subrange(start as int, i as int));
        assert(next.last() == s@[i as int]);
        match d {
            None => {
                assert(!all_digits(body, radix as int)) by {
                    assert(body[i - start] == s@[i as int]);
                }
                return None;
            },
            Some(v) => {
                proof {
                    lemma_digits_value_nonneg(s@.subrange(start as int, i as int), radix as int);
                }
                if v as u64 > limit || value > (limit - v as u64) / radix as u64 {
                    assert(value * radix + v > limit) by (nonlinear_arith)
                        requires
                            v > limit || value > (limit - v) / (radix as int),
                            radix > 0,
                            value >= 0,
                    ;
                    proof {
                        lemma_digits_value_prefix_bound(body, (i + 1 - start) as int, radix as int);
                        assert(body.subrange(0, (i + 1 - start) as int) =~= next);
                    }
                    return None;
                }
                assert(value * radix + v <= limit) by (nonlinear_arith)
                    requires
                        value <= (limit - v) / (radix as int),
                        radix > 0,
                        v <= limit,
                ;
                value = value * radix as u64 + v as u64;
                i = i + 1;
                assert(all_digits(s@.subrange(start as int, i as int), radix as int)) by {
                    assert forall|k: int| 0 <= k < next.len() implies (if radix == 16 {
                        hex_value(#[trigger] next[k]) is Some
                    } else {
                        dec_value(next[k]) is Some
                    }) by {
                        if k < next.len() - 1 {
                            assert(next[k] == s@.subrange(start as int, (i - 1) as int)[k]);
                        }
                    }
                }
            },
        }
    }
    assert(s@.subrange(start as int, s@.len() as int) == body);
    Some(value)
}

/// The value of a digit string is at least the value of any prefix.
proof fn lemma_digits_value_prefix_bound(s: Seq<char>, k: int, radix: int)
    requires
        0 <= k <= s.len(),
        radix == 10 || radix == 16,
    ensures
        all_digits(s, radix) ==> digits_value(s.subrange(0, k), radix) <= digits_value(s, radix),
    decreases s.len(),
{
    if s.len() > k {
        let t = s.drop_last();
        assert(t.subrange(0, k) =~= s.subrange(0, k));
        if all_digits(s, radix) {
            assert(all_digits(t, radix)) by {
                assert forall|i: int| 0 <= i < t.len() implies (if radix == 16 {
                    hex_value(#[trigger] t[i]) is Some
                } else {
                    dec_value(t[i]) is Some
                }) by {
                    assert(t[i] == s[i]);
                }
            }
        }
        lemma_digits_value_prefix_bound(t, k, radix);
        lemma_digits_value_nonneg(t, radix);
        let dv = digits_value(t, radix);
        assert(dv <= dv * radix) by (nonlinear_arith)
            requires
                dv >= 0,
                radix >= 10,
        ;
    } else {
        assert(s.subrange(0, k) =~= s);
    }
}


/// Whether `a` holds exactly the characters of `b`.
pub fn eq_str(a: &Vec<char>, b: &str) -> (r: bool)
    ensures
        r == (a@ == b@),
{
    let bc = chars_of(b);
    eq_chars(a, &bc)
}

/// Whether `a` and `b` hold the same characters.
pub fn eq_chars(a: &Vec<char>, b: &Vec<char>) -> (r: bool)
    ensures
        r == (a@ == b@),
{
    if a.len() != b.len() {
        return false;
    }
    let mut i: usize = 0;
    while i < a.len()
        invariant
            a@.len() == b@.len(),
            0 <= i <= a@.len(),
            forall|k: int| 0 <= k < i ==> a@[k] == b@[k],
        decreases a@.len() - i,
    {
        if a[i] != b[i] {
            assert(a@[i as int] != b@[i as int]);
            return false;
        }
        i = i + 1;
    }
    assert(a@ =~= b@);
    true
}

/// `s` begins with `p`.
pub open spec fn starts_with(s: Seq<char>, p: Seq<char>) -> bool {
    p.len() <= s.len() && s.subrange(0, p.len() as int) == p
}

/// `p` occurs in `s` at position `i`.
pub open spec fn occurs_at(s: Seq<char>, p: Seq<char>, i: int) -> bool {
    0 <= i && i + p.len() <= s.len() && s.subrange(i, i + p.len()) == p
}

/// Whether `p` occurs in `s` at `i`.
pub fn matches_at(s: &Vec<char>, p: &Vec<char>, i: usize) -> (r: bool)
    ensures
        r == occurs_at(s@, p@, i as int),
{
    if i > s.len() || p.len() > s.len() - i {
        return false;
    }
    let n: usize = s.len();
    let mut k: usize = 0;
    while k < p.len()
        invariant
            n == s@.len(),
            i + p@.len() <= n,
            0 <= k <= p@.len(),
            forall|j: int| 0 <= j < k ==> s@[i + j] == p@[j],
        decreases p@.len() - k,
    {
        if s[i + k] != p[k] {
            assert(s@.subrange(i as int, i + p@.len())[k as int] != p@[k as int]);
            return false;
        }
        k = k + 1;
    }
    assert(s@.subrange(i as int, i + p@.len()) =~= p@);
    true
}

/// The first position at or after `i` where `p` occurs in `s`.
pub open spec fn find_from(s: Seq<char>, p: Seq<char>, i: int) -> Option<int>
    decreases s.len() + 1 - i,
{
    if i < 0 || i > s.len() {
        None
    } else if occurs_at(s, p, i) {
        Some(i)
    } else {
        find_from(s, p, i + 1)
    }
}

/// The first position where `p` occurs in `s` (`str::find`).
pub fn find(s: &Vec<char>, p: &Vec<char>) -> (r: Option<usize>)
    ensures
        match r {
            Some(i) => find_from(s@, p@, 0) == Some(i as int),
            None => find_from(s@, p@, 0) is None,
        },
{
    let mut i: usize = 0;
    while i < s.len()
        invariant
            0 <= i <= s@.len(),
            find_from(s@, p@, 0) == find_from(s@, p@, i as int),
        decreases s@.len() - i,
    {
        if matches_at(s, p, i) {
            return Some(i);
        }
        i = i + 1;
    }
    if matches_at(s, p, i) {
        Some(i)
    } else {
        assert(find_from(s@, p@, i as int + 1) is None);
        None
    }
}

/// The index of the first `c` at or after `i`, or the length.
pub open spec fn next_char(s: Seq<char>, c: char, i: int) -> int
    decreases s.len() - i,
{
    if i < 0 || i >= s.len() {
        s.len() as int
    } else if s[i] == c {
        i
    } else {
        next_char(s, c, i + 1)
    }
}

/// The lines of `s[i..]` as `str::lines` gives them: split at `\n`, a
/// `\r` right before a `\n` dropped, no empty line after a final `\n`.
pub open spec fn lines_from(s: Seq<char>, i: int) -> Seq<Seq<char>>
    decreases s.len() - i,
{
    if i < 0 || i >= s.len() {
        Seq::empty()
    } else {
        let j = next_char(s, '\n', i);
        proof {
            lemma_next_char_bounds(s, '\n', i);
        }
        let end = if j < s.len() && j > i && s[j - 1] == '\r' {
            j - 1
        } else {
            j
        };
        if j >= s.len() {
            seq![s.subrange(i, end)]
        } else {
            seq![s.subrange(i, end)] + lines_from(s, j + 1)
        }
    }
}

pub open spec fn lines(s: Seq<char>) -> Seq<Seq<char>> {
    lines_from(s, 0)
}

pub proof fn lemma_next_char_bounds(s: Seq<char>, c: char, i: int)
    requires
        0 <= i <= s.len(),
    ensures
        i <= next_char(s, c, i) <= s.len(),
        next_char(s, c, i) < s.len() ==> s[next_char(s, c, i)] == c,
        forall|k: int| i <= k < next_char(s, c, i) ==> s[k] != c,
    decreases s.len() - i,
{
    if i < s.len() && s[i] != c {
        lemma_next_char_bounds(s, c, i + 1);
    }
}

/// The views of a list of character vectors.
pub open spec fn views(v: Seq<Vec<char>>) -> Seq<Seq<char>> {
    v.map_values(|x: Vec<char>| x@)
}

/// The lines of `s`.
pub fn lines_of(s: &Vec<char>) -> (r: Vec<Vec<char>>)
    ensures
        views(r@) == lines(s@),
{
    let mut r: Vec<Vec<char>> = Vec::new();
    let mut i: usize = 0;
    assert(views(r@) + lines_from(s@, 0) =~= lines(s@));
    while i < s.len()
        invariant
            0 <= i <= s@.len(),
            views(r@) + lines_from(s@, i as int) == lines(s@),
        decreases s@.len() - i,
    {
        let mut j: usize = i;
        while j < s.len() && s[j] != '\n'
            invariant
                i <= j <= s@.len(),
                next_char(s@, '\n', i as int) == next_char(s@, '\n', j as int),
            decreases s@.len() - j,
        {
            j = j + 1;
        }
        proof {
            lemma_next_char_bounds(s@, '\n', j as int);
        }
        let end: usize = if j < s.len() && j > i && s[j - 1] == '\r' {
            j - 1
        } else {
            j
        };
        let line = slice_chars(s, i, end);
        let ghost old_r = r@;
        r.push(line);
        let ghost rest = if j >= s@.len() {
            Seq::<Seq<char>>::empty()
        } else {
            lines_from(s@, j + 1)
        };
        assert(lines_from(s@, i as int) == seq![s@.subrange(i as int, end as int)] + rest);
        assert(views(r@) =~= views(old_r).push(s@.subrange(i as int, end as int)));
        assert(views(r@) + rest =~= views(old_r) + lines_from(s@, i as int));
        if j >= s.len() {
            assert(views(r@) =~= views(r@) + lines_from(s@, s@.len() as int));
            i = s.len();
        } else {
            i = j + 1;
        }
    }
    assert(views(r@) =~= views(r@) + lines_from(s@, i as int));
    r
}

/// The words of `s[i..]`: maximal runs of non-whitespace characters
/// (`str::split_whitespace`).
pub open spec fn words_from(s: Seq<char>, i: int) -> Seq<Seq<char>>
    decreases s.len() - i,
{
    if i < 0 || i >= s.len() {
        Seq::empty()
    } else if is_ws(s[i]) {
        words_from(s, i + 1)
    } else {
        let j = word_end(s, i);
        proof {
            lemma_word_end_bounds(s, i);
        }
        seq![s.subrange(i, j)] + words_from(s, j)
    }
}

/// One past the end of the word starting at `i`.
pub open spec fn word_end(s: Seq<char>, i: int) -> int
    decreases s.len() - i,
{
    if i < 0 || i >= s.len() || is_ws(s[i]) {
        if i < 0 { 0 } else if i > s.len() { s.len() as int } else { i }
    } else {
        word_end(s, i + 1)
    }
}

pub open spec fn words(s: Seq<char>) -> Seq<Seq<char>> {
    words_from(s, 0)
}

pub proof fn lemma_word_end_bounds(s: Seq<char>, i: int)
    requires
        0 <= i <= s.len(),
    ensures
        i <= word_end(s, i) <= s.len(),
        i < s.len() && !is_ws(s[i]) ==> i < word_end(s, i),
    decreases s.len() - i,
{
    if i < s.len() && !is_ws(s[i]) {
        lemma_word_end_bounds(s, i + 1);
    }
}

/// The words of `s`.
pub fn words_of(s: &Vec<char>) -> (r: Vec<Vec<char>>)
    ensures
        views(r@) == words(s@),
{
    let mut r: Vec<Vec<char>> = Vec::new();
    let mut i: usize = 0;
    assert(views(r@) + words_from(s@, 0) =~= words(s@));
    while i < s.len()
        invariant
            0 <= i <= s@.len(),
            views(r@) + words_from(s@, i as int) == words(s@),
        decreases s@.len() - i,
    {
        if is_whitespace(s[i]) {
            i = i + 1;
        } else {
            let mut j: usize = i;
            while j < s.len() && !is_whitespace(s[j])
                invariant
                    i <= j <= s@.len(),
                    word_end(s@, i as int) == word_end(s@, j as int),
                decreases s@.len() - j,
            {
                j = j + 1;
            }
            proof {
                lemma_word_end_bounds(s@, i as int);
            }
            let word = slice_chars(s, i, j);
            let ghost old_r = r@;
            r.push(word);
            assert(views(r@) =~= views(old_r).push(s@.subrange(i as int, j as int)));
            assert(views(r@) + words_from(s@, j as int) =~= views(old_r) + words_from(s@, i as int));
            i = j;
        }
    }
    assert(views(r@) =~= views(r@) + words_from(s@, i as int));
    r
}


/// `String::push`: appends one character.
#[verifier::external_body]
fn push_char(s: &mut String, c: char)
    ensures
        final(s)@ == old(s)@.push(c),
{
    s.push(c);
}

/// The characters of `v` as a `String`.
pub fn string_of(v: &Vec<char>) -> (r: String)
    ensures
        r@ == v@,
{
    let mut r = String::new();
    let mut i: usize = 0;
    while i < v.len()
        invariant
            0 <= i <= v@.len(),
            r@ == v@.subrange(0, i as int),
        decreases v@.len() - i,
    {
        push_char(&mut r, v[i]);
        i = i + 1;
        assert(r@ =~= v@.subrange(0, i as int));
    }
    assert(v@.subrange(0, v@.len() as int) =~= v@);
    r
}

/// `s` with `p` appended.
pub fn push_str(s: &mut Vec<char>, p: &str)
    ensures
        final(s)@ == old(s)@ + p@,
{
    let pc = chars_of(p);
    let mut i: usize = 0;
    let ghost s0 = s@;
    while i < pc.len()
        invariant
            0 <= i <= pc@.len(),
            pc@ == p@,
            s@ == s0 + pc@.subrange(0, i as int),
        decreases pc@.len() - i,
    {
        s.push(pc[i]);
        i = i + 1;
        assert(s@ =~= s0 + pc@.subrange(0, i as int));
    }
    assert(pc@.subrange(0, pc@.len() as int) =~= pc@);
}

/// `s` with the characters of `p` appended.
pub fn push_chars(s: &mut Vec<char>, p: &Vec<char>)
    ensures
        final(s)@ == old(s)@ + p@,
{
    let mut i: usize = 0;
    let ghost s0 = s@;
    while i < p.len()
        invariant
            0 <= i <= p@.len(),
            s@ == s0 + p@.subrange(0, i as int),
        decreases p@.len() - i,
    {
        s.push(p[i]);
        i = i + 1;
        assert(s@ =~= s0 + p@.subrange(0, i as int));
    }
    assert(p@.subrange(0, p@.len() as int) =~= p@);
}

/// The decimal digit character for `d` (`0..=9`).
pub open spec fn digit_char(d: int) -> char {
    if d == 0 { '0' } else if d == 1 { '1' } else if d == 2 { '2' } else if d == 3 { '3' }
    else if d == 4 { '4' } else if d == 5 { '5' } else if d == 6 { '6' } else if d == 7 { '7' }
    else if d == 8 { '8' } else { '9' }
}

/// `n` in decimal, without leading zeros (`u64::to_string`).
pub open spec fn decimal(n: nat) -> Seq<char>
    decreases n,
{
    if n < 10 {
        seq![digit_char(n as int)]
    } else {
        decimal(n / 10).push(digit_char((n % 10) as int))
    }
}

fn digit_of(d: u64) -> (r: char)
    requires
        d < 10,
    ensures
        r == digit_char(d as int),
{
    if d == 0 { '0' } else if d == 1 { '1' } else if d == 2 { '2' } else if d == 3 { '3' }
    else if d == 4 { '4' } else if d == 5 { '5' } else if d == 6 { '6' } else if d == 7 { '7' }
    else if d == 8 { '8' } else { '9' }
}

/// Appends `n` in decimal to `s`.
pub fn push_decimal(s: &mut Vec<char>, n: u64)
    ensures
        final(s)@ == old(s)@ + decimal(n as nat),
    decreases n,
{
    if n < 10 {
        s.push(digit_of(n));
        assert(decimal(n as nat) =~= seq![digit_char(n as int)]);
    } else {
        let ghost s0 = s@;
        push_decimal(s, n / 10);
        s.push(digit_of(n % 10));
        assert(s@ =~= s0 + decimal(n as nat));
    }
}

/// `n` in decimal.
pub fn decimal_string(n: u64) -> (r: String)
    ensures
        r@ == decimal(n as nat),
{
    let mut v: Vec<char> = Vec::new();
    push_decimal(&mut v, n);
    assert(v@ =~= decimal(n as nat));
    string_of(&v)
}

/// Whether `p` occurs anywhere in `s` (`str::contains`).
pub open spec fn contains(s: Seq<char>, p: Seq<char>) -> bool {
    find_from(s, p, 0) is Some
}

/// Whether the characters of `p` occur in `s`.
pub fn contains_str(s: &Vec<char>, p: &str) -> (r: bool)
    ensures
        r == contains(s@, p@),
{
    let pc = chars_of(p);
    find(s, &pc).is_some()
}

/// `s` without its prefix `p`, when it has it (`str::strip_prefix`).
pub fn strip_prefix(s: &Vec<char>, p: &str) -> (r: Option<Vec<char>>)
    ensures
        match r {
            Some(rest) => starts_with(s@, p@) && rest@ == s@.skip(p@.len() as int),
            None => !starts_with(s@, p@),
        },
{
    let pc = chars_of(p);
    if matches_at(s, &pc, 0) {
        Some(slice_chars(s, pc.len(), s.len()))
    } else {
        None
    }
}

/// Where the part of `s[..j]` after its last `c` begins (0 when there is
/// no `c`).
pub open spec fn segment_start(s: Seq<char>, c: char, j: int) -> int
    decreases j,
{
    if j <= 0 {
        0
    } else if s[j - 1] == c {
        j
    } else {
        segment_start(s, c, j - 1)
    }
}

/// The part of `s` after its last `c` (`s.rsplit(c).next()`).
pub open spec fn last_segment(s: Seq<char>, c: char) -> Seq<char> {
    s.subrange(segment_start(s, c, s.len() as int), s.len() as int)
}

pub proof fn lemma_segment_start_bounds(s: Seq<char>, c: char, j: int)
    requires
        0 <= j <= s.len(),
    ensures
        0 <= segment_start(s, c, j) <= j,
    decreases j,
{
    if j > 0 && s[j - 1] != c {
        lemma_segment_start_bounds(s, c, j - 1);
    }
}

/// The characters of `s` after its last `c`.
pub fn last_segment_of(s: &Vec<char>, c: char) -> (r: Vec<char>)
    ensures
        r@ == last_segment(s@, c),
{
    let mut j: usize = s.len();
    while j > 0 && s[j - 1] != c
        invariant
            0 <= j <= s@.len(),
            segment_start(s@, c, s@.len() as int) == segment_start(s@, c, j as int),
        decreases j,
    {
        j = j - 1;
    }
    slice_chars(s, j, s.len())
}


/// A copy of `v`.
pub fn copy_chars(v: &Vec<char>) -> (r: Vec<char>)
    ensures
        r@ == v@,
{
    let r = slice_chars(v, 0, v.len());
    assert(v@.subrange(0, v@.len() as int) =~= v@);
    r
}

/// The characters held by an optional string.
pub open spec fn opt_view(o: Option<String>) -> Option<Seq<char>> {
    match o {
        Some(s) => Some(s@),
        None => None,
    }
}

/// The characters held by an optional character vector.
pub open spec fn opt_chars(o: Option<Vec<char>>) -> Option<Seq<char>> {
    match o {
        Some(v) => Some(v@),
        None => None,
    }
}

/// The trimmed rest of the last line of `ls[..j]` that begins with `p`;
/// empty when there is none.
pub open spec fn last_field(ls: Seq<Seq<char>>, p: Seq<char>, j: int) -> Seq<char>
    decreases j,
{
    if j <= 0 || j > ls.len() {
        Seq::empty()
    } else if starts_with(ls[j - 1], p) {
        trim(ls[j - 1].skip(p.len() as int))
    } else {
        last_field(ls, p, j - 1)
    }
}

/// The trimmed rest of the last line that begins with `p`.
pub fn last_field_of(ls: &Vec<Vec<char>>, p: &str) -> (r: Vec<char>)
    ensures
        r@ == last_field(views(ls@), p@, ls@.len() as int),
{
    let mut j: usize = ls.len();
    while j > 0
        invariant
            0 <= j <= ls@.len(),
            last_field(views(ls@), p@, ls@.len() as int) == last_field(views(ls@), p@, j as int),
        decreases j,
    {
        assert(views(ls@)[j - 1] == ls@[j - 1]@);
        match strip_prefix(&ls[j - 1], p) {
            Some(rest) => {
                return trimmed(&rest);
            },
            None => {},
        }
        j = j - 1;
    }
    Vec::new()
}


/// `s` without leading whitespace (`str::trim_start`).
pub open spec fn trim_start(s: Seq<char>) -> Seq<char> {
    s.skip(trim_start_index(s, 0))
}

/// The characters of `trim_start(s)`.
pub fn trim_start_of(s: &Vec<char>) -> (r: Vec<char>)
    ensures
        r@ == trim_start(s@),
{
    let (lo, _) = trim_bounds(s);
    let r = slice_chars(s, lo, s.len());
    assert(r@ =~= trim_start(s@));
    r
}

/// The index of the first character at or after `i` that is not `c`.
pub open spec fn skip_char(s: Seq<char>, c: char, i: int) -> int
    decreases s.len() - i,
{
    if i < 0 || i >= s.len() {
        s.len() as int
    } else if s[i] == c {
        skip_char(s, c, i + 1)
    } else {
        i
    }
}

/// `s` without its leading `c`s (`str::trim_start_matches(c)`).
pub open spec fn trim_start_char(s: Seq<char>, c: char) -> Seq<char> {
    s.skip(skip_char(s, c, 0))
}

pub proof fn lemma_skip_char_bounds(s: Seq<char>, c: char, i: int)
    requires
        0 <= i <= s.len(),
    ensures
        i <= skip_char(s, c, i) <= s.len(),
    decreases s.len() - i,
{
    if i < s.len() && s[i] == c {
        lemma_skip_char_bounds(s, c, i + 1);
    }
}

/// The characters of `trim_start_char(s, c)`.
pub fn trim_start_char_of(s: &Vec<char>, c: char) -> (r: Vec<char>)
    ensures
        r@ == trim_start_char(s@, c),
{
    let mut i: usize = 0;
    while i < s.len() && s[i] == c
        invariant
            0 <= i <= s@.len(),
            skip_char(s@, c, 0) == skip_char(s@, c, i as int),
        decreases s@.len() - i,
    {
        i = i + 1;
    }
    let r = slice_chars(s, i, s.len());
    assert(r@ =~= trim_start_char(s@, c));
    r
}

/// A `u8` written in base `radix` (`u8::from_str_radix`).
pub open spec fn byte_value(s: Seq<char>, radix: int) -> Option<u8> {
    match unsigned_value(s, radix) {
        Some(v) => if 0 <= v <= 255 {
            Some(v as u8)
        } else {
            None
        },
        None => None,
    }
}

/// Parse a `u8` in base 10 or 16.
pub fn parse_u8(s: &Vec<char>, radix: u32) -> (r: Option<u8>)
    requires
        radix == 10 || radix == 16,
    ensures
        r == byte_value(s@, radix as int),
{
    match parse_unsigned(s, radix, 255) {
        Some(v) => Some(v as u8),
        None => None,
    }
}


/// The lower-case hexadecimal digit for `d` (`0..=15`).
pub open spec fn hex_char(d: int) -> char {
    if d < 10 {
        ((48 + d) as u32) as char
    } else {
        ((87 + d) as u32) as char
    }
}

/// `v` as `0x` and two lower-case hexadecimal digits (`{v:#04x}`).
pub open spec fn hex_byte(v: u8) -> Seq<char> {
    seq!['0', 'x', hex_char((v / 16) as int), hex_char((v % 16) as int)]
}

fn hex_digit_char(d: u8) -> (r: char)
    requires
        d < 16,
    ensures
        r == hex_char(d as int),
{
    let code: u8 = if d < 10 {
        48 + d
    } else {
        87 + d
    };
    code as char
}

/// Appends `hex_byte(v)` to `s`.
pub fn push_hex_byte(s: &mut Vec<char>, v: u8)
    ensures
        final(s)@ == old(s)@ + hex_byte(v),
{
    let ghost s0 = s@;
    s.push('0');
    s.push('x');
    s.push(hex_digit_char(v / 16));
    s.push(hex_digit_char(v % 16));
    assert(s@ =~= s0 + hex_byte(v));
}

/// `hex_byte(v)` as a `String`.
pub fn hex_byte_string(v: u8) -> (r: String)
    ensures
        r@ == hex_byte(v),
{
    let mut cs: Vec<char> = Vec::new();
    push_hex_byte(&mut cs, v);
    assert(cs@ =~= hex_byte(v));
    string_of(&cs)
}

} // verus!
