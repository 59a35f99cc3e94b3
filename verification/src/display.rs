//! Refresh rate of the active display: parsers for `kscreen-doctor -o`
//! (KDE) and `xrandr` (X11) output, the choices made on them, and on the
//! monitor state that GNOME Mutter reports. Running the tools, and GNOME's
//! D-Bus interface, are left to the caller.
use vstd::prelude::*;
use crate::runner::{Call, CommandRunner, Runs, args1, grows, lemma_grows_push, lemma_grows_trans, since, strings_view};
use crate::text::{
    all_digits, chars_of, contains, contains_str, copy_chars, digits_value, eq_chars, eq_str, find, find_from,
    is_whitespace, is_ws, last_segment, last_segment_of, lemma_digits_value_nonneg,
    decimal, lemma_next_char_bounds, lines, lines_of, next_char, parse_unsigned, push_chars,
    push_decimal, push_str, slice_chars,
    string_of, unsigned_value, views, words, words_of, opt_view,
};

verus! {

/// What the display page shows.
#[derive(Clone, Debug, Default)]
pub struct DisplayInfo {
    pub supported: bool,
    pub output: String,
    pub resolution: String,
    pub current_hz: u32,
    pub available_hz: Vec<u32>,
    /// Filled when unsupported, explains what to do instead.
    pub hint: String,
}

/// `v` is strictly increasing: sorted, each rate once.
pub open spec fn strictly_increasing(v: Seq<u32>) -> bool {
    forall|i: int, j: int| 0 <= i < j < v.len() ==> v[i] < v[j]
}

/// The index of the first `c` in `s`, or its length.
pub fn index_of_char(s: &Vec<char>, c: char) -> (r: usize)
    ensures
        r == next_char(s@, c, 0),
        r <= s@.len(),
{
    proof {
        lemma_next_char_bounds(s@, c, 0);
    }
    let mut i: usize = 0;
    while i < s.len() && s[i] != c
        invariant
            0 <= i <= s@.len(),
            next_char(s@, c, 0) == next_char(s@, c, i as int),
        decreases s@.len() - i,
    {
        i = i + 1;
    }
    i
}

/// Whether every character is a decimal digit.
pub fn all_decimal(s: &Vec<char>) -> (r: bool)
    ensures
        r == all_digits(s@, 10),
{
    let mut i: usize = 0;
    while i < s.len()
        invariant
            0 <= i <= s@.len(),
            forall|k: int| 0 <= k < i ==> crate::text::dec_value(#[trigger] s@[k]) is Some,
        decreases s@.len() - i,
    {
        if crate::text::dec_digit(s[i]).is_none() {
            return false;
        }
        i = i + 1;
    }
    true
}

/// A refresh rate as `str::parse::<f32>` reads the decimal forms
/// (`[+-]digits[.digits]`, at least one digit) and `f32::round` then `as
/// u32` turn it into whole hertz: rounded half away from zero, negatives
/// to 0, large values to `u32::MAX`. The rounding is done on the exact
/// decimal value.
pub open spec fn rate_value(s: Seq<char>) -> Option<u32> {
    let neg = s.len() > 0 && s[0] == '-';
    let body = if s.len() > 0 && (s[0] == '+' || s[0] == '-') {
        s.skip(1)
    } else {
        s
    };
    let dot = next_char(body, '.', 0);
    let ip = body.take(dot);
    let fp = if dot < body.len() {
        body.skip(dot + 1)
    } else {
        Seq::empty()
    };
    if ip.len() + fp.len() == 0 || !all_digits(ip, 10) || !all_digits(fp, 10) {
        None
    } else if neg {
        Some(0)
    } else {
        let v = digits_value(ip, 10) + if fp.len() > 0 && fp[0] >= '5' {
            1int
        } else {
            0int
        };
        Some(
            if v > u32::MAX {
                u32::MAX
            } else {
                v as u32
            },
        )
    }
}

/// Parse a refresh rate.
pub fn parse_rate(s: &Vec<char>) -> (r: Option<u32>)
    ensures
        r == rate_value(s@),
{
    let neg = s.len() > 0 && s[0] == '-';
    let start: usize = if s.len() > 0 && (s[0] == '+' || s[0] == '-') {
        1
    } else {
        0
    };
    let body = slice_chars(s, start, s.len());
    assert(body@ =~= (if s@.len() > 0 && (s@[0] == '+' || s@[0] == '-') {
        s@.skip(1)
    } else {
        s@
    }));
    let dot = index_of_char(&body, '.');
    let ip = slice_chars(&body, 0, dot);
    assert(ip@ =~= body@.take(dot as int));
    let fp = if dot < body.len() {
        slice_chars(&body, dot + 1, body.len())
    } else {
        Vec::new()
    };
    assert(fp@ =~= (if dot < body@.len() {
        body@.skip(dot + 1)
    } else {
        Seq::<char>::empty()
    }));
    if ip.len() + fp.len() == 0 || !all_decimal(&ip) || !all_decimal(&fp) {
        return None;
    }
    if neg {
        return Some(0);
    }
    let bump: u64 = if fp.len() > 0 && fp[0] >= '5' {
        1
    } else {
        0
    };
    proof {
        lemma_digits_value_nonneg(ip@, 10);
    }
    let iv: u64 = if ip.len() == 0 {
        assert(digits_value(ip@, 10) == 0);
        0
    } else {
        assert(unsigned_value(ip@, 10) == Some(digits_value(ip@, 10))) by {
            if ip@.len() > 0 && ip@[0] == '+' {
                assert(crate::text::dec_value(ip@[0]) is Some);
            }
        }
        match parse_unsigned(&ip, 10, u64::MAX) {
            Some(v) => v,
            None => u64::MAX,
        }
    };
    if iv >= 0xffff_ffff {
        Some(u32::MAX)
    } else {
        let v: u64 = iv + bump;
        if v > 0xffff_ffff {
            Some(u32::MAX)
        } else {
            Some(v as u32)
        }
    }
}

/// `s` without trailing `a`s and `b`s (`trim_end_matches([a, b])`).
pub open spec fn trim_end_two(s: Seq<char>, a: char, b: char) -> Seq<char>
    decreases s.len(),
{
    if s.len() > 0 && (s.last() == a || s.last() == b) {
        trim_end_two(s.drop_last(), a, b)
    } else {
        s
    }
}

pub fn trim_end_two_of(s: &Vec<char>, a: char, b: char) -> (r: Vec<char>)
    ensures
        r@ == trim_end_two(s@, a, b),
{
    let mut j: usize = s.len();
    assert(s@.take(s@.len() as int) =~= s@);
    while j > 0 && (s[j - 1] == a || s[j - 1] == b)
        invariant
            0 <= j <= s@.len(),
            trim_end_two(s@, a, b) == trim_end_two(s@.take(j as int), a, b),
        decreases j,
    {
        assert(s@.take(j as int).drop_last() =~= s@.take(j - 1));
        j = j - 1;
    }
    let r = slice_chars(s, 0, j);
    assert(r@ =~= s@.take(j as int));
    assert(s@.take(s@.len() as int) =~= s@);
    r
}

/// Insert `x` into a strictly increasing list.
pub fn insert_sorted(v: &mut Vec<u32>, x: u32)
    requires
        strictly_increasing(old(v)@),
    ensures
        strictly_increasing(final(v)@),
        final(v)@.to_set() == old(v)@.to_set().insert(x),
{
    let ghost v0 = v@;
    let mut i: usize = 0;
    while i < v.len() && v[i] < x
        invariant
            v@ == v0,
            strictly_increasing(v0),
            0 <= i <= v0.len(),
            forall|k: int| 0 <= k < i ==> v0[k] < x,
        decreases v0.len() - i,
    {
        i = i + 1;
    }
    if i < v.len() && v[i] == x {
        assert(v0.to_set().insert(x) =~= v0.to_set()) by {
            assert(v0.contains(x)) by {
                assert(v0[i as int] == x);
            }
        }
        return;
    }
    v.insert(i, x);
    assert(v@ =~= v0.take(i as int).push(x) + v0.skip(i as int));
    assert(strictly_increasing(v@)) by {
        assert forall|a: int, b: int| 0 <= a < b < v@.len() implies v@[a] < v@[b] by {
            if b < i {
                assert(v@[a] == v0[a] && v@[b] == v0[b]);
            } else if b == i {
                assert(v@[a] == v0[a]);
            } else if a > i {
                assert(v@[a] == v0[a - 1] && v@[b] == v0[b - 1]);
            } else if a == i {
                assert(v@[b] == v0[b - 1]);
                assert(v0[i as int] >= x);
                if b - 1 > i {
                    assert(v0[i as int] < v0[b - 1]);
                }
            } else {
                assert(v@[a] == v0[a] && v@[b] == v0[b - 1]);
            }
        }
    }
    assert(v@.to_set() =~= v0.to_set().insert(x)) by {
        assert forall|y: u32| v@.to_set().contains(y) <==> v0.to_set().insert(x).contains(y) by {
            if v@.to_set().contains(y) {
                let k = choose|k: int| 0 <= k < v@.len() && v@[k] == y;
                if k < i {
                    assert(v0[k] == y);
                } else if k > i {
                    assert(v0[k - 1] == y);
                }
            }
            if v0.to_set().contains(y) {
                let k = choose|k: int| 0 <= k < v0.len() && v0[k] == y;
                if k < i {
                    assert(v@[k] == y);
                } else {
                    assert(v@[k + 1] == y);
                }
            }
            if y == x {
                assert(v@[i as int] == x);
            }
        }
    }
}


/// An ASCII letter.
pub open spec fn is_ascii_alpha(c: char) -> bool {
    ('a' <= c <= 'z') || ('A' <= c <= 'Z')
}

/// The first ASCII letter at or after `i`, or the length.
pub open spec fn alpha_index(s: Seq<char>, i: int) -> int
    decreases s.len() - i,
{
    if i < 0 || i >= s.len() {
        s.len() as int
    } else if is_ascii_alpha(s[i]) {
        i
    } else {
        alpha_index(s, i + 1)
    }
}

pub proof fn lemma_alpha_index_bounds(s: Seq<char>, i: int)
    requires
        0 <= i <= s.len(),
    ensures
        i <= alpha_index(s, i) <= s.len(),
    decreases s.len() - i,
{
    if i < s.len() && !is_ascii_alpha(s[i]) {
        lemma_alpha_index_bounds(s, i + 1);
    }
}

/// `s[i..]` without terminal escape sequences: an ESC and everything up to
/// and including the next ASCII letter.
pub open spec fn strip_ansi_from(s: Seq<char>, i: int) -> Seq<char>
    decreases s.len() - i,
{
    if i < 0 || i >= s.len() {
        Seq::empty()
    } else if s[i] == '\u{1b}' {
        let j = alpha_index(s, i + 1);
        proof {
            lemma_alpha_index_bounds(s, i + 1);
        }
        if j >= s.len() {
            Seq::empty()
        } else {
            strip_ansi_from(s, j + 1)
        }
    } else {
        seq![s[i]] + strip_ansi_from(s, i + 1)
    }
}

pub open spec fn strip_ansi(s: Seq<char>) -> Seq<char> {
    strip_ansi_from(s, 0)
}

/// The characters of `strip_ansi(s)`.
pub fn strip_ansi_of(s: &Vec<char>) -> (r: Vec<char>)
    ensures
        r@ == strip_ansi(s@),
{
    let mut out: Vec<char> = Vec::new();
    let mut i: usize = 0;
    assert(strip_ansi(s@) =~= out@ + strip_ansi_from(s@, 0));
    while i < s.len()
        invariant
            0 <= i <= s@.len(),
            strip_ansi(s@) == out@ + strip_ansi_from(s@, i as int),
        decreases s@.len() - i,
    {
        if s[i] == '\u{1b}' {
            proof {
                lemma_alpha_index_bounds(s@, i + 1);
            }
            let mut j: usize = i + 1;
            while j < s.len() && !(('a' <= s[j] && s[j] <= 'z') || ('A' <= s[j] && s[j] <= 'Z'))
                invariant
                    i < j <= s@.len(),
                    alpha_index(s@, i + 1) == alpha_index(s@, j as int),
                decreases s@.len() - j,
            {
                j = j + 1;
            }
            if j >= s.len() {
                assert(strip_ansi_from(s@, i as int) =~= Seq::<char>::empty());
                assert(out@ + Seq::<char>::empty() =~= out@);
                assert(out@ + strip_ansi_from(s@, s@.len() as int) =~= out@);
                i = s.len();
            } else {
                i = j + 1;
            }
        } else {
            let ghost before = out@;
            out.push(s[i]);
            assert(out@ + strip_ansi_from(s@, i + 1) =~= before + strip_ansi_from(s@, i as int));
            i = i + 1;
        }
    }
    assert(out@ + strip_ansi_from(s@, i as int) =~= out@);
    out
}

/// What a parsed display reports: output, resolution, current rate, and
/// the set of rates at that resolution.
pub type InfoView = (Seq<char>, Seq<char>, u32, Set<u32>);

pub open spec fn info_of(d: DisplayInfo) -> InfoView {
    (d.output@, d.resolution@, d.current_hz, d.available_hz@.to_set())
}

/// A parser's result is supported, has no hint, and lists its rates in
/// increasing order, each once.
pub open spec fn parsed_well(d: DisplayInfo) -> bool {
    d.supported && d.hint@ == Seq::<char>::empty() && strictly_increasing(d.available_hz@)
}

pub open spec fn opt_info(o: Option<DisplayInfo>) -> Option<InfoView> {
    match o {
        Some(d) => Some(info_of(d)),
        None => None,
    }
}

/// Whether one of `ws` is `w`.
pub fn has_word(ws: &Vec<Vec<char>>, w: &str) -> (r: bool)
    ensures
        r == views(ws@).contains(w@),
{
    let wc = chars_of(w);
    let mut i: usize = 0;
    while i < ws.len()
        invariant
            0 <= i <= ws@.len(),
            wc@ == w@,
            forall|k: int| 0 <= k < i ==> views(ws@)[k] != w@,
        decreases ws@.len() - i,
    {
        assert(views(ws@)[i as int] == ws@[i as int]@);
        if eq_chars(&ws[i], &wc) {
            assert(views(ws@)[i as int] == w@);
            return true;
        }
        i = i + 1;
    }
    false
}

/// A `u32` in decimal (`str::parse::<u32>`).
pub open spec fn u32_value(s: Seq<char>) -> Option<u32> {
    match unsigned_value(s, 10) {
        Some(v) => if 0 <= v <= u32::MAX {
            Some(v as u32)
        } else {
            None
        },
        None => None,
    }
}

/// The KScreen priority: the word after the first `priority` (0 when
/// there is none or it is no number).
pub open spec fn priority_from(ws: Seq<Seq<char>>, i: int) -> u32
    decreases ws.len() - i,
{
    if i < 0 || i + 1 >= ws.len() {
        0
    } else if ws[i] == "priority"@ {
        match u32_value(ws[i + 1]) {
            Some(v) => v,
            None => 0,
        }
    } else {
        priority_from(ws, i + 1)
    }
}

fn priority_of(ws: &Vec<Vec<char>>) -> (r: u32)
    ensures
        r == priority_from(views(ws@), 0),
{
    let ghost wv = views(ws@);
    let mut i: usize = 0;
    while i < ws.len() && i + 1 < ws.len()
        invariant
            wv == views(ws@),
            0 <= i <= ws@.len(),
            priority_from(wv, 0) == priority_from(wv, i as int),
        decreases ws@.len() - i,
    {
        assert(wv[i as int] == ws@[i as int]@);
        assert(wv[i + 1] == ws@[i + 1]@);
        if eq_str(&ws[i], "priority") {
            return match parse_unsigned(&ws[i + 1], 10, 0xffff_ffff) {
                Some(v) => v as u32,
                None => 0,
            };
        }
        i = i + 1;
    }
    0
}

/// The part of a line between its first `Modes:` and the next one (or the
/// end): `line.split("Modes:").nth(1)`.
pub open spec fn modes_piece(line: Seq<char>) -> Option<Seq<char>> {
    match find_from(line, "Modes:"@, 0) {
        None => None,
        Some(p) => {
            let rest = line.skip(p + "Modes:"@.len());
            match find_from(rest, "Modes:"@, 0) {
                Some(q) => Some(rest.take(q)),
                None => Some(rest),
            }
        },
    }
}

proof fn lemma_find_from_bounds(s: Seq<char>, p: Seq<char>, i: int)
    requires
        0 <= i,
    ensures
        find_from(s, p, i) matches Some(k) ==> i <= k && k + p.len() <= s.len(),
    decreases s.len() + 1 - i,
{
    if i <= s.len() && !(0 <= i && i + p.len() <= s.len() && s.subrange(i, i + p.len()) == p) {
        lemma_find_from_bounds(s, p, i + 1);
    }
}

fn modes_piece_of(line: &Vec<char>) -> (r: Option<Vec<char>>)
    ensures
        crate::text::opt_chars(r) == modes_piece(line@),
{
    let key = chars_of("Modes:");
    match find(line, &key) {
        None => None,
        Some(p) => {
            proof {
                lemma_find_from_bounds(line@, key@, 0);
                assert(find_from(line@, key@, 0) == Some(p as int));
                assert(p + key@.len() <= line@.len());
            }
            let n: usize = line.len();
            let klen: usize = key.len();
            assert(p + klen <= n);
            let rest = slice_chars(line, p + klen, n);
            assert(rest@ =~= line@.skip(p + key@.len()));
            match find(&rest, &key) {
                Some(q) => {
                    proof {
                        lemma_find_from_bounds(rest@, key@, 0);
                    }
                    let piece = slice_chars(&rest, 0, q);
                    assert(piece@ =~= rest@.take(q as int));
                    Some(piece)
                },
                None => Some(rest),
            }
        },
    }
}

/// One `id:WxH@rate` token of KScreen's mode list: resolution, rounded
/// rate, and whether it is marked current (`*`).
pub open spec fn token_mode(tok: Seq<char>) -> Option<(Seq<char>, u32, bool)> {
    let sp = last_segment(tok, ':');
    let at = next_char(sp, '@', 0);
    if at >= sp.len() {
        None
    } else {
        let rest = sp.skip(at + 1);
        match rate_value(trim_end_two(rest, '*', '!')) {
            None => None,
            Some(hz) => Some((sp.take(at), hz, next_char(rest, '*', 0) < rest.len())),
        }
    }
}

fn token_mode_of(tok: &Vec<char>) -> (r: Option<(Vec<char>, u32, bool)>)
    ensures
        match token_mode(tok@) {
            Some((res, hz, star)) => r matches Some(x) && x.0@ == res && x.1 == hz && x.2 == star,
            None => r is None,
        },
{
    let sp = last_segment_of(tok, ':');
    let at = index_of_char(&sp, '@');
    if at >= sp.len() {
        return None;
    }
    let rest = slice_chars(&sp, at + 1, sp.len());
    assert(rest@ =~= sp@.skip(at + 1));
    match parse_rate(&trim_end_two_of(&rest, '*', '!')) {
        None => None,
        Some(hz) => {
            let star = index_of_char(&rest, '*') < rest.len();
            let res = slice_chars(&sp, 0, at);
            assert(res@ =~= sp@.take(at as int));
            Some((res, hz, star))
        },
    }
}

/// The scan of KScreen mode tokens from `i` on: the current mode's
/// resolution and rate, and every (resolution, rate) seen.
pub open spec fn kscan(
    toks: Seq<Seq<char>>,
    i: int,
    res: Seq<char>,
    hz: u32,
    rates: Seq<(Seq<char>, u32)>,
) -> (Seq<char>, u32, Seq<(Seq<char>, u32)>)
    decreases toks.len() - i,
{
    if i < 0 || i >= toks.len() {
        (res, hz, rates)
    } else {
        match token_mode(toks[i]) {
            None => kscan(toks, i + 1, res, hz, rates),
            Some((r, h, star)) => if star {
                kscan(toks, i + 1, r, h, rates.push((r, h)))
            } else {
                kscan(toks, i + 1, res, hz, rates.push((r, h)))
            },
        }
    }
}

/// The rates seen at resolution `res`.
pub open spec fn rates_at(rates: Seq<(Seq<char>, u32)>, res: Seq<char>) -> Set<u32> {
    Set::new(|h: u32| exists|k: int| 0 <= k < rates.len() && rates[k] == (res, h))
}

pub open spec fn pairs_view(v: Seq<(Vec<char>, u32)>) -> Seq<(Seq<char>, u32)> {
    v.map_values(|e: (Vec<char>, u32)| (e.0@, e.1))
}

/// The rates at `res`, increasing, each once.
fn rates_for(rates: &Vec<(Vec<char>, u32)>, res: &Vec<char>) -> (r: Vec<u32>)
    ensures
        strictly_increasing(r@),
        r@.to_set() == rates_at(pairs_view(rates@), res@),
{
    let ghost rv = pairs_view(rates@);
    let mut out: Vec<u32> = Vec::new();
    let mut i: usize = 0;
    assert(out@.to_set() =~= Set::<u32>::empty());
    while i < rates.len()
        invariant
            rv == pairs_view(rates@),
            0 <= i <= rates@.len(),
            strictly_increasing(out@),
            out@.to_set() == rates_at(rv.take(i as int), res@),
        decreases rates@.len() - i,
    {
        let ghost before = out@.to_set();
        let ghost t0 = rv.take(i as int);
        let ghost t1 = rv.take(i + 1);
        assert(rv[i as int] == (rates@[i as int].0@, rates@[i as int].1));
        if eq_chars(&rates[i].0, res) {
            insert_sorted(&mut out, rates[i].1);
            assert(out@.to_set() =~= rates_at(rv.take(i + 1), res@)) by {
                assert forall|h: u32| out@.to_set().contains(h) <==> rates_at(rv.take(i + 1), res@).contains(h) by {
                    if rates_at(rv.take(i + 1), res@).contains(h) {
                        let k = choose|k: int| 0 <= k < t1.len() && #[trigger] t1[k] == (res@, h);
                        if k < i {
                            assert(t0[k] == t1[k]);
                        }
                    }
                    if before.contains(h) {
                        let k = choose|k: int| 0 <= k < t0.len() && #[trigger] t0[k] == (res@, h);
                        assert(t1[k] == t0[k]);
                    }
                    if h == rates@[i as int].1 {
                        assert(t1[i as int] == (res@, h));
                    }
                }
            }
        } else {
            assert(out@.to_set() =~= rates_at(rv.take(i + 1), res@)) by {
                assert forall|h: u32| out@.to_set().contains(h) <==> rates_at(rv.take(i + 1), res@).contains(h) by {
                    if rates_at(rv.take(i + 1), res@).contains(h) {
                        let k = choose|k: int| 0 <= k < t1.len() && #[trigger] t1[k] == (res@, h);
                        if k < i {
                            assert(t0[k] == t1[k]);
                        }
                    }
                    if before.contains(h) {
                        let k = choose|k: int| 0 <= k < t0.len() && #[trigger] t0[k] == (res@, h);
                        assert(t1[k] == t0[k]);
                    }
                }
            }
        }
        i = i + 1;
    }
    assert(rv.take(rates@.len() as int) =~= rv);
    out
}


/// One line of `kscreen-doctor -o`: an enabled, connected output with a
/// current mode gives its priority and what it shows. An active output
/// line looks like `Output: 1 eDP-1 enabled connected priority 1 Panel
/// Modes: 0:2560x1600@240*! 1:2560x1600@60 ...`.
pub open spec fn kscreen_line_spec(line: Seq<char>) -> Option<(u32, InfoView)> {
    let ws = words(line);
    if !(contains(line, "Output:"@) && ws.contains("enabled"@) && ws.contains("connected"@))
        || ws.len() < 3 {
        None
    } else {
        match modes_piece(line) {
            None => None,
            Some(piece) => {
                let sc = kscan(words(piece), 0, Seq::empty(), 0, Seq::empty());
                if sc.1 == 0 {
                    None
                } else {
                    Some((priority_from(ws, 0), (ws[2], sc.0, sc.1, rates_at(sc.2, sc.0))))
                }
            },
        }
    }
}

fn kscreen_line(line: &Vec<char>) -> (r: Option<(u32, DisplayInfo)>)
    ensures
        match kscreen_line_spec(line@) {
            Some((p, iv)) => r matches Some(x) && x.0 == p && info_of(x.1) == iv && parsed_well(x.1),
            None => r is None,
        },
{
    let ws = words_of(line);
    if !(contains_str(line, "Output:") && has_word(&ws, "enabled") && has_word(&ws, "connected")) {
        return None;
    }
    if ws.len() < 3 {
        return None;
    }
    let piece = match modes_piece_of(line) {
        None => {
            return None;
        },
        Some(p) => p,
    };
    let toks = words_of(&piece);
    let ghost tv = views(toks@);
    let mut res: Vec<char> = Vec::new();
    let mut hz: u32 = 0;
    let mut rates: Vec<(Vec<char>, u32)> = Vec::new();
    let mut i: usize = 0;
    assert(pairs_view(rates@) =~= Seq::<(Seq<char>, u32)>::empty());
    while i < toks.len()
        invariant
            tv == views(toks@),
            0 <= i <= toks@.len(),
            kscan(tv, 0, Seq::empty(), 0, Seq::empty()) == kscan(
                tv,
                i as int,
                res@,
                hz,
                pairs_view(rates@),
            ),
        decreases toks@.len() - i,
    {
        assert(tv[i as int] == toks@[i as int]@);
        match token_mode_of(&toks[i]) {
            None => {},
            Some(m) => {
                let ghost before = pairs_view(rates@);
                let (r, h, star) = m;
                rates.push((copy_chars(&r), h));
                assert(pairs_view(rates@) =~= before.push((r@, h)));
                if star {
                    res = r;
                    hz = h;
                }
            },
        }
        i = i + 1;
    }
    if hz == 0 {
        return None;
    }
    let available = rates_for(&rates, &res);
    assert(views(ws@)[2] == ws@[2]@);
    Some(
        (
            priority_of(&ws),
            DisplayInfo {
                supported: true,
                output: string_of(&ws[2]),
                resolution: string_of(&res),
                current_hz: hz,
                available_hz: available,
                hint: String::new(),
            },
        ),
    )
}

/// KScreen priority 1 is the primary output; when no output has it, the
/// lowest positive priority wins, and a missing or zero priority sorts
/// last.
pub open spec fn rank(p: u32) -> u32 {
    if p == 0 {
        u32::MAX
    } else {
        p
    }
}

/// The best output among lines `i..`, given the best so far (ties keep the
/// earlier one).
pub open spec fn kbest(ls: Seq<Seq<char>>, i: int, best: Option<(u32, InfoView)>) -> Option<InfoView>
    decreases ls.len() - i,
{
    if i < 0 || i >= ls.len() {
        match best {
            Some((_, v)) => Some(v),
            None => None,
        }
    } else {
        match kscreen_line_spec(ls[i]) {
            None => kbest(ls, i + 1, best),
            Some((p, v)) => match best {
                Some((bk, _)) => if bk <= rank(p) {
                    kbest(ls, i + 1, best)
                } else {
                    kbest(ls, i + 1, Some((rank(p), v)))
                },
                None => kbest(ls, i + 1, Some((rank(p), v))),
            },
        }
    }
}

pub open spec fn kscreen_spec(out: Seq<char>) -> Option<InfoView> {
    kbest(lines(strip_ansi(out)), 0, None)
}

pub open spec fn opt_ranked(o: Option<(u32, DisplayInfo)>) -> Option<(u32, InfoView)> {
    match o {
        Some((k, d)) => Some((k, info_of(d))),
        None => None,
    }
}

/// The output `kscreen-doctor -o` shows as primary.
pub fn kscreen(out: &str) -> (r: Option<DisplayInfo>)
    ensures
        opt_info(r) == kscreen_spec(out@),
        r matches Some(d) ==> parsed_well(d),
{
    let clean = strip_ansi_of(&chars_of(out));
    let ls = lines_of(&clean);
    let ghost lv = views(ls@);
    let mut best: Option<(u32, DisplayInfo)> = None;
    let mut i: usize = 0;
    while i < ls.len()
        invariant
            lv == views(ls@),
            lv == lines(strip_ansi(out@)),
            0 <= i <= ls@.len(),
            kscreen_spec(out@) == kbest(lv, i as int, opt_ranked(best)),
            best matches Some(b) ==> parsed_well(b.1),
        decreases ls@.len() - i,
    {
        assert(lv[i as int] == ls@[i as int]@);
        match kscreen_line(&ls[i]) {
            None => {},
            Some(found) => {
                let (p, info) = found;
                let key = if p == 0 {
                    u32::MAX
                } else {
                    p
                };
                let replace = match &best {
                    Some(b) => b.0 > key,
                    None => true,
                };
                if replace {
                    best = Some((key, info));
                }
            },
        }
        i = i + 1;
    }
    match best {
        Some(b) => Some(b.1),
        None => None,
    }
}


/// A line that begins with a space: one of xrandr's mode lines.
pub open spec fn mode_line(l: Seq<char>) -> bool {
    l.len() > 0 && l[0] == ' '
}

/// The end of the run of mode lines starting at `j`.
pub open spec fn block_end(ls: Seq<Seq<char>>, j: int) -> int
    decreases ls.len() - j,
{
    if j < 0 || j >= ls.len() {
        ls.len() as int
    } else if mode_line(ls[j]) {
        block_end(ls, j + 1)
    } else {
        j
    }
}

pub proof fn lemma_block_end_bounds(ls: Seq<Seq<char>>, j: int)
    requires
        0 <= j <= ls.len(),
    ensures
        j <= block_end(ls, j) <= ls.len(),
    decreases ls.len() - j,
{
    if j < ls.len() && mode_line(ls[j]) {
        lemma_block_end_bounds(ls, j + 1);
    }
}

/// Whether a rate field carries the current-mode mark `*`.
pub open spec fn has_star(r: Seq<char>) -> bool {
    next_char(r, '*', 0) < r.len()
}

/// The rate fields of the current resolution's mode line from `k` on: the
/// current rate and the rates seen, in order.
pub open spec fn xscan_rates(rs: Seq<Seq<char>>, k: int, cur: u32, avail: Seq<u32>) -> (u32, Seq<u32>)
    decreases rs.len() - k,
{
    if k < 0 || k >= rs.len() {
        (cur, avail)
    } else {
        match rate_value(trim_end_two(rs[k], '*', '+')) {
            None => xscan_rates(rs, k + 1, cur, avail),
            Some(hz) => xscan_rates(
                rs,
                k + 1,
                if has_star(rs[k]) {
                    hz
                } else {
                    cur
                },
                avail.push(hz),
            ),
        }
    }
}

/// The mode lines `j..e` of one output: the current resolution, its
/// current rate, and the rates listed on current-resolution lines.
pub open spec fn xmodes(
    ls: Seq<Seq<char>>,
    j: int,
    e: int,
    res: Seq<char>,
    cur: u32,
    avail: Seq<u32>,
) -> (Seq<char>, u32, Seq<u32>)
    decreases e - j,
{
    if j < 0 || j >= e || j >= ls.len() {
        (res, cur, avail)
    } else {
        let ws = words(ls[j]);
        if ws.len() == 0 {
            xmodes(ls, j + 1, e, res, cur, avail)
        } else {
            let rs = ws.skip(1);
            if exists|k: int| 0 <= k < rs.len() && has_star(#[trigger] rs[k]) {
                let sc = xscan_rates(rs, 0, cur, avail);
                xmodes(ls, j + 1, e, ws[0], sc.0, sc.1)
            } else {
                xmodes(ls, j + 1, e, res, cur, avail)
            }
        }
    }
}

/// An output header line of xrandr: not indented, says ` connected`.
pub open spec fn xheader(l: Seq<char>) -> bool {
    !(l.len() > 0 && is_ws(l[0])) && contains(l, " connected"@) && words(l).len() > 0
}

/// The active outputs among lines `i..`: whether each is primary, and what
/// it shows. Connected but disabled outputs have no current mode and are
/// left out.
pub open spec fn xcands(ls: Seq<Seq<char>>, i: int) -> Seq<(bool, InfoView)>
    decreases ls.len() - i,
{
    if i < 0 || i >= ls.len() {
        Seq::empty()
    } else if !xheader(ls[i]) {
        xcands(ls, i + 1)
    } else {
        let e = block_end(ls, i + 1);
        proof {
            lemma_block_end_bounds(ls, i + 1);
        }
        let m = xmodes(ls, i + 1, e, Seq::empty(), 0, Seq::empty());
        let ws = words(ls[i]);
        (if m.1 != 0 {
            seq![(ws.contains("primary"@), (ws[0], m.0, m.1, m.2.to_set()))]
        } else {
            Seq::empty()
        }) + xcands(ls, e)
    }
}

/// The first primary candidate from `k` on.
pub open spec fn first_primary(cs: Seq<(bool, InfoView)>, k: int) -> Option<InfoView>
    decreases cs.len() - k,
{
    if k < 0 || k >= cs.len() {
        None
    } else if cs[k].0 {
        Some(cs[k].1)
    } else {
        first_primary(cs, k + 1)
    }
}

/// The primary active output, else the first active one.
pub open spec fn xrandr_spec(out: Seq<char>) -> Option<InfoView> {
    let cs = xcands(lines(out), 0);
    match first_primary(cs, 0) {
        Some(v) => Some(v),
        None => if cs.len() > 0 {
            Some(cs[0].1)
        } else {
            None
        },
    }
}

/// The distinct values of `v`, increasing.
fn sorted_unique(v: &Vec<u32>) -> (r: Vec<u32>)
    ensures
        strictly_increasing(r@),
        r@.to_set() == v@.to_set(),
{
    let mut r: Vec<u32> = Vec::new();
    let mut i: usize = 0;
    assert(r@.to_set() =~= v@.take(0).to_set());
    while i < v.len()
        invariant
            0 <= i <= v@.len(),
            strictly_increasing(r@),
            r@.to_set() == v@.take(i as int).to_set(),
        decreases v@.len() - i,
    {
        insert_sorted(&mut r, v[i]);
        assert(v@.take(i + 1) =~= v@.take(i as int).push(v@[i as int]));
        proof {
            v@.take(i as int).lemma_push_to_set_commute(v@[i as int]);
        }
        i = i + 1;
    }
    assert(v@.take(v@.len() as int) =~= v@);
    r
}

pub open spec fn cands_view(v: Seq<(bool, DisplayInfo)>) -> Seq<(bool, InfoView)> {
    v.map_values(|c: (bool, DisplayInfo)| (c.0, info_of(c.1)))
}

/// Scan the rate fields of a current-resolution mode line.
fn scan_rates(rs: &Vec<Vec<char>>, cur: &mut u32, avail: &mut Vec<u32>)
    ensures
        (*final(cur), final(avail)@) == xscan_rates(views(rs@), 0, *old(cur), old(avail)@),
{
    let ghost rv = views(rs@);
    let mut k: usize = 0;
    while k < rs.len()
        invariant
            rv == views(rs@),
            0 <= k <= rs@.len(),
            xscan_rates(rv, 0, *old(cur), old(avail)@) == xscan_rates(rv, k as int, *cur, avail@),
        decreases rs@.len() - k,
    {
        assert(rv[k as int] == rs@[k as int]@);
        match parse_rate(&trim_end_two_of(&rs[k], '*', '+')) {
            None => {},
            Some(hz) => {
                if index_of_char(&rs[k], '*') < rs[k].len() {
                    *cur = hz;
                }
                avail.push(hz);
            },
        }
        k = k + 1;
    }
}

/// Whether some field carries `*`.
fn any_star(rs: &Vec<Vec<char>>) -> (r: bool)
    ensures
        r == exists|k: int| 0 <= k < rs@.len() && has_star(#[trigger] views(rs@)[k]),
{
    let mut k: usize = 0;
    while k < rs.len()
        invariant
            0 <= k <= rs@.len(),
            forall|j: int| 0 <= j < k ==> !has_star(#[trigger] views(rs@)[j]),
        decreases rs@.len() - k,
    {
        assert(views(rs@)[k as int] == rs@[k as int]@);
        if index_of_char(&rs[k], '*') < rs[k].len() {
            return true;
        }
        k = k + 1;
    }
    false
}

/// The output `xrandr` shows as primary (else the first active one). An
/// active output block looks like:
/// ```text
/// eDP-1 connected primary 2560x1600+0+0 ...
///    2560x1600    240.00*+  60.00
/// ```
pub fn xrandr(out: &str) -> (r: Option<DisplayInfo>)
    ensures
        opt_info(r) == xrandr_spec(out@),
        r matches Some(d) ==> parsed_well(d),
{
    let text = chars_of(out);
    let ls = lines_of(&text);
    let ghost lv = views(ls@);
    let mut cands: Vec<(bool, DisplayInfo)> = Vec::new();
    let mut index: usize = 0;
    assert(cands_view(cands@) + xcands(lv, 0) =~= xcands(lv, 0));
    while index < ls.len()
        invariant
            lv == views(ls@),
            lv == lines(out@),
            0 <= index <= ls@.len(),
            xcands(lv, 0) == cands_view(cands@) + xcands(lv, index as int),
            forall|k: int| 0 <= k < cands@.len() ==> parsed_well(#[trigger] cands@[k].1),
        decreases ls@.len() - index,
    {
        let hdr = index;
        assert(lv[hdr as int] == ls@[hdr as int]@);
        let line = &ls[index];
        index = index + 1;
        let indented = line.len() > 0 && is_whitespace(line[0]);
        if indented || !contains_str(line, " connected") {
            continue;
        }
        let ws = words_of(line);
        if ws.len() == 0 {
            continue;
        }
        assert(views(ws@)[0] == ws@[0]@);
        let primary = has_word(&ws, "primary");
        let mut resolution: Vec<char> = Vec::new();
        let mut current: u32 = 0;
        let mut available: Vec<u32> = Vec::new();
        proof {
            lemma_block_end_bounds(lv, index as int);
        }
        let ghost e = block_end(lv, index as int);
        while index < ls.len()
            invariant_except_break
                lv == views(ls@),
                hdr < index <= e <= ls@.len(),
                block_end(lv, index as int) == e,
                xmodes(lv, hdr + 1, e, Seq::empty(), 0, Seq::empty()) == xmodes(
                    lv,
                    index as int,
                    e,
                    resolution@,
                    current,
                    available@,
                ),
            ensures
                lv == views(ls@),
                index == e,
                e <= ls@.len(),
                xmodes(lv, hdr + 1, e, Seq::empty(), 0, Seq::empty()) == (
                    resolution@,
                    current,
                    available@,
                ),
            decreases ls@.len() - index,
        {
            assert(lv[index as int] == ls@[index as int]@);
            let mode = &ls[index];
            if !(mode.len() > 0 && mode[0] == ' ') {
                break;
            }
            index = index + 1;
            proof {
                lemma_block_end_bounds(lv, index as int);
            }
            let parts = words_of(mode);
            if parts.len() == 0 {
                continue;
            }
            let rates = slice_words(&parts, 1);
            assert(views(rates@) =~= views(parts@).skip(1));
            if any_star(&rates) {
                assert(views(parts@)[0] == parts@[0]@);
                resolution = copy_chars(&parts[0]);
                scan_rates(&rates, &mut current, &mut available);
            }
        }
        if current != 0 {
            let sorted = sorted_unique(&available);
            let info = DisplayInfo {
                supported: true,
                output: string_of(&ws[0]),
                resolution: string_of(&resolution),
                current_hz: current,
                available_hz: sorted,
                hint: String::new(),
            };
            let ghost before = cands_view(cands@);
            cands.push((primary, info));
            assert(cands_view(cands@) =~= before.push((primary, info_of(info))));
            assert(xcands(lv, hdr as int) =~= seq![(primary, info_of(info))] + xcands(lv, e));
            assert(cands_view(cands@) + xcands(lv, index as int) =~= before + xcands(lv, hdr as int));
        } else {
            assert(xcands(lv, hdr as int) =~= xcands(lv, e));
        }
    }
    assert(cands_view(cands@) + xcands(lv, index as int) =~= cands_view(cands@));
    let ghost cv = cands_view(cands@);
    let mut k: usize = 0;
    assert(xcands(lv, 0) == cv);
    while k < cands.len()
        invariant
            cv == cands_view(cands@),
            xcands(lines(out@), 0) == cv,
            forall|j: int| 0 <= j < cands@.len() ==> parsed_well(#[trigger] cands@[j].1),
            0 <= k <= cands@.len(),
            first_primary(cv, 0) == first_primary(cv, k as int),
        decreases cands@.len() - k,
    {
        assert(cv[k as int].0 == cands@[k as int].0);
        if cands[k].0 {
            assert(cv[k as int].1 == info_of(cands@[k as int].1));
            assert(parsed_well(cands@[k as int].1));
            let c = cands.remove(k);
            return Some(c.1);
        }
        k = k + 1;
    }
    if cands.len() > 0 {
        assert(cv[0].1 == info_of(cands@[0].1));
        assert(parsed_well(cands@[0].1));
        let c = cands.remove(0);
        Some(c.1)
    } else {
        None
    }
}

/// `ws[from..]` as a new list.
fn slice_words(ws: &Vec<Vec<char>>, from: usize) -> (r: Vec<Vec<char>>)
    requires
        from <= ws@.len(),
    ensures
        views(r@) == views(ws@).skip(from as int),
{
    let mut r: Vec<Vec<char>> = Vec::new();
    let mut i: usize = from;
    while i < ws.len()
        invariant
            from <= i <= ws@.len(),
            views(r@) == views(ws@).subrange(from as int, i as int),
        decreases ws@.len() - i,
    {
        let ghost before = views(r@);
        assert(views(ws@)[i as int] == ws@[i as int]@);
        r.push(copy_chars(&ws[i]));
        assert(views(r@) =~= before.push(ws@[i as int]@));
        assert(views(r@) =~= views(ws@).subrange(from as int, i + 1));
        i = i + 1;
    }
    assert(views(ws@).subrange(from as int, ws@.len() as int) =~= views(ws@).skip(from as int));
    r
}


/// What to do when no tool can report the refresh rate.
pub open spec fn unsupported_hint() -> Seq<char> {
    "No supported tool found. On GNOME Wayland use Settings → Displays; otherwise install kscreen-doctor (KDE) or run an X11 session (xrandr)."@
}

/// The answer when no tool can report the refresh rate.
pub fn unsupported() -> (r: DisplayInfo)
    ensures
        !r.supported,
        r.hint@ == unsupported_hint(),
        r.output@ == Seq::<char>::empty(),
        r.available_hz@ == Seq::<u32>::empty(),
        r.current_hz == 0,
{
    DisplayInfo {
        supported: false,
        output: String::new(),
        resolution: String::new(),
        current_hz: 0,
        available_hz: Vec::new(),
        hint: String::from_str(
            "No supported tool found. On GNOME Wayland use Settings → Displays; otherwise install kscreen-doctor (KDE) or run an X11 session (xrandr).",
        ),
    }
}

/// What `get` reports, given the calls it made after GNOME's interface
/// gave nothing: `kscreen-doctor -o`, then `xrandr`; the first whose
/// output parses wins. `Some(None)` is "unsupported"; `None` means the
/// calls were not these.
pub open spec fn get_spec(calls: Seq<Call>) -> Option<Option<InfoView>> {
    if calls.len() == 0 || calls[0].0 != "kscreen-doctor"@ || calls[0].1 != seq!["-o"@] {
        None
    } else if calls[0].2 matches Ok(out) && kscreen_spec(out) is Some {
        if calls.len() == 1 {
            Some(kscreen_spec(calls[0].2->Ok_0))
        } else {
            None
        }
    } else if calls.len() != 2 || calls[1].0 != "xrandr"@ || calls[1].1 != Seq::<Seq<char>>::empty() {
        None
    } else if calls[1].2 matches Ok(out) && xrandr_spec(out) is Some {
        Some(xrandr_spec(calls[1].2->Ok_0))
    } else {
        Some(None)
    }
}

/// The display as reported. `gnome` is what GNOME's DisplayConfig
/// interface reported, when it answered; otherwise `kscreen-doctor` and
/// `xrandr` are asked in turn.
pub fn get<R: CommandRunner>(gnome: Option<DisplayInfo>, runs: &mut Runs<R>) -> (r: DisplayInfo)
    ensures
        gnome matches Some(g) ==> r == g && final(runs).log@ == old(runs).log@,
        gnome is None ==> grows(old(runs).log@, final(runs).log@) && match get_spec(
            since(old(runs).log@, final(runs).log@),
        ) {
            Some(Some(v)) => info_of(r) == v && parsed_well(r),
            Some(None) => !r.supported && r.hint@ == unsupported_hint(),
            None => false,
        },
{
    if let Some(g) = gnome {
        return g;
    }
    let ghost log0 = runs.log@;
    let no_args: Vec<String> = Vec::new();
    assert(strings_view(no_args@) =~= Seq::<Seq<char>>::empty());
    let k = runs.run("kscreen-doctor", &args1("-o"));
    proof {
        lemma_grows_push(log0, runs.log@.last());
        assert(runs.log@ == log0.push(runs.log@.last()));
    }
    let ghost log1 = runs.log@;
    if let Ok(out) = &k {
        if let Some(info) = kscreen(out.as_str()) {
            return info;
        }
    }
    let x = runs.run("xrandr", &no_args);
    proof {
        lemma_grows_push(log1, runs.log@.last());
        assert(runs.log@ == log1.push(runs.log@.last()));
        lemma_grows_trans(log0, log1, runs.log@);
    }
    if let Ok(out) = &x {
        if let Some(info) = xrandr(out.as_str()) {
            return info;
        }
    }
    unsupported()
}

/// Whether `hz` is among `v`.
fn lists(v: &Vec<u32>, hz: u32) -> (r: bool)
    ensures
        r == v@.contains(hz),
{
    let mut i: usize = 0;
    while i < v.len()
        invariant
            0 <= i <= v@.len(),
            forall|k: int| 0 <= k < i ==> v@[k] != hz,
        decreases v@.len() - i,
    {
        if v[i] == hz {
            assert(v@[i as int] == hz);
            return true;
        }
        i = i + 1;
    }
    false
}

/// `{hz} Hz not available on {output}`.
pub open spec fn not_available_message(hz: u32, output: Seq<char>) -> Seq<char> {
    decimal(hz as nat) + " Hz not available on "@ + output
}

fn not_available(hz: u32, output: &String) -> (r: String)
    ensures
        r@ == not_available_message(hz, output@),
{
    let mut v: Vec<char> = Vec::new();
    push_decimal(&mut v, hz as u64);
    push_str(&mut v, " Hz not available on ");
    push_chars(&mut v, &chars_of(output.as_str()));
    assert(v@ =~= not_available_message(hz, output@));
    string_of(&v)
}

/// The `kscreen-doctor` argument that selects `hz` at the current mode:
/// `output.{output}.mode.{resolution}@{hz}`.
pub open spec fn kscreen_mode_arg(output: Seq<char>, res: Seq<char>, hz: u32) -> Seq<char> {
    "output."@ + output + ".mode."@ + res + "@"@ + decimal(hz as nat)
}

fn kscreen_arg(info: &DisplayInfo, hz: u32) -> (r: String)
    ensures
        r@ == kscreen_mode_arg(info.output@, info.resolution@, hz),
{
    let mut v: Vec<char> = Vec::new();
    push_str(&mut v, "output.");
    push_chars(&mut v, &chars_of(info.output.as_str()));
    push_str(&mut v, ".mode.");
    push_chars(&mut v, &chars_of(info.resolution.as_str()));
    push_str(&mut v, "@");
    push_decimal(&mut v, hz as u64);
    assert(v@ =~= kscreen_mode_arg(info.output@, info.resolution@, hz));
    string_of(&v)
}

/// The `xrandr` arguments that select `hz` at the current mode.
pub open spec fn xrandr_mode_args(output: Seq<char>, res: Seq<char>, hz: u32) -> Seq<Seq<char>> {
    seq!["--output"@, output, "--mode"@, res, "--rate"@, decimal(hz as nat)]
}

fn xrandr_args(info: &DisplayInfo, hz: u32) -> (r: Vec<String>)
    ensures
        strings_view(r@) == xrandr_mode_args(info.output@, info.resolution@, hz),
{
    let r = vec![
        String::from_str("--output"),
        info.output.clone(),
        String::from_str("--mode"),
        info.resolution.clone(),
        String::from_str("--rate"),
        crate::text::decimal_string(hz as u64),
    ];
    assert(strings_view(r@) =~= xrandr_mode_args(info.output@, info.resolution@, hz));
    r
}

/// Switch the display to `hz` at its current resolution through
/// `kscreen-doctor` or, failing that, `xrandr` (GNOME's interface is the
/// caller's). A rate the display does not list is refused; a tool's failure
/// is passed on; on success the display is read back.
pub fn set<R: CommandRunner>(runs: &mut Runs<R>, hz: u32) -> (r: Result<DisplayInfo, String>)
    ensures
        grows(old(runs).log@, final(runs).log@),
        since(old(runs).log@, final(runs).log@).len() >= 1,
        since(old(runs).log@, final(runs).log@)[0].0 == "kscreen-doctor"@,
        since(old(runs).log@, final(runs).log@)[0].1 == seq!["-o"@],
        ({
            let calls = since(old(runs).log@, final(runs).log@);
            match calls[0].2 {
                Ok(out) if kscreen_spec(out) is Some => {
                    let v = kscreen_spec(out).unwrap();
                    if !v.3.contains(hz) {
                        r matches Err(e) && e@ == not_available_message(hz, v.0) && calls.len() == 1
                    } else {
                        &&& calls.len() >= 2
                        &&& calls[1].0 == "kscreen-doctor"@
                        &&& calls[1].1 == seq![kscreen_mode_arg(v.0, v.1, hz)]
                        &&& calls[1].2 matches Err(e) ==> (r matches Err(m) && m@ == e
                            && calls.len() == 2)
                        &&& calls[1].2 is Ok ==> (r matches Ok(d) && match get_spec(calls.skip(2)) {
                            Some(Some(w)) => info_of(d) == w && parsed_well(d),
                            Some(None) => !d.supported && d.hint@ == unsupported_hint(),
                            None => false,
                        })
                    }
                },
                _ => {
                    &&& calls.len() >= 2
                    &&& calls[1].0 == "xrandr"@
                    &&& calls[1].1 == Seq::<Seq<char>>::empty()
                    &&& match calls[1].2 {
                        Err(_) => r matches Err(e) && e@ == unsupported_hint() && calls.len() == 2,
                        Ok(out) => match xrandr_spec(out) {
                            None => r matches Err(e) && e@ == unsupported_hint() && calls.len() == 2,
                            Some(v) => if !v.3.contains(hz) {
                                r matches Err(e) && e@ == not_available_message(hz, v.0)
                                    && calls.len() == 2
                            } else {
                                &&& calls.len() >= 3
                                &&& calls[2].0 == "xrandr"@
                                &&& calls[2].1 == xrandr_mode_args(v.0, v.1, hz)
                                &&& calls[2].2 matches Err(e) ==> (r matches Err(m) && m@ == e
                                    && calls.len() == 3)
                                &&& calls[2].2 is Ok ==> (r matches Ok(d) && match get_spec(
                                    calls.skip(3),
                                ) {
                                    Some(Some(w)) => info_of(d) == w && parsed_well(d),
                                    Some(None) => !d.supported && d.hint@ == unsupported_hint(),
                                    None => false,
                                })
                            },
                        },
                    }
                },
            }
        }),
{
    let ghost log0 = runs.log@;
    let k = runs.run("kscreen-doctor", &args1("-o"));
    proof {
        lemma_grows_push(log0, runs.log@.last());
        assert(runs.log@ == log0.push(runs.log@.last()));
    }
    let ghost log1 = runs.log@;
    if let Ok(out) = &k {
        if let Some(info) = kscreen(out.as_str()) {
            proof {
                assert(info.available_hz@.to_set().contains(hz) == info.available_hz@.contains(hz));
            }
            if !lists(&info.available_hz, hz) {
                return Err(not_available(hz, &info.output));
            }
            let arg = kscreen_arg(&info, hz);
            let args = vec![arg];
            assert(strings_view(args@) =~= seq![kscreen_mode_arg(info.output@, info.resolution@, hz)]);
            let applied = runs.run("kscreen-doctor", &args);
            proof {
                lemma_grows_push(log1, runs.log@.last());
                assert(runs.log@ == log1.push(runs.log@.last()));
                lemma_grows_trans(log0, log1, runs.log@);
            }
            let ghost log2 = runs.log@;
            match applied {
                Err(e) => {
                    return Err(e);
                },
                Ok(_) => {},
            }
            let after = get(None, runs);
            proof {
                lemma_grows_trans(log0, log2, runs.log@);
                assert(since(log0, runs.log@).skip(2) =~= since(log2, runs.log@));
            }
            return Ok(after);
        }
    }
    let no_args: Vec<String> = Vec::new();
    assert(strings_view(no_args@) =~= Seq::<Seq<char>>::empty());
    let x = runs.run("xrandr", &no_args);
    proof {
        lemma_grows_push(log1, runs.log@.last());
        assert(runs.log@ == log1.push(runs.log@.last()));
        lemma_grows_trans(log0, log1, runs.log@);
    }
    let ghost log2 = runs.log@;
    let out = match x {
        Ok(o) => o,
        Err(_) => {
            return Err(unsupported().hint);
        },
    };
    let info = match xrandr(out.as_str()) {
        Some(i) => i,
        None => {
            return Err(unsupported().hint);
        },
    };
    proof {
        assert(info.available_hz@.to_set().contains(hz) == info.available_hz@.contains(hz));
    }
    if !lists(&info.available_hz, hz) {
        return Err(not_available(hz, &info.output));
    }
    let applied = runs.run("xrandr", &xrandr_args(&info, hz));
    proof {
        lemma_grows_push(log2, runs.log@.last());
        assert(runs.log@ == log2.push(runs.log@.last()));
        lemma_grows_trans(log0, log2, runs.log@);
    }
    let ghost log3 = runs.log@;
    match applied {
        Err(e) => {
            return Err(e);
        },
        Ok(_) => {},
    }
    let after = get(None, runs);
    proof {
        lemma_grows_trans(log0, log3, runs.log@);
        assert(since(log0, runs.log@).skip(3) =~= since(log3, runs.log@));
    }
    Ok(after)
}

// ---- GNOME Mutter ---------------------------------------------------------------

/// One mode of a monitor as Mutter's DisplayConfig reports it. Mutter gives
/// the refresh rate as a floating-point number; `hz` is that rate rounded,
/// and `rank` orders the monitor's modes by their exact rates (equal rates,
/// equal ranks).
pub struct MutterMode {
    pub id: String,
    pub width: i32,
    pub height: i32,
    pub hz: u32,
    pub rank: u64,
    /// The mode is the monitor's current one (`is-current`).
    pub current: bool,
}

/// A physical monitor: its connector and its modes.
pub struct MutterMonitor {
    pub connector: String,
    pub modes: Vec<MutterMode>,
}

/// A logical monitor: whether it is the primary one, and the connectors of
/// the monitors it shows.
pub struct MutterLogical {
    pub primary: bool,
    pub connectors: Vec<String>,
}

/// The index of the first primary logical monitor from `i` on, or the
/// number of logical monitors.
pub open spec fn first_primary_from(l: Seq<MutterLogical>, i: int) -> int
    decreases l.len() - i,
{
    if i < 0 || i >= l.len() {
        l.len() as int
    } else if l[i].primary {
        i
    } else {
        first_primary_from(l, i + 1)
    }
}

/// The connector to drive: the primary logical monitor's first output, else
/// the first logical monitor's.
pub open spec fn mutter_target(l: Seq<MutterLogical>) -> Option<Seq<char>> {
    let p = first_primary_from(l, 0);
    let k = if p < l.len() {
        p
    } else {
        0
    };
    if k < l.len() && l[k].connectors@.len() > 0 {
        Some(l[k].connectors@[0]@)
    } else {
        None
    }
}

/// The index of the first monitor from `i` on with connector `c`, or the
/// number of monitors.
pub open spec fn monitor_index(m: Seq<MutterMonitor>, c: Seq<char>, i: int) -> int
    decreases m.len() - i,
{
    if i < 0 || i >= m.len() {
        m.len() as int
    } else if m[i].connector@ == c {
        i
    } else {
        monitor_index(m, c, i + 1)
    }
}

/// The index of the first current mode from `i` on, or the number of modes.
pub open spec fn current_index(modes: Seq<MutterMode>, i: int) -> int
    decreases modes.len() - i,
{
    if i < 0 || i >= modes.len() {
        modes.len() as int
    } else if modes[i].current {
        i
    } else {
        current_index(modes, i + 1)
    }
}

/// The rounded rates among the first `i` modes at resolution `w`x`h`.
pub open spec fn rates_at_resolution(modes: Seq<MutterMode>, w: i32, h: i32, i: int) -> Set<u32>
    decreases i,
{
    if i <= 0 || i > modes.len() {
        Set::empty()
    } else {
        let rest = rates_at_resolution(modes, w, h, i - 1);
        if modes[i - 1].width == w && modes[i - 1].height == h {
            rest.insert(modes[i - 1].hz)
        } else {
            rest
        }
    }
}

/// An integer as `{}` writes it.
pub open spec fn signed_decimal(n: int) -> Seq<char> {
    if n < 0 {
        "-"@ + decimal((-n) as nat)
    } else {
        decimal(n as nat)
    }
}

/// A resolution as `{width}x{height}`.
pub open spec fn resolution_text(w: i32, h: i32) -> Seq<char> {
    signed_decimal(w as int) + "x"@ + signed_decimal(h as int)
}

/// What the display page shows on GNOME: the target monitor's connector,
/// its current resolution and rounded rate, and the rounded rates offered
/// at that resolution.
pub open spec fn mutter_info_spec(m: Seq<MutterMonitor>, l: Seq<MutterLogical>) -> Option<InfoView> {
    match mutter_target(l) {
        None => None,
        Some(c) => {
            let mi = monitor_index(m, c, 0);
            if mi >= m.len() {
                None
            } else {
                let modes = m[mi].modes@;
                let ci = current_index(modes, 0);
                if ci >= modes.len() {
                    None
                } else {
                    let cur = modes[ci];
                    Some(
                        (
                            c,
                            resolution_text(cur.width, cur.height),
                            cur.hz,
                            rates_at_resolution(modes, cur.width, cur.height, modes.len() as int),
                        ),
                    )
                }
            }
        },
    }
}

/// Among the first `i` modes, the index of the one to switch to: at
/// resolution `w`x`h`, rounding to `hz`, with the highest exact rate (the
/// last such on a tie); -1 when there is none.
pub open spec fn best_index(modes: Seq<MutterMode>, w: i32, h: i32, hz: u32, i: int) -> int
    decreases i,
{
    if i <= 0 || i > modes.len() {
        -1
    } else {
        let b = best_index(modes, w, h, hz, i - 1);
        let md = modes[i - 1];
        if md.width == w && md.height == h && md.hz == hz && (b < 0 || md.rank >= modes[b].rank) {
            i - 1
        } else {
            b
        }
    }
}

/// The current mode id of connector `c` among the first `i` monitors; where
/// several monitors carry `c`, the last one with a current mode counts.
pub open spec fn current_mode_of(m: Seq<MutterMonitor>, c: Seq<char>, i: int) -> Option<Seq<char>>
    decreases i,
{
    if i <= 0 || i > m.len() {
        None
    } else {
        let mon = m[i - 1];
        let ci = current_index(mon.modes@, 0);
        if mon.connector@ == c && ci < mon.modes@.len() {
            Some(mon.modes@[ci].id@)
        } else {
            current_mode_of(m, c, i - 1)
        }
    }
}

/// The (connector, mode id) pairs of one logical monitor, over its first
/// `i` connectors: the target gets the new mode, every other connector its
/// current one, and a connector without a current mode is left out.
pub open spec fn logical_plan(
    m: Seq<MutterMonitor>,
    target: Seq<char>,
    new_mode: Seq<char>,
    cs: Seq<String>,
    i: int,
) -> Seq<(Seq<char>, Seq<char>)>
    decreases i,
{
    if i <= 0 || i > cs.len() {
        Seq::empty()
    } else {
        let rest = logical_plan(m, target, new_mode, cs, i - 1);
        let c = cs[i - 1]@;
        if c == target {
            rest.push((c, new_mode))
        } else {
            match current_mode_of(m, c, m.len() as int) {
                Some(id) => rest.push((c, id)),
                None => rest,
            }
        }
    }
}

/// The whole layout handed back to Mutter, one list per logical monitor.
pub open spec fn layout_plan(m: Seq<MutterMonitor>, l: Seq<MutterLogical>, target: Seq<char>, new_mode: Seq<char>) -> Seq<Seq<(Seq<char>, Seq<char>)>> {
    Seq::new(
        l.len(),
        |k: int| logical_plan(m, target, new_mode, l[k].connectors@, l[k].connectors@.len() as int),
    )
}

/// Switching the target monitor to `hz`: the layout to apply, or why not.
pub open spec fn mutter_plan_spec(m: Seq<MutterMonitor>, l: Seq<MutterLogical>, hz: u32) -> Result<Seq<Seq<(Seq<char>, Seq<char>)>>, Seq<char>> {
    match mutter_target(l) {
        None => Err("no active monitor"@),
        Some(t) => {
            let mi = monitor_index(m, t, 0);
            if mi >= m.len() {
                Err("target monitor vanished"@)
            } else {
                let modes = m[mi].modes@;
                let ci = current_index(modes, 0);
                if ci >= modes.len() {
                    Err("no current mode"@)
                } else {
                    let b = best_index(modes, modes[ci].width, modes[ci].height, hz, modes.len() as int);
                    if b < 0 {
                        Err(decimal(hz as nat) + " Hz not available on "@ + t)
                    } else {
                        Ok(layout_plan(m, l, t, modes[b].id@))
                    }
                }
            }
        },
    }
}

pub open spec fn pairs_of(v: Seq<(String, String)>) -> Seq<(Seq<char>, Seq<char>)> {
    v.map_values(|p: (String, String)| (p.0@, p.1@))
}

pub open spec fn plan_view(v: Seq<Vec<(String, String)>>) -> Seq<Seq<(Seq<char>, Seq<char>)>> {
    v.map_values(|x: Vec<(String, String)>| pairs_of(x@))
}

fn same_text(a: &String, b: &String) -> (r: bool)
    ensures
        r == (a@ == b@),
{
    eq_chars(&chars_of(a.as_str()), &chars_of(b.as_str()))
}

fn mutter_target_of(l: &Vec<MutterLogical>) -> (r: Option<String>)
    ensures
        opt_view(r) == mutter_target(l@),
{
    let mut i: usize = 0;
    while i < l.len() && !l[i].primary
        invariant
            0 <= i <= l@.len(),
            first_primary_from(l@, 0) == first_primary_from(l@, i as int),
        decreases l@.len() - i,
    {
        i = i + 1;
    }
    let k = if i < l.len() {
        i
    } else {
        0
    };
    if k < l.len() && l[k].connectors.len() > 0 {
        Some(l[k].connectors[0].clone())
    } else {
        None
    }
}

fn monitor_of(m: &Vec<MutterMonitor>, c: &String) -> (r: usize)
    ensures
        r == monitor_index(m@, c@, 0),
{
    let mut i: usize = 0;
    while i < m.len() && !same_text(&m[i].connector, c)
        invariant
            0 <= i <= m@.len(),
            monitor_index(m@, c@, 0) == monitor_index(m@, c@, i as int),
        decreases m@.len() - i,
    {
        i = i + 1;
    }
    i
}

fn current_of(modes: &Vec<MutterMode>) -> (r: usize)
    ensures
        r == current_index(modes@, 0),
{
    let mut i: usize = 0;
    while i < modes.len() && !modes[i].current
        invariant
            0 <= i <= modes@.len(),
            current_index(modes@, 0) == current_index(modes@, i as int),
        decreases modes@.len() - i,
    {
        i = i + 1;
    }
    i
}

fn push_signed(v: &mut Vec<char>, n: i32)
    ensures
        final(v)@ == old(v)@ + signed_decimal(n as int),
{
    if n < 0 {
        push_str(v, "-");
        let abs: i64 = -(n as i64);
        push_decimal(v, abs as u64);
        assert(v@ =~= old(v)@ + ("-"@ + decimal((-(n as int)) as nat)));
    } else {
        push_decimal(v, n as u64);
    }
}

fn resolution_string(w: i32, h: i32) -> (r: String)
    ensures
        r@ == resolution_text(w, h),
{
    let mut v: Vec<char> = Vec::new();
    push_signed(&mut v, w);
    push_str(&mut v, "x");
    push_signed(&mut v, h);
    assert(v@ =~= resolution_text(w, h));
    string_of(&v)
}

/// What GNOME shows: the target monitor (the primary logical monitor's
/// first output, else the first one's), its current mode, and the rounded
/// rates offered at the current resolution, increasing, each once. `None`
/// when there is no target, no such monitor or no current mode.
pub fn mutter_info(monitors: &Vec<MutterMonitor>, logical: &Vec<MutterLogical>) -> (r: Option<DisplayInfo>)
    ensures
        opt_info(r) == mutter_info_spec(monitors@, logical@),
        r matches Some(d) ==> parsed_well(d),
{
    let target = match mutter_target_of(logical) {
        Some(t) => t,
        None => return None,
    };
    let mi = monitor_of(monitors, &target);
    if mi >= monitors.len() {
        return None;
    }
    let modes = &monitors[mi].modes;
    let ci = current_of(modes);
    if ci >= modes.len() {
        return None;
    }
    let w = modes[ci].width;
    let h = modes[ci].height;
    let mut available: Vec<u32> = Vec::new();
    let mut i: usize = 0;
    while i < modes.len()
        invariant
            0 <= i <= modes@.len(),
            strictly_increasing(available@),
            available@.to_set() == rates_at_resolution(modes@, w, h, i as int),
        decreases modes@.len() - i,
    {
        if modes[i].width == w && modes[i].height == h {
            insert_sorted(&mut available, modes[i].hz);
        }
        i = i + 1;
    }
    Some(DisplayInfo {
        supported: true,
        output: target,
        resolution: resolution_string(w, h),
        current_hz: modes[ci].hz,
        available_hz: available,
        hint: String::new(),
    })
}

fn best_of(modes: &Vec<MutterMode>, w: i32, h: i32, hz: u32) -> (r: Option<usize>)
    ensures
        match r {
            Some(b) => b as int == best_index(modes@, w, h, hz, modes@.len() as int) && b < modes@.len(),
            None => best_index(modes@, w, h, hz, modes@.len() as int) < 0,
        },
{
    let mut best: Option<usize> = None;
    let mut i: usize = 0;
    while i < modes.len()
        invariant
            0 <= i <= modes@.len(),
            match best {
                Some(b) => b as int == best_index(modes@, w, h, hz, i as int) && b < i,
                None => best_index(modes@, w, h, hz, i as int) == -1,
            },
        decreases modes@.len() - i,
    {
        let md = &modes[i];
        if md.width == w && md.height == h && md.hz == hz {
            let better = match best {
                None => true,
                Some(b) => md.rank >= modes[b].rank,
            };
            if better {
                best = Some(i);
            }
        }
        i = i + 1;
    }
    best
}

fn current_mode_for(monitors: &Vec<MutterMonitor>, c: &String) -> (r: Option<String>)
    ensures
        opt_view(r) == current_mode_of(monitors@, c@, monitors@.len() as int),
{
    let mut found: Option<String> = None;
    let mut i: usize = 0;
    while i < monitors.len()
        invariant
            0 <= i <= monitors@.len(),
            opt_view(found) == current_mode_of(monitors@, c@, i as int),
        decreases monitors@.len() - i,
    {
        let mon = &monitors[i];
        let ci = current_of(&mon.modes);
        if same_text(&mon.connector, c) && ci < mon.modes.len() {
            found = Some(mon.modes[ci].id.clone());
        }
        i = i + 1;
    }
    found
}

fn logical_pairs(monitors: &Vec<MutterMonitor>, target: &String, new_mode: &String, cs: &Vec<String>) -> (r: Vec<(String, String)>)
    ensures
        pairs_of(r@) == logical_plan(monitors@, target@, new_mode@, cs@, cs@.len() as int),
{
    let mut out: Vec<(String, String)> = Vec::new();
    let mut i: usize = 0;
    while i < cs.len()
        invariant
            0 <= i <= cs@.len(),
            pairs_of(out@) == logical_plan(monitors@, target@, new_mode@, cs@, i as int),
        decreases cs@.len() - i,
    {
        let c = &cs[i];
        let ghost before = out@;
        if same_text(c, target) {
            out.push((c.clone(), new_mode.clone()));
            assert(pairs_of(out@) =~= pairs_of(before).push((c@, new_mode@)));
        } else {
            match current_mode_for(monitors, c) {
                Some(id) => {
                    out.push((c.clone(), id));
                    assert(pairs_of(out@) =~= pairs_of(before).push((c@, id@)));
                },
                None => {},
            }
        }
        i = i + 1;
    }
    out
}

/// Switch GNOME's target monitor to `hz` at its current resolution: the
/// layout to hand back to Mutter, one list of (connector, mode id) per
/// logical monitor, with the target on the highest exact rate that rounds
/// to `hz` and every other monitor on its current mode. Refused, with the
/// reason, when there is no target, no such monitor, no current mode or no
/// such rate.
pub fn mutter_plan(monitors: &Vec<MutterMonitor>, logical: &Vec<MutterLogical>, hz: u32) -> (r: Result<Vec<Vec<(String, String)>>, String>)
    ensures
        match mutter_plan_spec(monitors@, logical@, hz) {
            Ok(p) => r matches Ok(v) && plan_view(v@) == p,
            Err(e) => r matches Err(m) && m@ == e,
        },
{
    let target = match mutter_target_of(logical) {
        Some(t) => t,
        None => return Err(String::from_str("no active monitor")),
    };
    let mi = monitor_of(monitors, &target);
    if mi >= monitors.len() {
        return Err(String::from_str("target monitor vanished"));
    }
    let modes = &monitors[mi].modes;
    let ci = current_of(modes);
    if ci >= modes.len() {
        return Err(String::from_str("no current mode"));
    }
    let b = match best_of(modes, modes[ci].width, modes[ci].height, hz) {
        Some(b) => b,
        None => {
            let mut v: Vec<char> = Vec::new();
            push_decimal(&mut v, hz as u64);
            push_str(&mut v, " Hz not available on ");
            push_chars(&mut v, &chars_of(target.as_str()));
            return Err(string_of(&v));
        },
    };
    let new_mode = modes[b].id.clone();
    let mut plan: Vec<Vec<(String, String)>> = Vec::new();
    let mut k: usize = 0;
    while k < logical.len()
        invariant
            0 <= k <= logical@.len(),
            plan@.len() == k,
            forall|j: int|
                0 <= j < k ==> pairs_of(#[trigger] plan@[j]@) == layout_plan(monitors@, logical@, target@, new_mode@)[j],
        decreases logical@.len() - k,
    {
        let pairs = logical_pairs(monitors, &target, &new_mode, &logical[k].connectors);
        plan.push(pairs);
        k = k + 1;
    }
    assert(plan_view(plan@) =~= layout_plan(monitors@, logical@, target@, new_mode@));
    Ok(plan)
}

} // verus!
