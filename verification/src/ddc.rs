//! External-monitor color and brightness control over DDC/CI, via the
//! `ddcutil` CLI.
//!
//! What is reachable on Linux is the external monitor's own hardware
//! controls over DDC/CI — here the color-temperature presets (VCP feature
//! 0x14) and the luminance (VCP feature 0x10). Laptop eDP panels don't speak DDC/CI, so this only ever drives an
//! external display.
use vstd::prelude::*;
use crate::api::ColorPreset;
use crate::runner::{
    Call, CommandRunner, Runs, args1, reply_view, grows, lemma_grows_push, lemma_grows_trans, since,
    strings_view,
};
use crate::text::{
    byte_value, chars_of, decimal, eq_str, hex_byte, hex_byte_string, find, find_from, lines, lines_of, parse_u8,
    parse_unsigned, push_decimal, unsigned_value,
    slice_chars, starts_with, string_of, strip_prefix, trim, trim_start, trim_start_char,
    trim_start_char_of, trim_start_of, trimmed, views, words, words_of,
};

verus! {

/// The number of curated presets.
pub const PRESET_COUNT: usize = 5;

/// Curated VCP 0x14 presets in UI order (value, label): the standard MCCS
/// color-temperature values.
pub open spec fn preset_entry(i: int) -> (u8, Seq<char>) {
    if i == 0 {
        (0x03, "Warm (5000K)"@)
    } else if i == 1 {
        (0x04, "sRGB · D65 (6500K)"@)
    } else if i == 2 {
        (0x05, "Neutral (7500K)"@)
    } else if i == 3 {
        (0x07, "Cool (9300K)"@)
    } else {
        (0x0B, "Custom (User)"@)
    }
}

fn preset_value(i: usize) -> (r: u8)
    requires
        i < PRESET_COUNT,
    ensures
        r == preset_entry(i as int).0,
{
    if i == 0 {
        0x03
    } else if i == 1 {
        0x04
    } else if i == 2 {
        0x05
    } else if i == 3 {
        0x07
    } else {
        0x0B
    }
}

fn preset_label(i: usize) -> (r: &'static str)
    requires
        i < PRESET_COUNT,
    ensures
        r@ == preset_entry(i as int).1,
{
    if i == 0 {
        "Warm (5000K)"
    } else if i == 1 {
        "sRGB · D65 (6500K)"
    } else if i == 2 {
        "Neutral (7500K)"
    } else if i == 3 {
        "Cool (9300K)"
    } else {
        "Custom (User)"
    }
}

/// The curated presets from `i` on that the monitor advertises (all of them
/// when it advertised none).
pub open spec fn offered(supported: Seq<u8>, i: int) -> Seq<(u8, Seq<char>)>
    decreases 5 - i,
{
    if i < 0 || i >= 5 {
        Seq::empty()
    } else {
        let keep = supported.len() == 0 || supported.contains(preset_entry(i).0);
        (if keep {
            seq![preset_entry(i)]
        } else {
            Seq::empty()
        }) + offered(supported, i + 1)
    }
}

/// A preset as (value, label).
pub open spec fn presets_view(v: Seq<ColorPreset>) -> Seq<(u8, Seq<char>)> {
    v.map_values(|p: ColorPreset| (p.value, p.name@))
}

/// The external monitor, as far as DDC/CI color control goes.
pub struct Ddc {
    /// ddcutil display number of the external monitor, if one was found.
    pub display: Option<u8>,
    pub presets: Vec<ColorPreset>,
    /// Last known VCP 0x14 value (cached; DDC reads are ~0.5 s each).
    pub current: Option<u8>,
    pub mock: bool,
    /// Last known VCP 0x10 (luminance) value and the monitor's maximum for
    /// it; `None` when the monitor does not report it.
    pub luminance: Option<(u16, u16)>,
}

/// What the daemon knows of the monitor: its display number, the offered
/// presets, the cached current value, whether it is simulated, and the
/// cached luminance with its maximum.
pub type DdcView = (Option<u8>, Seq<(u8, Seq<char>)>, Option<u8>, bool, Option<(u16, u16)>);

impl Ddc {
    pub open spec fn view(&self) -> DdcView {
        (self.display, presets_view(self.presets@), self.current, self.mock, self.luminance)
    }
}

fn is_supported(supported: &Vec<u8>, v: u8) -> (r: bool)
    ensures
        r == supported@.contains(v),
{
    let mut i: usize = 0;
    while i < supported.len()
        invariant
            0 <= i <= supported@.len(),
            forall|k: int| 0 <= k < i ==> supported@[k] != v,
        decreases supported@.len() - i,
    {
        if supported[i] == v {
            assert(supported@[i as int] == v);
            return true;
        }
        i = i + 1;
    }
    false
}

/// The presets to offer given what the monitor advertises.
pub fn offered_presets(supported: &Vec<u8>) -> (r: Vec<ColorPreset>)
    ensures
        presets_view(r@) == offered(supported@, 0),
{
    let mut r: Vec<ColorPreset> = Vec::new();
    let mut i: usize = 0;
    assert(offered(supported@, 0) =~= presets_view(r@) + offered(supported@, 0));
    while i < PRESET_COUNT
        invariant
            0 <= i <= PRESET_COUNT,
            offered(supported@, 0) == presets_view(r@) + offered(supported@, i as int),
        decreases PRESET_COUNT - i,
    {
        let v = preset_value(i);
        let keep = supported.len() == 0 || is_supported(supported, v);
        let ghost before = presets_view(r@);
        if keep {
            r.push(ColorPreset { value: v, name: String::from_str(preset_label(i)) });
            assert(presets_view(r@) =~= before.push(preset_entry(i as int)));
            assert(offered(supported@, i as int) =~= seq![preset_entry(i as int)] + offered(
                supported@,
                i + 1,
            ));
            assert(presets_view(r@) + offered(supported@, i + 1) =~= before + offered(
                supported@,
                i as int,
            ));
        } else {
            assert(offered(supported@, i as int) =~= offered(supported@, i + 1));
        }
        i = i + 1;
    }
    assert(presets_view(r@) + offered(supported@, 5) =~= presets_view(r@));
    r
}

/// The display number of the first `Display N` line of `ddcutil detect`
/// from line `i` on — laptop panels list as "Invalid display", so the
/// first real one is the external monitor.
pub open spec fn display_scan(ls: Seq<Seq<char>>, i: int) -> Option<u8>
    decreases ls.len() - i,
{
    if i < 0 || i >= ls.len() {
        None
    } else {
        let t = trim_start(ls[i]);
        if starts_with(t, "Display "@) && byte_value(trim(t.skip("Display "@.len() as int)), 10) is Some {
            byte_value(trim(t.skip("Display "@.len() as int)), 10)
        } else {
            display_scan(ls, i + 1)
        }
    }
}

pub open spec fn detect_external_spec(out: Seq<char>) -> Option<u8> {
    display_scan(lines(out), 0)
}

/// First valid `Display N` in `ddcutil detect` output.
pub fn detect_external(out: &str) -> (r: Option<u8>)
    ensures
        r == detect_external_spec(out@),
{
    let text = chars_of(out);
    let ls = lines_of(&text);
    let ghost lv = views(ls@);
    let mut i: usize = 0;
    while i < ls.len()
        invariant
            lv == views(ls@),
            lv == lines(out@),
            0 <= i <= ls@.len(),
            display_scan(lv, 0) == display_scan(lv, i as int),
        decreases ls@.len() - i,
    {
        assert(lv[i as int] == ls@[i as int]@);
        let t = trim_start_of(&ls[i]);
        match strip_prefix(&t, "Display ") {
            Some(rest) => {
                match parse_u8(&trimmed(&rest), 10) {
                    Some(n) => {
                        return Some(n);
                    },
                    None => {},
                }
            },
            None => {},
        }
        i = i + 1;
    }
    None
}

/// The bytes among `ws` written in hexadecimal, in order.
pub open spec fn hex_bytes(ws: Seq<Seq<char>>) -> Seq<u8>
    decreases ws.len(),
{
    if ws.len() == 0 {
        Seq::empty()
    } else {
        hex_bytes(ws.drop_last()) + match byte_value(ws.last(), 16) {
            Some(b) => seq![b],
            None => Seq::empty(),
        }
    }
}

/// VCP 0x14 values a monitor advertises in its capability string
/// (`... vcp(... 14(03 04 05 ...) ...)`); empty when it lists none.
pub open spec fn supported_presets_spec(caps: Seq<char>) -> Seq<u8> {
    match find_from(caps, "14("@, 0) {
        Some(start) => match find_from(caps.skip(start), ")"@, 0) {
            Some(len) => hex_bytes(words(caps.subrange(start + 3, start + len))),
            None => Seq::empty(),
        },
        None => Seq::empty(),
    }
}

proof fn lemma_find_from_bounds(s: Seq<char>, p: Seq<char>, i: int)
    requires
        0 <= i,
    ensures
        find_from(s, p, i) matches Some(k) ==> i <= k && k + p.len() <= s.len()
            && s.subrange(k, k + p.len()) == p,
    decreases s.len() + 1 - i,
{
    if i <= s.len() && !(0 <= i && i + p.len() <= s.len() && s.subrange(i, i + p.len()) == p) {
        lemma_find_from_bounds(s, p, i + 1);
    }
}

/// Parse the advertised VCP 0x14 values out of a capability string.
pub fn supported_presets(caps: &str) -> (r: Vec<u8>)
    ensures
        r@ == supported_presets_spec(caps@),
{
    let c = chars_of(caps);
    let open = chars_of("14(");
    let close = chars_of(")");
    match find(&c, &open) {
        Some(start) => {
            proof {
                lemma_find_from_bounds(c@, open@, 0);
            }
            let tail = slice_chars(&c, start, c.len());
            assert(tail@ =~= c@.skip(start as int));
            match find(&tail, &close) {
                Some(len) => {
                    proof {
                        lemma_find_from_bounds(tail@, close@, 0);
                        reveal_strlit("14(");
                        reveal_strlit(")");
                        assert(c@.subrange(start as int, start + 3) == open@);
                        assert(tail@.subrange(len as int, len + 1)[0] == tail@[len as int]);
                        assert(tail@[len as int] == ')');
                        assert(len >= 3) by {
                            if len < 3 {
                                assert(c@.subrange(start as int, start + 3)[len as int] == c@[start
                                    + len]);
                                assert(tail@[len as int] == c@[start + len]);
                            }
                        }
                    }
                    let body = slice_chars(&c, start + 3, start + len);
                    let ws = words_of(&body);
                    let mut r: Vec<u8> = Vec::new();
                    let mut i: usize = 0;
                    while i < ws.len()
                        invariant
                            0 <= i <= ws@.len(),
                            r@ == hex_bytes(views(ws@).subrange(0, i as int)),
                        decreases ws@.len() - i,
                    {
                        let ghost pre = views(ws@).subrange(0, i as int);
                        assert(views(ws@).subrange(0, i + 1).drop_last() =~= pre);
                        assert(views(ws@).subrange(0, i + 1).last() == ws@[i as int]@);
                        match parse_u8(&ws[i], 16) {
                            Some(b) => {
                                r.push(b);
                            },
                            None => {},
                        }
                        i = i + 1;
                        assert(r@ =~= hex_bytes(views(ws@).subrange(0, i as int)));
                    }
                    assert(views(ws@).subrange(0, ws@.len() as int) =~= views(ws@));
                    r
                },
                None => Vec::new(),
            }
        },
        None => Vec::new(),
    }
}

/// The current VCP 0x14 value: the last token of `VCP 14 CNC mh ml sh sl`,
/// leading `x`s dropped, in hexadecimal.
pub open spec fn read_current_spec(out: Seq<char>) -> Option<u8> {
    let ws = words(out);
    if ws.len() == 0 {
        None
    } else {
        byte_value(trim_start_char(ws.last(), 'x'), 16)
    }
}

/// Parse `ddcutil getvcp 14 --brief` output.
pub fn read_current(out: &str) -> (r: Option<u8>)
    ensures
        r == read_current_spec(out@),
{
    let ws = words_of(&chars_of(out));
    if ws.len() == 0 {
        return None;
    }
    assert(views(ws@).last() == ws@[ws@.len() - 1]@);
    let t = trim_start_char_of(&ws[ws.len() - 1], 'x');
    parse_u8(&t, 16)
}

fn display_arg(n: u8) -> (r: String)
    ensures
        r@ == decimal(n as nat),
{
    let mut v: Vec<char> = Vec::new();
    push_decimal(&mut v, n as u64);
    assert(v@ =~= decimal(n as nat));
    string_of(&v)
}

/// `ddcutil -d N` followed by `rest`.
fn display_args(n: u8, rest: &str) -> (r: Vec<String>)
    ensures
        strings_view(r@) == seq!["-d"@, decimal(n as nat), rest@],
{
    let r = vec![String::from_str("-d"), display_arg(n), String::from_str(rest)];
    assert(strings_view(r@) =~= seq!["-d"@, decimal(n as nat), rest@]);
    r
}

/// The reply's text when the program succeeded, else empty.
pub open spec fn ok_or_empty(r: Result<Seq<char>, Seq<char>>) -> Seq<char> {
    match r {
        Ok(s) => s,
        Err(_) => Seq::empty(),
    }
}

/// What discovery finds, given the calls it made: `modprobe i2c-dev`,
/// `ddcutil detect`, then for a found display N `ddcutil -d N
/// capabilities` and `ddcutil -d N getvcp 14 --brief`. `None` when the
/// calls are not these.
/// A decimal field of at most 65535.
pub open spec fn u16_field(w: Seq<char>) -> Option<u16> {
    match unsigned_value(w, 10) {
        Some(v) => if 0 <= v <= u16::MAX {
            Some(v as u16)
        } else {
            None
        },
        None => None,
    }
}

/// The luminance and its maximum from `ddcutil getvcp 10 --brief`, whose
/// answer for a continuous feature reads `VCP 10 C <current> <maximum>`.
pub open spec fn luminance_spec(out: Seq<char>) -> Option<(u16, u16)> {
    let ws = words(out);
    if ws.len() == 5 && ws[0] == "VCP"@ && ws[1] == "10"@ && ws[2] == "C"@ {
        match (u16_field(ws[3]), u16_field(ws[4])) {
            (Some(cur), Some(max)) => Some((cur, max)),
            _ => None,
        }
    } else {
        None
    }
}

fn parse_u16(w: &Vec<char>) -> (r: Option<u16>)
    ensures
        r == u16_field(w@),
{
    match parse_unsigned(w, 10, 65535) {
        Some(v) => Some(v as u16),
        None => None,
    }
}

/// Parse `ddcutil getvcp 10 --brief` output.
pub fn read_luminance(out: &str) -> (r: Option<(u16, u16)>)
    ensures
        r == luminance_spec(out@),
{
    let ws = words_of(&chars_of(out));
    if ws.len() == 5 && eq_str(&ws[0], "VCP") && eq_str(&ws[1], "10") && eq_str(&ws[2], "C") {
        assert(views(ws@)[3] == ws@[3]@ && views(ws@)[4] == ws@[4]@);
        match (parse_u16(&ws[3]), parse_u16(&ws[4])) {
            (Some(cur), Some(max)) => Some((cur, max)),
            _ => None,
        }
    } else {
        proof {
            if ws.len() == 5 {
                assert(views(ws@)[0] == ws@[0]@ && views(ws@)[1] == ws@[1]@ && views(ws@)[2] == ws@[2]@);
            }
        }
        None
    }
}

pub open spec fn discover_spec(calls: Seq<Call>) -> Option<DdcView> {
    if calls.len() < 2 || calls[0].0 != "modprobe"@ || calls[0].1 != seq!["i2c-dev"@]
        || calls[1].0 != "ddcutil"@ || calls[1].1 != seq!["detect"@] {
        None
    } else {
        let found = match calls[1].2 {
            Ok(out) => detect_external_spec(out),
            Err(_) => None,
        };
        match found {
            None => if calls.len() == 2 {
                Some((None, Seq::empty(), None, false, None))
            } else {
                None
            },
            Some(n) => {
                let d = decimal(n as nat);
                if calls.len() != 5 || calls[4].0 != "ddcutil"@ || calls[4].1 != seq![
                    "-d"@,
                    d,
                    "getvcp"@,
                    "10"@,
                    "--brief"@,
                ] || calls[2].0 != "ddcutil"@ || calls[2].1 != seq![
                    "-d"@,
                    d,
                    "capabilities"@,
                ] || calls[3].0 != "ddcutil"@ || calls[3].1 != seq![
                    "-d"@,
                    d,
                    "getvcp"@,
                    "14"@,
                    "--brief"@,
                ] {
                    None
                } else {
                    let supported = supported_presets_spec(ok_or_empty(calls[2].2));
                    let current = match calls[3].2 {
                        Ok(out) => read_current_spec(out),
                        Err(_) => None,
                    };
                    let luminance = match calls[4].2 {
                        Ok(out) => luminance_spec(out),
                        Err(_) => None,
                    };
                    Some((Some(n), offered(supported, 0), current, false, luminance))
                }
            },
        }
    }
}

/// The simulated monitor of `--mock`: every preset, sRGB selected.
pub open spec fn mock_view() -> DdcView {
    (None, offered(Seq::empty(), 0), Some(0x04u8), true, Some((100u16, 100u16)))
}

/// Why a preset is refused.
pub open spec fn unsupported_preset_message() -> Seq<char> {
    "unsupported color preset for this monitor"@
}

pub open spec fn no_monitor_message() -> Seq<char> {
    "no external DDC/CI monitor"@
}

pub open spec fn setvcp_failed_message() -> Seq<char> {
    "ddcutil setvcp failed (monitor busy or DDC/CI disabled in its OSD?)"@
}

/// Whether `v` is the value of one of the offered presets.
pub open spec fn offers(presets: Seq<(u8, Seq<char>)>, v: u8) -> bool {
    exists|i: int| 0 <= i < presets.len() && (#[trigger] presets[i]).0 == v
}

impl Ddc {
    fn none() -> (r: Ddc)
        ensures
            r.view() == (None::<u8>, Seq::<(u8, Seq<char>)>::empty(), None::<u8>, false, None::<(u16, u16)>),
    {
        let r = Ddc { display: None, presets: Vec::new(), current: None, mock: false, luminance: None };
        assert(presets_view(r.presets@) =~= Seq::<(u8, Seq<char>)>::empty());
        r
    }

    fn mock() -> (r: Ddc)
        ensures
            r.view() == mock_view(),
    {
        let empty: Vec<u8> = Vec::new();
        Ddc {
            display: None,
            presets: offered_presets(&empty),
            current: Some(0x04),
            mock: true,
            luminance: Some((100, 100)),
        }
    }

    /// Find the external monitor and what it offers.
    pub fn discover<R: CommandRunner>(runs: &mut Runs<R>) -> (r: Ddc)
        ensures
            grows(old(runs).log@, final(runs).log@),
            discover_spec(since(old(runs).log@, final(runs).log@)) == Some(r.view()),
    {
        let ghost log0 = runs.log@;
        // Best-effort: load i2c-dev so DDC works even right after boot.
        let _ = runs.run("modprobe", &args1("i2c-dev"));
        proof {
            lemma_grows_push(log0, runs.log@.last());
            assert(runs.log@ == log0.push(runs.log@.last()));
        }
        let ghost log1 = runs.log@;
        let detected = runs.run("ddcutil", &args1("detect"));
        proof {
            lemma_grows_push(log1, runs.log@.last());
            assert(runs.log@ == log1.push(runs.log@.last()));
            lemma_grows_trans(log0, log1, runs.log@);
        }
        let ghost log2 = runs.log@;
        let found = match &detected {
            Ok(out) => detect_external(out.as_str()),
            Err(_) => None,
        };
        let display = match found {
            None => {
                return Ddc::none();
            },
            Some(n) => n,
        };
        let caps = runs.run("ddcutil", &display_args(display, "capabilities"));
        proof {
            lemma_grows_push(log2, runs.log@.last());
            assert(runs.log@ == log2.push(runs.log@.last()));
            lemma_grows_trans(log0, log2, runs.log@);
        }
        let ghost log3 = runs.log@;
        let supported = match &caps {
            Ok(text) => supported_presets(text.as_str()),
            Err(_) => {
                proof {
                    reveal_strlit("14(");
                    let e = Seq::<char>::empty();
                    assert(find_from(e, "14("@, 1) is None);
                    assert(find_from(e, "14("@, 0) is None);
                }
                Vec::new()
            },
        };
        let presets = offered_presets(&supported);
        let args = vec![
            String::from_str("-d"),
            display_arg(display),
            String::from_str("getvcp"),
            String::from_str("14"),
            String::from_str("--brief"),
        ];
        assert(strings_view(args@) =~= seq![
            "-d"@,
            decimal(display as nat),
            "getvcp"@,
            "14"@,
            "--brief"@,
        ]);
        let reply = runs.run("ddcutil", &args);
        proof {
            lemma_grows_push(log3, runs.log@.last());
            assert(runs.log@ == log3.push(runs.log@.last()));
            lemma_grows_trans(log0, log3, runs.log@);
        }
        let current = match &reply {
            Ok(out) => read_current(out.as_str()),
            Err(_) => None,
        };
        let ghost log4 = runs.log@;
        let largs = vec![
            String::from_str("-d"),
            display_arg(display),
            String::from_str("getvcp"),
            String::from_str("10"),
            String::from_str("--brief"),
        ];
        assert(strings_view(largs@) =~= seq![
            "-d"@,
            decimal(display as nat),
            "getvcp"@,
            "10"@,
            "--brief"@,
        ]);
        let lreply = runs.run("ddcutil", &largs);
        proof {
            lemma_grows_push(log4, runs.log@.last());
            assert(runs.log@ == log4.push(runs.log@.last()));
            lemma_grows_trans(log0, log4, runs.log@);
        }
        let luminance = match &lreply {
            Ok(out) => read_luminance(out.as_str()),
            Err(_) => None,
        };
        let r = Ddc { display: Some(display), presets, current, mock: false, luminance };
        proof {
            let calls = since(log0, runs.log@);
            assert(calls =~= seq![log1.last(), log2.last(), log3.last(), log4.last(), runs.log@.last()]);
            assert(calls[1].2 == reply_view(detected));
            assert(supported@ == supported_presets_spec(ok_or_empty(calls[2].2)));
        }
        r
    }

    /// A color preset can be chosen: simulated, or a monitor was found.
    pub fn available(&self) -> (r: bool)
        ensures
            r == (self.mock || self.display is Some),
    {
        self.mock || self.display.is_some()
    }

    /// The presets offered.
    pub fn presets(&self) -> (r: Vec<ColorPreset>)
        ensures
            r@ == self.presets@,
    {
        crate::api::copy_presets(&self.presets)
    }

    /// The last known VCP 0x14 value.
    pub fn current(&self) -> (r: Option<u8>)
        ensures
            r == self.current,
    {
        self.current
    }

    /// Select preset `value`: refused unless it is offered; simulated
    /// monitors switch at once; otherwise `ddcutil -d N setvcp 14 0xVV`
    /// runs, and the cached value changes only when it succeeds.
    pub fn set<R: CommandRunner>(&mut self, runs: &mut Runs<R>, value: u8) -> (r: Result<(), String>)
        ensures
            final(self).display == old(self).display,
            final(self).presets@ == old(self).presets@,
            final(self).mock == old(self).mock,
            final(self).luminance == old(self).luminance,
            !offers(presets_view(old(self).presets@), value) ==> (r matches Err(e) && e@
                == unsupported_preset_message()) && final(self).current == old(self).current
                && final(runs).log@ == old(runs).log@,
            offers(presets_view(old(self).presets@), value) && old(self).mock ==> r is Ok
                && final(self).current == Some(value) && final(runs).log@ == old(runs).log@,
            offers(presets_view(old(self).presets@), value) && !old(self).mock
                && old(self).display is None ==> (r matches Err(e) && e@ == no_monitor_message())
                && final(self).current == old(self).current && final(runs).log@ == old(runs).log@,
            old(self).display matches Some(n) ==> (offers(presets_view(old(self).presets@), value)
                && !old(self).mock ==> {
                &&& final(runs).log@.len() == old(runs).log@.len() + 1
                &&& final(runs).log@.drop_last() == old(runs).log@
                &&& final(runs).log@.last().0 == "ddcutil"@
                &&& final(runs).log@.last().1 == seq![
                    "-d"@,
                    decimal(n as nat),
                    "setvcp"@,
                    "14"@,
                    hex_byte(value),
                ]
                &&& (final(runs).log@.last().2 is Ok <==> r is Ok)
                &&& r is Ok ==> final(self).current == Some(value)
                &&& r is Err ==> (r matches Err(e) && e@ == setvcp_failed_message())
                    && final(self).current == old(self).current
            }),
    {
        let mut i: usize = 0;
        let mut found = false;
        while i < self.presets.len()
            invariant
                0 <= i <= self.presets@.len(),
                found == offers(presets_view(self.presets@.subrange(0, i as int)), value),
            decreases self.presets@.len() - i,
        {
            let ghost pre = presets_view(self.presets@.subrange(0, i as int));
            let ghost next = presets_view(self.presets@.subrange(0, i + 1));
            assert(next =~= pre.push((self.presets@[i as int].value, self.presets@[i as int].name@)));
            if self.presets[i].value == value {
                assert(next[i as int].0 == value);
                found = true;
            } else {
                assert(found == offers(next, value)) by {
                    if offers(next, value) {
                        let k = choose|k: int| 0 <= k < next.len() && (#[trigger] next[k]).0 == value;
                        assert(pre[k] == next[k]);
                    }
                    if offers(pre, value) {
                        let k = choose|k: int| 0 <= k < pre.len() && (#[trigger] pre[k]).0 == value;
                        assert(pre[k] == next[k]);
                    }
                }
            }
            i = i + 1;
        }
        assert(self.presets@.subrange(0, self.presets@.len() as int) =~= self.presets@);
        if !found {
            return Err(String::from_str("unsupported color preset for this monitor"));
        }
        if self.mock {
            self.current = Some(value);
            return Ok(());
        }
        let display = match self.display {
            Some(n) => n,
            None => {
                return Err(String::from_str("no external DDC/CI monitor"));
            },
        };
        let args = vec![
            String::from_str("-d"),
            display_arg(display),
            String::from_str("setvcp"),
            String::from_str("14"),
            hex_byte_string(value),
        ];
        assert(strings_view(args@) =~= seq![
            "-d"@,
            decimal(display as nat),
            "setvcp"@,
            "14"@,
            hex_byte(value),
        ]);
        let ghost log0 = runs.log@;
        let reply = runs.run("ddcutil", &args);
        assert(runs.log@.drop_last() =~= log0);
        match reply {
            Ok(_) => {
                self.current = Some(value);
                Ok(())
            },
            Err(_) => Err(
                String::from_str("ddcutil setvcp failed (monitor busy or DDC/CI disabled in its OSD?)"),
            ),
        }
    }
}

/// A luminance as a percentage of the monitor's range, rounded to nearest;
/// none when the monitor reports no range.
pub open spec fn brightness_percent(luminance: Option<(u16, u16)>) -> Option<u8> {
    match luminance {
        Some((cur, max)) => if max == 0 {
            None
        } else if cur >= max {
            Some(100u8)
        } else {
            Some(((cur as int * 100 + max as int / 2) / max as int) as u8)
        },
        None => None,
    }
}

/// The raw luminance for `percent` of the range up to `max`, rounded to
/// nearest.
pub open spec fn luminance_for(percent: u8, max: u16) -> u16 {
    ((percent as int * max as int + 50) / 100) as u16
}

pub open spec fn brightness_range_message() -> Seq<char> {
    "monitor brightness must be 0..=100"@
}

pub open spec fn no_luminance_message() -> Seq<char> {
    "monitor does not report brightness over DDC/CI"@
}

impl Ddc {
    /// The cached luminance as a percentage of the monitor's range.
    pub fn brightness(&self) -> (r: Option<u8>)
        ensures
            r == brightness_percent(self.luminance),
    {
        match self.luminance {
            Some((cur, max)) => if max == 0 {
                None
            } else if cur >= max {
                Some(100)
            } else {
                let c: u32 = cur as u32;
                let m: u32 = max as u32;
                let num: u32 = c * 100 + m / 2;
                let p: u32 = num / m;
                assert(p <= 100) by (nonlinear_arith)
                    requires
                        p as int == num as int / m as int,
                        num as int == c as int * 100 + m as int / 2,
                        c < m,
                        m > 0,
                ;
                Some(p as u8)
            },
            None => None,
        }
    }

    /// Set the luminance to `percent` of the monitor's range: refused above
    /// 100; simulated monitors switch at once; a monitor that reports no
    /// luminance is refused; otherwise `ddcutil -d N setvcp 10 V` runs, and
    /// the cached value changes only when it succeeds.
    pub fn set_brightness<R: CommandRunner>(&mut self, runs: &mut Runs<R>, percent: u8) -> (r: Result<(), String>)
        ensures
            final(self).display == old(self).display,
            final(self).presets@ == old(self).presets@,
            final(self).current == old(self).current,
            final(self).mock == old(self).mock,
            percent > 100 ==> (r matches Err(e) && e@ == brightness_range_message())
                && final(self).luminance == old(self).luminance && final(runs).log@ == old(runs).log@,
            percent <= 100 && old(self).mock ==> r is Ok && final(self).luminance == Some(
                (percent as u16, 100u16),
            ) && final(runs).log@ == old(runs).log@,
            percent <= 100 && !old(self).mock && old(self).display is None ==> (r matches Err(e)
                && e@ == no_monitor_message()) && final(self).luminance == old(self).luminance
                && final(runs).log@ == old(runs).log@,
            percent <= 100 && !old(self).mock && old(self).display is Some
                && old(self).luminance is None ==> (r matches Err(e) && e@ == no_luminance_message())
                && final(self).luminance == old(self).luminance && final(runs).log@ == old(runs).log@,
            old(self).display matches Some(n) ==> (old(self).luminance matches Some((cur, max)) ==> (
            percent <= 100 && !old(self).mock ==> {
                &&& final(runs).log@.len() == old(runs).log@.len() + 1
                &&& final(runs).log@.drop_last() == old(runs).log@
                &&& final(runs).log@.last().0 == "ddcutil"@
                &&& final(runs).log@.last().1 == seq![
                    "-d"@,
                    decimal(n as nat),
                    "setvcp"@,
                    "10"@,
                    decimal(luminance_for(percent, max) as nat),
                ]
                &&& (final(runs).log@.last().2 is Ok <==> r is Ok)
                &&& r is Ok ==> final(self).luminance == Some((luminance_for(percent, max), max))
                &&& r is Err ==> (r matches Err(e) && e@ == setvcp_failed_message())
                    && final(self).luminance == old(self).luminance
            })),
    {
        if percent > 100 {
            return Err(String::from_str("monitor brightness must be 0..=100"));
        }
        if self.mock {
            self.luminance = Some((percent as u16, 100));
            return Ok(());
        }
        let display = match self.display {
            Some(n) => n,
            None => {
                return Err(String::from_str("no external DDC/CI monitor"));
            },
        };
        let max = match self.luminance {
            Some((_, max)) => max,
            None => {
                return Err(String::from_str("monitor does not report brightness over DDC/CI"));
            },
        };
        let pc: u32 = percent as u32;
        let m: u32 = max as u32;
        assert(pc * m <= 100 * 65535) by (nonlinear_arith)
            requires
                pc <= 100,
                m <= 65535,
        ;
        let num: u32 = pc * m + 50;
        let raw: u32 = num / 100;
        assert(raw <= m) by (nonlinear_arith)
            requires
                raw as int == num as int / 100,
                num as int == pc as int * m as int + 50,
                pc <= 100,
        ;
        let mut v: Vec<char> = Vec::new();
        push_decimal(&mut v, raw as u64);
        let args = vec![
            String::from_str("-d"),
            display_arg(display),
            String::from_str("setvcp"),
            String::from_str("10"),
            string_of(&v),
        ];
        assert(strings_view(args@) =~= seq![
            "-d"@,
            decimal(display as nat),
            "setvcp"@,
            "10"@,
            decimal(luminance_for(percent, max) as nat),
        ]);
        let ghost log0 = runs.log@;
        let reply = runs.run("ddcutil", &args);
        assert(runs.log@.drop_last() =~= log0);
        match reply {
            Ok(_) => {
                self.luminance = Some((raw as u16, max));
                Ok(())
            },
            Err(_) => Err(
                String::from_str("ddcutil setvcp failed (monitor busy or DDC/CI disabled in its OSD?)"),
            ),
        }
    }
}

/// The monitor: a simulated one for `--mock`, else whatever discovery finds.
pub fn open<R: CommandRunner>(mock: bool, runs: &mut Runs<R>) -> (r: Ddc)
    ensures
        mock ==> r.view() == mock_view() && final(runs).log@ == old(runs).log@,
        !mock ==> grows(old(runs).log@, final(runs).log@) && discover_spec(
            since(old(runs).log@, final(runs).log@),
        ) == Some(r.view()),
{
    if mock {
        Ddc::mock()
    } else {
        Ddc::discover(runs)
    }
}

} // verus!
