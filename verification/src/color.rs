//! Display color profiles (Native / sRGB / Adobe RGB / Rec.709) through
//! colord's `colormgr`: the parsers for its output and the decisions
//! around them. Running `colormgr` is left to the caller.
use vstd::prelude::*;
use crate::runner::{
    Call, CommandRunner, Runs, args1, args2, grows, lemma_grows_push, lemma_grows_trans, since,
    strings_view,
};
use crate::text::{
    chars_of, contains, contains_str, eq_chars, copy_chars, last_field, last_field_of, last_segment,
    last_segment_of, lines, lines_of, opt_chars, opt_view, starts_with, string_of, strip_prefix,
    trim, trimmed, views,
};

verus! {

/// Our profile ids, in UI order: `native`, `srgb`, `adobe_rgb`, `rec709`.
pub open spec fn profile_id(k: int) -> Seq<char> {
    if k == 0 {
        "native"@
    } else if k == 1 {
        "srgb"@
    } else if k == 2 {
        "adobe_rgb"@
    } else {
        "rec709"@
    }
}

/// The number of profile ids.
pub const PROFILE_COUNT: usize = 4;

/// The id of profile `k`.
pub fn profile_name(k: usize) -> (r: &'static str)
    requires
        k < PROFILE_COUNT,
    ensures
        r@ == profile_id(k as int),
{
    if k == 0 {
        "native"
    } else if k == 1 {
        "srgb"
    } else if k == 2 {
        "adobe_rgb"
    } else {
        "rec709"
    }
}

/// All profile ids, in UI order.
pub fn profiles() -> (r: Vec<String>)
    ensures
        r@.len() == PROFILE_COUNT,
        forall|k: int| 0 <= k < PROFILE_COUNT ==> #[trigger] r@[k]@ == profile_id(k),
{
    let mut r: Vec<String> = Vec::new();
    let mut k: usize = 0;
    while k < PROFILE_COUNT
        invariant
            0 <= k <= PROFILE_COUNT,
            r@.len() == k,
            forall|j: int| 0 <= j < k ==> #[trigger] r@[j]@ == profile_id(j),
        decreases PROFILE_COUNT - k,
    {
        r.push(String::from_str(profile_name(k)));
        k = k + 1;
    }
    r
}

/// What the color page shows.
#[derive(Clone, Debug, Default)]
pub struct ColorInfo {
    pub supported: bool,
    /// One of our profile ids, or None when the active profile isn't one of ours.
    pub current: Option<String>,
    /// Human name of the active profile (whatever it is).
    pub current_name: String,
    /// The profile ids actually installed on this system.
    pub available: Vec<String>,
    pub hint: String,
}

/// Which of our profiles an ICC file is, judged by its file name.
pub open spec fn classify_spec(filename: Seq<char>) -> Option<int> {
    let base = last_segment(filename, '/');
    if contains(base, "sRGB"@) {
        Some(1)
    } else if contains(base, "AdobeRGB"@) {
        Some(2)
    } else if contains(base, "Rec709"@) {
        Some(3)
    } else if starts_with(base, "edid"@) {
        Some(0)
    } else {
        None
    }
}

pub fn classify(filename: &Vec<char>) -> (r: Option<usize>)
    ensures
        match classify_spec(filename@) {
            Some(k) => r == Some(k as usize),
            None => r is None,
        },
{
    let base = last_segment_of(filename, '/');
    if contains_str(&base, "sRGB") {
        Some(1)
    } else if contains_str(&base, "AdobeRGB") {
        Some(2)
    } else if contains_str(&base, "Rec709") {
        Some(3)
    } else {
        match strip_prefix(&base, "edid") {
            Some(_) => Some(0),
            None => None,
        }
    }
}

/// The device scan of `colormgr get-devices-by-kind display`: the path of
/// the first device block with a line mentioning eDP, else the first
/// block's path.
pub open spec fn device_scan(
    ls: Seq<Seq<char>>,
    i: int,
    first: Option<Seq<char>>,
    current: Option<Seq<char>>,
    edp: bool,
) -> Option<Seq<char>>
    decreases ls.len() - i,
{
    if i < 0 || i >= ls.len() {
        if edp {
            current
        } else {
            first
        }
    } else if starts_with(ls[i], "Object Path:"@) {
        if edp {
            current
        } else {
            let c = Some(trim(ls[i].skip("Object Path:"@.len() as int)));
            device_scan(ls, i + 1, if first is Some { first } else { c }, c, false)
        }
    } else if contains(ls[i], "eDP"@) {
        device_scan(ls, i + 1, first, current, true)
    } else {
        device_scan(ls, i + 1, first, current, edp)
    }
}

pub open spec fn display_device_spec(out: Seq<char>) -> Option<Seq<char>> {
    device_scan(lines(out), 0, None, None, false)
}

/// Pick the internal panel from `get-devices-by-kind display`: prefer the
/// device block mentioning eDP, else the first device block.
pub fn display_device(out: &str) -> (r: Option<String>)
    ensures
        opt_view(r) == display_device_spec(out@),
{
    let text = chars_of(out);
    let ls = lines_of(&text);
    let ghost lv = views(ls@);
    let mut first: Option<Vec<char>> = None;
    let mut current: Option<Vec<char>> = None;
    let mut edp = false;
    let mut i: usize = 0;
    while i < ls.len()
        invariant
            lv == views(ls@),
            lv == lines(text@),
            text@ == out@,
            0 <= i <= ls@.len(),
            device_scan(lv, 0, None, None, false) == device_scan(
                lv,
                i as int,
                opt_chars(first),
                opt_chars(current),
                edp,
            ),
        decreases ls@.len() - i,
    {
        assert(lv[i as int] == ls@[i as int]@);
        match strip_prefix(&ls[i], "Object Path:") {
            Some(rest) => {
                if edp {
                    return match current {
                        Some(c) => Some(string_of(&c)),
                        None => None,
                    };
                }
                let path = trimmed(&rest);
                if first.is_none() {
                    first = Some(copy_chars(&path));
                }
                current = Some(path);
                edp = false;
            },
            None => {
                if contains_str(&ls[i], "eDP") {
                    edp = true;
                }
            },
        }
        i = i + 1;
    }
    let chosen = if edp {
        current
    } else {
        first
    };
    match chosen {
        Some(c) => Some(string_of(&c)),
        None => None,
    }
}

/// Whether some entry of `found` has id `k`.
pub open spec fn has_id(found: Seq<(int, Seq<char>)>, k: int) -> bool {
    exists|j: int| 0 <= j < found.len() && (#[trigger] found[j]).0 == k
}

/// The recognized profiles of `colormgr get-profiles`, in the order met,
/// each id once, with the object path of its block.
pub open spec fn profile_scan(
    ls: Seq<Seq<char>>,
    i: int,
    path: Option<Seq<char>>,
    found: Seq<(int, Seq<char>)>,
) -> Seq<(int, Seq<char>)>
    decreases ls.len() - i,
{
    if i < 0 || i >= ls.len() {
        found
    } else if starts_with(ls[i], "Object Path:"@) {
        profile_scan(ls, i + 1, Some(trim(ls[i].skip("Object Path:"@.len() as int))), found)
    } else if starts_with(ls[i], "Filename:"@) {
        match path {
            None => profile_scan(ls, i + 1, path, found),
            Some(op) => match classify_spec(trim(ls[i].skip("Filename:"@.len() as int))) {
                Some(k) => if has_id(found, k) {
                    profile_scan(ls, i + 1, path, found)
                } else {
                    profile_scan(ls, i + 1, path, found.push((k, op)))
                },
                None => profile_scan(ls, i + 1, path, found),
            },
        }
    } else {
        profile_scan(ls, i + 1, path, found)
    }
}

/// The first index at or after `j` whose entry has id `k`.
pub open spec fn id_index(found: Seq<(int, Seq<char>)>, k: int, j: int) -> Option<int>
    decreases found.len() - j,
{
    if j < 0 || j >= found.len() {
        None
    } else if found[j].0 == k {
        Some(j)
    } else {
        id_index(found, k, j + 1)
    }
}

/// The entries of `found` in UI order, from profile `k` on.
pub open spec fn ui_order(found: Seq<(int, Seq<char>)>, k: int) -> Seq<(int, Seq<char>)>
    decreases 4 - k,
{
    if k < 0 || k >= 4 {
        Seq::empty()
    } else {
        let here = match id_index(found, k, 0) {
            Some(j) => seq![(k, found[j].1)],
            None => Seq::empty(),
        };
        here + ui_order(found, k + 1)
    }
}

proof fn lemma_ui_order_ids(found: Seq<(int, Seq<char>)>, k: int)
    requires
        0 <= k <= 4,
    ensures
        forall|i: int| 0 <= i < ui_order(found, k).len() ==> k <= #[trigger] ui_order(found, k)[i].0 < 4,
        forall|i: int, j: int|
            0 <= i < j < ui_order(found, k).len() ==> #[trigger] ui_order(found, k)[i].0 < #[trigger] ui_order(
                found,
                k,
            )[j].0,
    decreases 4 - k,
{
    if k < 4 {
        lemma_ui_order_ids(found, k + 1);
        let here = match id_index(found, k, 0) {
            Some(j) => seq![(k, found[j].1)],
            None => Seq::<(int, Seq<char>)>::empty(),
        };
        let rest = ui_order(found, k + 1);
        assert(ui_order(found, k) == here + rest);
        assert forall|i: int| 0 <= i < ui_order(found, k).len() implies k <= #[trigger] ui_order(found, k)[i].0 < 4 by {
            if i >= here.len() {
                assert(ui_order(found, k)[i] == rest[i - here.len()]);
            }
        }
        assert forall|i: int, j: int|
            0 <= i < j < ui_order(found, k).len() implies #[trigger] ui_order(found, k)[i].0 < #[trigger] ui_order(found, k)[j].0 by {
            assert(ui_order(found, k)[j] == rest[j - here.len()]);
            if i >= here.len() {
                assert(ui_order(found, k)[i] == rest[i - here.len()]);
            }
        }
    }
}

/// The recognized profiles come in UI order (native, srgb, adobe_rgb,
/// rec709), each at most once.
pub proof fn lemma_known_profiles_in_ui_order(out: Seq<char>)
    ensures
        forall|i: int, j: int|
            0 <= i < j < known_profiles_spec(out).len() ==> #[trigger] known_profiles_spec(out)[i].0
                < #[trigger] known_profiles_spec(out)[j].0,
        forall|i: int|
            0 <= i < known_profiles_spec(out).len() ==> 0 <= #[trigger] known_profiles_spec(out)[i].0 < 4,
{
    lemma_ui_order_ids(profile_scan(lines(out), 0, None, Seq::empty()), 0);
}

pub open spec fn known_profiles_spec(out: Seq<char>) -> Seq<(int, Seq<char>)> {
    ui_order(profile_scan(lines(out), 0, None, Seq::empty()), 0)
}

/// The ids and object paths of a list of found profiles.
pub open spec fn found_view(v: Seq<(usize, Vec<char>)>) -> Seq<(int, Seq<char>)> {
    v.map_values(|e: (usize, Vec<char>)| (e.0 as int, e.1@))
}

proof fn lemma_id_index_found(found: Seq<(int, Seq<char>)>, k: int, j: int)
    requires
        0 <= j <= found.len(),
        forall|i: int| 0 <= i < j ==> (#[trigger] found[i]).0 != k,
    ensures
        (id_index(found, k, 0) is Some) == has_id(found, k),
        id_index(found, k, 0) == id_index(found, k, j),
    decreases j,
{
    if j > 0 {
        lemma_id_index_found(found, k, j - 1);
    } else {
        lemma_id_index_tail(found, k, 0);
    }
}

proof fn lemma_id_index_tail(found: Seq<(int, Seq<char>)>, k: int, j: int)
    requires
        0 <= j <= found.len(),
        forall|i: int| 0 <= i < j ==> (#[trigger] found[i]).0 != k,
    ensures
        (id_index(found, k, j) is Some) == has_id(found, k),
        id_index(found, k, j) matches Some(x) ==> 0 <= x < found.len() && found[x].0 == k,
    decreases found.len() - j,
{
    if j < found.len() && found[j].0 != k {
        lemma_id_index_tail(found, k, j + 1);
    }
}

/// The index of the entry with id `k`.
fn find_id(found: &Vec<(usize, Vec<char>)>, k: usize) -> (r: Option<usize>)
    ensures
        r matches Some(j) ==> id_index(found_view(found@), k as int, 0) == Some(j as int),
        r is None ==> id_index(found_view(found@), k as int, 0) is None,
        (r is Some) == has_id(found_view(found@), k as int),
        r matches Some(j) ==> j < found@.len(),
{
    let ghost fv = found_view(found@);
    let mut j: usize = 0;
    while j < found.len()
        invariant
            fv == found_view(found@),
            fv.len() == found@.len(),
            0 <= j <= found@.len(),
            forall|i: int| 0 <= i < j ==> (#[trigger] fv[i]).0 != k,
        decreases found@.len() - j,
    {
        assert(fv[j as int].0 == found@[j as int].0);
        if found[j].0 == k {
            proof {
                lemma_id_index_found(fv, k as int, j as int);
                lemma_id_index_tail(fv, k as int, j as int);
            }
            return Some(j);
        }
        j = j + 1;
    }
    proof {
        lemma_id_index_found(fv, k as int, j as int);
        lemma_id_index_tail(fv, k as int, j as int);
    }
    None
}

/// Installed profiles we recognize: (our profile id, object path), in UI
/// order.
pub fn known_profiles(out: &str) -> (r: Vec<(String, String)>)
    ensures
        r@.len() == known_profiles_spec(out@).len(),
        forall|j: int|
            0 <= j < r@.len() ==> #[trigger] r@[j].0@ == profile_id(known_profiles_spec(out@)[j].0)
                && r@[j].1@ == known_profiles_spec(out@)[j].1,
{
    let text = chars_of(out);
    let ls = lines_of(&text);
    let ghost lv = views(ls@);
    let mut path: Option<Vec<char>> = None;
    let mut found: Vec<(usize, Vec<char>)> = Vec::new();
    let mut i: usize = 0;
    assert(found_view(found@) =~= Seq::<(int, Seq<char>)>::empty());
    while i < ls.len()
        invariant
            lv == views(ls@),
            lv == lines(text@),
            text@ == out@,
            0 <= i <= ls@.len(),
            forall|j: int| 0 <= j < found@.len() ==> (#[trigger] found@[j]).0 < PROFILE_COUNT,
            profile_scan(lv, 0, None, Seq::empty()) == profile_scan(
                lv,
                i as int,
                opt_chars(path),
                found_view(found@),
            ),
        decreases ls@.len() - i,
    {
        assert(lv[i as int] == ls@[i as int]@);
        match strip_prefix(&ls[i], "Object Path:") {
            Some(rest) => {
                path = Some(trimmed(&rest));
            },
            None => {
                match strip_prefix(&ls[i], "Filename:") {
                    Some(rest) => {
                        match &path {
                            None => {},
                            Some(op) => {
                                let f = trimmed(&rest);
                                match classify(&f) {
                                    Some(k) => {
                                        if find_id(&found, k).is_none() {
                                            let ghost before = found_view(found@);
                                            found.push((k, copy_chars(op)));
                                            assert(found_view(found@) =~= before.push(
                                                (k as int, op@),
                                            ));
                                        }
                                    },
                                    None => {},
                                }
                            },
                        }
                    },
                    None => {},
                }
            },
        }
        i = i + 1;
    }
    let ghost fv = found_view(found@);
    assert(profile_scan(lv, 0, None, Seq::empty()) == fv);
    let mut r: Vec<(String, String)> = Vec::new();
    let mut k: usize = 0;
    assert(ui_order(fv, 0) =~= Seq::<(int, Seq<char>)>::empty() + ui_order(fv, 0));
    while k < PROFILE_COUNT
        invariant
            fv == found_view(found@),
            fv.len() == found@.len(),
            0 <= k <= PROFILE_COUNT,
            known_profiles_spec(out@) == ui_order(fv, 0),
            exists|done: Seq<(int, Seq<char>)>|
                {
                    &&& #[trigger] ui_order(fv, 0) == done + ui_order(fv, k as int)
                    &&& done.len() == r@.len()
                    &&& forall|j: int|
                        0 <= j < r@.len() ==> #[trigger] r@[j].0@ == profile_id(done[j].0)
                            && r@[j].1@ == done[j].1
                },
        decreases PROFILE_COUNT - k,
    {
        let ghost done = choose|done: Seq<(int, Seq<char>)>|
            {
                &&& #[trigger] ui_order(fv, 0) == done + ui_order(fv, k as int)
                &&& done.len() == r@.len()
                &&& forall|j: int|
                    0 <= j < r@.len() ==> #[trigger] r@[j].0@ == profile_id(done[j].0)
                        && r@[j].1@ == done[j].1
            };
        let hit = find_id(&found, k);
        match hit {
            Some(j) => {
                assert(fv[j as int] == (found@[j as int].0 as int, found@[j as int].1@));
                r.push((String::from_str(profile_name(k)), string_of(&found[j].1)));
                let ghost done2 = done.push((k as int, fv[j as int].1));
                assert(ui_order(fv, k as int) =~= seq![(k as int, fv[j as int].1)] + ui_order(
                    fv,
                    k + 1,
                ));
                assert(ui_order(fv, 0) =~= done2 + ui_order(fv, k + 1));
                assert(forall|x: int|
                    0 <= x < r@.len() ==> #[trigger] r@[x].0@ == profile_id(done2[x].0) && r@[x].1@
                        == done2[x].1);
            },
            None => {
                assert(ui_order(fv, k as int) =~= ui_order(fv, k + 1));
            },
        }
        k = k + 1;
    }
    let ghost done = choose|done: Seq<(int, Seq<char>)>|
        {
            &&& #[trigger] ui_order(fv, 0) == done + ui_order(fv, k as int)
            &&& done.len() == r@.len()
            &&& forall|j: int|
                0 <= j < r@.len() ==> #[trigger] r@[j].0@ == profile_id(done[j].0) && r@[j].1@
                    == done[j].1
        };
    assert(ui_order(fv, 0) =~= done);
    r
}

/// From `device-get-default-profile` output: our id when we recognize the
/// file, and a display name (its title, else the file's base name).
pub open spec fn current_profile_spec(out: Seq<char>) -> (Option<Seq<char>>, Seq<char>) {
    let ls = lines(out);
    let filename = last_field(ls, "Filename:"@, ls.len() as int);
    let title = last_field(ls, "Title:"@, ls.len() as int);
    let id = match classify_spec(filename) {
        Some(k) => Some(profile_id(k)),
        None => None,
    };
    let name = if title.len() > 0 {
        title
    } else {
        last_segment(filename, '/')
    };
    (id, name)
}

/// From `device-get-default-profile` output: (our id if recognized, display name).
pub fn current_profile(out: &str) -> (r: (Option<String>, String))
    ensures
        opt_view(r.0) == current_profile_spec(out@).0,
        r.1@ == current_profile_spec(out@).1,
{
    let text = chars_of(out);
    let ls = lines_of(&text);
    let filename = last_field_of(&ls, "Filename:");
    let title = last_field_of(&ls, "Title:");
    let id = match classify(&filename) {
        Some(k) => Some(String::from_str(profile_name(k))),
        None => None,
    };
    let name = if title.len() > 0 {
        string_of(&title)
    } else {
        string_of(&last_segment_of(&filename, '/'))
    };
    (id, name)
}


/// What the color page shows, as characters: supported, current id,
/// current name, available ids, hint.
pub type ColorView = (bool, Option<Seq<char>>, Seq<char>, Seq<Seq<char>>, Seq<char>);

pub open spec fn color_view(c: ColorInfo) -> ColorView {
    (c.supported, opt_view(c.current), c.current_name@, strings_view(c.available@), c.hint@)
}

/// What the page says when colord cannot be used.
pub open spec fn colord_hint() -> Seq<char> {
    ". Color profiles need colord (preinstalled on Ubuntu GNOME/KDE; on bare X11 also run xiccd)."@
}

pub open spec fn no_device_message() -> Seq<char> {
    "no display device registered with colord"@
}

pub open spec fn unsupported_view(hint: Seq<char>) -> ColorView {
    (false, None, Seq::empty(), Seq::empty(), hint)
}

/// The ids of found profiles.
pub open spec fn ids_of(found: Seq<(int, Seq<char>)>) -> Seq<Seq<char>> {
    found.map_values(|f: (int, Seq<char>)| profile_id(f.0))
}

/// Discovery, given its calls: the display device and the installed
/// profiles, or the error that stopped it. `None` when the calls are not
/// `colormgr get-devices-by-kind display` then (with a device)
/// `colormgr get-profiles`.
pub open spec fn discover_spec(calls: Seq<Call>) -> Option<Result<(Seq<char>, Seq<(int, Seq<char>)>), Seq<char>>> {
    if calls.len() == 0 || calls[0].0 != "colormgr"@ || calls[0].1 != seq![
        "get-devices-by-kind"@,
        "display"@,
    ] {
        None
    } else {
        match calls[0].2 {
            Err(e) => if calls.len() == 1 {
                Some(Err(e))
            } else {
                None
            },
            Ok(out) => match display_device_spec(out) {
                None => if calls.len() == 1 {
                    Some(Err(no_device_message()))
                } else {
                    None
                },
                Some(d) => if calls.len() != 2 || calls[1].0 != "colormgr"@ || calls[1].1 != seq![
                    "get-profiles"@,
                ] {
                    None
                } else {
                    match calls[1].2 {
                        Err(e) => Some(Err(e)),
                        Ok(po) => Some(Ok((d, known_profiles_spec(po)))),
                    }
                },
            },
        }
    }
}

/// How many calls discovery makes: two when the first found a device,
/// else one.
pub open spec fn discover_calls(calls: Seq<Call>) -> int {
    if calls.len() >= 1 && calls[0].2 is Ok && display_device_spec(calls[0].2->Ok_0) is Some {
        2
    } else {
        1
    }
}

/// The page, given the calls `get` made: discovery, then `colormgr
/// device-get-default-profile <device>`.
pub open spec fn get_spec(calls: Seq<Call>) -> Option<ColorView> {
    let n = discover_calls(calls);
    if calls.len() < n {
        None
    } else {
        match discover_spec(calls.take(n)) {
            None => None,
            Some(Err(e)) => if calls.len() == n {
                Some(unsupported_view(e + colord_hint()))
            } else {
                None
            },
            Some(Ok((device, found))) => if calls.len() != 3 || calls[2].0 != "colormgr"@
                || calls[2].1 != seq!["device-get-default-profile"@, device] {
                None
            } else {
                let cur = match calls[2].2 {
                    Ok(o) => current_profile_spec(o),
                    Err(_) => (None, "unknown"@),
                };
                Some((true, cur.0, cur.1, ids_of(found), Seq::empty()))
            },
        }
    }
}

fn unsupported_info(hint: String) -> (r: ColorInfo)
    ensures
        color_view(r) == unsupported_view(hint@),
{
    let r = ColorInfo {
        supported: false,
        current: None,
        current_name: String::new(),
        available: Vec::new(),
        hint,
    };
    assert(strings_view(r.available@) =~= Seq::<Seq<char>>::empty());
    r
}

/// `colormgr get-devices-by-kind display` then `colormgr get-profiles`.
fn discover<R: CommandRunner>(runs: &mut Runs<R>) -> (r: Result<(String, Vec<(String, String)>), String>)
    ensures
        grows(old(runs).log@, final(runs).log@),
        since(old(runs).log@, final(runs).log@).len() == discover_calls(
            since(old(runs).log@, final(runs).log@),
        ),
        match discover_spec(since(old(runs).log@, final(runs).log@)) {
            Some(Err(e)) => r matches Err(m) && m@ == e,
            Some(Ok((d, found))) => r matches Ok(x) && x.0@ == d && x.1@.len() == found.len()
                && forall|j: int|
                0 <= j < found.len() ==> #[trigger] x.1@[j].0@ == profile_id(found[j].0)
                    && x.1@[j].1@ == found[j].1,
            None => false,
        },
{
    let ghost log0 = runs.log@;
    let devices = runs.run("colormgr", &args2("get-devices-by-kind", "display"));
    proof {
        lemma_grows_push(log0, runs.log@.last());
        assert(runs.log@ == log0.push(runs.log@.last()));
    }
    let ghost log1 = runs.log@;
    let out = match devices {
        Err(e) => {
            return Err(e);
        },
        Ok(o) => o,
    };
    let device = match display_device(out.as_str()) {
        None => {
            return Err(String::from_str("no display device registered with colord"));
        },
        Some(d) => d,
    };
    let profiles = runs.run("colormgr", &args1("get-profiles"));
    proof {
        lemma_grows_push(log1, runs.log@.last());
        assert(runs.log@ == log1.push(runs.log@.last()));
        lemma_grows_trans(log0, log1, runs.log@);
    }
    match profiles {
        Err(e) => Err(e),
        Ok(po) => Ok((device, known_profiles(po.as_str()))),
    }
}

/// The color page: the internal panel's profile and the installed ones,
/// or why color profiles are unavailable.
pub fn get<R: CommandRunner>(runs: &mut Runs<R>) -> (r: ColorInfo)
    ensures
        grows(old(runs).log@, final(runs).log@),
        get_spec(since(old(runs).log@, final(runs).log@)) == Some(color_view(r)),
{
    let ghost log0 = runs.log@;
    let found = discover(runs);
    let ghost log1 = runs.log@;
    proof {
        assert(since(log0, log1).take(since(log0, log1).len() as int) =~= since(log0, log1));
    }
    let (device, profiles) = match found {
        Err(e) => {
            let mut h = chars_of(e.as_str());
            crate::text::push_str(
                &mut h,
                ". Color profiles need colord (preinstalled on Ubuntu GNOME/KDE; on bare X11 also run xiccd).",
            );
            return unsupported_info(string_of(&h));
        },
        Ok(x) => x,
    };
    let mut available: Vec<String> = Vec::new();
    let mut i: usize = 0;
    let ghost found_spec = discover_spec(since(log0, log1))->Some_0->Ok_0.1;
    while i < profiles.len()
        invariant
            0 <= i <= profiles@.len(),
            profiles@.len() == found_spec.len(),
            forall|j: int|
                0 <= j < found_spec.len() ==> #[trigger] profiles@[j].0@ == profile_id(found_spec[j].0),
            strings_view(available@) == ids_of(found_spec).take(i as int),
        decreases profiles@.len() - i,
    {
        let ghost before = strings_view(available@);
        available.push(profiles[i].0.clone());
        assert(strings_view(available@) =~= before.push(profiles@[i as int].0@));
        i = i + 1;
        assert(strings_view(available@) =~= ids_of(found_spec).take(i as int));
    }
    assert(ids_of(found_spec).take(i as int) =~= ids_of(found_spec));
    let args = vec![String::from_str("device-get-default-profile"), device.clone()];
    assert(strings_view(args@) =~= seq!["device-get-default-profile"@, device@]);
    let reply = runs.run("colormgr", &args);
    proof {
        lemma_grows_push(log1, runs.log@.last());
        assert(runs.log@ == log1.push(runs.log@.last()));
        lemma_grows_trans(log0, log1, runs.log@);
        assert(since(log0, runs.log@).take(2) =~= since(log0, log1));
    }
    let (current, current_name) = match reply {
        Ok(out) => current_profile(out.as_str()),
        Err(_) => (None, String::from_str("unknown")),
    };
    ColorInfo { supported: true, current, current_name, available, hint: String::new() }
}

/// `profile {profile} is not installed on this system`.
pub open spec fn not_installed_message(profile: Seq<char>) -> Seq<char> {
    "profile "@ + profile + " is not installed on this system"@
}

/// The object path of installed profile `profile`.
pub open spec fn path_of(found: Seq<(int, Seq<char>)>, profile: Seq<char>) -> Option<Seq<char>>
    decreases found.len(),
{
    if found.len() == 0 {
        None
    } else if profile_id(found[0].0) == profile {
        Some(found[0].1)
    } else {
        path_of(found.skip(1), profile)
    }
}

/// Make `profile` the panel's default: refused unless it is installed;
/// `colormgr device-add-profile` (its failure ignored: the profile may be
/// assigned already), then `colormgr device-make-profile-default`, whose
/// failure is returned; on success the page is read back.
pub fn set<R: CommandRunner>(runs: &mut Runs<R>, profile: &str) -> (r: Result<ColorInfo, String>)
    ensures
        grows(old(runs).log@, final(runs).log@),
        ({
            let calls = since(old(runs).log@, final(runs).log@);
            let n = discover_calls(calls);
            &&& calls.len() >= n
            &&& match discover_spec(calls.take(n)) {
                None => false,
                Some(Err(e)) => r matches Err(m) && m@ == e && calls.len() == n,
                Some(Ok((device, found))) => match path_of(found, profile@) {
                    None => r matches Err(m) && m@ == not_installed_message(profile@) && calls.len() == n,
                    Some(objpath) => {
                        &&& calls.len() >= n + 2
                        &&& calls[n].0 == "colormgr"@
                        &&& calls[n].1 == seq!["device-add-profile"@, device, objpath]
                        &&& calls[n + 1].0 == "colormgr"@
                        &&& calls[n + 1].1 == seq!["device-make-profile-default"@, device, objpath]
                        &&& calls[n + 1].2 matches Err(e) ==> (r matches Err(m) && m@ == e
                            && calls.len() == n + 2)
                        &&& calls[n + 1].2 is Ok ==> (r matches Ok(c) && get_spec(calls.skip(n + 2))
                            == Some(color_view(c)))
                    },
                },
            }
        }),
{
    let ghost log0 = runs.log@;
    let found = discover(runs);
    let ghost log1 = runs.log@;
    proof {
        assert(since(log0, log1).take(since(log0, log1).len() as int) =~= since(log0, log1));
    }
    let (device, profiles) = match found {
        Err(e) => {
            return Err(e);
        },
        Ok(x) => x,
    };
    let ghost found_spec = discover_spec(since(log0, log1))->Some_0->Ok_0.1;
    let pc = chars_of(profile);
    let mut i: usize = 0;
    assert(found_spec.skip(0) =~= found_spec);
    while i < profiles.len()
        invariant
            0 <= i <= profiles@.len(),
            profiles@.len() == found_spec.len(),
            pc@ == profile@,
            forall|j: int|
                0 <= j < found_spec.len() ==> #[trigger] profiles@[j].0@ == profile_id(found_spec[j].0)
                    && profiles@[j].1@ == found_spec[j].1,
            path_of(found_spec, profile@) == path_of(found_spec.skip(i as int), profile@),
        ensures
            0 <= i <= profiles@.len(),
            i < profiles@.len() ==> profiles@[i as int].0@ == profile@,
            path_of(found_spec, profile@) == path_of(found_spec.skip(i as int), profile@),
        decreases profiles@.len() - i,
    {
        assert(found_spec.skip(i as int)[0] == found_spec[i as int]);
        assert(found_spec.skip(i as int).skip(1) =~= found_spec.skip(i + 1));
        if eq_chars(&chars_of(profiles[i].0.as_str()), &pc) {
            break;
        }
        i = i + 1;
    }
    if i >= profiles.len() {
        assert(found_spec.skip(i as int) =~= Seq::<(int, Seq<char>)>::empty());
        let mut m = chars_of("profile ");
        crate::text::push_str(&mut m, profile);
        crate::text::push_str(&mut m, " is not installed on this system");
        assert(m@ =~= not_installed_message(profile@));
        return Err(string_of(&m));
    }
    let objpath = profiles[i].1.clone();
    let add_args = vec![String::from_str("device-add-profile"), device.clone(), objpath.clone()];
    assert(strings_view(add_args@) =~= seq!["device-add-profile"@, device@, objpath@]);
    let _ = runs.run("colormgr", &add_args);
    proof {
        lemma_grows_push(log1, runs.log@.last());
        assert(runs.log@ == log1.push(runs.log@.last()));
        lemma_grows_trans(log0, log1, runs.log@);
    }
    let ghost log2 = runs.log@;
    let make_args = vec![
        String::from_str("device-make-profile-default"),
        device.clone(),
        objpath.clone(),
    ];
    assert(strings_view(make_args@) =~= seq!["device-make-profile-default"@, device@, objpath@]);
    let made = runs.run("colormgr", &make_args);
    proof {
        lemma_grows_push(log2, runs.log@.last());
        assert(runs.log@ == log2.push(runs.log@.last()));
        lemma_grows_trans(log0, log2, runs.log@);
    }
    let ghost log3 = runs.log@;
    let ghost c01 = since(log0, log1);
    proof {
        let calls = since(log0, log3);
        assert(since(log1, log2) == seq![log2.last()]);
        assert(calls =~= c01 + seq![log2.last(), log3.last()]);
        assert(calls[0] == c01[0]);
        assert(discover_calls(calls) == discover_calls(c01));
        assert(calls.take(c01.len() as int) =~= c01);
    }
    match made {
        Err(e) => {
            return Err(e);
        },
        Ok(_) => {},
    }
    let info = get(runs);
    proof {
        lemma_grows_trans(log0, log3, runs.log@);
        let n: int = c01.len() as int;
        let calls = since(log0, runs.log@);
        assert(calls =~= c01 + seq![log2.last(), log3.last()] + since(log3, runs.log@));
        assert(calls[0] == c01[0]);
        assert(discover_calls(calls) == n);
        assert(calls.take(n) =~= c01);
        assert(calls.skip(n + 2) =~= since(log3, runs.log@));
    }
    Ok(info)
}

} // verus!
