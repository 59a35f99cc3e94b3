//! The daemon's command line and the lookup of its socket group.
use vstd::prelude::*;
use crate::text::{chars_of, eq_chars, eq_str, lines, lines_of, parse_unsigned, string_of, views};

verus! {

/// The daemon's options.
#[derive(Clone, Debug)]
pub struct Args {
    pub mock: bool,
    pub restore_auto: bool,
    pub tcp: Option<String>,
    pub socket: Option<String>,
    pub state: Option<String>,
}

/// Why the command line does not start the daemon.
#[derive(Clone, Debug)]
pub enum ArgStop {
    /// `--help` or `-h`: print the usage and exit successfully.
    Help,
    /// An argument nobody knows: report it and exit with status 2.
    Unknown(String),
}

/// The options as characters.
pub type ArgsView = (bool, bool, Option<Seq<char>>, Option<Seq<char>>, Option<Seq<char>>);

pub open spec fn args_view(a: Args) -> ArgsView {
    (
        a.mock,
        a.restore_auto,
        crate::text::opt_view(a.tcp),
        crate::text::opt_view(a.socket),
        crate::text::opt_view(a.state),
    )
}

/// The command line from argument `i` on, given the options so far. A
/// value option at the end takes no value (and clears what an earlier one
/// set).
pub open spec fn parse_from(a: Seq<Seq<char>>, i: int, acc: ArgsView) -> Result<ArgsView, Option<Seq<char>>>
    decreases a.len() - i,
{
    if i < 0 || i >= a.len() {
        Ok(acc)
    } else {
        let next = if i + 1 < a.len() {
            Some(a[i + 1])
        } else {
            None
        };
        let step = if i + 1 < a.len() {
            2int
        } else {
            1int
        };
        if a[i] == "--mock"@ {
            parse_from(a, i + 1, (true, acc.1, acc.2, acc.3, acc.4))
        } else if a[i] == "--restore-auto"@ {
            parse_from(a, i + 1, (acc.0, true, acc.2, acc.3, acc.4))
        } else if a[i] == "--tcp"@ {
            parse_from(a, i + step, (acc.0, acc.1, next, acc.3, acc.4))
        } else if a[i] == "--socket"@ {
            parse_from(a, i + step, (acc.0, acc.1, acc.2, next, acc.4))
        } else if a[i] == "--state"@ {
            parse_from(a, i + step, (acc.0, acc.1, acc.2, acc.3, next))
        } else if a[i] == "--help"@ || a[i] == "-h"@ {
            Err(None)
        } else {
            Err(Some(a[i]))
        }
    }
}

/// Parse the arguments after the program name. `mock_env` is whether
/// `FANGD_MOCK` is `1`.
pub fn parse_args(argv: &Vec<String>, mock_env: bool) -> (r: Result<Args, ArgStop>)
    ensures
        match parse_from(crate::runner::strings_view(argv@), 0, (mock_env, false, None, None, None)) {
            Ok(v) => r matches Ok(a) && args_view(a) == v,
            Err(None) => r matches Err(ArgStop::Help),
            Err(Some(u)) => r matches Err(ArgStop::Unknown(x)) && x@ == u,
        },
{
    let ghost av = crate::runner::strings_view(argv@);
    let mut args = Args { mock: mock_env, restore_auto: false, tcp: None, socket: None, state: None };
    let mut i: usize = 0;
    while i < argv.len()
        invariant
            av == crate::runner::strings_view(argv@),
            0 <= i <= argv@.len(),
            parse_from(av, 0, (mock_env, false, None, None, None)) == parse_from(
                av,
                i as int,
                args_view(args),
            ),
        decreases argv@.len() - i,
    {
        let a = chars_of(argv[i].as_str());
        assert(av[i as int] == argv@[i as int]@);
        let next: Option<String> = if i + 1 < argv.len() {
            assert(av[i + 1] == argv@[i + 1]@);
            Some(argv[i + 1].clone())
        } else {
            None
        };
        let step: usize = if i + 1 < argv.len() {
            2
        } else {
            1
        };
        if eq_str(&a, "--mock") {
            args.mock = true;
            i = i + 1;
        } else if eq_str(&a, "--restore-auto") {
            args.restore_auto = true;
            i = i + 1;
        } else if eq_str(&a, "--tcp") {
            args.tcp = next;
            i = i + step;
        } else if eq_str(&a, "--socket") {
            args.socket = next;
            i = i + step;
        } else if eq_str(&a, "--state") {
            args.state = next;
            i = i + step;
        } else if eq_str(&a, "--help") || eq_str(&a, "-h") {
            return Err(ArgStop::Help);
        } else {
            return Err(ArgStop::Unknown(argv[i].clone()));
        }
    }
    Ok(args)
}

/// The group id on the first `/etc/group` line from `i` on whose name is
/// `name` and whose id field is a number.
pub open spec fn gid_from(ls: Seq<Seq<char>>, name: Seq<char>, i: int) -> Option<u32>
    decreases ls.len() - i,
{
    if i < 0 || i >= ls.len() {
        None
    } else {
        let l = ls[i];
        let e0 = crate::text::next_char(l, ':', 0);
        let found = if l.take(e0) == name && e0 < l.len() {
            let e1 = crate::text::next_char(l, ':', e0 + 1);
            if e1 < l.len() {
                let e2 = crate::text::next_char(l, ':', e1 + 1);
                match crate::text::unsigned_value(l.subrange(e1 + 1, e2), 10) {
                    Some(v) => if v <= u32::MAX {
                        Some(v as u32)
                    } else {
                        None
                    },
                    None => None,
                }
            } else {
                None
            }
        } else {
            None
        };
        if found is Some {
            found
        } else {
            gid_from(ls, name, i + 1)
        }
    }
}

fn next_colon(l: &Vec<char>, from: usize) -> (r: usize)
    requires
        from <= l@.len(),
    ensures
        r == crate::text::next_char(l@, ':', from as int),
        from <= r <= l@.len(),
{
    proof {
        crate::text::lemma_next_char_bounds(l@, ':', from as int);
    }
    let mut i = from;
    while i < l.len() && l[i] != ':'
        invariant
            from <= i <= l@.len(),
            crate::text::next_char(l@, ':', from as int) == crate::text::next_char(l@, ':', i as int),
        decreases l@.len() - i,
    {
        i = i + 1;
    }
    i
}

/// The id of group `name` in the text of `/etc/group`.
pub fn group_id(groups: &str, name: &str) -> (r: Option<u32>)
    ensures
        r == gid_from(lines(groups@), name@, 0),
{
    let ls = lines_of(&chars_of(groups));
    let nc = chars_of(name);
    let ghost lv = views(ls@);
    let mut i: usize = 0;
    while i < ls.len()
        invariant
            lv == views(ls@),
            lv == lines(groups@),
            nc@ == name@,
            0 <= i <= ls@.len(),
            gid_from(lv, name@, 0) == gid_from(lv, name@, i as int),
        decreases ls@.len() - i,
    {
        assert(lv[i as int] == ls@[i as int]@);
        let l = &ls[i];
        let e0 = next_colon(l, 0);
        let first = crate::text::slice_chars(l, 0, e0);
        assert(first@ =~= l@.take(e0 as int));
        if eq_chars(&first, &nc) && e0 < l.len() {
            let e1 = next_colon(l, e0 + 1);
            if e1 < l.len() {
                let e2 = next_colon(l, e1 + 1);
                let field = crate::text::slice_chars(l, e1 + 1, e2);
                match parse_unsigned(&field, 10, 0xffff_ffff) {
                    Some(v) => {
                        return Some(v as u32);
                    },
                    None => {},
                }
            }
        }
        i = i + 1;
    }
    None
}

} // verus!
