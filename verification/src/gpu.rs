//! GPU mode switching ("Advanced Optimus" on Windows; PRIME on Linux).
//!
//! The daemon delegates to whichever supported tool the host has:
//! Ubuntu's `prime-select` (ships with the NVIDIA driver) or the
//! cross-distro `envycontrol`. Both persist graphics-stack configuration;
//! changes apply at the next logout/reboot, which is surfaced via `pending`.
use vstd::prelude::*;
use crate::api::GpuMode;
use crate::runner::{
    Call, CommandRunner, Runs, args1, args2, grows, lemma_grows_push, lemma_grows_trans, since,
};
use crate::text::{chars_of, is_ws, trim, trim_end_index, trim_start_index, trimmed};

verus! {

/// `c` in lower case, for ASCII letters.
pub open spec fn ascii_lower(c: char) -> char {
    if 'A' <= c <= 'Z' {
        ((c as u32) + 32) as char
    } else {
        c
    }
}

/// `s` with its ASCII letters in lower case.
pub open spec fn lower(s: Seq<char>) -> Seq<char> {
    s.map_values(|c: char| ascii_lower(c))
}

/// A tool's answer to a query, matched without regard to case: `intel` or
/// `integrated`, `on-demand` or `hybrid`, `nvidia`. (Only ASCII capitals
/// lower-case to the letters of these words, so ASCII case folding and
/// Unicode lower-casing agree on them.)
pub open spec fn parse_mode_spec(answer: Seq<char>) -> Option<GpuMode> {
    let a = lower(trim(answer));
    if a == "intel"@ || a == "integrated"@ {
        Some(GpuMode::Integrated)
    } else if a == "on-demand"@ || a == "hybrid"@ {
        Some(GpuMode::Hybrid)
    } else if a == "nvidia"@ {
        Some(GpuMode::Dedicated)
    } else {
        None
    }
}

fn lower_char(c: char) -> (r: char)
    ensures
        r == ascii_lower(c),
{
    if 'A' <= c && c <= 'Z' {
        let v: u32 = (c as u32) + 32;
        assert(v == (c as u32) + 32);
        char_from_ascii(v)
    } else {
        c
    }
}

/// The ASCII character with code `v`.
fn char_from_ascii(v: u32) -> (r: char)
    requires
        v < 128,
    ensures
        r == v as char,
{
    let b: u8 = v as u8;
    b as char
}

/// Whether the characters of `a`, ASCII lower-cased, spell `w`.
fn lower_equals(a: &Vec<char>, w: &str) -> (r: bool)
    ensures
        r == (lower(a@) == w@),
{
    let wc = chars_of(w);
    if a.len() != wc.len() {
        assert(lower(a@).len() != w@.len());
        return false;
    }
    let mut i: usize = 0;
    while i < a.len()
        invariant
            a@.len() == wc@.len(),
            wc@ == w@,
            0 <= i <= a@.len(),
            forall|k: int| 0 <= k < i ==> ascii_lower(a@[k]) == wc@[k],
        decreases a@.len() - i,
    {
        if lower_char(a[i]) != wc[i] {
            assert(lower(a@)[i as int] != w@[i as int]);
            return false;
        }
        i = i + 1;
    }
    assert(lower(a@) =~= w@);
    true
}

/// Parse a tool's answer to a mode query.
pub fn parse_mode(answer: &str) -> (r: Option<GpuMode>)
    ensures
        r == parse_mode_spec(answer@),
{
    let t = trimmed(&chars_of(answer));
    if lower_equals(&t, "intel") || lower_equals(&t, "integrated") {
        Some(GpuMode::Integrated)
    } else if lower_equals(&t, "on-demand") || lower_equals(&t, "hybrid") {
        Some(GpuMode::Hybrid)
    } else if lower_equals(&t, "nvidia") {
        Some(GpuMode::Dedicated)
    } else {
        None
    }
}

/// The tool that switches modes.
#[derive(Clone, Copy, Debug, PartialEq, Eq, Structural)]
pub enum Tool {
    /// Ubuntu `prime-select`: intel | on-demand | nvidia
    PrimeSelect,
    /// `envycontrol`: integrated | hybrid | nvidia
    EnvyControl,
}

pub open spec fn tool_program(t: Tool) -> Seq<char> {
    match t {
        Tool::PrimeSelect => "prime-select"@,
        Tool::EnvyControl => "envycontrol"@,
    }
}

/// The arguments that switch `t` to `mode`.
pub open spec fn switch_args(t: Tool, mode: GpuMode) -> Seq<Seq<char>> {
    match t {
        Tool::PrimeSelect => seq![
            match mode {
                GpuMode::Integrated => "intel"@,
                GpuMode::Hybrid => "on-demand"@,
                GpuMode::Dedicated => "nvidia"@,
            },
        ],
        Tool::EnvyControl => seq![
            "-s"@,
            match mode {
                GpuMode::Integrated => "integrated"@,
                GpuMode::Hybrid => "hybrid"@,
                GpuMode::Dedicated => "nvidia"@,
            },
        ],
    }
}

/// A word with no surrounding whitespace and no capitals reads as itself.
proof fn lemma_plain_word(w: Seq<char>)
    requires
        w.len() > 0,
        !is_ws(w[0]),
        !is_ws(w[w.len() - 1]),
        forall|i: int| 0 <= i < w.len() ==> !('A' <= #[trigger] w[i] <= 'Z'),
    ensures
        lower(trim(w)) == w,
{
    assert(trim_start_index(w, 0) == 0);
    assert(trim_end_index(w, 0, w.len() as int) == w.len());
    assert(trim(w) =~= w);
    assert(lower(w) =~= w);
}

/// The argument each tool is switched with names the mode asked for: read
/// back as a query answer it is that mode, for every tool and mode. So two
/// different modes are never switched to with the same arguments.
pub proof fn lemma_switch_args_name_the_mode(t: Tool, mode: GpuMode)
    ensures
        parse_mode_spec(switch_args(t, mode).last()) == Some(mode),
{
    reveal_strlit("intel");
    reveal_strlit("integrated");
    reveal_strlit("on-demand");
    reveal_strlit("hybrid");
    reveal_strlit("nvidia");
    reveal_strlit("-s");
    let w = switch_args(t, mode).last();
    lemma_plain_word(w);
    assert("nvidia"@[0] != "hybrid"@[0]);
}

/// The GPU-mode switcher the daemon found.
pub trait GpuSwitch {
    /// Configured mode; None when switching isn't supported on this host.
    fn current(&self) -> Option<GpuMode>;

    fn set<R: CommandRunner>(&mut self, runs: &mut Runs<R>, mode: GpuMode) -> Result<(), String>;

    /// True when a switch happened this boot (logout/reboot still needed).
    fn pending(&self) -> bool;
}

/// No switching tool on this host.
pub struct Unsupported;

/// Why switching is refused without a tool.
pub open spec fn no_tool_message() -> Seq<char> {
    "no supported GPU switching tool found (install nvidia-prime's prime-select or envycontrol)"@
}

impl GpuSwitch for Unsupported {
    fn current(&self) -> (r: Option<GpuMode>)
        ensures
            r is None,
    {
        None
    }

    fn set<R: CommandRunner>(&mut self, runs: &mut Runs<R>, mode: GpuMode) -> (r: Result<(), String>)
        ensures
            r matches Err(e) && e@ == no_tool_message(),
            final(runs).log@ == old(runs).log@,
    {
        Err(
            String::from_str(
                "no supported GPU switching tool found (install nvidia-prime's prime-select or envycontrol)",
            ),
        )
    }

    fn pending(&self) -> (r: bool)
        ensures
            !r,
    {
        false
    }
}

/// A simulated switcher for `--mock`.
pub struct MockGpu {
    pub mode: GpuMode,
    pub pending: bool,
}

impl GpuSwitch for MockGpu {
    fn current(&self) -> (r: Option<GpuMode>)
        ensures
            r == Some(self.mode),
    {
        Some(self.mode)
    }

    fn set<R: CommandRunner>(&mut self, runs: &mut Runs<R>, mode: GpuMode) -> (r: Result<(), String>)
        ensures
            r is Ok,
            final(self).mode == mode,
            final(self).pending == (old(self).pending || old(self).mode != mode),
            final(runs).log@ == old(runs).log@,
    {
        if self.mode != mode {
            self.mode = mode;
            self.pending = true;
        }
        Ok(())
    }

    fn pending(&self) -> (r: bool)
        ensures
            r == self.pending,
    {
        self.pending
    }
}

/// `prime-select` or `envycontrol`, with the mode it reported or was set to.
pub struct PrimeTool {
    pub tool: Tool,
    pub mode: GpuMode,
    pub pending: bool,
}

/// What detection finds, given the calls it made: `prime-select query`
/// first, then `envycontrol --query`; the first that answers with a
/// known mode wins.
pub open spec fn detect_spec(calls: Seq<Call>) -> Option<Option<(Tool, GpuMode)>> {
    if calls.len() == 0 || calls[0].0 != "prime-select"@ || calls[0].1 != seq!["query"@] {
        None
    } else if calls[0].2 matches Ok(a) && parse_mode_spec(a) is Some {
        if calls.len() == 1 {
            Some(Some((Tool::PrimeSelect, parse_mode_spec(calls[0].2->Ok_0).unwrap())))
        } else {
            None
        }
    } else if calls.len() != 2 || calls[1].0 != "envycontrol"@ || calls[1].1 != seq!["--query"@] {
        None
    } else if calls[1].2 matches Ok(a) && parse_mode_spec(a) is Some {
        Some(Some((Tool::EnvyControl, parse_mode_spec(calls[1].2->Ok_0).unwrap())))
    } else {
        Some(None)
    }
}

/// The tool and mode of a detection result.
pub open spec fn tool_view(t: Option<PrimeTool>) -> Option<(Tool, GpuMode)> {
    match t {
        Some(p) => Some((p.tool, p.mode)),
        None => None,
    }
}

impl PrimeTool {
    /// Ask `prime-select`, then `envycontrol`, which mode is configured.
    pub fn detect<R: CommandRunner>(runs: &mut Runs<R>) -> (r: Option<PrimeTool>)
        ensures
            grows(old(runs).log@, final(runs).log@),
            detect_spec(since(old(runs).log@, final(runs).log@)) == Some(tool_view(r)),
            r matches Some(p) ==> !p.pending,
    {
        let ghost log0 = runs.log@;
        let first = runs.run("prime-select", &args1("query"));
        proof {
            lemma_grows_push(log0, runs.log@.last());
            assert(runs.log@ == log0.push(runs.log@.last()));
        }
        let ghost log1 = runs.log@;
        if let Ok(answer) = &first {
            if let Some(mode) = parse_mode(answer.as_str()) {
                return Some(PrimeTool { tool: Tool::PrimeSelect, mode, pending: false });
            }
        }
        let second = runs.run("envycontrol", &args1("--query"));
        proof {
            lemma_grows_push(log1, runs.log@.last());
            assert(runs.log@ == log1.push(runs.log@.last()));
            lemma_grows_trans(log0, log1, runs.log@);
        }
        if let Ok(answer) = &second {
            if let Some(mode) = parse_mode(answer.as_str()) {
                return Some(PrimeTool { tool: Tool::EnvyControl, mode, pending: false });
            }
        }
        None
    }
}

impl GpuSwitch for PrimeTool {
    fn current(&self) -> (r: Option<GpuMode>)
        ensures
            r == Some(self.mode),
    {
        Some(self.mode)
    }

    /// Run the tool; on success the new mode is recorded and a reboot is
    /// pending, on failure nothing changes and the tool's message is
    /// returned.
    fn set<R: CommandRunner>(&mut self, runs: &mut Runs<R>, mode: GpuMode) -> (r: Result<(), String>)
        ensures
            final(runs).log@.len() == old(runs).log@.len() + 1,
            final(runs).log@.drop_last() == old(runs).log@,
            final(runs).log@.last().0 == tool_program(old(self).tool),
            final(runs).log@.last().1 == switch_args(old(self).tool, mode),
            final(runs).log@.last().2 is Ok <==> r is Ok,
            final(runs).log@.last().2 matches Err(e) ==> (r matches Err(m) && m@ == e),
            final(self).tool == old(self).tool,
            r is Ok ==> final(self).mode == mode && final(self).pending,
            r is Err ==> final(self).mode == old(self).mode && final(self).pending == old(
                self,
            ).pending,
    {
        let ghost log0 = runs.log@;
        let res = match self.tool {
            Tool::PrimeSelect => {
                let arg = match mode {
                    GpuMode::Integrated => "intel",
                    GpuMode::Hybrid => "on-demand",
                    GpuMode::Dedicated => "nvidia",
                };
                runs.run("prime-select", &args1(arg))
            },
            Tool::EnvyControl => {
                let arg = match mode {
                    GpuMode::Integrated => "integrated",
                    GpuMode::Hybrid => "hybrid",
                    GpuMode::Dedicated => "nvidia",
                };
                runs.run("envycontrol", &args2("-s", arg))
            },
        };
        assert(runs.log@.drop_last() =~= log0);
        match res {
            Ok(_) => {
                self.mode = mode;
                self.pending = true;
                Ok(())
            },
            Err(e) => Err(e),
        }
    }

    fn pending(&self) -> (r: bool)
        ensures
            r == self.pending,
    {
        self.pending
    }
}

/// The switcher the daemon uses.
pub enum GpuBackend {
    Mock(MockGpu),
    Prime(PrimeTool),
    Unsupported(Unsupported),
}

impl GpuSwitch for GpuBackend {
    fn current(&self) -> (r: Option<GpuMode>)
        ensures
            r == match self {
                GpuBackend::Mock(m) => Some(m.mode),
                GpuBackend::Prime(p) => Some(p.mode),
                GpuBackend::Unsupported(_) => None,
            },
    {
        match self {
            GpuBackend::Mock(m) => m.current(),
            GpuBackend::Prime(p) => p.current(),
            GpuBackend::Unsupported(u) => u.current(),
        }
    }

    fn set<R: CommandRunner>(&mut self, runs: &mut Runs<R>, mode: GpuMode) -> (r: Result<(), String>)
        ensures
            r is Ok ==> final(self).current_spec() == Some(mode),
            *old(self) is Prime && r is Ok ==> final(self).pending_spec(),
            *old(self) is Mock ==> final(self).pending_spec() == (old(self).pending_spec()
                || old(self).current_spec() != Some(mode)),
            r is Err ==> final(self).current_spec() == old(self).current_spec()
                && final(self).pending_spec() == old(self).pending_spec(),
            *old(self) is Unsupported ==> (r matches Err(e) && e@ == no_tool_message()),
            *old(self) is Mock ==> r is Ok,
            // The host's tool is run once, with the arguments for `mode`,
            // and its failure is passed on ...
            *old(self) matches GpuBackend::Prime(p) ==> {
                &&& *final(self) matches GpuBackend::Prime(q) && q.tool == p.tool
                &&& final(runs).log@.len() == old(runs).log@.len() + 1
                &&& final(runs).log@.drop_last() == old(runs).log@
                &&& final(runs).log@.last().0 == tool_program(p.tool)
                &&& final(runs).log@.last().1 == switch_args(p.tool, mode)
                &&& (final(runs).log@.last().2 is Ok <==> r is Ok)
                &&& (final(runs).log@.last().2 matches Err(e) ==> (r matches Err(m) && m@ == e))
            },
            // ... the others run nothing.
            !(*old(self) is Prime) ==> final(runs).log@ == old(runs).log@,
            *old(self) is Mock ==> *final(self) is Mock,
            *old(self) is Unsupported ==> *final(self) is Unsupported,
    {
        match self {
            GpuBackend::Mock(m) => m.set(runs, mode),
            GpuBackend::Prime(p) => p.set(runs, mode),
            GpuBackend::Unsupported(u) => u.set(runs, mode),
        }
    }

    fn pending(&self) -> (r: bool)
        ensures
            r == self.pending_spec(),
    {
        match self {
            GpuBackend::Mock(m) => m.pending(),
            GpuBackend::Prime(p) => p.pending(),
            GpuBackend::Unsupported(u) => u.pending(),
        }
    }
}

impl GpuBackend {
    pub open spec fn current_spec(self) -> Option<GpuMode> {
        match self {
            GpuBackend::Mock(m) => Some(m.mode),
            GpuBackend::Prime(p) => Some(p.mode),
            GpuBackend::Unsupported(_) => None,
        }
    }

    pub open spec fn pending_spec(self) -> bool {
        match self {
            GpuBackend::Mock(m) => m.pending,
            GpuBackend::Prime(p) => p.pending,
            GpuBackend::Unsupported(_) => false,
        }
    }
}

/// The switcher: a simulated one for `--mock`, else the host's tool, else
/// none.
pub fn open<R: CommandRunner>(mock: bool, runs: &mut Runs<R>) -> (r: GpuBackend)
    ensures
        mock ==> r == GpuBackend::Mock(MockGpu { mode: GpuMode::Hybrid, pending: false }),
        mock ==> final(runs).log@ == old(runs).log@,
        !mock ==> grows(old(runs).log@, final(runs).log@),
        !mock ==> match detect_spec(since(old(runs).log@, final(runs).log@)) {
            Some(Some((t, m))) => r matches GpuBackend::Prime(p) && p.tool == t && p.mode == m
                && !p.pending,
            Some(None) => r is Unsupported,
            None => false,
        },
{
    if mock {
        return GpuBackend::Mock(MockGpu { mode: GpuMode::Hybrid, pending: false });
    }
    match PrimeTool::detect(runs) {
        Some(tool) => GpuBackend::Prime(tool),
        None => GpuBackend::Unsupported(Unsupported),
    }
}

} // verus!
