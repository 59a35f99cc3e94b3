//! Outside programs (`prime-select`, `ddcutil`, `colormgr`, ...) as the
//! library sees them: a runner that the caller supplies, and a record of
//! every call made through it.
use vstd::prelude::*;

verus! {

/// Runs an outside program. What comes back depends on the machine, so
/// nothing is promised of it; the functions that use a runner are correct
/// for every reply.
pub trait CommandRunner {
    /// Run `program` with `args`: its standard output when it succeeds,
    /// else a message saying why not.
    fn run(&mut self, program: &str, args: &Vec<String>) -> Result<String, String>;
}

/// The characters of each string.
pub open spec fn strings_view(v: Seq<String>) -> Seq<Seq<char>> {
    v.map_values(|s: String| s@)
}

/// A reply as characters.
pub open spec fn reply_view(r: Result<String, String>) -> Result<Seq<char>, Seq<char>> {
    match r {
        Ok(s) => Ok(s@),
        Err(e) => Err(e@),
    }
}

/// One call: the program, its arguments, and what came back.
pub type Call = (Seq<char>, Seq<Seq<char>>, Result<Seq<char>, Seq<char>>);

/// A runner together with the record of the calls made through it.
pub struct Runs<R: CommandRunner> {
    pub runner: R,
    pub log: Ghost<Seq<Call>>,
}

/// The calls made since `before` was the whole record.
pub open spec fn since(before: Seq<Call>, after: Seq<Call>) -> Seq<Call> {
    after.skip(before.len() as int)
}

/// `after` is `before` followed by more calls.
pub open spec fn grows(before: Seq<Call>, after: Seq<Call>) -> bool {
    before.len() <= after.len() && after.subrange(0, before.len() as int) == before
}

impl<R: CommandRunner> Runs<R> {
    pub fn new(runner: R) -> (r: Runs<R>)
        ensures
            r.log@ == Seq::<Call>::empty(),
    {
        Runs { runner, log: Ghost(Seq::empty()) }
    }

    /// Run `program` with `args`, recording the call.
    pub fn run(&mut self, program: &str, args: &Vec<String>) -> (r: Result<String, String>)
        ensures
            final(self).log@ == old(self).log@.push((program@, strings_view(args@), reply_view(r))),
    {
        let r = self.runner.run(program, args);
        let ghost entry = (program@, strings_view(args@), reply_view(r));
        self.log = Ghost(self.log@.push(entry));
        r
    }
}

pub proof fn lemma_grows_push(before: Seq<Call>, c: Call)
    ensures
        grows(before, before.push(c)),
        since(before, before.push(c)) == seq![c],
{
    assert(before.push(c).subrange(0, before.len() as int) =~= before);
    assert(before.push(c).skip(before.len() as int) =~= seq![c]);
}

pub proof fn lemma_grows_trans(a: Seq<Call>, b: Seq<Call>, c: Seq<Call>)
    requires
        grows(a, b),
        grows(b, c),
    ensures
        grows(a, c),
        since(a, c) == since(a, b) + since(b, c),
{
    assert(c.subrange(0, a.len() as int) =~= b.subrange(0, a.len() as int));
    assert forall|i: int| 0 <= i < b.len() implies #[trigger] c[i] == b[i] by {
        assert(c.subrange(0, b.len() as int)[i] == c[i]);
    }
    assert(since(a, c) =~= since(a, b) + since(b, c));
}

/// A one-element list of strings.
pub fn args1(a: &str) -> (r: Vec<String>)
    ensures
        strings_view(r@) == seq![a@],
{
    let r = vec![String::from_str(a)];
    assert(strings_view(r@) =~= seq![a@]);
    r
}

/// A two-element list of strings.
pub fn args2(a: &str, b: &str) -> (r: Vec<String>)
    ensures
        strings_view(r@) == seq![a@, b@],
{
    let r = vec![String::from_str(a), String::from_str(b)];
    assert(strings_view(r@) =~= seq![a@, b@]);
    r
}

} // verus!
