use vstd::prelude::*;
use vstd::string::*;

verus! {

/// The character sequences that a list of strings holds.
pub open spec fn strs(v: Seq<String>) -> Seq<Seq<char>> {
    v.map_values(|a: String| a@)
}

/// What an external program invocation is, as plain values.
pub struct CommandView {
    pub program: Seq<char>,
    pub args: Seq<Seq<char>>,
    pub dir: Option<Seq<char>>,
}

/// An external program to start: its name or path, its arguments in order, and
/// the working directory it runs in (the caller's own where `None`).
pub struct Invocation {
    pub program: String,
    pub args: Vec<String>,
    pub dir: Option<String>,
}

/// The directory view of an optional path.
pub open spec fn opt_view(d: Option<String>) -> Option<Seq<char>> {
    match d {
        Some(s) => Some(s@),
        None => None,
    }
}

impl View for Invocation {
    type V = CommandView;

    open spec fn view(&self) -> CommandView {
        CommandView { program: self.program@, args: strs(self.args@), dir: opt_view(self.dir) }
    }
}

/// Appends one argument.
pub fn push_arg(v: &mut Vec<String>, a: &str)
    ensures
        strs(final(v)@) == strs(old(v)@).push(a@),
{
    v.push(String::from_str(a));
    assert(strs(final(v)@) =~= strs(old(v)@).push(a@));
}

/// Appends every argument of `more`, in order.
pub fn push_all(v: &mut Vec<String>, more: &Vec<String>)
    ensures
        strs(final(v)@) == strs(old(v)@) + strs(more@),
{
    let mut i: usize = 0;
    while i < more.len()
        invariant
            i <= more@.len(),
            strs(v@) == strs(old(v)@) + strs(more@.take(i as int)),
        decreases more@.len() - i,
    {
        push_arg(v, more[i].as_str());
        assert(more@.take(i + 1) =~= more@.take(i as int).push(more@[i as int]));
        assert(strs(more@.take(i + 1)) =~= strs(more@.take(i as int)).push(more@[i as int]@));
        i = i + 1;
    }
    assert(more@.take(more@.len() as int) =~= more@);
    assert(strs(v@) =~= strs(old(v)@) + strs(more@));
}

impl Invocation {
    /// A program to start with no arguments, in the caller's directory.
    pub fn new(program: &str) -> (r: Invocation)
        ensures
            r@ == (CommandView { program: program@, args: seq![], dir: None }),
    {
        let r = Invocation { program: String::from_str(program), args: Vec::new(), dir: None };
        assert(r@.args =~= Seq::<Seq<char>>::empty());
        r
    }

    /// Appends one argument.
    pub fn arg(&mut self, a: &str)
        ensures
            final(self)@ == (CommandView { args: old(self)@.args.push(a@), ..old(self)@ }),
    {
        push_arg(&mut self.args, a);
    }
}

} // verus!
