//! Command lines: a program and its arguments.
use crate::text;
use vstd::prelude::*;

verus! {

broadcast use vstd::string::group_string_axioms;

/// A program and its arguments.
#[derive(Debug, PartialEq, Eq)]
pub struct CommandLine {
    pub program: String,
    pub args: Vec<String>,
}

/// A program and its arguments with a space before each.
pub open spec fn cmd_text(program: Seq<char>, args: Seq<Seq<char>>) -> Seq<char>
    decreases args.len(),
{
    if args.len() == 0 {
        program
    } else {
        cmd_text(program, args.drop_last()) + " "@ + args.last()
    }
}

impl CommandLine {
    /// The arguments as character sequences.
    pub open spec fn arg_views(&self) -> Seq<Seq<char>> {
        text::views(self.args@)
    }

    /// A program without arguments.
    pub fn new(program: &str) -> (r: Self)
        ensures
            r.program@ == program@,
            r.arg_views() == Seq::<Seq<char>>::empty(),
    {
        Self { program: program.to_owned(), args: Vec::new() }
    }

    /// Adds an argument.
    pub fn arg(&mut self, a: &str)
        ensures
            final(self).program == old(self).program,
            final(self).arg_views() == old(self).arg_views().push(a@),
    {
        self.args.push(a.to_owned());
    }

    /// Adds two arguments.
    pub fn arg2(&mut self, a: &str, b: &str)
        ensures
            final(self).program == old(self).program,
            final(self).arg_views() == old(self).arg_views().push(a@).push(b@),
    {
        self.arg(a);
        self.arg(b);
    }

    /// Adds two arguments, the second an option. `None` adds nothing.
    pub fn arg2_opt(&mut self, a: &str, b: Option<&str>)
        ensures
            final(self).program == old(self).program,
            final(self).arg_views() == (match b {
                Some(b) => old(self).arg_views().push(a@).push(b@),
                None => old(self).arg_views(),
            }),
    {
        match b {
            Some(b) => self.arg2(a, b),
            None => {},
        }
    }

    /// Adds two arguments if `condition`, otherwise nothing.
    pub fn arg2_if(&mut self, condition: bool, a: &str, b: &str)
        ensures
            final(self).program == old(self).program,
            final(self).arg_views() == (if condition {
                old(self).arg_views().push(a@).push(b@)
            } else {
                old(self).arg_views()
            }),
    {
        if condition {
            self.arg2(a, b);
        }
    }

    /// Adds an argument if `condition`, otherwise nothing.
    pub fn arg_if(&mut self, condition: bool, a: &str)
        ensures
            final(self).program == old(self).program,
            final(self).arg_views() == (if condition {
                old(self).arg_views().push(a@)
            } else {
                old(self).arg_views()
            }),
    {
        if condition {
            self.arg(a);
        }
    }

    /// Adds a list of arguments, in order.
    pub fn args(&mut self, list: &[String])
        ensures
            final(self).program == old(self).program,
            final(self).arg_views() == old(self).arg_views() + text::views(list@),
    {
        let mut i: usize = 0;
        while i < list.len()
            invariant
                i <= list.len(),
                self.program == old(self).program,
                self.arg_views() == old(self).arg_views() + text::views(list@).take(i as int),
            decreases list.len() - i,
        {
            self.arg(list[i].as_str());
            i += 1;
        }
        assert(text::views(list@).take(i as int) == text::views(list@));
    }

    /// Disables audio, subtitle, and data streams (score and null output runs).
    pub fn suppress_non_video_streams(&mut self)
        ensures
            final(self).program == old(self).program,
            final(self).arg_views() == old(self).arg_views() + seq!["-an"@, "-sn"@, "-dn"@],
    {
        self.arg("-an");
        self.arg("-sn");
        self.arg("-dn");
    }

    /// Converts to a readable shell-like string.
    pub fn to_cmd_str(&self) -> (r: String)
        ensures
            r@ == cmd_text(self.program@, self.arg_views()),
    {
        let mut out = self.program.clone();
        let mut i: usize = 0;
        while i < self.args.len()
            invariant
                i <= self.args.len(),
                out@ == cmd_text(self.program@, self.arg_views().take(i as int)),
            decreases self.args.len() - i,
        {
            out.append(" ");
            out.append(self.args[i].as_str());
            proof {
                let next = self.arg_views().take(i + 1);
                assert(next.drop_last() == self.arg_views().take(i as int));
                assert(next.last() == self.args@[i as int]@);
            }
            i += 1;
        }
        assert(self.arg_views().take(i as int) == self.arg_views());
        out
    }
}

/// A command is shown as its program and all its arguments in order, one space
/// before each.
pub proof fn law_command_is_shown_in_order(
    program: Seq<char>,
    a: Seq<Seq<char>>,
    b: Seq<Seq<char>>,
    arg: Seq<char>,
)
    ensures
        cmd_text(program, Seq::empty()) == program,
        cmd_text(program, seq![arg]) == program + " "@ + arg,
        cmd_text(program, a + b) == cmd_text(cmd_text(program, a), b),
    decreases b.len(),
{
    reveal_with_fuel(cmd_text, 2);
    assert(seq![arg].drop_last() =~= Seq::empty());
    assert(seq![arg].last() == arg);
    if b.len() == 0 {
        assert(a + b =~= a);
    } else {
        law_command_is_shown_in_order(program, a, b.drop_last(), arg);
        assert((a + b).drop_last() =~= a + b.drop_last());
        assert((a + b).last() == b.last());
    }
}

} // verus!
