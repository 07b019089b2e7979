//! One stage of a pipeline: a program name plus an ordered argument list.

use vstd::prelude::*;

use crate::error::APipeError;
use crate::error::ParseFault;
use crate::error::SegFault;
use crate::tokenize::TokenFault;
use crate::tokenize::tokenize;
use crate::tokenize::tokenize_str;
use crate::tokenize::views_of;

verus! {

/// The mathematical model of a [`Command`]: the program and its arguments.
#[verifier::ext_equal]
pub ghost struct CmdModel {
    pub program: Seq<char>,
    pub args: Seq<Seq<char>>,
}

/// A command that runs `program` with no arguments yet.
pub open spec fn fresh_command(program: Seq<char>) -> CmdModel {
    CmdModel { program, args: Seq::empty() }
}

/// `c` with one more argument appended.
pub open spec fn with_arg(c: CmdModel, a: Seq<char>) -> CmdModel {
    CmdModel { program: c.program, args: c.args.push(a) }
}

/// What one pipe segment means: its first token names the program, the
/// remaining tokens are the arguments, in order. A segment without tokens is
/// rejected rather than silently skipped.
pub open spec fn parse_segment(s: Seq<char>) -> Result<CmdModel, SegFault> {
    match tokenize(s) {
        Err(TokenFault::UnterminatedQuote) => Err(SegFault::UnterminatedQuote),
        Err(TokenFault::TrailingEscape) => Err(SegFault::TrailingEscape),
        Ok(toks) => if toks.len() == 0 {
            Err(SegFault::EmptySegment)
        } else {
            Ok(CmdModel { program: toks[0], args: toks.skip(1) })
        },
    }
}

/// An un-started process specification: a program name or path, and an
/// ordered, append-only list of arguments. It carries no process semantics of
/// its own; the pipeline consumes it at spawn time.
#[derive(Debug, Clone, PartialEq, Eq)]
pub struct Command {
    program: String,
    args: Vec<String>,
}

impl View for Command {
    type V = CmdModel;

    closed spec fn view(&self) -> CmdModel {
        CmdModel { program: self.program@, args: views_of(self.args@) }
    }
}

impl Command {
    /// A command with an empty argument list. The program is not checked to
    /// exist here; resolution is deferred to spawn time.
    pub fn new(program: &str) -> (c: Command)
        ensures
            c@ == fresh_command(program@),
    {
        let c = Command { program: program.to_owned(), args: Vec::new() };
        proof {
            assert(c@ =~= fresh_command(program@));
        }
        c
    }

    /// Append one argument. The value is kept opaque: it is not re-tokenized.
    pub fn arg(&mut self, value: &str)
        ensures
            final(self)@ == with_arg(old(self)@, value@),
    {
        let v = value.to_owned();
        proof {
            crate::tokenize::lemma_views_of_push(self.args@, v);
        }
        self.args.push(v);
        proof {
            assert(self@ =~= with_arg(old(self)@, value@));
        }
    }

    /// Append a sequence of arguments in order; equivalent to repeated
    /// [`Command::arg`].
    pub fn args(&mut self, values: &Vec<String>)
        ensures
            final(self)@.program == old(self)@.program,
            final(self)@.args == old(self)@.args + views_of(values@),
    {
        let mut k: usize = 0;
        while k < values.len()
            invariant
                k <= values.len(),
                self.program == old(self).program,
                self.args@ == old(self).args@ + values@.subrange(0, k as int),
            decreases values.len() - k,
        {
            self.args.push(values[k].clone());
            proof {
                assert(self.args@ =~= old(self).args@ + values@.subrange(0, k as int + 1));
            }
            k = k + 1;
        }
        proof {
            assert(values@.subrange(0, values@.len() as int) =~= values@);
            assert(self@.args =~= old(self)@.args + views_of(values@));
        }
    }

    /// The program this command will run.
    pub fn program(&self) -> (r: &String)
        ensures
            r@ == self@.program,
    {
        &self.program
    }

    /// The arguments in the order they will be passed.
    pub fn arguments(&self) -> (r: &Vec<String>)
        ensures
            views_of(r@) == self@.args,
    {
        &self.args
    }

    /// Parse one pipe segment into a command, exactly as [`parse_segment`]
    /// describes: the segment's first token is the program, the rest are the
    /// arguments, and a malformed or empty segment is rejected with the
    /// offending text.
    pub fn parse_str(text: &str) -> (r: Result<Command, APipeError>)
        ensures
            match parse_segment(text@) {
                Ok(m) => r matches Ok(c) && c@ == m,
                Err(k) => r matches Err(APipeError::Parse(f)) && f.kind == k && f.segment@
                    == text@,
            },
    {
        match tokenize_str(text) {
            Err(tf) => {
                let kind = match tf {
                    TokenFault::UnterminatedQuote => SegFault::UnterminatedQuote,
                    TokenFault::TrailingEscape => SegFault::TrailingEscape,
                };
                Err(APipeError::Parse(ParseFault { kind, segment: text.to_owned() }))
            },
            Ok(mut toks) => {
                if toks.len() == 0 {
                    Err(
                        APipeError::Parse(
                            ParseFault { kind: SegFault::EmptySegment, segment: text.to_owned() },
                        ),
                    )
                } else {
                    let ghost toks_model = tokenize(text@)->Ok_0;
                    let program = toks.remove(0);
                    let c = Command { program, args: toks };
                    proof {
                        assert(views_of(c.args@) =~= toks_model.skip(1));
                        assert(c@ =~= parse_segment(text@)->Ok_0);
                    }
                    Ok(c)
                }
            },
        }
    }
}

} // verus!
