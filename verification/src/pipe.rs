//! The pipeline: an ordered sequence of commands and the engine that runs
//! them as a chain of child processes.
//!
//! The engine is a state machine. Every decision — which program a stage
//! runs, whether its standard input is piped from the previous stage, how a
//! failure is classified, when the cached output is reused — is made here and
//! verified. The operating-system work itself (starting a process, waiting on
//! it, reaping its output) is done by a driver outside the library: the
//! driver asks the pipeline what to do, does it, and reports the outcome back
//! through [`CommandPipe::record_stage`], [`CommandPipe::finish_drain`] and
//! [`CommandPipe::drain_failed`].

use vstd::prelude::*;

use crate::command::Command;
use crate::command::CmdModel;
use crate::command::fresh_command;
use crate::command::parse_segment;
use crate::command::with_arg;
use crate::error::APipeError;
use crate::error::SegFault;
use crate::output::Output;
use crate::output::OutputModel;
use crate::tokenize::chars_to_string;
use crate::tokenize::lemma_views_of_push;
use crate::tokenize::tokenize;
use crate::tokenize::views_of;

verus! {

/// The mathematical model of a [`CommandPipe`]: the stages in execution
/// order, whether the driver still holds a live process handle for the most
/// recently spawned stage, and the memoized terminal output.
#[verifier::ext_equal]
pub ghost struct PipeModel {
    pub stages: Seq<CmdModel>,
    pub active: bool,
    pub output: Option<OutputModel>,
}

/// A pipe with no stages, no active process and no cached output.
pub open spec fn empty_pipe() -> PipeModel {
    PipeModel { stages: Seq::empty(), active: false, output: None }
}

/// `p` with one more stage appended; nothing else changes.
pub open spec fn spec_add_stage(p: PipeModel, c: CmdModel) -> PipeModel {
    PipeModel { stages: p.stages.push(c), active: p.active, output: p.output }
}

/// The views of a sequence of commands.
pub open spec fn stage_views(cs: Seq<Command>) -> Seq<CmdModel> {
    Seq::new(cs.len(), |j: int| cs[j]@)
}

proof fn lemma_stage_views_push(cs: Seq<Command>, c: Command)
    ensures
        stage_views(cs.push(c)) =~= stage_views(cs).push(c@),
{
    assert forall|j: int| 0 <= j < cs.len() + 1 implies stage_views(cs.push(c))[j] == stage_views(
        cs,
    ).push(c@)[j] by {
        if j < cs.len() {
            assert(cs.push(c)[j] == cs[j]);
        }
    }
}

/// A parse failure of a whole pipe description: the fault and the segment it
/// lies in.
#[verifier::ext_equal]
pub ghost struct PipeParseFault {
    pub kind: SegFault,
    pub segment: Seq<char>,
}

/// The `|`-separated segments of a pipe description, one character at a time:
/// `i` characters of `s` are consumed, `cur` is the segment being built and
/// `done` the finished ones. Splitting ignores quotes; every delimiter starts
/// a new segment, so empty segments are kept and rejected later rather than
/// silently skipped.
pub open spec fn split_from(s: Seq<char>, i: int, cur: Seq<char>, done: Seq<Seq<char>>) -> Seq<
    Seq<char>,
>
    decreases s.len() - i,
{
    if i < 0 || i >= s.len() {
        done.push(cur)
    } else if s[i] == '|' {
        split_from(s, i + 1, Seq::empty(), done.push(cur))
    } else {
        split_from(s, i + 1, cur.push(s[i]), done)
    }
}

/// The segments of a pipe description. There is always one segment more than
/// there are delimiters; text without a delimiter is a single segment.
pub open spec fn split_segments(s: Seq<char>) -> Seq<Seq<char>> {
    split_from(s, 0, Seq::empty(), Seq::empty())
}

/// Parsing every segment in order, failing fast: the first segment that does
/// not parse decides the fault, and no partial pipe survives.
pub open spec fn parse_all(segs: Seq<Seq<char>>) -> Result<Seq<CmdModel>, PipeParseFault>
    decreases segs.len(),
{
    if segs.len() == 0 {
        Ok(Seq::empty())
    } else {
        match parse_segment(segs[0]) {
            Err(k) => Err(PipeParseFault { kind: k, segment: segs[0] }),
            Ok(m) => match parse_all(segs.skip(1)) {
                Err(e) => Err(e),
                Ok(rest) => Ok(seq![m] + rest),
            },
        }
    }
}

/// What a whole pipe description means: its segments, each parsed into a
/// stage, or the first fault.
pub open spec fn parse_pipe(s: Seq<char>) -> Result<Seq<CmdModel>, PipeParseFault> {
    parse_all(split_segments(s))
}

/// What the driver must do when output is requested.
#[derive(Debug, Clone, Copy, PartialEq, Eq, Structural)]
pub enum OutputAction {
    /// An output is already cached: hand it out again, reaping nothing.
    UseCached,
    /// A live handle is held and nothing is cached: reap the handle's exit
    /// status and captured streams, then report them back.
    Drain,
    /// Nothing is cached and no process has been run: fail with
    /// [`APipeError::NoActiveProcess`].
    NoProcess,
}

/// The decision [`CommandPipe::output_action`] makes, as a function of the
/// model alone.
pub open spec fn spec_output_action(p: PipeModel) -> OutputAction {
    if p.output is Some {
        OutputAction::UseCached
    } else if p.active {
        OutputAction::Drain
    } else {
        OutputAction::NoProcess
    }
}

/// The driver's report on one attempt to run a stage: the process was started
/// and waited on, or starting it failed, or waiting on it failed. The strings
/// carry the operating system's description of the failure.
pub enum StageOutcome {
    Started,
    StartFailed(String),
    WaitFailed(String),
}

/// An anonymous pipe: an ordered sequence of commands, spawned in order with
/// each stage's standard output piped into the next stage's standard input,
/// and the terminal stage's output captured.
#[derive(Debug)]
pub struct CommandPipe {
    pipeline: Vec<Command>,
    active: bool,
    output: Option<Output>,
}

impl View for CommandPipe {
    type V = PipeModel;

    closed spec fn view(&self) -> PipeModel {
        PipeModel {
            stages: stage_views(self.pipeline@),
            active: self.active,
            output: match self.output {
                Some(o) => Some(o@),
                None => None,
            },
        }
    }
}

impl CommandPipe {
    /// A new empty pipe: no stages, no active process, no cached output.
    pub fn new() -> (r: CommandPipe)
        ensures
            r@ == empty_pipe(),
    {
        let r = CommandPipe { pipeline: Vec::new(), active: false, output: None };
        proof {
            assert(r@ =~= empty_pipe());
        }
        r
    }

    /// Append a stage that runs `program`, with no arguments yet. The program
    /// may be an absolute path or a bare name resolved against the search
    /// path at spawn time.
    pub fn add_command(&mut self, program: &str)
        ensures
            final(self)@ == spec_add_stage(old(self)@, fresh_command(program@)),
    {
        let c = Command::new(program);
        proof {
            lemma_stage_views_push(self.pipeline@, c);
        }
        self.pipeline.push(c);
        proof {
            assert(self@ =~= spec_add_stage(old(self)@, fresh_command(program@)));
        }
    }

    /// Append one argument to the most recently added stage. There must be a
    /// stage to add it to.
    pub fn arg(&mut self, value: &str)
        requires
            old(self)@.stages.len() > 0,
        ensures
            final(self)@.stages == old(self)@.stages.update(
                old(self)@.stages.len() - 1,
                with_arg(old(self)@.stages.last(), value@),
            ),
            final(self)@.active == old(self)@.active,
            final(self)@.output == old(self)@.output,
    {
        let mut last = match self.pipeline.pop() {
            Some(c) => c,
            None => unreached(),
        };
        last.arg(value);
        self.pipeline.push(last);
        proof {
            assert(self@.stages =~= old(self)@.stages.update(
                old(self)@.stages.len() - 1,
                with_arg(old(self)@.stages.last(), value@),
            ));
        }
    }

    /// Append a sequence of arguments, in order, to the most recently added
    /// stage. There must be a stage to add them to.
    pub fn args(&mut self, values: &Vec<String>)
        requires
            old(self)@.stages.len() > 0,
        ensures
            final(self)@.stages == old(self)@.stages.update(
                old(self)@.stages.len() - 1,
                (CmdModel {
                    program: old(self)@.stages.last().program,
                    args: old(self)@.stages.last().args + views_of(values@),
                }),
            ),
            final(self)@.active == old(self)@.active,
            final(self)@.output == old(self)@.output,
    {
        let mut last = match self.pipeline.pop() {
            Some(c) => c,
            None => unreached(),
        };
        last.args(values);
        self.pipeline.push(last);
        proof {
            assert(self@.stages =~= old(self)@.stages.update(
                old(self)@.stages.len() - 1,
                (CmdModel {
                    program: old(self)@.stages.last().program,
                    args: old(self)@.stages.last().args + views_of(values@),
                }),
            ));
        }
    }

    /// Build a pipe from a `|`-delimited description, exactly as
    /// [`parse_pipe`] describes: each segment becomes one stage, and the
    /// first malformed or empty segment aborts the whole construction with
    /// the offending text — no partial pipe is returned.
    pub fn try_from(text: &str) -> (r: Result<CommandPipe, APipeError>)
        ensures
            match parse_pipe(text@) {
                Ok(ms) => r matches Ok(p) && p@ == (PipeModel {
                    stages: ms,
                    active: false,
                    output: None,
                }),
                Err(e) => r matches Err(APipeError::Parse(f)) && f.kind == e.kind && f.segment@
                    == e.segment,
            },
    {
        let segs = split_on_pipes(text);
        let ghost seg_views = views_of(segs@);
        let mut cmds: Vec<Command> = Vec::new();
        let mut k: usize = 0;
        while k < segs.len()
            invariant
                views_of(segs@) == split_segments(text@),
                seg_views == views_of(segs@),
                k <= segs@.len(),
                cmds@.len() == k,
                forall|j: int|
                    0 <= j < k ==> #[trigger] parse_segment(seg_views[j]) is Ok && cmds@[j]@
                        == parse_segment(seg_views[j])->Ok_0,
            decreases segs@.len() - k,
        {
            let seg = &segs[k];
            match Command::parse_str(seg.as_str()) {
                Ok(c) => {
                    cmds.push(c);
                    k = k + 1;
                },
                Err(e) => {
                    proof {
                        lemma_parse_all_first_err(seg_views, k as int);
                    }
                    return Err(e);
                },
            }
        }
        proof {
            lemma_parse_all_ok(seg_views);
            assert(stage_views(cmds@) =~= parse_pipe(text@)->Ok_0);
        }
        let r = CommandPipe { pipeline: cmds, active: false, output: None };
        proof {
            assert(r@ =~= (PipeModel {
                stages: parse_pipe(text@)->Ok_0,
                active: false,
                output: None,
            }));
        }
        Ok(r)
    }

    /// How many stages the pipe holds.
    pub fn stage_count(&self) -> (n: usize)
        ensures
            n == self@.stages.len(),
    {
        self.pipeline.len()
    }

    /// The stage at `index`, in execution order.
    pub fn stage(&self, index: usize) -> (c: &Command)
        requires
            index < self@.stages.len(),
        ensures
            c@ == self@.stages[index as int],
    {
        &self.pipeline[index]
    }

    /// Where the stage at `index` reads its standard input from: the first
    /// stage reads from an empty (null) source, every later stage from the
    /// piped standard output of the stage before it.
    pub fn stage_stdin_piped(&self, index: usize) -> (piped: bool)
        ensures
            piped == (index > 0),
    {
        index > 0
    }

    /// Forget any previously active process before a fresh spawn run. The
    /// cached output, if any, is kept: it is memoized once and for all.
    pub fn begin_spawn(&mut self)
        ensures
            final(self)@ == (PipeModel {
                stages: old(self)@.stages,
                active: false,
                output: old(self)@.output,
            }),
    {
        self.active = false;
        proof {
            assert(self@ =~= (PipeModel {
                stages: old(self)@.stages,
                active: false,
                output: old(self)@.output,
            }));
        }
    }

    /// Record the outcome of attempting the stage at `index` and classify any
    /// failure. On success the stage's process becomes the pipe's active
    /// handle. A start failure names the stage and its program and wraps the
    /// operating system's error; either failure leaves the pipe with no
    /// active handle, so the run halts at the failing stage. Stages and any
    /// cached output are untouched.
    pub fn record_stage(&mut self, index: usize, outcome: StageOutcome) -> (r: Result<
        (),
        APipeError,
    >)
        requires
            index < old(self)@.stages.len(),
        ensures
            final(self)@.stages == old(self)@.stages,
            final(self)@.output == old(self)@.output,
            match outcome {
                StageOutcome::Started => r is Ok && final(self)@.active,
                StageOutcome::StartFailed(m) => !final(self)@.active && (r matches Err(
                    APipeError::ProcessStart { stage, program, source },
                ) && stage == index && program@ == old(self)@.stages[index as int].program
                    && source@ == m@),
                StageOutcome::WaitFailed(m) => !final(self)@.active && (r matches Err(
                    APipeError::ProcessWait { source },
                ) && source@ == m@),
            },
    {
        match outcome {
            StageOutcome::Started => {
                self.active = true;
                Ok(())
            },
            StageOutcome::StartFailed(m) => {
                self.active = false;
                let program = self.pipeline[index].program().clone();
                Err(APipeError::ProcessStart { stage: index, program, source: m })
            },
            StageOutcome::WaitFailed(m) => {
                self.active = false;
                Err(APipeError::ProcessWait { source: m })
            },
        }
    }

    /// What the driver must do to answer a request for output, exactly as
    /// [`spec_output_action`] decides: reuse the cache, reap the active
    /// handle, or fail because no process has been run.
    pub fn output_action(&self) -> (r: OutputAction)
        ensures
            r == spec_output_action(self@),
    {
        if self.output.is_some() {
            OutputAction::UseCached
        } else if self.active {
            OutputAction::Drain
        } else {
            OutputAction::NoProcess
        }
    }

    /// Record the reaped results of the terminal stage, verbatim: the exit
    /// code and the captured byte streams become the pipe's Output, cached
    /// once and for all, and the active handle is consumed.
    pub fn finish_drain(&mut self, code: Option<i32>, stdout: Vec<u8>, stderr: Vec<u8>)
        requires
            old(self)@.active,
            old(self)@.output is None,
        ensures
            final(self)@.stages == old(self)@.stages,
            !final(self)@.active,
            final(self)@.output == Some(
                (OutputModel { code, stdout: stdout@, stderr: stderr@ }),
            ),
    {
        self.active = false;
        self.output = Some(Output::new(code, stdout, stderr));
    }

    /// Record that reaping the terminal stage failed: the handle is consumed,
    /// nothing is cached, and the wait error is returned.
    pub fn drain_failed(&mut self, message: String) -> (e: APipeError)
        requires
            old(self)@.active,
            old(self)@.output is None,
        ensures
            final(self)@.stages == old(self)@.stages,
            !final(self)@.active,
            final(self)@.output is None,
            e matches APipeError::ProcessWait { source } && source@ == message@,
    {
        self.active = false;
        APipeError::ProcessWait { source: message }
    }

    /// The cached output of the terminal stage. Returned by reference: no
    /// process is waited on again.
    pub fn cached_output(&self) -> (r: &Output)
        requires
            self@.output is Some,
        ensures
            r@ == self@.output->0,
    {
        match &self.output {
            Some(o) => o,
            None => unreached(),
        }
    }
}

/// Splitting a pipe description on `|`, exactly as [`split_segments`]
/// describes.
fn split_on_pipes(text: &str) -> (segs: Vec<String>)
    ensures
        views_of(segs@) == split_segments(text@),
{
    let n = text.unicode_len();
    let mut i: usize = 0;
    let mut segs: Vec<String> = Vec::new();
    let mut cur: Vec<char> = Vec::new();
    proof {
        assert(views_of(segs@) =~= Seq::<Seq<char>>::empty());
    }
    while i < n
        invariant
            n == text@.len(),
            i <= n,
            split_from(text@, i as int, cur@, views_of(segs@)) == split_segments(text@),
        decreases n - i,
    {
        let c = text.get_char(i);
        if c == '|' {
            let seg = chars_to_string(&cur);
            proof {
                lemma_views_of_push(segs@, seg);
            }
            segs.push(seg);
            cur = Vec::new();
        } else {
            cur.push(c);
        }
        i = i + 1;
    }
    let seg = chars_to_string(&cur);
    proof {
        lemma_views_of_push(segs@, seg);
    }
    segs.push(seg);
    proof {
        assert(views_of(segs@) =~= split_segments(text@));
    }
    segs
}

/// Parsing a pipe description succeeds exactly when every segment parses, and
/// then yields one stage per segment, in order.
pub proof fn lemma_parse_all_ok(segs: Seq<Seq<char>>)
    ensures
        parse_all(segs) is Ok <==> (forall|j: int|
            0 <= j < segs.len() ==> #[trigger] parse_segment(segs[j]) is Ok),
        parse_all(segs) is Ok ==> parse_all(segs)->Ok_0.len() == segs.len() && (forall|j: int|
            0 <= j < segs.len() ==> parse_all(segs)->Ok_0[j] == #[trigger] parse_segment(
                segs[j],
            )->Ok_0),
    decreases segs.len(),
{
    if segs.len() == 0 {
    } else {
        let rest = segs.skip(1);
        lemma_parse_all_ok(rest);
        if parse_segment(segs[0]) is Err {
            assert(parse_all(segs) is Err);
        } else if parse_all(rest) is Ok {
            assert forall|j: int| 0 <= j < segs.len() implies #[trigger] parse_segment(segs[j])
                is Ok by {
                if j > 0 {
                    assert(rest[j - 1] == segs[j]);
                    assert(parse_segment(rest[j - 1]) is Ok);
                }
            }
            let m = parse_segment(segs[0])->Ok_0;
            assert(parse_all(segs)->Ok_0 == seq![m] + parse_all(rest)->Ok_0);
            assert forall|j: int| 0 <= j < segs.len() implies parse_all(segs)->Ok_0[j]
                == #[trigger] parse_segment(segs[j])->Ok_0 by {
                if j == 0 {
                    assert((seq![m] + parse_all(rest)->Ok_0)[0] == m);
                } else {
                    assert((seq![m] + parse_all(rest)->Ok_0)[j] == parse_all(rest)->Ok_0[j - 1]);
                    assert(rest[j - 1] == segs[j]);
                    assert(parse_all(rest)->Ok_0[j - 1] == parse_segment(rest[j - 1])->Ok_0);
                }
            }
        } else {
            assert(parse_all(segs) is Err);
            if forall|j: int| 0 <= j < segs.len() ==> #[trigger] parse_segment(segs[j]) is Ok {
                assert forall|j: int| 0 <= j < rest.len() implies #[trigger] parse_segment(
                    rest[j],
                ) is Ok by {
                    assert(rest[j] == segs[j + 1]);
                    assert(parse_segment(segs[j + 1]) is Ok);
                }
                assert(parse_all(rest) is Ok);
                assert(false);
            }
        }
    }
}

/// Parsing fails fast: the first segment that does not parse decides the
/// fault and the offending text.
pub proof fn lemma_parse_all_first_err(segs: Seq<Seq<char>>, i: int)
    requires
        0 <= i < segs.len(),
        forall|j: int| 0 <= j < i ==> #[trigger] parse_segment(segs[j]) is Ok,
        parse_segment(segs[i]) is Err,
    ensures
        parse_all(segs) matches Err(e) && e.kind == parse_segment(segs[i])->Err_0 && e.segment
            == segs[i],
    decreases i,
{
    if i == 0 {
    } else {
        let rest = segs.skip(1);
        assert forall|j: int| 0 <= j < rest.len() implies #[trigger] parse_segment(rest[j])
            == parse_segment(segs[j + 1]) by {
            assert(rest[j] == segs[j + 1]);
        }
        lemma_parse_all_first_err(rest, i - 1);
    }
}

/// How many `|` delimiters stand in `s` at position `i` or later.
pub open spec fn delimiters_from(s: Seq<char>, i: int) -> int
    decreases s.len() - i,
{
    if i < 0 || i >= s.len() {
        0
    } else {
        (if s[i] == '|' {
            1int
        } else {
            0int
        }) + delimiters_from(s, i + 1)
    }
}

proof fn lemma_split_from_len(s: Seq<char>, i: int, cur: Seq<char>, done: Seq<Seq<char>>)
    ensures
        split_from(s, i, cur, done).len() == done.len() + 1 + delimiters_from(s, i),
    decreases s.len() - i,
{
    if i < 0 || i >= s.len() {
    } else if s[i] == '|' {
        lemma_split_from_len(s, i + 1, Seq::empty(), done.push(cur));
    } else {
        lemma_split_from_len(s, i + 1, cur.push(s[i]), done);
    }
}

/// A pipe description has exactly one segment more than it has delimiters.
pub proof fn lemma_segment_count(s: Seq<char>)
    ensures
        split_segments(s).len() == delimiters_from(s, 0) + 1,
{
    lemma_split_from_len(s, 0, Seq::empty(), Seq::empty());
}

/// Parsing a valid pipe description yields exactly one stage per
/// `|`-separated segment: the stage count equals the segment count — one
/// more than the delimiter count — each stage's program is its segment's
/// first token, and its arguments are the segment's remaining tokens, in
/// order.
pub proof fn lemma_stages_match_segments(s: Seq<char>)
    requires
        parse_pipe(s) is Ok,
    ensures
        parse_pipe(s)->Ok_0.len() == split_segments(s).len(),
        parse_pipe(s)->Ok_0.len() == delimiters_from(s, 0) + 1,
        forall|j: int|
            0 <= j < split_segments(s).len() ==> tokenize(#[trigger] split_segments(s)[j]) is Ok
                && tokenize(split_segments(s)[j])->Ok_0.len() > 0 && parse_pipe(s)->Ok_0[j].program
                == tokenize(split_segments(s)[j])->Ok_0[0] && parse_pipe(s)->Ok_0[j].args
                == tokenize(split_segments(s)[j])->Ok_0.skip(1),
{
    let segs = split_segments(s);
    lemma_parse_all_ok(segs);
    lemma_segment_count(s);
    assert forall|j: int| 0 <= j < segs.len() implies tokenize(#[trigger] segs[j]) is Ok
        && tokenize(segs[j])->Ok_0.len() > 0 && parse_pipe(s)->Ok_0[j].program == tokenize(
        segs[j],
    )->Ok_0[0] && parse_pipe(s)->Ok_0[j].args == tokenize(segs[j])->Ok_0.skip(1) by {
        assert(parse_segment(segs[j]) is Ok);
        assert(parse_pipe(s)->Ok_0[j] == parse_segment(segs[j])->Ok_0);
    }
}

/// A pipe description with no text at all, or with an empty segment (as in
/// two adjacent delimiters, or a leading or trailing one), fails to parse: it
/// never produces a pipe with fewer stages than the delimiters suggest.
pub proof fn lemma_empty_segment_rejected(s: Seq<char>)
    requires
        s.len() == 0 || exists|j: int|
            0 <= j < split_segments(s).len() && (#[trigger] split_segments(s)[j]).len() == 0,
    ensures
        parse_pipe(s) is Err,
{
    let segs = split_segments(s);
    if s.len() == 0 {
        assert(segs == Seq::<Seq<char>>::empty().push(Seq::<char>::empty()));
        assert(segs[0].len() == 0);
    }
    let j = choose|j: int| 0 <= j < segs.len() && (#[trigger] segs[j]).len() == 0;
    assert(segs[j] =~= Seq::<char>::empty());
    assert(tokenize(segs[j]) == Ok::<Seq<Seq<char>>, crate::tokenize::TokenFault>(
        Seq::<Seq<char>>::empty(),
    ));
    assert(parse_segment(segs[j]) is Err);
    lemma_parse_all_ok(segs);
}

/// Requesting output from a pipeline that has never been spawned — no cached
/// output, no active process — reports that no process has been run. The
/// same holds after a failed stage start with nothing cached: the failure
/// leaves no active handle, so no output is reachable without a fresh spawn.
pub proof fn lemma_output_before_spawn(p: PipeModel)
    requires
        !p.active,
        p.output is None,
    ensures
        spec_output_action(p) == OutputAction::NoProcess,
{
}

/// Once an output is cached, every later request reuses it unchanged: the
/// action is never to reap a process again, so two requests after one spawn
/// return the identical output.
pub proof fn lemma_output_memoized(p: PipeModel)
    requires
        p.output is Some,
    ensures
        spec_output_action(p) == OutputAction::UseCached,
{
}

/// Appending a stage via the builder call and via the pipeline-append
/// operator produce pipelines with identical stage sequences for the same
/// inputs: both take the model through [`spec_add_stage`], the operator with
/// the appended command's model, the builder call with a fresh command for
/// the given program.
pub proof fn lemma_builder_operator_agree(p: PipeModel, rhs: CmdModel, program: Seq<char>)
    requires
        rhs == fresh_command(program),
    ensures
        spec_add_stage(p, rhs) == spec_add_stage(p, fresh_command(program)),
{
}

impl core::ops::BitOr<Command> for CommandPipe {
    type Output = CommandPipe;

    /// Appending a stage with `pipe | command`: the operator form of
    /// [`CommandPipe::add_command`], taking a ready-made [`Command`].
    fn bitor(self, rhs: Command) -> (r: CommandPipe)
        ensures
            r@ == spec_add_stage(self@, rhs@),
    {
        let mut p = self;
        proof {
            lemma_stage_views_push(p.pipeline@, rhs);
        }
        let ghost pre = p@;
        p.pipeline.push(rhs);
        proof {
            assert(p@ =~= spec_add_stage(pre, rhs@));
        }
        p
    }
}

impl vstd::std_specs::ops::BitOrSpecImpl<Command> for CommandPipe {
    open spec fn obeys_bitor_spec() -> bool {
        false
    }

    open spec fn bitor_req(self, rhs: Command) -> bool {
        true
    }

    open spec fn bitor_spec(self, rhs: Command) -> CommandPipe {
        self
    }
}

} // verus!
