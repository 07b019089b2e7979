use vstd::prelude::*;

verus! {

/// The mathematical model of an [`Output`]: the exit code (absent when the
/// process was terminated without one) and the captured byte streams.
#[verifier::ext_equal]
pub ghost struct OutputModel {
    pub code: Option<i32>,
    pub stdout: Seq<u8>,
    pub stderr: Seq<u8>,
}

/// An immutable snapshot of a completed process: its exit status and the
/// bytes it wrote to standard output and standard error, exposed verbatim.
///
/// Constructed only by the pipeline, from a fully terminated terminal stage;
/// never mutated afterwards.
#[derive(Debug, Clone, PartialEq, Eq)]
pub struct Output {
    code: Option<i32>,
    stdout: Vec<u8>,
    stderr: Vec<u8>,
}

impl View for Output {
    type V = OutputModel;

    closed spec fn view(&self) -> OutputModel {
        OutputModel { code: self.code, stdout: self.stdout@, stderr: self.stderr@ }
    }
}

impl Output {
    /// Bundle a terminated process's collected results. Only the pipeline
    /// calls this, when it reaps its terminal stage.
    pub(crate) fn new(code: Option<i32>, stdout: Vec<u8>, stderr: Vec<u8>) -> (r: Output)
        ensures
            r@ == (OutputModel { code, stdout: stdout@, stderr: stderr@ }),
    {
        Output { code, stdout, stderr }
    }

    /// The numeric exit code, if the process exited with one.
    pub fn exit_code(&self) -> (r: Option<i32>)
        ensures
            r == self@.code,
    {
        self.code
    }

    /// Whether the process terminated successfully, that is, exited with code 0.
    pub fn success(&self) -> (r: bool)
        ensures
            r == (self@.code == Some(0i32)),
    {
        match self.code {
            Some(c) => c == 0,
            None => false,
        }
    }

    /// The captured standard-output bytes; empty when the stream produced none.
    pub fn stdout(&self) -> (r: &[u8])
        ensures
            r@ == self@.stdout,
    {
        self.stdout.as_slice()
    }

    /// The captured standard-error bytes; empty when the stream produced none.
    pub fn stderr(&self) -> (r: &[u8])
        ensures
            r@ == self@.stderr,
    {
        self.stderr.as_slice()
    }
}

} // verus!
