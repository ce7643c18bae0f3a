//! The scripts of a phase: the command that a script stands for, and what
//! is reported of its run.

use crate::error::DhcpResult;
use crate::sources::rest::DhcpRestConfigSchemaScript;
use crate::sources::query::context_bindings;
use crate::template::{render_text, rendering};
use vstd::prelude::*;
use vstd::string::StringExecFns;

verus! {

/// A command to run: the program, its arguments, whether the phase waits
/// for the end of the run, and the seconds after which the run is given up.
#[derive(Debug)]
pub struct ScriptCommand {
    pub program: String,
    pub args: Vec<String>,
    pub wait: bool,
    pub timeout: u64,
}

/// How the run of a script ended.
#[derive(Debug)]
pub enum ScriptOutcome {
    /// The program exited. Output that is not UTF-8 is `None`.
    Exited { success: bool, stdout: Option<String>, stderr: Option<String> },
    /// Waiting for the program failed with the given error.
    WaitFailed(String),
    /// The program was still running when its time was up.
    TimedOut,
}

/// The level of a log line.
#[derive(Clone, Copy, Debug, PartialEq, Eq, Structural)]
pub enum LogLevel {
    Info,
    Error,
}

/// How the output of a program is shown: `label: ` and the text, or
/// `label not utf8` where the output is no text.
pub open spec fn shown_output(label: Seq<char>, output: Option<String>) -> Seq<char> {
    match output {
        Some(text) => label + ": "@ + text@,
        None => label + " not utf8"@,
    }
}

/// The log line on the run of a program: at level info where the program
/// succeeded, at level error else.
pub open spec fn reported(program: Seq<char>, outcome: ScriptOutcome) -> (LogLevel, Seq<char>) {
    match outcome {
        ScriptOutcome::Exited { success, stdout, stderr } => if success {
            (LogLevel::Info, program + " run successfully, "@ + shown_output("stdout"@, stdout))
        } else {
            (
                LogLevel::Error,
                program + " failed, "@ + shown_output("stdout"@, stdout) + ", "@ + shown_output(
                    "stderr"@,
                    stderr,
                ),
            )
        },
        ScriptOutcome::WaitFailed(error) => (LogLevel::Error, program + ": "@ + error@),
        ScriptOutcome::TimedOut => (LogLevel::Error, program + " timed out"@),
    }
}

fn show_output(label: &str, output: &Option<String>) -> (r: String)
    ensures
        r@ == shown_output(label@, *output),
{
    let mut out = label.to_string();
    match output {
        Some(text) => {
            out.append(": ");
            out.append(text.as_str());
        },
        None => {
            out.append(" not utf8");
        },
    }
    out
}

/// The log line on the run of a program.
pub fn report(program: &str, outcome: &ScriptOutcome) -> (r: (LogLevel, String))
    ensures
        (r.0, r.1@) == reported(program@, *outcome),
{
    let mut line = program.to_string();
    match outcome {
        ScriptOutcome::Exited { success, stdout, stderr } => {
            let out = show_output("stdout", stdout);
            if *success {
                line.append(" run successfully, ");
                line.append(out.as_str());
                (LogLevel::Info, line)
            } else {
                let err = show_output("stderr", stderr);
                line.append(" failed, ");
                line.append(out.as_str());
                line.append(", ");
                line.append(err.as_str());
                (LogLevel::Error, line)
            }
        },
        ScriptOutcome::WaitFailed(error) => {
            line.append(": ");
            line.append(error.as_str());
            (LogLevel::Error, line)
        },
        ScriptOutcome::TimedOut => {
            line.append(" timed out");
            (LogLevel::Error, line)
        },
    }
}

impl DhcpRestConfigSchemaScript {
    /// Whether the program and every argument render to something.
    pub open spec fn renders(
        &self,
        bindings: Map<Seq<char>, serde_json::Value>,
        strict: bool,
    ) -> bool {
        &&& rendering(self.program@, bindings, strict) is Some
        &&& forall|i: int|
            0 <= i < self.args.len() ==> rendering(#[trigger] self.args[i]@, bindings, strict)
                is Some
    }

    /// The command that the script stands for in a context: its program and
    /// each of its arguments rendered against the context.
    pub fn command(&self, context: &tera::Context, strict: bool) -> (r: DhcpResult<ScriptCommand>)
        ensures
            match r {
                Ok(command) => {
                    &&& rendering(self.program@, context_bindings(*context), strict) == Some(
                        command.program@,
                    )
                    &&& command.args.len() == self.args.len()
                    &&& forall|i: int|
                        0 <= i < self.args.len() ==> rendering(
                            self.args[i]@,
                            context_bindings(*context),
                            strict,
                        ) == Some((#[trigger] command.args[i])@)
                    &&& command.wait == self.wait
                    &&& command.timeout == self.timeout
                },
                Err(e) => e is TeraError && !self.renders(context_bindings(*context), strict),
            },
            self.renders(context_bindings(*context), strict) ==> r is Ok,
    {
        let program = match render_text(self.program.as_str(), context, strict) {
            Ok(text) => text,
            Err(e) => {
                return Err(e);
            },
        };
        let mut args: Vec<String> = Vec::new();
        let mut i: usize = 0;
        while i < self.args.len()
            invariant
                i <= self.args.len(),
                args.len() == i,
                forall|j: int|
                    0 <= j < i ==> rendering(self.args[j]@, context_bindings(*context), strict)
                        == Some((#[trigger] args[j])@),
            decreases self.args.len() - i,
        {
            match render_text(self.args[i].as_str(), context, strict) {
                Ok(text) => {
                    args.push(text);
                },
                Err(e) => {
                    return Err(e);
                },
            }
            i += 1;
        }
        Ok(ScriptCommand { program, args, wait: self.wait, timeout: self.timeout })
    }
}

} // verus!
