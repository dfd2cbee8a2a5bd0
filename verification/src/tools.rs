//! The result of one tool invocation, and how it is assembled from what a
//! finished child process left behind.

use vstd::prelude::*;
use vstd::string::*;
use crate::text::{lossy_utf8, lossy_utf8_text, opt_text};

verus! {

/// What a tool invocation hands back to the agent that asked for it.
#[derive(Debug)]
pub struct ToolOutput {
    /// Whether the invocation succeeded.
    pub success: bool,
    /// Everything the tool printed, merged into one text.
    pub content: String,
    /// Why the invocation failed, when it did.
    pub error: Option<String>,
}

/// The mathematical value of a [`ToolOutput`].
pub ghost struct ToolOutputView {
    pub success: bool,
    pub content: Seq<char>,
    pub error: Option<Seq<char>>,
}

impl View for ToolOutput {
    type V = ToolOutputView;

    open spec fn view(&self) -> ToolOutputView {
        ToolOutputView { success: self.success, content: self.content@, error: opt_text(self.error) }
    }
}

/// What the host observed when it tried to run a command line.
#[derive(Debug)]
pub enum ProcessOutcome {
    /// The process ran to its end.
    Exited {
        /// The bytes captured from standard output.
        stdout: Vec<u8>,
        /// The bytes captured from standard error.
        stderr: Vec<u8>,
        /// Whether the exit status was zero.
        success: bool,
        /// The exit status as the operating system words it.
        status: String,
    },
    /// The process could not be started; the text is the launch error.
    LaunchFailed(String),
}

/// The content reported for the captured output of a process: standard
/// error alone under its label when nothing came on standard output, both
/// with standard error in a labelled block when both are present, and
/// standard output alone otherwise.
pub open spec fn merged_content(stdout: Seq<char>, stderr: Seq<char>) -> Seq<char> {
    if stdout.len() == 0 && stderr.len() > 0 {
        "STDERR:\n"@ + stderr
    } else if stderr.len() > 0 {
        stdout + "\n\nSTDERR:\n"@ + stderr
    } else {
        stdout
    }
}

/// The output reported for a process that ran to its end.
pub open spec fn exited_output(
    stdout: Seq<char>,
    stderr: Seq<char>,
    success: bool,
    status: Seq<char>,
) -> ToolOutputView {
    ToolOutputView {
        success,
        content: merged_content(stdout, stderr),
        error: if success {
            None
        } else {
            Some("Tool exited with status: "@ + status)
        },
    }
}

/// The output reported for a process that could not be started.
pub open spec fn launch_failure_output(reason: Seq<char>) -> ToolOutputView {
    ToolOutputView {
        success: false,
        content: Seq::empty(),
        error: Some("Failed to execute tool: "@ + reason),
    }
}

/// The output reported for any outcome of running a command line.
pub open spec fn outcome_output(outcome: ProcessOutcome) -> ToolOutputView {
    match outcome {
        ProcessOutcome::Exited { stdout, stderr, success, status } => exited_output(
            lossy_utf8_text(stdout@),
            lossy_utf8_text(stderr@),
            success,
            status@,
        ),
        ProcessOutcome::LaunchFailed(reason) => launch_failure_output(reason@),
    }
}

impl ToolOutput {
    /// A successful output with the given content.
    pub fn success(content: String) -> (res: ToolOutput)
        ensures
            res@ == (ToolOutputView { success: true, content: content@, error: None }),
    {
        ToolOutput { success: true, content, error: None }
    }

    /// A failed output without content.
    pub fn failure(message: String) -> (res: ToolOutput)
        ensures
            res@ == (ToolOutputView {
                success: false,
                content: Seq::empty(),
                error: Some(message@),
            }),
    {
        ToolOutput { success: false, content: String::new(), error: Some(message) }
    }

    /// A failed output that keeps the content captured before the failure.
    pub fn failure_with_content(content: String, message: String) -> (res: ToolOutput)
        ensures
            res@ == (ToolOutputView {
                success: false,
                content: content@,
                error: Some(message@),
            }),
    {
        ToolOutput { success: false, content, error: Some(message) }
    }

    /// Assembles the output of a process that ran to its end from the two
    /// captured texts, the exit flag and the wording of the exit status.
    /// Captured content is kept whether or not the process succeeded.
    pub fn from_exit(stdout: &str, stderr: &str, success: bool, status: &str) -> (res: ToolOutput)
        ensures
            res@ == exited_output(stdout@, stderr@, success, status@),
    {
        let content = if stdout.is_empty() && !stderr.is_empty() {
            String::from_str("STDERR:\n").concat(stderr)
        } else if !stderr.is_empty() {
            String::from_str(stdout).concat("\n\nSTDERR:\n").concat(stderr)
        } else {
            String::from_str(stdout)
        };
        if success {
            ToolOutput::success(content)
        } else {
            ToolOutput::failure_with_content(
                content,
                String::from_str("Tool exited with status: ").concat(status),
            )
        }
    }

    /// The output for a process that could not be started: a failure that
    /// carries the launch error.
    pub fn from_launch_error(reason: &str) -> (res: ToolOutput)
        ensures
            res@ == launch_failure_output(reason@),
    {
        ToolOutput::failure(String::from_str("Failed to execute tool: ").concat(reason))
    }

    /// The output for whatever the host observed when it ran a command
    /// line. Captured bytes are decoded lossily before they are merged.
    pub fn from_process(outcome: &ProcessOutcome) -> (res: ToolOutput)
        ensures
            res@ == outcome_output(*outcome),
    {
        match outcome {
            ProcessOutcome::Exited { stdout, stderr, success, status } => {
                let out = lossy_utf8(stdout.as_slice());
                let err = lossy_utf8(stderr.as_slice());
                ToolOutput::from_exit(out.as_str(), err.as_str(), *success, status.as_str())
            },
            ProcessOutcome::LaunchFailed(reason) => ToolOutput::from_launch_error(reason.as_str()),
        }
    }
}

/// The exit status alone decides success: the success flag is the exit
/// flag whatever was captured on either stream, an error message is there
/// exactly on failure, and the content is assembled the same way in both
/// cases. Without standard error the content is standard output as it came.
pub proof fn lemma_exit_flag_decides_success(
    stdout: Seq<char>,
    stderr: Seq<char>,
    success: bool,
    status: Seq<char>,
)
    ensures
        exited_output(stdout, stderr, success, status).success == success,
        exited_output(stdout, stderr, success, status).content == merged_content(stdout, stderr),
        exited_output(stdout, stderr, success, status).error is None <==> success,
        stderr.len() == 0 ==> merged_content(stdout, stderr) == stdout,
{
}

/// Content assembly keeps every captured character: the content always ends
/// with standard error, and when both streams carried text it starts with
/// standard output; with only standard error it starts with the label.
pub proof fn lemma_content_layout(stdout: Seq<char>, stderr: Seq<char>)
    ensures
        stderr.is_suffix_of(merged_content(stdout, stderr)) || stderr.len() == 0,
        stdout.is_prefix_of(merged_content(stdout, stderr)),
        stdout.len() == 0 && stderr.len() > 0 ==> "STDERR:\n"@.is_prefix_of(
            merged_content(stdout, stderr),
        ) && merged_content(stdout, stderr).len() == "STDERR:\n"@.len() + stderr.len(),
        stdout.len() > 0 && stderr.len() > 0 ==> merged_content(stdout, stderr).len() == stdout.len()
            + "\n\nSTDERR:\n"@.len() + stderr.len(),
{
    let c = merged_content(stdout, stderr);
    if stdout.len() == 0 && stderr.len() > 0 {
        let label = "STDERR:\n"@;
        assert(c.subrange(0, label.len() as int) =~= label);
        assert(c.subrange(c.len() - stderr.len(), c.len() as int) =~= stderr);
        assert(c.subrange(0, 0) =~= stdout);
    } else if stderr.len() > 0 {
        assert(c.subrange(0, stdout.len() as int) =~= stdout);
        assert(c.subrange(c.len() - stderr.len(), c.len() as int) =~= stderr);
    } else {
        assert(c.subrange(0, stdout.len() as int) =~= stdout);
    }
}

} // verus!
