//! What is handed to the child process.
use vstd::prelude::*;

verus! {

/// Where the child's standard error goes.
#[derive(Clone, Copy, PartialEq, Eq, Debug, Structural)]
pub enum ErrorStreamPolicy {
    /// Shared with the caller's own standard error.
    Inherit,
    /// Captured in a pipe of its own, apart from the lines.
    Pipe,
    /// Thrown away.
    Discard,
}

/// How one invocation is run. The child's standard input is always closed.
#[derive(Clone, Copy, PartialEq, Eq, Debug, Structural)]
pub struct BridgeConfig {
    /// Where the child's standard error goes.
    pub stderr: ErrorStreamPolicy,
    /// Whether a child that exits with anything but status zero fails the
    /// invocation; when off, the exit status is ignored.
    pub check_exit_status: bool,
}

impl BridgeConfig {
    /// Standard error inherited, exit status ignored.
    pub fn new() -> (r: BridgeConfig)
        ensures
            r.stderr == ErrorStreamPolicy::Inherit,
            !r.check_exit_status,
    {
        BridgeConfig { stderr: ErrorStreamPolicy::Inherit, check_exit_status: false }
    }
}

/// The views of a sequence of strings.
pub open spec fn string_views(v: Seq<String>) -> Seq<Seq<char>> {
    v.map_values(|s: String| s@)
}

/// An executable and the arguments it gets, one by one: no shell reads
/// them, so nothing in them is interpreted.
pub struct InvocationSpec {
    executable: String,
    args: Vec<String>,
}

impl InvocationSpec {
    /// The path of the executable.
    pub closed spec fn executable_view(&self) -> Seq<char> {
        self.executable@
    }

    /// The arguments, in order.
    pub closed spec fn args_view(&self) -> Seq<Seq<char>> {
        string_views(self.args@)
    }

    /// Runs `executable` with `args`, in that order.
    pub fn new(executable: String, args: Vec<String>) -> (r: InvocationSpec)
        ensures
            r.executable_view() == executable@,
            r.args_view() == string_views(args@),
    {
        InvocationSpec { executable, args }
    }

    /// The path of the executable.
    pub fn executable(&self) -> (r: &str)
        ensures
            r@ == self.executable_view(),
    {
        self.executable.as_str()
    }

    /// The arguments, in order.
    pub fn args(&self) -> (r: &[String])
        ensures
            string_views(r@) == self.args_view(),
    {
        self.args.as_slice()
    }
}

/// The arguments that give the inference program its model and its prompt:
/// the model after `-m`, then the prompt as the last argument.
pub open spec fn prompt_args(model: Seq<char>, prompt: Seq<char>) -> Seq<Seq<char>> {
    seq!["-m"@, model, "p"@, prompt]
}

/// The invocation that runs the inference program at `executable` on the
/// model file at `model` with the text `prompt`.
pub fn prompt_invocation(executable: String, model: String, prompt: String) -> (r:
    InvocationSpec)
    ensures
        r.executable_view() == executable@,
        r.args_view() == prompt_args(model@, prompt@),
{
    let mut args: Vec<String> = Vec::new();
    args.push("-m".to_owned());
    args.push(model);
    args.push("p".to_owned());
    args.push(prompt);
    assert(string_views(args@) =~= prompt_args(model@, prompt@));
    InvocationSpec::new(executable, args)
}

} // verus!
