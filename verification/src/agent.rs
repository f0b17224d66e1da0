use vstd::prelude::*;
use vstd::string::*;
use crate::error::DomainError;
use crate::json::{Json, JsonView, parse_json, json_parse, field, str_of};
use crate::text::{trim, trimmed};
use crate::sse::utf8_lossy;

verus! {

/// The permission mode that the coding agent runs in by default.
pub const DEFAULT_PERMISSION_MODE: &'static str = "acceptEdits";

/// A coding-agent session driven through the agent's command line
/// program, one prompt at a time.
pub struct ClaudeCodeAgent {
    program: String,
    permission_mode: String,
    system: Option<String>,
    session: Option<String>,
}

/// The characters of a text that may be absent.
pub open spec fn opt_chars(v: Option<String>) -> Option<Seq<char>> {
    match v {
        Some(s) => Some(s@),
        None => None,
    }
}

/// The arguments of one run of the agent program: print mode with JSON output in the
/// agent's permission mode, resuming its session where it has one, with its
/// extra system prompt where it has one, and the prompt after `--`.
pub open spec fn command_args_spec(
    permission_mode: Seq<char>,
    session: Option<Seq<char>>,
    system: Option<Seq<char>>,
    prompt: Seq<char>,
) -> Seq<Seq<char>> {
    let head = seq!["--print"@, "--output-format"@, "json"@, "--permission-mode"@, permission_mode];
    let resume = match session {
        Some(s) => seq!["--resume"@, s],
        None => Seq::empty(),
    };
    let sys = match system {
        Some(s) => seq!["--append-system-prompt"@, s],
        None => Seq::empty(),
    };
    head + resume + sys + seq!["--"@, prompt]
}

/// The character views of `args`.
pub open spec fn arg_views(args: Seq<String>) -> Seq<Seq<char>> {
    args.map_values(|a: String| a@)
}

/// What one answer of the agent program gives: the trimmed `result` text,
/// unless it is blank.
pub open spec fn reply_spec(program: Seq<char>, value: JsonView) -> Result<Seq<char>, Seq<char>> {
    let reply = trimmed(
        match str_of(field(value, "result"@)) {
            Some(s) => s,
            None => Seq::empty(),
        },
    );
    if reply.len() == 0 {
        Err(program + " returned no text result"@)
    } else {
        Ok(reply)
    }
}

/// The session that an answer names, or the one held before.
pub open spec fn next_session(value: JsonView, before: Option<Seq<char>>) -> Option<Seq<char>> {
    match str_of(field(value, "session_id"@)) {
        Some(s) => Some(s),
        None => before,
    }
}

fn push_arg(args: &mut Vec<String>, a: &str)
    ensures
        arg_views(final(args)@) == arg_views(old(args)@).push(a@),
{
    args.push(String::from_str(a));
    assert(arg_views(args@) =~= arg_views(old(args)@).push(a@));
}

impl ClaudeCodeAgent {
    /// The agent program.
    pub closed spec fn spec_program(&self) -> Seq<char> {
        self.program@
    }

    /// The permission mode.
    pub closed spec fn spec_permission_mode(&self) -> Seq<char> {
        self.permission_mode@
    }

    /// The extra system prompt, if any.
    pub closed spec fn spec_system(&self) -> Option<Seq<char>> {
        opt_chars(self.system)
    }

    /// The session to resume, if any.
    pub closed spec fn spec_session(&self) -> Option<Seq<char>> {
        opt_chars(self.session)
    }

    /// An agent, run as `program`, with no session yet.
    pub fn new(program: String, permission_mode: String, system: Option<String>) -> (r: Self)
        ensures
            r.spec_program() == program@,
            r.spec_permission_mode() == permission_mode@,
            r.spec_system() == opt_chars(system),
            r.spec_session() is None,
    {
        ClaudeCodeAgent { program, permission_mode, system, session: None }
    }

    /// The session that the next prompt resumes, once there is one.
    pub fn session(&self) -> (r: Option<&str>)
        ensures
            match r {
                Some(s) => self.spec_session() == Some(s@),
                None => self.spec_session() is None,
            },
    {
        match &self.session {
            Some(s) => Some(s.as_str()),
            None => None,
        }
    }

    /// The program to run.
    pub fn program(&self) -> (r: &str)
        ensures
            r@ == self.spec_program(),
    {
        self.program.as_str()
    }

    /// The arguments of the agent program's run that sends `prompt`.
    pub fn command_args(&self, prompt: &str) -> (r: Vec<String>)
        ensures
            arg_views(r@) == command_args_spec(
                self.spec_permission_mode(),
                self.spec_session(),
                self.spec_system(),
                prompt@,
            ),
    {
        let mut args: Vec<String> = Vec::new();
        push_arg(&mut args, "--print");
        push_arg(&mut args, "--output-format");
        push_arg(&mut args, "json");
        push_arg(&mut args, "--permission-mode");
        push_arg(&mut args, self.permission_mode.as_str());
        if let Some(session) = &self.session {
            push_arg(&mut args, "--resume");
            push_arg(&mut args, session.as_str());
        }
        if let Some(system) = &self.system {
            push_arg(&mut args, "--append-system-prompt");
            push_arg(&mut args, system.as_str());
        }
        push_arg(&mut args, "--");
        push_arg(&mut args, prompt);
        assert(arg_views(args@) =~= command_args_spec(
            self.spec_permission_mode(),
            self.spec_session(),
            self.spec_system(),
            prompt@,
        ));
        args
    }

    /// Takes in the JSON that a successful run of the program printed: keeps the
    /// session it names for the next prompt and gives its reply; `None`
    /// stands for output that is no JSON.
    pub fn receive(&mut self, value: Option<Json>) -> (r: Result<String, DomainError>)
        ensures
            final(self).spec_program() == old(self).spec_program(),
            final(self).spec_permission_mode() == old(self).spec_permission_mode(),
            final(self).spec_system() == old(self).spec_system(),
            match value {
                None => {
                    &&& final(self).spec_session() == old(self).spec_session()
                    &&& r matches Err(DomainError::Inference(m)) && m@
                        == "parsing "@ + old(self).spec_program() + " json output"@
                },
                Some(v) => {
                    &&& final(self).spec_session() == next_session(v@, old(self).spec_session())
                    &&& match reply_spec(old(self).spec_program(), v@) {
                        Ok(t) => r matches Ok(s) && s@ == t,
                        Err(e) => r matches Err(DomainError::Inference(m)) && m@ == e,
                    }
                },
            },
    {
        let value = match value {
            Some(v) => v,
            None => {
                let mut m = String::from_str("parsing ");
                m.append(self.program.as_str());
                m.append(" json output");
                return Err(DomainError::inference(m));
            },
        };
        if let Some(s) = value.get("session_id") {
            if let Some(id) = s.as_str() {
                self.session = Some(String::from_str(id));
            }
        }
        let result = match value.get("result") {
            Some(s) => match s.as_str() {
                Some(t) => t,
                None => "",
            },
            None => "",
        };
        proof {
            reveal_strlit("");
        }
        let reply = trim(result);
        if reply.is_empty() {
            let mut m = String::from_str(self.program.as_str());
            m.append(" returned no text result");
            return Err(DomainError::inference(m));
        }
        Ok(String::from_str(reply))
    }

    /// Takes in what a successful run of the program printed: an error
    /// where it is no JSON, else what `receive` does with the value.
    pub fn receive_output(&mut self, stdout: &[u8]) -> (r: Result<String, DomainError>)
        ensures
            final(self).spec_program() == old(self).spec_program(),
            final(self).spec_permission_mode() == old(self).spec_permission_mode(),
            final(self).spec_system() == old(self).spec_system(),
            match json_parse(stdout@) {
                None => {
                    &&& final(self).spec_session() == old(self).spec_session()
                    &&& r matches Err(DomainError::Inference(m)) && m@
                        == "parsing "@ + old(self).spec_program() + " json output"@
                },
                Some(v) => {
                    &&& final(self).spec_session() == next_session(v, old(self).spec_session())
                    &&& match reply_spec(old(self).spec_program(), v) {
                        Ok(t) => r matches Ok(s) && s@ == t,
                        Err(e) => r matches Err(DomainError::Inference(m)) && m@ == e,
                    }
                },
            },
    {
        let value = parse_json(stdout);
        self.receive(value)
    }
}

/// The error detail of a failed run of `program`: its exit status and its
/// trimmed error output.
pub open spec fn exit_failure_spec(program: Seq<char>, status: Seq<char>, stderr: Seq<u8>) -> Seq<char> {
    program + " exited with "@ + status + ": "@ + trimmed(utf8_lossy(stderr))
}

/// The error of a run of `program` that did not succeed; `status` is how
/// its exit status is shown and `stderr` what it wrote to its error output.
pub fn exit_failure(program: &str, status: &str, stderr: &[u8]) -> (r: DomainError)
    ensures
        r matches DomainError::Inference(m) && m@ == exit_failure_spec(program@, status@, stderr@),
{
    let text = crate::sse::decode_lossy(stderr);
    let mut m = String::from_str(program);
    m.append(" exited with ");
    m.append(status);
    m.append(": ");
    m.append(trim(text.as_str()));
    DomainError::inference(m)
}

/// A run of the agent program is in print mode with JSON output and the
/// agent's permission mode, resumes the session and adds the system prompt
/// exactly where the agent has them, and ends with `--` and then the prompt,
/// so that a prompt is never read as an option.
pub proof fn lemma_command_args_shape(
    permission_mode: Seq<char>,
    session: Option<Seq<char>>,
    system: Option<Seq<char>>,
    prompt: Seq<char>,
)
    ensures
        ({
            let a = command_args_spec(permission_mode, session, system, prompt);
            let s = if session is Some { 2int } else { 0int };
            &&& a.len() == 7 + s + if system is Some { 2int } else { 0int }
            &&& a.take(5) == seq!["--print"@, "--output-format"@, "json"@, "--permission-mode"@, permission_mode]
            &&& session matches Some(x) ==> a[5] == "--resume"@ && a[6] == x
            &&& system matches Some(y) ==> a[5 + s] == "--append-system-prompt"@ && a[6 + s] == y
            &&& a[a.len() - 2] == "--"@
            &&& a.last() == prompt
        }),
{
    let a = command_args_spec(permission_mode, session, system, prompt);
    let head = seq!["--print"@, "--output-format"@, "json"@, "--permission-mode"@, permission_mode];
    assert(a.take(5) =~= head);
}

/// The agent's reply is its `result` text trimmed: a reply is given exactly
/// where that text is not all white space, and it neither starts nor ends
/// with white space.
pub proof fn lemma_reply_is_trimmed_result(program: Seq<char>, value: JsonView)
    ensures
        ({
            let result = match str_of(field(value, "result"@)) {
                Some(s) => s,
                None => Seq::empty(),
            };
            &&& reply_spec(program, value) is Ok <==> !crate::text::all_white_space(result)
            &&& reply_spec(program, value) matches Ok(r) ==> r == trimmed(result) && r.len() > 0
                && crate::text::is_trimmed(r)
        }),
{
    let result = match str_of(field(value, "result"@)) {
        Some(s) => s,
        None => Seq::empty(),
    };
    crate::text::lemma_trimmed(result);
}

} // verus!
