//! A command-line tool (such as `askbot` or `draftbot`) run as a subprocess; handy
//! where the tool is already logged in and no API key is to be managed.
use vstd::prelude::*;
use super::{Provider, ProviderError};
use crate::text::{copy_strings, lossy_utf8, trim_white_space, trimmed, utf8_lossy};

verus! {

/// Calls a command-line tool.
#[derive(Debug)]
pub struct CliProvider {
    pub command: String,
    pub args: Vec<String>,
    /// `"stdin"`: the prompt goes to the tool's standard input; `"arg"`: the
    /// prompt is the last argument.
    pub prompt_via: String,
}

/// How to run the tool for one prompt.
#[derive(Debug)]
pub struct CliInvocation {
    pub program: String,
    pub args: Vec<String>,
    /// What to write to the standard input, which is then closed; none for a
    /// null standard input.
    pub stdin_input: Option<String>,
}

/// Tools rarely tell system and user prompts apart, so the two are joined.
pub open spec fn cli_prompt(system: Seq<char>, user: Seq<char>) -> Seq<char> {
    system + "\n\n---\n\n"@ + user
}

/// The text handed to the tool is the whole system prompt, the separator
/// `"\n\n---\n\n"` of seven characters, then the whole user prompt: nothing is
/// cut or added.
pub proof fn lemma_cli_prompt_parts(system: Seq<char>, user: Seq<char>)
    ensures
        cli_prompt(system, user).len() == system.len() + 7 + user.len(),
        cli_prompt(system, user).subrange(0, system.len() as int) == system,
        cli_prompt(system, user).subrange(system.len() as int, system.len() + 7int) == seq![
            '\n',
            '\n',
            '-',
            '-',
            '-',
            '\n',
            '\n',
        ],
        cli_prompt(system, user).subrange(
            system.len() + 7int,
            cli_prompt(system, user).len() as int,
        ) == user,
{
    reveal_strlit("\n\n---\n\n");
    let p = cli_prompt(system, user);
    let sep = "\n\n---\n\n"@;
    assert(sep =~= seq!['\n', '\n', '-', '-', '-', '\n', '\n']);
    assert(p =~= system + sep + user);
    assert(p.subrange(0, system.len() as int) =~= system);
    assert(p.subrange(system.len() as int, system.len() + 7int) =~= sep);
    assert(p.subrange(system.len() + 7int, p.len() as int) =~= user);
}

impl CliProvider {
    pub fn new(command: String, args: Vec<String>, prompt_via: String) -> (res: Self)
        ensures
            res.command == command,
            res.args == args,
            res.prompt_via == prompt_via,
    {
        CliProvider { command, args, prompt_via }
    }

    /// How to run the tool so that it answers `user` in the role `system`: with
    /// `"arg"` the joined prompt is added as the last argument and the standard
    /// input is null; with `"stdin"` the arguments stay and the prompt is
    /// written to the standard input; any other `prompt_via` is an error.
    pub fn invocation(&self, system: &str, user: &str) -> (res: Result<CliInvocation, ProviderError>)
        ensures
            self.prompt_via@ == "arg"@ ==> (res matches Ok(inv) && inv.program == self.command
                && inv.args@.len() == self.args@.len() + 1 && inv.args@.drop_last() == self.args@
                && inv.args@.last()@ == cli_prompt(system@, user@) && inv.stdin_input is None),
            self.prompt_via@ == "stdin"@ ==> (res matches Ok(inv) && inv.program == self.command
                && inv.args@ == self.args@ && (inv.stdin_input matches Some(p) && p@ == cli_prompt(
                system@,
                user@,
            ))),
            self.prompt_via@ != "arg"@ && self.prompt_via@ != "stdin"@ ==> (res matches Err(
                ProviderError::InvalidPromptVia { value },
            ) && value == self.prompt_via),
    {
        let mut prompt = String::from_str(system);
        prompt.append("\n\n---\n\n");
        prompt.append(user);
        let mut args = copy_strings(&self.args);
        proof {
            reveal_strlit("arg");
            reveal_strlit("stdin");
            assert("arg"@.len() != "stdin"@.len());
        }
        if self.prompt_via == String::from_str("arg") {
            args.push(prompt);
            Ok(CliInvocation { program: self.command.clone(), args, stdin_input: None })
        } else if self.prompt_via == String::from_str("stdin") {
            Ok(CliInvocation { program: self.command.clone(), args, stdin_input: Some(prompt) })
        } else {
            Err(ProviderError::InvalidPromptVia { value: self.prompt_via.clone() })
        }
    }

    /// Reads what the tool left: a failed exit is an error that shows its
    /// standard error; otherwise the answer is the standard output without
    /// surrounding white space, and an empty answer is an error. Bytes that are
    /// not UTF-8 are read as `String::from_utf8_lossy` reads them.
    pub fn read_output(&self, success: bool, status_text: String, stdout: &[u8], stderr: &[u8]) -> (res:
        Result<String, ProviderError>)
        ensures
            !success ==> (res matches Err(ProviderError::CliFailed { command, status, stderr: err })
                && command == self.command && status == status_text && err@ == lossy_utf8(
                stderr@,
            )),
            success && trimmed(lossy_utf8(stdout@)).len() == 0 ==> (res matches Err(
                ProviderError::CliEmpty { command },
            ) && command == self.command),
            success && trimmed(lossy_utf8(stdout@)).len() > 0 ==> (res matches Ok(t) && t@
                == trimmed(lossy_utf8(stdout@))),
    {
        if !success {
            let err = utf8_lossy(stderr);
            return Err(
                ProviderError::CliFailed { command: self.command.clone(), status: status_text, stderr: err },
            );
        }
        let out = utf8_lossy(stdout);
        let text = trim_white_space(out.as_str());
        if text.as_str().unicode_len() == 0 {
            return Err(ProviderError::CliEmpty { command: self.command.clone() });
        }
        Ok(text)
    }
}

impl Provider for CliProvider {
    open spec fn label_text(&self) -> Seq<char> {
        "cli:"@ + self.command@
    }

    fn label(&self) -> (res: String) {
        let mut s = String::from_str("cli:");
        s.append(self.command.as_str());
        s
    }
}

} // verus!
