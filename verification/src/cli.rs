//! What a line typed at the prompt asks for.

use crate::strings;
use crate::text;
use vstd::prelude::*;
use vstd::string::*;

verus! {

/// A command of the interactive prompt.
#[derive(Debug, PartialEq, Eq)]
pub enum PromptCommand {
    Quit,
    Help,
    ListGroups,
    CreateGroup { name: String },
    Nothing,
    Unknown { command: String },
}

/// What a line asks for.
#[verifier::ext_equal]
pub ghost enum Asked {
    Quit,
    Help,
    ListGroups,
    CreateGroup { name: Seq<char> },
    Nothing,
    Unknown { command: Seq<char> },
}

impl View for PromptCommand {
    type V = Asked;

    open spec fn view(&self) -> Asked {
        match self {
            PromptCommand::Quit => Asked::Quit,
            PromptCommand::Help => Asked::Help,
            PromptCommand::ListGroups => Asked::ListGroups,
            PromptCommand::CreateGroup { name } => Asked::CreateGroup { name: name@ },
            PromptCommand::Nothing => Asked::Nothing,
            PromptCommand::Unknown { command } => Asked::Unknown { command: command@ },
        }
    }
}

/// What stands behind the first space of a text; nothing where it has none.
pub open spec fn behind_space(s: Seq<char>) -> Seq<char>
    decreases s.len(),
{
    if s.len() == 0 {
        Seq::empty()
    } else if s[0] == ' ' {
        s.drop_first()
    } else {
        behind_space(s.drop_first())
    }
}

/// The name of the group that a command creates: what stands behind the first space, without white
/// space around it, or else a default.
pub open spec fn group_name(command: Seq<char>) -> Seq<char> {
    let name = strings::trimmed(behind_space(command));
    if name.len() == 0 {
        "New Group"@
    } else {
        name
    }
}

/// What a line asks for, by what it holds between the white space around it.
pub open spec fn asked(line: Seq<char>) -> Asked {
    let command = strings::trimmed(line);
    if command == "quit"@ || command == "exit"@ {
        Asked::Quit
    } else if command == "help"@ {
        Asked::Help
    } else if command == "lg"@ || command == "list-groups"@ {
        Asked::ListGroups
    } else if strings::stands_at(command, "create-group"@, 0) {
        Asked::CreateGroup { name: group_name(command) }
    } else if command.len() == 0 {
        Asked::Nothing
    } else {
        Asked::Unknown { command }
    }
}

fn cut_behind_space(command: &str) -> (r: String)
    ensures
        r@ == behind_space(command@),
{
    let chars = strings::chars_of(command);
    let mut i: usize = 0;
    assert(chars@.skip(0) =~= chars@);
    while i < chars.len() && chars[i] != ' '
        invariant
            i <= chars@.len(),
            chars@ == command@,
            behind_space(command@) == behind_space(chars@.skip(i as int)),
        decreases chars.len() - i,
    {
        assert(chars@.skip(i as int).drop_first() =~= chars@.skip(i + 1));
        i = i + 1;
    }
    if i < chars.len() {
        assert(chars@.skip(i as int).drop_first() =~= chars@.subrange(i + 1, chars@.len() as int));
        strings::text_between(&chars, i + 1, chars.len())
    } else {
        String::new()
    }
}

/// Reads a line typed at the prompt.
pub fn read_prompt(line: &str) -> (r: PromptCommand)
    ensures
        r@ == asked(line@),
{
    let command = strings::trim(line);
    let c = command.as_str();
    if text::str_eq(c, "quit") || text::str_eq(c, "exit") {
        PromptCommand::Quit
    } else if text::str_eq(c, "help") {
        PromptCommand::Help
    } else if text::str_eq(c, "lg") || text::str_eq(c, "list-groups") {
        PromptCommand::ListGroups
    } else if strings::starts_with(c, "create-group") {
        let rest = cut_behind_space(c);
        let name = strings::trim(rest.as_str());
        if name.as_str().is_empty() {
            PromptCommand::CreateGroup { name: "New Group".to_owned() }
        } else {
            PromptCommand::CreateGroup { name }
        }
    } else if c.is_empty() {
        PromptCommand::Nothing
    } else {
        PromptCommand::Unknown { command }
    }
}

} // verus!
