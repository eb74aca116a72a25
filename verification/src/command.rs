//! The commands of the store's interactive prompt.

use crate::metadata::texts_of;
use vstd::prelude::*;
use vstd::string::*;

verus! {

/// One command of the prompt.
#[derive(Debug, Clone)]
pub enum Command {
    /// Add a record under a key that the user chose: `add <key> <value>`.
    Add(String, String),
    /// Add a record under a fresh id: `create <payload>`.
    Create(String),
    /// Show a record: `get <key>` or `read <id>`.
    Get(String),
    /// Replace a record's payload: `update <id> <payload>`.
    Update(String, String),
    /// Delete a record: `delete <id>`.
    Delete(String),
    /// Show all records: `list`.
    List,
    /// Leave the prompt: `exit` or `quit`.
    Exit,
    /// Show the commands: `help`.
    Help,
}

/// Mathematical content of a [`Command`].
pub enum CommandView {
    Add(Seq<char>, Seq<char>),
    Create(Seq<char>),
    Get(Seq<char>),
    Update(Seq<char>, Seq<char>),
    Delete(Seq<char>),
    List,
    Exit,
    Help,
}

impl View for Command {
    type V = CommandView;

    open spec fn view(&self) -> CommandView {
        match self {
            Command::Add(key, value) => CommandView::Add(key@, value@),
            Command::Create(payload) => CommandView::Create(payload@),
            Command::Get(key) => CommandView::Get(key@),
            Command::Update(id, payload) => CommandView::Update(id@, payload@),
            Command::Delete(id) => CommandView::Delete(id@),
            Command::List => CommandView::List,
            Command::Exit => CommandView::Exit,
            Command::Help => CommandView::Help,
        }
    }
}

/// The words of a text as `str::split_whitespace` yields them.
pub uninterp spec fn whitespace_words(text: Seq<char>) -> Seq<Seq<char>>;

/// The lower-case form of a text as `str::to_lowercase` gives it.
pub uninterp spec fn lowercased(text: Seq<char>) -> Seq<char>;

/// Splits a line with `str::split_whitespace` and collects the words as
/// strings. The contract names the result and claims nothing more of it.
#[verifier::external_body]
fn split_words(line: &str) -> (words: Vec<String>)
    ensures
        texts_of(words@) == whitespace_words(line@),
{
    line.split_whitespace().map(|word| word.to_string()).collect()
}

/// Lower-cases a word with `str::to_lowercase`. The contract names the result
/// and claims nothing more of it.
#[verifier::external_body]
fn lowercase(word: &str) -> (lower: String)
    ensures
        lower@ == lowercased(word@),
{
    word.to_lowercase()
}

/// The words from place `from` on, joined by single spaces.
pub open spec fn joined(words: Seq<Seq<char>>, from: int) -> Seq<char>
    decreases words.len() - from,
{
    if from >= words.len() {
        Seq::empty()
    } else if from == words.len() - 1 {
        words[from]
    } else {
        words[from] + " "@ + joined(words, from + 1)
    }
}

/// The outcome of parsing: a command, or the text that says what is wrong.
pub open spec fn outcome_view(outcome: Result<Command, String>) -> Result<CommandView, Seq<char>> {
    match outcome {
        Ok(command) => Ok(command@),
        Err(text) => Err(text@),
    }
}

/// The command that a line of words stands for. `keyword` is the first word
/// in lower case; the words after it are the command's arguments, of which
/// the last takes in the rest of the line.
pub open spec fn parsed(words: Seq<Seq<char>>, keyword: Seq<char>) -> Result<
    CommandView,
    Seq<char>,
> {
    if words.len() == 0 {
        Err("Empty command"@)
    } else if keyword == "add"@ {
        if words.len() < 3 {
            Err("Usage: add <key> <value>"@)
        } else {
            Ok(CommandView::Add(words[1], joined(words, 2)))
        }
    } else if keyword == "create"@ {
        if words.len() < 2 {
            Err("Usage: create <payload>"@)
        } else {
            Ok(CommandView::Create(joined(words, 1)))
        }
    } else if keyword == "get"@ || keyword == "read"@ {
        if words.len() != 2 {
            Err("Usage: get <key>"@)
        } else {
            Ok(CommandView::Get(words[1]))
        }
    } else if keyword == "update"@ {
        if words.len() < 3 {
            Err("Usage: update <id> <payload>"@)
        } else {
            Ok(CommandView::Update(words[1], joined(words, 2)))
        }
    } else if keyword == "delete"@ {
        if words.len() != 2 {
            Err("Usage: delete <id>"@)
        } else {
            Ok(CommandView::Delete(words[1]))
        }
    } else if keyword == "list"@ {
        Ok(CommandView::List)
    } else if keyword == "exit"@ || keyword == "quit"@ {
        Ok(CommandView::Exit)
    } else if keyword == "help"@ {
        Ok(CommandView::Help)
    } else {
        Err("Unknown command: "@ + words[0])
    }
}

/// The command that a line stands for: its words, split at white space, with
/// the first of them in lower case as the keyword.
pub open spec fn parsed_line(line: Seq<char>) -> Result<CommandView, Seq<char>> {
    let words = whitespace_words(line);
    if words.len() == 0 {
        Err("Empty command"@)
    } else {
        parsed(words, lowercased(words[0]))
    }
}

/// Joins the words from place `from` on with single spaces.
fn join_from(words: &Vec<String>, from: usize) -> (text: String)
    requires
        from < words.len(),
    ensures
        text@ == joined(texts_of(words@), from as int),
{
    let ghost texts = texts_of(words@);
    let last = words.len() - 1;
    let mut text = words[last].clone();
    let mut i: usize = last;
    assert(texts[last as int] == words[last as int]@);
    while i > from
        invariant
            from <= i <= last,
            last == words.len() - 1,
            texts == texts_of(words@),
            text@ == joined(texts, i as int),
        decreases i,
    {
        i -= 1;
        let mut longer = words[i].clone();
        longer.append(" ");
        longer.append(text.as_str());
        assert(texts[i as int] == words[i as int]@);
        assert(longer@ =~= texts[i as int] + " "@ + joined(texts, i + 1));
        text = longer;
    }
    text
}

/// Whether a word is the given keyword.
fn is_keyword(word: &String, keyword: &str) -> (same: bool)
    ensures
        same == (word@ == keyword@),
{
    *word == String::from_str(keyword)
}

impl Command {
    /// The command for a line that has been split into words, with the
    /// first word in lower case as `keyword`; or the text that says why the
    /// line is no command.
    pub fn from_words(words: &Vec<String>, keyword: &String) -> (outcome: Result<Command, String>)
        ensures
            outcome_view(outcome) == parsed(texts_of(words@), keyword@),
    {
        let ghost texts = texts_of(words@);
        let count = words.len();
        if count == 0 {
            return Err(String::from_str("Empty command"));
        }
        assert(texts[0] == words[0]@);
        if count > 1 {
            assert(texts[1] == words[1]@);
        }
        if is_keyword(keyword, "add") {
            if count < 3 {
                Err(String::from_str("Usage: add <key> <value>"))
            } else {
                Ok(Command::Add(words[1].clone(), join_from(words, 2)))
            }
        } else if is_keyword(keyword, "create") {
            if count < 2 {
                Err(String::from_str("Usage: create <payload>"))
            } else {
                Ok(Command::Create(join_from(words, 1)))
            }
        } else if is_keyword(keyword, "get") || is_keyword(keyword, "read") {
            if count != 2 {
                Err(String::from_str("Usage: get <key>"))
            } else {
                Ok(Command::Get(words[1].clone()))
            }
        } else if is_keyword(keyword, "update") {
            if count < 3 {
                Err(String::from_str("Usage: update <id> <payload>"))
            } else {
                Ok(Command::Update(words[1].clone(), join_from(words, 2)))
            }
        } else if is_keyword(keyword, "delete") {
            if count != 2 {
                Err(String::from_str("Usage: delete <id>"))
            } else {
                Ok(Command::Delete(words[1].clone()))
            }
        } else if is_keyword(keyword, "list") {
            Ok(Command::List)
        } else if is_keyword(keyword, "exit") || is_keyword(keyword, "quit") {
            Ok(Command::Exit)
        } else if is_keyword(keyword, "help") {
            Ok(Command::Help)
        } else {
            Err(String::from_str("Unknown command: ").concat(words[0].as_str()))
        }
    }

    /// The command that a line of input stands for, or the text that says
    /// why the line is no command.
    pub fn parse(line: &str) -> (outcome: Result<Command, String>)
        ensures
            outcome_view(outcome) == parsed_line(line@),
    {
        let words = split_words(line);
        if words.len() == 0 {
            return Err(String::from_str("Empty command"));
        }
        assert(texts_of(words@)[0] == words[0]@);
        let keyword = lowercase(words[0].as_str());
        Command::from_words(&words, &keyword)
    }
}

} // verus!
