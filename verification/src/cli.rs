//! The commands of the debugging console.
use vstd::prelude::*;

use crate::encoding;
use crate::text;

verus! {

/// A command that needs arguments.
#[derive(Debug, Clone, Copy, PartialEq, Eq, Structural)]
pub enum CliTopic {
    AddContact,
    Send,
    History,
}

/// What a line asks for.
#[allow(inconsistent_fields)]
#[derive(Debug)]
pub enum CliCommand {
    /// An empty line.
    Nothing,
    Help,
    MyId,
    AddContact { user_id: String, public_key: Vec<u8>, name: String },
    /// The key of a contact is not hexadecimal.
    MalformedKey,
    /// The key of a contact has this many bytes, and not 32.
    KeyLength { got: usize },
    Contacts,
    Send { to: String, text: String },
    History { user_id: String, limit: u32 },
    Relays,
    Exit,
    /// Arguments are missing.
    Usage(CliTopic),
    Unknown { word: String },
}

/// A command as it is compared.
#[allow(inconsistent_fields)]
#[verifier::ext_equal]
pub enum CliModel {
    Nothing,
    Help,
    MyId,
    AddContact { user_id: Seq<char>, public_key: Seq<u8>, name: Seq<char> },
    MalformedKey,
    KeyLength { got: nat },
    Contacts,
    Send { to: Seq<char>, text: Seq<char> },
    History { user_id: Seq<char>, limit: nat },
    Relays,
    Exit,
    Usage(CliTopic),
    Unknown { word: Seq<char> },
}

impl View for CliCommand {
    type V = CliModel;

    open spec fn view(&self) -> CliModel {
        match self {
            CliCommand::Nothing => CliModel::Nothing,
            CliCommand::Help => CliModel::Help,
            CliCommand::MyId => CliModel::MyId,
            CliCommand::AddContact { user_id, public_key, name } => CliModel::AddContact {
                user_id: user_id@,
                public_key: public_key@,
                name: name@,
            },
            CliCommand::MalformedKey => CliModel::MalformedKey,
            CliCommand::KeyLength { got } => CliModel::KeyLength { got: *got as nat },
            CliCommand::Contacts => CliModel::Contacts,
            CliCommand::Send { to, text } => CliModel::Send { to: to@, text: text@ },
            CliCommand::History { user_id, limit } => CliModel::History {
                user_id: user_id@,
                limit: *limit as nat,
            },
            CliCommand::Relays => CliModel::Relays,
            CliCommand::Exit => CliModel::Exit,
            CliCommand::Usage(topic) => CliModel::Usage(*topic),
            CliCommand::Unknown { word } => CliModel::Unknown { word: word@ },
        }
    }
}

/// What follows the first word; nothing where nothing follows.
pub open spec fn rest_of(s: Seq<char>) -> Seq<char> {
    match text::after_word(s) {
        Some(rest) => rest,
        None => Seq::empty(),
    }
}

/// `addcontact <user> <key> [name]`: the name is the user where none is
/// given.
pub open spec fn add_contact_command(args: Seq<char>) -> CliModel {
    let user_id = text::first_word(args);
    let key = text::first_word(rest_of(args));
    let name = match text::after_word(rest_of(args)) {
        Some(name) => text::trimmed(name),
        None => text::trimmed(user_id),
    };
    if user_id.len() == 0 || key.len() == 0 {
        CliModel::Usage(CliTopic::AddContact)
    } else {
        match encoding::hex_value(key) {
            Some(public_key) => if public_key.len() == 32 {
                CliModel::AddContact { user_id, public_key, name }
            } else {
                CliModel::KeyLength { got: public_key.len() }
            },
            None => CliModel::MalformedKey,
        }
    }
}

/// `send <user> <text>`
pub open spec fn send_command(args: Seq<char>) -> CliModel {
    let to = text::first_word(args);
    let content = rest_of(args);
    if to.len() == 0 || content.len() == 0 {
        CliModel::Usage(CliTopic::Send)
    } else {
        CliModel::Send { to, text: content }
    }
}

/// How many messages are shown where no number is given.
pub const DEFAULT_HISTORY_LIMIT: u32 = 50;

/// `history <user> [limit]`
pub open spec fn history_command(args: Seq<char>) -> CliModel {
    let user_id = text::first_word(args);
    if user_id.len() == 0 {
        CliModel::Usage(CliTopic::History)
    } else {
        let limit = match text::decimal(text::trimmed(rest_of(args)), u32::MAX as nat) {
            Some(n) => n,
            None => DEFAULT_HISTORY_LIMIT as nat,
        };
        CliModel::History { user_id, limit }
    }
}

/// What a line asks for. The first word is the command, in letters of either
/// case.
pub open spec fn command_in(line: Seq<char>) -> CliModel {
    let plain = text::trimmed(line);
    let word = text::first_word(plain);
    let name = text::small_text(word);
    let args = text::trimmed(rest_of(plain));
    if plain.len() == 0 {
        CliModel::Nothing
    } else if name == "help"@ {
        CliModel::Help
    } else if name == "myid"@ {
        CliModel::MyId
    } else if name == "addcontact"@ {
        add_contact_command(args)
    } else if name == "contacts"@ {
        CliModel::Contacts
    } else if name == "send"@ {
        send_command(args)
    } else if name == "history"@ {
        history_command(args)
    } else if name == "relays"@ {
        CliModel::Relays
    } else if name == "exit"@ || name == "quit"@ {
        CliModel::Exit
    } else {
        CliModel::Unknown { word }
    }
}

/// What follows the first word; nothing where nothing follows.
fn rest_text<'a>(rest: Option<&'a str>) -> (result: &'a str)
    ensures
        result@ == (match rest {
            Some(r) => r@,
            None => Seq::<char>::empty(),
        }),
{
    match rest {
        Some(r) => r,
        None => {
            proof {
                reveal_strlit("");
            }
            assert(""@ =~= Seq::<char>::empty());
            ""
        },
    }
}

/// Reads the arguments of `addcontact`.
fn parse_add_contact(args: &str) -> (command: CliCommand)
    ensures
        command@ == add_contact_command(args@),
{
    let (user_id, rest) = text::split_word(args);
    let (key, name) = text::split_word(rest_text(rest));
    let name = text::trim(
        match name {
            Some(name) => name,
            None => user_id,
        },
    );
    if user_id.is_empty() || key.is_empty() {
        return CliCommand::Usage(CliTopic::AddContact);
    }
    match encoding::hex_decode(key) {
        Some(public_key) => if public_key.len() == 32 {
            CliCommand::AddContact {
                user_id: user_id.to_owned(),
                public_key,
                name: name.to_owned(),
            }
        } else {
            CliCommand::KeyLength { got: public_key.len() }
        },
        None => CliCommand::MalformedKey,
    }
}

/// Reads the arguments of `send`.
fn parse_send(args: &str) -> (command: CliCommand)
    ensures
        command@ == send_command(args@),
{
    let (to, rest) = text::split_word(args);
    let content = rest_text(rest);
    if to.is_empty() || content.is_empty() {
        return CliCommand::Usage(CliTopic::Send);
    }
    CliCommand::Send { to: to.to_owned(), text: content.to_owned() }
}

/// Reads the arguments of `history`.
fn parse_history(args: &str) -> (command: CliCommand)
    ensures
        command@ == history_command(args@),
{
    let (user_id, rest) = text::split_word(args);
    if user_id.is_empty() {
        return CliCommand::Usage(CliTopic::History);
    }
    let limit: u32 = match text::parse_decimal(text::trim(rest_text(rest)), u32::MAX as u64) {
        Some(n) => n as u32,
        None => DEFAULT_HISTORY_LIMIT,
    };
    CliCommand::History { user_id: user_id.to_owned(), limit }
}

/// Reads a line.
pub fn parse_line(line: &str) -> (command: CliCommand)
    ensures
        command@ == command_in(line@),
        text::trimmed(line@).len() == 0 <==> command is Nothing,
        ({
            let word = text::small_text(text::first_word(text::trimmed(line@)));
            &&& word == "help"@ ==> command is Help
            &&& word == "myid"@ ==> command is MyId
            &&& word == "contacts"@ ==> command is Contacts
            &&& word == "relays"@ ==> command is Relays
            &&& word == "exit"@ || word == "quit"@ ==> command is Exit
        }),
        command matches CliCommand::AddContact { public_key, .. } ==> public_key@.len() == 32,
{
    proof {
        words_differ();
    }
    let plain = text::trim(line);
    if plain.is_empty() {
        return CliCommand::Nothing;
    }
    let (word, rest) = text::split_word(plain);
    let args = text::trim(rest_text(rest));
    if text::is_keyword(word, "help") {
        CliCommand::Help
    } else if text::is_keyword(word, "myid") {
        CliCommand::MyId
    } else if text::is_keyword(word, "addcontact") {
        parse_add_contact(args)
    } else if text::is_keyword(word, "contacts") {
        CliCommand::Contacts
    } else if text::is_keyword(word, "send") {
        parse_send(args)
    } else if text::is_keyword(word, "history") {
        parse_history(args)
    } else if text::is_keyword(word, "relays") {
        CliCommand::Relays
    } else if text::is_keyword(word, "exit") || text::is_keyword(word, "quit") {
        CliCommand::Exit
    } else {
        CliCommand::Unknown { word: word.to_owned() }
    }
}

/// A line for a message: the word, the receiver and the text behind it give
/// the command to send that text to that receiver, whatever they are.
pub proof fn lines_that_send(to: Seq<char>, content: Seq<char>)
    requires
        to.len() > 0,
        forall|i: int| 0 <= i < to.len() ==> !text::white(#[trigger] to[i]),
        content.len() > 0,
        !text::white(content[0]) && !text::white(content.last()),
    ensures
        command_in("send"@.push(' ') + (to.push(' ') + content)) == (CliModel::Send {
            to,
            text: content,
        }),
{
    reveal_strlit("help");
    reveal_strlit("myid");
    reveal_strlit("addcontact");
    reveal_strlit("contacts");
    reveal_strlit("send");
    let args = to.push(' ') + content;
    let line = "send"@.push(' ') + args;
    assert(args[0] == to[0] && args.last() == content.last());
    assert(line[0] == 's' && line.last() == content.last());
    text::bare_texts_stay(args);
    text::bare_texts_stay(line);
    text::words_end_at_white_space("send"@, ' ', args);
    text::words_end_at_white_space(to, ' ', content);
    assert(text::small_text("send"@) =~= "send"@);
    assert("send"@[0] != "help"@[0] && "send"@[0] != "myid"@[0]);
}

/// A line for a new contact: the word, the user, the key in hexadecimal digits
/// and a name give the command to add that user with that key and name.
pub proof fn lines_that_add_contacts(user_id: Seq<char>, key: Seq<u8>, name: Seq<char>)
    requires
        user_id.len() > 0,
        forall|i: int| 0 <= i < user_id.len() ==> !text::white(#[trigger] user_id[i]),
        key.len() == 32,
        name.len() > 0,
        !text::white(name[0]) && !text::white(name.last()),
    ensures
        command_in(
            "addcontact"@.push(' ') + (user_id.push(' ') + (encoding::hex_text(key).push(' ')
                + name)),
        ) == (CliModel::AddContact { user_id, public_key: key, name }),
{
    reveal_strlit("help");
    reveal_strlit("myid");
    reveal_strlit("addcontact");
    let digits = encoding::hex_text(key);
    let last = digits.push(' ') + name;
    let args = user_id.push(' ') + last;
    let line = "addcontact"@.push(' ') + args;
    assert forall|i: int| 0 <= i < digits.len() implies !text::white(#[trigger] digits[i]) by {
        let value = if i % 2 == 0 {
            key[i / 2] as int / 16
        } else {
            key[i / 2] as int % 16
        };
        assert(digits[i] == encoding::digit_char(value));
    }
    assert(args[0] == user_id[0] && args.last() == name.last());
    assert(line[0] == 'a' && line.last() == name.last());
    text::bare_texts_stay(args);
    text::bare_texts_stay(line);
    text::bare_texts_stay(name);
    text::words_end_at_white_space("addcontact"@, ' ', args);
    text::words_end_at_white_space(user_id, ' ', last);
    text::words_end_at_white_space(digits, ' ', name);
    assert(text::small_text("addcontact"@) =~= "addcontact"@);
    encoding::hex_roundtrip(key);
    assert("addcontact"@.len() != "help"@.len() && "addcontact"@.len() != "myid"@.len());
}

/// A line for the history with a user: the word and the user, and a number of
/// messages where one is wanted; without one it is fifty.
pub proof fn lines_that_show_history(user_id: Seq<char>, digits: Seq<char>)
    requires
        user_id.len() > 0,
        forall|i: int| 0 <= i < user_id.len() ==> !text::white(#[trigger] user_id[i]),
        digits.len() > 0,
        text::all_digits(digits),
        text::digits_value(digits) <= 0xffff_ffff,
    ensures
        command_in("history"@.push(' ') + user_id) == (CliModel::History { user_id, limit: 50 }),
        command_in("history"@.push(' ') + (user_id.push(' ') + digits)) == (CliModel::History {
            user_id,
            limit: text::digits_value(digits),
        }),
{
    reveal_strlit("help");
    reveal_strlit("myid");
    reveal_strlit("addcontact");
    reveal_strlit("contacts");
    reveal_strlit("send");
    reveal_strlit("history");
    let args = user_id.push(' ') + digits;
    let short = "history"@.push(' ') + user_id;
    let long = "history"@.push(' ') + args;
    assert('0' <= digits[0] <= '9' && '0' <= digits.last() <= '9');
    assert(args[0] == user_id[0] && args.last() == digits.last());
    assert(short[0] == 'h' && short.last() == user_id.last());
    assert(long[0] == 'h' && long.last() == digits.last());
    text::bare_texts_stay(user_id);
    text::bare_texts_stay(digits);
    text::bare_texts_stay(args);
    text::bare_texts_stay(short);
    text::bare_texts_stay(long);
    text::words_end_at_white_space("history"@, ' ', user_id);
    text::words_end_at_white_space("history"@, ' ', args);
    text::words_end_at_white_space(user_id, ' ', digits);
    assert(text::small_text("history"@) =~= "history"@);
    assert("history"@.len() == 7 && "help"@.len() == 4 && "myid"@.len() == 4
        && "addcontact"@.len() == 10 && "contacts"@.len() == 8 && "send"@.len() == 4);
    assert(text::trimmed(Seq::<char>::empty()) =~= Seq::<char>::empty());
}

/// No two words of the console are the same, and none is empty.
proof fn words_differ()
    ensures
        "help"@ != "myid"@,
        "help"@ != "contacts"@ && "help"@ != "relays"@ && "help"@ != "exit"@,
        "myid"@ != "contacts"@ && "myid"@ != "relays"@ && "myid"@ != "exit"@,
        "help"@ != "quit"@ && "myid"@ != "quit"@,
        "contacts"@ != "relays"@ && "contacts"@ != "exit"@ && "contacts"@ != "quit"@,
        "contacts"@ != "addcontact"@ && "relays"@ != "addcontact"@ && "exit"@ != "addcontact"@,
        "quit"@ != "addcontact"@,
        "relays"@ != "send"@ && "exit"@ != "send"@ && "quit"@ != "send"@,
        "relays"@ != "history"@ && "exit"@ != "history"@ && "quit"@ != "history"@,
        "relays"@ != "exit"@ && "relays"@ != "quit"@,
        "help"@.len() == 4 && "myid"@.len() == 4 && "contacts"@.len() == 8,
        "relays"@.len() == 6 && "exit"@.len() == 4 && "quit"@.len() == 4,
{
    reveal_strlit("help");
    reveal_strlit("myid");
    reveal_strlit("addcontact");
    reveal_strlit("contacts");
    reveal_strlit("send");
    reveal_strlit("history");
    reveal_strlit("relays");
    reveal_strlit("exit");
    reveal_strlit("quit");
    assert("help"@.len() == 4 && "myid"@.len() == 4 && "exit"@.len() == 4 && "quit"@.len() == 4);
    assert("send"@.len() == 4 && "relays"@.len() == 6 && "history"@.len() == 7);
    assert("contacts"@.len() == 8 && "addcontact"@.len() == 10);
    assert("help"@[0] != "myid"@[0] && "help"@[0] != "exit"@[0] && "help"@[0] != "quit"@[0]);
    assert("myid"@[0] != "exit"@[0] && "myid"@[0] != "quit"@[0]);
    assert("exit"@[0] != "send"@[0] && "quit"@[0] != "send"@[0]);
}

} // verus!
