//! The commands a client can send, and the errors of reading them.
use vstd::prelude::*;

use crate::text::string_of;

verus! {

/// A chat channel.
#[derive(Clone, Copy, Debug, PartialEq, Eq, Structural)]
pub enum ChatChannel {
    Chat,
    Novice,
}

impl ChatChannel {
    /// The colour in which the channel is shown.
    pub fn color(&self) -> (r: String)
        ensures
            r@ == (match self {
                ChatChannel::Chat => "cyan"@,
                ChatChannel::Novice => "green"@,
            }),
    {
        match self {
            ChatChannel::Chat => String::from_str("cyan"),
            ChatChannel::Novice => String::from_str("green"),
        }
    }

    /// The name under which the channel is shown.
    pub fn name(&self) -> (r: String)
        ensures
            r@ == (match self {
                ChatChannel::Chat => "chat"@,
                ChatChannel::Novice => "novice"@,
            }),
    {
        match self {
            ChatChannel::Chat => String::from_str("chat"),
            ChatChannel::Novice => String::from_str("novice"),
        }
    }
}

/// A command, read from what a client typed.
#[derive(Debug, PartialEq)]
pub enum Command {
    Announce(String),
    Attack(Option<String>),
    Block,
    Chat((ChatChannel, String)),
    Close(Option<String>),
    Config((Option<String>, Option<String>)),
    Describe(Option<String>),
    Dodge,
    Drop((String, bool)),
    Emote(String),
    Enter(Option<String>),
    Examine(String),
    Inventory,
    Look(Option<String>),
    ZoneMap,
    Movement(String),
    Menu(String),
    Open(Option<String>),
    Place((String, String)),
    Quit,
    Retreat,
    Roll(String),
    Say(String),
    Scan((bool, Option<String>)),
    Sit(Option<String>),
    Stand,
    Take((String, bool, Option<String>)),
    Time,
    UseSkill((String, Option<String>)),
    Who,
    Yell(String),
}

/// A command with its text taken as character sequences.
pub enum CommandView {
    Announce(Seq<char>),
    Attack(Option<Seq<char>>),
    Block,
    Chat(ChatChannel, Seq<char>),
    Close(Option<Seq<char>>),
    Config(Option<Seq<char>>, Option<Seq<char>>),
    Describe(Option<Seq<char>>),
    Dodge,
    Drop(Seq<char>, bool),
    Emote(Seq<char>),
    Enter(Option<Seq<char>>),
    Examine(Seq<char>),
    Inventory,
    Look(Option<Seq<char>>),
    ZoneMap,
    Movement(Seq<char>),
    Menu(Seq<char>),
    Open(Option<Seq<char>>),
    Place(Seq<char>, Seq<char>),
    Quit,
    Retreat,
    Roll(Seq<char>),
    Say(Seq<char>),
    Scan(bool, Option<Seq<char>>),
    Sit(Option<Seq<char>>),
    Stand,
    Take(Seq<char>, bool, Option<Seq<char>>),
    Time,
    UseSkill(Seq<char>, Option<Seq<char>>),
    Who,
    Yell(Seq<char>),
}

/// An optional string taken as an optional character sequence.
pub open spec fn opt_view(o: Option<String>) -> Option<Seq<char>> {
    match o {
        Some(s) => Some(s@),
        None => None,
    }
}

impl View for Command {
    type V = CommandView;

    open spec fn view(&self) -> CommandView {
        match self {
            Command::Announce(s) => CommandView::Announce(s@),
            Command::Attack(t) => CommandView::Attack(opt_view(*t)),
            Command::Block => CommandView::Block,
            Command::Chat((c, s)) => CommandView::Chat(*c, s@),
            Command::Close(t) => CommandView::Close(opt_view(*t)),
            Command::Config((a, b)) => CommandView::Config(opt_view(*a), opt_view(*b)),
            Command::Describe(t) => CommandView::Describe(opt_view(*t)),
            Command::Dodge => CommandView::Dodge,
            Command::Drop((t, all)) => CommandView::Drop(t@, *all),
            Command::Emote(s) => CommandView::Emote(s@),
            Command::Enter(t) => CommandView::Enter(opt_view(*t)),
            Command::Examine(t) => CommandView::Examine(t@),
            Command::Inventory => CommandView::Inventory,
            Command::Look(t) => CommandView::Look(opt_view(*t)),
            Command::ZoneMap => CommandView::ZoneMap,
            Command::Movement(s) => CommandView::Movement(s@),
            Command::Menu(s) => CommandView::Menu(s@),
            Command::Open(t) => CommandView::Open(opt_view(*t)),
            Command::Place((o, t)) => CommandView::Place(o@, t@),
            Command::Quit => CommandView::Quit,
            Command::Retreat => CommandView::Retreat,
            Command::Roll(s) => CommandView::Roll(s@),
            Command::Say(s) => CommandView::Say(s@),
            Command::Scan((b, t)) => CommandView::Scan(*b, opt_view(*t)),
            Command::Sit(t) => CommandView::Sit(opt_view(*t)),
            Command::Stand => CommandView::Stand,
            Command::Take((t, all, s)) => CommandView::Take(t@, *all, opt_view(*s)),
            Command::Time => CommandView::Time,
            Command::UseSkill((s, t)) => CommandView::UseSkill(s@, opt_view(*t)),
            Command::Who => CommandView::Who,
            Command::Yell(s) => CommandView::Yell(s@),
        }
    }
}

/// Why a line of input did not become a command.
#[derive(Clone, Debug, PartialEq)]
pub enum ParseError {
    /// The line is not this command; the next reader may take it.
    WrongCommand,
    /// The line is this command, but its arguments are missing; the text
    /// suggests what is wanted.
    InvalidArguments(String),
    /// No reader took the line.
    UnknownCommand,
}

/// A parse error with its text taken as a character sequence.
pub enum ParseErrorView {
    WrongCommand,
    InvalidArguments(Seq<char>),
    UnknownCommand,
}

impl View for ParseError {
    type V = ParseErrorView;

    open spec fn view(&self) -> ParseErrorView {
        match self {
            ParseError::WrongCommand => ParseErrorView::WrongCommand,
            ParseError::InvalidArguments(s) => ParseErrorView::InvalidArguments(s@),
            ParseError::UnknownCommand => ParseErrorView::UnknownCommand,
        }
    }
}

/// What a reader returned, taken by its views.
pub open spec fn parse_result_view(r: Result<Command, ParseError>) -> Result<
    CommandView,
    ParseErrorView,
> {
    match r {
        Ok(c) => Ok(c@),
        Err(e) => Err(e@),
    }
}

/// The text shown to the client for a parse error.
pub open spec fn parse_error_text(e: ParseErrorView) -> Seq<char> {
    match e {
        ParseErrorView::InvalidArguments(s) => s,
        _ => "You don't know how to do that."@,
    }
}

impl ParseError {
    /// The text shown to the client. A `WrongCommand` is never shown: a
    /// reader that returns it hands the line on.
    pub fn message(&self) -> (r: String)
        requires
            !(self is WrongCommand),
        ensures
            r@ == parse_error_text(self@),
    {
        match self {
            ParseError::InvalidArguments(s) => s.clone(),
            _ => String::from_str("You don't know how to do that."),
        }
    }
}

/// A command together with the client that sent it.
#[derive(Debug, PartialEq)]
pub struct ParsedCommand {
    pub from: u64,
    pub command: Command,
}

/// Builds the error that asks for missing arguments.
pub fn invalid_arguments(text: &str) -> (e: ParseError)
    ensures
        e@ == ParseErrorView::InvalidArguments(text@),
{
    ParseError::InvalidArguments(String::from_str(text))
}

/// Builds a string from a character vector (convenience for the readers).
pub fn owned(v: &Vec<char>) -> (s: String)
    ensures
        s@ == v@,
{
    string_of(v.as_slice())
}

} // verus!
