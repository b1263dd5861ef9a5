//! The grammar of the commands a client types, one reader per command, and
//! the order in which the readers are tried.
//!
//! Each reader either takes the line (`Ok`, or `Err(InvalidArguments)` when
//! arguments are missing) or hands it on with `Err(WrongCommand)`.
use vstd::prelude::*;

use crate::command::{
    invalid_arguments, parse_result_view, Command, CommandView, ParseError, ParseErrorView,
};
use crate::text::{
    chars_of, has_prefix, is_single_line, is_word, lowercase, lowercase_chars, single_line,
    starts_with, string_of, sub_chars, trim, trim_seq,
};

verus! {

broadcast use vstd::string::group_string_axioms;

// ---------------------------------------------------------------------------
// The grammar, stated over the characters of the line.
// ---------------------------------------------------------------------------

/// The position of the first space in `w`, or its length when it has none.
pub open spec fn space_index(w: Seq<char>) -> nat
    decreases w.len(),
{
    if w.len() == 0 || w[0] == ' ' {
        0
    } else {
        1 + space_index(w.drop_first())
    }
}

/// `s` is the word `word`, alone or followed by a space.
pub open spec fn word_then_space(s: Seq<char>, word: Seq<char>) -> bool {
    starts_with(s, word) && (s.len() == word.len() || s[word.len() as int] == ' ')
}

/// An optional argument, trimmed.
pub open spec fn trimmed_opt(o: Option<Seq<char>>) -> Option<Seq<char>> {
    match o {
        Some(s) => Some(trim_seq(s)),
        None => None,
    }
}

/// An optional argument, trimmed and in lower case.
pub open spec fn lowered_opt(o: Option<Seq<char>>) -> Option<Seq<char>> {
    match o {
        Some(s) => Some(lowercase(trim_seq(s))),
        None => None,
    }
}

/// The line is exactly `word`.
pub open spec fn parse_exact(c: Seq<char>, word: Seq<char>, cmd: CommandView) -> Result<
    CommandView,
    ParseErrorView,
> {
    if c == word {
        Ok(cmd)
    } else {
        Err(ParseErrorView::WrongCommand)
    }
}

/// `drop [all] <target>`.
pub open spec fn parse_drop(c: Seq<char>) -> Result<CommandView, ParseErrorView> {
    if !starts_with(c, "drop"@) {
        Err(ParseErrorView::WrongCommand)
    } else {
        let r = c.skip(4);
        if r.len() == 0 {
            Err(ParseErrorView::InvalidArguments("Drop what?"@))
        } else if r[0] != ' ' || !single_line(r) {
            Err(ParseErrorView::WrongCommand)
        } else if word_then_space(r, " all"@) {
            if r.len() == 4 {
                Err(ParseErrorView::InvalidArguments("Drop what?"@))
            } else {
                Ok(CommandView::Drop(trim_seq(r.skip(5)), true))
            }
        } else {
            Ok(CommandView::Drop(trim_seq(r.skip(1)), false))
        }
    }
}

/// `inventory`, `inv` or `i`.
pub open spec fn parse_inventory(c: Seq<char>) -> Result<CommandView, ParseErrorView> {
    if c == "inventory"@ || c == "inv"@ || c == "i"@ {
        Ok(CommandView::Inventory)
    } else {
        Err(ParseErrorView::WrongCommand)
    }
}

/// The source that follows the target in `take`: either `from <source>`,
/// or any other word after the first space.
pub open spec fn take_source(u: Seq<char>) -> Option<Seq<char>> {
    if u.len() == 0 {
        None
    } else if word_then_space(u, " from"@) {
        if u.len() == 5 {
            None
        } else {
            Some(u.skip(6))
        }
    } else {
        Some(u.skip(1))
    }
}

/// `take|get [all] <target> [from] [<source>]`; the target is the first
/// word after the keyword (and `all`).
pub open spec fn parse_take(c: Seq<char>) -> Result<CommandView, ParseErrorView> {
    if !(starts_with(c, "take"@) || starts_with(c, "get"@)) {
        Err(ParseErrorView::WrongCommand)
    } else {
        let r = if starts_with(c, "take"@) {
            c.skip(4)
        } else {
            c.skip(3)
        };
        if r.len() == 0 || r == " all"@ {
            Err(ParseErrorView::InvalidArguments("Take what?"@))
        } else if r[0] != ' ' || !single_line(r) {
            Err(ParseErrorView::WrongCommand)
        } else {
            let all = starts_with(r, " all "@);
            let s = if all {
                r.skip(4)
            } else {
                r
            };
            let w = s.skip(1);
            let t = space_index(w) as int;
            Ok(
                CommandView::Take(
                    trim_seq(w.take(t)),
                    all,
                    lowered_opt(take_source(w.skip(t))),
                ),
            )
        }
    }
}

/// The target that follows the object in `place`, after an optional `on`,
/// `against` or `in`.
pub open spec fn place_target(u: Seq<char>) -> Option<Seq<char>> {
    if u.len() == 0 {
        None
    } else if word_then_space(u, " on"@) {
        if u.len() == 3 {
            None
        } else {
            Some(u.skip(4))
        }
    } else if word_then_space(u, " against"@) {
        if u.len() == 8 {
            None
        } else {
            Some(u.skip(9))
        }
    } else if word_then_space(u, " in"@) {
        if u.len() == 3 {
            None
        } else {
            Some(u.skip(4))
        }
    } else {
        Some(u.skip(1))
    }
}

/// `place <object> [on|against|in] <target>`; the object is the first word.
pub open spec fn parse_place(c: Seq<char>) -> Result<CommandView, ParseErrorView> {
    if !starts_with(c, "place"@) {
        Err(ParseErrorView::WrongCommand)
    } else {
        let r = c.skip(5);
        if r.len() == 0 {
            Err(ParseErrorView::InvalidArguments("Place what?"@))
        } else if r[0] != ' ' || !single_line(r) {
            Err(ParseErrorView::WrongCommand)
        } else {
            let w = r.skip(1);
            let t = space_index(w) as int;
            match place_target(w.skip(t)) {
                None => Err(ParseErrorView::InvalidArguments("Place where?"@)),
                Some(target) => Ok(CommandView::Place(trim_seq(w.take(t)), trim_seq(target))),
            }
        }
    }
}

/// The length of the keyword of `attack|atk|a`, when the line starts with one.
pub open spec fn attack_keyword(c: Seq<char>) -> Option<nat> {
    if word_then_space(c, "attack"@) {
        Some(6)
    } else if word_then_space(c, "atk"@) {
        Some(3)
    } else if word_then_space(c, "a"@) {
        Some(1)
    } else {
        None
    }
}

/// `attack|atk|a [<target>]`.
pub open spec fn parse_attack(c: Seq<char>) -> Result<CommandView, ParseErrorView> {
    match attack_keyword(c) {
        None => Err(ParseErrorView::WrongCommand),
        Some(k) => {
            let r = c.skip(k as int);
            if r.len() == 0 {
                Ok(CommandView::Attack(None))
            } else if !single_line(r) {
                Err(ParseErrorView::WrongCommand)
            } else {
                Ok(CommandView::Attack(Some(lowercase(trim_seq(r.skip(1))))))
            }
        }
    }
}

/// `retreat`: the line starts with `retreat` or ends with `ret`.
pub open spec fn parse_retreat(c: Seq<char>) -> Result<CommandView, ParseErrorView> {
    if starts_with(c, "retreat"@) || (c.len() >= 3 && c.skip(c.len() - 3) == "ret"@) {
        Ok(CommandView::Retreat)
    } else {
        Err(ParseErrorView::WrongCommand)
    }
}

/// `<skill> [<target>]`: any single line; the skill is its first word.
pub open spec fn parse_use_skill(c: Seq<char>) -> Result<CommandView, ParseErrorView> {
    if !single_line(c) {
        Err(ParseErrorView::WrongCommand)
    } else {
        let t = space_index(c) as int;
        let target = if t == c.len() {
            None
        } else {
            Some(lowercase(trim_seq(c.skip(t + 1))))
        };
        Ok(CommandView::UseSkill(lowercase(trim_seq(c.take(t))), target))
    }
}

/// The length of the keyword of `examine|ex`, when the line starts with one.
pub open spec fn examine_keyword(c: Seq<char>) -> Option<nat> {
    if word_then_space(c, "examine"@) {
        Some(7)
    } else if word_then_space(c, "ex"@) {
        Some(2)
    } else {
        None
    }
}

/// `examine|ex <target>`.
pub open spec fn parse_examine(c: Seq<char>) -> Result<CommandView, ParseErrorView> {
    match examine_keyword(c) {
        None => Err(ParseErrorView::WrongCommand),
        Some(k) => {
            let r = c.skip(k as int);
            if r.len() == 0 {
                Err(ParseErrorView::InvalidArguments("Examine what?"@))
            } else if !single_line(r) {
                Err(ParseErrorView::WrongCommand)
            } else {
                let target = lowercase(trim_seq(r.skip(1)));
                if target.len() == 0 {
                    Err(ParseErrorView::InvalidArguments("Examine what?"@))
                } else {
                    Ok(CommandView::Examine(target))
                }
            }
        }
    }
}

/// The text after the keyword of `roll <dice>` or `#<dice>`.
pub open spec fn roll_body(c: Seq<char>) -> Option<Seq<char>> {
    if word_then_space(c, "roll"@) {
        Some(c.skip(4))
    } else if starts_with(c, "#"@) {
        Some(c.skip(1))
    } else {
        None
    }
}

/// `roll <dice>` or `#<dice>`.
pub open spec fn parse_roll(c: Seq<char>) -> Result<CommandView, ParseErrorView> {
    match roll_body(c) {
        None => Err(ParseErrorView::WrongCommand),
        Some(body) => {
            if !single_line(c) {
                Err(ParseErrorView::WrongCommand)
            } else if trim_seq(body).len() == 0 {
                Err(ParseErrorView::InvalidArguments("Roll what?"@))
            } else {
                Ok(CommandView::Roll(trim_seq(body)))
            }
        }
    }
}

/// In a menu, any single line is a choice.
pub open spec fn parse_menu(c: Seq<char>) -> Result<CommandView, ParseErrorView> {
    if single_line(c) {
        Ok(CommandView::Menu(c))
    } else {
        Err(ParseErrorView::WrongCommand)
    }
}

/// The first reader's answer, unless it hands the line on.
pub open spec fn or_else(
    first: Result<CommandView, ParseErrorView>,
    next: Result<CommandView, ParseErrorView>,
) -> Result<CommandView, ParseErrorView> {
    if first matches Err(ParseErrorView::WrongCommand) {
        next
    } else {
        first
    }
}

// ---------------------------------------------------------------------------
// Readers whose grammar this library does not hold.
// ---------------------------------------------------------------------------
//
// The server has further readers (advancing, announcing, chatting, closing,
// configuring, describing, emoting, entering, looking, the map, movement,
// opening, saying, scanning, sitting, standing, the time, who is online and
// yelling). Their grammars are not part of this library. A single line whose
// first word names one of these commands (a direction, for movement; a
// channel, for chat) is therefore refused as an unknown command at the
// reader's place in the order, rather than handed on to the skills.

/// A single line whose first word is one of `words`.
pub open spec fn first_word_among(c: Seq<char>, words: Seq<Seq<char>>) -> bool {
    single_line(c) && exists|i: int| 0 <= i < words.len() && word_then_space(c, #[trigger] words[i])
}

/// The commands of the unwritten readers that stand before `attack`.
pub open spec fn unwritten_before_attack() -> Seq<Seq<char>> {
    seq!["advance"@, "announce"@]
}

/// The commands of the unwritten readers between `block` and `dodge`.
pub open spec fn unwritten_before_dodge() -> Seq<Seq<char>> {
    seq!["chat"@, "novice"@, "close"@, "config"@, "describe"@]
}

/// The commands of the unwritten readers between `drop` and `examine`.
pub open spec fn unwritten_before_examine() -> Seq<Seq<char>> {
    seq!["emote"@, "enter"@]
}

/// The commands of the unwritten readers between `inventory` and `place`:
/// looking, the map, the directions of movement, and opening.
pub open spec fn unwritten_before_place() -> Seq<Seq<char>> {
    seq![
        "look"@,
        "map"@,
        "north"@,
        "south"@,
        "east"@,
        "west"@,
        "up"@,
        "down"@,
        "northeast"@,
        "northwest"@,
        "southeast"@,
        "southwest"@,
        "n"@,
        "s"@,
        "e"@,
        "w"@,
        "u"@,
        "d"@,
        "ne"@,
        "nw"@,
        "se"@,
        "sw"@,
        "open"@,
    ]
}

/// The commands of the unwritten readers between `roll` and `take`.
pub open spec fn unwritten_before_take() -> Seq<Seq<char>> {
    seq!["say"@, "scan"@, "sit"@, "stand"@]
}

/// The commands of the unwritten readers between `take` and the skills.
pub open spec fn unwritten_before_skills() -> Seq<Seq<char>> {
    seq!["time"@, "who"@, "yell"@]
}

/// Readers whose grammar is not held here: a line they claim is refused as
/// an unknown command; any other is handed on.
pub open spec fn parse_unwritten(c: Seq<char>, words: Seq<Seq<char>>) -> Result<
    CommandView,
    ParseErrorView,
> {
    if first_word_among(c, words) {
        Err(ParseErrorView::UnknownCommand)
    } else {
        Err(ParseErrorView::WrongCommand)
    }
}

/// A line that one of the unwritten readers claims.
pub open spec fn unwritten_claims(c: Seq<char>) -> bool {
    ||| first_word_among(c, unwritten_before_attack())
    ||| first_word_among(c, unwritten_before_dodge())
    ||| first_word_among(c, unwritten_before_examine())
    ||| first_word_among(c, unwritten_before_place())
    ||| first_word_among(c, unwritten_before_take())
    ||| first_word_among(c, unwritten_before_skills())
}

/// What a line of input means: in a menu, `quit` and then any choice;
/// otherwise the readers in the server's order, the skills last since they
/// take any line; `UnknownCommand` when no reader takes it, or when one whose
/// grammar is not held here claims it.
pub open spec fn parse_line(c: Seq<char>, in_menu: bool) -> Result<CommandView, ParseErrorView> {
    if in_menu {
        or_else(
            parse_exact(c, "quit"@, CommandView::Quit),
            or_else(parse_menu(c), Err(ParseErrorView::UnknownCommand)),
        )
    } else {
        parse_from(c, 0)
    }
}

/// The readers outside a menu, in the server's order.
pub open spec fn reader(c: Seq<char>, i: nat) -> Result<CommandView, ParseErrorView> {
    if i == 0 {
        parse_unwritten(c, unwritten_before_attack())
    } else if i == 1 {
        parse_attack(c)
    } else if i == 2 {
        parse_exact(c, "block"@, CommandView::Block)
    } else if i == 3 {
        parse_unwritten(c, unwritten_before_dodge())
    } else if i == 4 {
        parse_exact(c, "dodge"@, CommandView::Dodge)
    } else if i == 5 {
        parse_drop(c)
    } else if i == 6 {
        parse_unwritten(c, unwritten_before_examine())
    } else if i == 7 {
        parse_examine(c)
    } else if i == 8 {
        parse_inventory(c)
    } else if i == 9 {
        parse_unwritten(c, unwritten_before_place())
    } else if i == 10 {
        parse_place(c)
    } else if i == 11 {
        parse_exact(c, "quit"@, CommandView::Quit)
    } else if i == 12 {
        parse_retreat(c)
    } else if i == 13 {
        parse_roll(c)
    } else if i == 14 {
        parse_unwritten(c, unwritten_before_take())
    } else if i == 15 {
        parse_take(c)
    } else if i == 16 {
        parse_unwritten(c, unwritten_before_skills())
    } else {
        parse_use_skill(c)
    }
}

/// The number of readers outside a menu.
pub open spec fn reader_count() -> nat {
    18
}

/// The answer of the readers from the `i`-th on: the first that does not
/// hand the line on, else `UnknownCommand`.
pub open spec fn parse_from(c: Seq<char>, i: nat) -> Result<CommandView, ParseErrorView>
    decreases reader_count() - i,
{
    if i >= reader_count() {
        Err(ParseErrorView::UnknownCommand)
    } else {
        or_else(reader(c, i), parse_from(c, i + 1))
    }
}

/// No reader answers `WrongCommand` for the whole order, and the order ends
/// with a reader that takes every single line.
proof fn lemma_parse_from(c: Seq<char>, i: nat)
    requires
        i <= reader_count(),
    ensures
        !(parse_from(c, i) matches Err(ParseErrorView::WrongCommand)),
        i < reader_count() && single_line(c) && !unwritten_claims(c) ==> !(parse_from(c, i) matches Err(
            ParseErrorView::UnknownCommand,
        )),
    decreases reader_count() - i,
{
    if i < reader_count() {
        lemma_parse_from(c, i + 1);
    }
}

/// Every line of input gets an answer other than `WrongCommand`. Outside a
/// menu, a single line is taken by some reader unless one whose grammar is
/// not held here claims it; in a menu, every single line is taken.
pub proof fn lemma_single_lines_are_taken(c: Seq<char>, in_menu: bool)
    ensures
        !(parse_line(c, in_menu) matches Err(ParseErrorView::WrongCommand)),
        single_line(c) && (in_menu || !unwritten_claims(c)) ==> !(parse_line(c, in_menu) matches Err(
            ParseErrorView::UnknownCommand,
        )),
{
    lemma_parse_from(c, 0);
}

/// A line that a reader whose grammar is not held here claims is never read
/// as a skill, nor as any command of a reader that comes after it.
pub proof fn lemma_unwritten_lines_are_not_skills(c: Seq<char>)
    requires
        unwritten_claims(c),
    ensures
        !(parse_line(c, false) matches Ok(CommandView::UseSkill(..))),
{
    reveal_with_fuel(parse_from, 18);
}

/// A line whose `i`-th character differs from the word's does not start
/// with the word.
proof fn lemma_not_prefix(c: Seq<char>, w: Seq<char>, i: int)
    requires
        0 <= i < w.len(),
        i < c.len(),
        c[i] != w[i],
    ensures
        !starts_with(c, w),
{
    if w.len() <= c.len() {
        assert(c.take(w.len() as int)[i] == c[i]);
    }
}

/// `ex` is short for `examine`: a line that starts with `ex ` is read as the
/// same line starting with `examine `, and either names what to examine,
/// trimmed and in lower case.
pub proof fn lemma_ex_abbreviates_examine(t: Seq<char>)
    requires
        single_line(t),
    ensures
        parse_line("ex "@ + t, false) == parse_line("examine "@ + t, false),
        parse_line("examine "@ + t, false) == if lowercase(trim_seq(t)).len() == 0 {
            Err::<CommandView, ParseErrorView>(ParseErrorView::InvalidArguments("Examine what?"@))
        } else {
            Ok::<CommandView, ParseErrorView>(CommandView::Examine(lowercase(trim_seq(t))))
        },
{
    reveal_strlit("ex ");
    reveal_strlit("examine ");
    reveal_strlit(" ");
    reveal_strlit("ex");
    reveal_strlit("examine");
    reveal_strlit("advance");
    reveal_strlit("announce");
    reveal_strlit("attack");
    reveal_strlit("atk");
    reveal_strlit("a");
    reveal_strlit("block");
    reveal_strlit("chat");
    reveal_strlit("novice");
    reveal_strlit("close");
    reveal_strlit("config");
    reveal_strlit("describe");
    reveal_strlit("dodge");
    reveal_strlit("drop");
    reveal_strlit("emote");
    reveal_strlit("enter");
    let a = "ex "@ + t;
    let b = "examine "@ + t;
    assert(a[0] == 'e' && a[1] == 'x' && a[2] == ' ');
    assert(b[0] == 'e' && b[1] == 'x' && b[2] == 'a');
    assert(a.skip(2) =~= " "@ + t);
    assert(b.skip(7) =~= " "@ + t);
    assert((" "@ + t).skip(1) =~= t);
    assert forall|i: int| 0 <= i < (" "@ + t).len() implies (" "@ + t)[i] != '\n' by {
        if i > 0 {
            assert((" "@ + t)[i] == t[i - 1]);
        }
    }
    lemma_not_prefix(a, "examine"@, 2);
    assert(word_then_space(a, "ex"@)) by {
        assert(a.take(2) =~= "ex"@);
    }
    assert(word_then_space(b, "examine"@)) by {
        assert(b.take(7) =~= "examine"@);
    }
    assert(parse_examine(a) == parse_examine(b));
    assert forall|c: Seq<char>| c == a || c == b implies #[trigger] parse_from(c, 0) == parse_examine(
        c,
    ) by {
        lemma_not_prefix(c, "advance"@, 0);
        lemma_not_prefix(c, "announce"@, 0);
        lemma_not_prefix(c, "attack"@, 0);
        lemma_not_prefix(c, "atk"@, 0);
        lemma_not_prefix(c, "a"@, 0);
        lemma_not_prefix(c, "chat"@, 0);
        lemma_not_prefix(c, "novice"@, 0);
        lemma_not_prefix(c, "close"@, 0);
        lemma_not_prefix(c, "config"@, 0);
        lemma_not_prefix(c, "describe"@, 0);
        lemma_not_prefix(c, "drop"@, 0);
        lemma_not_prefix(c, "emote"@, 1);
        lemma_not_prefix(c, "enter"@, 1);
        assert(c != "block"@) by { assert(c[0] != "block"@[0]); }
        assert(c != "dodge"@) by { assert(c[0] != "dodge"@[0]); }
        assert(!first_word_among(c, unwritten_before_attack()));
        assert(!first_word_among(c, unwritten_before_dodge()));
        assert(!first_word_among(c, unwritten_before_examine()));
        reveal_with_fuel(parse_from, 8);
    }
}

// ---------------------------------------------------------------------------
// Readers.
// ---------------------------------------------------------------------------

/// The position of the first space in `v` at or after `from`, or its length.
fn find_space(v: &[char], from: usize) -> (r: usize)
    requires
        from <= v@.len(),
    ensures
        r == from + space_index(v@.skip(from as int)),
        r <= v@.len(),
{
    let mut i = from;
    while i < v.len() && v[i] != ' '
        invariant
            from <= i <= v@.len(),
            i + space_index(v@.skip(i as int)) == from + space_index(v@.skip(from as int)),
        decreases v@.len() - i,
    {
        assert(v@.skip(i as int).drop_first() == v@.skip(i + 1));
        i = i + 1;
    }
    proof {
        if i < v@.len() {
            assert(v@.skip(i as int)[0] == ' ');
        }
    }
    i
}

/// Whether `v` is `word`, alone or followed by a space.
fn has_word(v: &[char], word: &str) -> (r: bool)
    ensures
        r == word_then_space(v@, word@),
{
    if !has_prefix(v, word) {
        return false;
    }
    let n = word.unicode_len();
    n == v.len() || v[n] == ' '
}

/// A trimmed copy of `v[from..]` as a string.
fn trimmed_rest(v: &[char], from: usize) -> (s: String)
    requires
        from <= v@.len(),
    ensures
        s@ == trim_seq(v@.skip(from as int)),
{
    let r = sub_chars(v, from, v.len());
    assert(r@ == v@.skip(from as int));
    let t = trim(r.as_slice());
    string_of(t.as_slice())
}

/// A trimmed, lower-cased copy of `v[from..to]` as a string.
fn lowered_range(v: &[char], from: usize, to: usize) -> (s: String)
    requires
        from <= to <= v@.len(),
    ensures
        s@ == lowercase(trim_seq(v@.subrange(from as int, to as int))),
{
    let r = sub_chars(v, from, to);
    let t = trim(r.as_slice());
    let l = lowercase_chars(t.as_slice());
    string_of(l.as_slice())
}

/// Reads `drop [all] <target>`.
pub fn handle_drop(content: &str) -> (r: Result<Command, ParseError>)
    ensures
        parse_result_view(r) == parse_drop(content@),
{
    let c = chars_of(content);
    if !has_prefix(c.as_slice(), "drop") {
        return Err(ParseError::WrongCommand);
    }
    proof {
        reveal_strlit("drop");
        reveal_strlit(" all");
    }
    let r = sub_chars(c.as_slice(), 4, c.len());
    assert(r@ == c@.skip(4));
    if r.len() == 0 {
        return Err(invalid_arguments("Drop what?"));
    }
    if r[0] != ' ' || !is_single_line(r.as_slice()) {
        return Err(ParseError::WrongCommand);
    }
    if has_word(r.as_slice(), " all") {
        if r.len() == 4 {
            return Err(invalid_arguments("Drop what?"));
        }
        let target = trimmed_rest(r.as_slice(), 5);
        Ok(Command::Drop((target, true)))
    } else {
        let target = trimmed_rest(r.as_slice(), 1);
        Ok(Command::Drop((target, false)))
    }
}

/// Reads `inventory`, `inv` or `i`.
pub fn handle_inventory(content: &str) -> (r: Result<Command, ParseError>)
    ensures
        parse_result_view(r) == parse_inventory(content@),
{
    let c = chars_of(content);
    if is_word(c.as_slice(), "inventory") || is_word(c.as_slice(), "inv") || is_word(
        c.as_slice(),
        "i",
    ) {
        Ok(Command::Inventory)
    } else {
        Err(ParseError::WrongCommand)
    }
}

/// Reads `block`.
pub fn handle_block(content: &str) -> (r: Result<Command, ParseError>)
    ensures
        parse_result_view(r) == parse_exact(content@, "block"@, CommandView::Block),
{
    let c = chars_of(content);
    if is_word(c.as_slice(), "block") {
        Ok(Command::Block)
    } else {
        Err(ParseError::WrongCommand)
    }
}

/// Reads `dodge`.
pub fn handle_dodge(content: &str) -> (r: Result<Command, ParseError>)
    ensures
        parse_result_view(r) == parse_exact(content@, "dodge"@, CommandView::Dodge),
{
    let c = chars_of(content);
    if is_word(c.as_slice(), "dodge") {
        Ok(Command::Dodge)
    } else {
        Err(ParseError::WrongCommand)
    }
}

/// Reads `quit`.
pub fn handle_quit(content: &str) -> (r: Result<Command, ParseError>)
    ensures
        parse_result_view(r) == parse_exact(content@, "quit"@, CommandView::Quit),
{
    let c = chars_of(content);
    if is_word(c.as_slice(), "quit") {
        Ok(Command::Quit)
    } else {
        Err(ParseError::WrongCommand)
    }
}

/// Reads `retreat`.
pub fn handle_retreat(content: &str) -> (r: Result<Command, ParseError>)
    ensures
        parse_result_view(r) == parse_retreat(content@),
{
    let c = chars_of(content);
    if has_prefix(c.as_slice(), "retreat") {
        return Ok(Command::Retreat);
    }
    if c.len() >= 3 {
        let tail = sub_chars(c.as_slice(), c.len() - 3, c.len());
        assert(tail@ == c@.skip(c@.len() - 3));
        if is_word(tail.as_slice(), "ret") {
            return Ok(Command::Retreat);
        }
    }
    Err(ParseError::WrongCommand)
}

/// Reads `take|get [all] <target> [from] [<source>]`.
pub fn handle_take(content: &str) -> (r: Result<Command, ParseError>)
    ensures
        parse_result_view(r) == parse_take(content@),
{
    let c = chars_of(content);
    let k: usize;
    if has_prefix(c.as_slice(), "take") {
        proof {
            reveal_strlit("take");
        }
        k = 4;
    } else if has_prefix(c.as_slice(), "get") {
        proof {
            reveal_strlit("get");
        }
        k = 3;
    } else {
        return Err(ParseError::WrongCommand);
    }
    proof {
        reveal_strlit(" all");
        reveal_strlit(" all ");
        reveal_strlit(" from");
    }
    let r = sub_chars(c.as_slice(), k, c.len());
    assert(r@ == c@.skip(k as int));
    if r.len() == 0 || is_word(r.as_slice(), " all") {
        return Err(invalid_arguments("Take what?"));
    }
    if r[0] != ' ' || !is_single_line(r.as_slice()) {
        return Err(ParseError::WrongCommand);
    }
    let all = has_prefix(r.as_slice(), " all ");
    let start: usize = if all {
        5
    } else {
        1
    };
    let ghost s = if all {
        r@.skip(4)
    } else {
        r@
    };
    let ghost w = s.skip(1);
    assert(w == r@.skip(start as int));
    let t = find_space(r.as_slice(), start);
    assert(w.take((t - start) as int) == r@.subrange(start as int, t as int));
    assert(w.skip((t - start) as int) == r@.skip(t as int));
    let target_chars = sub_chars(r.as_slice(), start, t);
    let target_trimmed = trim(target_chars.as_slice());
    let target = string_of(target_trimmed.as_slice());
    let u = sub_chars(r.as_slice(), t, r.len());
    assert(u@ == r@.skip(t as int));
    let source: Option<String>;
    if u.len() == 0 {
        source = None;
    } else if has_word(u.as_slice(), " from") {
        if u.len() == 5 {
            source = None;
        } else {
            assert(u@.skip(6) == u@.subrange(6, u@.len() as int));
            source = Some(lowered_range(u.as_slice(), 6, u.len()));
        }
    } else {
        assert(u@.skip(1) == u@.subrange(1, u@.len() as int));
        source = Some(lowered_range(u.as_slice(), 1, u.len()));
    }
    Ok(Command::Take((target, all, source)))
}

/// Reads `place <object> [on|against|in] <target>`.
pub fn handle_place(content: &str) -> (r: Result<Command, ParseError>)
    ensures
        parse_result_view(r) == parse_place(content@),
{
    let c = chars_of(content);
    if !has_prefix(c.as_slice(), "place") {
        return Err(ParseError::WrongCommand);
    }
    proof {
        reveal_strlit("place");
        reveal_strlit(" on");
        reveal_strlit(" against");
        reveal_strlit(" in");
    }
    let r = sub_chars(c.as_slice(), 5, c.len());
    assert(r@ == c@.skip(5));
    if r.len() == 0 {
        return Err(invalid_arguments("Place what?"));
    }
    if r[0] != ' ' || !is_single_line(r.as_slice()) {
        return Err(ParseError::WrongCommand);
    }
    let ghost w = r@.skip(1);
    let t = find_space(r.as_slice(), 1);
    assert(w.take((t - 1) as int) == r@.subrange(1, t as int));
    assert(w.skip((t - 1) as int) == r@.skip(t as int));
    let object_chars = sub_chars(r.as_slice(), 1, t);
    let object_trimmed = trim(object_chars.as_slice());
    let object = string_of(object_trimmed.as_slice());
    let u = sub_chars(r.as_slice(), t, r.len());
    assert(u@ == r@.skip(t as int));
    let from: usize;
    if u.len() == 0 {
        return Err(invalid_arguments("Place where?"));
    } else if has_word(u.as_slice(), " on") {
        if u.len() == 3 {
            return Err(invalid_arguments("Place where?"));
        }
        from = 4;
    } else if has_word(u.as_slice(), " against") {
        if u.len() == 8 {
            return Err(invalid_arguments("Place where?"));
        }
        from = 9;
    } else if has_word(u.as_slice(), " in") {
        if u.len() == 3 {
            return Err(invalid_arguments("Place where?"));
        }
        from = 4;
    } else {
        from = 1;
    }
    let target = trimmed_rest(u.as_slice(), from);
    Ok(Command::Place((object, target)))
}

/// Reads `attack|atk|a [<target>]`.
pub fn handle_attack(content: &str) -> (r: Result<Command, ParseError>)
    ensures
        parse_result_view(r) == parse_attack(content@),
{
    let c = chars_of(content);
    proof {
        reveal_strlit("attack");
        reveal_strlit("atk");
        reveal_strlit("a");
    }
    let k: usize = if has_word(c.as_slice(), "attack") {
        6
    } else if has_word(c.as_slice(), "atk") {
        3
    } else if has_word(c.as_slice(), "a") {
        1
    } else {
        return Err(ParseError::WrongCommand);
    };
    let r = sub_chars(c.as_slice(), k, c.len());
    assert(r@ == c@.skip(k as int));
    if r.len() == 0 {
        return Ok(Command::Attack(None));
    }
    if !is_single_line(r.as_slice()) {
        return Err(ParseError::WrongCommand);
    }
    assert(r@.skip(1) == r@.subrange(1, r@.len() as int));
    let target = lowered_range(r.as_slice(), 1, r.len());
    Ok(Command::Attack(Some(target)))
}

/// Reads `<skill> [<target>]`.
pub fn handle_use_skill(content: &str) -> (r: Result<Command, ParseError>)
    ensures
        parse_result_view(r) == parse_use_skill(content@),
{
    let c = chars_of(content);
    if !is_single_line(c.as_slice()) {
        return Err(ParseError::WrongCommand);
    }
    let t = find_space(c.as_slice(), 0);
    assert(c@.skip(0) == c@);
    assert(c@.take(t as int) == c@.subrange(0, t as int));
    let skill = lowered_range(c.as_slice(), 0, t);
    let target = if t == c.len() {
        None
    } else {
        assert(c@.skip(t + 1) == c@.subrange(t + 1, c@.len() as int));
        Some(lowered_range(c.as_slice(), t + 1, c.len()))
    };
    Ok(Command::UseSkill((skill, target)))
}

/// Reads `examine|ex <target>`.
pub fn handle_examine(content: &str) -> (r: Result<Command, ParseError>)
    ensures
        parse_result_view(r) == parse_examine(content@),
{
    let c = chars_of(content);
    proof {
        reveal_strlit("examine");
        reveal_strlit("ex");
    }
    let k: usize = if has_word(c.as_slice(), "examine") {
        7
    } else if has_word(c.as_slice(), "ex") {
        2
    } else {
        return Err(ParseError::WrongCommand);
    };
    let r = sub_chars(c.as_slice(), k, c.len());
    assert(r@ == c@.skip(k as int));
    if r.len() == 0 {
        return Err(invalid_arguments("Examine what?"));
    }
    if !is_single_line(r.as_slice()) {
        return Err(ParseError::WrongCommand);
    }
    assert(r@.skip(1) == r@.subrange(1, r@.len() as int));
    let target = lowered_range(r.as_slice(), 1, r.len());
    if target.as_str().unicode_len() == 0 {
        return Err(invalid_arguments("Examine what?"));
    }
    Ok(Command::Examine(target))
}

/// Reads `roll <dice>` or `#<dice>`.
pub fn handle_roll(content: &str) -> (r: Result<Command, ParseError>)
    ensures
        parse_result_view(r) == parse_roll(content@),
{
    let c = chars_of(content);
    proof {
        reveal_strlit("roll");
        reveal_strlit("#");
    }
    let k: usize = if has_word(c.as_slice(), "roll") {
        4
    } else if has_prefix(c.as_slice(), "#") {
        1
    } else {
        return Err(ParseError::WrongCommand);
    };
    if !is_single_line(c.as_slice()) {
        return Err(ParseError::WrongCommand);
    }
    let body = sub_chars(c.as_slice(), k, c.len());
    assert(body@ == c@.skip(k as int));
    let roll = trim(body.as_slice());
    if roll.len() == 0 {
        return Err(invalid_arguments("Roll what?"));
    }
    Ok(Command::Roll(string_of(roll.as_slice())))
}

/// Reads a menu choice: any single line.
pub fn handle_menu(content: &str) -> (r: Result<Command, ParseError>)
    ensures
        parse_result_view(r) == parse_menu(content@),
{
    let c = chars_of(content);
    if is_single_line(c.as_slice()) {
        Ok(Command::Menu(string_of(c.as_slice())))
    } else {
        Err(ParseError::WrongCommand)
    }
}

/// Whether a reader handed the line on.
fn handed_on(r: &Result<Command, ParseError>) -> (b: bool)
    ensures
        b == (parse_result_view(*r) matches Err(ParseErrorView::WrongCommand)),
{
    match r {
        Err(ParseError::WrongCommand) => true,
        _ => false,
    }
}

/// Whether the line is a single line whose first word is one of the given
/// commands of an unwritten reader.
fn claims_unwritten(v: &[char], words: &[&str], spec_words: Ghost<Seq<Seq<char>>>) -> (r: bool)
    requires
        words@.len() == spec_words@.len(),
        forall|i: int| 0 <= i < words@.len() ==> (#[trigger] words@[i])@ == spec_words@[i],
    ensures
        r == first_word_among(v@, spec_words@),
{
    if !is_single_line(v) {
        return false;
    }
    let mut i: usize = 0;
    while i < words.len()
        invariant
            i <= words@.len() == spec_words@.len(),
            single_line(v@),
            forall|k: int| 0 <= k < words@.len() ==> (#[trigger] words@[k])@ == spec_words@[k],
            forall|k: int| 0 <= k < i ==> !word_then_space(v@, #[trigger] spec_words@[k]),
        decreases words@.len() - i,
    {
        if has_word(v, words[i]) {
            assert(word_then_space(v@, spec_words@[i as int]));
            return true;
        }
        i = i + 1;
    }
    false
}

/// The answer of an unwritten reader.
fn handle_unwritten(v: &[char], words: &[&str], spec_words: Ghost<Seq<Seq<char>>>) -> (r: Result<
    Command,
    ParseError,
>)
    requires
        words@.len() == spec_words@.len(),
        forall|i: int| 0 <= i < words@.len() ==> (#[trigger] words@[i])@ == spec_words@[i],
    ensures
        parse_result_view(r) == parse_unwritten(v@, spec_words@),
{
    if claims_unwritten(v, words, spec_words) {
        Err(ParseError::UnknownCommand)
    } else {
        Err(ParseError::WrongCommand)
    }
}

/// Reads a line of input with the readers in their order (see `parse_line`).
pub fn parse_command(content: &str, in_menu: bool) -> (r: Result<Command, ParseError>)
    ensures
        parse_result_view(r) == parse_line(content@, in_menu),
{
    if in_menu {
        let r = handle_quit(content);
        if !handed_on(&r) {
            return r;
        }
        let r = handle_menu(content);
        if !handed_on(&r) {
            return r;
        }
        return Err(ParseError::UnknownCommand);
    }
    let v = chars_of(content);
    let ghost c = content@;
    let mut i: usize = 0;
    let ghost mut gi: nat = 0;
    while i < 18
        invariant
            v@ == c,
            c == content@,
            !in_menu,
            i <= 18,
            gi == i,
            parse_from(c, 0) == parse_from(c, gi),
        decreases 18 - i,
    {
        let r = read_at(content, v.as_slice(), i);
        proof {
            assert(parse_from(c, gi) == or_else(reader(c, gi), parse_from(c, gi + 1)));
        }
        if !handed_on(&r) {
            return r;
        }
        i = i + 1;
        proof {
            gi = gi + 1;
        }
    }
    Err(ParseError::UnknownCommand)
}

/// The `i`-th reader outside a menu.
fn read_at(content: &str, v: &[char], i: usize) -> (r: Result<Command, ParseError>)
    requires
        v@ == content@,
        i < 18,
    ensures
        parse_result_view(r) == reader(content@, i as nat),
{
    if i == 0 {
        let w = ["advance", "announce"];
        handle_unwritten(v, &w, Ghost(unwritten_before_attack()))
    } else if i == 1 {
        handle_attack(content)
    } else if i == 2 {
        handle_block(content)
    } else if i == 3 {
        let w = ["chat", "novice", "close", "config", "describe"];
        handle_unwritten(v, &w, Ghost(unwritten_before_dodge()))
    } else if i == 4 {
        handle_dodge(content)
    } else if i == 5 {
        handle_drop(content)
    } else if i == 6 {
        let w = ["emote", "enter"];
        handle_unwritten(v, &w, Ghost(unwritten_before_examine()))
    } else if i == 7 {
        handle_examine(content)
    } else if i == 8 {
        handle_inventory(content)
    } else if i == 9 {
        let w = [
            "look",
            "map",
            "north",
            "south",
            "east",
            "west",
            "up",
            "down",
            "northeast",
            "northwest",
            "southeast",
            "southwest",
            "n",
            "s",
            "e",
            "w",
            "u",
            "d",
            "ne",
            "nw",
            "se",
            "sw",
            "open",
        ];
        handle_unwritten(v, &w, Ghost(unwritten_before_place()))
    } else if i == 10 {
        handle_place(content)
    } else if i == 11 {
        handle_quit(content)
    } else if i == 12 {
        handle_retreat(content)
    } else if i == 13 {
        handle_roll(content)
    } else if i == 14 {
        let w = ["say", "scan", "sit", "stand"];
        handle_unwritten(v, &w, Ghost(unwritten_before_take()))
    } else if i == 15 {
        handle_take(content)
    } else if i == 16 {
        let w = ["time", "who", "yell"];
        handle_unwritten(v, &w, Ghost(unwritten_before_skills()))
    } else {
        handle_use_skill(content)
    }
}

} // verus!
