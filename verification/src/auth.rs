//! Signing in: which names and passwords are acceptable, and the steps from
//! a new connection to a character that stands in the world.
use vstd::prelude::*;
use vstd::utf8::encode_utf8;

use crate::command::Command;
use crate::keycard::{Keycard, ADMIN, PLAYER};
use crate::models::{keycard_for, Role};
use crate::phrase::sviews;
use crate::search::{first_satisfying, lemma_first_satisfying, lemma_first_satisfying_at};
use crate::text::{ascii_lower, chars_eq, chars_of, is_white_space, is_whitespace, string_of};
use crate::world::{
    WorldStateCharacter, find_saved, first_saved, lemma_recorded_is_found, recorded, saved_view,
    saved_views,
};

verus! {

broadcast use vstd::string::group_string_axioms;

// ---------------------------------------------------------------------------
// Names and passwords.
// ---------------------------------------------------------------------------

/// The number of bytes of the UTF-8 encoding, which is what `str::len` counts.
pub open spec fn byte_len(s: Seq<char>) -> nat {
    encode_utf8(s).len()
}

/// An ASCII letter, as the class `[a-zA-Z]` matches it.
pub open spec fn ascii_letter(c: char) -> bool {
    ('a' <= c && c <= 'z') || ('A' <= c && c <= 'Z')
}

/// A non-empty run of ASCII letters.
pub open spec fn letter_word(s: Seq<char>) -> bool {
    s.len() > 0 && forall|i: int| 0 <= i < s.len() ==> ascii_letter(#[trigger] s[i])
}

/// The shape `^[a-zA-Z]+(\s[a-zA-Z]+)?$`: one word of letters, or two joined
/// by exactly one white-space character.
pub open spec fn name_shape(s: Seq<char>) -> bool {
    ||| letter_word(s)
    ||| exists|k: int|
        0 < k < s.len() && is_white_space(#[trigger] s[k]) && letter_word(s.take(k))
            && letter_word(s.skip(k + 1))
}

/// The words that no name may contain, besides the crate's standard and
/// sexual word lists.
pub open spec fn ban_list() -> Seq<Seq<char>> {
    seq!["admin"@, "mod"@, "moderator"@, "gm"@, "god"@, "immortal"@]
}

/// `word` occurs in `s` as a contiguous run.
pub open spec fn occurs_in(word: Seq<char>, s: Seq<char>) -> bool {
    exists|i: int| 0 <= i && i + word.len() <= s.len() && #[trigger] s.subrange(i, i + word.len()) == word
}

/// `s` with its ASCII upper-case letters in lower case.
pub open spec fn ascii_lowered(s: Seq<char>) -> Seq<char> {
    s.map_values(|c: char| ascii_lower(c))
}

/// What `censor::Censor::check` answers for `text`, with the crate's standard
/// and sexual word lists joined to the `custom` words.
pub uninterp spec fn censor_flags(custom: Seq<Seq<char>>, text: Seq<char>) -> bool;

/// The letters of `s`, in order: everything else left out.
pub open spec fn letters_of(s: Seq<char>) -> Seq<char> {
    s.filter(|c: char| ascii_letter(c))
}

/// `censor::Censor::check` on the union of `Censor::Standard`, `Censor::Sex`
/// and `Censor::custom(custom)`: whether `text` holds a censored word. The
/// crate lower-cases the text, drops every character that is not alphabetic,
/// and looks for each word in what is left, among other forms; so a text of
/// ASCII letters and white space whose letters, in lower case, hold one of
/// the non-empty custom words is flagged. Which other texts are flagged rests
/// on the crate's word lists, which this contract does not restate.
#[verifier::external_body]
fn censor_check(custom: &Vec<String>, text: &str) -> (r: bool)
    ensures
        r == censor_flags(sviews(custom@), text@),
        (forall|i: int| 0 <= i < text@.len() ==> ascii_letter(#[trigger] text@[i])) && (exists|
            w: int,
        |
            0 <= w < custom@.len() && custom@[w]@.len() > 0 && occurs_in(
                #[trigger] custom@[w]@,
                ascii_lowered(text@),
            )) ==> r,
        (forall|i: int|
            0 <= i < text@.len() ==> ascii_letter(#[trigger] text@[i]) || is_white_space(
                text@[i],
            )) && (exists|w: int|
            0 <= w < custom@.len() && custom@[w]@.len() > 0 && occurs_in(
                #[trigger] custom@[w]@,
                letters_of(ascii_lowered(text@)),
            )) ==> r,
{
    (censor::Censor::Standard + censor::Censor::Sex + censor::Censor::custom(custom.clone())).check(
        text,
    )
}

/// The refusal of a name that is too short or too long.
pub open spec fn name_length_error() -> Seq<char> {
    "Name must be between 3 and 25 characters."@
}

/// The refusal of a name with other characters than letters and one space.
pub open spec fn name_shape_error() -> Seq<char> {
    "Name can only contain letters and spaces."@
}

/// The refusal of a name that holds a censored word.
pub open spec fn name_banned_error() -> Seq<char> {
    "Name contains banned words."@
}

/// The refusal of a password that is too short or too long.
pub open spec fn password_length_error() -> Seq<char> {
    "Password must be between 3 and 30 characters."@
}

/// The verdict on a name: its length in bytes is checked first, then its
/// shape, then the censor's word lists.
pub open spec fn name_verdict(name: Seq<char>) -> Result<(), Seq<char>> {
    if byte_len(name) < 3 || byte_len(name) > 25 {
        Err(name_length_error())
    } else if !name_shape(name) {
        Err(name_shape_error())
    } else if censor_flags(ban_list(), name) {
        Err(name_banned_error())
    } else {
        Ok(())
    }
}

/// The verdict on a password: between 3 and 30 bytes.
pub open spec fn password_verdict(password: Seq<char>) -> Result<(), Seq<char>> {
    if 3 <= byte_len(password) <= 30 {
        Ok(())
    } else {
        Err(password_length_error())
    }
}

/// A verdict with its message taken as characters.
pub open spec fn verdict_view(r: Result<(), &str>) -> Result<(), Seq<char>> {
    match r {
        Ok(()) => Ok(()),
        Err(m) => Err(m@),
    }
}

/// Whether all characters from `from` on are ASCII letters.
fn letters_from(v: &[char], from: usize) -> (r: bool)
    requires
        from <= v@.len(),
    ensures
        r == forall|i: int| from <= i < v@.len() ==> ascii_letter(#[trigger] v@[i]),
{
    let mut i = from;
    while i < v.len()
        invariant
            from <= i <= v@.len(),
            forall|j: int| from <= j < i ==> ascii_letter(#[trigger] v@[j]),
        decreases v@.len() - i,
    {
        let c = v[i];
        if !(('a' <= c && c <= 'z') || ('A' <= c && c <= 'Z')) {
            return false;
        }
        i = i + 1;
    }
    true
}

/// Whether the characters have the shape of a name.
fn has_name_shape(v: &[char]) -> (r: bool)
    ensures
        r == name_shape(v@),
{
    let ghost s = v@;
    let mut k: usize = 0;
    while k < v.len() && (('a' <= v[k] && v[k] <= 'z') || ('A' <= v[k] && v[k] <= 'Z'))
        invariant
            k <= s.len(),
            s == v@,
            forall|j: int| 0 <= j < k ==> ascii_letter(#[trigger] s[j]),
        decreases s.len() - k,
    {
        k = k + 1;
    }
    if k == v.len() {
        assert(letter_word(s) == (s.len() > 0));
        if k == 0 {
            assert(!letter_word(s));
            assert(!name_shape(s));
        }
        return k > 0;
    }
    // `k` is the first character that is not a letter.
    assert(!ascii_letter(s[k as int]));
    assert(!letter_word(s));
    let rest = letters_from(v, k + 1);
    let r = k > 0 && is_whitespace(v[k]) && k + 1 < v.len() && rest;
    proof {
        if r {
            assert(letter_word(s.take(k as int)));
            assert(letter_word(s.skip(k + 1)));
            assert(is_white_space(s[k as int]));
        } else if name_shape(s) {
            let k2 = choose|k2: int|
                0 < k2 < s.len() && is_white_space(#[trigger] s[k2]) && letter_word(s.take(k2))
                    && letter_word(s.skip(k2 + 1));
            if k2 < k {
                assert(ascii_letter(s[k2]));
                assert(!is_white_space(s[k2]));
            } else if k2 > k {
                assert(s.take(k2)[k as int] == s[k as int]);
            } else {
                assert forall|j: int| k + 1 <= j < s.len() implies ascii_letter(s[j]) by {
                    assert(s.skip(k + 1)[j - k - 1] == s[j]);
                }
            }
        }
    }
    r
}

/// Each character of a name of the right shape is a letter or white space.
proof fn lemma_name_shape_chars(s: Seq<char>)
    requires
        name_shape(s),
    ensures
        forall|i: int| 0 <= i < s.len() ==> ascii_letter(#[trigger] s[i]) || is_white_space(s[i]),
{
    if !letter_word(s) {
        let k = choose|k: int|
            0 < k < s.len() && is_white_space(#[trigger] s[k]) && letter_word(s.take(k))
                && letter_word(s.skip(k + 1));
        assert forall|i: int| 0 <= i < s.len() implies ascii_letter(#[trigger] s[i])
            || is_white_space(s[i]) by {
            if i < k {
                assert(s.take(k)[i] == s[i]);
            } else if i > k {
                assert(s.skip(k + 1)[i - k - 1] == s[i]);
            }
        }
    }
}

/// Whether a name is acceptable; if not, the message that says why.
pub fn name_is_valid(name: &str) -> (r: Result<(), &'static str>)
    ensures
        verdict_view(r) == name_verdict(name@),
        // A name of letters alone that holds a banned word is refused.
        3 <= byte_len(name@) <= 25 && letter_word(name@) && (exists|w: int|
            0 <= w < ban_list().len() && occurs_in(
                #[trigger] ban_list()[w],
                ascii_lowered(name@),
            )) ==> verdict_view(r) == Err::<(), Seq<char>>(name_banned_error()),
        // A name of the right length and shape whose letters hold a banned
        // word is refused, whatever white space stands between them.
        3 <= byte_len(name@) <= 25 && name_shape(name@) && (exists|w: int|
            0 <= w < ban_list().len() && occurs_in(
                #[trigger] ban_list()[w],
                letters_of(ascii_lowered(name@)),
            )) ==> verdict_view(r) == Err::<(), Seq<char>>(name_banned_error()),
{
    let n = name.as_bytes().len();
    if n < 3 || n > 25 {
        return Err("Name must be between 3 and 25 characters.");
    }
    let v = crate::text::chars_of(name);
    if !has_name_shape(v.as_slice()) {
        return Err("Name can only contain letters and spaces.");
    }
    let mut ban: Vec<String> = Vec::new();
    ban.push(String::from_str("admin"));
    ban.push(String::from_str("mod"));
    ban.push(String::from_str("moderator"));
    ban.push(String::from_str("gm"));
    ban.push(String::from_str("god"));
    ban.push(String::from_str("immortal"));
    assert(sviews(ban@) =~= ban_list());
    proof {
        reveal_strlit("admin");
        reveal_strlit("mod");
        reveal_strlit("moderator");
        reveal_strlit("gm");
        reveal_strlit("god");
        reveal_strlit("immortal");
        assert forall|w: int| 0 <= w < ban@.len() implies ban@[w]@ == ban_list()[w] && ban@[w]@.len() > 0 by {
            assert(sviews(ban@)[w] == ban@[w]@);
        }
    }
    proof {
        lemma_name_shape_chars(name@);
    }
    if censor_check(&ban, name) {
        return Err("Name contains banned words.");
    }
    Ok(())
}

/// Whether a password is acceptable; if not, the message that says why.
pub fn password_is_valid(password: &str) -> (r: Result<(), &'static str>)
    ensures
        verdict_view(r) == password_verdict(password@),
{
    let n = password.as_bytes().len();
    if n >= 3 && n <= 30 {
        Ok(())
    } else {
        Err("Password must be between 3 and 30 characters.")
    }
}

// ---------------------------------------------------------------------------
// The sign-in conversation.
// ---------------------------------------------------------------------------

/// Telnet "interpret as command".
pub const IAC: u8 = 255;

/// Telnet WILL.
pub const WILL: u8 = 251;

/// Telnet WONT.
pub const WONT: u8 = 252;

/// Telnet DO.
pub const DO: u8 = 253;

/// The telnet option by which the server, not the client, echoes input.
pub const ECHO: u8 = 1;

/// The telnet option by which the client tells its window size.
pub const NAWS: u8 = 31;

/// The telnet option for the generic MUD communication protocol.
pub const GMCP: u8 = 201;

/// Where a connection stands in signing in.
#[derive(Clone, Copy, Debug, PartialEq, Eq, Structural)]
pub enum AuthState {
    /// Waiting for the client to send its name.
    Name,
    /// Waiting for the client to send its password.
    Password,
    /// Input is ignored until the lookup under way has answered.
    AwaitingTaskCompletion,
}

/// A connection that is signing in.
pub struct Authenticating {
    pub state: AuthState,
    pub name: String,
}

impl Default for Authenticating {
    fn default() -> (r: Self)
        ensures
            r.state == AuthState::Name,
            r.name@ == Seq::<char>::empty(),
    {
        Authenticating { state: AuthState::Name, name: String::new() }
    }
}

/// What the server does with one line of input from a connection that signs in.
pub enum AuthAction {
    /// Sends this text back.
    Reply(String),
    /// Asks the database whether a character of this name exists.
    LookUpName(String),
    /// Asks the database for the character of this name and checks the password.
    CheckPassword { name: String, password: String },
    /// Does nothing.
    Ignore,
}

/// An error as the client sees it: in red.
pub open spec fn error_markup(e: Seq<char>) -> Seq<char> {
    "<fg.red>"@ + e + "</>"@
}

/// The red markup around an error message.
fn painted_error(e: &str) -> (r: String)
    ensures
        r@ == error_markup(e@),
{
    let mut t = String::from_str("<fg.red>");
    t.append(e);
    t.append("</>");
    t
}

/// Handles one line of input from a connection that signs in: a name while
/// one is awaited, a password while one is awaited, and nothing while the
/// database is being asked.
pub fn authenticate(auth: &mut Authenticating, content: &str) -> (r: AuthAction)
    ensures
        match old(auth).state {
            AuthState::Name => match name_verdict(content@) {
                Err(e) => r matches AuthAction::Reply(t) && t@ == error_markup(e) && *final(auth)
                    == *old(auth),
                Ok(()) => r matches AuthAction::LookUpName(n) && n@ == content@ && final(auth).state
                    == AuthState::AwaitingTaskCompletion && final(auth).name@ == content@,
            },
            AuthState::Password => match password_verdict(content@) {
                Err(e) => r matches AuthAction::Reply(t) && t@ == error_markup(e) && *final(auth)
                    == *old(auth),
                Ok(()) => r matches AuthAction::CheckPassword { name, password } && name@ == old(
                    auth,
                ).name@ && password@ == content@ && final(auth).state
                    == AuthState::AwaitingTaskCompletion && final(auth).name == old(auth).name,
            },
            AuthState::AwaitingTaskCompletion => r is Ignore && *final(auth) == *old(auth),
        },
{
    match auth.state {
        AuthState::Name => {
            match name_is_valid(content) {
                Err(e) => AuthAction::Reply(painted_error(e)),
                Ok(()) => {
                    auth.name = String::from_str(content);
                    auth.state = AuthState::AwaitingTaskCompletion;
                    AuthAction::LookUpName(String::from_str(content))
                },
            }
        },
        AuthState::Password => {
            match password_is_valid(content) {
                Err(e) => AuthAction::Reply(painted_error(e)),
                Ok(()) => {
                    auth.state = AuthState::AwaitingTaskCompletion;
                    AuthAction::CheckPassword {
                        name: auth.name.clone(),
                        password: String::from_str(content),
                    }
                },
            }
        },
        AuthState::AwaitingTaskCompletion => AuthAction::Ignore,
    }
}

/// What the server says once it knows whether the name is taken.
pub open spec fn greeting(name: Seq<char>, exists: bool) -> Seq<char> {
    if exists {
        "Hail, "@ + name + "! What is the secret word you keep?"@
    } else {
        "Hail, "@ + name + ". Set for yourself a word of secrecy."@
    }
}

/// Once the database has said whether a character of the chosen name
/// exists: the password is awaited, the client is told to stop echoing what
/// is typed, and is greeted as an old or a new character.
pub fn handle_user_exists_task(auth: &mut Authenticating, exists: bool) -> (r: (Vec<u8>, String))
    ensures
        final(auth).state == AuthState::Password,
        final(auth).name == old(auth).name,
        r.0@ == seq![IAC, WILL, ECHO],
        r.1@ == greeting(old(auth).name@, exists),
{
    auth.state = AuthState::Password;
    let mut t = String::from_str("Hail, ");
    t.append(auth.name.as_str());
    if exists {
        t.append("! What is the secret word you keep?");
    } else {
        t.append(". Set for yourself a word of secrecy.");
    }
    (vec![IAC, WILL, ECHO], t)
}

// ---------------------------------------------------------------------------
// Passwords, by the `bcrypt` crate.
// ---------------------------------------------------------------------------

#[verifier::external_type_specification]
#[verifier::external_body]
pub struct ExBcryptError(bcrypt::BcryptError);

/// What `bcrypt::verify` answers for a password and a stored hash: its
/// verdict, or `None` where it fails on a malformed hash.
pub uninterp spec fn bcrypt_verdict(password: Seq<char>, hash: Seq<char>) -> Option<bool>;

/// `bcrypt::verify`: hashes the password again with the cost and salt that
/// the stored hash records, and compares the two.
#[verifier::external_body]
fn bcrypt_verify(password: &str, hash: &str) -> (r: Result<bool, bcrypt::BcryptError>)
    ensures
        match r {
            Ok(b) => bcrypt_verdict(password@, hash@) == Some(b),
            Err(_) => bcrypt_verdict(password@, hash@) is None,
        },
{
    bcrypt::verify(password, hash)
}

/// `bcrypt::hash` with `bcrypt::DEFAULT_COST`: hashes the password with a
/// fresh random salt. The salt and so the hash are left unsaid; what the
/// crate's source shows is that `bcrypt::verify` accepts the same password
/// against the hash it returns.
#[verifier::external_body]
fn bcrypt_hash(password: &str) -> (r: Result<String, bcrypt::BcryptError>)
    ensures
        r matches Ok(h) ==> bcrypt_verdict(password@, h@) == Some(true),
{
    bcrypt::hash(password, bcrypt::DEFAULT_COST)
}

/// The verdict on a password, given what is stored of the character.
pub enum Credentials {
    /// The password matches the stored hash.
    Accepted,
    /// The password does not match, or could not be checked or hashed.
    Rejected,
    /// No character has this name: one is to be created with this hash.
    Register(String),
}

/// A verdict on a password as plain values.
pub enum CredentialsView {
    Accepted,
    Rejected,
    Register(Seq<char>),
}

/// A verdict on a password as plain values.
pub open spec fn credentials_view(c: Credentials) -> CredentialsView {
    match c {
        Credentials::Accepted => CredentialsView::Accepted,
        Credentials::Rejected => CredentialsView::Rejected,
        Credentials::Register(h) => CredentialsView::Register(h@),
    }
}

/// The verdicts that checking a password may give: against a stored hash, acceptance
/// exactly when bcrypt accepts the password; without one, a hash that bcrypt
/// accepts the password against, or a rejection where hashing failed.
pub open spec fn credentials_allowed(
    password: Seq<char>,
    stored: Option<Seq<char>>,
    r: CredentialsView,
) -> bool {
    match stored {
        Some(h) => r == if bcrypt_verdict(password, h) == Some(true) {
            CredentialsView::Accepted
        } else {
            CredentialsView::Rejected
        },
        None => r is Rejected || (r matches CredentialsView::Register(hash) && bcrypt_verdict(
            password,
            hash,
        ) == Some(true)),
    }
}

/// Checks a password against the hash stored for the character, or hashes
/// it for a character that does not exist yet. A failure of the comparison is a
/// rejection; a failure of the hashing too.
pub fn check_credentials(password: &str, stored_hash: Option<&str>) -> (r: Credentials)
    ensures
        credentials_allowed(
            password@,
            match stored_hash {
                Some(h) => Some(h@),
                None => None,
            },
            credentials_view(r),
        ),
{
    match stored_hash {
        Some(h) => match bcrypt_verify(password, h) {
            Ok(true) => Credentials::Accepted,
            _ => Credentials::Rejected,
        },
        None => match bcrypt_hash(password) {
            Ok(hash) => Credentials::Register(hash),
            Err(_) => Credentials::Rejected,
        },
    }
}

/// A character registered with a password is let in with that password: the
/// check against the hash that registration stored accepts it.
pub proof fn lemma_registered_password_is_accepted(
    password: Seq<char>,
    hash: Seq<char>,
    later: CredentialsView,
)
    requires
        credentials_allowed(password, None, CredentialsView::Register(hash)),
        credentials_allowed(password, Some(hash), later),
    ensures
        later == CredentialsView::Accepted,
{
}

// ---------------------------------------------------------------------------
// Entering the world.
// ---------------------------------------------------------------------------

/// What is read of a character from the database.
pub struct CharacterRecord {
    pub id: i64,
    pub name: String,
    pub role: Role,
}

/// A character that is online, and the client it plays through.
pub struct OnlineCharacter {
    pub client: u64,
    pub character: i64,
}

/// A tile of the world, by its entity and name.
pub struct TileEntry {
    pub entity: u64,
    pub name: String,
}

/// Where a character that enters the world is put, and the items that are
/// spawned into its inventory.
pub struct Arrival {
    pub tile: u64,
    pub inventory: Vec<String>,
}

/// What happens when a character signs in.
pub struct Admission {
    /// The keycard of the character's role.
    pub keycard: Keycard,
    /// The client of another session of the same character, to disconnect.
    pub displaced: Option<u64>,
    /// What the new client is told about that other session.
    pub notice: Option<String>,
    /// Where the character enters; without a spawn tile it does not enter,
    /// and nothing further is sent.
    pub arrival: Option<Arrival>,
    /// The telnet command by which the client echoes its input again.
    pub echo: Vec<u8>,
    /// The welcome.
    pub welcome: String,
    /// The command carried out on the character's behalf once it has
    /// entered: it looks around (sent, like the welcome, only on arrival).
    pub proxy: Command,
}

/// The end of signing in.
pub enum LoginOutcome {
    /// The password was wrong: this text is sent and the password awaited again.
    Refused(String),
    Admitted(Admission),
}

/// The suffix that the world gives the names of things spawned from prototypes.
pub open spec fn prototype_suffix() -> Seq<char> {
    " (Prototype)"@
}

/// `s` with every trailing repetition of `suffix` removed, as
/// `str::trim_end_matches` does.
pub open spec fn strip_suffixes(s: Seq<char>, suffix: Seq<char>) -> Seq<char>
    decreases s.len(),
{
    if 0 < suffix.len() <= s.len() && s.subrange(s.len() - suffix.len(), s.len() as int)
        == suffix {
        strip_suffixes(s.take(s.len() - suffix.len()), suffix)
    } else {
        s
    }
}

/// A name without the prototype suffix.
pub open spec fn prototype_name(s: Seq<char>) -> Seq<char> {
    strip_suffixes(s, prototype_suffix())
}

/// The tile whose name is the saved tile name, both without the prototype suffix.
pub open spec fn saved_tile(tiles: Seq<TileEntry>, name: Seq<char>) -> Option<int> {
    first_satisfying(tiles, |t: TileEntry| prototype_name(t.name@) == prototype_name(name))
}

/// The first online session of a character.
pub open spec fn online_session(online: Seq<OnlineCharacter>, id: i64) -> Option<int> {
    first_satisfying(online, |o: OnlineCharacter| o.character == id)
}

/// The notice that another session of the character will be closed.
pub open spec fn displaced_notice(name: Seq<char>) -> Seq<char> {
    "<fg.player>"@ + name + "</> is already online and will be disconnected."@
}

/// The keycard of a role.
pub open spec fn role_permissions(role: Role) -> u32 {
    match role {
        Role::Admin => ADMIN,
        Role::Player => PLAYER,
    }
}

/// Where a character arrives: the tile it was saved on when that tile still
/// exists, else the spawn tile; with the items it was saved with.
pub open spec fn arrival_matches(
    arrival: Arrival,
    id: i64,
    saved: Seq<WorldStateCharacter>,
    tiles: Seq<TileEntry>,
    spawn: u64,
) -> bool {
    match first_saved(saved_views(saved), id) {
        Some(k) => {
            &&& arrival.tile == match saved_tile(tiles, saved[k].tile@) {
                Some(t) => tiles[t].entity,
                None => spawn,
            }
            &&& sviews(arrival.inventory@) == sviews(saved[k].inventory@).map_values(
                |n: Seq<char>| prototype_name(n),
            )
        },
        None => arrival.tile == spawn && arrival.inventory@.len() == 0,
    }
}

/// Whether the characters of `v` end at `j` with `suffix`.
fn ends_at(v: &[char], j: usize, suffix: &[char]) -> (r: bool)
    requires
        j <= v@.len(),
    ensures
        r == (suffix@.len() <= j && v@.subrange(j - suffix@.len(), j as int) == suffix@),
{
    let n = suffix.len();
    if n > j {
        return false;
    }
    let start = j - n;
    let mut i: usize = 0;
    while i < n
        invariant
            n == suffix@.len() <= j <= v@.len(),
            start == j - n,
            i <= n,
            forall|k: int| 0 <= k < i ==> v@[start + k] == suffix@[k],
        decreases n - i,
    {
        if v[start + i] != suffix[i] {
            assert(v@.subrange(start as int, j as int)[i as int] != suffix@[i as int]);
            return false;
        }
        i = i + 1;
    }
    assert(v@.subrange(start as int, j as int) =~= suffix@);
    true
}

/// A name without the prototype suffix.
fn without_prototype_suffix(name: &str) -> (r: String)
    ensures
        r@ == prototype_name(name@),
{
    let v = chars_of(name);
    let suffix = chars_of(" (Prototype)");
    let n = suffix.len();
    let mut j: usize = v.len();
    proof {
        assert(v@.take(j as int) == v@);
    }
    while n > 0 && ends_at(v.as_slice(), j, suffix.as_slice())
        invariant
            j <= v@.len(),
            n == suffix@.len(),
            suffix@ == prototype_suffix(),
            strip_suffixes(v@.take(j as int), suffix@) == strip_suffixes(v@, suffix@),
        decreases j,
    {
        proof {
            let t = v@.take(j as int);
            assert(t.subrange(t.len() - n, t.len() as int) == v@.subrange(j - n, j as int));
            assert(t.take(t.len() - n) == v@.take(j - n));
        }
        j = j - n;
    }
    proof {
        let t = v@.take(j as int);
        if n <= j {
            assert(t.subrange(t.len() - n, t.len() as int) =~= v@.subrange(j - n, j as int));
        }
        assert(strip_suffixes(t, suffix@) == t);
    }
    string_of(crate::text::sub_chars(v.as_slice(), 0, j).as_slice())
}

/// The names of the saved items without the prototype suffix.
fn item_prototypes(items: &Vec<String>) -> (r: Vec<String>)
    ensures
        sviews(r@) == sviews(items@).map_values(|n: Seq<char>| prototype_name(n)),
{
    let mut r: Vec<String> = Vec::new();
    let mut i: usize = 0;
    while i < items.len()
        invariant
            i <= items@.len(),
            sviews(r@) == sviews(items@.take(i as int)).map_values(
                |n: Seq<char>| prototype_name(n),
            ),
        decreases items@.len() - i,
    {
        let name = without_prototype_suffix(items[i].as_str());
        let ghost before = r@;
        r.push(name);
        proof {
            let f = |n: Seq<char>| prototype_name(n);
            assert(items@.take(i + 1) == items@.take(i as int).push(items@[i as int]));
            assert(sviews(r@) =~= sviews(before).push(name@));
            assert(sviews(items@.take(i + 1)) =~= sviews(items@.take(i as int)).push(
                items@[i as int]@,
            ));
            assert(sviews(items@.take(i + 1)).map_values(f) =~= sviews(
                items@.take(i as int),
            ).map_values(f).push(f(items@[i as int]@)));
        }
        i = i + 1;
    }
    assert(items@.take(items@.len() as int) == items@);
    r
}

/// Finds the tile that a saved tile name stands for.
fn find_saved_tile(tiles: &[TileEntry], name: &str) -> (r: Option<usize>)
    ensures
        match r {
            Some(i) => saved_tile(tiles@, name@) == Some(i as int),
            None => saved_tile(tiles@, name@) is None,
        },
{
    let ghost p = |t: TileEntry| prototype_name(t.name@) == prototype_name(name@);
    let wanted = chars_of(without_prototype_suffix(name).as_str());
    let mut i: usize = 0;
    while i < tiles.len()
        invariant
            i <= tiles@.len(),
            wanted@ == prototype_name(name@),
            p == (|t: TileEntry| prototype_name(t.name@) == prototype_name(name@)),
            forall|j: int| #![trigger tiles@[j]] 0 <= j < i ==> !p(tiles@[j]),
        decreases tiles@.len() - i,
    {
        let here = chars_of(without_prototype_suffix(tiles[i].name.as_str()).as_str());
        if chars_eq(here.as_slice(), wanted.as_slice()) {
            proof {
                lemma_first_satisfying_at(tiles@, p, i as int);
            }
            return Some(i);
        }
        i = i + 1;
    }
    proof {
        lemma_first_satisfying(tiles@, p);
    }
    None
}

/// Finds the online session of a character.
fn find_online(online: &[OnlineCharacter], id: i64) -> (r: Option<usize>)
    ensures
        match r {
            Some(i) => online_session(online@, id) == Some(i as int),
            None => online_session(online@, id) is None,
        },
{
    let ghost p = |o: OnlineCharacter| o.character == id;
    let mut i: usize = 0;
    while i < online.len()
        invariant
            i <= online@.len(),
            p == (|o: OnlineCharacter| o.character == id),
            forall|j: int| #![trigger online@[j]] 0 <= j < i ==> !p(online@[j]),
        decreases online@.len() - i,
    {
        if online[i].character == id {
            proof {
                lemma_first_satisfying_at(online@, p, i as int);
            }
            return Some(i);
        }
        i = i + 1;
    }
    proof {
        lemma_first_satisfying(online@, p);
    }
    None
}

/// Ends signing in once the database has answered: without a character the
/// password was wrong and is awaited again; with one, any other session of
/// the character is closed, the character gets the keycard of its role and
/// enters on the tile it was saved on (or the spawn tile) with the items it
/// was saved with, and is welcomed.
pub fn handle_authenticate_task(
    auth: &mut Authenticating,
    character: Option<CharacterRecord>,
    online: &[OnlineCharacter],
    saved: &[WorldStateCharacter],
    tiles: &[TileEntry],
    spawn: Option<u64>,
) -> (r: LoginOutcome)
    ensures
        match character {
            None => {
                &&& r matches LoginOutcome::Refused(t) && t@
                    == "The secret word you have given is not the right one."@
                &&& final(auth).state == AuthState::Password
                &&& final(auth).name == old(auth).name
            },
            Some(c) => {
                &&& *final(auth) == *old(auth)
                &&& r matches LoginOutcome::Admitted(a)
                &&& a.keycard@ == role_permissions(c.role)
                &&& match online_session(online@, c.id) {
                    Some(i) => a.displaced == Some(online@[i].client) && (a.notice matches Some(n)
                        && n@ == displaced_notice(c.name@)),
                    None => a.displaced is None && a.notice is None,
                }
                &&& match spawn {
                    None => a.arrival is None,
                    Some(sp) => (a.arrival matches Some(arr) && arrival_matches(
                        arr,
                        c.id,
                        saved@,
                        tiles@,
                        sp,
                    )),
                }
                &&& a.echo@ == seq![IAC, WONT, ECHO]
                &&& a.welcome@ == "May your journey here be prosperous."@
                &&& a.proxy matches Command::Look(None)
            },
        },
{
    match character {
        None => {
            auth.state = AuthState::Password;
            LoginOutcome::Refused(
                String::from_str("The secret word you have given is not the right one."),
            )
        },
        Some(c) => {
            let found = find_online(online, c.id);
            proof {
                lemma_first_satisfying(online@, |o: OnlineCharacter| o.character == c.id);
            }
            let (displaced, notice) = match found {
                Some(i) => {
                    let mut t = String::from_str("<fg.player>");
                    t.append(c.name.as_str());
                    t.append("</> is already online and will be disconnected.");
                    (Some(online[i].client), Some(t))
                },
                None => (None, None),
            };
            let keycard = keycard_for(c.role);
            let arrival = match spawn {
                None => None,
                Some(sp) => {
                    proof {
                        crate::world::lemma_first_saved(saved_views(saved@), c.id);
                    }
                    match find_saved(saved, c.id) {
                        Some(k) => {
                            let found_tile = find_saved_tile(tiles, saved[k].tile.as_str());
                            proof {
                                lemma_first_satisfying(
                                    tiles@,
                                    |t: TileEntry| prototype_name(t.name@) == prototype_name(
                                        saved@[k as int].tile@,
                                    ),
                                );
                            }
                            let tile = match found_tile {
                                Some(t) => tiles[t].entity,
                                None => sp,
                            };
                            Some(Arrival { tile, inventory: item_prototypes(&saved[k].inventory) })
                        },
                        None => Some(Arrival { tile: sp, inventory: Vec::new() }),
                    }
                },
            };
            LoginOutcome::Admitted(
                Admission {
                    keycard,
                    displaced,
                    notice,
                    arrival,
                    echo: vec![IAC, WONT, ECHO],
                    welcome: String::from_str("May your journey here be prosperous."),
                    proxy: Command::Look(None),
                },
            )
        },
    }
}

/// A character whose state was recorded when it left enters, when it signs
/// in again, on the tile it left from if that tile still exists (else on the
/// spawn tile), carrying the items it carried, by their prototype names.
pub proof fn lemma_return_where_left(
    before: Seq<WorldStateCharacter>,
    state: WorldStateCharacter,
    after: Seq<WorldStateCharacter>,
    tiles: Seq<TileEntry>,
    spawn: u64,
    arrival: Arrival,
)
    requires
        saved_views(after) == recorded(saved_views(before), saved_view(state)),
        arrival_matches(arrival, state.id, after, tiles, spawn),
    ensures
        arrival.tile == match saved_tile(tiles, state.tile@) {
            Some(t) => tiles[t].entity,
            None => spawn,
        },
        sviews(arrival.inventory@) == sviews(state.inventory@).map_values(
            |n: Seq<char>| prototype_name(n),
        ),
{
    lemma_recorded_is_found(saved_views(before), saved_view(state));
    let i = first_saved(saved_views(after), state.id)->0;
    crate::world::lemma_first_saved(saved_views(after), state.id);
    assert(saved_views(after)[i] == saved_view(after[i]));
    assert(after[i].tile@ == state.tile@);
    assert(sviews(after[i].inventory@) =~= sviews(state.inventory@)) by {
        assert(after[i].inventory@.map_values(|s: String| s@) == state.inventory@.map_values(
            |s: String| s@,
        ));
    }
}

} // verus!
