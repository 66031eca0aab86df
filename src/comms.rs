use vstd::prelude::*;

use crate::enums::{lower_of, Action, PlayerDirection, ServerState};
use crate::structs::{
    Color, LastObservation, Scoreboard, ServerChangeName, ServerDamage, ServerGameStatus, ServerHit,
    ServerNotification, ServerObservation, ServerPlayer, ServerPlayerLeft, ServerPlayerNew, ServerScoreboard,
    ServerStatus,
};
use crate::text::{
    chars_of, lemma_pieces_len, pieces, range_texts, ranges_within, split_ranges, str_eq, trim_range, trim_set,
};

verus! {

/// Commands sent to the game server.
#[derive(Debug, PartialEq, Eq, Structural, Clone, Copy)]
pub enum ServerCommand {
    FORWARD,
    BACKWARD,
    LEFT,
    RIGHT,
    GET,
    SHOOT,
    OBSERVATION,
    GAMESTATUS,
    USERSTATUS,
    SCOREBOARD,
    GOODBYE,
    NAME,
    SAY,
    COLOR,
    NOTHING,
}

/// A command for the server, with its text argument when it takes one.
#[derive(Debug, Clone)]
pub struct SendCommand {
    pub command: ServerCommand,
    pub attr: Option<String>,
}

/// The command that carries out an action.
pub open spec fn command_of(a: Action) -> ServerCommand {
    match a {
        Action::FRONT => ServerCommand::FORWARD,
        Action::BACK => ServerCommand::BACKWARD,
        Action::LEFT => ServerCommand::LEFT,
        Action::RIGHT => ServerCommand::RIGHT,
        Action::GET => ServerCommand::GET,
        Action::SHOOT => ServerCommand::SHOOT,
        Action::NOTHING => ServerCommand::NOTHING,
    }
}

/// The wire text of a command without argument.
pub open spec fn plain_text(c: ServerCommand) -> Seq<char> {
    match c {
        ServerCommand::FORWARD => "w"@,
        ServerCommand::BACKWARD => "s"@,
        ServerCommand::LEFT => "a"@,
        ServerCommand::RIGHT => "d"@,
        ServerCommand::GET => "t"@,
        ServerCommand::SHOOT => "e"@,
        ServerCommand::OBSERVATION => "o"@,
        ServerCommand::GAMESTATUS => "g"@,
        ServerCommand::USERSTATUS => "q"@,
        ServerCommand::SCOREBOARD => "u"@,
        ServerCommand::GOODBYE => "quit"@,
        _ => Seq::empty(),
    }
}

/// The command takes a text argument.
pub open spec fn takes_attr(c: ServerCommand) -> bool {
    c == ServerCommand::NAME || c == ServerCommand::SAY || c == ServerCommand::COLOR
}

/// The wire prefix of a command with argument.
pub open spec fn attr_prefix(c: ServerCommand) -> Seq<char> {
    match c {
        ServerCommand::NAME => "name;"@,
        ServerCommand::SAY => "say;"@,
        _ => "color;"@,
    }
}

impl SendCommand {
    /// The command that carries out `action`.
    pub fn from_action(action: &Action) -> (r: SendCommand)
        ensures
            r.command == command_of(*action),
            r.attr is None,
    {
        let command = match action {
            Action::FRONT => ServerCommand::FORWARD,
            Action::BACK => ServerCommand::BACKWARD,
            Action::LEFT => ServerCommand::LEFT,
            Action::RIGHT => ServerCommand::RIGHT,
            Action::GET => ServerCommand::GET,
            Action::SHOOT => ServerCommand::SHOOT,
            Action::NOTHING => ServerCommand::NOTHING,
        };
        SendCommand { command, attr: None }
    }

    /// The line sent to the server for this command, without its newline:
    /// a letter for moves and requests, `quit` to leave, and `name;X`,
    /// `say;X` or `color;X` for the commands that carry text `X`. `NOTHING`
    /// sends nothing, which reads as an empty line. `None` when a command
    /// that needs text carries none.
    pub fn wire_text(&self) -> (r: Option<String>)
        ensures
            takes_attr(self.command) ==> (r is None <==> self.attr is None),
            takes_attr(self.command) && self.attr is Some ==> r.unwrap()@ == attr_prefix(self.command) + self.attr.unwrap()@,
            !takes_attr(self.command) ==> r is Some && r.unwrap()@ == plain_text(self.command),
    {
        let plain: &'static str = match self.command {
            ServerCommand::FORWARD => "w",
            ServerCommand::BACKWARD => "s",
            ServerCommand::LEFT => "a",
            ServerCommand::RIGHT => "d",
            ServerCommand::GET => "t",
            ServerCommand::SHOOT => "e",
            ServerCommand::OBSERVATION => "o",
            ServerCommand::GAMESTATUS => "g",
            ServerCommand::USERSTATUS => "q",
            ServerCommand::SCOREBOARD => "u",
            ServerCommand::GOODBYE => "quit",
            ServerCommand::NAME => "name;",
            ServerCommand::SAY => "say;",
            ServerCommand::COLOR => "color;",
            ServerCommand::NOTHING => "",
        };
        proof { reveal_strlit(""); }
        match self.command {
            ServerCommand::NAME | ServerCommand::SAY | ServerCommand::COLOR => match &self.attr {
                Some(a) => {
                    let s = String::from_str(plain);
                    Some(s.concat(a.as_str()))
                },
                None => None,
            },
            _ => Some(String::from_str(plain)),
        }
    }
}

/// A message received from the server.
#[derive(Debug)]
pub enum RecvCommand {
    Observations(ServerObservation),
    Status(ServerStatus),
    Player(ServerPlayer),
    GameStatus(ServerGameStatus),
    Scoreboard(ServerScoreboard),
    Notification(ServerNotification),
    PlayerNew(ServerPlayerNew),
    PlayerLeft(ServerPlayerLeft),
    ChangeName(ServerChangeName),
    Hit(ServerHit),
    Damage(ServerDamage),
    Invalid(String),
}

/// Every character of `s` is an ASCII digit.
pub open spec fn all_digits(s: Seq<char>) -> bool {
    forall|i: int| 0 <= i < s.len() ==> '0' <= #[trigger] s[i] && s[i] <= '9'
}

/// The number written by the ASCII digits `s`.
pub open spec fn digits_value(s: Seq<char>) -> int
    decreases s.len(),
{
    if s.len() == 0 {
        0
    } else {
        digits_value(s.drop_last()) * 10 + (s.last() as int - '0' as int)
    }
}

/// The integer written by `s`: an optional `+` or `-`, then one or more
/// ASCII digits; `None` for any other text.
pub open spec fn spec_decimal(s: Seq<char>) -> Option<int> {
    if s.len() > 0 && (s[0] == '+' || s[0] == '-') {
        let t = s.drop_first();
        if t.len() > 0 && all_digits(t) {
            Some(if s[0] == '-' { -digits_value(t) } else { digits_value(t) })
        } else {
            None
        }
    } else if s.len() > 0 && all_digits(s) {
        Some(digits_value(s))
    } else {
        None
    }
}

/// The integer written by `s` when it lies in `lo..=hi`, else `dflt`.
pub open spec fn read_or(s: Seq<char>, lo: int, hi: int, dflt: int) -> int {
    match spec_decimal(s) {
        Some(v) => if lo <= v <= hi { v } else { dflt },
        None => dflt,
    }
}

/// The `i8` written by `s`, if it is a decimal integer within range.
pub open spec fn decimal_i8(s: Seq<char>) -> Option<i8> {
    match spec_decimal(s) {
        Some(v) => if i8::MIN <= v <= i8::MAX { Some(v as i8) } else { None },
        None => None,
    }
}

/// Relies on `str::parse::<i8>`: an optional sign and decimal digits whose
/// value fits; `None` for any other text.
#[verifier::external_body]
fn parse_i8(s: &str) -> (r: Option<i8>)
    ensures
        r == decimal_i8(s@),
{
    s.parse::<i8>().ok()
}

/// The `i16` written by `s`, if it is a decimal integer within range.
pub open spec fn decimal_i16(s: Seq<char>) -> Option<i16> {
    match spec_decimal(s) {
        Some(v) => if i16::MIN <= v <= i16::MAX { Some(v as i16) } else { None },
        None => None,
    }
}

/// Relies on `str::parse::<i16>`: an optional sign and decimal digits whose
/// value fits; `None` for any other text.
#[verifier::external_body]
fn parse_i16(s: &str) -> (r: Option<i16>)
    ensures
        r == decimal_i16(s@),
{
    s.parse::<i16>().ok()
}

/// The `i32` written by `s`, if it is a decimal integer within range.
pub open spec fn decimal_i32(s: Seq<char>) -> Option<i32> {
    match spec_decimal(s) {
        Some(v) => if i32::MIN <= v <= i32::MAX { Some(v as i32) } else { None },
        None => None,
    }
}

/// Relies on `str::parse::<i32>`: an optional sign and decimal digits whose
/// value fits; `None` for any other text.
#[verifier::external_body]
fn parse_i32(s: &str) -> (r: Option<i32>)
    ensures
        r == decimal_i32(s@),
{
    s.parse::<i32>().ok()
}

/// The `i64` written by `s`, if it is a decimal integer within range.
pub open spec fn decimal_i64(s: Seq<char>) -> Option<i64> {
    match spec_decimal(s) {
        Some(v) => if i64::MIN <= v <= i64::MAX { Some(v as i64) } else { None },
        None => None,
    }
}

/// Relies on `str::parse::<i64>`: an optional sign and decimal digits whose
/// value fits; `None` for any other text.
#[verifier::external_body]
fn parse_i64(s: &str) -> (r: Option<i64>)
    ensures
        r == decimal_i64(s@),
{
    s.parse::<i64>().ok()
}

/// The text `s` without the whitespace at either end, as `str::trim` gives it.
pub uninterp spec fn trimmed(s: Seq<char>) -> Seq<char>;

/// Relies on `str::trim`: the result depends on the characters alone.
#[verifier::external_body]
fn trim_whitespace(s: &str) -> (r: String)
    ensures
        r@ == trimmed(s@),
{
    s.trim().to_string()
}

/// The observation after reading one token of an observation message: a
/// token with a `#` reports an enemy in front at the distance after it (0
/// when unreadable); `blocked`, `steps`, `breeze`, `flash`, `blueLight`
/// (treasure) and `redLight` (powerup) set their flag.
pub open spec fn read_token(o: LastObservation, tok: Seq<char>) -> LastObservation {
    let parts = pieces(tok, '#');
    let o1 = if parts.len() > 1 {
        LastObservation {
            is_enemy_front: true,
            distance_enemy_front: read_or(parts[1], i16::MIN as int, i16::MAX as int, 0) as i16,
            ..o
        }
    } else {
        o
    };
    if tok == "blocked"@ {
        LastObservation { is_blocked: true, ..o1 }
    } else if tok == "steps"@ {
        LastObservation { is_steps: true, ..o1 }
    } else if tok == "breeze"@ {
        LastObservation { is_breeze: true, ..o1 }
    } else if tok == "flash"@ {
        LastObservation { is_flash: true, ..o1 }
    } else if tok == "blueLight"@ {
        LastObservation { is_treasure: true, ..o1 }
    } else if tok == "redLight"@ {
        LastObservation { is_powerup: true, ..o1 }
    } else {
        o1
    }
}

/// A blank observation after reading the tokens `toks` in order.
pub open spec fn read_tokens(toks: Seq<Seq<char>>) -> LastObservation
    decreases toks.len(),
{
    if toks.len() == 0 {
        LastObservation::spec_blank()
    } else {
        read_token(read_tokens(toks.drop_last()), toks.last())
    }
}

/// The observation a trimmed message body of comma-separated tokens gives.
pub open spec fn spec_observations(t: Seq<char>) -> LastObservation {
    read_tokens(pieces(t, ','))
}

/// Reads the token `t[a..b]` into `o`.
fn take_token(o: &mut LastObservation, t: &str, cs: &Vec<char>, a: usize, b: usize)
    requires
        cs@ == t@,
        a <= b <= cs@.len(),
    ensures
        *final(o) == read_token(*old(o), t@.subrange(a as int, b as int)),
{
    let tok = t.substring_char(a, b);
    let parts = split_ranges(cs, a, b, '#');
    let ghost o1 = *o;
    if parts.len() > 1 {
        let (pa, pb) = parts[1];
        let d = parse_i16(t.substring_char(pa, pb));
        proof {
            assert(range_texts(cs@, parts@)[1] == cs@.subrange(pa as int, pb as int));
        }
        o.is_enemy_front = true;
        o.distance_enemy_front = match d {
            Some(v) => v,
            None => 0,
        };
    }
    if str_eq(tok, "blocked") {
        o.is_blocked = true;
    } else if str_eq(tok, "steps") {
        o.is_steps = true;
    } else if str_eq(tok, "breeze") {
        o.is_breeze = true;
    } else if str_eq(tok, "flash") {
        o.is_flash = true;
    } else if str_eq(tok, "blueLight") {
        o.is_treasure = true;
    } else if str_eq(tok, "redLight") {
        o.is_powerup = true;
    }
}

/// Reads an already trimmed observation message body.
pub fn observations_from_trimmed(t: &str) -> (r: LastObservation)
    ensures
        r == spec_observations(t@),
{
    let cs = chars_of(t);
    let toks = split_ranges(&cs, 0, cs.len(), ',');
    assert(cs@.subrange(0, cs@.len() as int) =~= cs@);
    let mut o = LastObservation::new();
    let mut k: usize = 0;
    while k < toks.len()
        invariant
            cs@ == t@,
            ranges_within(toks@, 0, cs@.len() as int),
            range_texts(cs@, toks@) == pieces(t@, ','),
            k <= toks@.len(),
            o == read_tokens(range_texts(cs@, toks@).subrange(0, k as int)),
        decreases toks@.len() - k,
    {
        let (a, b) = toks[k];
        let ghost all = range_texts(cs@, toks@);
        assert(all.subrange(0, k + 1).drop_last() =~= all.subrange(0, k as int));
        assert(all[k as int] == t@.subrange(a as int, b as int));
        take_token(&mut o, t, &cs, a, b);
        k = k + 1;
    }
    assert(range_texts(cs@, toks@).subrange(0, toks@.len() as int) =~= range_texts(cs@, toks@));
    o
}

/// Reads an observation message body such as `blocked,steps,enemy#3`.
pub fn parse_observations(observations: String) -> (r: LastObservation)
    ensures
        r == spec_observations(trimmed(observations@)),
{
    let t = trim_whitespace(observations.as_str());
    observations_from_trimmed(t.as_str())
}

/// Characters trimmed from both ends of a received line.
pub open spec fn line_trim() -> Seq<char> {
    seq!['\0', '\r', '\n']
}

/// A trimmed line is kept when it is not empty and holds neither `\x01`
/// nor `\x03`.
pub open spec fn keep_line(t: Seq<char>) -> bool {
    t.len() > 0 && !t.contains('\x01') && !t.contains('\x03')
}

/// The commands a buffer of lines holds: each line trimmed of `\0`, `\r`
/// and `\n`, and kept when `keep_line` says so.
pub open spec fn kept_lines(ls: Seq<Seq<char>>) -> Seq<Seq<char>>
    decreases ls.len(),
{
    if ls.len() == 0 {
        Seq::empty()
    } else {
        let prev = kept_lines(ls.drop_last());
        let t = trim_set(ls.last(), line_trim());
        if keep_line(t) {
            prev.push(t)
        } else {
            prev
        }
    }
}

/// The texts of a list of strings.
pub open spec fn texts(v: Seq<String>) -> Seq<Seq<char>> {
    Seq::new(v.len(), |k: int| v[k]@)
}

/// `cs[a..b]` holds neither `\x01` nor `\x03`.
fn no_control(cs: &Vec<char>, a: usize, b: usize) -> (r: bool)
    requires
        a <= b <= cs@.len(),
    ensures
        r == (!cs@.subrange(a as int, b as int).contains('\x01') && !cs@.subrange(a as int, b as int).contains('\x03')),
{
    let mut i: usize = a;
    while i < b
        invariant
            a <= i <= b <= cs@.len(),
            forall|j: int| a <= j < i ==> cs@[j] != '\x01' && cs@[j] != '\x03',
        decreases b - i,
    {
        if cs[i] == '\x01' || cs[i] == '\x03' {
            assert(cs@.subrange(a as int, b as int)[i - a] == cs@[i as int]);
            return false;
        }
        i = i + 1;
    }
    assert forall|c: char| #[trigger] cs@.subrange(a as int, b as int).contains(c) implies c != '\x01' && c != '\x03' by {
        let k = choose|k: int| 0 <= k < b - a && cs@.subrange(a as int, b as int)[k] == c;
        assert(cs@[a + k] == c);
    }
    true
}

/// Splits received data into its commands, one per line.
pub fn parse_buffer(data: String) -> (r: Vec<String>)
    ensures
        texts(r@) == kept_lines(pieces(data@, '\n')),
{
    let s = data.as_str();
    let cs = chars_of(s);
    let lines = split_ranges(&cs, 0, cs.len(), '\n');
    assert(cs@.subrange(0, cs@.len() as int) =~= cs@);
    let set: Vec<char> = vec!['\0', '\r', '\n'];
    assert(set@ =~= line_trim());
    let mut v: Vec<String> = Vec::new();
    let mut k: usize = 0;
    while k < lines.len()
        invariant
            cs@ == s@,
            s@ == data@,
            set@ == line_trim(),
            ranges_within(lines@, 0, cs@.len() as int),
            range_texts(cs@, lines@) == pieces(data@, '\n'),
            k <= lines@.len(),
            texts(v@) == kept_lines(range_texts(cs@, lines@).subrange(0, k as int)),
        decreases lines@.len() - k,
    {
        let (a, b) = lines[k];
        let ghost all = range_texts(cs@, lines@);
        assert(all.subrange(0, k + 1).drop_last() =~= all.subrange(0, k as int));
        assert(all[k as int] == cs@.subrange(a as int, b as int));
        let (c, d) = trim_range(&cs, a, b, &set);
        if d > c && no_control(&cs, c, d) {
            let line = String::from_str(s.substring_char(c, d));
            let ghost before = v@;
            v.push(line);
            assert(texts(v@) =~= texts(before).push(cs@.subrange(c as int, d as int)));
        }
        k = k + 1;
    }
    assert(range_texts(cs@, lines@).subrange(0, lines@.len() as int) =~= range_texts(cs@, lines@));
    v
}

/// Characters trimmed from both ends of a command.
pub open spec fn command_trim() -> Seq<char> {
    seq!['\0', '\r']
}

/// The `#`-separated fields of the scoreboard entries that have four or
/// five of them, in order.
pub open spec fn score_entries(es: Seq<Seq<char>>) -> Seq<Seq<Seq<char>>>
    decreases es.len(),
{
    if es.len() == 0 {
        Seq::empty()
    } else {
        let prev = score_entries(es.drop_last());
        let f = pieces(es.last(), '#');
        if f.len() == 4 || f.len() == 5 {
            prev.push(f)
        } else {
            prev
        }
    }
}

/// `sb` is the scoreboard line the fields `f` give: name, `connected` or
/// not, score (-123 when unreadable), energy (-123 when unreadable); the
/// colour always reads as black.
pub open spec fn scoreboard_reads(sb: Scoreboard, f: Seq<Seq<char>>) -> bool {
    &&& sb.name@ == f[0]
    &&& sb.connected == (f[1] == "connected"@)
    &&& sb.score as int == read_or(f[2], i64::MIN as int, i64::MAX as int, -123)
    &&& sb.energy as int == read_or(f[3], i32::MIN as int, i32::MAX as int, -123)
    &&& sb.color == Color::spec_black()
}

/// `r` is the message that command line `s` reads as. The line is trimmed
/// of `\0` and `\r` and split at `;`; its first field names the message:
/// `o` (observation), `s` (own status, 7 fields), `player` (8 fields),
/// `g` (game status, 3 fields), `u` (scoreboard), `notification`, `hello`,
/// `goodbye`, `changename` (3 fields), `h` (hit) and `d` (damage). A number
/// that cannot be read takes a default: -1 for coordinates and time, 0 for
/// a player's node, -123 for scores and energies. A line of an unknown
/// kind, or with the wrong number of fields, is invalid.
pub open spec fn command_reads(s: Seq<char>, r: RecvCommand) -> bool {
    let p = pieces(trim_set(s, command_trim()), ';');
    let tag = p[0];
    let invalid = match r {
        RecvCommand::Invalid(x) => x@ == s,
        _ => false,
    };
    if tag == "o"@ && p.len() > 1 {
        match r {
            RecvCommand::Observations(so) => so.last_observation == spec_observations(trimmed(p[1])),
            _ => false,
        }
    } else if tag == "s"@ && p.len() == 7 {
        match r {
            RecvCommand::Status(ss) => {
                &&& ss.x as int == read_or(p[1], i8::MIN as int, i8::MAX as int, -1)
                &&& ss.y as int == read_or(p[2], i8::MIN as int, i8::MAX as int, -1)
                &&& ss.dir == PlayerDirection::spec_from_str(p[3])
                &&& ss.state == ServerState::spec_from_lower(lower_of(p[4]))
                &&& ss.score as int == read_or(p[5], i64::MIN as int, i64::MAX as int, -123)
                &&& ss.energy as int == read_or(p[6], i32::MIN as int, i32::MAX as int, -123)
            },
            _ => false,
        }
    } else if tag == "player"@ && p.len() == 8 {
        match r {
            RecvCommand::Player(sp) => {
                &&& sp.node as int == read_or(p[1], i64::MIN as int, i64::MAX as int, 0)
                &&& sp.name@ == p[2]
                &&& sp.x as int == read_or(p[3], i8::MIN as int, i8::MAX as int, -1)
                &&& sp.y as int == read_or(p[4], i8::MIN as int, i8::MAX as int, -1)
                &&& sp.dir == PlayerDirection::spec_from_str(p[5])
                &&& sp.state == ServerState::spec_from_lower(lower_of(p[6]))
                &&& sp.color == Color::spec_black()
            },
            _ => false,
        }
    } else if tag == "g"@ && p.len() == 3 {
        match r {
            RecvCommand::GameStatus(g) => {
                &&& g.status == ServerState::spec_from_lower(lower_of(p[1]))
                &&& g.time as int == read_or(p[2], i64::MIN as int, i64::MAX as int, -1)
            },
            _ => false,
        }
    } else if tag == "u"@ {
        match r {
            RecvCommand::Scoreboard(sb) => {
                let e = score_entries(p.drop_first());
                &&& sb.scoreboards@.len() == e.len()
                &&& forall|k: int| 0 <= k < e.len() ==> scoreboard_reads(#[trigger] sb.scoreboards@[k], e[k])
            },
            _ => false,
        }
    } else if tag == "notification"@ && p.len() > 1 {
        match r {
            RecvCommand::Notification(n) => n.notification@ == p[1],
            _ => false,
        }
    } else if tag == "hello"@ && p.len() > 1 {
        match r {
            RecvCommand::PlayerNew(n) => n.player@ == p[1],
            _ => false,
        }
    } else if tag == "goodbye"@ && p.len() > 1 {
        match r {
            RecvCommand::PlayerLeft(n) => n.player@ == p[1],
            _ => false,
        }
    } else if tag == "changename"@ && p.len() == 3 {
        match r {
            RecvCommand::ChangeName(n) => n.old_name@ == p[1] && n.new_name@ == p[2],
            _ => false,
        }
    } else if tag == "h"@ && p.len() > 1 {
        match r {
            RecvCommand::Hit(n) => n.target@ == p[1],
            _ => false,
        }
    } else if tag == "d"@ && p.len() > 1 {
        match r {
            RecvCommand::Damage(n) => n.shooter@ == p[1],
            _ => false,
        }
    } else {
        invalid
    }
}

/// The text of field `k`.
fn field_text<'a>(s: &'a str, parts: &Vec<(usize, usize)>, k: usize) -> (r: &'a str)
    requires
        k < parts@.len(),
        ranges_within(parts@, 0, s@.len() as int),
    ensures
        r@ == s@.subrange(parts@[k as int].0 as int, parts@[k as int].1 as int),
{
    let (a, b) = parts[k];
    s.substring_char(a, b)
}

/// The integer of a field, or `dflt`.
fn i8_or(t: &str, dflt: i8) -> (r: i8)
    ensures
        r as int == read_or(t@, i8::MIN as int, i8::MAX as int, dflt as int),
{
    match parse_i8(t) {
        Some(v) => v,
        None => dflt,
    }
}

/// The integer of a field, or `dflt`.
fn i32_or(t: &str, dflt: i32) -> (r: i32)
    ensures
        r as int == read_or(t@, i32::MIN as int, i32::MAX as int, dflt as int),
{
    match parse_i32(t) {
        Some(v) => v,
        None => dflt,
    }
}

/// The integer of a field, or `dflt`.
fn i64_or(t: &str, dflt: i64) -> (r: i64)
    ensures
        r as int == read_or(t@, i64::MIN as int, i64::MAX as int, dflt as int),
{
    match parse_i64(t) {
        Some(v) => v,
        None => dflt,
    }
}

/// Reads the scoreboard entries among the fields `parts[1..]`.
fn read_scoreboard(s: &str, cs: &Vec<char>, parts: &Vec<(usize, usize)>) -> (r: Vec<Scoreboard>)
    requires
        cs@ == s@,
        parts@.len() >= 1,
        ranges_within(parts@, 0, s@.len() as int),
    ensures
        ({
            let e = score_entries(range_texts(s@, parts@).drop_first());
            &&& r@.len() == e.len()
            &&& forall|k: int| 0 <= k < e.len() ==> scoreboard_reads(#[trigger] r@[k], e[k])
        }),
{
    let ghost es = range_texts(s@, parts@).drop_first();
    let mut v: Vec<Scoreboard> = Vec::new();
    let mut k: usize = 1;
    while k < parts.len()
        invariant
            cs@ == s@,
            1 <= k <= parts@.len(),
            ranges_within(parts@, 0, s@.len() as int),
            es == range_texts(s@, parts@).drop_first(),
            v@.len() == score_entries(es.subrange(0, k - 1)).len(),
            forall|j: int| 0 <= j < v@.len() ==> scoreboard_reads(#[trigger] v@[j], score_entries(es.subrange(0, k - 1))[j]),
        decreases parts@.len() - k,
    {
        let (a, b) = parts[k];
        assert(es.subrange(0, k as int).drop_last() =~= es.subrange(0, k - 1));
        assert(es[k - 1] == s@.subrange(a as int, b as int));
        let f = split_ranges(cs, a, b, '#');
        if f.len() == 4 || f.len() == 5 {
            proof {
                assert(ranges_within(f@, 0, s@.len() as int));
            }
            let ghost ft = range_texts(cs@, f@);
            let sb = Scoreboard {
                name: String::from_str(field_text(s, &f, 0)),
                connected: str_eq(field_text(s, &f, 1), "connected"),
                score: i64_or(field_text(s, &f, 2), -123),
                energy: i32_or(field_text(s, &f, 3), -123),
                color: Color::from_str(""),
            };
            assert(scoreboard_reads(sb, ft));
            let ghost before = v@;
            v.push(sb);
            assert(score_entries(es.subrange(0, k as int)) == score_entries(es.subrange(0, k - 1)).push(ft));
            assert forall|j: int| 0 <= j < v@.len() implies scoreboard_reads(#[trigger] v@[j], score_entries(es.subrange(0, k as int))[j]) by {
                if j < before.len() {
                    assert(v@[j] == before[j]);
                }
            }
        }
        k = k + 1;
    }
    assert(es.subrange(0, parts@.len() - 1) =~= es);
    v
}

/// Reads one command line from the server.
pub fn parse_command(cmd_str: &String) -> (r: RecvCommand)
    ensures
        command_reads(cmd_str@, r),
{
    proof {
        reveal_strlit("o");
        reveal_strlit("s");
        reveal_strlit("g");
        reveal_strlit("u");
        reveal_strlit("player");
        reveal_strlit("h");
        reveal_strlit("d");
        reveal_strlit("hello");
        reveal_strlit("goodbye");
        reveal_strlit("changename");
        reveal_strlit("notification");
        assert("o"@[0] == 'o' && "s"@[0] == 's' && "g"@[0] == 'g' && "u"@[0] == 'u' && "h"@[0] == 'h'
            && "d"@[0] == 'd' && "player"@[0] == 'p' && "hello"@[0] == 'h' && "goodbye"@[0] == 'g'
            && "changename"@[0] == 'c' && "notification"@[0] == 'n');
        assert("g"@.len() == 1 && "goodbye"@.len() == 7 && "h"@.len() == 1 && "hello"@.len() == 5);
    }
    let s = cmd_str.as_str();
    let cs = chars_of(s);
    let set: Vec<char> = vec!['\0', '\r'];
    assert(set@ =~= command_trim());
    let (a, b) = trim_range(&cs, 0, cs.len(), &set);
    assert(cs@.subrange(0, cs@.len() as int) =~= cs@);
    let parts = split_ranges(&cs, a, b, ';');
    proof {
        lemma_pieces_len(cs@.subrange(a as int, b as int), ';');
        assert(ranges_within(parts@, 0, s@.len() as int));
    }
    let ghost p = range_texts(cs@, parts@);
    let n = parts.len();
    let tag = field_text(s, &parts, 0);
    let invalid = RecvCommand::Invalid(String::from_str(s));
    if str_eq(tag, "o") {
        if n > 1 {
            let body = String::from_str(field_text(s, &parts, 1));
            return RecvCommand::Observations(ServerObservation { last_observation: parse_observations(body) });
        }
        return invalid;
    }
    if str_eq(tag, "s") {
        if n == 7 {
            return RecvCommand::Status(ServerStatus {
                x: i8_or(field_text(s, &parts, 1), -1),
                y: i8_or(field_text(s, &parts, 2), -1),
                dir: PlayerDirection::from_str(field_text(s, &parts, 3)),
                state: ServerState::from_str(field_text(s, &parts, 4)),
                score: i64_or(field_text(s, &parts, 5), -123),
                energy: i32_or(field_text(s, &parts, 6), -123),
            });
        }
        return invalid;
    }
    if str_eq(tag, "player") {
        if n == 8 {
            return RecvCommand::Player(ServerPlayer {
                node: i64_or(field_text(s, &parts, 1), 0),
                name: String::from_str(field_text(s, &parts, 2)),
                x: i8_or(field_text(s, &parts, 3), -1),
                y: i8_or(field_text(s, &parts, 4), -1),
                dir: PlayerDirection::from_str(field_text(s, &parts, 5)),
                state: ServerState::from_str(field_text(s, &parts, 6)),
                color: Color::from_str(field_text(s, &parts, 7)),
            });
        }
        return invalid;
    }
    if str_eq(tag, "g") {
        if n == 3 {
            return RecvCommand::GameStatus(ServerGameStatus {
                status: ServerState::from_str(field_text(s, &parts, 1)),
                time: i64_or(field_text(s, &parts, 2), -1),
            });
        }
        return invalid;
    }
    if str_eq(tag, "u") {
        let v = read_scoreboard(s, &cs, &parts);
        return RecvCommand::Scoreboard(ServerScoreboard { scoreboards: v });
    }
    if str_eq(tag, "changename") {
        if n == 3 {
            return RecvCommand::ChangeName(ServerChangeName {
                old_name: String::from_str(field_text(s, &parts, 1)),
                new_name: String::from_str(field_text(s, &parts, 2)),
            });
        }
        return invalid;
    }
    if n < 2 {
        return invalid;
    }
    let arg = String::from_str(field_text(s, &parts, 1));
    if str_eq(tag, "notification") {
        RecvCommand::Notification(ServerNotification { notification: arg })
    } else if str_eq(tag, "hello") {
        RecvCommand::PlayerNew(ServerPlayerNew { player: arg })
    } else if str_eq(tag, "goodbye") {
        RecvCommand::PlayerLeft(ServerPlayerLeft { player: arg })
    } else if str_eq(tag, "h") {
        RecvCommand::Hit(ServerHit { target: arg })
    } else if str_eq(tag, "d") {
        RecvCommand::Damage(ServerDamage { shooter: arg })
    } else {
        invalid
    }
}

} // verus!
