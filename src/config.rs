use vstd::prelude::*;

use crate::chance::{random_below, sample};
use crate::structs::Color;
use crate::text::str_eq;

verus! {

/// The drone's settings. Every timer is a number of milliseconds.
pub struct Config {
    /// Drone name
    pub name: String,
    /// Game server host
    pub url: String,
    /// Interval between requests while no game runs
    pub slow_timer: u64,
    /// Default interval between actions
    pub normal_timer: u64,
    /// Interval after a shot
    pub min_timer: u64,
    /// Default drone color
    pub default_color: Color,
    /// Time a gold or powerup takes to appear again after being taken
    pub spawn_timer: u64,
    /// Custom graphics option; not used by the drone's logic
    pub graphics: bool,
}

impl Config {
    /// A field-by-field copy of the settings.
    pub fn copy(&self) -> (r: Config)
        ensures
            r == *self,
    {
        Config {
            name: self.name.clone(),
            url: self.url.clone(),
            slow_timer: self.slow_timer,
            normal_timer: self.normal_timer,
            min_timer: self.min_timer,
            default_color: self.default_color,
            spawn_timer: self.spawn_timer,
            graphics: self.graphics,
        }
    }
}

/// The settings as a configuration file writes them; `default_color` holds
/// the entries of the colour object, channel name and value.
pub struct ConfigJSON {
    pub name: String,
    pub url: String,
    pub slow_timer: u64,
    pub normal_timer: u64,
    pub min_timer: u64,
    pub default_color: Vec<(String, u8)>,
    pub spawn_timer: u64,
    pub graphics: bool,
}

/// The value of the first entry named `key`, 0 when there is none.
pub open spec fn spec_channel(s: Seq<(String, u8)>, key: Seq<char>) -> u8
    decreases s.len(),
{
    if s.len() == 0 {
        0
    } else if s[0].0@ == key {
        s[0].1
    } else {
        spec_channel(s.drop_first(), key)
    }
}

/// The value of the first entry named `key`, 0 when there is none.
fn channel(s: &Vec<(String, u8)>, key: &str) -> (r: u8)
    ensures
        r == spec_channel(s@, key@),
{
    let mut i: usize = 0;
    assert(s@.subrange(0, s@.len() as int) =~= s@);
    while i < s.len()
        invariant
            i <= s@.len(),
            spec_channel(s@, key@) == spec_channel(s@.subrange(i as int, s@.len() as int), key@),
        decreases s@.len() - i,
    {
        assert(s@.subrange(i as int, s@.len() as int).drop_first() =~= s@.subrange(i + 1, s@.len() as int));
        if str_eq(s[i].0.as_str(), key) {
            return s[i].1;
        }
        i = i + 1;
    }
    0
}

/// The address of the game server used unless told otherwise.
pub const DEFAULT_URL: &'static str = "atari.icad.puc-rio.br";

impl Config {
    /// The settings a configuration file gives; a colour channel the file
    /// leaves out is 0.
    pub fn from_config_json(c: ConfigJSON) -> (r: Config)
        ensures
            r.name == c.name,
            r.url == c.url,
            r.slow_timer == c.slow_timer,
            r.normal_timer == c.normal_timer,
            r.min_timer == c.min_timer,
            r.spawn_timer == c.spawn_timer,
            r.graphics == c.graphics,
            r.default_color == (Color {
                r: spec_channel(c.default_color@, "r"@),
                g: spec_channel(c.default_color@, "g"@),
                b: spec_channel(c.default_color@, "b"@),
                a: spec_channel(c.default_color@, "a"@),
            }),
    {
        let default_color = Color {
            r: channel(&c.default_color, "r"),
            g: channel(&c.default_color, "g"),
            b: channel(&c.default_color, "b"),
            a: channel(&c.default_color, "a"),
        };
        Config {
            name: c.name,
            url: c.url,
            slow_timer: c.slow_timer,
            normal_timer: c.normal_timer,
            min_timer: c.min_timer,
            default_color,
            spawn_timer: c.spawn_timer,
            graphics: c.graphics,
        }
    }

    /// The default settings: a random name of hexadecimal digits, the
    /// default server, timers of 1000, 100, 100 and 15000 ms, a random
    /// opaque-less colour, graphics on.
    pub fn default() -> (r: Config)
        ensures
            r.name@.len() == 10,
            forall|i: int| 0 <= i < r.name@.len() ==> is_hex_digit(#[trigger] r.name@[i]),
            r.url@ == DEFAULT_URL@,
            r.slow_timer == 1000,
            r.normal_timer == 100,
            r.min_timer == 100,
            r.spawn_timer == 15000,
            r.default_color.a == 0,
            r.graphics,
    {
        Config {
            name: random_string(10),
            url: String::from_str(DEFAULT_URL),
            slow_timer: 1000,
            normal_timer: 100,
            min_timer: 100,
            default_color: random_color(),
            spawn_timer: 15000,
            graphics: true,
        }
    }
}

/// A lower-case hexadecimal digit.
pub open spec fn is_hex_digit(c: char) -> bool {
    ('0' <= c && c <= '9') || ('a' <= c && c <= 'f')
}

/// A random text of `size` hexadecimal digits (sixteen when
/// `size` is larger).
pub fn random_string(size: usize) -> (r: String)
    ensures
        r@.len() == if size < 16 { size as int } else { 16 },
        forall|i: int| 0 <= i < r@.len() ==> is_hex_digit(#[trigger] r@[i]),
{
    proof {
        reveal_strlit("0"); reveal_strlit("1"); reveal_strlit("2"); reveal_strlit("3");
        reveal_strlit("4"); reveal_strlit("5"); reveal_strlit("6"); reveal_strlit("7");
        reveal_strlit("8"); reveal_strlit("9"); reveal_strlit("a"); reveal_strlit("b");
        reveal_strlit("c"); reveal_strlit("d"); reveal_strlit("e"); reveal_strlit("f");
    }
    let charset: Vec<&'static str> = vec![
        "0", "1", "2", "3", "4", "5", "6", "7", "8", "9", "a", "b", "c", "d", "e", "f",
    ];
    assert forall|k: int| 0 <= k < charset@.len() implies (#[trigger] charset@[k])@.len() == 1
        && is_hex_digit(charset@[k]@[0]) by {}
    let picked = sample(&charset, size);
    let mut s = String::new();
    let mut i: usize = 0;
    while i < picked.len()
        invariant
            i <= picked@.len(),
            s@.len() == i,
            forall|j: int| 0 <= j < s@.len() ==> is_hex_digit(#[trigger] s@[j]),
            forall|j: int| 0 <= j < picked@.len() ==> charset@.contains(#[trigger] picked@[j]),
            forall|k: int| 0 <= k < charset@.len() ==> (#[trigger] charset@[k])@.len() == 1
                && is_hex_digit(charset@[k]@[0]),
        decreases picked@.len() - i,
    {
        let d = picked[i];
        assert(charset@.contains(d));
        let ghost k = choose|k: int| 0 <= k < charset@.len() && charset@[k] == d;
        assert(charset@[k] == d);
        s.append(d);
        i = i + 1;
    }
    s
}

/// A random colour, each of red, green and blue below 255, alpha 0.
pub fn random_color() -> (r: Color)
    ensures
        r.r < 255 && r.g < 255 && r.b < 255 && r.a == 0,
{
    Color {
        r: random_below(255) as u8,
        g: random_below(255) as u8,
        b: random_below(255) as u8,
        a: 0,
    }
}

} // verus!
