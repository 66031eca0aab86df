use drone_battle::bot::{sleep_budget, BotData, ServerChecklist};
use drone_battle::comms::{SendCommand, ServerCommand};
use drone_battle::config::{random_color, random_string, Config, ConfigJSON};
use drone_battle::enums::{Action, PlayerDirection, ServerState};
use drone_battle::map::Coord;
use drone_battle::structs::{Color, LastObservation};

#[test]
fn action_names() {
    assert_eq!(Action::FRONT.to_str(), "FRONT");
    assert_eq!(Action::NOTHING.to_str(), "NOTHING");
    assert_eq!(Action::from_index(4), Action::GET);
    assert_eq!(Action::from_index(9), Action::SHOOT);
    for _ in 0..50 {
        assert_ne!(Action::random(), Action::NOTHING);
    }
}

#[test]
fn directions() {
    assert_eq!(PlayerDirection::from_str("east"), PlayerDirection::EAST);
    assert_eq!(PlayerDirection::from_str("west"), PlayerDirection::WEST);
    assert_eq!(PlayerDirection::from_str("South"), PlayerDirection::NORTH);
    assert_eq!(PlayerDirection::from_str(""), PlayerDirection::NORTH);
    assert_eq!(PlayerDirection::SOUTH.to_string(), "SOUTH");
    assert_eq!(PlayerDirection::NORTH.opposite(), PlayerDirection::SOUTH);
    assert_eq!(PlayerDirection::WEST.opposite(), PlayerDirection::EAST);
    assert_eq!(PlayerDirection::NORTH.right(), PlayerDirection::EAST);
    assert_eq!(PlayerDirection::WEST.right(), PlayerDirection::NORTH);
    assert_eq!(PlayerDirection::NORTH.left(), PlayerDirection::WEST);
    assert_eq!(PlayerDirection::EAST.left(), PlayerDirection::NORTH);
}

#[test]
fn server_states() {
    assert_eq!(ServerState::from_str("GAME"), ServerState::GAME);
    assert_eq!(ServerState::from_str("Dead"), ServerState::DEAD);
    assert_eq!(ServerState::from_str("gameover"), ServerState::GAMEOVER);
    assert_eq!(ServerState::from_str("what"), ServerState::READY);
    assert_eq!(ServerState::from_lowercase("GAME"), ServerState::READY);
    assert_eq!(ServerState::GAMEOVER.to_string(), "GAME OVER");
}

#[test]
fn coordinates() {
    let mut a = Coord { x: 3, y: 4 };
    a.add(&Coord { x: -1, y: 6 });
    assert_eq!(a, Coord { x: 2, y: 10 });
    assert_eq!(a.next(&PlayerDirection::NORTH), Coord { x: 2, y: 9 });
    assert_eq!(a.next(&PlayerDirection::EAST), Coord { x: 3, y: 10 });
    assert_eq!(a.manhattan(&Coord { x: 5, y: 2 }), 11);
    assert_eq!(Coord { x: 0, y: 0 }.manhattan(&Coord { x: 200, y: 100 }), 44);
}

#[test]
fn side_bands() {
    let c = Coord { x: 10, y: 10 };
    let ns = c.coords_5x2_sides(&PlayerDirection::NORTH);
    assert_eq!(ns.len(), 20);
    assert_eq!(ns[0], Coord { x: 8, y: 8 });
    assert_eq!(ns[2], Coord { x: 12, y: 8 });
    assert!(ns.iter().all(|d| d.x != 10));
    let ew = c.coords_5x2_sides(&PlayerDirection::EAST);
    assert_eq!(ew.len(), 20);
    assert!(ew.iter().all(|d| d.y != 10));
    let mut sorted = ew.clone();
    sorted.sort();
    sorted.dedup();
    assert_eq!(sorted.len(), 20);
    let mut turned: Vec<Coord> = ns.iter().map(|d| Coord { x: 10 + (d.y - 10), y: 10 + (d.x - 10) }).collect();
    turned.sort();
    assert_eq!(turned, sorted);
}

#[test]
fn colors() {
    let c = Color { r: 1, g: 22, b: 255, a: 7 };
    assert_eq!(c.to_string(), "1;22;255");
    assert_eq!(Color { r: 0, g: 100, b: 9, a: 0 }.to_string(), "0;100;9");
    let black = Color::from_str("12;3;4");
    assert_eq!(black, Color { r: 0, g: 0, b: 0, a: 0 });
}

#[test]
fn config_from_file_contents() {
    let c = Config::from_config_json(ConfigJSON {
        name: "bee".to_string(),
        url: "example.org".to_string(),
        slow_timer: 900,
        normal_timer: 120,
        min_timer: 80,
        default_color: vec![("g".to_string(), 200), ("r".to_string(), 10), ("g".to_string(), 5)],
        spawn_timer: 12000,
        graphics: false,
    });
    assert_eq!(c.name, "bee");
    assert_eq!(c.url, "example.org");
    assert_eq!((c.slow_timer, c.normal_timer, c.min_timer, c.spawn_timer), (900, 120, 80, 12000));
    assert_eq!(c.default_color, Color { r: 10, g: 200, b: 0, a: 0 });
    assert!(!c.graphics);
    let copy = c.copy();
    assert_eq!(copy.name, "bee");
}

#[test]
fn default_config() {
    let c = Config::default();
    assert_eq!(c.name.len(), 10);
    assert!(c.name.chars().all(|ch| ch.is_ascii_hexdigit()));
    assert_eq!(c.url, "atari.icad.puc-rio.br");
    assert_eq!((c.slow_timer, c.normal_timer, c.min_timer, c.spawn_timer), (1000, 100, 100, 15000));
    assert_eq!(c.default_color.a, 0);
    let s = random_string(30);
    assert_eq!(s.len(), 16);
    let color = random_color();
    assert!(color.r < 255 && color.g < 255 && color.b < 255);
}

#[test]
fn commands_on_the_wire() {
    assert_eq!(SendCommand::from_action(&Action::FRONT).command, ServerCommand::FORWARD);
    assert_eq!(SendCommand::from_action(&Action::NOTHING).command, ServerCommand::NOTHING);
    let w = |c: ServerCommand, a: Option<&str>| SendCommand { command: c, attr: a.map(|s| s.to_string()) }.wire_text();
    assert_eq!(w(ServerCommand::FORWARD, None), Some("w".to_string()));
    assert_eq!(w(ServerCommand::SHOOT, None), Some("e".to_string()));
    assert_eq!(w(ServerCommand::SCOREBOARD, None), Some("u".to_string()));
    assert_eq!(w(ServerCommand::GOODBYE, None), Some("quit".to_string()));
    assert_eq!(w(ServerCommand::NAME, Some("bee")), Some("name;bee".to_string()));
    assert_eq!(w(ServerCommand::COLOR, Some("1;2;3")), Some("color;1;2;3".to_string()));
    assert_eq!(w(ServerCommand::SAY, None), None);
    assert_eq!(w(ServerCommand::NOTHING, None), Some(String::new()));
}

#[test]
fn observations_latch_hit_and_damage() {
    let mut o = LastObservation::new();
    assert_eq!(o.distance_enemy_front, -1);
    assert!(o.has_read_hit && o.has_read_damage);
    o.record_damage();
    o.record_hit();
    let mut incoming = LastObservation::new();
    incoming.is_steps = true;
    o.merge(incoming);
    assert!(o.is_damage && o.is_hit && o.is_steps);
    assert!(!o.has_read_damage && !o.has_read_hit);
    o.merge(LastObservation::new());
    assert!(o.is_damage && o.is_hit && !o.is_steps);
    assert!(!o.has_read_damage && !o.has_read_hit);
    o.is_flash = true;
    o.reset();
    assert_eq!(o, LastObservation::new());
    o.merge(LastObservation::new());
    assert!(!o.is_damage && !o.is_hit);
}

#[test]
fn checklist_and_bot_data() {
    let mut c = ServerChecklist::new();
    assert!(!c.check());
    c.observation = true;
    c.user = true;
    assert!(!c.check());
    c.game = true;
    assert!(c.check());
    let d = BotData::new(3, -4, PlayerDirection::WEST, 77, LastObservation::new());
    assert_eq!((d.get_x(), d.get_y(), d.get_energy()), (3, -4, 77));
    assert_eq!(d.get_dir(), PlayerDirection::WEST);
    assert_eq!(d.get_last_observation(), LastObservation::new());
}

#[test]
fn observation_description() {
    let mut o = LastObservation::new();
    assert_eq!(o.to_string(), "Observation {  } ");
    o.is_breeze = true;
    o.is_steps = true;
    o.is_enemy_front = true;
    assert_eq!(o.to_string(), "Observation { ENEMY|BREEZE|STEPS| } ");
}

#[test]
fn sleep_between_ticks() {
    let c = Config::from_config_json(ConfigJSON {
        name: String::new(),
        url: String::new(),
        slow_timer: 1000,
        normal_timer: 100,
        min_timer: 40,
        default_color: vec![],
        spawn_timer: 15000,
        graphics: false,
    });
    assert_eq!(sleep_budget(false, Action::SHOOT, 5, &c), 1000);
    assert_eq!(sleep_budget(true, Action::SHOOT, 5, &c), 35);
    assert_eq!(sleep_budget(true, Action::FRONT, 5, &c), 95);
    assert_eq!(sleep_budget(true, Action::FRONT, 500, &c), 0);
}
