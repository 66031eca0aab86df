use drone_battle::bot::{BotStatus, ServerChecklist};
use drone_battle::comms::{observations_from_trimmed, parse_buffer, parse_command, parse_observations, RecvCommand};
use drone_battle::enums::{PlayerDirection, ServerState};
use drone_battle::structs::{Color, LastObservation};

#[test]
fn buffer_splits_lines_and_drops_noise() {
    let v = parse_buffer("o;blocked\r\n\0\0s;1;2;north;game;10;100\n\n\x01junk\nplayer\0\0\0".to_string());
    assert_eq!(v, vec!["o;blocked".to_string(), "s;1;2;north;game;10;100".to_string(), "player".to_string()]);
    assert!(parse_buffer(String::new()).is_empty());
    assert!(parse_buffer("\0\0\0\0".to_string()).is_empty());
}

#[test]
fn observation_tokens() {
    let o = parse_observations(" blocked,steps,breeze,flash,blueLight,redLight ".to_string());
    assert!(o.is_blocked && o.is_steps && o.is_breeze && o.is_flash && o.is_treasure && o.is_powerup);
    assert!(!o.is_enemy_front && !o.is_damage && !o.is_hit);
    let e = parse_observations("enemy#3".to_string());
    assert!(e.is_enemy_front);
    assert_eq!(e.distance_enemy_front, 3);
    let bad = observations_from_trimmed("enemy#far,steps");
    assert!(bad.is_enemy_front && bad.is_steps);
    assert_eq!(bad.distance_enemy_front, 0);
    assert_eq!(parse_observations("   ".to_string()), LastObservation::new());
    assert_eq!(observations_from_trimmed("Blocked"), LastObservation::new());
}

#[test]
fn status_line() {
    match parse_command(&"s;12;-3;east;GAME;250;80\r".to_string()) {
        RecvCommand::Status(s) => {
            assert_eq!((s.x, s.y), (12, -3));
            assert_eq!(s.dir, PlayerDirection::EAST);
            assert_eq!(s.state, ServerState::GAME);
            assert_eq!((s.score, s.energy), (250, 80));
        },
        other => panic!("unexpected {:?}", other),
    }
    match parse_command(&"s;300;x;up;what;?;?".to_string()) {
        RecvCommand::Status(s) => {
            assert_eq!((s.x, s.y), (-1, -1));
            assert_eq!(s.dir, PlayerDirection::NORTH);
            assert_eq!(s.state, ServerState::READY);
            assert_eq!((s.score, s.energy), (-123, -123));
        },
        other => panic!("unexpected {:?}", other),
    }
    assert!(matches!(parse_command(&"s;1;2".to_string()), RecvCommand::Invalid(t) if t == "s;1;2"));
}

#[test]
fn observation_and_game_lines() {
    match parse_command(&"o;flash,enemy#7".to_string()) {
        RecvCommand::Observations(o) => {
            assert!(o.last_observation.is_flash);
            assert_eq!(o.last_observation.distance_enemy_front, 7);
        },
        other => panic!("unexpected {:?}", other),
    }
    assert!(matches!(parse_command(&"o".to_string()), RecvCommand::Invalid(_)));
    match parse_command(&"g;Gameover;1234".to_string()) {
        RecvCommand::GameStatus(g) => {
            assert_eq!(g.status, ServerState::GAMEOVER);
            assert_eq!(g.time, 1234);
        },
        other => panic!("unexpected {:?}", other),
    }
}

#[test]
fn player_and_event_lines() {
    match parse_command(&"player;42;bee;3;4;south;dead;1;2;3".to_string()) {
        RecvCommand::Invalid(_) => {},
        other => panic!("unexpected {:?}", other),
    }
    match parse_command(&"player;42;bee;3;4;south;dead;9;9;9".replace(";9;9;9", ";9")) {
        RecvCommand::Player(p) => {
            assert_eq!(p.node, 42);
            assert_eq!(p.name, "bee");
            assert_eq!((p.x, p.y), (3, 4));
            assert_eq!(p.dir, PlayerDirection::SOUTH);
            assert_eq!(p.state, ServerState::DEAD);
            assert_eq!(p.color, Color { r: 0, g: 0, b: 0, a: 0 });
        },
        other => panic!("unexpected {:?}", other),
    }
    assert!(matches!(parse_command(&"h;wasp".to_string()), RecvCommand::Hit(h) if h.target == "wasp"));
    assert!(matches!(parse_command(&"d;wasp".to_string()), RecvCommand::Damage(d) if d.shooter == "wasp"));
    assert!(matches!(parse_command(&"hello;ant".to_string()), RecvCommand::PlayerNew(p) if p.player == "ant"));
    assert!(matches!(parse_command(&"goodbye;ant".to_string()), RecvCommand::PlayerLeft(p) if p.player == "ant"));
    assert!(matches!(parse_command(&"notification;hi there".to_string()), RecvCommand::Notification(n) if n.notification == "hi there"));
    assert!(matches!(parse_command(&"changename;a;b".to_string()), RecvCommand::ChangeName(c) if c.old_name == "a" && c.new_name == "b"));
    assert!(matches!(parse_command(&"h".to_string()), RecvCommand::Invalid(_)));
    assert!(matches!(parse_command(&"zzz;1".to_string()), RecvCommand::Invalid(t) if t == "zzz;1"));
}

#[test]
fn scoreboard_line() {
    match parse_command(&"u;bee#connected#10#90;bad#1;wasp#offline#x#7#0;ant#connected#1#2#3#4".to_string()) {
        RecvCommand::Scoreboard(s) => {
            assert_eq!(s.scoreboards.len(), 2);
            assert_eq!(s.scoreboards[0].name, "bee");
            assert!(s.scoreboards[0].connected);
            assert_eq!((s.scoreboards[0].score, s.scoreboards[0].energy), (10, 90));
            assert_eq!(s.scoreboards[1].name, "wasp");
            assert!(!s.scoreboards[1].connected);
            assert_eq!((s.scoreboards[1].score, s.scoreboards[1].energy), (-123, 7));
        },
        other => panic!("unexpected {:?}", other),
    }
}

#[test]
fn ingest_messages() {
    let mut st = BotStatus::new();
    let mut ck = ServerChecklist::new();
    assert!(!st.ingest(&parse_command(&"d;wasp".to_string()), &mut ck));
    assert!(st.last_observation.is_damage && !st.last_observation.has_read_damage);
    assert!(!st.ingest(&parse_command(&"o;steps".to_string()), &mut ck));
    assert!(!st.ingest(&parse_command(&"o;breeze".to_string()), &mut ck));
    assert!(st.last_observation.is_damage && st.last_observation.is_breeze && !st.last_observation.is_steps);
    assert!(!st.ingest(&parse_command(&"s;4;5;west;game;12;66".to_string()), &mut ck));
    assert_eq!((st.x, st.y, st.dir, st.energy, st.score), (4, 5, PlayerDirection::WEST, 66, 12));
    assert!(!ck.check());
    assert!(!st.ingest(&parse_command(&"g;game;77".to_string()), &mut ck));
    assert!(ck.check());
    assert_eq!(st.game_time, 77);
    assert!(st.ingest(&parse_command(&"g;gameover;78".to_string()), &mut ck));
    assert_eq!(st.state, ServerState::GAMEOVER);
    let d = st.data();
    assert_eq!((d.get_x(), d.get_y(), d.get_energy()), (4, 5, 66));
}
