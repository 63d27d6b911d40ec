use cambio::config::{new_round, port, show_all_cooldown, snap_time, Config, GameServer};

#[test]
fn default_settings() {
    assert_eq!(snap_time(), 5);
    assert_eq!(new_round(), 60);
    assert_eq!(show_all_cooldown(), 1);
    assert_eq!(port(), 25580);
    let c = Config::default();
    assert_eq!(c.server_port, 25580);
    assert_eq!(GameServer::from_config(None).config, c);
    let custom = Config { snap_time_secs: 2, new_round_timer_secs: 3, show_all_cooldown: 4, server_port: 9 };
    assert_eq!(GameServer::from_config(Some(custom)).config, custom);
}
