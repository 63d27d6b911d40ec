use cambio::data::PlayerId;
use cambio::hub::{Registry, Target};

fn registry(ids: &[u128]) -> Registry {
    let mut r = Registry::new();
    for &i in ids {
        r.register(PlayerId(i));
    }
    r
}

#[test]
fn broadcast_reaches_every_live_player_once() {
    let mut r = registry(&[3, 1, 2]);
    r.register(PlayerId(1));
    assert_eq!(r.len(), 3);
    let to = r.recipients(&Target::All);
    assert_eq!(to, vec![(PlayerId(3), 0), (PlayerId(1), 0), (PlayerId(2), 0)]);
    r.remove(PlayerId(1));
    assert!(!r.contains(PlayerId(1)));
    assert_eq!(r.recipients(&Target::All), vec![(PlayerId(3), 0), (PlayerId(2), 0)]);
}

#[test]
fn unicast_reaches_only_its_addressee() {
    let r = registry(&[1, 2]);
    assert_eq!(r.recipients(&Target::One(PlayerId(2))), vec![(PlayerId(2), 0)]);
    assert!(r.recipients(&Target::One(PlayerId(9))).is_empty());
}

#[test]
fn per_player_send_matches_entries_to_players() {
    let r = registry(&[1, 2, 3]);
    let keys = vec![PlayerId(3), PlayerId(9), PlayerId(1), PlayerId(3)];
    assert_eq!(r.recipients(&Target::Each(keys)), vec![(PlayerId(1), 2), (PlayerId(3), 0)]);
    assert!(Registry::default().recipients(&Target::All).is_empty());
}
