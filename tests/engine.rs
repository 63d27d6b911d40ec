use cambio::cards::{Card, Deck};
use cambio::decisions::Decision;
use cambio::engine::{Event, Game, State};

fn drain(game: &mut Game) -> Vec<Event> {
    let mut out = Vec::new();
    while let Some(e) = game.poll_events() {
        out.push(e);
    }
    out
}

#[test]
fn first_steps_of_a_game() {
    let mut game = Game::new();
    assert_eq!(*game.current_state(), State::Pregame);
    game.advance(0);
    assert_eq!(*game.current_state(), State::StartRound { round: 0, reset_deck: false });
    assert!(drain(&mut game).is_empty());
    game.advance(0);
    assert_eq!(*game.current_state(), State::StartTurn { round: 0, turn: 0 });
    assert_eq!(drain(&mut game), vec![Event::Setup, Event::StartRound(0)]);
    assert_eq!(game.deck.len(), 54);
    game.advance(0);
    let top = match *game.current_state() {
        State::DrawCard { round: 0, turn: 0, card } => card,
        s => panic!("unexpected state {:?}", s),
    };
    assert_eq!(drain(&mut game), vec![Event::StartTurn(0)]);
    assert_eq!(game.deck.len(), 53);
    game.advance(5);
    assert_eq!(*game.current_state(), State::WaitingForDecision { round: 0, turn: 0, started: 5 });
    assert_eq!(drain(&mut game), vec![Event::DrawCard(0, top), Event::WaitForDecision]);
    assert_eq!(game.poll_wait_deadline(), Some(10_005));
}

#[test]
fn round_r_starts_at_turn_r() {
    let mut game = Game::new_with(Deck::full(), State::StartRound { round: 3, reset_deck: true });
    game.advance(0);
    assert_eq!(*game.current_state(), State::StartTurn { round: 3, turn: 3 });
    assert_eq!(game.deck.len(), 54);
}

#[test]
fn decision_timeout_ends_the_turn() {
    let mut game = Game::new_with(Deck::full(), State::WaitingForDecision { round: 0, turn: 0, started: 1_000 });
    game.advance(10_999);
    assert_eq!(*game.current_state(), State::WaitingForDecision { round: 0, turn: 0, started: 1_000 });
    assert!(drain(&mut game).is_empty());
    game.advance(11_000);
    assert_eq!(*game.current_state(), State::EndTurn { round: 0, turn: 0 });
    game.advance(11_001);
    assert_eq!(drain(&mut game), vec![Event::EndTurn(0)]);
    assert_eq!(*game.current_state(), State::StartTurn { round: 0, turn: 1 });
}

#[test]
fn decision_in_time_is_played() {
    let mut game = Game::new_with(Deck::full(), State::WaitingForDecision { round: 1, turn: 4, started: 0 });
    game.handle_decision(Decision::Discard, 10_000);
    assert_eq!(*game.current_state(), State::PlayDecision { round: 1, turn: 4, decision: Decision::Discard });
    game.advance(10_500);
    assert_eq!(*game.current_state(), State::WaitingForSnaps { round: 1, turn: 4, started: 10_500 });
    assert_eq!(drain(&mut game), vec![Event::WaitForSnap]);
    assert_eq!(game.poll_wait_deadline(), Some(12_500));
}

#[test]
fn late_decision_ends_the_turn() {
    let mut game = Game::new_with(Deck::full(), State::WaitingForDecision { round: 0, turn: 2, started: 0 });
    game.handle_decision(Decision::Replace, 10_001);
    assert_eq!(*game.current_state(), State::EndTurn { round: 0, turn: 2 });
}

#[test]
fn snap_window() {
    let joker = Card::Joker;
    let mut game = Game::new_with(Deck::full(), State::WaitingForSnaps { round: 0, turn: 1, started: 0 });
    game.handle_snap(joker, 1_500);
    assert_eq!(*game.current_state(), State::Snapped { round: 0, turn: 1, card: joker });
    game.advance(1_600);
    assert_eq!(*game.current_state(), State::EndTurn { round: 0, turn: 1 });
    let mut late = Game::new_with(Deck::full(), State::WaitingForSnaps { round: 0, turn: 1, started: 0 });
    late.handle_snap(joker, 2_001);
    assert_eq!(*late.current_state(), State::EndTurn { round: 0, turn: 1 });
    let mut waiting = Game::new_with(Deck::full(), State::WaitingForSnaps { round: 0, turn: 1, started: 0 });
    waiting.advance(2_000);
    assert_eq!(*waiting.current_state(), State::EndTurn { round: 0, turn: 1 });
}

#[test]
fn empty_deck_ends_the_round() {
    let mut game = Game::new_with(Deck::from_cards(vec![]), State::StartTurn { round: 2, turn: 5 });
    game.advance(0);
    assert_eq!(*game.current_state(), State::EndRound { round: 2 });
    game.advance(0);
    assert_eq!(*game.current_state(), State::FindWinner { round: 2 });
    game.advance(7);
    assert_eq!(*game.current_state(), State::WaitingForNewRound { round: 2, confirmations: 0, started: 7 });
    assert_eq!(
        drain(&mut game),
        vec![Event::StartTurn(5), Event::EndRound(2), Event::FindWinner, Event::WaitForNewRound { confirmations: 0 }]
    );
    let mut end = Game::new_with(Deck::from_cards(vec![]), State::EndTurn { round: 2, turn: 5 });
    end.advance(0);
    assert_eq!(*end.current_state(), State::EndRound { round: 2 });
}

#[test]
fn confirmations_start_the_next_round() {
    let mut game = Game::new_with(Deck::from_cards(vec![]), State::WaitingForNewRound { round: 0, confirmations: 0, started: 0 });
    game.confirm_new_round(2, 1_000);
    assert_eq!(*game.current_state(), State::WaitingForNewRound { round: 0, confirmations: 1, started: 0 });
    game.confirm_new_round(2, 2_000);
    assert_eq!(*game.current_state(), State::StartRound { round: 1, reset_deck: true });
    game.advance(3_000);
    assert_eq!(game.deck.len(), 54);
    assert_eq!(*game.current_state(), State::StartTurn { round: 1, turn: 1 });
}

#[test]
fn late_confirmation_or_skip_finishes() {
    let mut late = Game::new_with(Deck::full(), State::WaitingForNewRound { round: 0, confirmations: 0, started: 0 });
    late.confirm_new_round(1, 10_001);
    assert_eq!(*late.current_state(), State::Finished);
    let mut skip = Game::new_with(Deck::full(), State::WaitingForNewRound { round: 0, confirmations: 0, started: 0 });
    skip.skip_new_round();
    assert_eq!(*skip.current_state(), State::Finished);
    skip.advance(0);
    assert_eq!(drain(&mut skip), vec![Event::Exit]);
    let mut timeout = Game::new_with(Deck::full(), State::WaitingForNewRound { round: 0, confirmations: 0, started: 0 });
    timeout.advance(10_000);
    assert_eq!(*timeout.current_state(), State::Finished);
    let mut idle = Game::new();
    idle.skip_new_round();
    assert_eq!(*idle.current_state(), State::Pregame);
}

#[test]
fn cambio_call_states() {
    let mut deciding = Game::new_with(Deck::full(), State::WaitingForDecision { round: 4, turn: 0, started: 0 });
    assert!(deciding.cambio_call(0));
    assert_eq!(*deciding.current_state(), State::CambioCall { round: 4 });
    deciding.advance(0);
    assert_eq!(drain(&mut deciding), vec![Event::Cambio]);
    assert_eq!(*deciding.current_state(), State::EndRound { round: 4 });

    let mut playing = Game::new_with(Deck::full(), State::PlayDecision { round: 1, turn: 0, decision: Decision::Discard });
    assert!(playing.cambio_call(3));
    assert_eq!(*playing.current_state(), State::CambioCall { round: 1 });
    assert_eq!(drain(&mut playing), vec![Event::WaitForSnap]);

    let mut idle = Game::new();
    assert!(!idle.cambio_call(0));
    assert_eq!(*idle.current_state(), State::Pregame);
    assert_eq!(idle.poll_wait_deadline(), None);
}

#[test]
fn one_round_finish() {
    let mut game = Game::new();
    let mut now: u64 = 0;
    for _ in 0..1000 {
        if let Some(event) = game.poll_events() {
            match event {
                Event::WaitForDecision => game.handle_decision(Decision::Replace, now),
                Event::WaitForSnap => game.handle_snap(Card::Joker, now),
                Event::WaitForNewRound { .. } => game.skip_new_round(),
                Event::Exit => break,
                _ => (),
            }
            continue;
        }
        if let Some(deadline) = game.poll_wait_deadline() {
            now = deadline;
        }
        game.advance(now);
        now += 1;
    }
    assert!(matches!(game.current_state(), State::Finished));
}
