use pawn_fight::{cell_pos_to_canvas_pos, parse_args, CommandLineArgs};

fn args(words: &[&str]) -> Vec<String> {
    words.iter().map(|w| w.to_string()).collect()
}

#[test]
fn no_options_by_default() {
    let a = CommandLineArgs::new();
    assert!(!a.is_server && !a.is_client);
    assert_eq!(a.remoteip, "");
    let parsed = parse_args(&args(&["pawn_fight"])).unwrap();
    assert!(!parsed.is_server && !parsed.is_client);
    assert_eq!(parsed.remoteip, "");
}

#[test]
fn server_and_client_options() {
    let s = parse_args(&args(&["pawn_fight", "--server", "extra"])).unwrap();
    assert!(s.is_server && !s.is_client);
    let c = parse_args(&args(&["pawn_fight", "--client", "10.0.0.7", "--server"])).unwrap();
    assert!(c.is_client && c.is_server);
    assert_eq!(c.remoteip, "10.0.0.7");
}

#[test]
fn client_without_address_is_an_error() {
    let e = parse_args(&args(&["pawn_fight", "--client"])).err();
    assert_eq!(e, Some("--client requires <remote_ip>".to_string()));
}

#[test]
fn canvas_positions_centre_the_token_in_its_cell() {
    assert_eq!(cell_pos_to_canvas_pos((0, 0)), (15, 15));
    assert_eq!(cell_pos_to_canvas_pos((1, 2)), (91, 168));
    assert_eq!(cell_pos_to_canvas_pos((9, 9)), (706, 706));
}
