use pm_licht::ipc::parse_speed_command;
use pm_licht::speed::AppState;

#[test]
fn effective_delay_follows_the_multiplier() {
    let mut s = AppState::new();
    assert_eq!(s.speed_millis, 1000);
    assert_eq!(s.get_delay_ms(100), 100);
    s.set_speed(2000);
    assert_eq!(s.get_delay_ms(100), 50);
    s.set_speed(500);
    assert_eq!(s.get_delay_ms(100), 200);
}

#[test]
fn effective_delay_rounds_to_nearest() {
    let mut s = AppState::new();
    s.set_speed(3000);
    assert_eq!(s.get_delay_ms(100), 33);
    s.set_speed(400);
    assert_eq!(s.get_delay_ms(2), 5);
    s.set_speed(2000);
    assert_eq!(s.get_delay_ms(1), 1);
}

#[test]
fn effective_delay_survives_bad_multipliers() {
    let mut s = AppState::new();
    s.set_speed(0);
    assert_eq!(s.get_delay_ms(100), 100);
    s.set_speed(-750);
    assert_eq!(s.get_delay_ms(100), 100);
    s.set_speed(1);
    assert_eq!(s.get_delay_ms(u64::MAX), u64::MAX);
}

#[test]
fn set_speed_command_updates_the_multiplier() {
    let mut s = AppState::new();
    s.handle_line(b"{\"command\":[\"set_property\",\"speed\",2.5]}");
    assert_eq!(s.speed_millis, 2500);
    assert_eq!(s.get_delay_ms(100), 40);
}

#[test]
fn set_speed_command_accepts_trailing_newline() {
    let mut s = AppState::new();
    s.handle_line(b"{\"command\":[\"set_property\",\"speed\",0.5]}\n");
    assert_eq!(s.speed_millis, 500);
}

#[test]
fn malformed_line_changes_nothing() {
    let mut s = AppState::new();
    s.set_speed(1234);
    s.handle_line(b"not json");
    assert_eq!(s.speed_millis, 1234);
    s.handle_line(b"");
    assert_eq!(s.speed_millis, 1234);
    s.handle_line(b"{\"command\":[\"set_property\",\"speed\"]}");
    assert_eq!(s.speed_millis, 1234);
    s.handle_line(b"{\"command\":[\"set_property\",\"volume\",2.0]}");
    assert_eq!(s.speed_millis, 1234);
    s.handle_line(b"{\"command\":[\"get_property\",\"speed\",2.0]}");
    assert_eq!(s.speed_millis, 1234);
    s.handle_line(b"{\"command\":[\"set_property\",\"speed\",\"2.0\"]}");
    assert_eq!(s.speed_millis, 1234);
    s.handle_line(b"{\"command\":\"set_property\"}");
    assert_eq!(s.speed_millis, 1234);
    s.handle_line(b"{\"other\":[\"set_property\",\"speed\",2.0]}");
    assert_eq!(s.speed_millis, 1234);
}

#[test]
fn parse_accepts_the_shapes_serde_normalizes() {
    assert_eq!(
        parse_speed_command(b"{\"command\":[\"set_property\",\"speed\",3]}"),
        Some(3000),
    );
    assert_eq!(
        parse_speed_command(b"{\"command\":[\"set_property\",\"speed\",-1.25]}"),
        Some(-1250),
    );
    assert_eq!(
        parse_speed_command(b"{ \"command\" : [ \"set_property\", \"speed\", 1.5 ] }"),
        Some(1500),
    );
    assert_eq!(
        parse_speed_command(b"{\"command\":[\"set_property\",\"speed\",1e3]}"),
        Some(1_000_000),
    );
    assert_eq!(
        parse_speed_command(b"{\"command\":[\"set_property\",\"speed\",1.5,\"extra\"]}"),
        Some(1500),
    );
    assert_eq!(
        parse_speed_command(b"{\"ignored\":true,\"command\":[\"set_property\",\"speed\",2.0]}"),
        Some(2000),
    );
}

#[test]
fn parse_rounds_at_the_fourth_fractional_digit() {
    assert_eq!(
        parse_speed_command(b"{\"command\":[\"set_property\",\"speed\",0.0005]}"),
        Some(1),
    );
    assert_eq!(
        parse_speed_command(b"{\"command\":[\"set_property\",\"speed\",2.0004]}"),
        Some(2000),
    );
    assert_eq!(
        parse_speed_command(b"{\"command\":[\"set_property\",\"speed\",0.3]}"),
        Some(300),
    );
}

#[test]
fn parse_rejects_what_is_not_a_speed_command() {
    assert_eq!(parse_speed_command(b"not json"), None);
    assert_eq!(parse_speed_command(b"{\"command\":[]}"), None);
    assert_eq!(parse_speed_command(b"{\"command\":[\"set_property\",\"speed\",null]}"), None);
    assert_eq!(parse_speed_command(b"{\"command\":[\"set_property\",\"speed\",[2.0]]}"), None);
    assert_eq!(parse_speed_command(b"{\"command\":[\"set_property\",\"speed\",true]}"), None);
    assert_eq!(parse_speed_command(b"{\"command\":[2.0,\"set_property\",\"speed\"]}"), None);
}
