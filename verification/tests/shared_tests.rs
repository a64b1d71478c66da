use saas::shared::{ClientMsg, ServerMsg, UserCmd, TICKS_PER_SECOND};
use saas::util::Direction;

#[test]
fn tick_cadence_divides_a_second() {
    assert_eq!(TICKS_PER_SECOND, 8);
    assert_eq!(1000 % TICKS_PER_SECOND, 0);
}

#[test]
fn message_shapes_round_out() {
    let join = ClientMsg::Join;
    assert!(matches!(join, ClientMsg::Join));
    let cmd = ClientMsg::UserCmd(UserCmd::Direction(Direction::Left));
    match cmd {
        ClientMsg::UserCmd(UserCmd::Direction(d)) => {
            assert!(matches!(d, Direction::Left));
        }
        _ => panic!("wrong shape"),
    }
    let pong = ServerMsg::Pong(3);
    assert!(matches!(pong, ServerMsg::Pong(3)));
    let ping = ClientMsg::Ping(3);
    assert!(matches!(ping, ClientMsg::Ping(3)));
    let console = ClientMsg::ConsoleCmd(String::from("hello"));
    assert!(matches!(console, ClientMsg::ConsoleCmd(ref s) if s == "hello"));
}
