use rier::main_loop::{next_step, Return, Step, ONE_FRAME};

#[test]
fn frame_budget_is_a_sixtieth_of_a_second() {
    assert_eq!(ONE_FRAME, 16_665_666);
}

#[test]
fn exit_stops_the_loop() {
    assert_eq!(next_step(Return::Exit, 0), Step::Stop);
    assert_eq!(next_step(Return::Exit, 50_000_000), Step::Stop);
}

#[test]
fn short_turn_sleeps_out_the_rest() {
    assert_eq!(next_step(Return::Next, 0), Step::Sleep(16_665_666));
    assert_eq!(next_step(Return::Next, 6_665_666), Step::Sleep(10_000_000));
}

#[test]
fn long_turn_does_not_sleep() {
    assert_eq!(next_step(Return::Next, 16_665_666), Step::Sleep(0));
    assert_eq!(next_step(Return::Next, 40_000_000), Step::Sleep(0));
}
