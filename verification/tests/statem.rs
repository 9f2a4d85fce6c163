use bstream::statem::StateMachine;

#[test]
fn machine_goes_round_and_hands_out_the_hooks() {
    let mut ma: StateMachine<i32, &'static str> = StateMachine::new(1);
    ma.entry(2, "enter 2");
    ma.exit(2, "exit 2");
    ma.entry(3, "enter 3");
    ma.exit(3, "exit 3");
    ma.permit(1, vec![2]);
    ma.permit(2, vec![3]);
    ma.permit(3, vec![1]);
    assert_eq!(ma.current(), 1);

    assert!(ma.can_fire(2));
    let t = ma.fire(2);
    assert_eq!((t.from, t.to), (1, 2));
    assert_eq!(t.exit, Vec::<&str>::new());
    assert_eq!(t.entry, vec!["enter 2"]);
    assert_eq!(ma.current(), 2);

    assert!(ma.can_fire(3));
    let t = ma.fire(3);
    assert_eq!((t.from, t.to), (2, 3));
    assert_eq!(t.exit, vec!["exit 2"]);
    assert_eq!(t.entry, vec!["enter 3"]);

    assert!(ma.can_fire(1));
    let t = ma.fire(1);
    assert_eq!((t.from, t.to), (3, 1));
    assert_eq!(t.exit, vec!["exit 3"]);
    assert_eq!(t.entry, Vec::<&str>::new());
    assert_eq!(ma.current(), 1);
}

#[test]
fn machine_refuses_what_was_not_permitted() {
    let mut ma: StateMachine<u8, u32> = StateMachine::new(0);
    assert!(!ma.can_fire(1));
    ma.permit(0, vec![1]);
    // the target was never named
    assert!(!ma.can_fire(1));
    ma.entry(1, 10);
    assert!(ma.can_fire(1));
    assert!(!ma.can_fire(0));
    assert!(!ma.can_fire(2));
    let t = ma.fire(1);
    assert_eq!(t.entry, vec![10]);
    // state 1 may be left for nothing
    assert!(!ma.can_fire(0));
    assert!(!ma.can_fire(1));
}

#[test]
fn hooks_and_permits_pile_up_in_order() {
    let mut ma: StateMachine<u64, u8> = StateMachine::new(5);
    ma.exit(5, 1);
    ma.exit(5, 2);
    ma.entry(6, 3);
    ma.entry(6, 4);
    ma.entry(6, 3);
    ma.permit(5, vec![7]);
    ma.permit(5, vec![6, 5]);
    ma.permit(7, vec![]);
    assert!(ma.can_fire(7));
    assert!(ma.can_fire(5));
    let t = ma.fire(6);
    assert_eq!(t.exit, vec![1, 2]);
    assert_eq!(t.entry, vec![3, 4, 3]);
    assert_eq!(ma.current(), 6);
}
