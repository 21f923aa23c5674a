use std::rc::Rc;

use cats::State;

#[derive(Debug, Clone, PartialEq, Eq)]
enum TrunstileState {
    Locked,
    Unlocked,
}

#[derive(Debug, Clone, PartialEq, Eq)]
enum TrunstileOutput {
    Thank,
    Open,
    Tut,
}

#[test]
fn test_state() {
    let coin_s = State::new(Rc::new(|_| {
        (TrunstileState::Unlocked, TrunstileOutput::Thank)
    }));
    let push_s = State::new(Rc::new(|s| match s {
        TrunstileState::Locked => (TrunstileState::Locked, TrunstileOutput::Tut),
        TrunstileState::Unlocked => (TrunstileState::Locked, TrunstileOutput::Open),
    }));

    assert_eq!(
        coin_s.run(TrunstileState::Locked),
        (TrunstileState::Unlocked, TrunstileOutput::Thank)
    );
    assert_eq!(push_s.eval(TrunstileState::Locked), TrunstileOutput::Tut);
    assert_eq!(push_s.exec(TrunstileState::Locked), TrunstileState::Locked);

    let monday_s = coin_s.flat_map(move |a1| {
        let push_s = push_s.clone();
        State::new(Rc::new(move |s| {
            let (s, a2) = push_s.run(s);
            (s, (a1.clone(), a2))
        }))
    });
    assert_eq!(
        monday_s.run(TrunstileState::Locked),
        (
            TrunstileState::Locked,
            (TrunstileOutput::Thank, TrunstileOutput::Open)
        )
    );
}

#[test]
fn state_product_threads_left_to_right() {
    let coin_s = State::new(Rc::new(|_: TrunstileState| {
        (TrunstileState::Unlocked, TrunstileOutput::Thank)
    }));
    let push_s = State::new(Rc::new(|s| match s {
        TrunstileState::Locked => (TrunstileState::Locked, TrunstileOutput::Tut),
        TrunstileState::Unlocked => (TrunstileState::Locked, TrunstileOutput::Open),
    }));
    let both = coin_s.clone().product(push_s.clone());
    assert_eq!(
        both.run(TrunstileState::Locked),
        (TrunstileState::Locked, (TrunstileOutput::Thank, TrunstileOutput::Open))
    );
    let other_way = push_s.product(coin_s);
    assert_eq!(
        other_way.run(TrunstileState::Locked),
        (TrunstileState::Unlocked, (TrunstileOutput::Tut, TrunstileOutput::Thank))
    );
}

#[test]
fn state_get_put_map() {
    let counter = State::new(Rc::new(|n: u32| (n + 1, n)));
    assert_eq!(counter.run(4), (5, 4));
    assert_eq!(counter.get().run(9), (9, 9));
    assert_eq!(counter.put(2).run(9), (2, ()));
    assert_eq!(counter.unit().run(3), (3, ()));
    assert_eq!(counter.pure("v").run(3), (3, "v"));
    let doubled = counter.clone().map(|x| x * 2);
    assert_eq!(doubled.run(10), (11, 20));
    let adder = State::new(Rc::new(|n: u32| (n * 2, move |x: u32| x + n)));
    assert_eq!(counter.ap(adder).run(3), (7, 9));
}
