use configurations::models::{Account, Event, EventInside, Order};
use configurations::process::{
    cat_io_step, filter_message, filter_step, filter_writer_step, CatAction, CatEvent, FilterAction, FilterEvent,
    LineEvent, FILTER_FIRST_MESSAGE,
};
use configurations::stdio::{copy_line_step, CopyAction};
use configurations::ticks::{
    atomic_tick_step, choose_demo, slice_remaining, thread_tick_step, TickDemo,
};

#[test]
fn cat_writes_first_nine_counts_then_shuts_down() {
    let mut counter = 0;
    let mut written = Vec::new();
    for _ in 0..11 {
        let (next, action) = cat_io_step(counter, CatEvent::Tick);
        counter = next;
        match action {
            CatAction::Write(m) => written.push(m),
            CatAction::Shutdown => written.push("<shutdown>".to_string()),
            _ => panic!("unexpected action"),
        }
    }
    assert_eq!(counter, 11);
    let expected: Vec<String> = (1..10)
        .map(|i| format!("{}\n", i))
        .chain(vec!["<shutdown>".to_string(), "<shutdown>".to_string()])
        .collect();
    assert_eq!(written, expected);
}

#[test]
fn cat_negative_counter_is_written_with_sign() {
    match cat_io_step(-13, CatEvent::Tick) {
        (-12, CatAction::Write(m)) => assert_eq!(m, "-12\n"),
        _ => panic!("unexpected action"),
    }
}

#[test]
fn cat_other_events() {
    assert!(matches!(cat_io_step(4, CatEvent::Output(5)), (4, CatAction::PrintOutput(5))));
    assert!(matches!(cat_io_step(4, CatEvent::Output(0)), (4, CatAction::Idle)));
    assert!(matches!(cat_io_step(4, CatEvent::ReadFailed), (4, CatAction::StopReadFailed)));
    assert!(matches!(cat_io_step(4, CatEvent::ChildExited), (4, CatAction::StopChildExited)));
    assert!(matches!(cat_io_step(4, CatEvent::WaitFailed), (4, CatAction::StopWaitFailed)));
}

#[test]
fn filter_messages_mark_even_numbers() {
    assert_eq!(filter_message(1), "msg: 1\n");
    assert_eq!(filter_message(2), "#msg: 2\n");
    assert_eq!(filter_message(10), "#msg: 10\n");
    assert_eq!(filter_message(-3), "msg: -3\n");
    assert_eq!(filter_message(i32::MIN), "#msg: -2147483648\n");
}

#[test]
fn filter_step_prints_lines_and_stops() {
    match filter_step(FilterEvent::Stdout(LineEvent::Line("#msg: 2".to_string()))) {
        FilterAction::Print(p) => assert_eq!(p, "Stdout: #msg: 2"),
        _ => panic!("unexpected action"),
    }
    match filter_step(FilterEvent::Stderr(LineEvent::Line("oops".to_string()))) {
        FilterAction::Print(p) => assert_eq!(p, "Stderr: oops"),
        _ => panic!("unexpected action"),
    }
    assert!(matches!(filter_step(FilterEvent::Stdout(LineEvent::Closed)), FilterAction::Idle));
    assert!(matches!(filter_step(FilterEvent::Stderr(LineEvent::Failed)), FilterAction::StopReadFailed));
    assert!(matches!(filter_step(FilterEvent::ChildExited), FilterAction::StopChildExited));
    assert!(matches!(filter_step(FilterEvent::WaitFailed), FilterAction::StopWaitFailed));
}

#[test]
fn copy_adds_newline() {
    match copy_line_step(LineEvent::Line("hello".to_string())) {
        CopyAction::Write(w) => assert_eq!(w, "hello\n"),
        _ => panic!("unexpected action"),
    }
    assert!(matches!(copy_line_step(LineEvent::Closed), CopyAction::Idle));
    assert!(matches!(copy_line_step(LineEvent::Failed), CopyAction::Stop));
}

#[test]
fn demo_choice() {
    assert_eq!(choose_demo(1), Some(TickDemo::Atomic));
    assert_eq!(choose_demo(2), Some(TickDemo::Thread));
    assert_eq!(choose_demo(3), None);
    assert_eq!(choose_demo(0), None);
}

#[test]
fn thread_ticks_count_down_five_slices() {
    let mut counter = 5;
    let mut slices = 0;
    while let Some(next) = thread_tick_step(counter) {
        counter = next;
        slices += 1;
    }
    assert_eq!(slices, 5);
    assert_eq!(counter, 0);
    assert_eq!(thread_tick_step(-1), None);
}

#[test]
fn slice_remaining_subtracts_or_gives_none() {
    assert_eq!(slice_remaining(1_000_000_000, 300_000_000), Some(700_000_000));
    assert_eq!(slice_remaining(1_000_000_000, 1_000_000_000), Some(0));
    assert_eq!(slice_remaining(1_000_000_000, 1_000_000_001), None);
}

#[test]
fn atomic_ticks_print_zero_to_five() {
    let mut counter = 0;
    let mut printed = Vec::new();
    let pattern = [false, true, true, false, true, true, true, false, true];
    let mut stopped = false;
    for ticked in pattern {
        let step = atomic_tick_step(counter, ticked);
        counter = step.counter;
        if let Some(p) = step.print {
            printed.push(p);
        }
        if step.stop {
            stopped = true;
            break;
        }
    }
    assert!(stopped);
    assert_eq!(printed, vec![0, 1, 2, 3, 4, 5]);
    assert_eq!(counter, 6);
}

#[test]
fn event_models_hold_their_messages() {
    let e = Event::Account(Box::new(Account { id: 123, name: "Dean".to_string() }));
    match e {
        Event::Account(a) => {
            assert_eq!(a.id, 123);
            assert_eq!(a.name, "Dean");
        }
        Event::Order(_) => panic!("wrong variant"),
    }
    let e = EventInside::Order(Box::new(Order { id: 233, symbol: "BTC".to_string() }));
    match e {
        EventInside::Order(o) => {
            assert_eq!(o.id, 233);
            assert_eq!(o.symbol, "BTC");
        }
        EventInside::Account(_) => panic!("wrong variant"),
    }
}

#[test]
fn filter_writer_sends_messages_one_to_nine() {
    let mut next = FILTER_FIRST_MESSAGE;
    let mut sent = String::new();
    let mut count = 0;
    while let Some((following, msg)) = filter_writer_step(next) {
        next = following;
        sent.push_str(&msg);
        count += 1;
    }
    assert_eq!(count, 9);
    assert_eq!(next, 10);
    assert_eq!(
        sent,
        "msg: 1\n#msg: 2\nmsg: 3\n#msg: 4\nmsg: 5\n#msg: 6\nmsg: 7\n#msg: 8\nmsg: 9\n"
    );
    assert!(filter_writer_step(10).is_none());
    assert!(filter_writer_step(25).is_none());
}

#[test]
fn copying_lines_gives_back_the_text() {
    let text = "first\n\nthird line\n";
    let mut out = String::new();
    for line in text.lines() {
        match copy_line_step(LineEvent::Line(line.to_string())) {
            CopyAction::Write(w) => out.push_str(&w),
            _ => panic!("unexpected action"),
        }
    }
    assert_eq!(out, text);
}
