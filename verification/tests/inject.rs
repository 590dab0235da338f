use dictation::inject::{Injector, SendStep};

#[test]
fn an_empty_text_needs_no_keyboard() {
    assert!(matches!(Injector::new().send(""), SendStep::Finished(Ok(()))));
}

#[test]
fn the_keyboard_is_set_up_for_the_first_text_only() {
    let mut injector = Injector::new();
    let step = injector.send("one");
    assert!(matches!(&step, SendStep::SetUp(t) if t == "one"));
    let step = injector.resume(step, Ok(()));
    assert!(matches!(&step, SendStep::Type(t) if t == "one"));
    let step = injector.resume(step, Ok(()));
    assert!(matches!(step, SendStep::Finished(Ok(()))));
    assert!(matches!(injector.send("two"), SendStep::Type(t) if t == "two"));
}

#[test]
fn a_keyboard_that_fails_is_tried_again() {
    let mut injector = Injector::new();
    let step = injector.send("one");
    let step = injector.resume(step, Err("denied".to_string()));
    assert!(matches!(&step, SendStep::Finished(Err(e)) if e == "Enigo init failed: denied"));
    assert!(matches!(injector.send("one"), SendStep::SetUp(_)));
}

#[test]
fn a_failure_to_type_keeps_the_keyboard() {
    let mut injector = Injector::new();
    let step = injector.send("one");
    let step = injector.resume(step, Ok(()));
    let step = injector.resume(step, Err("busy".to_string()));
    assert!(matches!(&step, SendStep::Finished(Err(e)) if e == "Enigo text failed: busy"));
    let step = injector.resume(step, Ok(()));
    assert!(matches!(&step, SendStep::Finished(Err(_))));
    assert!(matches!(injector.send("two"), SendStep::Type(_)));
}
