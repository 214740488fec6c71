use struct_auto_from::diagnostic::{Accumulator, Diagnostic, Location};

fn error(message: &str) -> Diagnostic {
    Diagnostic::custom(message, Location::Invocation)
}

#[test]
fn an_empty_accumulator_hands_the_value_on() {
    let errors = Accumulator::new();
    assert_eq!(errors.finish_with("test"), Ok("test"));
}

#[test]
fn an_empty_accumulator_finishes_well() {
    assert_eq!(Accumulator::new().finish(), Ok(()));
}

#[test]
fn one_diagnostic_fails_the_pass() {
    let mut errors = Accumulator::new();
    errors.push(error("foo!"));
    assert_eq!(errors.finish_with(5), Err(vec![error("foo!")]));
}

#[test]
fn diagnostics_come_out_in_the_order_they_went_in() {
    let mut errors = Accumulator::new();
    errors.push(error("first"));
    errors.push(Diagnostic::custom("second", Location::Sender { index: 3 }));
    errors.extend(&vec![error("third"), error("fourth")]);
    assert_eq!(
        errors.finish(),
        Err(vec![
            error("first"),
            Diagnostic::custom("second", Location::Sender { index: 3 }),
            error("third"),
            error("fourth"),
        ])
    );
}

#[test]
fn handle_keeps_the_error_and_hands_the_value_on() {
    let mut errors = Accumulator::new();
    assert_eq!(errors.handle(Ok::<i32, Diagnostic>(7)), Some(7));
    assert_eq!(errors.handle(Err::<i32, Diagnostic>(error("bad"))), None);
    assert_eq!(errors.finish(), Err(vec![error("bad")]));
}

#[test]
fn push_result_absorbs_only_the_error_branch() {
    let mut errors = Accumulator::new();
    errors.push_result(&Ok::<i32, Vec<Diagnostic>>(1));
    errors.push_result(&Err::<i32, Vec<Diagnostic>>(vec![error("a"), error("b")]));
    errors.push_result(&Ok::<i32, Vec<Diagnostic>>(2));
    assert_eq!(errors.finish_with(0), Err(vec![error("a"), error("b")]));
}

#[test]
fn a_successful_result_does_not_save_a_failed_pass() {
    let mut errors = Accumulator::new();
    errors.push(error("early"));
    assert_eq!(errors.finnish_with_result(Ok::<i32, Vec<Diagnostic>>(1)), Err(vec![error("early")]));
}

#[test]
fn a_failed_result_comes_after_what_was_collected() {
    let mut errors = Accumulator::new();
    errors.push(error("early"));
    assert_eq!(
        errors.finnish_with_result(Err::<i32, Vec<Diagnostic>>(vec![error("late")])),
        Err(vec![error("early"), error("late")])
    );
}

#[test]
fn a_successful_result_passes_through_an_empty_accumulator() {
    assert_eq!(Accumulator::new().finnish_with_result(Ok::<i32, Vec<Diagnostic>>(1)), Ok(1));
}

#[test]
fn a_failed_result_fails_an_empty_accumulator() {
    assert_eq!(
        Accumulator::new().finnish_with_result(Err::<i32, Vec<Diagnostic>>(vec![error("late")])),
        Err(vec![error("late")])
    );
}
