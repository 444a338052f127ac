use roxide::avionics::{
    check_impl, ends_with, harness, trait_path, AvionicsParameters, HarnessError, PanicHandler, Platform, TraitRef,
};

fn trait_ref(negated: bool, leading_colon: bool, segments: &[&str]) -> Option<TraitRef> {
    Some(TraitRef { negated, leading_colon, segments: segments.iter().map(|s| s.to_string()).collect() })
}

fn params(default: &str, no_panic: bool) -> AvionicsParameters {
    AvionicsParameters { default: default.to_string(), no_panic }
}

#[test]
fn path_text_joins_segments() {
    let t = trait_ref(false, true, &["preflight", "Avionics"]).unwrap();
    assert_eq!(trait_path(&t), "::preflight::Avionics");
    let t = trait_ref(false, false, &["Avionics"]).unwrap();
    assert_eq!(trait_path(&t), "Avionics");
}

#[test]
fn suffix_check() {
    assert!(ends_with("preflight::Avionics", "Avionics"));
    assert!(ends_with("Avionics", "Avionics"));
    assert!(ends_with("MyAvionics", "Avionics"));
    assert!(!ends_with("Avionic", "Avionics"));
    assert!(!ends_with("Avionics::Sensors", "Avionics"));
    assert!(ends_with("", ""));
}

#[test]
fn accepts_avionics_impls() {
    assert_eq!(check_impl(&trait_ref(false, false, &["Avionics"])), Ok(()));
    assert_eq!(check_impl(&trait_ref(false, true, &["preflight_impl", "Avionics"])), Ok(()));
}

#[test]
fn rejects_other_impls_in_order() {
    assert_eq!(check_impl(&None), Err(HarnessError::NoTrait));
    assert_eq!(check_impl(&trait_ref(false, false, &["Sensors"])), Err(HarnessError::NotAvionics));
    assert_eq!(check_impl(&trait_ref(true, false, &["Sensors"])), Err(HarnessError::NotAvionics));
    assert_eq!(check_impl(&trait_ref(true, false, &["Avionics"])), Err(HarnessError::Negated));
}

#[test]
fn error_messages() {
    assert_eq!(HarnessError::NoTrait.message(), "no trait was found to implement");
    assert_eq!(HarnessError::NotAvionics.message(), "expected a trait implementation of `Avionics`");
    assert_eq!(HarnessError::Negated.message(), "cannot negate the `Avionics` implementation");
    assert_eq!(HarnessError::InvalidDefault.message(), "lex error");
}

#[test]
fn plans_for_the_simulator() {
    let plan = harness(&params("Controller::new", false), &trait_ref(false, false, &["Avionics"]), true)
        .ok()
        .expect("accepted");
    assert_eq!(plan.platform, Platform::Simulator);
    assert_eq!(plan.panic_handler, PanicHandler::SimulatorCallback);
    assert_eq!(plan.default_init.tokens().to_string(), "Controller :: new");
}

#[test]
fn plans_for_the_flight_computer() {
    let plan = harness(&params("Controller::default", false), &trait_ref(false, false, &["Avionics"]), false)
        .ok()
        .expect("accepted");
    assert_eq!(plan.platform, Platform::FlightComputer);
    assert_eq!(plan.panic_handler, PanicHandler::Abort);
    let plan = harness(&params("Controller::default", true), &trait_ref(false, false, &["Avionics"]), false)
        .ok()
        .expect("accepted");
    assert_eq!(plan.panic_handler, PanicHandler::Omitted);
}

#[test]
fn rejects_default_that_does_not_lex() {
    let r = harness(&params("\"unterminated", false), &trait_ref(false, false, &["Avionics"]), true);
    assert!(matches!(r, Err(HarnessError::InvalidDefault)));
    let r = harness(&params("(", false), &trait_ref(false, false, &["Avionics"]), true);
    assert!(matches!(r, Err(HarnessError::InvalidDefault)));
}

#[test]
fn impl_checks_come_before_default() {
    let r = harness(&params("\"unterminated", false), &trait_ref(false, false, &["Sensors"]), true);
    assert!(matches!(r, Err(HarnessError::NotAvionics)));
}

#[test]
fn plain_path_default_is_always_planned() {
    for default in ["Controller::new", "::preflight::Controller::default", "make_controller", "_", "Controller2::new_v3", ""] {
        let r = harness(&params(default, false), &trait_ref(false, false, &["Avionics"]), false);
        assert!(r.is_ok(), "default {:?}", default);
    }
}

#[test]
fn unterminated_string_default_is_rejected() {
    for default in ["\"", "\"abc", "\"a\\", "\"\\x4"] {
        let r = harness(&params(default, false), &trait_ref(false, false, &["Avionics"]), false);
        assert!(matches!(r, Err(HarnessError::InvalidDefault)), "default {:?}", default);
    }
}

#[test]
fn unclosed_parenthesis_default_is_rejected() {
    for default in ["(", "(Controller::new", "(a1", "Controller::new(", "a::b(c2"] {
        let r = harness(&params(default, true), &trait_ref(false, false, &["Avionics"]), true);
        assert!(matches!(r, Err(HarnessError::InvalidDefault)), "default {:?}", default);
    }
}

#[test]
fn planned_initialiser_is_read_from_default() {
    let plan = harness(&params("preflight::Controller2::default", true), &trait_ref(false, false, &["Avionics"]), false)
        .ok()
        .expect("accepted");
    assert_eq!(plan.default_init.tokens().to_string(), "preflight :: Controller2 :: default");
    assert_eq!(plan.panic_handler, PanicHandler::Omitted);
}

#[test]
fn default_rejected_by_proc_macro2_is_invalid() {
    for default in ["}", "Controller::new)", "'", "1e"] {
        let lexed = default.parse::<proc_macro2::TokenStream>();
        let r = harness(&params(default, false), &trait_ref(false, false, &["Avionics"]), true);
        assert_eq!(lexed.is_ok(), r.is_ok(), "default {:?}", default);
    }
}
