use ph_record::address::Address;
use ph_record::call::{incoming_call, outgoing_call, CallError, IncomingCall};
use ph_record::os::AppRegistry;
use ph_record::resolve::{Lookup, ResolveError, Step};

const SANDALS: &str = "\n|Order: sandals\n|Image (rendered): https://modbay.net/static/sandals.jpg\n|User: \n|\tUsername: untrusted_user\n|\tReputation: -8";

fn owned(parts: &[&str]) -> Vec<String> {
    parts.iter().map(|s| s.to_string()).collect()
}

fn accepted(step: Result<Step<IncomingCall>, CallError>) -> IncomingCall {
    match step {
        Ok(Step::Done(call)) => call,
        Ok(Step::Query(name)) => panic!("asked for {}", name),
        Err(e) => panic!("{}", e.message()),
    }
}

#[test]
fn outgoing_call_to_phone_number_opens_a_session_with_it() {
    let mut addr = Address::new("+1-212-555-0101").unwrap();
    match outgoing_call(&mut addr, Lookup::NotMade) {
        Ok(Step::Done(session)) => assert_eq!(session.display(), "+1-212-555-0101"),
        _ => panic!("no session"),
    }
}

#[test]
fn outgoing_call_to_domain_asks_for_the_lookup_first() {
    let mut addr = Address::new("12345.order._tel.modbay.net").unwrap();
    let step = outgoing_call(&mut addr, Lookup::NotMade);
    assert!(matches!(step, Ok(Step::Query(name)) if name == "12345.order._tel.modbay.net"));
}

#[test]
fn outgoing_call_to_domain_opens_a_session_with_one_of_its_numbers() {
    let mut addr = Address::new("modbay.net").unwrap();
    match outgoing_call(&mut addr, Lookup::Answered(owned(&["tel=+1-111;+1-222"]))) {
        Ok(Step::Done(session)) => {
            let number = session.display();
            assert!(number == "+1-111" || number == "+1-222");
        }
        _ => panic!("no session"),
    }
    assert_eq!(addr.display(), "modbay.net -> +1-111;+1-222");
}

#[test]
fn outgoing_call_does_not_refresh() {
    let mut addr = Address::new("modbay.net").unwrap();
    addr.resolve(false, Lookup::Answered(owned(&["tel=+1-111"]))).unwrap();
    match outgoing_call(&mut addr, Lookup::Answered(owned(&["tel=+1-999"]))) {
        Ok(Step::Done(session)) => assert_eq!(session.display(), "+1-111"),
        _ => panic!("no session"),
    }
}

#[test]
fn outgoing_call_fails_where_nothing_resolves() {
    let mut addr = Address::new("google.com").unwrap();
    let step = outgoing_call(&mut addr, Lookup::Answered(owned(&["v=spf1 -all"])));
    assert!(matches!(step, Err(ResolveError::EmptyResult)));
    let mut addr = Address::new("google.com").unwrap();
    let step = outgoing_call(&mut addr, Lookup::Failed("timeout".to_string()));
    assert!(matches!(step, Err(ResolveError::LookupError(cause)) if cause == "timeout"));
}

#[test]
fn incoming_call_with_phone_number_is_taken_as_it_is() {
    let registry = AppRegistry::new();
    let mut addr = Address::new("+1-212-555-0101").unwrap();
    let call = accepted(incoming_call("+1-999", &mut addr, &registry, Lookup::NotMade));
    assert_eq!(call.session.display(), "+1-999");
    assert_eq!(call.description, None);
    assert_eq!(call.extra, None);
}

#[test]
fn incoming_call_asks_for_the_lookup_first() {
    let registry = AppRegistry::new();
    let mut addr = Address::new("12345.order._tel.modbay.net").unwrap();
    let step = incoming_call("+1-111", &mut addr, &registry, Lookup::NotMade);
    assert!(matches!(step, Ok(Step::Query(name)) if name == "12345.order._tel.modbay.net"));
}

#[test]
fn incoming_call_from_a_resolved_number_is_accepted() {
    let registry = AppRegistry::new();
    let mut addr = Address::new("modbay.net").unwrap();
    let lookup = Lookup::Answered(owned(&["tel=+1-111;+1-222"]));
    let call = accepted(incoming_call("+1-222", &mut addr, &registry, lookup));
    assert_eq!(call.session.display(), "+1-222");
    assert_eq!(call.description, Some("Classified advertisements website".to_string()));
    assert_eq!(call.extra, None);
    assert_eq!(addr.display(), "modbay.net -> +1-111;+1-222");
}

#[test]
fn incoming_call_tells_what_the_extra_data_stands_for() {
    let registry = AppRegistry::new();
    let mut addr = Address::new("12345.order._tel.modbay.net").unwrap();
    let lookup = Lookup::Answered(owned(&["tel=+1-111"]));
    let call = accepted(incoming_call("+1-111", &mut addr, &registry, lookup));
    assert_eq!(call.description, Some("Classified advertisements website".to_string()));
    assert_eq!(call.extra, Some(SANDALS.to_string()));
}

#[test]
fn incoming_call_for_an_unknown_domain_has_no_description() {
    let registry = AppRegistry::new();
    let mut addr = Address::new("x._tel.example.org").unwrap();
    let lookup = Lookup::Answered(owned(&["tel=+1-111"]));
    let call = accepted(incoming_call("+1-111", &mut addr, &registry, lookup));
    assert_eq!(call.session.display(), "+1-111");
    assert_eq!(call.description, None);
    assert_eq!(call.extra, None);
}

#[test]
fn incoming_call_from_another_number_is_a_mismatch() {
    let registry = AppRegistry::new();
    let mut addr = Address::new("modbay.net").unwrap();
    let lookup = Lookup::Answered(owned(&["tel=+1-111;+1-222"]));
    let step = incoming_call("+1-333", &mut addr, &registry, lookup);
    assert!(matches!(step, Err(CallError::IncomingMismatch)));
    let step = incoming_call("+1-11", &mut addr, &registry, Lookup::NotMade);
    assert!(matches!(step, Err(CallError::IncomingMismatch)));
}

#[test]
fn incoming_call_where_nothing_resolves_is_a_mismatch() {
    let registry = AppRegistry::new();
    let mut addr = Address::new("google.com").unwrap();
    let lookup = Lookup::Answered(owned(&["v=spf1 -all"]));
    let step = incoming_call("+1-111", &mut addr, &registry, lookup);
    assert!(matches!(step, Err(CallError::IncomingMismatch)));
}

#[test]
fn incoming_call_uses_the_numbers_resolved_before() {
    let registry = AppRegistry::new();
    let mut addr = Address::new("modbay.net").unwrap();
    addr.resolve(false, Lookup::Answered(owned(&["tel=+1-111"]))).unwrap();
    let call = accepted(incoming_call("+1-111", &mut addr, &registry, Lookup::NotMade));
    assert_eq!(call.session.display(), "+1-111");
    let lookup = Lookup::Answered(owned(&["tel=+1-999"]));
    let step = incoming_call("+1-999", &mut addr, &registry, lookup);
    assert!(matches!(step, Err(CallError::IncomingMismatch)));
}

#[test]
fn incoming_call_hands_a_lookup_failure_on() {
    let registry = AppRegistry::new();
    let mut addr = Address::new("modbay.net").unwrap();
    let step = incoming_call("+1-111", &mut addr, &registry, Lookup::Failed("timeout".to_string()));
    match step {
        Err(CallError::Resolve(ResolveError::LookupError(cause))) => assert_eq!(cause, "timeout"),
        _ => panic!("no lookup error"),
    }
}

#[test]
fn call_error_in_words() {
    assert_eq!(
        CallError::IncomingMismatch.message(),
        "resolved numbers do not include incoming number"
    );
    assert_eq!(
        CallError::Resolve(ResolveError::EmptyResult).message(),
        "unable to pick address: empty list"
    );
    assert_eq!(
        CallError::Resolve(ResolveError::LookupError("timeout".to_string())).message(),
        "cannot resolve TXT: timeout"
    );
}
