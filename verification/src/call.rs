//! Setting up outgoing and incoming calls over addresses.

use crate::address::{Address, AddressView};
use crate::os::{App, AppRegistry};
use crate::resolve::{
    is_single_of, outcome, Lookup, LookupView, ResolveError, ResolveErrorView, Step, StepView,
};
use crate::session::Session;
use crate::text::contains_text;
use vstd::prelude::*;

verus! {

/// Why a call was not set up.
#[derive(Debug, PartialEq, Eq)]
pub enum CallError {
    /// The address of the call did not resolve.
    Resolve(ResolveError),
    /// The number that calls is none of those that its address resolves to.
    IncomingMismatch,
}

/// A call error, as contracts see one.
pub enum CallErrorView {
    Resolve(ResolveErrorView),
    IncomingMismatch,
}

impl View for CallError {
    type V = CallErrorView;

    open spec fn view(&self) -> CallErrorView {
        match self {
            CallError::Resolve(e) => CallErrorView::Resolve(e@),
            CallError::IncomingMismatch => CallErrorView::IncomingMismatch,
        }
    }
}

impl Clone for CallError {
    fn clone(&self) -> (r: Self)
        ensures
            r@ == self@,
    {
        match self {
            CallError::Resolve(e) => CallError::Resolve(e.clone()),
            CallError::IncomingMismatch => CallError::IncomingMismatch,
        }
    }
}

impl CallErrorView {
    /// The error in words.
    pub open spec fn message(self) -> Seq<char> {
        match self {
            CallErrorView::Resolve(e) => e.message(),
            CallErrorView::IncomingMismatch => "resolved numbers do not include incoming number"@,
        }
    }
}

impl CallError {
    /// The error in words.
    pub fn message(&self) -> (r: String)
        ensures
            r@ == self@.message(),
    {
        match self {
            CallError::Resolve(e) => e.message(),
            CallError::IncomingMismatch => {
                "resolved numbers do not include incoming number".to_owned()
            },
        }
    }
}

/// An incoming call that was accepted: its session, and what the applications
/// of the system say of the address that it claims.
pub struct IncomingCall {
    pub session: Session,
    pub description: Option<String>,
    pub extra: Option<String>,
}

/// An accepted incoming call, as contracts see one.
pub struct IncomingCallView {
    pub session: Seq<char>,
    pub description: Option<Seq<char>>,
    pub extra: Option<Seq<char>>,
}

impl DeepView for IncomingCall {
    type V = IncomingCallView;

    open spec fn deep_view(&self) -> IncomingCallView {
        IncomingCallView {
            session: self.session@,
            description: self.description.deep_view(),
            extra: self.extra.deep_view(),
        }
    }
}

/// Sets up a call to `addr`: resolves it without refresh, as far as `lookup`
/// allows, and opens a session with one of its numbers.
pub fn outgoing_call(addr: &mut Address, lookup: Lookup) -> (r: Result<Step<Session>, ResolveError>)
    ensures
        final(addr)@ == old(addr)@.resolve(false, lookup@).0,
        is_single_of(old(addr)@.resolve(false, lookup@).1, outcome(r)),
{
    match addr.resolve_single(false, lookup) {
        Ok(Step::Done(ph_number)) => Ok(Step::Done(Session::new(ph_number.as_str()))),
        Ok(Step::Query(name)) => Ok(Step::Query(name)),
        Err(e) => Err(e),
    }
}

/// What becomes of a call from `ph_number` that claims the address `addr`. A
/// phone number as address is taken as it is, and nothing is said of it. A
/// domain address is resolved without refresh: the call is accepted if
/// `ph_number` is one of its numbers, and is a mismatch if it is not.
pub open spec fn spec_incoming_call<A: App>(
    ph_number: Seq<char>,
    addr: AddressView,
    app_registry: AppRegistry<A>,
    lookup: LookupView,
) -> Result<StepView<IncomingCallView>, CallErrorView> {
    match addr {
        AddressView::PhoneNumber(_) => Ok(
            StepView::Done(
                IncomingCallView { session: ph_number, description: None, extra: None },
            ),
        ),
        AddressView::DomainName(domain) => match domain.resolve(false, lookup).1 {
            Ok(StepView::Done(numbers)) => {
                if numbers.contains(ph_number) {
                    Ok(
                        StepView::Done(
                            IncomingCallView {
                                session: ph_number,
                                description: domain.general_info(app_registry),
                                extra: domain.extra_info(app_registry),
                            },
                        ),
                    )
                } else {
                    Err(CallErrorView::IncomingMismatch)
                }
            },
            Ok(StepView::Query(name)) => Ok(StepView::Query(name)),
            Err(e) => Err(CallErrorView::Resolve(e)),
        },
    }
}

/// Takes a call from `ph_number` that claims the address `addr`, as far as
/// `lookup` allows.
pub fn incoming_call<A: App>(
    ph_number: &str,
    addr: &mut Address,
    app_registry: &AppRegistry<A>,
    lookup: Lookup,
) -> (r: Result<Step<IncomingCall>, CallError>)
    ensures
        final(addr)@ == old(addr)@.resolve(false, lookup@).0,
        outcome(r) == spec_incoming_call(ph_number@, old(addr)@, *app_registry, lookup@),
{
    match addr {
        Address::PhoneNumber(_) => Ok(
            Step::Done(
                IncomingCall { session: Session::new(ph_number), description: None, extra: None },
            ),
        ),
        Address::DomainName(dn) => {
            let resolved = match dn.resolve(false, lookup) {
                Ok(Step::Done(resolved)) => resolved,
                Ok(Step::Query(name)) => {
                    return Ok(Step::Query(name));
                },
                Err(e) => {
                    return Err(CallError::Resolve(e));
                },
            };
            if !contains_text(&resolved, ph_number) {
                return Err(CallError::IncomingMismatch);
            }
            let description = dn.general_info(app_registry);
            let extra = dn.fetch_extra_info(app_registry);
            Ok(Step::Done(IncomingCall { session: Session::new(ph_number), description, extra }))
        },
    }
}

} // verus!
