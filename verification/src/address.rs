//! Addresses: reading them, writing them out, and resolving them.

use crate::os::{App, AppRegistry};
use crate::resolve::{
    is_single_of, outcome, pick_number, Lookup, LookupView, ResolveError, ResolveErrorView,
    Resolved, Step, StepView,
};
use crate::text::{
    contains_char, first_occurrence, join, lemma_first_occurrence, spec_join, spec_split_once,
    split_once, starts_with_char,
};
use crate::txt::{parse_txt, spec_parse_txt, TEL_NUMBER_DELIMITER};
use vstd::prelude::*;

verus! {

/// What stands between the extra data and the domain name in a raw address.
pub const EXTRA_DATA_DELIMITER: &'static str = "._tel.";

/// Why a raw address is no address.
#[derive(Debug, PartialEq, Eq, Clone, Copy, Structural)]
pub enum ParseError {
    /// It has no `.` in it and does not begin with `+`.
    InvalidAddress,
}

impl ParseError {
    /// The error in words.
    pub fn message(&self) -> (r: String)
        ensures
            r@ == "not a valid domain name or phone number"@,
    {
        "not a valid domain name or phone number".to_owned()
    }
}

/// A domain address: a domain name, the extra data that stood before it, and the
/// numbers that it resolved to.
pub struct DomainAddress {
    // domain name with the extra data stripped
    addr: String,
    // extra path, if there was one
    extra_data: Option<String>,
    // resolved phone numbers: `None` before the first lookup, possibly empty after
    resolved: Option<Vec<String>>,
}

/// A domain address, as contracts see one.
pub struct DomainView {
    pub addr: Seq<char>,
    pub extra_data: Option<Seq<char>>,
    pub resolved: Option<Seq<Seq<char>>>,
}

impl View for DomainAddress {
    type V = DomainView;

    closed spec fn view(&self) -> DomainView {
        DomainView {
            addr: self.addr@,
            extra_data: self.extra_data.deep_view(),
            resolved: self.resolved.deep_view(),
        }
    }
}

impl DomainView {
    /// The domain address that `raw` stands for: what precedes the first
    /// delimiter is extra data, and nothing has been resolved.
    pub open spec fn parse(raw: Seq<char>) -> DomainView {
        match spec_split_once(raw, EXTRA_DATA_DELIMITER@) {
            Some((extra, addr)) => DomainView { addr, extra_data: Some(extra), resolved: None },
            None => DomainView { addr: raw, extra_data: None, resolved: None },
        }
    }

    /// The address as it is written: extra data, delimiter, domain name.
    pub open spec fn raw_addr(self) -> Seq<char> {
        match self.extra_data {
            Some(extra) => extra + EXTRA_DATA_DELIMITER@ + self.addr,
            None => self.addr,
        }
    }

    /// The address as shown to a reader: the domain name, an arrow, and the
    /// resolved numbers, `-` for none or `[unresolved]` before any lookup.
    pub open spec fn display(self) -> Seq<char> {
        self.addr + " -> "@ + match self.resolved {
            Some(numbers) => {
                if numbers.len() == 0 {
                    "-"@
                } else {
                    spec_join(numbers, TEL_NUMBER_DELIMITER@)
                }
            },
            None => "[unresolved]"@,
        }
    }

    /// A domain address is written with a `.` in it.
    pub open spec fn wf(self) -> bool {
        self.raw_addr().contains('.')
    }

    /// What the application registered under the domain name says of itself.
    pub open spec fn general_info<A: App>(self, app_registry: AppRegistry<A>) -> Option<
        Seq<char>,
    > {
        app_registry.general_info(self.addr)
    }

    /// What that application knows of the extra data, where there is any.
    pub open spec fn extra_info<A: App>(self, app_registry: AppRegistry<A>) -> Option<Seq<char>> {
        match self.extra_data {
            Some(extra) => app_registry.extra_info(self.addr, extra),
            None => None,
        }
    }

    /// One resolve of the address: the address after it, and what it comes to.
    /// Numbers that were resolved before answer at once unless `refresh` is
    /// set. Else the lookup decides: where none was made the query is named,
    /// a failure is handed on, and an answer is read, kept and returned.
    pub open spec fn resolve(self, refresh: bool, lookup: LookupView) -> (DomainView, Resolved) {
        if !refresh && self.resolved is Some {
            (self, Ok(StepView::Done(self.resolved->0)))
        } else {
            match lookup {
                LookupView::NotMade => (self, Ok(StepView::Query(self.raw_addr()))),
                LookupView::Failed(cause) => (self, Err(ResolveErrorView::LookupError(cause))),
                LookupView::Answered(records) => {
                    let numbers = spec_parse_txt(records);
                    (
                        DomainView { resolved: Some(numbers), ..self },
                        Ok(StepView::Done(numbers)),
                    )
                },
            }
        }
    }
}

impl Clone for DomainAddress {
    fn clone(&self) -> (r: Self)
        ensures
            r@ == self@,
    {
        DomainAddress {
            addr: self.addr.clone(),
            extra_data: self.extra_data.clone(),
            resolved: self.resolved.clone(),
        }
    }
}

impl DomainAddress {
    fn new(addr: &str) -> (r: Self)
        ensures
            r@ == DomainView::parse(addr@),
    {
        match split_once(addr, EXTRA_DATA_DELIMITER) {
            Some((extra_data, addr_clean)) => DomainAddress {
                addr: addr_clean,
                extra_data: Some(extra_data),
                resolved: None,
            },
            None => DomainAddress { addr: addr.to_owned(), extra_data: None, resolved: None },
        }
    }

    /// The domain name, without the extra data.
    pub fn addr(&self) -> (r: &String)
        ensures
            r@ == self@.addr,
    {
        &self.addr
    }

    /// The extra data that stood before the domain name, if any did.
    pub fn extra_data(&self) -> (r: &Option<String>)
        ensures
            r.deep_view() == self@.extra_data,
    {
        &self.extra_data
    }

    /// The numbers that the address resolved to: `None` before the first
    /// answer, and possibly empty after it.
    pub fn resolved(&self) -> (r: &Option<Vec<String>>)
        ensures
            r.deep_view() == self@.resolved,
    {
        &self.resolved
    }

    /// The raw DNS address, extra path included.
    pub fn raw_addr(&self) -> (r: String)
        ensures
            r@ == self@.raw_addr(),
    {
        match &self.extra_data {
            Some(extra) => {
                let mut r = extra.clone();
                r.append(EXTRA_DATA_DELIMITER);
                r.append(self.addr.as_str());
                r
            },
            None => self.addr.clone(),
        }
    }

    /// The address as shown to a reader.
    pub fn display(&self) -> (r: String)
        ensures
            r@ == self@.display(),
    {
        let mut r = self.addr.clone();
        r.append(" -> ");
        match &self.resolved {
            Some(resolved) => {
                if resolved.len() == 0 {
                    r.append("-");
                } else {
                    r.append(join(resolved, TEL_NUMBER_DELIMITER).as_str());
                }
            },
            None => {
                r.append("[unresolved]");
            },
        }
        r
    }

    /// Resolves the address to its phone numbers, as far as `lookup` allows, and
    /// keeps the numbers of a fresh answer.
    pub fn resolve(&mut self, refresh: bool, lookup: Lookup) -> (r: Result<
        Step<Vec<String>>,
        ResolveError,
    >)
        ensures
            (final(self)@, outcome(r)) == old(self)@.resolve(refresh, lookup@),
    {
        if !refresh {
            if let Some(resolved) = &self.resolved {
                return Ok(Step::Done(resolved.clone()));
            }
        }
        match lookup {
            Lookup::NotMade => Ok(Step::Query(self.raw_addr())),
            Lookup::Failed(cause) => Err(ResolveError::LookupError(cause)),
            Lookup::Answered(txts) => {
                let resolved = parse_txt(&txts);
                self.resolved = Some(resolved.clone());
                Ok(Step::Done(resolved))
            },
        }
    }

    /// What the application registered under the domain name says of itself.
    pub fn general_info<A: App>(&self, app_registry: &AppRegistry<A>) -> (r: Option<String>)
        ensures
            r.deep_view() == self@.general_info(*app_registry),
    {
        app_registry.get_general_info(self.addr.as_str())
    }

    /// What that application knows of the extra data, where there is any.
    pub fn fetch_extra_info<A: App>(&self, app_registry: &AppRegistry<A>) -> (r: Option<String>)
        ensures
            r.deep_view() == self@.extra_info(*app_registry),
    {
        match &self.extra_data {
            Some(extra) => app_registry.get_extra_info(self.addr.as_str(), extra.as_str()),
            None => None,
        }
    }
}

/// An address: a phone number as it is, or a domain address to resolve.
pub enum Address {
    PhoneNumber(String),
    DomainName(DomainAddress),
}

/// An address, as contracts see one.
pub enum AddressView {
    PhoneNumber(Seq<char>),
    DomainName(DomainView),
}

/// What reading a raw address comes to.
pub type Parsed = Result<AddressView, ParseError>;

impl View for Address {
    type V = AddressView;

    open spec fn view(&self) -> AddressView {
        match self {
            Address::PhoneNumber(number) => AddressView::PhoneNumber(number@),
            Address::DomainName(domain) => AddressView::DomainName(domain@),
        }
    }
}

impl AddressView {
    /// What `raw` stands for: a domain address if it has a `.` in it, else a
    /// phone number if it begins with `+`, else nothing.
    pub open spec fn parse(raw: Seq<char>) -> Parsed {
        if raw.contains('.') {
            Ok(AddressView::DomainName(DomainView::parse(raw)))
        } else if raw.len() > 0 && raw[0] == '+' {
            Ok(AddressView::PhoneNumber(raw))
        } else {
            Err(ParseError::InvalidAddress)
        }
    }

    /// The address as it is written.
    pub open spec fn raw_addr(self) -> Seq<char> {
        match self {
            AddressView::PhoneNumber(number) => number,
            AddressView::DomainName(domain) => domain.raw_addr(),
        }
    }

    /// The address as shown to a reader.
    pub open spec fn display(self) -> Seq<char> {
        match self {
            AddressView::PhoneNumber(number) => number,
            AddressView::DomainName(domain) => domain.display(),
        }
    }

    /// One resolve of the address. A phone number resolves to itself, whatever
    /// `refresh` and `lookup` are; a domain address resolves as a domain address.
    pub open spec fn resolve(self, refresh: bool, lookup: LookupView) -> (AddressView, Resolved) {
        match self {
            AddressView::PhoneNumber(number) => (self, Ok(StepView::Done(seq![number]))),
            AddressView::DomainName(domain) => {
                let (after, result) = domain.resolve(refresh, lookup);
                (AddressView::DomainName(after), result)
            },
        }
    }

    /// A phone number begins with `+` and has no `.` in it; a domain address is
    /// written with one.
    pub open spec fn wf(self) -> bool {
        match self {
            AddressView::PhoneNumber(number) => number.len() > 0 && number[0] == '+'
                && !number.contains('.'),
            AddressView::DomainName(domain) => domain.wf(),
        }
    }
}

impl Clone for Address {
    fn clone(&self) -> (r: Self)
        ensures
            r@ == self@,
    {
        match self {
            Address::PhoneNumber(number) => Address::PhoneNumber(number.clone()),
            Address::DomainName(domain) => Address::DomainName(domain.clone()),
        }
    }
}

impl Address {
    /// Reads an address.
    pub fn new(addr: &str) -> (r: Result<Self, ParseError>)
        ensures
            match r {
                Ok(address) => AddressView::parse(addr@) == Parsed::Ok(address@),
                Err(e) => AddressView::parse(addr@) == Parsed::Err(e),
            },
            r matches Ok(address) ==> address@.wf() && address@.raw_addr() == addr@,
    {
        proof {
            lemma_parsed_address(addr@);
        }
        if contains_char(addr, '.') {
            Ok(Address::DomainName(DomainAddress::new(addr)))
        } else if starts_with_char(addr, '+') {
            Ok(Address::PhoneNumber(addr.to_owned()))
        } else {
            Err(ParseError::InvalidAddress)
        }
    }

    /// The address as it is written.
    pub fn raw_addr(&self) -> (r: String)
        ensures
            r@ == self@.raw_addr(),
    {
        match self {
            Address::PhoneNumber(addr) => addr.clone(),
            Address::DomainName(addr) => addr.raw_addr(),
        }
    }

    /// Resolves the address to its phone numbers, as far as `lookup` allows. A
    /// phone number resolves to itself alone, whatever `refresh` and `lookup`.
    pub fn resolve(&mut self, refresh: bool, lookup: Lookup) -> (r: Result<
        Step<Vec<String>>,
        ResolveError,
    >)
        ensures
            (final(self)@, outcome(r)) == old(self)@.resolve(refresh, lookup@),
            old(self)@ matches AddressView::PhoneNumber(number) ==> final(self)@ == old(self)@
                && outcome(r) == Resolved::Ok(StepView::Done(seq![number])),
    {
        match self {
            Address::PhoneNumber(addr) => {
                let mut numbers: Vec<String> = Vec::new();
                numbers.push(addr.clone());
                assert(numbers.deep_view() =~= seq![addr@]);
                Ok(Step::Done(numbers))
            },
            Address::DomainName(addr) => addr.resolve(refresh, lookup),
        }
    }

    /// Resolves the address once and picks one of its numbers at random: never a
    /// number that it did not resolve to, and `EmptyResult` where it resolved to
    /// none.
    pub fn resolve_single(&mut self, refresh: bool, lookup: Lookup) -> (r: Result<
        Step<String>,
        ResolveError,
    >)
        ensures
            final(self)@ == old(self)@.resolve(refresh, lookup@).0,
            is_single_of(old(self)@.resolve(refresh, lookup@).1, outcome(r)),
    {
        match self.resolve(refresh, lookup) {
            Ok(Step::Done(resolved)) => {
                match pick_number(&resolved) {
                    Ok(number) => Ok(Step::Done(number)),
                    Err(e) => Err(e),
                }
            },
            Ok(Step::Query(name)) => Ok(Step::Query(name)),
            Err(e) => Err(e),
        }
    }

    /// The address as shown to a reader.
    pub fn display(&self) -> (r: String)
        ensures
            r@ == self@.display(),
    {
        match self {
            Address::PhoneNumber(phone_addr) => phone_addr.clone(),
            Address::DomainName(domain_addr) => domain_addr.display(),
        }
    }
}

/// Writing out what was read gives back what was read: the domain address that
/// `raw` stands for is written as `raw`.
pub proof fn lemma_parse_keeps_raw_addr(raw: Seq<char>)
    ensures
        DomainView::parse(raw).raw_addr() == raw,
{
    let delimiter = EXTRA_DATA_DELIMITER@;
    lemma_first_occurrence(raw, delimiter);
    if let Some(i) = first_occurrence(raw, delimiter) {
        let end = i + delimiter.len();
        assert(raw.take(i) + raw.subrange(i, end) + raw.skip(end) =~= raw);
    }
}

/// Every address that is read is well formed and is written as it was read.
pub proof fn lemma_parsed_address(raw: Seq<char>)
    ensures
        AddressView::parse(raw) matches Ok(address) ==> address.wf() && address.raw_addr() == raw,
{
    lemma_parse_keeps_raw_addr(raw);
}

/// Round trip: a well-formed domain address, with extra data or without, is
/// read from its raw form as a domain address with the same raw form.
pub proof fn lemma_raw_addr_round_trip(domain: DomainView)
    requires
        domain.wf(),
    ensures
        AddressView::parse(domain.raw_addr()) matches Ok(AddressView::DomainName(again))
            && again.raw_addr() == domain.raw_addr(),
{
    lemma_parse_keeps_raw_addr(domain.raw_addr());
}

/// A domain address with extra data is always well formed: the delimiter has a
/// `.` in it.
pub proof fn lemma_extra_data_is_well_formed(domain: DomainView)
    requires
        domain.extra_data is Some,
    ensures
        domain.wf(),
{
    reveal_strlit("._tel.");
    let extra = domain.extra_data->0;
    assert(domain.raw_addr()[extra.len() as int] == '.');
}

/// Cache: once a lookup has answered, a resolve without `refresh` gives the
/// same numbers again and names no query, whatever it is told of a lookup.
pub proof fn lemma_resolve_cached(
    domain: DomainView,
    refresh: bool,
    records: Seq<Seq<char>>,
    lookup: LookupView,
)
    ensures
        ({
            let (resolved, numbers) = domain.resolve(refresh, LookupView::Answered(records));
            &&& numbers is Ok
            &&& numbers->Ok_0 is Done
            &&& resolved.resolve(false, lookup) == (resolved, numbers)
        }),
{
}

/// Refresh: with `refresh` set, numbers resolved before count for nothing. The
/// query is named again, and the numbers are those of the new answer.
pub proof fn lemma_refresh_looks_up_again(domain: DomainView, records: Seq<Seq<char>>)
    ensures
        domain.resolve(true, LookupView::NotMade) == (
            domain,
            Resolved::Ok(StepView::Query(domain.raw_addr())),
        ),
        domain.resolve(true, LookupView::Answered(records)) == (
            DomainView { resolved: Some(spec_parse_txt(records)), ..domain },
            Resolved::Ok(StepView::Done(spec_parse_txt(records))),
        ),
{
}

/// A failed lookup fails the resolve: where the lookup was needed, its cause is
/// handed on, no numbers resolved before are given in place of new ones, and
/// the address stays as it was.
pub proof fn lemma_lookup_failure_fails_resolve(
    domain: DomainView,
    refresh: bool,
    cause: Seq<char>,
)
    requires
        refresh || domain.resolved is None,
    ensures
        domain.resolve(refresh, LookupView::Failed(cause)) == (
            domain,
            Resolved::Err(ResolveErrorView::LookupError(cause)),
        ),
{
}

/// One lookup is enough: a resolve that is told what the lookup gave asks for
/// no other.
pub proof fn lemma_resolve_asks_once(address: AddressView, refresh: bool, lookup: LookupView)
    requires
        lookup !is NotMade,
    ensures
        !(address.resolve(refresh, lookup).1 matches Ok(StepView::Query(_))),
{
}

/// A resolve changes nothing of an address but the numbers it resolved to, and
/// never forgets that it was resolved.
pub proof fn lemma_resolve_keeps_address(domain: DomainView, refresh: bool, lookup: LookupView)
    ensures
        ({
            let after = domain.resolve(refresh, lookup).0;
            &&& after.addr == domain.addr
            &&& after.extra_data == domain.extra_data
            &&& domain.resolved is Some ==> after.resolved is Some
        }),
{
}

} // verus!
