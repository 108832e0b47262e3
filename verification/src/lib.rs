//! Addresses that lead to phone numbers.
//!
//! An address is a phone number or a domain name. A phone number is called as
//! it is. A domain name is resolved to the numbers that the TXT records of its
//! DNS entry give, in the attribute `tel`; extra data written before the
//! domain name, up to the delimiter `._tel.`, names something more specific
//! under it, which an application of the system may know.
//!
//! The library reads addresses, writes them out, reads TXT records, keeps the
//! numbers that an address resolved to and picks one of them. It makes no DNS
//! lookup itself: a resolve names the query to make, and is asked again with
//! what the query gave.

pub mod address;
pub mod call;
pub mod os;
pub mod resolve;
pub mod session;
pub mod table;
pub mod text;
pub mod txt;
