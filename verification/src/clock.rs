//! The local time as text. Each call reads the clock, so nothing is stated of
//! what comes back.

use vstd::prelude::*;

verus! {

/// `Local::now` and then `DateTime::format`, written out with
/// `DelayedFormat::write_to`: the local time in the given `strftime` format,
/// or `None` where the format cannot be written.
#[verifier::external_body]
pub(crate) fn format_now(format: &str) -> (text: Option<String>) {
    let mut out = String::new();
    match chrono::Local::now().format(format).write_to(&mut out) {
        Ok(()) => Some(out),
        Err(_) => None,
    }
}

/// `Local::now` and then `DateTime::format_with_items` for the RFC 2822 item,
/// written out with `DelayedFormat::write_to`: the local time as RFC 2822
/// writes it, or `None` where the year has no four digits.
#[verifier::external_body]
pub(crate) fn rfc2822_now() -> (text: Option<String>) {
    let items = [chrono::format::Item::Fixed(chrono::format::Fixed::RFC2822)];
    let mut out = String::new();
    match chrono::Local::now().format_with_items(items.iter()).write_to(&mut out) {
        Ok(()) => Some(out),
        Err(_) => None,
    }
}

} // verus!
