//! Texts of values.

use crate::util::text;
use vstd::prelude::*;
use vstd::string::StringExecFns;

verus! {

/// A value that can be shown to a human.
pub trait Describe {
    /// The text of the value.
    open spec fn text(&self) -> Seq<char> {
        arbitrary()
    }

    /// Returns the text of the value.
    fn describe(&self) -> (r: String)
        ensures
            r@ == self.text(),
    ;
}

impl Describe for u64 {
    /// The number in decimal.
    open spec fn text(&self) -> Seq<char> {
        text::decimal(*self as nat)
    }

    fn describe(&self) -> (r: String) {
        let mut out = String::new();
        text::push_decimal(&mut out, *self as u128);
        assert(out@ =~= self.text());
        out
    }
}

impl Describe for String {
    /// The string itself.
    open spec fn text(&self) -> Seq<char> {
        self@
    }

    fn describe(&self) -> (r: String) {
        let mut out = String::new();
        out.append(self.as_str());
        assert(out@ =~= self.text());
        out
    }
}

/// `before`, then `name`, then `after`.
pub open spec fn around(before: Seq<char>, name: Seq<char>, after: Seq<char>) -> Seq<char> {
    before + name + after
}

/// Returns `before`, then `name`, then `after`.
pub fn put_around(before: &str, name: &str, after: &str) -> (r: String)
    ensures
        r@ == around(before@, name@, after@),
{
    let mut out = String::new();
    out.append(before);
    out.append(name);
    out.append(after);
    assert(out@ =~= around(before@, name@, after@));
    out
}

/// Returns two texts, the one behind the other.
pub fn put_behind(before: String, after: &str) -> (r: String)
    ensures
        r@ == before@ + after@,
{
    let mut out = before;
    out.append(after);
    out
}

} // verus!
