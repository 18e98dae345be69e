//! Optional-value display helper: a piece of text that is shown, with a
//! `{}` placeholder substituted, only when a value is present.

use vstd::prelude::*;

use crate::text::{replace_all, spec_replace};

verus! {

/// A text template paired with an optional value; rendering yields the
/// empty string when the value is absent.
pub struct OptDisplay<T> {
    pub text: &'static str,
    pub value: Option<T>,
}

impl<T> OptDisplay<T> {
    pub fn new(text: &'static str, value: Option<T>) -> (r: Self)
        ensures
            r.text == text,
            r.value == value,
    {
        Self { text, value }
    }

    /// Render the template, substituting `shown` (the value's textual form)
    /// for each `{}` placeholder; an absent value renders as nothing.
    pub fn render(&self, shown: &str) -> (r: String)
        ensures
            self.value is Some ==> r@ == spec_replace(self.text@, "{}"@, shown@),
            self.value is None ==> r@ == Seq::<char>::empty(),
    {
        match &self.value {
            Some(_) => {
                proof {
                    reveal_strlit("{}");
                }
                replace_all(self.text, "{}", shown)
            },
            None => String::new(),
        }
    }
}

/// Adapter from an optional value to an [`OptDisplay`] of it.
pub trait MaybeDisplay<T>: Sized {
    fn display(self, text: &'static str) -> OptDisplay<T>;
}

impl<'a, T> MaybeDisplay<&'a T> for Option<&'a T> {
    fn display(self, text: &'static str) -> (r: OptDisplay<&'a T>) {
        OptDisplay::new(text, self)
    }
}

} // verus!
