//! Symbolic jump and call targets.
//!
//! A label is an opaque name wrapped in `$$` on both ends, matched by value
//! equality against label-marker instructions found by scanning the program.

use crate::text::{trim, trim_spec};
use vstd::prelude::*;
use vstd::string::{StrSliceExecFns, StringExecFns};

verus! {

/// Whether a character sequence has the shape of a label: wrapped in `$$` on
/// both ends.
pub open spec fn label_shape(s: Seq<char>) -> bool {
    s.len() >= 2 && s[0] == '$' && s[1] == '$' && s[s.len() - 1] == '$' && s[s.len() - 2] == '$'
}

/// A symbolic jump or call target.
#[derive(Debug, PartialEq, Eq)]
pub struct Label(String);

impl View for Label {
    type V = Seq<char>;

    closed spec fn view(&self) -> Seq<char> {
        self.0@
    }
}

impl Clone for Label {
    fn clone(&self) -> (r: Self)
        ensures
            r@ == self@,
    {
        Label(self.0.clone())
    }
}

impl Label {
    /// Makes a label from its text; the text must be a `$$`-wrapped name once
    /// trimmed, any other text being rejected outright.
    pub fn new(s: &str) -> (r: Self)
        requires
            label_shape(trim_spec(s@)),
        ensures
            r@ == trim_spec(s@),
    {
        Label(trim(s))
    }

    /// Reads a label from text, `None` where the trimmed text is not
    /// `$$`-wrapped.
    pub fn from_str(s: &str) -> (r: Option<Label>)
        ensures
            match r {
                Some(l) => label_shape(trim_spec(s@)) && l@ == trim_spec(s@),
                None => !label_shape(trim_spec(s@)),
            },
    {
        let t = trim(s);
        let n: usize = t.as_str().unicode_len();
        if n >= 2 && t.as_str().get_char(0) == '$' && t.as_str().get_char(1) == '$'
            && t.as_str().get_char(n - 1) == '$' && t.as_str().get_char(n - 2) == '$' {
            Some(Label(t))
        } else {
            None
        }
    }

    /// Whether two labels carry the same name.
    pub fn same_as(&self, other: &Label) -> (r: bool)
        ensures
            r == (self@ == other@),
    {
        String::eq(&self.0, &other.0)
    }

    /// The label's text.
    pub fn as_text(&self) -> (r: &str)
        ensures
            r@ == self@,
    {
        self.0.as_str()
    }
}

/// Builds the conventional label for a named entity of a kind: the kind and
/// the name joined by an underscore, wrapped in `$$`.
pub fn label(ty: &str, name: &str) -> (r: Label)
    ensures
        r@ == "$$"@ + ty@ + "_"@ + name@ + "$$"@,
{
    let mut s = String::new();
    s.append("$$");
    s.append(ty);
    s.append("_");
    s.append(name);
    s.append("$$");
    Label(s)
}

} // verus!
