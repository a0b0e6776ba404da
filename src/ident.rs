use vstd::prelude::*;
use vstd::string::{StrSliceExecFns, StringExecFns};
use crate::span::Span;
use crate::token::Ident;

verus! {

/// Whether `c` has the Unicode property `XID_Start`.
pub uninterp spec fn xid_start(c: char) -> bool;

/// Whether `c` has the Unicode property `XID_Continue`.
pub uninterp spec fn xid_continue(c: char) -> bool;

/// Relies on `unicode_ident::is_xid_start`: whether `c` has `XID_Start`.
#[verifier::external_body]
fn is_xid_start(c: char) -> (r: bool)
    ensures
        r == xid_start(c),
{
    unicode_ident::is_xid_start(c)
}

/// Relies on `unicode_ident::is_xid_continue`: whether `c` has `XID_Continue`.
#[verifier::external_body]
fn is_xid_continue(c: char) -> (r: bool)
    ensures
        r == xid_continue(c),
{
    unicode_ident::is_xid_continue(c)
}

pub open spec fn ident_start(c: char) -> bool {
    c == '_' || xid_start(c)
}

pub open spec fn is_digit(c: char) -> bool {
    '0' <= c && c <= '9'
}

/// The words that cannot be written as raw identifiers.
pub open spec fn reserved_raw(s: Seq<char>) -> bool {
    s == "_"@ || s == "super"@ || s == "self"@ || s == "Self"@ || s == "crate"@
}

/// A valid identifier: not empty, not all decimal digits, an identifier
/// start followed by identifier continue characters, and, when raw, none of
/// the reserved words.
pub open spec fn valid_ident(s: Seq<char>, raw: bool) -> bool {
    &&& s.len() > 0
    &&& !(forall|i: int| 0 <= i < s.len() ==> is_digit(#[trigger] s[i]))
    &&& ident_start(s[0])
    &&& forall|i: int| 1 <= i < s.len() ==> xid_continue(#[trigger] s[i])
    &&& raw ==> !reserved_raw(s)
}

pub fn is_ident_start(c: char) -> (r: bool)
    ensures
        r == ident_start(c),
{
    c == '_' || is_xid_start(c)
}

pub fn is_ident_continue(c: char) -> (r: bool)
    ensures
        r == xid_continue(c),
{
    is_xid_continue(c)
}

fn same_text(a: &str, b: &str) -> (r: bool)
    ensures
        r == (a@ == b@),
{
    String::from_str(a) == String::from_str(b)
}

/// Whether `string` is a valid identifier, raw when `raw` is set.
pub fn validate_ident(string: &str, raw: bool) -> (r: bool)
    ensures
        r == valid_ident(string@, raw),
{
    let n = string.unicode_len();
    if n == 0 {
        return false;
    }
    let mut all_digits = true;
    for c in it: string.chars()
        invariant
            it.seq() == string@,
            all_digits == (forall|j: int| 0 <= j < it.index() ==> is_digit(#[trigger] string@[j])),
    {
        if !('0' <= c && c <= '9') {
            all_digits = false;
        }
    }
    if all_digits {
        return false;
    }
    if !is_ident_start(string.get_char(0)) {
        return false;
    }
    let mut first = true;
    for c in it: string.chars()
        invariant
            it.seq() == string@,
            first == (it.index() == 0),
            forall|j: int| 1 <= j < it.index() ==> xid_continue(#[trigger] string@[j]),
    {
        if !first && !is_ident_continue(c) {
            return false;
        }
        first = false;
    }
    if raw {
        if same_text(string, "_") || same_text(string, "super") || same_text(string, "self")
            || same_text(string, "Self") || same_text(string, "crate") {
            return false;
        }
    }
    true
}

impl Ident {
    /// The identifier's invariant: its symbol is valid for its rawness.
    pub open spec fn wf(&self) -> bool {
        valid_ident(self.spec_sym(), self.spec_raw())
    }

    fn _new(string: &str, raw: bool, span: Span) -> (r: Ident)
        requires
            valid_ident(string@, raw),
        ensures
            r.wf(),
            r.spec_sym() == string@,
            r.spec_raw() == raw,
            r.spec_span() == span,
    {
        Ident { sym: String::from_str(string), span, raw }
    }

    /// An identifier; `string` must be a valid one.
    pub fn new(string: &str, span: Span) -> (r: Ident)
        requires
            valid_ident(string@, false),
        ensures
            r.wf(),
            r.spec_sym() == string@,
            !r.spec_raw(),
            r.spec_span() == span,
    {
        Ident::_new(string, false, span)
    }

    /// A raw identifier, written `r#string`; `string` must be valid as one.
    pub fn new_raw(string: &str, span: Span) -> (r: Ident)
        requires
            valid_ident(string@, true),
        ensures
            r.wf(),
            r.spec_sym() == string@,
            r.spec_raw(),
            r.spec_span() == span,
    {
        Ident::_new(string, true, span)
    }

    /// The identifier `string`, or `None` where it is not a valid one.
    pub fn try_new(string: &str, span: Span) -> (r: Option<Ident>)
        ensures
            r is Some <==> valid_ident(string@, false),
            r matches Some(i) ==> i.wf() && i.spec_sym() == string@ && !i.spec_raw()
                && i.spec_span() == span,
    {
        if validate_ident(string, false) {
            Some(Ident::new(string, span))
        } else {
            None
        }
    }

    /// The raw identifier `r#string`, or `None` where it is not a valid one.
    pub fn try_new_raw(string: &str, span: Span) -> (r: Option<Ident>)
        ensures
            r is Some <==> valid_ident(string@, true),
            r matches Some(i) ==> i.wf() && i.spec_sym() == string@ && i.spec_raw()
                && i.spec_span() == span,
    {
        if validate_ident(string, true) {
            Some(Ident::new_raw(string, span))
        } else {
            None
        }
    }

    pub fn span(&self) -> (r: Span)
        ensures
            r == self.spec_span(),
    {
        self.span
    }

    pub fn set_span(&mut self, span: Span)
        ensures
            final(self).spec_span() == span,
            final(self).spec_sym() == old(self).spec_sym(),
            final(self).spec_raw() == old(self).spec_raw(),
    {
        self.span = span;
    }

    /// Whether the identifier reads as `other`: a raw identifier must be
    /// written with its `r#` prefix.
    pub fn eq_str(&self, other: &str) -> (r: bool)
        ensures
            r == (if self.spec_raw() {
                other@.len() >= 2 && other@[0] == 'r' && other@[1] == '#' && other@.skip(2)
                    == self.spec_sym()
            } else {
                other@ == self.spec_sym()
            }),
    {
        if self.raw {
            let n = other.unicode_len();
            if n < 2 || other.get_char(0) != 'r' || other.get_char(1) != '#' {
                return false;
            }
            let rest = String::from_str(other.substring_char(2, n));
            assert(other@.subrange(2, n as int) =~= other@.skip(2));
            rest == self.sym
        } else {
            String::from_str(other) == self.sym
        }
    }

    /// The identifier as written: `r#` before a raw one.
    pub fn to_text(&self) -> (r: String)
        ensures
            r@ == (if self.spec_raw() { "r#"@ + self.spec_sym() } else { self.spec_sym() }),
    {
        if self.raw {
            let mut s = String::from_str("r#");
            s.append(self.sym.as_str());
            s
        } else {
            self.sym.clone()
        }
    }
}

impl PartialEq for Ident {
    fn eq(&self, other: &Ident) -> (r: bool) {
        self.sym == other.sym && self.raw == other.raw
    }
}

impl vstd::std_specs::cmp::PartialEqSpecImpl for Ident {
    open spec fn obeys_eq_spec() -> bool {
        true
    }

    open spec fn eq_spec(&self, other: &Ident) -> bool {
        self.spec_sym() == other.spec_sym() && self.spec_raw() == other.spec_raw()
    }
}

} // verus!
