use vstd::prelude::*;
use vstd::string::{StrSliceExecFns, StringExecFns};
use crate::ident::is_digit;
use crate::span::Span;
use crate::text::{digits_of, int_text, push_char, push_int};
use crate::token::{LexError, Literal};

verus! {

/// What `char::escape_debug` turns `c` into.
pub uninterp spec fn debug_escape(c: char) -> Seq<char>;

/// Relies on `char::escape_debug`: the characters it yields for `c`.
#[verifier::external_body]
fn escape_debug(c: char) -> (r: String)
    ensures
        r@ == debug_escape(c),
{
    c.escape_debug().to_string()
}

/// The body of a string literal for `s`: each character escaped as
/// `escape_debug` does, but for `'`, which stays as it is.
pub open spec fn escaped_str(s: Seq<char>) -> Seq<char>
    decreases s.len(),
{
    if s.len() == 0 {
        seq![]
    } else {
        let c = s.last();
        escaped_str(s.drop_last()) + (if c == '\'' { seq![c] } else { debug_escape(c) })
    }
}

/// The upper-case hexadecimal digit of `d < 16`.
pub open spec fn hex_digit(d: int) -> char {
    if d < 10 { (d + 48) as char } else { (d + 55) as char }
}

/// How one byte is written inside a byte-string literal.
pub open spec fn byte_escape(b: u8) -> Seq<char> {
    if b == 0 {
        seq!['\\', '0']
    } else if b == 9 {
        seq!['\\', 't']
    } else if b == 10 {
        seq!['\\', 'n']
    } else if b == 13 {
        seq!['\\', 'r']
    } else if b == 34 {
        seq!['\\', '"']
    } else if b == 92 {
        seq!['\\', '\\']
    } else if 0x20 <= b <= 0x7e {
        seq![b as char]
    } else {
        seq!['\\', 'x', hex_digit(b as int / 16), hex_digit(b as int % 16)]
    }
}

/// The escaped body of a byte-string literal for `bs`.
pub open spec fn escaped_bytes(bs: Seq<u8>) -> Seq<char>
    decreases bs.len(),
{
    if bs.len() == 0 {
        seq![]
    } else {
        escaped_bytes(bs.drop_last()) + byte_escape(bs.last())
    }
}

/// The text of a floating literal from the decimal rendering `s` of its
/// value: `.0` is added where `s` holds no point.
pub open spec fn float_text(s: Seq<char>) -> Seq<char> {
    if s.contains('.') { s } else { s + ".0"@ }
}

/// Whether literal text starts with a minus sign.
pub open spec fn starts_negative(s: Seq<char>) -> bool {
    s.len() > 0 && s[0] == '-'
}

/// Literal text that may be parsed: where it starts with a minus, a decimal
/// digit must follow.
pub open spec fn sign_ok(s: Seq<char>) -> bool {
    starts_negative(s) ==> s.len() > 1 && is_digit(s[1])
}

/// The text handed to the lexer: `s` without its leading minus.
pub open spec fn unsigned_part(s: Seq<char>) -> Seq<char> {
    if starts_negative(s) { s.skip(1) } else { s }
}

/// The text of a parsed literal: the lexed text `repr`, with the minus put
/// back where the input had one.
pub open spec fn signed_repr(negative: bool, repr: Seq<char>) -> Seq<char> {
    if negative { seq!['-'] + repr } else { repr }
}

/// Literal text that parsing gives back unchanged, where the lexer reads the
/// text after the sign back whole as one literal: the sign check passes, and
/// putting the sign back restores the text.
pub open spec fn reparses(s: Seq<char>) -> bool {
    sign_ok(s) && signed_repr(starts_negative(s), unsigned_part(s)) == s
}

/// Splitting off the sign and putting it back is the identity on every text
/// that passes the sign check.
pub proof fn lemma_sign_round_trip(s: Seq<char>)
    requires
        sign_ok(s),
    ensures
        reparses(s),
{
    if starts_negative(s) {
        assert(seq!['-'] + s.skip(1) =~= s);
    }
}

proof fn lemma_digits_start(n: nat)
    ensures
        digits_of(n).len() > 0,
        is_digit(digits_of(n)[0]),
    decreases n,
{
    if n >= 10 {
        lemma_digits_start(n / 10);
    }
}

/// The text of every integer literal, suffixed or not, parses back to itself.
pub proof fn lemma_integer_round_trip(n: int, suffix: Seq<char>)
    ensures
        reparses(int_text(n) + suffix),
{
    let s = int_text(n) + suffix;
    if n < 0 {
        lemma_digits_start((-n) as nat);
        assert(s[1] == digits_of((-n) as nat)[0]);
    } else {
        lemma_digits_start(n as nat);
        assert(s[0] == digits_of(n as nat)[0]);
    }
    lemma_sign_round_trip(s);
}

/// The text of every string literal parses back to itself.
pub proof fn lemma_string_round_trip(t: Seq<char>)
    ensures
        reparses(seq!['"'] + escaped_str(t) + seq!['"']),
{
    let s = seq!['"'] + escaped_str(t) + seq!['"'];
    assert(s[0] == '"');
    lemma_sign_round_trip(s);
}

/// The text of every character literal parses back to itself.
pub proof fn lemma_character_round_trip(c: char)
    ensures
        reparses(seq!['\''] + (if c == '"' { seq!['"'] } else { debug_escape(c) }) + seq!['\'']),
{
    let s = seq!['\''] + (if c == '"' { seq!['"'] } else { debug_escape(c) }) + seq!['\''];
    assert(s[0] == '\'');
    lemma_sign_round_trip(s);
}

/// The text of every byte-string literal parses back to itself.
pub proof fn lemma_byte_string_round_trip(bs: Seq<u8>)
    ensures
        reparses(seq!['b', '"'] + escaped_bytes(bs) + seq!['"']),
{
    let s = seq!['b', '"'] + escaped_bytes(bs) + seq!['"'];
    assert(s[0] == 'b');
    lemma_sign_round_trip(s);
}

/// The text of every floating literal made from a non-empty rendering that
/// passes the sign check (a digit first, or a minus and a digit) parses back
/// to itself, with or without a suffix.
pub proof fn lemma_float_round_trip(s: Seq<char>, suffix: Seq<char>)
    requires
        s.len() > 0,
        sign_ok(s),
    ensures
        reparses(float_text(s)),
        reparses(s + suffix),
{
    let f = float_text(s);
    let t = s + suffix;
    assert(f[0] == s[0]);
    assert(t[0] == s[0]);
    if starts_negative(s) {
        assert(f[1] == s[1]);
        assert(t[1] == s[1]);
    }
    lemma_sign_round_trip(f);
    lemma_sign_round_trip(t);
}

fn push_hex(out: &mut String, d: u8)
    requires
        d < 16,
    ensures
        final(out)@ == old(out)@.push(hex_digit(d as int)),
{
    if d < 10 {
        push_char(out, (d + 48) as char);
    } else {
        push_char(out, (d + 55) as char);
    }
}

impl Literal {
    /// A literal with the text `repr`, at the call site.
    pub fn _new(repr: String) -> (r: Literal)
        ensures
            r.spec_repr() == repr@,
            r.spec_span().is_trivial(),
    {
        Literal { repr, span: Span::call_site() }
    }

    fn signed_digits(n: i128) -> (r: String)
        ensures
            r@ == int_text(n as int),
    {
        let mut repr = String::new();
        push_int(&mut repr, n);
        repr
    }

    fn unsigned_digits(n: u128) -> (r: String)
        ensures
            r@ == int_text(n as int),
    {
        let mut repr = String::new();
        crate::text::push_digits(&mut repr, n);
        repr
    }

    fn integer(n: i128, suffix: &str) -> (r: Literal)
        ensures
            r.spec_repr() == int_text(n as int) + suffix@,
            r.spec_span().is_trivial(),
    {
        let mut repr = Literal::signed_digits(n);
        repr.append(suffix);
        Literal::_new(repr)
    }

    fn unsigned(n: u128, suffix: &str) -> (r: Literal)
        ensures
            r.spec_repr() == int_text(n as int) + suffix@,
            r.spec_span().is_trivial(),
    {
        let mut repr = Literal::unsigned_digits(n);
        repr.append(suffix);
        Literal::_new(repr)
    }

    /// The literal `nu8`.
    pub fn u8_suffixed(n: u8) -> (r: Literal)
        ensures
            r.spec_repr() == int_text(n as int) + "u8"@,
            r.spec_span().is_trivial(),
    {
        Literal::unsigned(n as u128, "u8")
    }

    /// The literal `nu16`.
    pub fn u16_suffixed(n: u16) -> (r: Literal)
        ensures
            r.spec_repr() == int_text(n as int) + "u16"@,
            r.spec_span().is_trivial(),
    {
        Literal::unsigned(n as u128, "u16")
    }

    /// The literal `nu32`.
    pub fn u32_suffixed(n: u32) -> (r: Literal)
        ensures
            r.spec_repr() == int_text(n as int) + "u32"@,
            r.spec_span().is_trivial(),
    {
        Literal::unsigned(n as u128, "u32")
    }

    /// The literal `nu64`.
    pub fn u64_suffixed(n: u64) -> (r: Literal)
        ensures
            r.spec_repr() == int_text(n as int) + "u64"@,
            r.spec_span().is_trivial(),
    {
        Literal::unsigned(n as u128, "u64")
    }

    /// The literal `nu128`.
    pub fn u128_suffixed(n: u128) -> (r: Literal)
        ensures
            r.spec_repr() == int_text(n as int) + "u128"@,
            r.spec_span().is_trivial(),
    {
        Literal::unsigned(n as u128, "u128")
    }

    /// The literal `nusize`.
    pub fn usize_suffixed(n: usize) -> (r: Literal)
        ensures
            r.spec_repr() == int_text(n as int) + "usize"@,
            r.spec_span().is_trivial(),
    {
        Literal::unsigned(n as u128, "usize")
    }

    /// The literal `ni8`.
    pub fn i8_suffixed(n: i8) -> (r: Literal)
        ensures
            r.spec_repr() == int_text(n as int) + "i8"@,
            r.spec_span().is_trivial(),
    {
        Literal::integer(n as i128, "i8")
    }

    /// The literal `ni16`.
    pub fn i16_suffixed(n: i16) -> (r: Literal)
        ensures
            r.spec_repr() == int_text(n as int) + "i16"@,
            r.spec_span().is_trivial(),
    {
        Literal::integer(n as i128, "i16")
    }

    /// The literal `ni32`.
    pub fn i32_suffixed(n: i32) -> (r: Literal)
        ensures
            r.spec_repr() == int_text(n as int) + "i32"@,
            r.spec_span().is_trivial(),
    {
        Literal::integer(n as i128, "i32")
    }

    /// The literal `ni64`.
    pub fn i64_suffixed(n: i64) -> (r: Literal)
        ensures
            r.spec_repr() == int_text(n as int) + "i64"@,
            r.spec_span().is_trivial(),
    {
        Literal::integer(n as i128, "i64")
    }

    /// The literal `ni128`.
    pub fn i128_suffixed(n: i128) -> (r: Literal)
        ensures
            r.spec_repr() == int_text(n as int) + "i128"@,
            r.spec_span().is_trivial(),
    {
        Literal::integer(n as i128, "i128")
    }

    /// The literal `nisize`.
    pub fn isize_suffixed(n: isize) -> (r: Literal)
        ensures
            r.spec_repr() == int_text(n as int) + "isize"@,
            r.spec_span().is_trivial(),
    {
        Literal::integer(n as i128, "isize")
    }

    /// The literal `n` without a suffix.
    pub fn u8_unsuffixed(n: u8) -> (r: Literal)
        ensures
            r.spec_repr() == int_text(n as int),
            r.spec_span().is_trivial(),
    {
        Literal::_new(Literal::unsigned_digits(n as u128))
    }

    /// The literal `n` without a suffix.
    pub fn u16_unsuffixed(n: u16) -> (r: Literal)
        ensures
            r.spec_repr() == int_text(n as int),
            r.spec_span().is_trivial(),
    {
        Literal::_new(Literal::unsigned_digits(n as u128))
    }

    /// The literal `n` without a suffix.
    pub fn u32_unsuffixed(n: u32) -> (r: Literal)
        ensures
            r.spec_repr() == int_text(n as int),
            r.spec_span().is_trivial(),
    {
        Literal::_new(Literal::unsigned_digits(n as u128))
    }

    /// The literal `n` without a suffix.
    pub fn u64_unsuffixed(n: u64) -> (r: Literal)
        ensures
            r.spec_repr() == int_text(n as int),
            r.spec_span().is_trivial(),
    {
        Literal::_new(Literal::unsigned_digits(n as u128))
    }

    /// The literal `n` without a suffix.
    pub fn u128_unsuffixed(n: u128) -> (r: Literal)
        ensures
            r.spec_repr() == int_text(n as int),
            r.spec_span().is_trivial(),
    {
        Literal::_new(Literal::unsigned_digits(n as u128))
    }

    /// The literal `n` without a suffix.
    pub fn usize_unsuffixed(n: usize) -> (r: Literal)
        ensures
            r.spec_repr() == int_text(n as int),
            r.spec_span().is_trivial(),
    {
        Literal::_new(Literal::unsigned_digits(n as u128))
    }

    /// The literal `n` without a suffix.
    pub fn i8_unsuffixed(n: i8) -> (r: Literal)
        ensures
            r.spec_repr() == int_text(n as int),
            r.spec_span().is_trivial(),
    {
        Literal::_new(Literal::signed_digits(n as i128))
    }

    /// The literal `n` without a suffix.
    pub fn i16_unsuffixed(n: i16) -> (r: Literal)
        ensures
            r.spec_repr() == int_text(n as int),
            r.spec_span().is_trivial(),
    {
        Literal::_new(Literal::signed_digits(n as i128))
    }

    /// The literal `n` without a suffix.
    pub fn i32_unsuffixed(n: i32) -> (r: Literal)
        ensures
            r.spec_repr() == int_text(n as int),
            r.spec_span().is_trivial(),
    {
        Literal::_new(Literal::signed_digits(n as i128))
    }

    /// The literal `n` without a suffix.
    pub fn i64_unsuffixed(n: i64) -> (r: Literal)
        ensures
            r.spec_repr() == int_text(n as int),
            r.spec_span().is_trivial(),
    {
        Literal::_new(Literal::signed_digits(n as i128))
    }

    /// The literal `n` without a suffix.
    pub fn i128_unsuffixed(n: i128) -> (r: Literal)
        ensures
            r.spec_repr() == int_text(n as int),
            r.spec_span().is_trivial(),
    {
        Literal::_new(Literal::signed_digits(n as i128))
    }

    /// The literal `n` without a suffix.
    pub fn isize_unsuffixed(n: isize) -> (r: Literal)
        ensures
            r.spec_repr() == int_text(n as int),
            r.spec_span().is_trivial(),
    {
        Literal::_new(Literal::signed_digits(n as i128))
    }

    /// A floating literal from the decimal rendering `s` of its value, made
    /// unambiguous with `.0` where `s` holds no point.
    pub fn float_unsuffixed(s: &str) -> (r: Literal)
        ensures
            r.spec_repr() == float_text(s@),
            r.spec_span().is_trivial(),
    {
        let mut has_point = false;
        for c in it: s.chars()
            invariant
                it.seq() == s@,
                has_point == (exists|j: int| 0 <= j < it.index() && s@[j] == '.'),
        {
            if c == '.' {
                has_point = true;
            }
        }
        let mut repr = String::from_str(s);
        if !has_point {
            repr.append(".0");
        }
        assert(has_point == s@.contains('.'));
        Literal::_new(repr)
    }

    /// A floating literal from the decimal rendering `s` of its value and a
    /// type suffix.
    pub fn float_suffixed(s: &str, suffix: &str) -> (r: Literal)
        ensures
            r.spec_repr() == s@ + suffix@,
            r.spec_span().is_trivial(),
    {
        let mut repr = String::from_str(s);
        repr.append(suffix);
        Literal::_new(repr)
    }

    /// A string literal holding `t`.
    pub fn string(t: &str) -> (r: Literal)
        ensures
            r.spec_repr() == seq!['"'] + escaped_str(t@) + seq!['"'],
            r.spec_span().is_trivial(),
    {
        let mut repr = String::new();
        push_char(&mut repr, '"');
        for c in it: t.chars()
            invariant
                it.seq() == t@,
                repr@ == seq!['"'] + escaped_str(t@.take(it.index() as int)),
        {
            let ghost i = it.index() as int;
            if c == '\'' {
                push_char(&mut repr, c);
            } else {
                let e = escape_debug(c);
                repr.append(e.as_str());
            }
            assert(t@.take(i + 1).drop_last() =~= t@.take(i));
            assert(repr@ =~= seq!['"'] + escaped_str(t@.take(i + 1)));
        }
        assert(t@.take(t@.len() as int) =~= t@);
        push_char(&mut repr, '"');
        Literal::_new(repr)
    }

    /// A character literal holding `t`; a double quote stays unescaped.
    pub fn character(t: char) -> (r: Literal)
        ensures
            r.spec_repr() == seq!['\''] + (if t == '"' { seq!['"'] } else { debug_escape(t) })
                + seq!['\''],
            r.spec_span().is_trivial(),
    {
        let mut repr = String::new();
        push_char(&mut repr, '\'');
        if t == '"' {
            push_char(&mut repr, t);
        } else {
            let e = escape_debug(t);
            repr.append(e.as_str());
        }
        push_char(&mut repr, '\'');
        Literal::_new(repr)
    }

    /// A byte-string literal holding `bytes`.
    pub fn byte_string(bytes: &[u8]) -> (r: Literal)
        ensures
            r.spec_repr() == seq!['b', '"'] + escaped_bytes(bytes@) + seq!['"'],
            r.spec_span().is_trivial(),
    {
        let mut escaped = String::new();
        push_char(&mut escaped, 'b');
        push_char(&mut escaped, '"');
        let mut i: usize = 0;
        while i < bytes.len()
            invariant
                i <= bytes@.len(),
                escaped@ == seq!['b', '"'] + escaped_bytes(bytes@.take(i as int)),
            decreases bytes@.len() - i,
        {
            let b = bytes[i];
            let ghost before = escaped@;
            if b == 0 {
                push_char(&mut escaped, '\\');
                push_char(&mut escaped, '0');
            } else if b == 9 {
                push_char(&mut escaped, '\\');
                push_char(&mut escaped, 't');
            } else if b == 10 {
                push_char(&mut escaped, '\\');
                push_char(&mut escaped, 'n');
            } else if b == 13 {
                push_char(&mut escaped, '\\');
                push_char(&mut escaped, 'r');
            } else if b == 34 {
                push_char(&mut escaped, '\\');
                push_char(&mut escaped, '"');
            } else if b == 92 {
                push_char(&mut escaped, '\\');
                push_char(&mut escaped, '\\');
            } else if 0x20 <= b && b <= 0x7e {
                push_char(&mut escaped, b as char);
            } else {
                push_char(&mut escaped, '\\');
                push_char(&mut escaped, 'x');
                push_hex(&mut escaped, b / 16);
                push_hex(&mut escaped, b % 16);
            }
            assert(escaped@ =~= before + byte_escape(b));
            assert(bytes@.take(i + 1).drop_last() =~= bytes@.take(i as int));
            i += 1;
            assert(escaped@ =~= seq!['b', '"'] + escaped_bytes(bytes@.take(i as int)));
        }
        assert(bytes@.take(bytes@.len() as int) =~= bytes@);
        push_char(&mut escaped, '"');
        Literal::_new(escaped)
    }

    pub fn span(&self) -> (r: Span)
        ensures
            r == self.spec_span(),
    {
        self.span
    }

    pub fn set_span(&mut self, span: Span)
        ensures
            final(self).spec_span() == span,
            final(self).spec_repr() == old(self).spec_repr(),
    {
        self.span = span;
    }

    /// Spans inside a literal are not tracked: there is never a sub-span.
    pub fn subspan<R: std::ops::RangeBounds<usize>>(&self, range: R) -> (r: Option<Span>)
        ensures
            r is None,
    {
        None
    }

    /// The literal's text.
    pub fn to_text(&self) -> (r: String)
        ensures
            r@ == self.spec_repr(),
    {
        self.repr.clone()
    }
}

impl Literal {
    /// The first step of parsing literal text: splits off a leading minus,
    /// which must be followed by a decimal digit, and returns whether there
    /// was one with the text that the lexer is to read.
    pub fn split_sign(repr: &str) -> (r: Result<(bool, String), LexError>)
        ensures
            r is Ok <==> sign_ok(repr@),
            r matches Ok((neg, rest)) ==> neg == starts_negative(repr@) && rest@ == unsigned_part(
                repr@,
            ),
            r matches Err(e) ==> e.span.is_trivial(),
    {
        let n = repr.unicode_len();
        if n > 0 && repr.get_char(0) == '-' {
            if n < 2 || !('0' <= repr.get_char(1) && repr.get_char(1) <= '9') {
                return Err(LexError::call_site());
            }
            let rest = String::from_str(repr.substring_char(1, n));
            assert(repr@.subrange(1, n as int) =~= repr@.skip(1));
            Ok((true, rest))
        } else {
            Ok((false, String::from_str(repr)))
        }
    }

    /// The last step of parsing literal text: `text` is what the lexer read
    /// and `lexed` the literal it found at its start, if any. Succeeds only
    /// where that literal covers all of `text`, and puts the minus back.
    pub fn complete_parse(negative: bool, text: &str, lexed: Option<Literal>) -> (r: Result<
        Literal,
        LexError,
    >)
        ensures
            r is Ok <==> (lexed matches Some(m) && m.spec_repr().len() == text@.len()),
            r matches Ok(l) ==> (lexed matches Some(m) && l.spec_repr() == signed_repr(
                negative,
                m.spec_repr(),
            ) && l.spec_span() == m.spec_span()),
            r matches Err(e) ==> e.span.is_trivial(),
    {
        match lexed {
            Some(lit) => {
                if lit.repr.as_str().unicode_len() == text.unicode_len() {
                    if negative {
                        let mut repr = String::from_str("-");
                        repr.append(lit.repr.as_str());
                        proof { reveal_strlit("-"); }
                        assert(repr@ =~= seq!['-'] + lit.repr@);
                        Ok(Literal { repr, span: lit.span })
                    } else {
                        Ok(lit)
                    }
                } else {
                    Err(LexError::call_site())
                }
            },
            None => Err(LexError::call_site()),
        }
    }
}

} // verus!
