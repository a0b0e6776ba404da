use vstd::prelude::*;
use vstd::string::{StrSliceExecFns, StringExecFns};
use crate::span::Span;

verus! {

/// How a group is delimited.
#[derive(Clone, Copy, Debug, PartialEq, Eq, Structural)]
pub enum Delimiter {
    Parenthesis,
    Brace,
    Bracket,
    Invisible,
}

/// Whether a punctuation mark is immediately followed by another one.
#[derive(Clone, Copy, Debug, PartialEq, Eq, Structural)]
pub enum Spacing {
    Alone,
    Joint,
}

/// A single punctuation character.
#[derive(Clone, Copy, Debug, PartialEq, Eq, Structural)]
pub struct Punct {
    pub ch: char,
    pub spacing: Spacing,
    pub span: Span,
}

/// An identifier; `raw` marks one written with the `r#` prefix.
#[derive(Clone, Debug)]
pub struct Ident {
    pub(crate) sym: String,
    pub(crate) span: Span,
    pub(crate) raw: bool,
}

/// A literal, kept as its exact source text.
#[derive(Clone, Debug)]
pub struct Literal {
    pub(crate) repr: String,
    pub(crate) span: Span,
}

/// A delimited sequence of tokens.
#[derive(Debug)]
pub struct Group {
    pub(crate) delimiter: Delimiter,
    pub(crate) stream: TokenStream,
    pub(crate) span: Span,
}

/// One token tree.
#[derive(Debug)]
pub enum TokenTree {
    Group(Group),
    Ident(Ident),
    Punct(Punct),
    Literal(Literal),
}

/// An ordered, owned sequence of token trees.
#[derive(Debug)]
pub struct TokenStream {
    pub(crate) inner: Vec<TokenTree>,
}

/// A token tree as plain values.
pub ghost enum TreeView {
    Group { delimiter: Delimiter, stream: Seq<TreeView>, span: Span },
    Ident { sym: Seq<char>, raw: bool, span: Span },
    Punct { ch: char, spacing: Spacing, span: Span },
    Literal { repr: Seq<char>, span: Span },
}

/// The plain-value form of one tree.
pub open(crate) spec fn tree_view(t: TokenTree) -> TreeView
    decreases t,
{
    match t {
        TokenTree::Group(g) => TreeView::Group {
            delimiter: g.delimiter,
            stream: trees_view(g.stream.inner@),
            span: g.span,
        },
        TokenTree::Ident(i) => TreeView::Ident { sym: i.sym@, raw: i.raw, span: i.span },
        TokenTree::Punct(p) => TreeView::Punct { ch: p.ch, spacing: p.spacing, span: p.span },
        TokenTree::Literal(l) => TreeView::Literal { repr: l.repr@, span: l.span },
    }
}

/// The plain-value form of a sequence of trees.
pub open(crate) spec fn trees_view(s: Seq<TokenTree>) -> Seq<TreeView>
    decreases s,
{
    if s.len() == 0 {
        seq![]
    } else {
        trees_view(s.subrange(0, s.len() - 1)).push(tree_view(s[s.len() - 1]))
    }
}

/// Lexing failed at `span`.
#[derive(Clone, Copy, Debug, PartialEq, Eq, Structural)]
pub struct LexError {
    pub span: Span,
}

impl LexError {
    pub fn span(&self) -> (r: Span)
        ensures
            r == self.span,
    {
        self.span
    }

    pub fn call_site() -> (r: LexError)
        ensures
            r.span.is_trivial(),
    {
        LexError { span: Span::call_site() }
    }

    /// What went wrong, in words.
    pub fn message(&self) -> (r: String)
        ensures
            r@ == "cannot parse string into token stream"@,
    {
        String::from_str("cannot parse string into token stream")
    }
}

impl Ident {
    pub open(crate) spec fn spec_sym(&self) -> Seq<char> {
        self.sym@
    }

    pub open(crate) spec fn spec_raw(&self) -> bool {
        self.raw
    }

    pub open(crate) spec fn spec_span(&self) -> Span {
        self.span
    }
}

impl Literal {
    pub open(crate) spec fn spec_repr(&self) -> Seq<char> {
        self.repr@
    }

    pub open(crate) spec fn spec_span(&self) -> Span {
        self.span
    }

    /// Whether the literal's text starts with a minus sign.
    pub open spec fn is_negative(&self) -> bool {
        self.spec_repr().len() > 0 && self.spec_repr()[0] == '-'
    }
}

impl TokenTree {
    pub open spec fn is_negative_literal(&self) -> bool {
        match self {
            TokenTree::Literal(l) => l.is_negative(),
            _ => false,
        }
    }
}

/// What pushing one tree appends: a literal whose text starts with a minus
/// becomes an `Alone` minus mark followed by the literal without it, both on
/// the literal's span; anything else is appended as it is.
pub open spec fn pushed_view(t: TreeView) -> Seq<TreeView> {
    match t {
        TreeView::Literal { repr, span } => if repr.len() > 0 && repr[0] == '-' {
            seq![
                TreeView::Punct { ch: '-', spacing: Spacing::Alone, span },
                TreeView::Literal { repr: repr.drop_first(), span },
            ]
        } else {
            seq![t]
        },
        _ => seq![t],
    }
}

/// What pushing each tree of `s` in turn appends.
pub open spec fn normalized(s: Seq<TreeView>) -> Seq<TreeView>
    decreases s.len(),
{
    if s.len() == 0 {
        seq![]
    } else {
        normalized(s.drop_last()) + pushed_view(s.last())
    }
}

/// The trees of all the streams of `s`, one stream after the other.
pub open spec fn concat_streams(s: Seq<TokenStream>) -> Seq<TreeView>
    decreases s.len(),
{
    if s.len() == 0 {
        seq![]
    } else {
        concat_streams(s.drop_last()) + s.last()@
    }
}

pub(crate) proof fn lemma_trees_view_push(s: Seq<TokenTree>, t: TokenTree)
    ensures
        trees_view(s.push(t)) == trees_view(s).push(tree_view(t)),
{
    assert(s.push(t).subrange(0, s.len() as int) =~= s);
}

proof fn lemma_trees_view_concat(a: Seq<TokenTree>, b: Seq<TokenTree>)
    ensures
        trees_view(a + b) == trees_view(a) + trees_view(b),
    decreases b.len(),
{
    if b.len() == 0 {
        assert(a + b =~= a);
        assert(trees_view(b) =~= seq![]);
        assert(trees_view(a) + trees_view(b) =~= trees_view(a));
    } else {
        let b0 = b.subrange(0, b.len() - 1);
        assert((a + b).subrange(0, (a + b).len() - 1) =~= a + b0);
        lemma_trees_view_concat(a, b0);
        assert(trees_view(a + b) =~= trees_view(a) + trees_view(b));
    }
}

pub(crate) proof fn lemma_trees_view_len(s: Seq<TokenTree>)
    ensures
        trees_view(s).len() == s.len(),
        forall|i: int| 0 <= i < s.len() ==> trees_view(s)[i] == tree_view(#[trigger] s[i]),
    decreases s.len(),
{
    if s.len() > 0 {
        let p = s.subrange(0, s.len() - 1);
        lemma_trees_view_len(p);
        assert forall|i: int| 0 <= i < s.len() implies trees_view(s)[i] == tree_view(
            #[trigger] s[i],
        ) by {
            if i < s.len() - 1 {
                assert(p[i] == s[i]);
            }
        }
    }
}

impl TokenStream {
    pub open(crate) spec fn view(&self) -> Seq<TreeView> {
        trees_view(self.inner@)
    }

    pub fn new() -> (r: TokenStream)
        ensures
            r@.len() == 0,
    {
        TokenStream { inner: Vec::new() }
    }

    pub fn is_empty(&self) -> (r: bool)
        ensures
            r == (self@.len() == 0),
    {
        self.inner.len() == 0
    }

    /// The trees of the stream, in order.
    pub fn as_trees(&self) -> (r: &Vec<TokenTree>)
        ensures
            trees_view(r@) == self@,
    {
        &self.inner
    }

    /// Moves the trees out, leaving the stream empty.
    fn take_inner(&mut self) -> (r: Vec<TokenTree>)
        ensures
            trees_view(r@) == old(self)@,
            final(self)@.len() == 0,
    {
        let mut out: Vec<TokenTree> = Vec::new();
        out.append(&mut self.inner);
        assert(out@ =~= old(self).inner@);
        assert(self.inner@ =~= Seq::<TokenTree>::empty());
        out
    }

    /// Appends `token`, splitting a literal with a leading minus into an
    /// `Alone` minus mark and the literal without its minus.
    pub fn push_token(&mut self, token: TokenTree)
        ensures
            final(self)@ == old(self)@ + pushed_view(tree_view(token)),
    {
        let ghost tv = tree_view(token);
        match token {
            TokenTree::Literal(lit) => {
                let n = lit.repr.as_str().unicode_len();
                if n > 0 && lit.repr.as_str().get_char(0) == '-' {
                    let rest = String::from_str(lit.repr.as_str().substring_char(1, n));
                    let minus = Punct { ch: '-', spacing: Spacing::Alone, span: lit.span };
                    let punct = TokenTree::Punct(minus);
                    let stripped = TokenTree::Literal(Literal { repr: rest, span: lit.span });
                    proof {
                        lemma_trees_view_push(self.inner@, punct);
                        lemma_trees_view_push(self.inner@.push(punct), stripped);
                    }
                    self.inner.push(punct);
                    self.inner.push(stripped);
                    assert(pushed_view(tv) =~= seq![tree_view(punct), tree_view(stripped)]);
                    assert(self@ =~= old(self)@ + pushed_view(tv));
                } else {
                    let t = TokenTree::Literal(lit);
                    proof { lemma_trees_view_push(self.inner@, t); }
                    self.inner.push(t);
                    assert(self@ =~= old(self)@ + pushed_view(tv));
                }
            },
            _ => {
                proof { lemma_trees_view_push(self.inner@, token); }
                self.inner.push(token);
                assert(self@ =~= old(self)@ + pushed_view(tv));
            },
        }
    }
}

/// The number of trees in `s`, counting those nested in groups.
pub closed spec fn trees_size(s: Seq<TokenTree>) -> nat
    decreases s,
{
    if s.len() == 0 {
        0
    } else {
        let last = s[s.len() - 1];
        let own: nat = match last {
            TokenTree::Group(g) => 1 + trees_size(g.stream.inner@),
            _ => 1,
        };
        trees_size(s.subrange(0, s.len() - 1)) + own
    }
}

proof fn lemma_trees_size_concat(a: Seq<TokenTree>, b: Seq<TokenTree>)
    ensures
        trees_size(a + b) == trees_size(a) + trees_size(b),
    decreases b.len(),
{
    if b.len() == 0 {
        assert(a + b =~= a);
    } else {
        let b0 = b.subrange(0, b.len() - 1);
        assert((a + b).subrange(0, (a + b).len() - 1) =~= a + b0);
        lemma_trees_size_concat(a, b0);
    }
}

impl TokenStream {
    /// A stream that holds `trees` as they are.
    pub fn from_vec(trees: Vec<TokenTree>) -> (r: TokenStream)
        ensures
            r@ == trees_view(trees@),
    {
        TokenStream { inner: trees }
    }

    /// A stream holding `tree`, pushed as `push_token` does.
    pub fn from_tree(tree: TokenTree) -> (r: TokenStream)
        ensures
            r@ == pushed_view(tree_view(tree)),
    {
        let mut stream = TokenStream::new();
        stream.push_token(tree);
        assert(stream@ =~= pushed_view(tree_view(tree)));
        stream
    }

    /// Pushes each of `trees` in order.
    pub fn extend_trees(&mut self, trees: Vec<TokenTree>)
        ensures
            final(self)@ == old(self)@ + normalized(trees_view(trees@)),
    {
        let ghost tv = trees_view(trees@);
        proof { lemma_trees_view_len(trees@); }
        for t in it: trees
            invariant
                it.seq() == trees@,
                tv == trees_view(trees@),
                tv.len() == trees@.len(),
                forall|i: int| 0 <= i < trees@.len() ==> tv[i] == tree_view(#[trigger] trees@[i]),
                self@ == old(self)@ + normalized(tv.take(it.index() as int)),
        {
            let ghost k = it.index() as int;
            self.push_token(t);
            assert(tv.take(k + 1).drop_last() =~= tv.take(k));
            assert(self@ =~= old(self)@ + normalized(tv.take(k + 1)));
        }
        assert(tv.take(tv.len() as int) =~= tv);
    }

    /// A stream holding `trees`, each pushed in order.
    pub fn from_trees(trees: Vec<TokenTree>) -> (r: TokenStream)
        ensures
            r@ == normalized(trees_view(trees@)),
    {
        let mut stream = TokenStream::new();
        stream.extend_trees(trees);
        assert(stream@ =~= normalized(trees_view(trees@)));
        stream
    }

    /// Appends the trees of each of `streams` in order, as they are.
    pub fn extend_streams(&mut self, streams: Vec<TokenStream>)
        ensures
            final(self)@ == old(self)@ + concat_streams(streams@),
    {
        let ghost all = streams@;
        for stream in it: streams
            invariant
                it.seq() == all,
                self@ == old(self)@ + concat_streams(all.take(it.index() as int)),
        {
            let ghost k = it.index() as int;
            let mut stream = stream;
            let mut nested = stream.take_inner();
            let ghost before = self.inner@;
            let ghost moved = nested@;
            self.inner.append(&mut nested);
            proof { lemma_trees_view_concat(before, moved); }
            assert(all.take(k + 1).drop_last() =~= all.take(k));
            assert(self@ =~= old(self)@ + concat_streams(all.take(k + 1)));
        }
        assert(all.take(all.len() as int) =~= all);
    }

    /// A stream holding the trees of each of `streams` in order.
    pub fn from_streams(streams: Vec<TokenStream>) -> (r: TokenStream)
        ensures
            r@ == concat_streams(streams@),
    {
        let mut stream = TokenStream::new();
        stream.extend_streams(streams);
        assert(stream@ =~= concat_streams(streams@));
        stream
    }

    /// The trees of the stream, in order.
    pub fn into_trees(self) -> (r: Vec<TokenTree>)
        ensures
            trees_view(r@) == self@,
    {
        let mut stream = self;
        stream.take_inner()
    }
}

/// A copy of `t`, nested groups included.
fn clone_tree(t: &TokenTree) -> (r: TokenTree)
    ensures
        tree_view(r) == tree_view(*t),
    decreases t,
{
    match t {
        TokenTree::Group(g) => {
            let inner = clone_trees(&g.stream.inner);
            let stream = TokenStream { inner };
            TokenTree::Group(Group { delimiter: g.delimiter, stream, span: g.span })
        },
        TokenTree::Ident(i) => {
            TokenTree::Ident(Ident { sym: i.sym.clone(), span: i.span, raw: i.raw })
        },
        TokenTree::Punct(p) => TokenTree::Punct(*p),
        TokenTree::Literal(l) => TokenTree::Literal(Literal { repr: l.repr.clone(), span: l.span }),
    }
}

/// A copy of each of `v`, in order.
fn clone_trees(v: &Vec<TokenTree>) -> (r: Vec<TokenTree>)
    ensures
        trees_view(r@) == trees_view(v@),
    decreases v,
{
    let mut out: Vec<TokenTree> = Vec::new();
    let mut i: usize = 0;
    while i < v.len()
        invariant
            i <= v@.len(),
            trees_view(out@) == trees_view(v@.take(i as int)),
        decreases v@.len() - i,
    {
        proof { broadcast use vstd::std_specs::vec::axiom_vec_index_decreases; }
        assert(decreases_to!(v => v[i as int]));
        let c = clone_tree(&v[i]);
        proof {
            lemma_trees_view_push(out@, c);
            lemma_trees_view_push(v@.take(i as int), v@[i as int]);
            assert(v@.take(i + 1) =~= v@.take(i as int).push(v@[i as int]));
        }
        out.push(c);
        i += 1;
    }
    assert(v@.take(v@.len() as int) =~= v@);
    out
}

impl Clone for TokenTree {
    fn clone(&self) -> (r: Self)
        ensures
            tree_view(r) == tree_view(*self),
    {
        clone_tree(self)
    }
}

impl Clone for TokenStream {
    fn clone(&self) -> (r: Self)
        ensures
            r@ == self@,
    {
        TokenStream { inner: clone_trees(&self.inner) }
    }
}

impl Clone for Group {
    fn clone(&self) -> (r: Self)
        ensures
            r.spec_delimiter() == self.spec_delimiter(),
            r.spec_stream() == self.spec_stream(),
            r.spec_span() == self.spec_span(),
    {
        let stream = TokenStream { inner: clone_trees(&self.stream.inner) };
        Group { delimiter: self.delimiter, stream, span: self.span }
    }
}

impl Group {
    pub open(crate) spec fn spec_delimiter(&self) -> Delimiter {
        self.delimiter
    }

    pub open(crate) spec fn spec_stream(&self) -> Seq<TreeView> {
        self.stream@
    }

    pub open(crate) spec fn spec_span(&self) -> Span {
        self.span
    }

    /// A group at the call site.
    pub fn new(delimiter: Delimiter, stream: TokenStream) -> (r: Group)
        ensures
            r.spec_delimiter() == delimiter,
            r.spec_stream() == stream@,
            r.spec_span().is_trivial(),
    {
        Group { delimiter, stream, span: Span::call_site() }
    }

    pub fn delimiter(&self) -> (r: Delimiter)
        ensures
            r == self.spec_delimiter(),
    {
        self.delimiter
    }

    /// A copy of the trees inside the group.
    pub fn stream(&self) -> (r: TokenStream)
        ensures
            r@ == self.spec_stream(),
    {
        TokenStream { inner: clone_trees(&self.stream.inner) }
    }

    pub fn span(&self) -> (r: Span)
        ensures
            r == self.spec_span(),
    {
        self.span
    }

    /// The span of the opening delimiter: the first byte of the group's span.
    pub fn span_open(&self) -> (r: Span)
        ensures
            r.lo == self.spec_span().lo,
            r.hi == (if self.spec_span().lo < self.spec_span().hi {
                self.spec_span().lo + 1
            } else {
                self.spec_span().hi as int
            }),
    {
        self.span.first_byte()
    }

    /// The span of the closing delimiter: the last byte of the group's span.
    pub fn span_close(&self) -> (r: Span)
        ensures
            r.hi == self.spec_span().hi,
            r.lo == (if self.spec_span().lo < self.spec_span().hi {
                self.spec_span().hi - 1
            } else {
                self.spec_span().lo as int
            }),
    {
        self.span.last_byte()
    }

    pub fn set_span(&mut self, span: Span)
        ensures
            final(self).spec_span() == span,
            final(self).spec_delimiter() == old(self).spec_delimiter(),
            final(self).spec_stream() == old(self).spec_stream(),
    {
        self.span = span;
    }
}

impl Punct {
    /// A punctuation mark at the call site.
    pub fn new(ch: char, spacing: Spacing) -> (r: Punct)
        ensures
            r.ch == ch,
            r.spacing == spacing,
            r.span.is_trivial(),
    {
        Punct { ch, spacing, span: Span::call_site() }
    }

    pub fn as_char(&self) -> (r: char)
        ensures
            r == self.ch,
    {
        self.ch
    }

    pub fn spacing(&self) -> (r: Spacing)
        ensures
            r == self.spacing,
    {
        self.spacing
    }

    pub fn span(&self) -> (r: Span)
        ensures
            r == self.span,
    {
        self.span
    }

    pub fn set_span(&mut self, span: Span)
        ensures
            *final(self) == (Punct { span, ..*old(self) }),
    {
        self.span = span;
    }
}

/// Relies on `Vec::pop`: removes and returns the last element, or `None` when
/// the vector is empty. It never allocates, so it neither panics nor unwinds.
#[verifier::external_body]
fn pop_tree(v: &mut Vec<TokenTree>) -> (r: Option<TokenTree>)
    ensures
        old(v)@.len() > 0 ==> r == Some(old(v)@.last()) && final(v)@ == old(v)@.drop_last(),
        old(v)@.len() == 0 ==> r is None && final(v)@ == old(v)@,
    opens_invariants none
    no_unwind
{
    v.pop()
}

/// Relies on `Vec::append`: moves every element of `other` to the end of `v`.
/// It panics only when the new capacity would pass `isize::MAX` bytes, which
/// the elements of two vectors that are already in memory cannot reach.
#[verifier::external_body]
fn append_trees(v: &mut Vec<TokenTree>, other: &mut Vec<TokenTree>)
    ensures
        final(v)@ == old(v)@ + old(other)@,
        final(other)@.len() == 0,
    opens_invariants none
    no_unwind
{
    v.append(other);
}

// Dropping a deeply nested stream through the ordinary recursive drop glue
// would use one stack frame per level: flatten the nested groups into this
// stream's own list first.
impl Drop for TokenStream {
    fn drop(&mut self)
        ensures
            final(self)@.len() == 0,
        opens_invariants none
        no_unwind
    {
        loop
            ensures
                self.inner@.len() == 0,
            decreases trees_size(self.inner@),
        {
            let ghost before = self.inner@;
            match pop_tree(&mut self.inner) {
                Some(token) => {
                    assert(before.subrange(0, before.len() - 1) =~= self.inner@);
                    match token {
                        TokenTree::Group(mut group) => {
                            let ghost rest = self.inner@;
                            let ghost nested = group.stream.inner@;
                            append_trees(&mut self.inner, &mut group.stream.inner);
                            proof { lemma_trees_size_concat(rest, nested); }
                        },
                        _ => {},
                    }
                },
                None => {
                    assert(trees_view(self.inner@) =~= Seq::<TreeView>::empty());
                    break;
                },
            }
        }
    }
}

} // verus!
