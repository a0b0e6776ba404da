use vstd::prelude::*;
use vstd::string::StringExecFns;
use crate::text::push_char;
use crate::token::{
    lemma_trees_view_push, tree_view, trees_view, Delimiter, Group, Spacing, TokenStream,
    TokenTree, TreeView,
};

verus! {

pub open spec fn open_text(d: Delimiter) -> Seq<char> {
    match d {
        Delimiter::Parenthesis => seq!['('],
        Delimiter::Brace => seq!['{', ' '],
        Delimiter::Bracket => seq!['['],
        Delimiter::Invisible => seq![],
    }
}

pub open spec fn close_text(d: Delimiter) -> Seq<char> {
    match d {
        Delimiter::Parenthesis => seq![')'],
        Delimiter::Brace => seq!['}'],
        Delimiter::Bracket => seq![']'],
        Delimiter::Invisible => seq![],
    }
}

/// Whether a tree is a punctuation mark joined to what follows it.
pub open spec fn is_joint(t: TreeView) -> bool {
    t matches TreeView::Punct { spacing: Spacing::Joint, .. }
}

/// The printed form of one tree. A non-empty brace group gets a space
/// before its closing brace.
pub open spec fn tree_text(t: TreeView) -> Seq<char>
    decreases t,
{
    match t {
        TreeView::Group { delimiter, stream, .. } => open_text(delimiter) + stream_text(stream) + (
        if delimiter == Delimiter::Brace && stream.len() > 0 {
            seq![' ']
        } else {
            seq![]
        }) + close_text(delimiter),
        TreeView::Ident { sym, raw, .. } => if raw {
            seq!['r', '#'] + sym
        } else {
            sym
        },
        TreeView::Punct { ch, .. } => seq![ch],
        TreeView::Literal { repr, .. } => repr,
    }
}

/// The printed form of a sequence of trees: one space between neighbours,
/// except after a punctuation mark with `Joint` spacing.
pub open spec fn stream_text(s: Seq<TreeView>) -> Seq<char>
    decreases s,
{
    if s.len() == 0 {
        seq![]
    } else {
        let prev = s.subrange(0, s.len() - 1);
        stream_text(prev) + (if prev.len() > 0 && !is_joint(prev.last()) {
            seq![' ']
        } else {
            seq![]
        }) + tree_text(s[s.len() - 1])
    }
}

spec fn group_view(g: &Group) -> TreeView {
    TreeView::Group { delimiter: g.spec_delimiter(), stream: g.spec_stream(), span: g.spec_span() }
}

fn write_group(out: &mut String, g: &Group)
    ensures
        final(out)@ == old(out)@ + tree_text(group_view(g)),
    decreases g,
{
    let ghost start = out@;
    match g.delimiter {
        Delimiter::Parenthesis => push_char(out, '('),
        Delimiter::Brace => {
            push_char(out, '{');
            push_char(out, ' ');
        },
        Delimiter::Bracket => push_char(out, '['),
        Delimiter::Invisible => {},
    }
    let ghost opened = out@;
    write_trees(out, &g.stream.inner);
    if g.delimiter == Delimiter::Brace && g.stream.inner.len() > 0 {
        push_char(out, ' ');
    }
    match g.delimiter {
        Delimiter::Parenthesis => push_char(out, ')'),
        Delimiter::Brace => push_char(out, '}'),
        Delimiter::Bracket => push_char(out, ']'),
        Delimiter::Invisible => {},
    }
    proof { crate::token::lemma_trees_view_len(g.stream.inner@); }
    assert(opened =~= start + open_text(g.delimiter));
    assert(out@ =~= start + tree_text(group_view(g)));
}

fn write_tree(out: &mut String, t: &TokenTree)
    ensures
        final(out)@ == old(out)@ + tree_text(tree_view(*t)),
    decreases t,
{
    match t {
        TokenTree::Group(g) => {
            write_group(out, g);
        },
        TokenTree::Ident(i) => {
            if i.raw {
                push_char(out, 'r');
                push_char(out, '#');
            }
            out.append(i.sym.as_str());
            assert(out@ =~= old(out)@ + tree_text(tree_view(*t)));
        },
        TokenTree::Punct(p) => {
            push_char(out, p.ch);
        },
        TokenTree::Literal(l) => {
            out.append(l.repr.as_str());
        },
    }
}

fn write_trees(out: &mut String, v: &Vec<TokenTree>)
    ensures
        final(out)@ == old(out)@ + stream_text(trees_view(v@)),
    decreases v,
{
    let ghost start = out@;
    let mut joint = false;
    let mut i: usize = 0;
    proof { crate::token::lemma_trees_view_len(v@); }
    while i < v.len()
        invariant
            i <= v@.len(),
            trees_view(v@).len() == v@.len(),
            forall|j: int| 0 <= j < v@.len() ==> trees_view(v@)[j] == tree_view(#[trigger] v@[j]),
            out@ == start + stream_text(trees_view(v@.take(i as int))),
            i > 0 ==> joint == is_joint(tree_view(v@[i - 1])),
        decreases v@.len() - i,
    {
        if i != 0 && !joint {
            push_char(out, ' ');
        }
        proof { broadcast use vstd::std_specs::vec::axiom_vec_index_decreases; }
        assert(decreases_to!(v => v[i as int]));
        write_tree(out, &v[i]);
        joint = match &v[i] {
            TokenTree::Punct(p) => p.spacing == Spacing::Joint,
            _ => false,
        };
        proof {
            let pre = v@.take(i as int);
            let s = trees_view(v@.take(i + 1));
            assert(v@.take(i + 1) =~= pre.push(v@[i as int]));
            lemma_trees_view_push(pre, v@[i as int]);
            assert(s.subrange(0, s.len() - 1) =~= trees_view(pre));
            crate::token::lemma_trees_view_len(pre);
            if i > 0 {
                assert(pre[i - 1] == v@[i - 1]);
            }
        }
        i += 1;
        assert(out@ =~= start + stream_text(trees_view(v@.take(i as int))));
    }
    assert(v@.take(v@.len() as int) =~= v@);
}

impl TokenStream {
    /// The printed form of the stream.
    pub fn to_text(&self) -> (r: String)
        ensures
            r@ == stream_text(self@),
    {
        let mut out = String::new();
        write_trees(&mut out, &self.inner);
        out
    }
}

impl Group {
    /// The printed form of the group, delimiters included.
    pub fn to_text(&self) -> (r: String)
        ensures
            r@ == tree_text(TreeView::Group {
                delimiter: self.spec_delimiter(),
                stream: self.spec_stream(),
                span: self.spec_span(),
            }),
    {
        let mut out = String::new();
        write_group(&mut out, self);
        out
    }
}

} // verus!
