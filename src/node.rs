use vstd::prelude::*;
use vstd::string::*;

use crate::number::{int_text, render_int};
use crate::result::CmdType;

verus! {

/// The stored value of a property.
#[derive(Debug)]
pub enum Value {
    Int(i64),
    Text(String),
}

/// A property value as a mathematical value.
pub ghost enum ValueView {
    Int(int),
    Text(Seq<char>),
}

/// A registry node as a mathematical value.
pub ghost enum NodeView {
    Prop { value: ValueView, default: ValueView, description: Seq<char> },
    List,
    Action { description: Seq<char> },
}

/// A registry entry as a mathematical value.
pub ghost struct EntryView {
    pub path: Seq<char>,
    pub node: NodeView,
}

impl View for Value {
    type V = ValueView;

    open spec fn view(&self) -> ValueView {
        match self {
            Value::Int(i) => ValueView::Int(*i as int),
            Value::Text(s) => ValueView::Text(s@),
        }
    }
}

/// How a value reads as text.
pub open spec fn value_text(v: ValueView) -> Seq<char> {
    match v {
        ValueView::Int(i) => int_text(i),
        ValueView::Text(s) => s,
    }
}

/// Two values of the same underlying type.
pub open spec fn same_kind(a: ValueView, b: ValueView) -> bool {
    (a is Int) == (b is Int)
}

impl Value {
    /// An equal value.
    pub fn duplicate(&self) -> (r: Value)
        ensures
            r@ == self@,
    {
        match self {
            Value::Int(i) => Value::Int(*i),
            Value::Text(s) => Value::Text(s.clone()),
        }
    }

    /// The value as text.
    pub fn render(&self) -> (r: String)
        ensures
            r@ == value_text(self@),
    {
        match self {
            Value::Int(i) => render_int(*i),
            Value::Text(s) => s.clone(),
        }
    }
}

/// An adjustable value with a default.
#[derive(Debug)]
pub struct Property {
    pub value: Value,
    pub default: Value,
    pub description: String,
}

/// One registry node: a property, a sub-group, or an invocable action.
#[derive(Debug)]
pub enum Node {
    Prop(Property),
    List,
    Action(String),
}

impl View for Node {
    type V = NodeView;

    open spec fn view(&self) -> NodeView {
        match self {
            Node::Prop(p) => NodeView::Prop {
                value: p.value@,
                default: p.default@,
                description: p.description@,
            },
            Node::List => NodeView::List,
            Node::Action(d) => NodeView::Action { description: d@ },
        }
    }
}

/// The kind of a node.
pub open spec fn node_kind(n: NodeView) -> CmdType {
    match n {
        NodeView::Prop { .. } => CmdType::Prop,
        NodeView::List => CmdType::List,
        NodeView::Action { .. } => CmdType::Action,
    }
}

/// Index of the first line break of `d`, or its length when it has none.
pub open spec fn first_newline(d: Seq<char>) -> nat
    decreases d.len(),
{
    if d.len() == 0 || d[0] == '\n' {
        0
    } else {
        1 + first_newline(d.drop_first())
    }
}

/// The detail block of an action: the first line of a multi-line description
/// is an argument hint shown after the path, the rest is the description.
pub open spec fn action_details(path: Seq<char>, d: Seq<char>) -> Seq<char> {
    let k = first_newline(d) as int;
    if k + 1 < d.len() {
        let hint = d.take(k);
        let shown_hint = if hint.len() > 0 {
            " "@ + hint
        } else {
            Seq::empty()
        };
        path + shown_hint + ":\n\t"@ + d.skip(k + 1) + "\n"@
    } else {
        path + ":\n\t"@ + d.take(k) + "\n"@
    }
}

/// The human-readable detail block of a node at `path`; empty for a list.
pub open spec fn details_text(path: Seq<char>, n: NodeView) -> Seq<char> {
    match n {
        NodeView::Prop { value, default, description } => path + ": "@ + value_text(value)
            + " (Default: "@ + value_text(default) + ")\n\t"@ + description + "\n"@,
        NodeView::List => Seq::empty(),
        NodeView::Action { description } => action_details(path, description),
    }
}

proof fn lemma_first_newline(d: Seq<char>, k: int)
    requires
        0 <= k <= d.len(),
        forall|j: int| 0 <= j < k ==> d[j] != '\n',
        k == d.len() || d[k] == '\n',
    ensures
        first_newline(d) == k,
    decreases k,
{
    if k > 0 {
        let t = d.drop_first();
        assert forall|j: int| 0 <= j < k - 1 implies t[j] != '\n' by {
            assert(t[j] == d[j + 1]);
        }
        lemma_first_newline(t, k - 1);
    }
}

/// Describes and classifies registry nodes.
pub trait NodeExt {
    spec fn spec_kind(&self) -> CmdType;

    spec fn spec_details(&self, path: Seq<char>) -> Seq<char>;

    /// Appends the detail block of this node at `path` to `out`.
    fn details(&self, path: &str, out: &mut String)
        ensures
            final(out)@ == old(out)@ + self.spec_details(path@),
    ;

    /// Which of property, list or action this node is.
    fn kind(&self) -> (r: CmdType)
        ensures
            r == self.spec_kind(),
    ;
}

impl NodeExt for Node {
    open spec fn spec_kind(&self) -> CmdType {
        node_kind(self@)
    }

    open spec fn spec_details(&self, path: Seq<char>) -> Seq<char> {
        details_text(path, self@)
    }

    fn details(&self, path: &str, out: &mut String) {
        match self {
            Node::Prop(p) => {
                let value = p.value.render();
                let default = p.default.render();
                out.append(path);
                out.append(": ");
                out.append(value.as_str());
                out.append(" (Default: ");
                out.append(default.as_str());
                out.append(")\n\t");
                out.append(p.description.as_str());
                out.append("\n");
            },
            Node::List => {
                assert(old(out)@ + Seq::<char>::empty() =~= old(out)@);
            },
            Node::Action(d) => {
                let d: &str = d.as_str();
                let n = d.unicode_len();
                let mut k: usize = 0;
                while k < n && d.get_char(k) != '\n'
                    invariant
                        n == d@.len(),
                        k <= n,
                        forall|j: int| 0 <= j < k ==> d@[j] != '\n',
                    decreases n - k,
                {
                    k = k + 1;
                }
                proof {
                    lemma_first_newline(d@, k as int);
                }
                if k < n && n - k > 1 {
                    out.append(path);
                    if k > 0 {
                        out.append(" ");
                        out.append(d.substring_char(0, k));
                    } else {
                        assert(old(out)@ + path@ + Seq::<char>::empty() =~= old(out)@ + path@);
                    }
                    out.append(":\n\t");
                    out.append(d.substring_char(k + 1, n));
                    out.append("\n");
                } else {
                    out.append(path);
                    out.append(":\n\t");
                    out.append(d.substring_char(0, k));
                    out.append("\n");
                }
            },
        }
        assert(final(out)@ =~= old(out)@ + self.spec_details(path@));
    }

    fn kind(&self) -> (r: CmdType) {
        match self {
            Node::Prop(_) => CmdType::Prop,
            Node::List => CmdType::List,
            Node::Action(_) => CmdType::Action,
        }
    }
}

} // verus!
