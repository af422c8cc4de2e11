use vstd::prelude::*;

use crate::node::{
    details_text, node_kind, same_kind, value_text, EntryView, Node, NodeExt, NodeView, Property,
    Value, ValueView,
};
use crate::number::{is_int_text, parse_error_text, parse_int, signed_value};
use crate::result::{is_ok_with, CmdType, ConsoleError, ConsoleResult};
use crate::text::{contains, is_prefix, occurs_in, same_text, starts_with};

verus! {

/// A named registry node.
#[derive(Debug)]
pub struct Entry {
    pub path: String,
    pub node: Node,
}

impl View for Entry {
    type V = EntryView;

    open spec fn view(&self) -> EntryView {
        EntryView { path: self.path@, node: self.node@ }
    }
}

/// A request, left for the host, to run one of its actions.
#[derive(Debug)]
pub struct Invocation {
    pub path: String,
    pub args: Vec<String>,
}

/// Which paths a search keeps.
#[derive(Debug)]
pub enum PathFilter {
    /// Every path.
    All,
    /// Paths that start with the text.
    Prefix(String),
    /// Paths that hold the text, except the `find` command itself.
    Search(String),
}

/// A path filter as a mathematical value.
pub ghost enum FilterView {
    All,
    Prefix(Seq<char>),
    Search(Seq<char>),
}

impl View for PathFilter {
    type V = FilterView;

    open spec fn view(&self) -> FilterView {
        match self {
            PathFilter::All => FilterView::All,
            PathFilter::Prefix(t) => FilterView::Prefix(t@),
            PathFilter::Search(t) => FilterView::Search(t@),
        }
    }
}

pub open spec fn filter_matches(f: FilterView, p: Seq<char>) -> bool {
    match f {
        FilterView::All => true,
        FilterView::Prefix(t) => is_prefix(t, p),
        FilterView::Search(t) => occurs_in(t, p) && p != "find"@,
    }
}

/// Index of the first entry at exactly `p`.
pub open spec fn lookup(s: Seq<EntryView>, p: Seq<char>) -> Option<int>
    decreases s.len(),
{
    if s.len() == 0 {
        None
    } else if s[0].path == p {
        Some(0)
    } else {
        match lookup(s.drop_first(), p) {
            Some(j) => Some(j + 1),
            None => None,
        }
    }
}

/// What `p` resolves to.
pub open spec fn kind_at(s: Seq<EntryView>, p: Seq<char>) -> CmdType {
    match lookup(s, p) {
        Some(i) => node_kind(s[i].node),
        None => CmdType::NotFound,
    }
}

/// Index of the property at `p`, if `p` resolves to one.
pub open spec fn prop_index(s: Seq<EntryView>, p: Seq<char>) -> Option<int> {
    match lookup(s, p) {
        Some(i) => if s[i].node is Prop {
            Some(i)
        } else {
            None
        },
        None => None,
    }
}

/// Every property's value has the type of its default.
pub open spec fn props_consistent(s: Seq<EntryView>) -> bool {
    forall|i: int|
        0 <= i < s.len() && (#[trigger] s[i]).node is Prop ==> same_kind(
            s[i].node->value,
            s[i].node->default,
        )
}

/// Text that a property holding `v` accepts.
pub open spec fn accepts(v: ValueView, text: Seq<char>) -> bool {
    match v {
        ValueView::Int(_) => is_int_text(text),
        ValueView::Text(_) => true,
    }
}

/// The value that accepted text gives a property holding `v`.
pub open spec fn parsed(v: ValueView, text: Seq<char>) -> ValueView {
    match v {
        ValueView::Int(_) => ValueView::Int(signed_value(text)),
        ValueView::Text(_) => ValueView::Text(text),
    }
}

/// The entry with its property value replaced.
pub open spec fn with_value(e: EntryView, v: ValueView) -> EntryView {
    match e.node {
        NodeView::Prop { value, default, description } => EntryView {
            path: e.path,
            node: NodeView::Prop { value: v, default, description },
        },
        _ => e,
    }
}

/// The entry with a property restored to its default.
pub open spec fn reset_entry(e: EntryView) -> EntryView {
    match e.node {
        NodeView::Prop { value, default, description } => with_value(e, default),
        _ => e,
    }
}

/// The detail blocks of the entries that `f` keeps, in order.
pub open spec fn search_text(s: Seq<EntryView>, f: FilterView) -> Seq<char>
    decreases s.len(),
{
    if s.len() == 0 {
        Seq::empty()
    } else {
        let here = if filter_matches(f, s[0].path) {
            details_text(s[0].path, s[0].node)
        } else {
            Seq::empty()
        };
        here + search_text(s.drop_first(), f)
    }
}

/// The detail block for exactly `p`, empty when nothing is there.
pub open spec fn help_text(s: Seq<EntryView>, p: Seq<char>) -> Seq<char> {
    match lookup(s, p) {
        Some(i) => details_text(p, s[i].node),
        None => Seq::empty(),
    }
}

proof fn lemma_lookup(s: Seq<EntryView>, p: Seq<char>, i: int)
    requires
        0 <= i <= s.len(),
        forall|j: int| 0 <= j < i ==> (#[trigger] s[j]).path != p,
        i == s.len() || s[i].path == p,
    ensures
        lookup(s, p) == (if i == s.len() {
            None
        } else {
            Some(i)
        }),
    decreases i,
{
    if i > 0 {
        let t = s.drop_first();
        assert forall|j: int| 0 <= j < i - 1 implies (#[trigger] t[j]).path != p by {
            assert(t[j] == s[j + 1]);
        }
        lemma_lookup(t, p, i - 1);
    }
}

/// A path found in the entries names an entry at that path.
pub proof fn lemma_lookup_found(s: Seq<EntryView>, p: Seq<char>)
    ensures
        lookup(s, p) is Some ==> 0 <= lookup(s, p)->0 < s.len() && s[lookup(s, p)->0].path == p,
    decreases s.len(),
{
    if s.len() > 0 && s[0].path != p {
        lemma_lookup_found(s.drop_first(), p);
    }
}

/// Searching two runs of entries yields the two searches one after the other.
pub proof fn lemma_search_concat(a: Seq<EntryView>, b: Seq<EntryView>, f: FilterView)
    ensures
        search_text(a + b, f) == search_text(a, f) + search_text(b, f),
    decreases a.len(),
{
    if a.len() == 0 {
        assert(a + b =~= b);
        assert(search_text(a, f) + search_text(b, f) =~= search_text(b, f));
    } else {
        lemma_search_concat(a.drop_first(), b, f);
        assert((a + b).drop_first() =~= a.drop_first() + b);
        assert((a + b)[0] == a[0]);
        let here = if filter_matches(f, a[0].path) {
            details_text(a[0].path, a[0].node)
        } else {
            Seq::empty()
        };
        assert(here + (search_text(a.drop_first(), f) + search_text(b, f)) =~= (here
            + search_text(a.drop_first(), f)) + search_text(b, f));
    }
}

/// Whether `f` keeps `p`.
pub fn filter_accepts(f: &PathFilter, p: &str) -> (r: bool)
    ensures
        r == filter_matches(f@, p@),
{
    match f {
        PathFilter::All => true,
        PathFilter::Prefix(t) => starts_with(p, t.as_str()),
        PathFilter::Search(t) => contains(p, t.as_str()) && !same_text(p, "find"),
    }
}

/// An arena of registry entries, addressed by path.
pub struct Registry {
    entries: Vec<Entry>,
    invocations: Vec<Invocation>,
}

impl View for Registry {
    type V = Seq<EntryView>;

    closed spec fn view(&self) -> Seq<EntryView> {
        self.entries@.map_values(|e: Entry| e@)
    }
}

impl Registry {
    /// The host actions requested so far: each path with its arguments.
    pub closed spec fn requests(&self) -> Seq<(Seq<char>, Seq<Seq<char>>)> {
        self.invocations@.map_values(
            |v: Invocation| (v.path@, v.args@.map_values(|a: String| a@)),
        )
    }

    pub open spec fn wf(&self) -> bool {
        props_consistent(self@)
    }

    /// An empty registry.
    pub fn new() -> (r: Registry)
        ensures
            r@ == Seq::<EntryView>::empty(),
            r.requests() == Seq::<(Seq<char>, Seq<Seq<char>>)>::empty(),
            r.wf(),
    {
        let r = Registry { entries: Vec::new(), invocations: Vec::new() };
        assert(r@ =~= Seq::<EntryView>::empty());
        assert(r.requests() =~= Seq::<(Seq<char>, Seq<Seq<char>>)>::empty());
        r
    }

    /// Appends an entry.
    pub fn push(&mut self, entry: Entry)
        requires
            old(self).wf(),
            entry.node is Prop ==> same_kind(entry.node->Prop_0.value@, entry.node->Prop_0.default@),
        ensures
            final(self)@ == old(self)@.push(entry@),
            final(self).requests() == old(self).requests(),
            final(self).wf(),
    {
        self.entries.push(entry);
        assert(self@ =~= old(self)@.push(entry@));
        assert(self.requests() =~= old(self).requests());
    }

    /// Registers an integer property holding its default.
    pub fn add_int(&mut self, path: &str, default: i64, description: &str)
        requires
            old(self).wf(),
        ensures
            final(self)@ == old(self)@.push(
                EntryView {
                    path: path@,
                    node: NodeView::Prop {
                        value: ValueView::Int(default as int),
                        default: ValueView::Int(default as int),
                        description: description@,
                    },
                },
            ),
            final(self).requests() == old(self).requests(),
            final(self).wf(),
    {
        let prop = Property {
            value: Value::Int(default),
            default: Value::Int(default),
            description: description.to_string(),
        };
        self.push(Entry { path: path.to_string(), node: Node::Prop(prop) });
    }

    /// Registers a text property holding its default.
    pub fn add_text(&mut self, path: &str, default: &str, description: &str)
        requires
            old(self).wf(),
        ensures
            final(self)@ == old(self)@.push(
                EntryView {
                    path: path@,
                    node: NodeView::Prop {
                        value: ValueView::Text(default@),
                        default: ValueView::Text(default@),
                        description: description@,
                    },
                },
            ),
            final(self).requests() == old(self).requests(),
            final(self).wf(),
    {
        let prop = Property {
            value: Value::Text(default.to_string()),
            default: Value::Text(default.to_string()),
            description: description.to_string(),
        };
        self.push(Entry { path: path.to_string(), node: Node::Prop(prop) });
    }

    /// Registers a sub-group.
    pub fn add_list(&mut self, path: &str)
        requires
            old(self).wf(),
        ensures
            final(self)@ == old(self)@.push(EntryView { path: path@, node: NodeView::List }),
            final(self).requests() == old(self).requests(),
            final(self).wf(),
    {
        self.push(Entry { path: path.to_string(), node: Node::List });
    }

    /// Registers an action; its description's first line, when it has more
    /// than one, is the argument hint.
    pub fn add_action(&mut self, path: &str, description: &str)
        requires
            old(self).wf(),
        ensures
            final(self)@ == old(self)@.push(
                EntryView { path: path@, node: NodeView::Action { description: description@ } },
            ),
            final(self).requests() == old(self).requests(),
            final(self).wf(),
    {
        self.push(Entry { path: path.to_string(), node: Node::Action(description.to_string()) });
    }

    /// Moves every entry and request of `other` to the end of this registry.
    pub fn append(&mut self, other: Registry)
        requires
            old(self).wf(),
            other.wf(),
        ensures
            final(self)@ == old(self)@ + other@,
            final(self).requests() == old(self).requests() + other.requests(),
            final(self).wf(),
    {
        let mut other = other;
        let ghost o = other;
        self.entries.append(&mut other.entries);
        self.invocations.append(&mut other.invocations);
        assert(self@ =~= old(self)@ + o@);
        assert(self.requests() =~= old(self).requests() + o.requests());
        assert forall|j: int| 0 <= j < self@.len() && (#[trigger] self@[j]).node is Prop implies same_kind(
            self@[j].node->value,
            self@[j].node->default,
        ) by {
            if j >= old(self)@.len() {
                assert(self@[j] == o@[j - old(self)@.len()]);
            }
        }
    }

    /// The number of entries.
    pub fn len(&self) -> (r: usize)
        ensures
            r == self@.len(),
    {
        self.entries.len()
    }

    /// The entry at index `i`.
    pub fn entry(&self, i: usize) -> (r: &Entry)
        requires
            i < self@.len(),
        ensures
            r@ == self@[i as int],
    {
        &self.entries[i]
    }

    /// Index of the first entry at exactly `path`.
    pub fn index_of(&self, path: &str) -> (r: Option<usize>)
        ensures
            match r {
                Some(i) => i < self@.len() && lookup(self@, path@) == Some(i as int),
                None => lookup(self@, path@) is None,
            },
    {
        let mut i: usize = 0;
        while i < self.entries.len()
            invariant
                i <= self@.len(),
                forall|j: int| 0 <= j < i ==> (#[trigger] self@[j]).path != path@,
            decreases self@.len() - i,
        {
            if same_text(self.entries[i].path.as_str(), path) {
                proof {
                    lemma_lookup(self@, path@, i as int);
                }
                return Some(i);
            }
            i = i + 1;
        }
        proof {
            lemma_lookup(self@, path@, i as int);
        }
        None
    }

    /// What `var` resolves to.
    pub fn cmdtype(&self, var: &str) -> (r: CmdType)
        ensures
            r == kind_at(self@, var@),
    {
        match self.index_of(var) {
            Some(i) => self.entries[i].node.kind(),
            None => CmdType::NotFound,
        }
    }

    /// The current value of the property at `var`, as text.
    pub fn get(&self, var: &str) -> (r: ConsoleResult)
        ensures
            match prop_index(self@, var@) {
                Some(i) => is_ok_with(r, value_text(self@[i].node->value)),
                None => r.0 == Err::<String, ConsoleError>(ConsoleError::UnknownProperty),
            },
    {
        match self.index_of(var) {
            Some(i) => match &self.entries[i].node {
                Node::Prop(p) => ConsoleResult::ok(p.value.render()),
                _ => ConsoleResult::err(ConsoleError::UnknownProperty),
            },
            None => ConsoleResult::err(ConsoleError::UnknownProperty),
        }
    }

    /// Replaces the value of the property at entry `i`.
    fn store(&mut self, i: usize, v: Value)
        requires
            old(self).wf(),
            i < old(self)@.len(),
            old(self)@[i as int].node is Prop,
            same_kind(v@, old(self)@[i as int].node->default),
        ensures
            final(self)@ == old(self)@.update(i as int, with_value(old(self)@[i as int], v@)),
            final(self).requests() == old(self).requests(),
            final(self).wf(),
    {
        let ghost before = self@;
        let e = &mut self.entries[i];
        if let Node::Prop(p) = &mut e.node {
            p.value = v;
        }
        assert(self@ =~= before.update(i as int, with_value(before[i as int], v@)));
        assert(self.requests() =~= old(self).requests());
        assert forall|j: int| 0 <= j < self@.len() && (#[trigger] self@[j]).node is Prop implies same_kind(
            self@[j].node->value,
            self@[j].node->default,
        ) by {
            if j != i {
                assert(self@[j] == before[j]);
            }
        }
    }

    /// Sets the property at `var` from text.
    pub fn set(&mut self, var: &str, val: &str) -> (r: ConsoleResult)
        requires
            old(self).wf(),
        ensures
            final(self).wf(),
            final(self).requests() == old(self).requests(),
            match prop_index(old(self)@, var@) {
                Some(i) => {
                    let v = old(self)@[i].node->value;
                    if accepts(v, val@) {
                        &&& is_ok_with(r, Seq::empty())
                        &&& final(self)@ == old(self)@.update(i, with_value(old(self)@[i], parsed(v, val@)))
                    } else {
                        &&& r.0 is Err
                        &&& r.0->Err_0 is InvalidValue
                        &&& final(self)@ == old(self)@
                    }
                },
                None => {
                    &&& r.0 == Err::<String, ConsoleError>(ConsoleError::UnknownProperty)
                    &&& final(self)@ == old(self)@
                },
            },
    {
        let i = match self.index_of(var) {
            Some(i) => i,
            None => return ConsoleResult::err(ConsoleError::UnknownProperty),
        };
        let v = match &self.entries[i].node {
            Node::Prop(p) => match &p.value {
                Value::Int(_) => match parse_int(val) {
                    Ok(n) => Value::Int(n),
                    Err(e) => return ConsoleResult::err(ConsoleError::InvalidValue(parse_error_text(&e))),
                },
                Value::Text(_) => Value::Text(val.to_string()),
            },
            _ => return ConsoleResult::err(ConsoleError::UnknownProperty),
        };
        self.store(i, v);
        ConsoleResult::empty()
    }

    /// Restores the property at `var` to its default.
    pub fn reset(&mut self, var: &str) -> (r: ConsoleResult)
        requires
            old(self).wf(),
        ensures
            final(self).wf(),
            final(self).requests() == old(self).requests(),
            match prop_index(old(self)@, var@) {
                Some(i) => {
                    &&& is_ok_with(r, Seq::empty())
                    &&& final(self)@ == old(self)@.update(i, reset_entry(old(self)@[i]))
                },
                None => {
                    &&& r.0 == Err::<String, ConsoleError>(ConsoleError::UnknownProperty)
                    &&& final(self)@ == old(self)@
                },
            },
    {
        let i = match self.index_of(var) {
            Some(i) => i,
            None => return ConsoleResult::err(ConsoleError::UnknownProperty),
        };
        let v = match &self.entries[i].node {
            Node::Prop(p) => p.default.duplicate(),
            _ => return ConsoleResult::err(ConsoleError::UnknownProperty),
        };
        self.store(i, v);
        ConsoleResult::empty()
    }

    /// Restores every property to its default.
    pub fn reset_all(&mut self) -> (r: ConsoleResult)
        requires
            old(self).wf(),
        ensures
            final(self).wf(),
            final(self).requests() == old(self).requests(),
            final(self)@ == old(self)@.map_values(|e: EntryView| reset_entry(e)),
            is_ok_with(r, "OK"@),
    {
        let ghost before = self@;
        let n = self.entries.len();
        let mut i: usize = 0;
        while i < n
            invariant
                n == self@.len(),
                n == before.len(),
                i <= n,
                self.wf(),
                self.requests() == old(self).requests(),
                forall|j: int| 0 <= j < i ==> #[trigger] self@[j] == reset_entry(before[j]),
                forall|j: int| i <= j < n ==> #[trigger] self@[j] == before[j],
            decreases n - i,
        {
            let v = match &self.entries[i].node {
                Node::Prop(p) => Some(p.default.duplicate()),
                _ => None,
            };
            match v {
                Some(v) => self.store(i, v),
                None => {},
            }
            i = i + 1;
        }
        assert(self@ =~= before.map_values(|e: EntryView| reset_entry(e)));
        ConsoleResult::ok("OK".to_string())
    }

    /// The detail blocks of every entry whose path `filter` keeps.
    pub fn find(&self, filter: &PathFilter) -> (r: ConsoleResult)
        ensures
            search_text(self@, filter@).len() > 0 ==> is_ok_with(r, search_text(self@, filter@)),
            search_text(self@, filter@).len() == 0 ==> r.0 == Err::<String, ConsoleError>(
                ConsoleError::NoResults,
            ),
    {
        let mut out = String::new();
        self.find_into(filter, &mut out);
        assert(out@ =~= search_text(self@, filter@));
        if out.unicode_len() > 0 {
            ConsoleResult::ok(out)
        } else {
            ConsoleResult::err(ConsoleError::NoResults)
        }
    }

    /// Appends the detail blocks of every entry whose path `filter` keeps.
    pub fn find_into(&self, filter: &PathFilter, out: &mut String)
        ensures
            final(out)@ == old(out)@ + search_text(self@, filter@),
    {
        let n = self.entries.len();
        let mut i: usize = 0;
        assert(self@.skip(0) =~= self@);
        while i < n
            invariant
                n == self@.len(),
                i <= n,
                out@ + search_text(self@.skip(i as int), filter@) == old(out)@ + search_text(self@, filter@),
            decreases n - i,
        {
            let ghost rest = self@.skip(i as int);
            assert(rest.drop_first() =~= self@.skip(i + 1));
            assert(rest[0] == self@[i as int]);
            let ghost before = out@;
            let e = &self.entries[i];
            if filter_accepts(filter, e.path.as_str()) {
                e.node.details(e.path.as_str(), out);
            }
            assert(before + search_text(rest, filter@) =~= out@ + search_text(self@.skip(i + 1), filter@));
            i = i + 1;
        }
        assert(self@.skip(n as int) =~= Seq::<EntryView>::empty());
        assert(out@ + Seq::<char>::empty() =~= out@);
        assert(self@.skip(0) =~= self@);
    }

    /// The detail block of the entry at exactly `var`.
    pub fn help(&self, var: &str) -> (r: ConsoleResult)
        ensures
            help_text(self@, var@).len() > 0 ==> is_ok_with(r, help_text(self@, var@)),
            help_text(self@, var@).len() == 0 ==> r.0 == Err::<String, ConsoleError>(
                ConsoleError::UnknownProperty,
            ),
    {
        let mut out = String::new();
        match self.index_of(var) {
            Some(i) => self.entries[i].node.details(var, &mut out),
            None => {},
        }
        assert(out@ =~= help_text(self@, var@));
        if out.unicode_len() > 0 {
            ConsoleResult::ok(out)
        } else {
            ConsoleResult::err(ConsoleError::UnknownProperty)
        }
    }

    /// Asks the host to run the action at `cmd` with `args`.
    pub fn call(&mut self, cmd: &str, args: &[&str]) -> (r: ConsoleResult)
        requires
            old(self).wf(),
        ensures
            final(self).wf(),
            final(self)@ == old(self)@,
            kind_at(old(self)@, cmd@) == CmdType::Action ==> {
                &&& is_ok_with(r, Seq::empty())
                &&& final(self).requests() == old(self).requests().push(
                    (cmd@, args@.map_values(|a: &str| a@)),
                )
            },
            kind_at(old(self)@, cmd@) != CmdType::Action ==> {
                &&& r.0 == Err::<String, ConsoleError>(ConsoleError::UnknownCommand)
                &&& final(self).requests() == old(self).requests()
            },
    {
        if self.cmdtype(cmd) != CmdType::Action {
            return ConsoleResult::err(ConsoleError::UnknownCommand);
        }
        let mut owned: Vec<String> = Vec::new();
        let mut i: usize = 0;
        while i < args.len()
            invariant
                i <= args@.len(),
                owned@.len() == i,
                forall|j: int| 0 <= j < i ==> (#[trigger] owned@[j])@ == args@[j]@,
            decreases args@.len() - i,
        {
            let a: &str = args[i];
            let copy = a.to_string();
            assert(copy@ == args@[i as int]@);
            owned.push(copy);
            i = i + 1;
        }
        assert(owned@.map_values(|a: String| a@) =~= args@.map_values(|a: &str| a@));
        self.invocations.push(Invocation { path: cmd.to_string(), args: owned });
        assert(self.requests() =~= old(self).requests().push((cmd@, args@.map_values(|a: &str| a@))));
        ConsoleResult::empty()
    }

    /// Hands the requested host actions over, oldest first, and forgets them.
    pub fn take_invocations(&mut self) -> (r: Vec<Invocation>)
        ensures
            final(self)@ == old(self)@,
            final(self).requests() == Seq::<(Seq<char>, Seq<Seq<char>>)>::empty(),
            r@.map_values(|v: Invocation| (v.path@, v.args@.map_values(|a: String| a@))) == old(self).requests(),
    {
        let mut r: Vec<Invocation> = Vec::new();
        std::mem::swap(&mut r, &mut self.invocations);
        assert(self.requests() =~= Seq::<(Seq<char>, Seq<Seq<char>>)>::empty());
        r
    }
}

} // verus!
