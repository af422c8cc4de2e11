use vstd::prelude::*;

use crate::node::{details_text, value_text, EntryView};
use crate::number::lemma_int_text;
use crate::registry::{
    accepts, filter_matches, lemma_lookup_found, lemma_search_concat, lookup, parsed,
    prop_index, reset_entry, search_text, with_value, FilterView,
};
use crate::text::occurs_in;
use crate::window::builtin_entries;

verus! {

/// Lookup reads the paths alone.
proof fn lemma_lookup_same_paths(s: Seq<EntryView>, t: Seq<EntryView>, p: Seq<char>)
    requires
        s.len() == t.len(),
        forall|j: int| 0 <= j < s.len() ==> (#[trigger] s[j]).path == t[j].path,
    ensures
        lookup(s, p) == lookup(t, p),
    decreases s.len(),
{
    if s.len() > 0 {
        let s1 = s.drop_first();
        let t1 = t.drop_first();
        assert forall|j: int| 0 <= j < s1.len() implies (#[trigger] s1[j]).path == t1[j].path by {
            assert(s1[j] == s[j + 1]);
            assert(t1[j] == t[j + 1]);
        }
        lemma_lookup_same_paths(s1, t1, p);
    }
}

/// Resetting a property and reading it back gives its default.
pub proof fn lemma_reset_then_read(s: Seq<EntryView>, p: Seq<char>)
    requires
        prop_index(s, p) is Some,
    ensures
        ({
            let i = prop_index(s, p)->0;
            let after = s.update(i, reset_entry(s[i]));
            &&& prop_index(after, p) == Some(i)
            &&& value_text(after[i].node->value) == value_text(s[i].node->default)
        }),
{
    lemma_lookup_found(s, p);
    let i = prop_index(s, p)->0;
    let after = s.update(i, reset_entry(s[i]));
    lemma_lookup_same_paths(s, after, p);
}

/// After resetting everything, every property reads as its default.
pub proof fn lemma_reset_all_defaults(s: Seq<EntryView>, p: Seq<char>)
    requires
        prop_index(s, p) is Some,
    ensures
        ({
            let after = s.map_values(|x: EntryView| reset_entry(x));
            let i = prop_index(s, p)->0;
            &&& prop_index(after, p) == Some(i)
            &&& value_text(after[i].node->value) == value_text(after[i].node->default)
            &&& after[i].node->default == s[i].node->default
        }),
{
    lemma_lookup_found(s, p);
    let after = s.map_values(|x: EntryView| reset_entry(x));
    lemma_lookup_same_paths(s, after, p);
}

/// Setting a property from accepted text and reading it back gives the text
/// of the parsed value.
pub proof fn lemma_set_then_read(s: Seq<EntryView>, p: Seq<char>, text: Seq<char>)
    requires
        prop_index(s, p) is Some,
        accepts(s[prop_index(s, p)->0].node->value, text),
    ensures
        ({
            let i = prop_index(s, p)->0;
            let v = s[i].node->value;
            let after = s.update(i, with_value(s[i], parsed(v, text)));
            &&& prop_index(after, p) == Some(i)
            &&& value_text(after[i].node->value) == value_text(parsed(v, text))
        }),
{
    lemma_lookup_found(s, p);
    let i = prop_index(s, p)->0;
    let v = s[i].node->value;
    let after = s.update(i, with_value(s[i], parsed(v, text)));
    lemma_lookup_same_paths(s, after, p);
}

/// Writing back what a property reads leaves it as it was.
pub proof fn lemma_write_read_round_trip(s: Seq<EntryView>, p: Seq<char>)
    requires
        prop_index(s, p) is Some,
        s[prop_index(s, p)->0].node->value is Int ==> i64::MIN <= s[prop_index(
            s,
            p,
        )->0].node->value->Int_0 <= i64::MAX,
    ensures
        ({
            let i = prop_index(s, p)->0;
            let v = s[i].node->value;
            &&& accepts(v, value_text(v))
            &&& s.update(i, with_value(s[i], parsed(v, value_text(v)))) == s
        }),
{
    lemma_lookup_found(s, p);
    let i = prop_index(s, p)->0;
    let v = s[i].node->value;
    match v {
        crate::node::ValueView::Int(n) => {
            lemma_int_text(n as i64);
        },
        crate::node::ValueView::Text(_) => {},
    }
    assert(with_value(s[i], parsed(v, value_text(v))) == s[i]);
    assert(s.update(i, with_value(s[i], parsed(v, value_text(v)))) =~= s);
}

/// A search for the empty text, with the built-in commands registered first,
/// always finds something.
pub proof fn lemma_find_empty_has_results(s: Seq<EntryView>)
    requires
        s.len() >= 4,
        s.subrange(0, 4) == builtin_entries(),
    ensures
        search_text(s, FilterView::Search(Seq::empty())).len() > 0,
{
    let f = FilterView::Search(Seq::empty());
    let b = builtin_entries();
    assert(s =~= b + s.skip(4));
    lemma_search_concat(b, s.skip(4), f);
    let help = b[0];
    assert(help.path == "help"@);
    assert(help.path.subrange(0, 0) =~= Seq::<char>::empty());
    assert(occurs_in(Seq::empty(), help.path));
    reveal_strlit("help");
    reveal_strlit("find");
    assert(help.path[0] == 'h');
    assert("find"@[0] == 'f');
    assert(help.path != "find"@);
    assert(filter_matches(f, help.path));
    assert(details_text(help.path, help.node).len() > 0);
}

} // verus!
