use vstd::prelude::*;
use vstd::string::*;

verus! {

/// `t` is a prefix of `p`.
pub open spec fn is_prefix(t: Seq<char>, p: Seq<char>) -> bool {
    t.len() <= p.len() && p.take(t.len() as int) == t
}

/// `t` occurs somewhere in `p`.
pub open spec fn occurs_in(t: Seq<char>, p: Seq<char>) -> bool {
    exists|i: int| 0 <= i && i + t.len() <= p.len() && #[trigger] p.subrange(i, i + t.len()) == t
}

/// The characters of a string, one by one.
pub fn chars_of(s: &str) -> (r: Vec<char>)
    ensures
        r@ == s@,
{
    let n = s.unicode_len();
    let mut r: Vec<char> = Vec::new();
    let mut i: usize = 0;
    while i < n
        invariant
            n == s@.len(),
            i <= n,
            r@ == s@.take(i as int),
        decreases n - i,
    {
        r.push(s.get_char(i));
        i = i + 1;
        assert(r@ =~= s@.take(i as int));
    }
    assert(r@ =~= s@);
    r
}

/// Whether `t` occurs in `p` at position `at`.
fn occurs_at(p: &Vec<char>, t: &Vec<char>, at: usize) -> (r: bool)
    requires
        at + t@.len() <= p@.len(),
    ensures
        r == (p@.subrange(at as int, at + t@.len()) == t@),
{
    let pn = p.len();
    let mut j: usize = 0;
    while j < t.len()
        invariant
            pn == p@.len(),
            at + t@.len() <= p@.len(),
            j <= t@.len(),
            forall|k: int| 0 <= k < j ==> p@[at + k] == t@[k],
        decreases t@.len() - j,
    {
        if p[at + j] != t[j] {
            assert(p@.subrange(at as int, at + t@.len())[j as int] != t@[j as int]);
            return false;
        }
        j = j + 1;
    }
    assert(p@.subrange(at as int, at + t@.len()) =~= t@);
    true
}

/// Whether `t` is a prefix of `p`.
pub fn starts_with(p: &str, t: &str) -> (r: bool)
    ensures
        r == is_prefix(t@, p@),
{
    let pc = chars_of(p);
    let tc = chars_of(t);
    if tc.len() > pc.len() {
        return false;
    }
    let r = occurs_at(&pc, &tc, 0);
    assert(p@.subrange(0, t@.len() as int) =~= p@.take(t@.len() as int));
    r
}

/// Whether `t` occurs in `p`.
pub fn contains(p: &str, t: &str) -> (r: bool)
    ensures
        r == occurs_in(t@, p@),
{
    let pc = chars_of(p);
    let tc = chars_of(t);
    if tc.len() > pc.len() {
        return false;
    }
    if tc.len() == 0 {
        assert(p@.subrange(0int, 0int + t@.len()) =~= t@);
        return true;
    }
    let pn = pc.len();
    let last = pn - tc.len();
    let mut i: usize = 0;
    while i <= last
        invariant
            pn == p@.len(),
            pc@ == p@,
            tc@ == t@,
            t@.len() > 0,
            i <= last + 1,
            last + t@.len() == p@.len(),
            forall|k: int| 0 <= k < i ==> #[trigger] p@.subrange(k, k + t@.len()) != t@,
        decreases last + 1 - i,
    {
        if occurs_at(&pc, &tc, i) {
            return true;
        }
        i = i + 1;
    }
    false
}

/// Whether two strings hold the same characters.
pub fn same_text(a: &str, b: &str) -> (r: bool)
    ensures
        r == (a@ == b@),
{
    let ac = chars_of(a);
    let bc = chars_of(b);
    if ac.len() != bc.len() {
        return false;
    }
    let r = occurs_at(&ac, &bc, 0);
    assert(a@.subrange(0, b@.len() as int) =~= a@);
    r
}

/// The pieces of `s` between single spaces, empty pieces included.
pub open spec fn split_spaces(s: Seq<char>) -> Seq<Seq<char>>
    decreases s.len(),
{
    if s.len() == 0 {
        seq![Seq::empty()]
    } else {
        let r = split_spaces(s.drop_last());
        if s.last() == ' ' {
            r.push(Seq::empty())
        } else {
            r.update(r.len() - 1, r.last().push(s.last()))
        }
    }
}

pub open spec fn views_of(parts: Seq<&str>) -> Seq<Seq<char>> {
    parts.map_values(|p: &str| p@)
}

/// Splits `s` at every space, as `str::split(" ")` does.
pub fn split_spaces_of(s: &str) -> (r: Vec<&str>)
    ensures
        views_of(r@) == split_spaces(s@),
{
    let n = s.unicode_len();
    let mut parts: Vec<&str> = Vec::new();
    let mut start: usize = 0;
    let mut i: usize = 0;
    assert(s@.take(0) =~= Seq::<char>::empty());
    assert(views_of(parts@).push(s@.subrange(0, 0)) =~= seq![Seq::<char>::empty()]);
    while i < n
        invariant
            n == s@.len(),
            start <= i <= n,
            views_of(parts@).push(s@.subrange(start as int, i as int)) == split_spaces(
                s@.take(i as int),
            ),
        decreases n - i,
    {
        let ghost prev = split_spaces(s@.take(i as int));
        assert(s@.take(i + 1).drop_last() =~= s@.take(i as int));
        assert(s@.take(i + 1).last() == s@[i as int]);
        if s.get_char(i) == ' ' {
            let ghost old_parts = parts@;
            let piece = s.substring_char(start, i);
            assert(piece@ == s@.subrange(start as int, i as int));
            parts.push(piece);
            assert(parts@ == old_parts.push(piece));
            assert(views_of(parts@) =~= views_of(old_parts).push(piece@));
            start = i + 1;
            assert(s@.subrange(start as int, i + 1) =~= Seq::<char>::empty());
            assert(views_of(parts@).push(s@.subrange(start as int, i + 1)) =~= prev.push(
                Seq::empty(),
            ));
        } else {
            assert(s@.subrange(start as int, i as int).push(s@[i as int]) =~= s@.subrange(
                start as int,
                i + 1,
            ));
            assert(prev.last() == s@.subrange(start as int, i as int));
            assert(views_of(parts@).push(s@.subrange(start as int, i + 1)) =~= prev.update(
                prev.len() - 1,
                prev.last().push(s@[i as int]),
            ));
        }
        i = i + 1;
    }
    parts.push(s.substring_char(start, n));
    assert(s@.take(n as int) =~= s@);
    assert(views_of(parts@) =~= split_spaces(s@));
    parts
}

/// A split always has at least one piece.
pub proof fn lemma_split_nonempty(s: Seq<char>)
    ensures
        split_spaces(s).len() >= 1,
    decreases s.len(),
{
    if s.len() > 0 {
        lemma_split_nonempty(s.drop_last());
    }
}

} // verus!
