//! Plain text operations that the extraction needs, stated over `Seq<char>`.
use vstd::prelude::*;

verus! {

/// The pieces of `s` between the leftmost non-overlapping occurrences of `sep`.
pub open spec fn split_spec(s: Seq<char>, sep: Seq<char>) -> Seq<Seq<char>>
    decreases s.len(),
{
    if sep.len() == 0 || s.len() < sep.len() {
        seq![s]
    } else if s.subrange(0, sep.len() as int) == sep {
        seq![Seq::<char>::empty()] + split_spec(s.subrange(sep.len() as int, s.len() as int), sep)
    } else {
        let rest = split_spec(s.drop_first(), sep);
        rest.update(0, seq![s[0]] + rest[0])
    }
}

pub open spec fn views(v: Seq<String>) -> Seq<Seq<char>> {
    v.map_values(|p: String| p@)
}

/// Relies on `str::split` with a non-empty pattern: it yields the pieces between
/// the leftmost non-overlapping occurrences of the pattern, in order.
#[verifier::external_body]
pub(crate) fn split_text(s: &str, sep: &str) -> (r: Vec<String>)
    requires
        sep@.len() > 0,
    ensures
        views(r@) == split_spec(s@, sep@),
{
    s.split(sep).map(String::from).collect()
}

/// A text in which the separator's first character never occurs splits into
/// itself alone.
pub proof fn lemma_split_free(s: Seq<char>, sep: Seq<char>)
    requires
        sep.len() > 0,
        forall|i: int| 0 <= i < s.len() ==> s[i] != sep[0],
    ensures
        split_spec(s, sep) == seq![s],
    decreases s.len(),
{
    if s.len() >= sep.len() {
        assert(s.subrange(0, sep.len() as int)[0] == s[0]);
        lemma_split_free(s.drop_first(), sep);
        assert(seq![s[0]] + s.drop_first() =~= s);
        assert(split_spec(s, sep) =~= seq![s]);
    }
}

/// Two texts in which the separator's first character never occurs, joined by
/// the separator, split back into the two.
pub proof fn lemma_split_around(a: Seq<char>, b: Seq<char>, sep: Seq<char>)
    requires
        sep.len() > 0,
        forall|i: int| 0 <= i < a.len() ==> a[i] != sep[0],
        forall|i: int| 0 <= i < b.len() ==> b[i] != sep[0],
    ensures
        split_spec(a + sep + b, sep) == seq![a, b],
    decreases a.len(),
{
    let s = a + sep + b;
    if a.len() == 0 {
        assert(s.subrange(0, sep.len() as int) =~= sep);
        assert(s.subrange(sep.len() as int, s.len() as int) =~= b);
        lemma_split_free(b, sep);
        assert(a =~= Seq::<char>::empty());
        assert(split_spec(s, sep) =~= seq![a, b]);
    } else {
        assert(s.subrange(0, sep.len() as int)[0] == a[0]);
        assert(s.drop_first() =~= a.drop_first() + sep + b);
        lemma_split_around(a.drop_first(), b, sep);
        assert(seq![a[0]] + a.drop_first() =~= a);
        assert(split_spec(s, sep) =~= seq![a, b]);
    }
}

} // verus!
