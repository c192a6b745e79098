//! Header collections: names are matched case-insensitively, values are
//! opaque bytes. Lookup returns the first entry whose name matches; the
//! relative order of entries is preserved by filtering.

use vstd::prelude::*;

use crate::text::chars_eq_ic;
use crate::text::push_char;
use crate::text::str_eq_ic;

verus! {

/// One header: a name (matched case-insensitively) and its raw byte value.
#[derive(Debug)]
pub struct Header {
    pub name: String,
    pub value: Vec<u8>,
}

impl View for Header {
    type V = (Seq<char>, Seq<u8>);

    open spec fn view(&self) -> (Seq<char>, Seq<u8>) {
        (self.name@, self.value@)
    }
}

/// An ordered header collection.
#[derive(Debug)]
pub struct Headers {
    pub entries: Vec<Header>,
}

/// The views of a sequence of headers, in order.
pub open spec fn header_views(s: Seq<Header>) -> Seq<(Seq<char>, Seq<u8>)> {
    Seq::new(s.len(), |i: int| s[i]@)
}

impl View for Headers {
    type V = Seq<(Seq<char>, Seq<u8>)>;

    open spec fn view(&self) -> Seq<(Seq<char>, Seq<u8>)> {
        header_views(self.entries@)
    }
}

/// A byte that `http`'s header-value-to-text conversion accepts:
/// visible ASCII or horizontal tab.
pub open spec fn textual_byte(b: u8) -> bool {
    32 <= b && b < 127 || b == 9
}

/// A header value that converts to text losslessly.
pub open spec fn textual(v: Seq<u8>) -> bool {
    forall|i: int| 0 <= i < v.len() ==> textual_byte(v[i])
}

/// The characters of a textual header value.
pub open spec fn text_of(v: Seq<u8>) -> Seq<char> {
    Seq::new(v.len(), |i: int| v[i] as char)
}

/// The first value stored under a name that matches `name` up to ASCII case.
pub open spec fn spec_lookup(hs: Seq<(Seq<char>, Seq<u8>)>, name: Seq<char>) -> Option<Seq<u8>>
    decreases hs.len(),
{
    if hs.len() == 0 {
        None
    } else if chars_eq_ic(hs[0].0, name) {
        Some(hs[0].1)
    } else {
        spec_lookup(hs.drop_first(), name)
    }
}

/// Whether `n` matches some name in `names` up to ASCII case.
pub open spec fn name_in(names: Seq<Seq<char>>, n: Seq<char>) -> bool {
    exists|i: int| 0 <= i < names.len() && chars_eq_ic(names[i], n)
}

/// `hs` with every entry whose name matches one of `names` removed;
/// the surviving entries keep their relative order.
pub open spec fn spec_remove(hs: Seq<(Seq<char>, Seq<u8>)>, names: Seq<Seq<char>>) -> Seq<
    (Seq<char>, Seq<u8>),
>
    decreases hs.len(),
{
    if hs.len() == 0 {
        Seq::empty()
    } else {
        let rest = spec_remove(hs.drop_first(), names);
        if name_in(names, hs[0].0) {
            rest
        } else {
            seq![hs[0]] + rest
        }
    }
}

/// `hs` with the entry for `name` replaced: matching entries are removed
/// and the new entry appended.
pub open spec fn spec_set(
    hs: Seq<(Seq<char>, Seq<u8>)>,
    name: Seq<char>,
    value: Seq<u8>,
) -> Seq<(Seq<char>, Seq<u8>)> {
    spec_remove(hs, seq![name]).push((name, value))
}

pub proof fn lemma_remove_push(
    hs: Seq<(Seq<char>, Seq<u8>)>,
    x: (Seq<char>, Seq<u8>),
    names: Seq<Seq<char>>,
)
    ensures
        spec_remove(hs.push(x), names) == spec_remove(hs, names) + (if name_in(names, x.0) {
            Seq::<(Seq<char>, Seq<u8>)>::empty()
        } else {
            seq![x]
        }),
    decreases hs.len(),
{
    let tail = if name_in(names, x.0) {
        Seq::<(Seq<char>, Seq<u8>)>::empty()
    } else {
        seq![x]
    };
    if hs.len() == 0 {
        assert(hs.push(x)[0] == x);
        assert(hs.push(x).drop_first() =~= Seq::<(Seq<char>, Seq<u8>)>::empty());
        assert(spec_remove(hs.push(x).drop_first(), names) == Seq::<(Seq<char>, Seq<u8>)>::empty());
        assert(spec_remove(hs, names) == Seq::<(Seq<char>, Seq<u8>)>::empty());
        assert(spec_remove(hs.push(x), names) =~~= spec_remove(hs, names) + tail);
    } else {
        assert(hs.push(x).drop_first() =~= hs.drop_first().push(x));
        lemma_remove_push(hs.drop_first(), x, names);
        if !name_in(names, hs[0].0) {
            assert(seq![hs[0]] + (spec_remove(hs.drop_first(), names) + tail) =~= (seq![hs[0]]
                + spec_remove(hs.drop_first(), names)) + tail);
        }
    }
}

pub proof fn lemma_lookup_push(
    hs: Seq<(Seq<char>, Seq<u8>)>,
    x: (Seq<char>, Seq<u8>),
    n: Seq<char>,
)
    ensures
        spec_lookup(hs.push(x), n) == (if spec_lookup(hs, n) is Some {
            spec_lookup(hs, n)
        } else if chars_eq_ic(x.0, n) {
            Some(x.1)
        } else {
            None::<Seq<u8>>
        }),
    decreases hs.len(),
{
    if hs.len() == 0 {
        assert(hs.push(x)[0] == x);
        assert(hs.push(x).drop_first() =~= Seq::empty());
    } else {
        assert(hs.push(x)[0] == hs[0]);
        assert(hs.push(x).drop_first() =~= hs.drop_first().push(x));
        lemma_lookup_push(hs.drop_first(), x, n);
    }
}

pub proof fn lemma_lookup_remove(
    hs: Seq<(Seq<char>, Seq<u8>)>,
    names: Seq<Seq<char>>,
    n: Seq<char>,
)
    ensures
        name_in(names, n) ==> spec_lookup(spec_remove(hs, names), n) is None,
        !name_in(names, n) ==> spec_lookup(spec_remove(hs, names), n) == spec_lookup(hs, n),
    decreases hs.len(),
{
    if hs.len() == 0 {
    } else {
        lemma_lookup_remove(hs.drop_first(), names, n);
        let rest = spec_remove(hs.drop_first(), names);
        if name_in(names, hs[0].0) {
            if chars_eq_ic(hs[0].0, n) && !name_in(names, n) {
                let i = choose|i: int| 0 <= i < names.len() && chars_eq_ic(names[i], hs[0].0);
                assert(chars_eq_ic(names[i], n));
            }
        } else {
            let kept = seq![hs[0]] + rest;
            assert(kept[0] == hs[0]);
            assert(kept.drop_first() =~= rest);
            if chars_eq_ic(hs[0].0, n) && name_in(names, n) {
                let i = choose|i: int| 0 <= i < names.len() && chars_eq_ic(names[i], n);
                assert(chars_eq_ic(names[i], hs[0].0));
            }
        }
    }
}

pub proof fn lemma_lookup_set(
    hs: Seq<(Seq<char>, Seq<u8>)>,
    m: Seq<char>,
    v: Seq<u8>,
    n: Seq<char>,
)
    ensures
        chars_eq_ic(m, n) ==> spec_lookup(spec_set(hs, m, v), n) == Some(v),
        !chars_eq_ic(m, n) ==> spec_lookup(spec_set(hs, m, v), n) == spec_lookup(hs, n),
{
    lemma_lookup_remove(hs, seq![m], n);
    lemma_lookup_push(spec_remove(hs, seq![m]), (m, v), n);
    if name_in(seq![m], n) {
        assert(chars_eq_ic(m, n)) by {
            let i = choose|i: int| 0 <= i < seq![m].len() && chars_eq_ic(seq![m][i], n);
            assert(seq![m][i] == m);
        }
    }
    if chars_eq_ic(m, n) {
        assert(seq![m][0] == m);
        assert(name_in(seq![m], n));
    }
}

/// The predicate a filtered header set keeps: the entry's name matches
/// none of the excluded names.
pub open spec fn kept_by(names: Seq<Seq<char>>) -> spec_fn((Seq<char>, Seq<u8>)) -> bool {
    |e: (Seq<char>, Seq<u8>)| !name_in(names, e.0)
}

/// Law: removing excluded names is exactly a filter; every surviving
/// entry keeps its name, its value, and its place relative to the other
/// survivors.
pub proof fn lemma_remove_is_filter(hs: Seq<(Seq<char>, Seq<u8>)>, names: Seq<Seq<char>>)
    ensures
        spec_remove(hs, names) == hs.filter(kept_by(names)),
    decreases hs.len(),
{
    reveal(Seq::filter);
    if hs.len() == 0 {
    } else {
        lemma_remove_is_filter(hs.drop_last(), names);
        lemma_remove_push(hs.drop_last(), hs.last(), names);
        assert(hs.drop_last().push(hs.last()) =~= hs);
        let pred = kept_by(names);
        if pred(hs.last()) {
            assert(spec_remove(hs, names) =~= hs.drop_last().filter(pred).push(hs.last()));
        } else {
            assert(spec_remove(hs, names) =~= hs.drop_last().filter(pred));
        }
    }
}

/// A verified byte-for-byte copy.
pub fn clone_bytes(v: &Vec<u8>) -> (r: Vec<u8>)
    ensures
        r@ == v@,
{
    let mut out: Vec<u8> = Vec::new();
    let n = v.len();
    let mut i: usize = 0;
    while i < n
        invariant
            n == v@.len(),
            i <= n,
            out@ == v@.take(i as int),
        decreases n - i,
    {
        out.push(v[i]);
        proof {
            assert(out@ =~= v@.take(i as int + 1));
        }
        i += 1;
    }
    proof {
        assert(v@.take(n as int) =~= v@);
    }
    out
}

/// Converts a header value to text exactly when every byte is visible
/// ASCII or tab, the same criterion `http` uses for `to_str`.
pub fn bytes_to_text(v: &Vec<u8>) -> (r: Option<String>)
    ensures
        r is Some <==> textual(v@),
        r is Some ==> r->Some_0@ == text_of(v@),
{
    let mut out = String::new();
    let n = v.len();
    let mut i: usize = 0;
    while i < n
        invariant
            n == v@.len(),
            i <= n,
            out@ == text_of(v@.take(i as int)),
            forall|j: int| 0 <= j < i ==> textual_byte(v@[j]),
        decreases n - i,
    {
        let b = v[i];
        if !(32 <= b && b < 127 || b == 9) {
            return None;
        }
        push_char(&mut out, b as char);
        proof {
            assert(out@ =~= text_of(v@.take(i as int + 1)));
        }
        i += 1;
    }
    proof {
        assert(v@.take(n as int) =~= v@);
    }
    Some(out)
}

impl Headers {
    /// An empty collection.
    pub fn new() -> (r: Headers)
        ensures
            r@ =~= Seq::<(Seq<char>, Seq<u8>)>::empty(),
    {
        Headers { entries: Vec::new() }
    }

    /// Appends an entry without replacing anything.
    pub fn push(&mut self, name: String, value: Vec<u8>)
        ensures
            final(self)@ == old(self)@.push((name@, value@)),
    {
        let ghost nv = (name@, value@);
        self.entries.push(Header { name, value });
        proof {
            assert(final(self)@ =~= old(self)@.push(nv));
        }
    }

    /// The first value under a matching name, if any.
    pub fn get<'a>(&'a self, name: &str) -> (r: Option<&'a Vec<u8>>)
        ensures
            match r {
                Some(v) => spec_lookup(self@, name@) == Some(v@),
                None => spec_lookup(self@, name@) is None,
            },
    {
        let n = self.entries.len();
        let mut i: usize = 0;
        proof {
            assert(self@.skip(0) =~= self@);
        }
        while i < n
            invariant
                n == self.entries@.len(),
                i <= n,
                spec_lookup(self@, name@) == spec_lookup(self@.skip(i as int), name@),
            decreases n - i,
        {
            proof {
                assert(self@.skip(i as int)[0] == self@[i as int]);
                assert(self@.skip(i as int).drop_first() =~= self@.skip(i as int + 1));
            }
            if str_eq_ic(self.entries[i].name.as_str(), name) {
                return Some(&self.entries[i].value);
            }
            i += 1;
        }
        None
    }

    /// Whether some entry's name matches `name`.
    pub fn contains_name(&self, name: &str) -> (r: bool)
        ensures
            r == (spec_lookup(self@, name@) is Some),
    {
        self.get(name).is_some()
    }

    /// A copy of this collection with every entry whose name matches one
    /// of `names` removed; the rest keep their order, names and values.
    pub fn without_names(&self, names: &Vec<String>) -> (r: Headers)
        ensures
            r@ == spec_remove(self@, names.deep_view()),
    {
        let mut out: Vec<Header> = Vec::new();
        let n = self.entries.len();
        let mut i: usize = 0;
        while i < n
            invariant
                n == self.entries@.len(),
                i <= n,
                header_views(out@) == spec_remove(self@.take(i as int), names.deep_view()),
            decreases n - i,
        {
            let ghost pre = self@.take(i as int);
            proof {
                assert(self@.take(i as int + 1) =~= pre.push(self@[i as int]));
                lemma_remove_push(pre, self@[i as int], names.deep_view());
            }
            if !name_matches_any(self.entries[i].name.as_str(), names) {
                let name = self.entries[i].name.clone();
                let value = clone_bytes(&self.entries[i].value);
                out.push(Header { name, value });
                proof {
                    assert(header_views(out@) =~= spec_remove(
                        self@.take(i as int + 1),
                        names.deep_view(),
                    ));
                }
            } else {
                proof {
                    assert(header_views(out@) =~= spec_remove(
                        self@.take(i as int + 1),
                        names.deep_view(),
                    ));
                }
            }
            i += 1;
        }
        proof {
            assert(self@.take(n as int) =~= self@);
        }
        Headers { entries: out }
    }

    /// Replaces the entry for `name`: removes matching entries and appends
    /// the new one.
    pub fn set(&mut self, name: &str, value: Vec<u8>)
        ensures
            final(self)@ == spec_set(old(self)@, name@, value@),
    {
        let mut names: Vec<String> = Vec::new();
        names.push(name.to_owned());
        proof {
            assert(names.deep_view() =~= seq![name@]);
        }
        let mut out = self.without_names(&names);
        let owned = name.to_owned();
        out.push(owned, value);
        *self = out;
    }
}

/// Whether `name` matches some element of `names` up to ASCII case.
pub fn name_matches_any(name: &str, names: &Vec<String>) -> (r: bool)
    ensures
        r == name_in(names.deep_view(), name@),
{
    let n = names.len();
    let mut i: usize = 0;
    while i < n
        invariant
            n == names@.len(),
            i <= n,
            forall|j: int| 0 <= j < i ==> !chars_eq_ic(names.deep_view()[j], name@),
        decreases n - i,
    {
        if str_eq_ic(names[i].as_str(), name) {
            proof {
                assert(names.deep_view()[i as int] == names@[i as int]@);
            }
            return true;
        }
        i += 1;
    }
    false
}

} // verus!
