//! Proxy configuration: listen address and the origin allow-set.
//!
//! The effective allow-set is the union of a fixed built-in default set and
//! the configured extras; `allow_all` overrides the set check entirely and
//! never changes the stored set.

use vstd::prelude::*;
use vstd::string::StringExecFns;

use crate::text::dec_digits;
use crate::text::push_char;
use crate::text::str_eq;
use crate::text::u16_to_dec;

verus! {

/// Runtime options, fixed for the life of the process.
pub struct Config {
    /// Port to listen on.
    pub port: u16,
    /// Additional origins to allow besides the built-in defaults.
    pub allow_origins: Vec<String>,
    /// Allow every origin, bypassing the set check.
    pub allow_all: bool,
    /// Verbose logging (read only by the surrounding binary).
    pub verbose: bool,
    /// Bind address.
    pub bind: String,
}

/// The built-in origins that are always allowed.
pub open spec fn default_origins() -> Seq<Seq<char>> {
    seq![
        "https://bugdays.com"@,
        "https://www.bugdays.com"@,
        "http://bugdays.com"@,
        "http://www.bugdays.com"@,
    ]
}

/// Whether `s` equals some element of `list`.
pub fn contains_str(list: &Vec<String>, s: &str) -> (r: bool)
    ensures
        r == list.deep_view().contains(s@),
{
    let n = list.len();
    let mut i: usize = 0;
    while i < n
        invariant
            n == list@.len(),
            i <= n,
            forall|j: int| 0 <= j < i ==> list.deep_view()[j] != s@,
        decreases n - i,
    {
        if str_eq(list[i].as_str(), s) {
            proof {
                assert(list.deep_view()[i as int] == s@);
            }
            return true;
        }
        i += 1;
    }
    proof {
        assert(forall|j: int|
            0 <= j < list.deep_view().len() ==> list.deep_view()[j] != s@);
    }
    false
}

/// Membership in a sequence extended by one element.
proof fn lemma_contains_push(s: Seq<Seq<char>>, x: Seq<char>)
    ensures
        forall|o: Seq<char>| #[trigger] s.push(x).contains(o) <==> (s.contains(o) || o == x),
{
    assert forall|o: Seq<char>| #[trigger] s.push(x).contains(o) implies (s.contains(o) || o
        == x) by {
        let k = choose|k: int| 0 <= k < s.push(x).len() && s.push(x)[k] == o;
        if k < s.len() {
            assert(s[k] == o);
        }
    }
    assert forall|o: Seq<char>| s.contains(o) || o == x implies #[trigger] s.push(x).contains(
        o,
    ) by {
        if s.contains(o) {
            let k = choose|k: int| 0 <= k < s.len() && s[k] == o;
            assert(s.push(x)[k] == o);
        } else {
            assert(s.push(x)[s.len() as int] == o);
        }
    }
}

impl Config {
    /// Whether `origin` is a member of the effective allow-set
    /// (built-in defaults plus configured extras).
    pub open spec fn spec_in_allow_set(&self, origin: Seq<char>) -> bool {
        default_origins().contains(origin) || self.allow_origins.deep_view().contains(origin)
    }

    /// Whether `origin` may use the proxy.
    pub open spec fn spec_origin_allowed(&self, origin: Seq<char>) -> bool {
        self.allow_all || self.spec_in_allow_set(origin)
    }

    /// The effective allow-set: the built-in defaults followed by the
    /// configured extras that are not already present. The result is the
    /// union of the two, duplicate-free.
    pub fn allowed_origins(&self) -> (r: Vec<String>)
        ensures
            forall|o: Seq<char>| #[trigger]
                r.deep_view().contains(o) <==> (default_origins().contains(o)
                    || self.allow_origins.deep_view().contains(o)),
            forall|i: int, j: int|
                0 <= i < j < r.deep_view().len() ==> r.deep_view()[i] != r.deep_view()[j],
    {
        let mut out: Vec<String> = Vec::new();
        out.push(String::from_str("https://bugdays.com"));
        out.push(String::from_str("https://www.bugdays.com"));
        out.push(String::from_str("http://bugdays.com"));
        out.push(String::from_str("http://www.bugdays.com"));
        proof {
            reveal_strlit("https://bugdays.com");
            reveal_strlit("https://www.bugdays.com");
            reveal_strlit("http://bugdays.com");
            reveal_strlit("http://www.bugdays.com");
            assert(out.deep_view() =~= default_origins());
            assert(default_origins()[0].len() == 19);
            assert(default_origins()[1].len() == 23);
            assert(default_origins()[2].len() == 18);
            assert(default_origins()[3].len() == 22);
        }
        let n = self.allow_origins.len();
        let mut i: usize = 0;
        while i < n
            invariant
                n == self.allow_origins@.len(),
                i <= n,
                forall|o: Seq<char>| #[trigger]
                    out.deep_view().contains(o) <==> (default_origins().contains(o)
                        || self.allow_origins.deep_view().take(i as int).contains(o)),
                forall|i2: int, j2: int|
                    0 <= i2 < j2 < out.deep_view().len() ==> out.deep_view()[i2]
                        != out.deep_view()[j2],
            decreases n - i,
        {
            let ghost pre = out.deep_view();
            let ghost dv = self.allow_origins.deep_view();
            let present = contains_str(&out, self.allow_origins[i].as_str());
            if !present {
                out.push(self.allow_origins[i].clone());
                proof {
                    assert(out@[out@.len() - 1]@ == dv[i as int]);
                    assert(out.deep_view() =~= pre.push(dv[i as int]));
                }
            }
            proof {
                assert(dv.take(i as int + 1) =~= dv.take(i as int).push(dv[i as int]));
                lemma_contains_push(dv.take(i as int), dv[i as int]);
                if !present {
                    lemma_contains_push(pre, dv[i as int]);
                }
            }
            i += 1;
        }
        proof {
            assert(self.allow_origins.deep_view().take(n as int) =~= self.allow_origins.deep_view());
        }
        out
    }

    /// Whether `origin` may use the proxy: true when `allow_all` is set,
    /// otherwise an exact-match lookup in the effective allow-set.
    pub fn is_origin_allowed(&self, origin: &str) -> (r: bool)
        ensures
            r == self.spec_origin_allowed(origin@),
    {
        if self.allow_all {
            return true;
        }
        let all = self.allowed_origins();
        contains_str(&all, origin)
    }

    /// The address to bind to, as `bind:port`.
    pub fn socket_addr(&self) -> (r: String)
        ensures
            r@ == self.bind@ + seq![':'] + dec_digits(self.port as nat),
    {
        let mut s = self.bind.clone();
        push_char(&mut s, ':');
        let p = u16_to_dec(self.port);
        s.append(p.as_str());
        proof {
            assert(self.bind@.push(':') =~= self.bind@ + seq![':']);
        }
        s
    }
}

} // verus!
