//! Exact-match lookup over a static dictionary of domain strings.
//!
//! [`DomainRule`] is built once from an ordered dictionary and afterwards
//! answers only exact-match queries: a hit returns the key's position in the
//! dictionary, and a query that is merely a prefix or an extension of a key
//! misses. Duplicate keys resolve first-wins: the position of the earliest
//! occurrence is returned. The trie itself comes from the `cedarwood` crate
//! and is trusted only through the small contracts stated on the wrappers
//! below; everything around it is verified. Keys the trie cannot carry — the
//! empty string and strings holding a NUL character — live in a verified
//! side table instead, so every string is a usable key and a usable query.

use vstd::prelude::*;
use vstd::string::StrSliceExecFns;
use vstd::string::StringSliceAdditionalSpecFns;
use cedarwood::Cedar;

verus! {

/// A key the double-array trie cannot carry: the empty string (the trie
/// panics on inserting it) or a string holding a NUL character (the trie
/// uses byte 0 as its key-terminal marker, so an interior NUL would collide
/// with the terminal edges of other keys).
pub open spec fn is_side_key(k: Seq<char>) -> bool {
    k.len() == 0 || k.contains('\0')
}

/// cedarwood's double-array trie, held opaque: verification sees it only
/// through `cedar_entries` and the trusted wrappers below.
#[verifier::external_type_specification]
#[verifier::external_body]
pub struct ExCedar(Cedar);

/// The key/value pairs a trie holds, each key given by its characters.
pub uninterp spec fn cedar_entries(c: Cedar) -> Map<Seq<char>, int>;

/// Relies on `cedarwood::Cedar::{new, build}`: the built trie holds exactly
/// the given keys, each paired with its value. Excluded inputs, from the
/// crate's source: `update_` panics on an empty key and overwrites on a
/// repeated key; byte 0 is the trie's key-terminal marker, so a NUL inside a
/// key would collide with the terminal slot of its prefix; and the value -1
/// is the trie's no-value marker, so stored values must be non-negative.
#[verifier::external_body]
fn cedar_build(keys: &Vec<String>, values: &Vec<i32>) -> (c: Cedar)
    requires
        keys@.len() == values@.len(),
        forall|i: int| 0 <= i < keys@.len() ==> !is_side_key(#[trigger] keys@[i]@),
        forall|i: int| 0 <= i < values@.len() ==> 0 <= #[trigger] values@[i],
        forall|i: int, j: int| 0 <= i < j < keys@.len() ==> keys@[i]@ != keys@[j]@,
    ensures
        forall|i: int| 0 <= i < keys@.len() ==> cedar_entries(c).contains_key(#[trigger] keys@[i]@)
            && cedar_entries(c)[keys@[i]@] == values@[i] as int,
        forall|k: Seq<char>| #[trigger] cedar_entries(c).contains_key(k)
            ==> exists|i: int| 0 <= i < keys@.len() && keys@[i]@ == k,
{
    let mut cedar = Cedar::new();
    let pairs: Vec<(&str, i32)> = keys.iter().zip(values.iter()).map(|(k, v)| (k.as_str(), *v)).collect();
    cedar.build(&pairs);
    cedar
}

/// Relies on `cedarwood::Cedar::exact_match_search`: an exact hit returns the
/// stored value together with the query's length in bytes; a miss returns
/// `None`. A NUL inside the query is excluded: byte 0 is the trie's terminal
/// marker, and `find` would read a stored value as a node index.
#[verifier::external_body]
fn cedar_search(c: &Cedar, key: &str) -> (r: Option<(i32, usize)>)
    requires
        !is_side_key(key@),
    ensures
        match r {
            Some(p) => cedar_entries(*c).contains_key(key@)
                && p.0 as int == cedar_entries(*c)[key@]
                && p.1 == key.spec_bytes().len(),
            None => !cedar_entries(*c).contains_key(key@),
        },
{
    c.exact_match_search(key).map(|t| (t.0, t.1))
}

/// An exact hit: the key's position in the dictionary and the matched key's
/// length in bytes. Absence of any match is a `None` around this type, never
/// a zero-length result.
#[derive(Clone, Copy, PartialEq, Eq, Structural, Debug)]
pub struct MatchResult {
    pub index: i32,
    pub matched_len: usize,
}

/// `i` is the position of the first occurrence of `q` in `dict`.
pub open spec fn is_first_hit(dict: Seq<Seq<char>>, q: Seq<char>, i: int) -> bool {
    &&& 0 <= i < dict.len()
    &&& dict[i] == q
    &&& forall|j: int| 0 <= j < i ==> dict[j] != q
}

/// `q` occurs somewhere in `dict`.
pub open spec fn dict_has(dict: Seq<Seq<char>>, q: Seq<char>) -> bool {
    exists|i: int| 0 <= i < dict.len() && dict[i] == q
}

/// What a lookup over `dict` returns for `q`: the position of the first
/// occurrence, or `None` when `q` is not a key at all.
pub open spec fn spec_search(dict: Seq<Seq<char>>, q: Seq<char>) -> Option<int> {
    if dict_has(dict, q) {
        Some(choose|i: int| is_first_hit(dict, q, i))
    } else {
        None
    }
}

/// `a` is a strict prefix of `b`.
pub open spec fn is_strict_prefix(a: Seq<char>, b: Seq<char>) -> bool {
    a.len() < b.len() && a == b.take(a.len() as int)
}

proof fn lemma_dict_has_step(dict: Seq<Seq<char>>, n: int, k: Seq<char>)
    requires
        0 <= n < dict.len(),
    ensures
        dict_has(dict.take(n + 1), k) <==> (dict_has(dict.take(n), k) || dict[n] == k),
{
    assert(dict.take(n + 1) =~= dict.take(n).push(dict[n]));
    if dict_has(dict.take(n + 1), k) {
        let w = choose|w: int| 0 <= w < dict.take(n + 1).len() && #[trigger] dict.take(n + 1)[w] == k;
        if w < n {
            assert(dict.take(n)[w] == k);
            assert(dict_has(dict.take(n), k));
        } else {
            assert(dict[n] == k);
        }
    }
    if dict_has(dict.take(n), k) {
        let w = choose|w: int| 0 <= w < dict.take(n).len() && #[trigger] dict.take(n)[w] == k;
        assert(dict.take(n + 1)[w] == k);
        assert(dict_has(dict.take(n + 1), k));
    }
    if dict[n] == k {
        assert(dict.take(n + 1)[n] == k);
        assert(dict_has(dict.take(n + 1), k));
    }
}

proof fn lemma_first_hit_unique(dict: Seq<Seq<char>>, q: Seq<char>, i: int, j: int)
    requires
        is_first_hit(dict, q, i),
        is_first_hit(dict, q, j),
    ensures
        i == j,
{
    if i < j {
        assert(dict[i] == q);
    } else if j < i {
        assert(dict[j] == q);
    }
}

/// Law: a domain standing in the dictionary is found at the position of its
/// first occurrence, so later duplicates never disturb the lookup of an
/// earlier identical key (first-wins duplicate policy).
pub proof fn lemma_search_finds_first(dict: Seq<Seq<char>>, d: Seq<char>, i: int)
    requires
        0 <= i < dict.len(),
        dict[i] == d,
        forall|j: int| 0 <= j < i ==> dict[j] != d,
    ensures
        spec_search(dict, d) == Some(i),
{
    assert(is_first_hit(dict, d, i));
    assert(dict_has(dict, d));
    let k = choose|k: int| is_first_hit(dict, d, k);
    lemma_first_hit_unique(dict, d, i, k);
}

/// Law: a string that is a strict prefix or a strict extension of every key
/// in the dictionary, and so not itself a key, is never matched.
pub proof fn lemma_search_rejects_near_misses(dict: Seq<Seq<char>>, s: Seq<char>)
    requires
        forall|i: int| 0 <= i < dict.len()
            ==> is_strict_prefix(s, #[trigger] dict[i]) || is_strict_prefix(dict[i], s),
    ensures
        spec_search(dict, s) is None,
{
    assert forall|i: int| 0 <= i < dict.len() implies dict[i] != s by {
        assert(is_strict_prefix(s, dict[i]) || is_strict_prefix(dict[i], s));
    }
}

/// Law: an index built from the empty dictionary matches nothing, the empty
/// string included.
pub proof fn lemma_empty_dict_matches_nothing(q: Seq<char>)
    ensures
        spec_search(Seq::<Seq<char>>::empty(), q) is None,
{
}

/// Whether `s` holds a NUL character.
fn contains_nul(s: &str) -> (r: bool)
    ensures
        r == s@.contains('\0'),
{
    let n = s.unicode_len();
    let mut i: usize = 0;
    let mut found = false;
    while i < n
        invariant
            n == s@.len(),
            i <= n,
            found <==> exists|j: int| 0 <= j < i && s@[j] == '\0',
        decreases n - i,
    {
        if s.get_char(i) == '\0' {
            found = true;
        }
        i += 1;
    }
    found
}

/// Whether a string must bypass the trie and live in the side table.
fn is_irregular(s: &str) -> (r: bool)
    ensures
        r == is_side_key(s@),
{
    s.is_empty() || contains_nul(s)
}

/// Immutable exact-match index over a dictionary of domain strings.
///
/// Its view is the dictionary itself, a sequence of character sequences; the
/// position in that sequence is a key's index. Once built the structure is
/// read-only: every method takes `&self`, so any number of readers can share
/// it. Keys the trie cannot carry (see [`is_side_key`]) are held in a side
/// table of first occurrences and searched by plain comparison.
pub struct DomainRule {
    trie: Cedar,
    side_keys: Vec<String>,
    side_vals: Vec<i32>,
    reverse: Option<Vec<String>>,
    dict: Ghost<Seq<Seq<char>>>,
}

impl View for DomainRule {
    type V = Seq<Seq<char>>;

    closed spec fn view(&self) -> Seq<Seq<char>> {
        self.dict@
    }
}

/// Everything construction establishes and every method may lean on: the trie
/// holds exactly the regular keys of the dictionary, the side table exactly
/// the irregular ones, each mapped to its first occurrence; the kept reverse
/// mapping is the dictionary itself.
#[verifier::opaque]
spec fn rule_inv(
    trie: Cedar,
    side_keys: Seq<String>,
    side_vals: Seq<i32>,
    reverse: Option<Vec<String>>,
    dict: Seq<Seq<char>>,
) -> bool {
    &&& dict.len() <= 0x7fff_ffff
    &&& forall|k: Seq<char>| #[trigger] cedar_entries(trie).contains_key(k)
        <==> (!is_side_key(k) && dict_has(dict, k))
    &&& forall|k: Seq<char>| #[trigger] cedar_entries(trie).contains_key(k)
        ==> is_first_hit(dict, k, cedar_entries(trie)[k])
    &&& side_keys.len() == side_vals.len()
    &&& forall|a: int| 0 <= a < side_keys.len()
        ==> is_side_key(#[trigger] side_keys[a]@)
            && is_first_hit(dict, side_keys[a]@, side_vals[a] as int)
    &&& forall|k: Seq<char>| is_side_key(k) && dict_has(dict, k)
        ==> exists|a: int| 0 <= a < side_keys.len() && #[trigger] side_keys[a]@ == k
    &&& match reverse {
        Some(v) => v.deep_view() == dict,
        None => true,
    }
}

impl DomainRule {
    /// Whether the original dictionary was kept for reverse lookups.
    pub closed spec fn retains_reverse(&self) -> bool {
        self.reverse is Some
    }

    #[verifier::type_invariant]
    closed spec fn wf(self) -> bool {
        rule_inv(self.trie, self.side_keys@, self.side_vals@, self.reverse, self.dict@)
    }

    /// Build the index from the dictionary, keeping the reverse mapping from
    /// index back to domain string.
    pub fn new(prefix_dict: Vec<String>) -> (r: DomainRule)
        requires
            prefix_dict@.len() <= 0x7fff_ffff,
        ensures
            r@ == prefix_dict.deep_view(),
            r.retains_reverse(),
    {
        DomainRule::with_options(prefix_dict, true)
    }

    /// Build the index from the dictionary. When `retain_reverse_index` is
    /// false the dictionary itself is dropped after construction and
    /// [`DomainRule::get_domain_by_index`] always answers `None`.
    fn assemble(
        trie: Cedar,
        side_keys: Vec<String>,
        side_vals: Vec<i32>,
        reverse: Option<Vec<String>>,
        dict: Ghost<Seq<Seq<char>>>,
    ) -> (r: DomainRule)
        requires
            rule_inv(trie, side_keys@, side_vals@, reverse, dict@),
        ensures
            r@ == dict@,
            r.retains_reverse() == (reverse is Some),
    {
        DomainRule { trie, side_keys, side_vals, reverse, dict }
    }

    pub fn with_options(prefix_dict: Vec<String>, retain_reverse_index: bool) -> (r: DomainRule)
        requires
            prefix_dict@.len() <= 0x7fff_ffff,
        ensures
            r@ == prefix_dict.deep_view(),
            r.retains_reverse() == retain_reverse_index,
    {
        let ghost dict: Seq<Seq<char>> = prefix_dict.deep_view();
        let mut keys: Vec<String> = Vec::new();
        let mut values: Vec<i32> = Vec::new();
        let mut side_keys: Vec<String> = Vec::new();
        let mut side_vals: Vec<i32> = Vec::new();
        let mut idx: usize = 0;
        while idx < prefix_dict.len()
            invariant
                idx <= dict.len(),
                dict == prefix_dict.deep_view(),
                dict.len() == prefix_dict@.len(),
                dict.len() <= 0x7fff_ffff,
                keys@.len() == values@.len(),
                side_keys@.len() == side_vals@.len(),
                forall|a: int| 0 <= a < keys@.len() ==> !is_side_key(#[trigger] keys@[a]@),
                forall|a: int| 0 <= a < keys@.len()
                    ==> is_first_hit(dict, #[trigger] keys@[a]@, values@[a] as int),
                forall|a: int| 0 <= a < values@.len() ==> 0 <= #[trigger] values@[a] < idx,
                forall|a: int, b: int| 0 <= a < b < keys@.len()
                    ==> keys@[a]@ != keys@[b]@,
                forall|a: int| 0 <= a < side_keys@.len() ==> is_side_key(#[trigger] side_keys@[a]@),
                forall|a: int| 0 <= a < side_keys@.len()
                    ==> is_first_hit(dict, #[trigger] side_keys@[a]@, side_vals@[a] as int),
                forall|a: int| 0 <= a < side_vals@.len() ==> 0 <= #[trigger] side_vals@[a] < idx,
                forall|a: int, b: int| 0 <= a < b < side_keys@.len()
                    ==> side_keys@[a]@ != side_keys@[b]@,
                forall|k: Seq<char>| !is_side_key(k) && dict_has(dict.take(idx as int), k)
                    ==> exists|a: int| 0 <= a < keys@.len() && #[trigger] keys@[a]@ == k,
                forall|k: Seq<char>| is_side_key(k) && dict_has(dict.take(idx as int), k)
                    ==> exists|a: int| 0 <= a < side_keys@.len() && #[trigger] side_keys@[a]@ == k,
            decreases prefix_dict@.len() - idx,
        {
            let s = &prefix_dict[idx];
            proof {
                assert(dict[idx as int] == s@);
            }
            if is_irregular(s.as_str()) {
                let ghost side0 = side_keys@;
                let mut seen = false;
                let mut j: usize = 0;
                while j < side_keys.len()
                    invariant
                        j <= side_keys@.len(),
                        seen <==> exists|a: int| 0 <= a < j && #[trigger] side_keys@[a]@ == s@,
                    decreases side_keys@.len() - j,
                {
                    let kj = &side_keys[j];
                    if kj.eq(s) {
                        proof {
                            assert(side_keys@[j as int]@ == s@);
                        }
                        seen = true;
                    }
                    j += 1;
                }
                if !seen {
                    proof {
                        assert forall|jj: int| 0 <= jj < idx implies dict[jj] != s@ by {
                            if dict[jj] == s@ {
                                assert(dict.take(idx as int)[jj] == dict[jj]);
                                assert(dict_has(dict.take(idx as int), s@));
                            }
                        }
                        assert(is_first_hit(dict, s@, idx as int));
                    }
                    side_keys.push(s.clone());
                    side_vals.push(idx as i32);
                    proof {
                        assert(side_keys@[side_keys@.len() - 1]@ == s@);
                        assert(side_vals@[side_vals@.len() - 1] == idx as i32);
                    }
                }
                proof {
                    assert forall|k: Seq<char>| is_side_key(k) && dict_has(dict.take(idx + 1), k)
                        implies exists|a: int| 0 <= a < side_keys@.len() && #[trigger] side_keys@[a]@ == k by {
                        lemma_dict_has_step(dict, idx as int, k);
                        if dict[idx as int] == k {
                            if seen {
                                let a1 = choose|a: int| 0 <= a < side_keys@.len() && #[trigger] side_keys@[a]@ == s@;
                                assert(side_keys@[a1]@ == k);
                            } else {
                                assert(side_keys@[side_keys@.len() - 1]@ == k);
                            }
                        } else {
                            assert(dict_has(dict.take(idx as int), k));
                            let a0 = choose|a: int| 0 <= a < side0.len() && #[trigger] side0[a]@ == k;
                            assert(side_keys@[a0]@ == k);
                        }
                    }
                    assert forall|k: Seq<char>| !is_side_key(k) && dict_has(dict.take(idx + 1), k)
                        implies exists|a: int| 0 <= a < keys@.len() && #[trigger] keys@[a]@ == k by {
                        lemma_dict_has_step(dict, idx as int, k);
                    }
                }
            } else {
                let ghost keys0 = keys@;
                let mut seen = false;
                let mut j: usize = 0;
                while j < keys.len()
                    invariant
                        j <= keys@.len(),
                        seen <==> exists|a: int| 0 <= a < j && #[trigger] keys@[a]@ == s@,
                    decreases keys@.len() - j,
                {
                    let kj = &keys[j];
                    if kj.eq(s) {
                        proof {
                            assert(keys@[j as int]@ == s@);
                        }
                        seen = true;
                    }
                    j += 1;
                }
                if !seen {
                    proof {
                        assert forall|jj: int| 0 <= jj < idx implies dict[jj] != s@ by {
                            if dict[jj] == s@ {
                                assert(dict.take(idx as int)[jj] == dict[jj]);
                                assert(dict_has(dict.take(idx as int), s@));
                            }
                        }
                        assert(is_first_hit(dict, s@, idx as int));
                    }
                    keys.push(s.clone());
                    values.push(idx as i32);
                    proof {
                        assert(keys@[keys@.len() - 1]@ == s@);
                        assert(values@[values@.len() - 1] == idx as i32);
                    }
                }
                proof {
                    assert forall|k: Seq<char>| !is_side_key(k) && dict_has(dict.take(idx + 1), k)
                        implies exists|a: int| 0 <= a < keys@.len() && #[trigger] keys@[a]@ == k by {
                        lemma_dict_has_step(dict, idx as int, k);
                        if dict[idx as int] == k {
                            if seen {
                                let a1 = choose|a: int| 0 <= a < keys@.len() && #[trigger] keys@[a]@ == s@;
                                assert(keys@[a1]@ == k);
                            } else {
                                assert(keys@[keys@.len() - 1]@ == k);
                            }
                        } else {
                            assert(dict_has(dict.take(idx as int), k));
                            let a0 = choose|a: int| 0 <= a < keys0.len() && #[trigger] keys0[a]@ == k;
                            assert(keys@[a0]@ == k);
                        }
                    }
                    assert forall|k: Seq<char>| is_side_key(k) && dict_has(dict.take(idx + 1), k)
                        implies exists|a: int| 0 <= a < side_keys@.len() && #[trigger] side_keys@[a]@ == k by {
                        lemma_dict_has_step(dict, idx as int, k);
                    }
                }
            }
            idx += 1;
        }
        proof {
            assert(dict.take(idx as int) =~= dict);
        }
        let trie = cedar_build(&keys, &values);
        proof {
            assert forall|k: Seq<char>| #[trigger] cedar_entries(trie).contains_key(k)
                implies !is_side_key(k) && dict_has(dict, k)
                    && is_first_hit(dict, k, cedar_entries(trie)[k]) by {
                let i = choose|i: int| 0 <= i < keys@.len() && keys@[i]@ == k;
                assert(cedar_entries(trie)[keys@[i]@] == values@[i] as int);
                assert(is_first_hit(dict, keys@[i]@, values@[i] as int));
            }
            assert forall|k: Seq<char>| !is_side_key(k) && dict_has(dict, k)
                implies cedar_entries(trie).contains_key(k) by {
                let a = choose|a: int| 0 <= a < keys@.len() && keys@[a]@ == k;
                assert(cedar_entries(trie).contains_key(keys@[a]@));
            }
            assert(forall|k: Seq<char>| #[trigger] cedar_entries(trie).contains_key(k)
                <==> (!is_side_key(k) && dict_has(dict, k)));
        }
        let reverse: Option<Vec<String>> = if retain_reverse_index {
            Some(prefix_dict)
        } else {
            None
        };
        proof {
            reveal(rule_inv);
            assert(rule_inv(trie, side_keys@, side_vals@, reverse, dict));
        }
        DomainRule::assemble(trie, side_keys, side_vals, reverse, Ghost(dict))
    }

    /// Exact-match lookup. A hit names the position of the query's first
    /// occurrence in the dictionary and the query's length in bytes; a query
    /// that is not a key, the empty string included, misses.
    pub fn search_domain(&self, domain: &str) -> (r: Option<MatchResult>)
        ensures
            match r {
                Some(m) => spec_search(self@, domain@) == Some(m.index as int)
                    && m.matched_len == domain.spec_bytes().len() as usize,
                None => spec_search(self@, domain@) is None,
            },
    {
        proof {
            use_type_invariant(&*self);
            reveal(rule_inv);
        }
        if is_irregular(domain) {
            let d = domain.to_owned();
            let mut hit: Option<i32> = None;
            let mut j: usize = 0;
            while j < self.side_keys.len()
                invariant
                    j <= self.side_keys@.len(),
                    d@ == domain@,
                    self.side_keys@.len() == self.side_vals@.len(),
                    forall|a: int| 0 <= a < self.side_keys@.len()
                        ==> is_first_hit(self.dict@, #[trigger] self.side_keys@[a]@, self.side_vals@[a] as int),
                    match hit {
                        Some(v) => is_first_hit(self.dict@, domain@, v as int),
                        None => forall|a: int| 0 <= a < j ==> #[trigger] self.side_keys@[a]@ != domain@,
                    },
                decreases self.side_keys@.len() - j,
            {
                let kj = &self.side_keys[j];
                if kj.eq(&d) {
                    proof {
                        assert(self.side_keys@[j as int]@ == domain@);
                    }
                    hit = Some(self.side_vals[j]);
                }
                j += 1;
            }
            match hit {
                Some(v) => {
                    proof {
                        lemma_search_finds_first(self.dict@, domain@, v as int);
                    }
                    Some(MatchResult { index: v, matched_len: domain.len() })
                },
                None => {
                    proof {
                        if dict_has(self.dict@, domain@) {
                            let a = choose|a: int| 0 <= a < self.side_keys@.len()
                                && #[trigger] self.side_keys@[a]@ == domain@;
                            assert(self.side_keys@[a]@ != domain@);
                        }
                    }
                    None
                },
            }
        } else {
            match cedar_search(&self.trie, domain) {
                Some(p) => {
                    proof {
                        let i = cedar_entries(self.trie)[domain@];
                        assert(is_first_hit(self.dict@, domain@, i));
                        lemma_search_finds_first(self.dict@, domain@, i);
                    }
                    Some(MatchResult { index: p.0, matched_len: p.1 })
                },
                None => None,
            }
        }
    }

    /// Reverse lookup from index to domain string; answers only when the
    /// reverse mapping was retained at construction and the index is in
    /// range.
    pub fn get_domain_by_index(&self, index: i32) -> (r: Option<&String>)
        ensures
            match r {
                Some(s) => self.retains_reverse() && 0 <= index < self@.len()
                    && s@ == self@[index as int],
                None => !self.retains_reverse() || index < 0 || index >= self@.len(),
            },
    {
        proof {
            use_type_invariant(&*self);
            reveal(rule_inv);
        }
        match &self.reverse {
            Some(v) => {
                if index >= 0 && (index as usize) < v.len() {
                    Some(&v[index as usize])
                } else {
                    None
                }
            },
            None => None,
        }
    }
}

} // verus!
