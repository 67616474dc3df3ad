//! Alias autocomplete snapshots: projecting a scope's in-force name tables
//! into flattened, deduplicated, sorted candidate sets grouped by kind.

use crate::text::lemma_lex_lt_connected;
use crate::text::lemma_lex_lt_transitive;
use crate::text::lex_lt;
use crate::text::str_eq;
use crate::text::str_lt;
use vstd::prelude::*;
use vstd::seq_lib::*;

verus! {

/// What one in-force alias resolves to in a leading-access scope: a numeric
/// address, a module, a member of a module, or a type parameter.
#[derive(Debug, Clone)]
pub enum LeadingAccessEntry {
    Address(String),
    Module(String),
    /// The owning module and the member's name.
    Member(String, String),
    TypeParam,
}

/// What one alias resolves to in a member-only scope; such a table never
/// carries address or module aliases.
#[derive(Debug, Clone)]
pub enum MemberEntry {
    /// The owning module and the member's name.
    Member(String, String),
    TypeParam,
}

/// Lexicographic order over (name, value) candidate tuples.
pub open spec fn pair_lt(a0: Seq<char>, a1: Seq<char>, b0: Seq<char>, b1: Seq<char>) -> bool {
    lex_lt(a0, b0) || (a0 == b0 && lex_lt(a1, b1))
}

/// Lexicographic order over (name, module, member) candidate tuples.
pub open spec fn triple_lt(
    a0: Seq<char>,
    a1: Seq<char>,
    a2: Seq<char>,
    b0: Seq<char>,
    b1: Seq<char>,
    b2: Seq<char>,
) -> bool {
    lex_lt(a0, b0) || (a0 == b0 && (lex_lt(a1, b1) || (a1 == b1 && lex_lt(a2, b2))))
}

pub open spec fn sorted_names(s: Seq<String>) -> bool {
    forall|i: int, j: int|
        #![trigger s[i], s[j]]
        0 <= i < j < s.len() ==> lex_lt(s[i]@, s[j]@)
}

pub open spec fn sorted_pairs(s: Seq<(String, String)>) -> bool {
    forall|i: int, j: int|
        #![trigger s[i], s[j]]
        0 <= i < j < s.len() ==> pair_lt(s[i].0@, s[i].1@, s[j].0@, s[j].1@)
}

pub open spec fn sorted_triples(s: Seq<(String, String, String)>) -> bool {
    forall|i: int, j: int|
        #![trigger s[i], s[j]]
        0 <= i < j < s.len() ==> triple_lt(s[i].0@, s[i].1@, s[i].2@, s[j].0@, s[j].1@, s[j].2@)
}

pub open spec fn has_name(s: Seq<String>, n: Seq<char>) -> bool {
    exists|i: int| 0 <= i < s.len() && (#[trigger] s[i])@ == n
}

pub open spec fn has_pair(s: Seq<(String, String)>, n: Seq<char>, v: Seq<char>) -> bool {
    exists|i: int| 0 <= i < s.len() && (#[trigger] s[i]).0@ == n && s[i].1@ == v
}

pub open spec fn has_triple(
    s: Seq<(String, String, String)>,
    n: Seq<char>,
    m: Seq<char>,
    f: Seq<char>,
) -> bool {
    exists|i: int| 0 <= i < s.len() && (#[trigger] s[i]).0@ == n && s[i].1@ == m && s[i].2@ == f
}

pub proof fn lemma_pair_lt_connected(a0: Seq<char>, a1: Seq<char>, b0: Seq<char>, b1: Seq<char>)
    ensures
        !pair_lt(a0, a1, b0, b1) && !pair_lt(b0, b1, a0, a1) ==> a0 == b0 && a1 == b1,
{
    lemma_lex_lt_connected(a0, b0);
    lemma_lex_lt_connected(a1, b1);
}

pub proof fn lemma_pair_lt_transitive(
    a0: Seq<char>,
    a1: Seq<char>,
    b0: Seq<char>,
    b1: Seq<char>,
    c0: Seq<char>,
    c1: Seq<char>,
)
    ensures
        pair_lt(a0, a1, b0, b1) && pair_lt(b0, b1, c0, c1) ==> pair_lt(a0, a1, c0, c1),
{
    lemma_lex_lt_transitive(a0, b0, c0);
    lemma_lex_lt_transitive(a1, b1, c1);
}

pub proof fn lemma_triple_lt_connected(
    a0: Seq<char>,
    a1: Seq<char>,
    a2: Seq<char>,
    b0: Seq<char>,
    b1: Seq<char>,
    b2: Seq<char>,
)
    ensures
        !triple_lt(a0, a1, a2, b0, b1, b2) && !triple_lt(b0, b1, b2, a0, a1, a2) ==> a0 == b0 && a1
            == b1 && a2 == b2,
{
    lemma_lex_lt_connected(a0, b0);
    lemma_lex_lt_connected(a1, b1);
    lemma_lex_lt_connected(a2, b2);
}

pub proof fn lemma_triple_lt_transitive(
    a0: Seq<char>,
    a1: Seq<char>,
    a2: Seq<char>,
    b0: Seq<char>,
    b1: Seq<char>,
    b2: Seq<char>,
    c0: Seq<char>,
    c1: Seq<char>,
    c2: Seq<char>,
)
    ensures
        triple_lt(a0, a1, a2, b0, b1, b2) && triple_lt(b0, b1, b2, c0, c1, c2) ==> triple_lt(
            a0,
            a1,
            a2,
            c0,
            c1,
            c2,
        ),
{
    lemma_lex_lt_transitive(a0, b0, c0);
    lemma_lex_lt_transitive(a1, b1, c1);
    lemma_lex_lt_transitive(a2, b2, c2);
}

/// Is the candidate tuple `c` strictly before the tuple `(n, a)`?
fn pair_before(c: &(String, String), n: &str, a: &str) -> (r: bool)
    ensures
        r == pair_lt(c.0@, c.1@, n@, a@),
{
    if str_lt(c.0.as_str(), n) {
        true
    } else if str_eq(c.0.as_str(), n) {
        str_lt(c.1.as_str(), a)
    } else {
        false
    }
}

/// Is the candidate tuple `c` strictly before the tuple `(n, m, f)`?
fn triple_before(c: &(String, String, String), n: &str, m: &str, f: &str) -> (r: bool)
    ensures
        r == triple_lt(c.0@, c.1@, c.2@, n@, m@, f@),
{
    if str_lt(c.0.as_str(), n) {
        true
    } else if !str_eq(c.0.as_str(), n) {
        false
    } else if str_lt(c.1.as_str(), m) {
        true
    } else if !str_eq(c.1.as_str(), m) {
        false
    } else {
        str_lt(c.2.as_str(), f)
    }
}

/// Set-insert `name` into a strictly sorted vector, keeping it strictly
/// sorted: a duplicate is dropped, anything else lands at its ordered place.
fn insert_name(v: &mut Vec<String>, name: String)
    requires
        sorted_names(old(v)@),
    ensures
        sorted_names(final(v)@),
        forall|n: Seq<char>|
            #[trigger] has_name(final(v)@, n) == (has_name(old(v)@, n) || n == name@),
{
    let mut i: usize = 0;
    while i < v.len() && str_lt(v[i].as_str(), name.as_str())
        invariant
            i <= v@.len(),
            sorted_names(v@),
            forall|j: int| 0 <= j < i ==> lex_lt((#[trigger] v@[j])@, name@),
        decreases v@.len() - i,
    {
        i += 1;
    }
    if i < v.len() && str_eq(v[i].as_str(), name.as_str()) {
        proof {
            let s = v@;
            assert(s[i as int]@ == name@);
            assert forall|n: Seq<char>| #[trigger]
                has_name(s, n) == (has_name(s, n) || n == name@) by {
                if n == name@ {
                    assert(s[i as int]@ == n);
                    assert(has_name(s, n));
                }
            }
        }
    } else {
        proof {
            if i < v@.len() {
                lemma_lex_lt_connected(name@, v@[i as int]@);
                assert(lex_lt(name@, v@[i as int]@));
            }
        }
        let ghost s_old = v@;
        let ghost pos = i as int;
        v.insert(i, name);
        proof {
            s_old.insert_ensures(pos, name);
            let s_new = v@;
            assert forall|p: int, q: int|
                #![trigger s_new[p], s_new[q]]
                0 <= p < q < s_new.len() implies lex_lt(s_new[p]@, s_new[q]@) by {
                if q < pos {
                    assert(s_new[p] == s_old[p] && s_new[q] == s_old[q]);
                } else if p < pos && q == pos {
                    assert(s_new[p] == s_old[p]);
                } else if p == pos {
                    assert(s_new[q] == s_old[q - 1]);
                    if q - 1 > pos {
                        lemma_lex_lt_transitive(name@, s_old[pos]@, s_old[q - 1]@);
                    }
                } else if p < pos && q > pos {
                    assert(s_new[p] == s_old[p] && s_new[q] == s_old[q - 1]);
                } else {
                    assert(s_new[p] == s_old[p - 1] && s_new[q] == s_old[q - 1]);
                }
            }
            assert forall|n: Seq<char>| #[trigger]
                has_name(s_new, n) == (has_name(s_old, n) || n == name@) by {
                if has_name(s_new, n) {
                    let k = choose|k: int| 0 <= k < s_new.len() && (#[trigger] s_new[k])@ == n;
                    if k < pos {
                        assert(s_old[k]@ == n);
                    } else if k == pos {
                        assert(n == name@);
                    } else {
                        assert(s_old[k - 1]@ == n);
                    }
                }
                if has_name(s_old, n) {
                    let k = choose|k: int| 0 <= k < s_old.len() && (#[trigger] s_old[k])@ == n;
                    if k < pos {
                        assert(s_new[k]@ == n);
                    } else {
                        assert(s_new[k + 1]@ == n);
                    }
                    assert(has_name(s_new, n));
                }
                if n == name@ {
                    assert(s_new[pos]@ == n);
                    assert(has_name(s_new, n));
                }
            }
        }
    }
}

/// Set-insert the tuple `(name, value)` into a strictly sorted vector.
fn insert_pair(v: &mut Vec<(String, String)>, name: String, value: String)
    requires
        sorted_pairs(old(v)@),
    ensures
        sorted_pairs(final(v)@),
        forall|n: Seq<char>, a: Seq<char>|
            #[trigger] has_pair(final(v)@, n, a) == (has_pair(old(v)@, n, a) || (n == name@ && a
                == value@)),
{
    let mut i: usize = 0;
    while i < v.len() && pair_before(&v[i], name.as_str(), value.as_str())
        invariant
            i <= v@.len(),
            sorted_pairs(v@),
            forall|j: int|
                0 <= j < i ==> pair_lt((#[trigger] v@[j]).0@, v@[j].1@, name@, value@),
        decreases v@.len() - i,
    {
        i += 1;
    }
    let duplicate = if i < v.len() {
        str_eq(v[i].0.as_str(), name.as_str()) && str_eq(v[i].1.as_str(), value.as_str())
    } else {
        false
    };
    if duplicate {
        proof {
            let s = v@;
            assert forall|n: Seq<char>, a: Seq<char>| #[trigger]
                has_pair(s, n, a) == (has_pair(s, n, a) || (n == name@ && a == value@)) by {
                if n == name@ && a == value@ {
                    assert(s[i as int].0@ == n && s[i as int].1@ == a);
                    assert(has_pair(s, n, a));
                }
            }
        }
    } else {
        proof {
            if i < v@.len() {
                lemma_pair_lt_connected(name@, value@, v@[i as int].0@, v@[i as int].1@);
                assert(pair_lt(name@, value@, v@[i as int].0@, v@[i as int].1@));
            }
        }
        let ghost s_old = v@;
        let ghost pos = i as int;
        let entry = (name, value);
        v.insert(i, entry);
        proof {
            s_old.insert_ensures(pos, entry);
            let s_new = v@;
            assert forall|p: int, q: int|
                #![trigger s_new[p], s_new[q]]
                0 <= p < q < s_new.len() implies pair_lt(
                s_new[p].0@,
                s_new[p].1@,
                s_new[q].0@,
                s_new[q].1@,
            ) by {
                if q < pos {
                    assert(s_new[p] == s_old[p] && s_new[q] == s_old[q]);
                } else if p < pos && q == pos {
                    assert(s_new[p] == s_old[p]);
                } else if p == pos {
                    assert(s_new[q] == s_old[q - 1]);
                    if q - 1 > pos {
                        lemma_pair_lt_transitive(
                            entry.0@,
                            entry.1@,
                            s_old[pos].0@,
                            s_old[pos].1@,
                            s_old[q - 1].0@,
                            s_old[q - 1].1@,
                        );
                    }
                } else if p < pos && q > pos {
                    assert(s_new[p] == s_old[p] && s_new[q] == s_old[q - 1]);
                } else {
                    assert(s_new[p] == s_old[p - 1] && s_new[q] == s_old[q - 1]);
                }
            }
            assert forall|n: Seq<char>, a: Seq<char>| #[trigger]
                has_pair(s_new, n, a) == (has_pair(s_old, n, a) || (n == entry.0@ && a
                    == entry.1@)) by {
                if has_pair(s_new, n, a) {
                    let k = choose|k: int|
                        0 <= k < s_new.len() && (#[trigger] s_new[k]).0@ == n && s_new[k].1@ == a;
                    if k < pos {
                        assert(s_old[k].0@ == n && s_old[k].1@ == a);
                    } else if k == pos {
                        assert(n == entry.0@ && a == entry.1@);
                    } else {
                        assert(s_old[k - 1].0@ == n && s_old[k - 1].1@ == a);
                    }
                }
                if has_pair(s_old, n, a) {
                    let k = choose|k: int|
                        0 <= k < s_old.len() && (#[trigger] s_old[k]).0@ == n && s_old[k].1@ == a;
                    if k < pos {
                        assert(s_new[k].0@ == n && s_new[k].1@ == a);
                    } else {
                        assert(s_new[k + 1].0@ == n && s_new[k + 1].1@ == a);
                    }
                    assert(has_pair(s_new, n, a));
                }
                if n == entry.0@ && a == entry.1@ {
                    assert(s_new[pos].0@ == n && s_new[pos].1@ == a);
                    assert(has_pair(s_new, n, a));
                }
            }
        }
    }
}

/// Set-insert the tuple `(name, module, member)` into a strictly sorted
/// vector.
fn insert_triple(v: &mut Vec<(String, String, String)>, name: String, module: String, member: String)
    requires
        sorted_triples(old(v)@),
    ensures
        sorted_triples(final(v)@),
        forall|n: Seq<char>, m: Seq<char>, f: Seq<char>|
            #[trigger] has_triple(final(v)@, n, m, f) == (has_triple(old(v)@, n, m, f) || (n
                == name@ && m == module@ && f == member@)),
{
    let mut i: usize = 0;
    while i < v.len() && triple_before(&v[i], name.as_str(), module.as_str(), member.as_str())
        invariant
            i <= v@.len(),
            sorted_triples(v@),
            forall|j: int|
                0 <= j < i ==> triple_lt(
                    (#[trigger] v@[j]).0@,
                    v@[j].1@,
                    v@[j].2@,
                    name@,
                    module@,
                    member@,
                ),
        decreases v@.len() - i,
    {
        i += 1;
    }
    let duplicate = if i < v.len() {
        str_eq(v[i].0.as_str(), name.as_str()) && str_eq(v[i].1.as_str(), module.as_str())
            && str_eq(v[i].2.as_str(), member.as_str())
    } else {
        false
    };
    if duplicate {
        proof {
            let s = v@;
            assert forall|n: Seq<char>, m: Seq<char>, f: Seq<char>| #[trigger]
                has_triple(s, n, m, f) == (has_triple(s, n, m, f) || (n == name@ && m == module@
                    && f == member@)) by {
                if n == name@ && m == module@ && f == member@ {
                    assert(s[i as int].0@ == n && s[i as int].1@ == m && s[i as int].2@ == f);
                    assert(has_triple(s, n, m, f));
                }
            }
        }
    } else {
        proof {
            if i < v@.len() {
                lemma_triple_lt_connected(
                    name@,
                    module@,
                    member@,
                    v@[i as int].0@,
                    v@[i as int].1@,
                    v@[i as int].2@,
                );
                assert(triple_lt(
                    name@,
                    module@,
                    member@,
                    v@[i as int].0@,
                    v@[i as int].1@,
                    v@[i as int].2@,
                ));
            }
        }
        let ghost s_old = v@;
        let ghost pos = i as int;
        let entry = (name, module, member);
        v.insert(i, entry);
        proof {
            s_old.insert_ensures(pos, entry);
            let s_new = v@;
            assert forall|p: int, q: int|
                #![trigger s_new[p], s_new[q]]
                0 <= p < q < s_new.len() implies triple_lt(
                s_new[p].0@,
                s_new[p].1@,
                s_new[p].2@,
                s_new[q].0@,
                s_new[q].1@,
                s_new[q].2@,
            ) by {
                if q < pos {
                    assert(s_new[p] == s_old[p] && s_new[q] == s_old[q]);
                } else if p < pos && q == pos {
                    assert(s_new[p] == s_old[p]);
                } else if p == pos {
                    assert(s_new[q] == s_old[q - 1]);
                    if q - 1 > pos {
                        lemma_triple_lt_transitive(
                            entry.0@,
                            entry.1@,
                            entry.2@,
                            s_old[pos].0@,
                            s_old[pos].1@,
                            s_old[pos].2@,
                            s_old[q - 1].0@,
                            s_old[q - 1].1@,
                            s_old[q - 1].2@,
                        );
                    }
                } else if p < pos && q > pos {
                    assert(s_new[p] == s_old[p] && s_new[q] == s_old[q - 1]);
                } else {
                    assert(s_new[p] == s_old[p - 1] && s_new[q] == s_old[q - 1]);
                }
            }
            assert forall|n: Seq<char>, m: Seq<char>, f: Seq<char>| #[trigger]
                has_triple(s_new, n, m, f) == (has_triple(s_old, n, m, f) || (n == entry.0@ && m
                    == entry.1@ && f == entry.2@)) by {
                if has_triple(s_new, n, m, f) {
                    let k = choose|k: int|
                        0 <= k < s_new.len() && (#[trigger] s_new[k]).0@ == n && s_new[k].1@ == m
                            && s_new[k].2@ == f;
                    if k < pos {
                        assert(s_old[k].0@ == n && s_old[k].1@ == m && s_old[k].2@ == f);
                    } else if k == pos {
                        assert(n == entry.0@ && m == entry.1@ && f == entry.2@);
                    } else {
                        assert(s_old[k - 1].0@ == n && s_old[k - 1].1@ == m && s_old[k - 1].2@
                            == f);
                    }
                }
                if has_triple(s_old, n, m, f) {
                    let k = choose|k: int|
                        0 <= k < s_old.len() && (#[trigger] s_old[k]).0@ == n && s_old[k].1@ == m
                            && s_old[k].2@ == f;
                    if k < pos {
                        assert(s_new[k].0@ == n && s_new[k].1@ == m && s_new[k].2@ == f);
                    } else {
                        assert(s_new[k + 1].0@ == n && s_new[k + 1].1@ == m && s_new[k + 1].2@
                            == f);
                    }
                    assert(has_triple(s_new, n, m, f));
                }
                if n == entry.0@ && m == entry.1@ && f == entry.2@ {
                    assert(s_new[pos].0@ == n && s_new[pos].1@ == m && s_new[pos].2@ == f);
                    assert(has_triple(s_new, n, m, f));
                }
            }
        }
    }
}

/// Four candidate sets, one per alias kind. Each is kept strictly sorted, so
/// iteration for rendering follows a total, stable order independent of the
/// order in which the source table was walked.
#[derive(Debug, Clone)]
pub struct AliasAutocompleteInfo {
    /// Numeric-address aliases: (alias name, address text).
    pub addresses: Vec<(String, String)>,
    /// Module aliases: (alias name, module identifier).
    pub modules: Vec<(String, String)>,
    /// Member aliases: (alias name, owning module, member name).
    pub members: Vec<(String, String, String)>,
    /// Type-parameter aliases: name only.
    pub type_params: Vec<String>,
}

/// Does `e` record alias `n` for the address `a`?
pub open spec fn is_address_entry(e: (String, LeadingAccessEntry), n: Seq<char>, a: Seq<char>) -> bool {
    e.0@ == n && (e.1 matches LeadingAccessEntry::Address(x) && x@ == a)
}

/// Does `e` record alias `n` for the module `m`?
pub open spec fn is_module_entry(e: (String, LeadingAccessEntry), n: Seq<char>, m: Seq<char>) -> bool {
    e.0@ == n && (e.1 matches LeadingAccessEntry::Module(x) && x@ == m)
}

/// Does `e` record alias `n` for member `f` of module `m`?
pub open spec fn is_member_entry(
    e: (String, LeadingAccessEntry),
    n: Seq<char>,
    m: Seq<char>,
    f: Seq<char>,
) -> bool {
    e.0@ == n && (e.1 matches LeadingAccessEntry::Member(x, y) && x@ == m && y@ == f)
}

/// Does `e` record alias `n` for a type parameter?
pub open spec fn is_type_param_entry(e: (String, LeadingAccessEntry), n: Seq<char>) -> bool {
    e.0@ == n && e.1 is TypeParam
}

pub open spec fn table_has_address(
    t: Seq<(String, LeadingAccessEntry)>,
    n: Seq<char>,
    a: Seq<char>,
) -> bool {
    exists|k: int| 0 <= k < t.len() && is_address_entry(#[trigger] t[k], n, a)
}

pub open spec fn table_has_module(
    t: Seq<(String, LeadingAccessEntry)>,
    n: Seq<char>,
    m: Seq<char>,
) -> bool {
    exists|k: int| 0 <= k < t.len() && is_module_entry(#[trigger] t[k], n, m)
}

pub open spec fn table_has_member(
    t: Seq<(String, LeadingAccessEntry)>,
    n: Seq<char>,
    m: Seq<char>,
    f: Seq<char>,
) -> bool {
    exists|k: int| 0 <= k < t.len() && is_member_entry(#[trigger] t[k], n, m, f)
}

pub open spec fn table_has_type_param(t: Seq<(String, LeadingAccessEntry)>, n: Seq<char>) -> bool {
    exists|k: int| 0 <= k < t.len() && is_type_param_entry(#[trigger] t[k], n)
}

/// Does `e` record alias `n` for member `f` of module `m` in a member-only
/// table?
pub open spec fn is_member_only_entry(
    e: (String, MemberEntry),
    n: Seq<char>,
    m: Seq<char>,
    f: Seq<char>,
) -> bool {
    e.0@ == n && (e.1 matches MemberEntry::Member(x, y) && x@ == m && y@ == f)
}

/// Does `e` record alias `n` for a type parameter in a member-only table?
pub open spec fn is_member_only_type_param(e: (String, MemberEntry), n: Seq<char>) -> bool {
    e.0@ == n && e.1 is TypeParam
}

pub open spec fn member_table_has_member(
    t: Seq<(String, MemberEntry)>,
    n: Seq<char>,
    m: Seq<char>,
    f: Seq<char>,
) -> bool {
    exists|k: int| 0 <= k < t.len() && is_member_only_entry(#[trigger] t[k], n, m, f)
}

pub open spec fn member_table_has_type_param(t: Seq<(String, MemberEntry)>, n: Seq<char>) -> bool {
    exists|k: int| 0 <= k < t.len() && is_member_only_type_param(#[trigger] t[k], n)
}

/// The projection relation between a leading-access table and a snapshot:
/// category by category, a candidate is in the snapshot exactly when some
/// table row records it, so no row is dropped and none lands anywhere but
/// under its own tag.
pub open spec fn leading_projection(
    info: AliasAutocompleteInfo,
    t: Seq<(String, LeadingAccessEntry)>,
) -> bool {
    &&& forall|n: Seq<char>, a: Seq<char>|
        #[trigger] has_pair(info.addresses@, n, a) == table_has_address(t, n, a)
    &&& forall|n: Seq<char>, m: Seq<char>|
        #[trigger] has_pair(info.modules@, n, m) == table_has_module(t, n, m)
    &&& forall|n: Seq<char>, m: Seq<char>, f: Seq<char>|
        #[trigger] has_triple(info.members@, n, m, f) == table_has_member(t, n, m, f)
    &&& forall|n: Seq<char>|
        #[trigger] has_name(info.type_params@, n) == table_has_type_param(t, n)
}

/// The projection relation for a member-only table; the address and module
/// sets stay empty.
pub open spec fn member_projection(info: AliasAutocompleteInfo, t: Seq<(String, MemberEntry)>) -> bool {
    &&& info.addresses@.len() == 0
    &&& info.modules@.len() == 0
    &&& forall|n: Seq<char>, m: Seq<char>, f: Seq<char>|
        #[trigger] has_triple(info.members@, n, m, f) == member_table_has_member(t, n, m, f)
    &&& forall|n: Seq<char>|
        #[trigger] has_name(info.type_params@, n) == member_table_has_type_param(t, n)
}

impl AliasAutocompleteInfo {
    /// Every candidate set strictly sorted: the deterministic-rendering
    /// invariant of a snapshot.
    pub open spec fn well_formed(self) -> bool {
        &&& sorted_pairs(self.addresses@)
        &&& sorted_pairs(self.modules@)
        &&& sorted_triples(self.members@)
        &&& sorted_names(self.type_params@)
    }

    /// An empty snapshot.
    pub fn new() -> (r: AliasAutocompleteInfo)
        ensures
            r.well_formed(),
            r.addresses@.len() == 0,
            r.modules@.len() == 0,
            r.members@.len() == 0,
            r.type_params@.len() == 0,
    {
        AliasAutocompleteInfo {
            addresses: Vec::new(),
            modules: Vec::new(),
            members: Vec::new(),
            type_params: Vec::new(),
        }
    }

    /// Project a leading-access alias table (a sequence of name/entry rows,
    /// in any order) into a snapshot: one pass, each row classified by its
    /// tag into the matching candidate set, no row dropped.
    pub fn from_leading_access(names: &Vec<(String, LeadingAccessEntry)>) -> (r:
        AliasAutocompleteInfo)
        ensures
            r.well_formed(),
            leading_projection(r, names@),
    {
        let mut r = AliasAutocompleteInfo::new();
        proof {
            assert(names@.take(0) =~= Seq::<(String, LeadingAccessEntry)>::empty());
        }
        let mut i: usize = 0;
        while i < names.len()
            invariant
                i <= names@.len(),
                r.well_formed(),
                forall|n: Seq<char>, a: Seq<char>|
                    #[trigger] has_pair(r.addresses@, n, a) == table_has_address(
                        names@.take(i as int),
                        n,
                        a,
                    ),
                forall|n: Seq<char>, m: Seq<char>|
                    #[trigger] has_pair(r.modules@, n, m) == table_has_module(
                        names@.take(i as int),
                        n,
                        m,
                    ),
                forall|n: Seq<char>, m: Seq<char>, f: Seq<char>|
                    #[trigger] has_triple(r.members@, n, m, f) == table_has_member(
                        names@.take(i as int),
                        n,
                        m,
                        f,
                    ),
                forall|n: Seq<char>|
                    #[trigger] has_name(r.type_params@, n) == table_has_type_param(
                        names@.take(i as int),
                        n,
                    ),
            decreases names@.len() - i,
        {
            let ghost t_prev = names@.take(i as int);
            let ghost row = names@[i as int];
            let entry = &names[i];
            match &entry.1 {
                LeadingAccessEntry::Address(addr) => {
                    insert_pair(&mut r.addresses, entry.0.clone(), addr.clone());
                },
                LeadingAccessEntry::Module(mident) => {
                    insert_pair(&mut r.modules, entry.0.clone(), mident.clone());
                },
                LeadingAccessEntry::Member(mident, mem) => {
                    insert_triple(&mut r.members, entry.0.clone(), mident.clone(), mem.clone());
                },
                LeadingAccessEntry::TypeParam => {
                    insert_name(&mut r.type_params, entry.0.clone());
                },
            }
            proof {
                lemma_leading_table_push(t_prev, row);
                assert(t_prev.push(row) =~= names@.take(i + 1));
            }
            i += 1;
        }
        proof {
            assert(names@.take(names@.len() as int) =~= names@);
        }
        r
    }

    /// Project a member-only alias table into a snapshot: the address and
    /// module sets of such a table are always empty.
    pub fn from_members(names: &Vec<(String, MemberEntry)>) -> (r: AliasAutocompleteInfo)
        ensures
            r.well_formed(),
            member_projection(r, names@),
    {
        let mut r = AliasAutocompleteInfo::new();
        proof {
            assert(names@.take(0) =~= Seq::<(String, MemberEntry)>::empty());
        }
        let mut i: usize = 0;
        while i < names.len()
            invariant
                i <= names@.len(),
                r.well_formed(),
                r.addresses@.len() == 0,
                r.modules@.len() == 0,
                forall|n: Seq<char>, m: Seq<char>, f: Seq<char>|
                    #[trigger] has_triple(r.members@, n, m, f) == member_table_has_member(
                        names@.take(i as int),
                        n,
                        m,
                        f,
                    ),
                forall|n: Seq<char>|
                    #[trigger] has_name(r.type_params@, n) == member_table_has_type_param(
                        names@.take(i as int),
                        n,
                    ),
            decreases names@.len() - i,
        {
            let ghost t_prev = names@.take(i as int);
            let ghost row = names@[i as int];
            let entry = &names[i];
            match &entry.1 {
                MemberEntry::Member(mident, mem) => {
                    insert_triple(&mut r.members, entry.0.clone(), mident.clone(), mem.clone());
                },
                MemberEntry::TypeParam => {
                    insert_name(&mut r.type_params, entry.0.clone());
                },
            }
            proof {
                lemma_member_table_push(t_prev, row);
                assert(t_prev.push(row) =~= names@.take(i + 1));
            }
            i += 1;
        }
        proof {
            assert(names@.take(names@.len() as int) =~= names@);
        }
        r
    }
}

/// Appending one row to a leading-access table extends each category's
/// membership by exactly that row's classification.
proof fn lemma_leading_table_push(t: Seq<(String, LeadingAccessEntry)>, e: (String, LeadingAccessEntry))
    ensures
        forall|n: Seq<char>, a: Seq<char>|
            #[trigger] table_has_address(t.push(e), n, a) == (table_has_address(t, n, a)
                || is_address_entry(e, n, a)),
        forall|n: Seq<char>, m: Seq<char>|
            #[trigger] table_has_module(t.push(e), n, m) == (table_has_module(t, n, m)
                || is_module_entry(e, n, m)),
        forall|n: Seq<char>, m: Seq<char>, f: Seq<char>|
            #[trigger] table_has_member(t.push(e), n, m, f) == (table_has_member(t, n, m, f)
                || is_member_entry(e, n, m, f)),
        forall|n: Seq<char>|
            #[trigger] table_has_type_param(t.push(e), n) == (table_has_type_param(t, n)
                || is_type_param_entry(e, n)),
{
    let tp = t.push(e);
    assert(tp.len() == t.len() + 1);
    assert(tp[t.len() as int] == e);
    assert(forall|k: int| 0 <= k < t.len() ==> tp[k] == t[k]);
    assert forall|n: Seq<char>, a: Seq<char>|
        #[trigger] table_has_address(tp, n, a) == (table_has_address(t, n, a) || is_address_entry(
        e,
        n,
        a,
    )) by {
        if table_has_address(tp, n, a) {
            let k = choose|k: int| 0 <= k < tp.len() && is_address_entry(#[trigger] tp[k], n, a);
            if k < t.len() {
                assert(is_address_entry(t[k], n, a));
            }
        }
        if table_has_address(t, n, a) {
            let k = choose|k: int| 0 <= k < t.len() && is_address_entry(#[trigger] t[k], n, a);
            assert(is_address_entry(tp[k], n, a));
        }
        if is_address_entry(e, n, a) {
            assert(is_address_entry(tp[t.len() as int], n, a));
        }
    }
    assert forall|n: Seq<char>, m: Seq<char>|
        #[trigger] table_has_module(tp, n, m) == (table_has_module(t, n, m) || is_module_entry(
        e,
        n,
        m,
    )) by {
        if table_has_module(tp, n, m) {
            let k = choose|k: int| 0 <= k < tp.len() && is_module_entry(#[trigger] tp[k], n, m);
            if k < t.len() {
                assert(is_module_entry(t[k], n, m));
            }
        }
        if table_has_module(t, n, m) {
            let k = choose|k: int| 0 <= k < t.len() && is_module_entry(#[trigger] t[k], n, m);
            assert(is_module_entry(tp[k], n, m));
        }
        if is_module_entry(e, n, m) {
            assert(is_module_entry(tp[t.len() as int], n, m));
        }
    }
    assert forall|n: Seq<char>, m: Seq<char>, f: Seq<char>|
        #[trigger] table_has_member(tp, n, m, f) == (table_has_member(t, n, m, f)
            || is_member_entry(e, n, m, f)) by {
        if table_has_member(tp, n, m, f) {
            let k = choose|k: int| 0 <= k < tp.len() && is_member_entry(#[trigger] tp[k], n, m, f);
            if k < t.len() {
                assert(is_member_entry(t[k], n, m, f));
            }
        }
        if table_has_member(t, n, m, f) {
            let k = choose|k: int| 0 <= k < t.len() && is_member_entry(#[trigger] t[k], n, m, f);
            assert(is_member_entry(tp[k], n, m, f));
        }
        if is_member_entry(e, n, m, f) {
            assert(is_member_entry(tp[t.len() as int], n, m, f));
        }
    }
    assert forall|n: Seq<char>|
        #[trigger] table_has_type_param(tp, n) == (table_has_type_param(t, n)
            || is_type_param_entry(e, n)) by {
        if table_has_type_param(tp, n) {
            let k = choose|k: int| 0 <= k < tp.len() && is_type_param_entry(#[trigger] tp[k], n);
            if k < t.len() {
                assert(is_type_param_entry(t[k], n));
            }
        }
        if table_has_type_param(t, n) {
            let k = choose|k: int| 0 <= k < t.len() && is_type_param_entry(#[trigger] t[k], n);
            assert(is_type_param_entry(tp[k], n));
        }
        if is_type_param_entry(e, n) {
            assert(is_type_param_entry(tp[t.len() as int], n));
        }
    }
}

/// The member-only counterpart of `lemma_leading_table_push`.
proof fn lemma_member_table_push(t: Seq<(String, MemberEntry)>, e: (String, MemberEntry))
    ensures
        forall|n: Seq<char>, m: Seq<char>, f: Seq<char>|
            #[trigger] member_table_has_member(t.push(e), n, m, f) == (member_table_has_member(
                t,
                n,
                m,
                f,
            ) || is_member_only_entry(e, n, m, f)),
        forall|n: Seq<char>|
            #[trigger] member_table_has_type_param(t.push(e), n) == (member_table_has_type_param(
                t,
                n,
            ) || is_member_only_type_param(e, n)),
{
    let tp = t.push(e);
    assert(tp.len() == t.len() + 1);
    assert(tp[t.len() as int] == e);
    assert(forall|k: int| 0 <= k < t.len() ==> tp[k] == t[k]);
    assert forall|n: Seq<char>, m: Seq<char>, f: Seq<char>|
        #[trigger] member_table_has_member(tp, n, m, f) == (member_table_has_member(t, n, m, f)
            || is_member_only_entry(e, n, m, f)) by {
        if member_table_has_member(tp, n, m, f) {
            let k = choose|k: int|
                0 <= k < tp.len() && is_member_only_entry(#[trigger] tp[k], n, m, f);
            if k < t.len() {
                assert(is_member_only_entry(t[k], n, m, f));
            }
        }
        if member_table_has_member(t, n, m, f) {
            let k = choose|k: int|
                0 <= k < t.len() && is_member_only_entry(#[trigger] t[k], n, m, f);
            assert(is_member_only_entry(tp[k], n, m, f));
        }
        if is_member_only_entry(e, n, m, f) {
            assert(is_member_only_entry(tp[t.len() as int], n, m, f));
        }
    }
    assert forall|n: Seq<char>|
        #[trigger] member_table_has_type_param(tp, n) == (member_table_has_type_param(t, n)
            || is_member_only_type_param(e, n)) by {
        if member_table_has_type_param(tp, n) {
            let k = choose|k: int|
                0 <= k < tp.len() && is_member_only_type_param(#[trigger] tp[k], n);
            if k < t.len() {
                assert(is_member_only_type_param(t[k], n));
            }
        }
        if member_table_has_type_param(t, n) {
            let k = choose|k: int| 0 <= k < t.len() && is_member_only_type_param(#[trigger] t[k], n);
            assert(is_member_only_type_param(tp[k], n));
        }
        if is_member_only_type_param(e, n) {
            assert(is_member_only_type_param(tp[t.len() as int], n));
        }
    }
}


/// Alias projection completeness: under the projection relation, every row
/// of the table appears in the candidate set matching its tag. Together with
/// the relation itself (a category holds a candidate only when a row of that
/// tag records it) this places each row in exactly one category.
pub proof fn lemma_projection_complete(
    info: AliasAutocompleteInfo,
    t: Seq<(String, LeadingAccessEntry)>,
    k: int,
)
    requires
        leading_projection(info, t),
        0 <= k < t.len(),
    ensures
        t[k].1 matches LeadingAccessEntry::Address(a) ==> has_pair(info.addresses@, t[k].0@, a@),
        t[k].1 matches LeadingAccessEntry::Module(m) ==> has_pair(info.modules@, t[k].0@, m@),
        t[k].1 matches LeadingAccessEntry::Member(m, f) ==> has_triple(
            info.members@,
            t[k].0@,
            m@,
            f@,
        ),
        t[k].1 is TypeParam ==> has_name(info.type_params@, t[k].0@),
{
    match t[k].1 {
        LeadingAccessEntry::Address(a) => {
            assert(is_address_entry(t[k], t[k].0@, a@));
            assert(table_has_address(t, t[k].0@, a@));
        },
        LeadingAccessEntry::Module(m) => {
            assert(is_module_entry(t[k], t[k].0@, m@));
            assert(table_has_module(t, t[k].0@, m@));
        },
        LeadingAccessEntry::Member(m, f) => {
            assert(is_member_entry(t[k], t[k].0@, m@, f@));
            assert(table_has_member(t, t[k].0@, m@, f@));
        },
        LeadingAccessEntry::TypeParam => {
            assert(is_type_param_entry(t[k], t[k].0@));
            assert(table_has_type_param(t, t[k].0@));
        },
    }
}

/// The member-only counterpart of `lemma_projection_complete`.
pub proof fn lemma_member_projection_complete(
    info: AliasAutocompleteInfo,
    t: Seq<(String, MemberEntry)>,
    k: int,
)
    requires
        member_projection(info, t),
        0 <= k < t.len(),
    ensures
        t[k].1 matches MemberEntry::Member(m, f) ==> has_triple(info.members@, t[k].0@, m@, f@),
        t[k].1 is TypeParam ==> has_name(info.type_params@, t[k].0@),
{
    match t[k].1 {
        MemberEntry::Member(m, f) => {
            assert(is_member_only_entry(t[k], t[k].0@, m@, f@));
            assert(member_table_has_member(t, t[k].0@, m@, f@));
        },
        MemberEntry::TypeParam => {
            assert(is_member_only_type_param(t[k], t[k].0@));
            assert(member_table_has_type_param(t, t[k].0@));
        },
    }
}

/// No duplication within a category: a well-formed snapshot holds each
/// candidate tuple at most once.
pub proof fn lemma_no_duplicates(info: AliasAutocompleteInfo)
    requires
        info.well_formed(),
    ensures
        forall|i: int, j: int|
            #![trigger info.addresses@[i], info.addresses@[j]]
            0 <= i < j < info.addresses@.len() ==> !(info.addresses@[i].0@ == info.addresses@[j].0@
                && info.addresses@[i].1@ == info.addresses@[j].1@),
        forall|i: int, j: int|
            #![trigger info.modules@[i], info.modules@[j]]
            0 <= i < j < info.modules@.len() ==> !(info.modules@[i].0@ == info.modules@[j].0@
                && info.modules@[i].1@ == info.modules@[j].1@),
        forall|i: int, j: int|
            #![trigger info.members@[i], info.members@[j]]
            0 <= i < j < info.members@.len() ==> !(info.members@[i].0@ == info.members@[j].0@
                && info.members@[i].1@ == info.members@[j].1@ && info.members@[i].2@
                == info.members@[j].2@),
        forall|i: int, j: int|
            #![trigger info.type_params@[i], info.type_params@[j]]
            0 <= i < j < info.type_params@.len() ==> info.type_params@[i]@
                != info.type_params@[j]@,
{
    assert forall|i: int, j: int|
        #![trigger info.addresses@[i], info.addresses@[j]]
        0 <= i < j < info.addresses@.len() implies !(info.addresses@[i].0@
        == info.addresses@[j].0@ && info.addresses@[i].1@ == info.addresses@[j].1@) by {
        crate::text::lemma_lex_lt_irreflexive(info.addresses@[i].0@);
        crate::text::lemma_lex_lt_irreflexive(info.addresses@[i].1@);
    }
    assert forall|i: int, j: int|
        #![trigger info.modules@[i], info.modules@[j]]
        0 <= i < j < info.modules@.len() implies !(info.modules@[i].0@ == info.modules@[j].0@
        && info.modules@[i].1@ == info.modules@[j].1@) by {
        crate::text::lemma_lex_lt_irreflexive(info.modules@[i].0@);
        crate::text::lemma_lex_lt_irreflexive(info.modules@[i].1@);
    }
    assert forall|i: int, j: int|
        #![trigger info.members@[i], info.members@[j]]
        0 <= i < j < info.members@.len() implies !(info.members@[i].0@ == info.members@[j].0@
        && info.members@[i].1@ == info.members@[j].1@ && info.members@[i].2@
        == info.members@[j].2@) by {
        crate::text::lemma_lex_lt_irreflexive(info.members@[i].0@);
        crate::text::lemma_lex_lt_irreflexive(info.members@[i].1@);
        crate::text::lemma_lex_lt_irreflexive(info.members@[i].2@);
    }
    assert forall|i: int, j: int|
        #![trigger info.type_params@[i], info.type_params@[j]]
        0 <= i < j < info.type_params@.len() implies info.type_params@[i]@
        != info.type_params@[j]@ by {
        crate::text::lemma_lex_lt_irreflexive(info.type_params@[i]@);
    }
}

} // verus!
