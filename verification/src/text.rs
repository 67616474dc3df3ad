//! Deterministic text building: separator joins, Oxford-comma candidate
//! lists, and a lexicographic order on strings used to keep rendered sets in
//! a stable order.

use vstd::prelude::*;
use vstd::string::StrSliceExecFns;
use vstd::string::StringExecFns;

verus! {

/// Lexicographic "strictly less" over character sequences, comparing code
/// points position by position; a proper prefix sorts before its extensions.
pub open spec fn lex_lt(a: Seq<char>, b: Seq<char>) -> bool
    decreases a.len(),
{
    if b.len() == 0 {
        false
    } else if a.len() == 0 {
        true
    } else if a[0] != b[0] {
        (a[0] as u32) < (b[0] as u32)
    } else {
        lex_lt(a.drop_first(), b.drop_first())
    }
}

pub proof fn lemma_lex_lt_irreflexive(a: Seq<char>)
    ensures
        !lex_lt(a, a),
    decreases a.len(),
{
    if a.len() > 0 {
        lemma_lex_lt_irreflexive(a.drop_first());
    }
}

/// Two sequences with neither below the other are equal: the order is total.
pub proof fn lemma_lex_lt_connected(a: Seq<char>, b: Seq<char>)
    ensures
        !lex_lt(a, b) && !lex_lt(b, a) ==> a == b,
    decreases a.len(),
{
    if a.len() == 0 && b.len() == 0 {
        assert(a =~= b);
    } else if a.len() > 0 && b.len() > 0 {
        if a[0] == b[0] {
            lemma_lex_lt_connected(a.drop_first(), b.drop_first());
            if !lex_lt(a, b) && !lex_lt(b, a) {
                assert(a =~= seq![a[0]] + a.drop_first());
                assert(b =~= seq![b[0]] + b.drop_first());
            }
        } else if (a[0] as u32) == (b[0] as u32) {
            // A `char` is pinned down by its code point.
            vstd::utf8::char_u32_cast(a[0], a[0] as u32);
            vstd::utf8::char_u32_cast(b[0], b[0] as u32);
        }
    }
}

pub proof fn lemma_lex_lt_transitive(a: Seq<char>, b: Seq<char>, c: Seq<char>)
    ensures
        lex_lt(a, b) && lex_lt(b, c) ==> lex_lt(a, c),
    decreases a.len(),
{
    if lex_lt(a, b) && lex_lt(b, c) {
        if a.len() > 0 {
            if a[0] == b[0] && b[0] == c[0] {
                lemma_lex_lt_transitive(a.drop_first(), b.drop_first(), c.drop_first());
            }
        }
    }
}

/// Is `a` strictly below `b` in the lexicographic order?
pub fn str_lt(a: &str, b: &str) -> (r: bool)
    ensures
        r == lex_lt(a@, b@),
{
    let alen = a.unicode_len();
    let blen = b.unicode_len();
    let mut i: usize = 0;
    proof {
        assert(a@.skip(0) =~= a@);
        assert(b@.skip(0) =~= b@);
    }
    loop
        invariant
            i <= alen,
            i <= blen,
            alen == a@.len(),
            blen == b@.len(),
            lex_lt(a@, b@) == lex_lt(a@.skip(i as int), b@.skip(i as int)),
        decreases alen - i,
    {
        if i >= blen {
            assert(b@.skip(i as int).len() == 0);
            return false;
        }
        if i >= alen {
            assert(a@.skip(i as int).len() == 0);
            return true;
        }
        let ca = a.get_char(i);
        let cb = b.get_char(i);
        assert(a@.skip(i as int)[0] == a@[i as int]);
        assert(b@.skip(i as int)[0] == b@[i as int]);
        if ca != cb {
            return (ca as u32) < (cb as u32);
        }
        proof {
            assert(a@.skip(i as int).drop_first() =~= a@.skip(i + 1));
            assert(b@.skip(i as int).drop_first() =~= b@.skip(i + 1));
        }
        i += 1;
    }
}

/// Do `a` and `b` hold the same characters?
pub fn str_eq(a: &str, b: &str) -> (r: bool)
    ensures
        r == (a@ == b@),
{
    let ab = str_lt(a, b);
    let ba = str_lt(b, a);
    proof {
        lemma_lex_lt_connected(a@, b@);
        lemma_lex_lt_irreflexive(a@);
    }
    !ab && !ba
}

/// The separator-join of a sequence of pieces: empty for no pieces, the piece
/// itself for one, and the pieces with `sep` between neighbours otherwise.
pub open spec fn join_seqs(items: Seq<Seq<char>>, sep: Seq<char>) -> Seq<char>
    decreases items.len(),
{
    if items.len() == 0 {
        Seq::empty()
    } else if items.len() == 1 {
        items[0]
    } else {
        items[0] + sep + join_seqs(items.drop_first(), sep)
    }
}

pub proof fn lemma_join_push(items: Seq<Seq<char>>, x: Seq<char>, sep: Seq<char>)
    ensures
        join_seqs(items.push(x), sep) == if items.len() == 0 {
            x
        } else {
            (join_seqs(items, sep) + sep + x)
        },
    decreases items.len(),
{
    if items.len() == 0 {
        assert(items.push(x).len() == 1);
        assert(join_seqs(items.push(x), sep) == items.push(x)[0]);
    } else {
        assert(items.push(x).drop_first() =~= items.drop_first().push(x));
        lemma_join_push(items.drop_first(), x, sep);
        if items.len() == 1 {
            assert(join_seqs(items, sep) == items[0]);
        } else {
            assert(join_seqs(items, sep) == items[0] + sep + join_seqs(items.drop_first(), sep));
        }
    }
}

/// One item of a candidate list, wrapped in single quotes.
pub open spec fn quoted(s: Seq<char>) -> Seq<char> {
    "'"@ + s + "'"@
}

pub open spec fn quote_all(items: Seq<Seq<char>>) -> Seq<Seq<char>> {
    items.map_values(|s: Seq<char>| quoted(s))
}

/// Oxford-comma join: no conjunction for a single item, `a <conj> b` for two,
/// and commas with `, <conj> ` before the last item for three or more.
pub open spec fn oxford_join(items: Seq<Seq<char>>, conj: Seq<char>) -> Seq<char> {
    if items.len() == 0 {
        Seq::empty()
    } else if items.len() == 1 {
        items[0]
    } else if items.len() == 2 {
        items[0] + " "@ + conj + " "@ + items[1]
    } else {
        join_seqs(items.take(items.len() - 1), ", "@) + ", "@ + conj + " "@ + items.last()
    }
}

/// Join the strings of `items` with `sep` between neighbours.
pub fn join_strings(items: &Vec<String>, sep: &str) -> (r: String)
    ensures
        r@ == join_seqs(items.deep_view(), sep@),
{
    let n = items.len();
    if n == 0 {
        return String::new();
    }
    let mut r = items[0].clone();
    assert(r@ == join_seqs(items.deep_view().take(1), sep@));
    let mut i: usize = 1;
    while i < n
        invariant
            1 <= i <= n,
            n == items@.len(),
            r@ == join_seqs(items.deep_view().take(i as int), sep@),
        decreases n - i,
    {
        r.append(sep);
        r.append(items[i].as_str());
        proof {
            let dv = items.deep_view();
            lemma_join_push(dv.take(i as int), dv[i as int], sep@);
            assert(dv.take(i as int).push(dv[i as int]) =~= dv.take(i + 1));
        }
        i += 1;
    }
    proof {
        assert(items.deep_view().take(n as int) =~= items.deep_view());
    }
    r
}

/// Wrap each string in single quotes.
pub fn quote_strings(items: &Vec<String>) -> (r: Vec<String>)
    ensures
        r.deep_view() == quote_all(items.deep_view()),
{
    let n = items.len();
    let mut r: Vec<String> = Vec::new();
    let mut i: usize = 0;
    while i < n
        invariant
            0 <= i <= n,
            n == items@.len(),
            r.deep_view() == quote_all(items.deep_view()).take(i as int),
        decreases n - i,
    {
        let mut q = String::from_str("'");
        q.append(items[i].as_str());
        q.append("'");
        r.push(q);
        proof {
            let qa = quote_all(items.deep_view());
            assert(r.deep_view() =~= qa.take(i as int).push(q@));
            assert(qa.take(i as int).push(qa[i as int]) =~= qa.take(i + 1));
        }
        i += 1;
    }
    proof {
        assert(quote_all(items.deep_view()).take(n as int) =~= quote_all(items.deep_view()));
    }
    r
}

/// Render `items` as an Oxford-comma list with conjunction `conj`.
pub fn oxford_list(items: &Vec<String>, conj: &str) -> (r: String)
    ensures
        r@ == oxford_join(items.deep_view(), conj@),
{
    let n = items.len();
    if n == 0 {
        String::new()
    } else if n == 1 {
        items[0].clone()
    } else if n == 2 {
        let mut r = items[0].clone();
        r.append(" ");
        r.append(conj);
        r.append(" ");
        r.append(items[1].as_str());
        r
    } else {
        let mut r = items[0].clone();
        assert(r@ == join_seqs(items.deep_view().take(1), ", "@));
        let mut i: usize = 1;
        while i < n - 1
            invariant
                1 <= i <= n - 1,
                n == items@.len(),
                3 <= n,
                r@ == join_seqs(items.deep_view().take(i as int), ", "@),
            decreases n - 1 - i,
        {
            r.append(", ");
            r.append(items[i].as_str());
            proof {
                let dv = items.deep_view();
                lemma_join_push(dv.take(i as int), dv[i as int], ", "@);
                assert(dv.take(i as int).push(dv[i as int]) =~= dv.take(i + 1));
            }
            i += 1;
        }
        r.append(", ");
        r.append(conj);
        r.append(" ");
        r.append(items[n - 1].as_str());
        proof {
            let dv = items.deep_view();
            assert(dv.take(n - 1 as int) == dv.take(dv.len() - 1));
            assert(dv[n - 1 as int] == dv.last());
        }
        r
    }
}

/// Render `items` as a quoted Oxford-comma list, the shape every candidate
/// list takes in a diagnostic message.
pub fn oxford_list_quoted(items: &Vec<String>, conj: &str) -> (r: String)
    ensures
        r@ == oxford_join(quote_all(items.deep_view()), conj@),
{
    let q = quote_strings(items);
    oxford_list(&q, conj)
}


/// The three shapes of an Oxford-comma list: a single item stands alone with
/// no conjunction, two items take only the conjunction between them, and
/// three or more are comma-joined with a comma before the final conjunction.
pub proof fn lemma_oxford_shapes(items: Seq<Seq<char>>, conj: Seq<char>)
    ensures
        items.len() == 1 ==> oxford_join(items, conj) == items[0],
        items.len() == 2 ==> oxford_join(items, conj) == items[0] + " "@ + conj + " "@ + items[1],
        items.len() >= 3 ==> oxford_join(items, conj) == join_seqs(
            items.take(items.len() - 1),
            ", "@,
        ) + ", "@ + conj + " "@ + items.last(),
{
}

} // verus!
