//! Character-level helpers shared by the build-descriptor modules:
//! the lexicographic order used to sort file names, extraction of the
//! extension after the last `.`, and derivation of compiled-file names.

use vstd::prelude::*;
use vstd::relations::{sorted_by, total_ordering};
use vstd::multiset::Multiset;
use vstd::seq_lib::lemma_sorted_unique;

verus! {

broadcast use
    vstd::multiset::group_multiset_axioms,
    vstd::seq_lib::group_to_multiset_ensures,
    vstd::seq_lib::group_filter_ensures,
    Seq::lemma_filter_push;

/// The views of a sequence of strings, as character sequences.
pub open spec fn seq_views(s: Seq<String>) -> Seq<Seq<char>> {
    s.map_values(|x: String| x@)
}

/// Lexicographic "less or equal" over character sequences, comparing
/// code points; the order in which file-name lists are kept sorted.
pub open spec fn lex_leq(a: Seq<char>, b: Seq<char>) -> bool
    decreases a.len(),
{
    if a.len() == 0 {
        true
    } else if b.len() == 0 {
        false
    } else if a[0] == b[0] {
        lex_leq(a.drop_first(), b.drop_first())
    } else {
        a[0] < b[0]
    }
}

/// The name ordering as a relation value, for use with `sort_by`.
pub open spec fn name_order() -> spec_fn(Seq<char>, Seq<char>) -> bool {
    |a: Seq<char>, b: Seq<char>| lex_leq(a, b)
}

proof fn lemma_lex_leq_reflexive(a: Seq<char>)
    ensures
        lex_leq(a, a),
    decreases a.len(),
{
    if a.len() > 0 {
        lemma_lex_leq_reflexive(a.drop_first());
    }
}

proof fn lemma_lex_leq_antisymmetric(a: Seq<char>, b: Seq<char>)
    requires
        lex_leq(a, b),
        lex_leq(b, a),
    ensures
        a == b,
    decreases a.len(),
{
    if a.len() == 0 {
        assert(b.len() == 0);
        assert(a =~= b);
    } else {
        assert(b.len() > 0);
        if a[0] == b[0] {
            lemma_lex_leq_antisymmetric(a.drop_first(), b.drop_first());
            assert(a.drop_first() == b.drop_first());
            assert(a.drop_first().len() == a.len() - 1);
            assert(b.drop_first().len() == b.len() - 1);
            assert(a.len() == b.len());
            assert forall|i: int| 0 <= i < a.len() implies a[i] == b[i] by {
                if i > 0 {
                    assert(a[i] == a.drop_first()[i - 1]);
                    assert(b[i] == b.drop_first()[i - 1]);
                }
            }
            assert(a =~= b);
        } else {
            assert(false);
        }
    }
}

proof fn lemma_lex_leq_transitive(a: Seq<char>, b: Seq<char>, c: Seq<char>)
    requires
        lex_leq(a, b),
        lex_leq(b, c),
    ensures
        lex_leq(a, c),
    decreases a.len(),
{
    if a.len() > 0 {
        assert(b.len() > 0);
        assert(c.len() > 0);
        if a[0] == b[0] && b[0] == c[0] {
            lemma_lex_leq_transitive(a.drop_first(), b.drop_first(), c.drop_first());
        }
    }
}

proof fn lemma_lex_leq_connected(a: Seq<char>, b: Seq<char>)
    ensures
        lex_leq(a, b) || lex_leq(b, a),
    decreases a.len(),
{
    if a.len() == 0 {
    } else if b.len() == 0 {
    } else if a[0] == b[0] {
        lemma_lex_leq_connected(a.drop_first(), b.drop_first());
    } else {
    }
}

/// Index of the last `.` in a character sequence, or `-1` when the
/// sequence holds none.
pub open spec fn last_dot(s: Seq<char>) -> int
    decreases s.len(),
{
    if s.len() == 0 {
        -1
    } else if s.last() == '.' {
        s.len() - 1
    } else {
        last_dot(s.drop_last())
    }
}

/// The extension of a file name: the characters after the last `.`, or
/// the empty sequence when the name holds no `.` at all.
pub open spec fn ext_of(s: Seq<char>) -> Seq<char> {
    if last_dot(s) >= 0 {
        s.subrange(last_dot(s) + 1, s.len() as int)
    } else {
        Seq::empty()
    }
}

pub proof fn lemma_last_dot_props(s: Seq<char>)
    ensures
        -1 <= last_dot(s) < s.len(),
        last_dot(s) >= 0 ==> s[last_dot(s)] == '.',
        forall|i: int| last_dot(s) < i < s.len() ==> s[i] != '.',
    decreases s.len(),
{
    if s.len() > 0 && s.last() != '.' {
        lemma_last_dot_props(s.drop_last());
        assert forall|i: int| last_dot(s) < i < s.len() implies s[i] != '.' by {
            if i < s.len() - 1 {
                assert(s[i] == s.drop_last()[i]);
            }
        }
        if last_dot(s) >= 0 {
            assert(s[last_dot(s)] == s.drop_last()[last_dot(s)]);
        }
    }
}

/// A `.` with nothing but non-dots after it is the last dot.
proof fn lemma_last_dot_at(s: Seq<char>, k: int)
    requires
        0 <= k < s.len(),
        s[k] == '.',
        forall|i: int| k < i < s.len() ==> s[i] != '.',
    ensures
        last_dot(s) == k,
    decreases s.len(),
{
    if k == s.len() - 1 {
    } else {
        assert(s.last() != '.');
        assert(s.drop_last()[k] == s[k]);
        assert forall|i: int| k < i < s.drop_last().len() implies s.drop_last()[i] != '.' by {
            assert(s.drop_last()[i] == s[i]);
        }
        lemma_last_dot_at(s.drop_last(), k);
    }
}

/// A sequence with no dot at all has no last dot.
proof fn lemma_no_dot(s: Seq<char>)
    requires
        forall|i: int| 0 <= i < s.len() ==> s[i] != '.',
    ensures
        last_dot(s) == -1,
    decreases s.len(),
{
    if s.len() > 0 {
        assert forall|i: int| 0 <= i < s.drop_last().len() implies s.drop_last()[i] != '.' by {
            assert(s.drop_last()[i] == s[i]);
        }
        lemma_no_dot(s.drop_last());
    }
}

/// Character-wise string equality; `r` holds exactly when the two views
/// are the same sequence.
pub fn str_eq(a: &str, b: &str) -> (r: bool)
    ensures
        r == (a@ == b@),
{
    let an: usize = a.unicode_len();
    let bn: usize = b.unicode_len();
    if an != bn {
        proof {
            assert(a@ != b@);
        }
        return false;
    }
    let mut i: usize = 0;
    while i < an
        invariant
            an == a@.len(),
            an == b@.len(),
            i <= an,
            forall|j: int| 0 <= j < i ==> a@[j] == b@[j],
        decreases an - i,
    {
        if a.get_char(i) != b.get_char(i) {
            proof {
                assert(a@[i as int] != b@[i as int]);
            }
            return false;
        }
        i = i + 1;
    }
    proof {
        assert(a@ =~= b@);
    }
    true
}

/// Character-wise comparison in the name order.
pub fn str_leq(a: &str, b: &str) -> (r: bool)
    ensures
        r == lex_leq(a@, b@),
{
    let an: usize = a.unicode_len();
    let bn: usize = b.unicode_len();
    let mut i: usize = 0;
    proof {
        assert(a@.skip(0) =~= a@);
        assert(b@.skip(0) =~= b@);
    }
    while i < an && i < bn
        invariant
            an == a@.len(),
            bn == b@.len(),
            i <= an,
            i <= bn,
            forall|j: int| 0 <= j < i ==> a@[j] == b@[j],
            lex_leq(a@, b@) == lex_leq(a@.skip(i as int), b@.skip(i as int)),
        decreases an - i,
    {
        let ca = a.get_char(i);
        let cb = b.get_char(i);
        if ca != cb {
            proof {
                assert(a@.skip(i as int)[0] == ca);
                assert(b@.skip(i as int)[0] == cb);
            }
            return ca < cb;
        }
        proof {
            assert(a@.skip(i as int)[0] == ca);
            assert(b@.skip(i as int)[0] == cb);
            assert(a@.skip(i as int).drop_first() =~= a@.skip(i + 1));
            assert(b@.skip(i as int).drop_first() =~= b@.skip(i + 1));
        }
        i = i + 1;
    }
    proof {
        assert(a@.skip(i as int).len() == 0 || b@.skip(i as int).len() == 0);
    }
    an <= bn
}

/// Position of the last `.` of a name, scanning from the end.
pub fn find_last_dot(name: &str) -> (r: Option<usize>)
    ensures
        match r {
            Some(k) => last_dot(name@) == k as int,
            None => last_dot(name@) == -1,
        },
{
    let n: usize = name.unicode_len();
    let mut i: usize = n;
    while i > 0
        invariant
            n == name@.len(),
            i <= n,
            forall|j: int| i <= j < n ==> name@[j] != '.',
        decreases i,
    {
        if name.get_char(i - 1) == '.' {
            proof {
                lemma_last_dot_at(name@, i - 1);
            }
            return Some(i - 1);
        }
        i = i - 1;
    }
    proof {
        lemma_no_dot(name@);
    }
    None
}

/// The extension of a file name: the text after the last `.`, empty when
/// the name holds none.
pub fn extension_of(name: &str) -> (r: String)
    ensures
        r@ == ext_of(name@),
{
    let n: usize = name.unicode_len();
    match find_last_dot(name) {
        Some(k) => {
            proof {
                lemma_last_dot_props(name@);
            }
            name.substring_char(k + 1, n).to_owned()
        },
        None => String::new(),
    }
}

/// True exactly when the name's extension is `e`.
pub fn has_extension(name: &str, e: &str) -> (r: bool)
    ensures
        r == (ext_of(name@) == e@),
{
    let ext = extension_of(name);
    str_eq(ext.as_str(), e)
}

/// The name up to its last `.`, with `suffix` appended in place of the
/// old extension (the dot included).
pub fn stem_with(name: &str, suffix: &str) -> (r: String)
    requires
        last_dot(name@) >= 0,
    ensures
        r@ == name@.subrange(0, last_dot(name@)) + suffix@,
{
    match find_last_dot(name) {
        Some(k) => {
            proof {
                lemma_last_dot_props(name@);
            }
            let stem = name.substring_char(0, k);
            stem.to_owned().concat(suffix)
        },
        None => vstd::pervasive::unreached(),
    }
}

/// The name ordering is total: file-name lists have exactly one sorted
/// arrangement.
pub proof fn lemma_name_order_total()
    ensures
        total_ordering(name_order()),
{
    let leq = name_order();
    assert forall|a: Seq<char>| #[trigger] leq(a, a) by {
        lemma_lex_leq_reflexive(a);
    }
    assert forall|a: Seq<char>, b: Seq<char>| #[trigger] leq(a, b) && #[trigger] leq(b, a)
        implies a == b by {
        lemma_lex_leq_antisymmetric(a, b);
    }
    assert forall|a: Seq<char>, b: Seq<char>, c: Seq<char>|
        #[trigger] leq(a, b) && #[trigger] leq(b, c) implies leq(a, c) by {
        lemma_lex_leq_transitive(a, b, c);
    }
    assert forall|a: Seq<char>, b: Seq<char>| #[trigger] leq(a, b) || #[trigger] leq(b, a) by {
        lemma_lex_leq_connected(a, b);
    }
}


proof fn lemma_views_remove(s: Seq<String>, i: int)
    requires
        0 <= i < s.len(),
    ensures
        seq_views(s.remove(i)) =~= seq_views(s).remove(i),
{
}

/// Sorts a vector of strings ascending in the name order, by repeatedly
/// moving the least remaining name to the output.
#[verifier::loop_isolation(false)]
pub fn sort_strings(v: &mut Vec<String>)
    ensures
        seq_views(final(v)@) == seq_views(old(v)@).sort_by(name_order()),
{
    let ghost orig: Seq<Seq<char>> = seq_views(old(v)@);
    proof {
        lemma_name_order_total();
    }
    let mut out: Vec<String> = Vec::new();
    while v.len() > 0
        invariant
            seq_views(out@).to_multiset().add(seq_views(v@).to_multiset()) =~= orig.to_multiset(),
            sorted_by(seq_views(out@), name_order()),
            forall|p: int, q: int|
                0 <= p < out@.len() && 0 <= q < v@.len() ==> #[trigger] name_order()(
                    seq_views(out@)[p],
                    seq_views(v@)[q],
                ),
        decreases v.len(),
    {
        let mut m: usize = 0;
        let mut k: usize = 1;
        while k < v.len()
            invariant
                m < k,
                k <= v.len(),
                forall|t: int|
                    0 <= t < k ==> #[trigger] name_order()(
                        seq_views(v@)[m as int],
                        seq_views(v@)[t],
                    ),
            decreases v.len() - k,
        {
            if str_leq(v[k].as_str(), v[m].as_str()) {
                proof {
                    lemma_name_order_total();
                    assert(seq_views(v@)[k as int] == v@[k as int]@);
                    assert(seq_views(v@)[m as int] == v@[m as int]@);
                    assert(name_order()(seq_views(v@)[k as int], seq_views(v@)[m as int]));
                    assert forall|t: int| 0 <= t < k + 1 implies #[trigger] name_order()(
                        seq_views(v@)[k as int],
                        seq_views(v@)[t],
                    ) by {
                        if t < k {
                            assert(name_order()(seq_views(v@)[m as int], seq_views(v@)[t]));
                        }
                    }
                }
                m = k;
            } else {
                proof {
                    lemma_lex_leq_connected(v@[m as int]@, v@[k as int]@);
                    assert(seq_views(v@)[k as int] == v@[k as int]@);
                    assert(seq_views(v@)[m as int] == v@[m as int]@);
                    assert(!lex_leq(v@[k as int]@, v@[m as int]@));
                    assert(name_order()(seq_views(v@)[m as int], seq_views(v@)[k as int]));
                }
            }
            k = k + 1;
        }
        let ghost prev: Seq<String> = v@;
        let ghost prev_out_strs: Seq<String> = out@;
        let ghost prev_out: Seq<Seq<char>> = seq_views(out@);
        let x = v.remove(m);
        proof {
            lemma_views_remove(prev, m as int);
            vstd::seq_lib::to_multiset_remove(seq_views(prev), m as int);
            prev_out_strs.lemma_push_map_commute(|s: String| s@, x);
        }
        out.push(x);
        proof {
            assert(seq_views(out@) =~= prev_out.push(x@));
            assert(seq_views(out@).to_multiset() =~= prev_out.to_multiset().insert(x@));
            assert(seq_views(out@).to_multiset().add(seq_views(v@).to_multiset())
                =~= orig.to_multiset());
            assert forall|p: int, q: int|
                0 <= p < out@.len() && 0 <= q < v@.len() implies #[trigger] name_order()(
                seq_views(out@)[p],
                seq_views(v@)[q],
            ) by {
                let vq = if q < m { q } else { q + 1 };
                assert(seq_views(v@)[q] == seq_views(prev)[vq]);
                if p < out@.len() - 1 {
                    assert(name_order()(prev_out[p], seq_views(prev)[vq]));
                } else {
                    assert(seq_views(out@)[p] == x@);
                    assert(name_order()(seq_views(prev)[m as int], seq_views(prev)[vq]));
                }
            }
            assert(sorted_by(seq_views(out@), name_order()));
        }
    }
    proof {
        assert(seq_views(v@).len() == 0);
        assert forall|e: Seq<char>| true implies seq_views(out@).to_multiset().count(e)
            == orig.to_multiset().count(e) by {
            assert(!seq_views(v@).contains(e));
            assert(seq_views(v@).to_multiset().count(e) == 0);
        }
        assert(seq_views(out@).to_multiset() =~= orig.to_multiset());
        orig.lemma_sort_by_ensures(name_order());
        lemma_sorted_unique(seq_views(out@), orig.sort_by(name_order()), name_order());
    }
    *v = out;
}

/// The compiled-artifact name of a native source: the stem with `.o`
/// in place of the old extension.
pub open spec fn obj_of(s: Seq<char>) -> Seq<char> {
    s.subrange(0, last_dot(s)) + ".o"@
}

/// The compiled-artifact name of a managed-runtime source: the stem
/// with `.class` in place of the old extension.
pub open spec fn class_of(s: Seq<char>) -> Seq<char> {
    s.subrange(0, last_dot(s)) + ".class"@
}

/// A name with a native-language source extension (`.c` or `.cpp`).
pub open spec fn is_native_source(s: Seq<char>) -> bool {
    ext_of(s) == "c"@ || ext_of(s) == "cpp"@
}

/// A name with a managed-runtime source extension (`.java`).
pub open spec fn is_java_source(s: Seq<char>) -> bool {
    ext_of(s) == "java"@
}

/// A name with any recognized source extension.
pub open spec fn is_source(s: Seq<char>) -> bool {
    is_native_source(s) || is_java_source(s)
}

/// A name with a recognized header extension (`.h` or `.hpp`).
pub open spec fn is_header(s: Seq<char>) -> bool {
    ext_of(s) == "h"@ || ext_of(s) == "hpp"@
}

/// The compiled-artifact name of any recognized source.
pub open spec fn compiled_of(s: Seq<char>) -> Seq<char> {
    if is_java_source(s) {
        class_of(s)
    } else {
        obj_of(s)
    }
}

/// The members of `names` that satisfy `pred`, in ascending name order.
pub open spec fn selected_sorted(
    names: Seq<Seq<char>>,
    pred: spec_fn(Seq<char>) -> bool,
) -> Seq<Seq<char>> {
    names.filter(pred).sort_by(name_order())
}

/// A recognized source name holds a dot, so a stem can be taken.
pub proof fn lemma_source_has_dot(s: Seq<char>)
    requires
        is_source(s),
    ensures
        last_dot(s) >= 0,
{
    reveal_strlit("c");
    reveal_strlit("cpp");
    reveal_strlit("java");
    if last_dot(s) < 0 {
        assert(ext_of(s).len() == 0);
        assert(false);
    }
}

/// Derives the compiled-artifact name of one source file.
pub fn compiled_name(name: &str) -> (r: String)
    requires
        is_source(name@),
    ensures
        r@ == compiled_of(name@),
{
    proof {
        lemma_source_has_dot(name@);
    }
    if has_extension(name, "java") {
        stem_with(name, ".class")
    } else {
        stem_with(name, ".o")
    }
}

/// Space-prefixed concatenation: one leading space before every item.
pub open spec fn spaced(items: Seq<Seq<char>>) -> Seq<char>
    decreases items.len(),
{
    if items.len() == 0 {
        Seq::empty()
    } else {
        spaced(items.drop_last()) + seq![' '] + items.last()
    }
}

/// The items joined by a single space, with no leading or trailing one.
pub open spec fn joined(items: Seq<Seq<char>>) -> Seq<char> {
    if items.len() == 0 {
        Seq::empty()
    } else {
        items.first() + spaced(items.drop_first())
    }
}

proof fn lemma_spaced_push(s: Seq<Seq<char>>, x: Seq<char>)
    ensures
        spaced(s.push(x)) == spaced(s) + seq![' '] + x,
{
    assert(s.push(x).drop_last() =~= s);
    assert(s.push(x).last() == x);
}

/// Appends one space and then the item, for every item in turn.
#[verifier::loop_isolation(false)]
pub fn append_spaced(out: &mut String, items: &Vec<String>)
    ensures
        final(out)@ == old(out)@ + spaced(seq_views(items@)),
{
    proof {
        assert(seq_views(items@).take(0) =~= Seq::<Seq<char>>::empty());
        assert(old(out)@ + spaced(seq_views(items@).take(0)) =~= old(out)@);
    }
    let n: usize = items.len();
    let mut i: usize = 0;
    while i < n
        invariant
            i <= n,
            out@ == old(out)@ + spaced(seq_views(items@).take(i as int)),
        decreases n - i,
    {
        out.append(" ");
        out.append(items[i].as_str());
        proof {
            reveal_strlit(" ");
            assert(" "@ =~= seq![' ']);
            assert(seq_views(items@).take(i + 1) =~= seq_views(items@).take(i as int).push(
                seq_views(items@)[i as int],
            ));
            lemma_spaced_push(seq_views(items@).take(i as int), seq_views(items@)[i as int]);
            assert(out@ =~= old(out)@ + spaced(seq_views(items@).take(i + 1)));
        }
        i = i + 1;
    }
    proof {
        assert(seq_views(items@).take(n as int) =~= seq_views(items@));
    }
}

/// The items joined by single spaces, as one string.
pub fn join_with_spaces(items: &Vec<String>) -> (r: String)
    ensures
        r@ == joined(seq_views(items@)),
{
    let mut out = String::new();
    if items.len() == 0 {
        return out;
    }
    out.append(items[0].as_str());
    let ghost tail: Seq<Seq<char>> = seq_views(items@).drop_first();
    proof {
        assert(tail.take(0) =~= Seq::<Seq<char>>::empty());
        assert(out@ =~= seq_views(items@).first() + spaced(tail.take(0)));
    }
    let n: usize = items.len();
    let mut i: usize = 1;
    while i < n
        invariant
            1 <= i <= n,
            n == items@.len(),
            tail == seq_views(items@).drop_first(),
            tail.len() == n - 1,
            out@ == seq_views(items@).first() + spaced(tail.take(i - 1)),
        decreases n - i,
    {
        out.append(" ");
        out.append(items[i].as_str());
        proof {
            reveal_strlit(" ");
            assert(" "@ =~= seq![' ']);
            assert(tail[i - 1] == seq_views(items@)[i as int]);
            assert(tail.take(i as int) =~= tail.take(i - 1).push(tail[i - 1]));
            lemma_spaced_push(tail.take(i - 1), tail[i - 1]);
            assert(out@ =~= seq_views(items@).first() + spaced(tail.take(i as int)));
        }
        i = i + 1;
    }
    proof {
        assert(tail.take(n - 1) =~= tail);
        assert(out@ =~= joined(seq_views(items@)));
    }
    out
}

/// Element-wise equality of two string vectors.
pub fn vec_str_eq(a: &Vec<String>, b: &Vec<String>) -> (r: bool)
    ensures
        r == (seq_views(a@) == seq_views(b@)),
{
    let an: usize = a.len();
    let bn: usize = b.len();
    if an != bn {
        proof {
            assert(seq_views(a@).len() != seq_views(b@).len());
        }
        return false;
    }
    let mut i: usize = 0;
    while i < an
        invariant
            an == a@.len(),
            an == b@.len(),
            i <= an,
            forall|j: int| 0 <= j < i ==> seq_views(a@)[j] == seq_views(b@)[j],
        decreases an - i,
    {
        if !str_eq(a[i].as_str(), b[i].as_str()) {
            proof {
                assert(seq_views(a@)[i as int] != seq_views(b@)[i as int]);
            }
            return false;
        }
        i = i + 1;
    }
    proof {
        assert(seq_views(a@) =~= seq_views(b@));
    }
    true
}


/// Filtering commutes with forgetting order.
proof fn lemma_filter_to_multiset<A>(s: Seq<A>, p: spec_fn(A) -> bool)
    ensures
        s.filter(p).to_multiset() == s.to_multiset().filter(p),
    decreases s.len(),
{
    reveal(Seq::filter);
    if s.len() == 0 {
        assert(s.to_multiset() =~= Multiset::<A>::empty());
        assert(s.filter(p).to_multiset() =~= s.to_multiset().filter(p));
    } else {
        let butlast = s.drop_last();
        lemma_filter_to_multiset(butlast, p);
        assert(s =~= butlast.push(s.last()));
        assert(butlast.push(s.last()).filter(p) == if p(s.last()) {
            butlast.filter(p).push(s.last())
        } else {
            butlast.filter(p)
        });
        assert(s.filter(p).to_multiset() =~= s.to_multiset().filter(p));
    }
}

/// What `selected_sorted` yields: names that all match, as many of each
/// as the listing held, in ascending order.
pub proof fn lemma_selected_sorted_props(names: Seq<Seq<char>>, pred: spec_fn(Seq<char>) -> bool)
    ensures
        sorted_by(selected_sorted(names, pred), name_order()),
        selected_sorted(names, pred).to_multiset() == names.filter(pred).to_multiset(),
        forall|i: int|
            0 <= i < selected_sorted(names, pred).len() ==> pred(
                #[trigger] selected_sorted(names, pred)[i],
            ),
{
    lemma_name_order_total();
    let f = names.filter(pred);
    let srt = selected_sorted(names, pred);
    f.lemma_sort_by_ensures(name_order());
    assert(srt.to_multiset() =~= f.to_multiset());
    assert forall|i: int| 0 <= i < srt.len() implies pred(#[trigger] srt[i]) by {
        assert(srt.contains(srt[i]));
        assert(f.contains(srt[i]));
        let j = choose|j: int| 0 <= j < f.len() && f[j] == srt[i];
        assert(pred(f[j]));
    }
}

/// Listings that hold the same names, in whatever order, select the
/// same sorted sequence.
pub proof fn lemma_selected_sorted_permutation(
    n1: Seq<Seq<char>>,
    n2: Seq<Seq<char>>,
    pred: spec_fn(Seq<char>) -> bool,
)
    requires
        n1.to_multiset() == n2.to_multiset(),
    ensures
        selected_sorted(n1, pred) == selected_sorted(n2, pred),
{
    lemma_name_order_total();
    lemma_filter_to_multiset(n1, pred);
    lemma_filter_to_multiset(n2, pred);
    n1.filter(pred).lemma_sort_by_ensures(name_order());
    n2.filter(pred).lemma_sort_by_ensures(name_order());
    lemma_sorted_unique(selected_sorted(n1, pred), selected_sorted(n2, pred), name_order());
}

/// A predicate and its complement split a list with nothing lost and
/// nothing counted twice.
pub proof fn lemma_filter_partition<A>(s: Seq<A>, p: spec_fn(A) -> bool, q: spec_fn(A) -> bool)
    requires
        forall|i: int| 0 <= i < s.len() ==> (p(#[trigger] s[i]) <==> !q(s[i])),
    ensures
        s.filter(p).len() + s.filter(q).len() == s.len(),
        s.filter(p).to_multiset().add(s.filter(q).to_multiset()) == s.to_multiset(),
    decreases s.len(),
{
    reveal(Seq::filter);
    if s.len() == 0 {
        assert(s.to_multiset() =~= Multiset::<A>::empty());
        assert(s.filter(p).to_multiset().add(s.filter(q).to_multiset()) =~= s.to_multiset());
    } else {
        let butlast = s.drop_last();
        assert forall|i: int| 0 <= i < butlast.len() implies (p(#[trigger] butlast[i]) <==> !q(
            butlast[i],
        )) by {
            assert(butlast[i] == s[i]);
        }
        lemma_filter_partition(butlast, p, q);
        assert(s =~= butlast.push(s.last()));
        assert(butlast.push(s.last()).filter(p) == if p(s.last()) {
            butlast.filter(p).push(s.last())
        } else {
            butlast.filter(p)
        });
        assert(butlast.push(s.last()).filter(q) == if q(s.last()) {
            butlast.filter(q).push(s.last())
        } else {
            butlast.filter(q)
        });
        assert(s.filter(p).to_multiset().add(s.filter(q).to_multiset()) =~= s.to_multiset());
    }
}


/// No name matches two of the recognized extension classes at once, and
/// no compiled name is both native and managed.
pub proof fn lemma_extension_classes_disjoint(s: Seq<char>)
    ensures
        !(is_source(s) && is_header(s)),
        !(is_native_source(s) && is_java_source(s)),
        !(ext_of(s) == "o"@ && ext_of(s) == "class"@),
{
    reveal_strlit("c");
    reveal_strlit("cpp");
    reveal_strlit("java");
    reveal_strlit("h");
    reveal_strlit("hpp");
    reveal_strlit("o");
    reveal_strlit("class");
    assert("c"@.len() == 1 && "c"@[0] == 'c');
    assert("cpp"@.len() == 3 && "cpp"@[0] == 'c');
    assert("java"@.len() == 4 && "java"@[0] == 'j');
    assert("h"@.len() == 1 && "h"@[0] == 'h');
    assert("hpp"@.len() == 3 && "hpp"@[0] == 'h');
    assert("o"@.len() == 1 && "o"@[0] == 'o');
    assert("class"@.len() == 5 && "class"@[0] == 'c');
}

/// The compiled-artifact name of a source carries the compiled
/// extension of its language.
pub proof fn lemma_compiled_extension(s: Seq<char>)
    requires
        is_source(s),
    ensures
        is_java_source(s) ==> ext_of(compiled_of(s)) == "class"@,
        !is_java_source(s) ==> ext_of(compiled_of(s)) == "o"@,
{
    reveal_strlit(".o");
    reveal_strlit("o");
    reveal_strlit(".class");
    reveal_strlit("class");
    lemma_source_has_dot(s);
    let stem = s.subrange(0, last_dot(s));
    if is_java_source(s) {
        let t = stem + ".class"@;
        assert(t.len() == stem.len() + 6);
        assert(t[stem.len() as int] == '.');
        assert forall|i: int| stem.len() < i < t.len() implies t[i] != '.' by {
            assert(t[i] == ".class"@[i - stem.len()]);
        }
        lemma_last_dot_at(t, stem.len() as int);
        assert(ext_of(t) =~= "class"@);
    } else {
        let t = stem + ".o"@;
        assert(t.len() == stem.len() + 2);
        assert(t[stem.len() as int] == '.');
        assert forall|i: int| stem.len() < i < t.len() implies t[i] != '.' by {
            assert(t[i] == ".o"@[i - stem.len()]);
        }
        lemma_last_dot_at(t, stem.len() as int);
        assert(ext_of(t) =~= "o"@);
    }
}


/// Derives the native object-file name of one source file.
pub fn object_name(name: &str) -> (r: String)
    requires
        is_native_source(name@),
    ensures
        r@ == obj_of(name@),
{
    proof {
        lemma_source_has_dot(name@);
    }
    stem_with(name, ".o")
}

/// The native object-file name of each source, in source order.
pub open spec fn objects_of(sources: Seq<Seq<char>>) -> Seq<Seq<char>> {
    sources.map_values(|s: Seq<char>| obj_of(s))
}

} // verus!
