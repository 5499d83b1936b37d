use vstd::prelude::*;
use vstd::seq_lib::lemma_multiset_commutative;

verus! {

/// Lexicographic order on character sequences, by code point: the empty
/// sequence comes first, and otherwise the first differing position
/// decides.
pub open spec fn lex_le(a: Seq<char>, b: Seq<char>) -> bool
    decreases a.len(),
{
    if a.len() == 0 {
        true
    } else if b.len() == 0 {
        false
    } else if (a[0] as u32) < (b[0] as u32) {
        true
    } else if (a[0] as u32) > (b[0] as u32) {
        false
    } else {
        lex_le(a.drop_first(), b.drop_first())
    }
}

/// The order is total: of two sequences, one comes no later than the other.
pub proof fn lemma_lex_le_total(a: Seq<char>, b: Seq<char>)
    ensures
        lex_le(a, b) || lex_le(b, a),
    decreases a.len(),
{
    if a.len() == 0 || b.len() == 0 {
    } else if (a[0] as u32) == (b[0] as u32) {
        lemma_lex_le_total(a.drop_first(), b.drop_first());
    }
}

/// The order is transitive.
pub proof fn lemma_lex_le_trans(a: Seq<char>, b: Seq<char>, c: Seq<char>)
    requires
        lex_le(a, b),
        lex_le(b, c),
    ensures
        lex_le(a, c),
    decreases a.len(),
{
    if a.len() == 0 || b.len() == 0 || c.len() == 0 {
    } else if (a[0] as u32) == (b[0] as u32) && (b[0] as u32) == (c[0] as u32) {
        lemma_lex_le_trans(a.drop_first(), b.drop_first(), c.drop_first());
    }
}

/// A word list in which every earlier word comes no later than every
/// later one, in the order `lex_le` describes.
pub open spec fn words_sorted(s: Seq<Seq<char>>) -> bool {
    forall|i: int, j: int| 0 <= i < j < s.len() ==> lex_le(#[trigger] s[i], #[trigger] s[j])
}

/// Compare two string slices in the order `lex_le` describes.
pub fn str_le(a: &str, b: &str) -> (r: bool)
    ensures
        r == lex_le(a@, b@),
{
    let alen = a.unicode_len();
    let blen = b.unicode_len();
    let mut i: usize = 0;
    proof {
        assert(a@.subrange(0, alen as int) =~= a@);
        assert(b@.subrange(0, blen as int) =~= b@);
    }
    while i < alen && i < blen
        invariant
            i <= alen,
            i <= blen,
            alen == a@.len(),
            blen == b@.len(),
            lex_le(a@, b@) == lex_le(
                a@.subrange(i as int, alen as int),
                b@.subrange(i as int, blen as int),
            ),
        decreases alen - i,
    {
        let ghost ra = a@.subrange(i as int, alen as int);
        let ghost rb = b@.subrange(i as int, blen as int);
        proof {
            assert(ra[0] == a@[i as int]);
            assert(rb[0] == b@[i as int]);
            assert(ra.drop_first() =~= a@.subrange(i as int + 1, alen as int));
            assert(rb.drop_first() =~= b@.subrange(i as int + 1, blen as int));
        }
        let ca = a.get_char(i) as u32;
        let cb = b.get_char(i) as u32;
        if ca < cb {
            return true;
        }
        if ca > cb {
            return false;
        }
        i = i + 1;
    }
    if i == blen && i < alen {
        proof {
            assert(b@.subrange(i as int, blen as int).len() == 0);
            assert(a@.subrange(i as int, alen as int).len() > 0);
        }
        false
    } else {
        proof {
            assert(a@.subrange(i as int, alen as int).len() == 0);
        }
        true
    }
}

/// The position where a word joins a sorted list: every earlier entry comes
/// no later than the word, and the entry at the position, if any, comes
/// strictly after it.
fn insertion_point(sorted: &Vec<String>, w: &str) -> (k: usize)
    ensures
        k <= sorted.len(),
        forall|t: int| 0 <= t < k ==> lex_le(sorted.deep_view()[t], w@),
        k < sorted.len() ==> !lex_le(sorted.deep_view()[k as int], w@),
{
    let mut k: usize = 0;
    while k < sorted.len()
        invariant
            k <= sorted.len(),
            forall|t: int| 0 <= t < k ==> lex_le(sorted.deep_view()[t], w@),
        decreases sorted.len() - k,
    {
        if !str_le(sorted[k].as_str(), w) {
            return k;
        }
        k = k + 1;
    }
    k
}

/// Arrange words into the order `lex_le` describes, keeping exactly the
/// same words.
pub fn sort_words(words: &Vec<String>) -> (r: Vec<String>)
    ensures
        r.deep_view().to_multiset() == words.deep_view().to_multiset(),
        words_sorted(r.deep_view()),
{
    let mut r: Vec<String> = Vec::new();
    let n = words.len();
    let mut i: usize = 0;
    proof {
        broadcast use vstd::seq_lib::group_to_multiset_ensures;

        assert(words.deep_view().subrange(0, 0) =~= Seq::<Seq<char>>::empty());
        assert(r.deep_view() =~= Seq::<Seq<char>>::empty());
    }
    while i < n
        invariant
            i <= n,
            n == words.len(),
            r.deep_view().to_multiset() == words.deep_view().subrange(0, i as int).to_multiset(),
            words_sorted(r.deep_view()),
        decreases n - i,
    {
        let w = words[i].clone();
        let k = insertion_point(&r, w.as_str());
        let ghost s = r.deep_view();
        let ghost s2 = s.insert(k as int, w@);
        proof {
            broadcast use vstd::seq_lib::group_to_multiset_ensures;

            s.insert_ensures(k as int, w@);
            if (k as int) < s.len() {
                lemma_lex_le_total(s[k as int], w@);
            }
            assert forall|x: int, y: int| 0 <= x < y < s2.len() implies lex_le(
                s2[x],
                s2[y],
            ) by {
                if x < k && y < k {
                } else if x < k && y == k {
                } else if x < k && y > k {
                    if k < s.len() && k < y - 1 {
                        assert(lex_le(s[x], s[y - 1]));
                    }
                } else if x == k && y > k {
                    if k < y - 1 {
                        lemma_lex_le_trans(w@, s[k as int], s[y - 1]);
                    }
                } else {
                    assert(lex_le(s[x - 1], s[y - 1]));
                }
            }
            // the inserted sequence holds the same words plus `w`
            assert(s2 =~= (s.subrange(0, k as int) + seq![w@]) + s.subrange(
                k as int,
                s.len() as int,
            ));
            lemma_multiset_commutative(s.subrange(0, k as int) + seq![w@], s.subrange(
                k as int,
                s.len() as int,
            ));
            lemma_multiset_commutative(s.subrange(0, k as int), seq![w@]);
            assert(s =~= s.subrange(0, k as int) + s.subrange(k as int, s.len() as int));
            lemma_multiset_commutative(s.subrange(0, k as int), s.subrange(
                k as int,
                s.len() as int,
            ));
            assert(seq![w@] =~= Seq::<Seq<char>>::empty().push(w@));
            assert(seq![w@].to_multiset() =~= Seq::<Seq<char>>::empty().to_multiset().insert(w@));
            assert(forall|x: Seq<char>| Seq::<Seq<char>>::empty().to_multiset().count(x) == 0);
            assert(s2.to_multiset() =~= s.to_multiset().insert(w@));
            assert(words.deep_view().subrange(0, i as int + 1) =~= words.deep_view().subrange(
                0,
                i as int,
            ).push(words.deep_view()[i as int]));
        }
        let ghost rv = r@;
        r.insert(k, w);
        proof {
            rv.insert_ensures(k as int, w);
            assert(r.deep_view() =~= s2);
        }
        i = i + 1;
    }
    proof {
        assert(words.deep_view().subrange(0, n as int) =~= words.deep_view());
    }
    r
}

/// Character-by-character equality of two string slices.
pub fn str_eq(a: &str, b: &str) -> (r: bool)
    ensures
        r == (a@ == b@),
{
    let alen = a.unicode_len();
    let blen = b.unicode_len();
    if alen != blen {
        return false;
    }
    let mut i: usize = 0;
    while i < alen
        invariant
            0 <= i <= alen,
            alen == a@.len(),
            alen == b@.len(),
            forall|j: int| 0 <= j < i ==> a@[j] == b@[j],
        decreases alen - i,
    {
        if a.get_char(i) != b.get_char(i) {
            return false;
        }
        i = i + 1;
    }
    proof {
        assert(a@ =~= b@);
    }
    true
}

/// True when `p` is a prefix of `a`, character by character.
pub fn str_starts_with(a: &str, p: &str) -> (r: bool)
    ensures
        r == p@.is_prefix_of(a@),
{
    let alen = a.unicode_len();
    let plen = p.unicode_len();
    if plen > alen {
        return false;
    }
    let mut i: usize = 0;
    while i < plen
        invariant
            0 <= i <= plen,
            plen <= alen,
            alen == a@.len(),
            plen == p@.len(),
            forall|j: int| 0 <= j < i ==> a@[j] == p@[j],
        decreases plen - i,
    {
        if a.get_char(i) != p.get_char(i) {
            return false;
        }
        i = i + 1;
    }
    proof {
        assert(p@ =~= a@.subrange(0, p@.len() as int));
    }
    true
}

/// The words joined by `sep`, nothing around them: empty input gives the
/// empty sequence, one word gives that word alone.
pub open spec fn spec_join(words: Seq<Seq<char>>, sep: Seq<char>) -> Seq<char>
    decreases words.len(),
{
    if words.len() == 0 {
        Seq::empty()
    } else if words.len() == 1 {
        words[0]
    } else {
        words[0] + sep + spec_join(words.drop_first(), sep)
    }
}

/// Appending one more word extends the joined text by a separator (when
/// anything came before) and the word.
pub proof fn lemma_join_push(words: Seq<Seq<char>>, sep: Seq<char>, w: Seq<char>)
    ensures
        words.len() == 0 ==> spec_join(words.push(w), sep) == w,
        words.len() > 0 ==> spec_join(words.push(w), sep) == spec_join(words, sep) + sep + w,
    decreases words.len(),
{
    let ws = words.push(w);
    if words.len() == 0 {
        assert(ws.len() == 1);
        assert(ws[0] == w);
    } else if words.len() == 1 {
        assert(ws[0] == words[0]);
        assert(ws.drop_first() =~= seq![w]);
        assert(spec_join(ws.drop_first(), sep) == w);
    } else {
        lemma_join_push(words.drop_first(), sep, w);
        assert(ws.drop_first() =~= words.drop_first().push(w));
        assert(ws[0] == words[0]);
        assert((words[0] + sep + spec_join(words.drop_first(), sep)) + sep + w =~= words[0] + sep
            + (spec_join(words.drop_first(), sep) + sep + w));
    }
}

/// Join the words with the separator, as `spec_join` describes.
pub fn join_words(words: &Vec<String>, sep: &str) -> (r: String)
    ensures
        r@ == spec_join(words.deep_view(), sep@),
{
    let mut r = String::new();
    let n = words.len();
    let mut i: usize = 0;
    proof {
        assert(words.deep_view().subrange(0, 0) =~= Seq::<Seq<char>>::empty());
    }
    while i < n
        invariant
            i <= n,
            n == words.len(),
            r@ == spec_join(words.deep_view().subrange(0, i as int), sep@),
        decreases n - i,
    {
        proof {
            let pre = words.deep_view().subrange(0, i as int);
            let w = words.deep_view()[i as int];
            lemma_join_push(pre, sep@, w);
            assert(pre.push(w) =~= words.deep_view().subrange(0, i as int + 1));
            if i == 0 {
                assert(r@ + w =~= w);
            }
        }
        if i > 0 {
            r.append(sep);
        }
        r.append(words[i].as_str());
        i = i + 1;
    }
    proof {
        assert(words.deep_view().subrange(0, n as int) =~= words.deep_view());
    }
    r
}

/// The two pieces, one after the other, as an owned string.
pub fn str_concat(a: &str, b: &str) -> (r: String)
    ensures
        r@ == a@ + b@,
{
    let mut r = a.to_owned();
    r.append(b);
    r
}

/// Relies on String's FromIterator over chars: collecting an iterator of
/// characters yields the string of exactly those characters, in order.
#[verifier::external_body]
pub(crate) fn chars_to_string(v: &Vec<char>) -> (s: String)
    ensures
        s@ == v@,
{
    v.iter().collect()
}

} // verus!
