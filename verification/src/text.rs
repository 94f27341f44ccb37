//! Character-sequence utilities shared by the workflow components:
//! lexicographic ordering, trimming, line splitting and comma joining.

use vstd::prelude::*;
use vstd::seq_lib::lemma_seq_contains_after_push;

verus! {

/// Lexicographic order on character sequences, comparing characters by
/// their Unicode scalar values.
pub open spec fn lex_le(a: Seq<char>, b: Seq<char>) -> bool
    decreases a.len(),
{
    if a.len() == 0 {
        true
    } else if b.len() == 0 {
        false
    } else if (a[0] as u32) < (b[0] as u32) {
        true
    } else if (b[0] as u32) < (a[0] as u32) {
        false
    } else {
        lex_le(a.skip(1), b.skip(1))
    }
}

/// Strict lexicographic order.
pub open spec fn lex_lt(a: Seq<char>, b: Seq<char>) -> bool {
    lex_le(a, b) && a != b
}

/// Every pair of entries in `s` is in (non-strict) lexicographic order.
pub open spec fn sorted(s: Seq<Seq<char>>) -> bool {
    forall|i: int, j: int| 0 <= i < j < s.len() ==> lex_le(s[i], s[j])
}

/// Every pair of entries in `s` is in strict lexicographic order; such a
/// sequence is both sorted and free of duplicates.
pub open spec fn sorted_strict(s: Seq<Seq<char>>) -> bool {
    forall|i: int, j: int| 0 <= i < j < s.len() ==> lex_lt(s[i], s[j])
}

/// Distinct characters have distinct Unicode scalar values; stated over
/// parameters so that the character validity assumption is in scope.
pub proof fn lemma_char_code_injective(c1: char, c2: char)
    requires
        c1 as u32 == c2 as u32,
    ensures
        c1 == c2,
{
}

pub proof fn lemma_lex_le_total(a: Seq<char>, b: Seq<char>)
    ensures
        lex_le(a, b) || lex_le(b, a),
    decreases a.len(),
{
    if a.len() > 0 && b.len() > 0 && !((a[0] as u32) < (b[0] as u32)) && !((b[0] as u32) < (
    a[0] as u32)) {
        lemma_lex_le_total(a.skip(1), b.skip(1));
    }
}

pub proof fn lemma_lex_le_antisym(a: Seq<char>, b: Seq<char>)
    requires
        lex_le(a, b),
        lex_le(b, a),
    ensures
        a == b,
    decreases a.len(),
{
    if a.len() == 0 {
        assert(b.len() == 0);
        assert(a =~= b);
    } else if (a[0] as u32) < (b[0] as u32) {
        assert(!lex_le(b, a));
    } else if (b[0] as u32) < (a[0] as u32) {
        assert(!lex_le(a, b));
    } else {
        lemma_char_code_injective(a[0], b[0]);
        lemma_lex_le_antisym(a.skip(1), b.skip(1));
        assert(a =~= b) by {
            assert(a[0] == b[0]);
            assert forall|i: int| 0 < i < a.len() implies a[i] == b[i] by {
                assert(a.skip(1)[i - 1] == b.skip(1)[i - 1]);
            }
        }
    }
}

pub proof fn lemma_lex_le_trans(a: Seq<char>, b: Seq<char>, c: Seq<char>)
    requires
        lex_le(a, b),
        lex_le(b, c),
    ensures
        lex_le(a, c),
    decreases a.len(),
{
    if a.len() > 0 && b.len() > 0 && c.len() > 0 {
        let a0 = a[0] as u32;
        let b0 = b[0] as u32;
        let c0 = c[0] as u32;
        if !(a0 < b0) && !(b0 < a0) && !(b0 < c0) && !(c0 < b0) {
            lemma_char_code_injective(a[0], b[0]);
            lemma_char_code_injective(b[0], c[0]);
            lemma_lex_le_trans(a.skip(1), b.skip(1), c.skip(1));
        }
    }
}

pub proof fn lemma_lex_lt_trans(a: Seq<char>, b: Seq<char>, c: Seq<char>)
    requires
        lex_lt(a, b),
        lex_lt(b, c),
    ensures
        lex_lt(a, c),
{
    lemma_lex_le_trans(a, b, c);
    if a == c {
        lemma_lex_le_antisym(a, b);
    }
}

/// A strictly sorted sequence has no duplicate entries.
pub proof fn lemma_sorted_strict_no_duplicates(s: Seq<Seq<char>>)
    requires
        sorted_strict(s),
    ensures
        s.no_duplicates(),
        sorted(s),
{
    assert forall|i: int, j: int|
        0 <= i < s.len() && 0 <= j < s.len() && i != j implies s[i] != s[j] by {
        if i < j {
            assert(lex_lt(s[i], s[j]));
        } else {
            assert(lex_lt(s[j], s[i]));
        }
    }
    assert forall|i: int, j: int| 0 <= i < j < s.len() implies lex_le(s[i], s[j]) by {
        assert(lex_lt(s[i], s[j]));
    }
}

/// Verified lexicographic comparison of two strings.
pub fn str_le(a: &str, b: &str) -> (r: bool)
    ensures
        r == lex_le(a@, b@),
{
    let alen = a.unicode_len();
    let blen = b.unicode_len();
    let mut i: usize = 0;
    proof {
        assert(a@.skip(0) =~= a@);
        assert(b@.skip(0) =~= b@);
    }
    while i < alen && i < blen
        invariant
            i <= alen,
            i <= blen,
            alen == a@.len(),
            blen == b@.len(),
            lex_le(a@, b@) == lex_le(a@.skip(i as int), b@.skip(i as int)),
            lex_le(b@, a@) == lex_le(b@.skip(i as int), a@.skip(i as int)),
        decreases alen - i,
    {
        let ca = a.get_char(i);
        let cb = b.get_char(i);
        if (ca as u32) < (cb as u32) {
            return true;
        }
        if (cb as u32) < (ca as u32) {
            return false;
        }
        proof {
            assert(a@.skip(i as int).skip(1) =~= a@.skip(i as int + 1));
            assert(b@.skip(i as int).skip(1) =~= b@.skip(i as int + 1));
        }
        i += 1;
    }
    proof {
        if i == alen {
            assert(a@.skip(i as int).len() == 0);
        } else {
            assert(b@.skip(i as int).len() == 0);
            assert(a@.skip(i as int).len() > 0);
        }
    }
    i == alen
}

/// True for the whitespace characters that terminate command output.
pub open spec fn spec_trailing_ws(c: char) -> bool {
    c == '\n' || c == '\r' || c == ' ' || c == '\t'
}

/// `s` with every trailing whitespace character removed.
pub open spec fn trimmed_end(s: Seq<char>) -> Seq<char>
    decreases s.len(),
{
    if s.len() > 0 && spec_trailing_ws(s.last()) {
        trimmed_end(s.drop_last())
    } else {
        s
    }
}

fn is_trailing_ws(c: char) -> (r: bool)
    ensures
        r == spec_trailing_ws(c),
{
    c == '\n' || c == '\r' || c == ' ' || c == '\t'
}

/// Removes trailing whitespace, as command output carries a final newline.
pub fn trim_end_whitespace(s: &str) -> (r: String)
    ensures
        r@ == trimmed_end(s@),
{
    let mut end = s.unicode_len();
    proof {
        assert(s@.take(s@.len() as int) =~= s@);
    }
    while end > 0 && is_trailing_ws(s.get_char(end - 1))
        invariant
            end <= s@.len(),
            trimmed_end(s@) == trimmed_end(s@.take(end as int)),
        decreases end,
    {
        proof {
            assert(s@.take(end as int).drop_last() =~= s@.take(end as int - 1));
        }
        end -= 1;
    }
    proof {
        if end > 0 {
            assert(!spec_trailing_ws(s@.take(end as int).last()));
        }
    }
    String::from_str(s.substring_char(0, end))
}

/// The position of the first newline in `s`, or `s.len()` if there is none.
pub open spec fn newline_index(s: Seq<char>) -> nat
    decreases s.len(),
{
    if s.len() == 0 {
        0
    } else if s[0] == '\n' {
        0
    } else {
        1 + newline_index(s.skip(1))
    }
}

/// A characterization of `newline_index`: if no newline occurs before `m`
/// and `m` is the length or a newline position, then `m` is the index.
pub proof fn lemma_newline_index_exact(s: Seq<char>, m: nat)
    requires
        m <= s.len(),
        forall|k: int| 0 <= k < m ==> s[k] != '\n',
        m < s.len() ==> s[m as int] == '\n',
    ensures
        newline_index(s) == m,
    decreases s.len(),
{
    if s.len() > 0 && s[0] != '\n' {
        assert forall|k: int| 0 <= k < m - 1 implies s.skip(1)[k] != '\n' by {
            assert(s.skip(1)[k] == s[k + 1]);
        }
        lemma_newline_index_exact(s.skip(1), (m - 1) as nat);
    }
}

/// `s` split at newline characters; a trailing newline yields no final
/// empty line, matching how command output is consumed.
pub open spec fn line_split(s: Seq<char>) -> Seq<Seq<char>>
    decreases s.len(),
{
    if s.len() == 0 {
        Seq::empty()
    } else {
        let i = newline_index(s);
        if i < s.len() {
            seq![s.take(i as int)] + line_split(s.skip(i as int + 1))
        } else {
            seq![s]
        }
    }
}

/// Splits `s` into its newline-separated lines.
pub fn split_lines(s: &str) -> (r: Vec<String>)
    ensures
        r.deep_view() == line_split(s@),
{
    let len = s.unicode_len();
    let mut out: Vec<String> = Vec::new();
    let mut start: usize = 0;
    proof {
        assert(s@.skip(0) =~= s@);
        assert(out.deep_view() + line_split(s@) =~= line_split(s@));
    }
    while start < len
        invariant
            start <= len,
            len == s@.len(),
            out.deep_view() + line_split(s@.skip(start as int)) == line_split(s@),
        decreases len - start,
    {
        let ghost prefix = out.deep_view();
        let ghost suffix = s@.skip(start as int);
        let mut j = start;
        while j < len && s.get_char(j) != '\n'
            invariant
                start <= j <= len,
                len == s@.len(),
                forall|k: int| start <= k < j ==> s@[k] != '\n',
            decreases len - j,
        {
            j += 1;
        }
        proof {
            assert forall|k: int| 0 <= k < j - start implies suffix[k] != '\n' by {
                assert(suffix[k] == s@[k + start]);
            }
            if j < len {
                assert(suffix[j - start] == '\n');
            }
            lemma_newline_index_exact(suffix, (j - start) as nat);
            assert(suffix.take(j - start) =~= s@.subrange(start as int, j as int));
        }
        let line = String::from_str(s.substring_char(start, j));
        out.push(line);
        proof {
            assert(out.deep_view() =~= prefix.push(suffix.take(j - start)));
        }
        if j < len {
            proof {
                assert(suffix.skip(j - start + 1) =~= s@.skip(j as int + 1));
                assert(out.deep_view() + line_split(s@.skip(j as int + 1)) =~= line_split(s@));
            }
            start = j + 1;
        } else {
            proof {
                assert(line_split(suffix) =~= seq![suffix]);
                assert(suffix =~= suffix.take(j - start));
                assert(out.deep_view() + line_split(s@.skip(len as int)) =~= line_split(s@));
            }
            start = len;
        }
    }
    proof {
        assert(line_split(s@.skip(start as int)) =~= Seq::<Seq<char>>::empty());
        assert(out.deep_view() =~= line_split(s@));
    }
    out
}

/// The entries of `items` joined with a comma between each adjacent pair.
pub open spec fn comma_joined(items: Seq<Seq<char>>) -> Seq<char>
    decreases items.len(),
{
    if items.len() == 0 {
        Seq::empty()
    } else if items.len() == 1 {
        items[0]
    } else {
        comma_joined(items.drop_last()) + seq![','] + items.last()
    }
}

/// Joins strings with commas, as remote argument lists are comma-separated.
pub fn join_comma(items: &Vec<String>) -> (r: String)
    ensures
        r@ == comma_joined(items.deep_view()),
{
    let ghost all = items.deep_view();
    let mut r = String::new();
    let mut i: usize = 0;
    while i < items.len()
        invariant
            i <= items.len(),
            all == items.deep_view(),
            all.len() == items.len(),
            r@ == comma_joined(all.take(i as int)),
        decreases items.len() - i,
    {
        if i > 0 {
            r.append(",");
        }
        r.append(items[i].as_str());
        proof {
            reveal_strlit(",");
            assert(","@ =~= seq![',']);
            assert(all.take(i as int + 1).drop_last() =~= all.take(i as int));
            assert(all.take(i as int + 1).last() == all[i as int]);
            if i == 0 {
                assert(r@ =~= comma_joined(all.take(1)));
            }
        }
        i += 1;
    }
    proof {
        assert(all.take(all.len() as int) =~= all);
    }
    r
}

/// Whether some entry of `v` holds exactly the characters of `s`.
pub fn contains_string(v: &Vec<String>, s: &String) -> (r: bool)
    ensures
        r == v.deep_view().contains(s@),
{
    let mut i: usize = 0;
    while i < v.len()
        invariant
            i <= v.len(),
            forall|k: int| 0 <= k < i ==> v.deep_view()[k] != s@,
        decreases v.len() - i,
    {
        if v[i] == *s {
            proof {
                assert(v.deep_view()[i as int] == s@);
            }
            return true;
        }
        i += 1;
    }
    false
}

/// Inserts `item` into a strictly sorted list, keeping it strictly sorted.
pub fn insert_sorted(list: &Vec<String>, item: &String) -> (r: Vec<String>)
    requires
        sorted_strict(list.deep_view()),
        !list.deep_view().contains(item@),
    ensures
        sorted_strict(r.deep_view()),
        r.deep_view().len() == list.deep_view().len() + 1,
        forall|x: Seq<char>|
            r.deep_view().contains(x) <==> (list.deep_view().contains(x) || x == item@),
{
    let ghost dv = list.deep_view();
    let len = list.len();
    let mut k: usize = 0;
    while k < len && str_le(list[k].as_str(), item.as_str())
        invariant
            k <= len,
            len == dv.len(),
            dv == list.deep_view(),
            forall|i: int| 0 <= i < k ==> lex_le(dv[i], item@),
        decreases len - k,
    {
        k += 1;
    }
    proof {
        assert forall|i: int| 0 <= i < k implies lex_lt(dv[i], item@) by {
            assert(dv[i] != item@);
        }
        if k < len {
            lemma_lex_le_total(dv[k as int], item@);
            assert(dv[k as int] != item@);
        }
        assert forall|i: int| k <= i < len implies lex_lt(item@, dv[i]) by {
            if i > k {
                lemma_lex_lt_trans(item@, dv[k as int], dv[i]);
            }
        }
    }
    let mut r: Vec<String> = Vec::new();
    let mut i: usize = 0;
    while i < k
        invariant
            i <= k <= len,
            len == dv.len(),
            dv == list.deep_view(),
            r.deep_view() =~= dv.take(i as int),
        decreases k - i,
    {
        let ghost prev = r.deep_view();
        r.push(list[i].clone());
        proof {
            assert(r.deep_view() =~= prev.push(dv[i as int]));
        }
        i += 1;
    }
    r.push(item.clone());
    proof {
        assert(r.deep_view() =~= dv.take(k as int).push(item@));
    }
    while i < len
        invariant
            k <= i <= len,
            len == dv.len(),
            dv == list.deep_view(),
            r.deep_view() =~= dv.take(k as int).push(item@) + dv.subrange(k as int, i as int),
        decreases len - i,
    {
        let ghost prev = r.deep_view();
        r.push(list[i].clone());
        proof {
            assert(r.deep_view() =~= prev.push(dv[i as int]));
            assert(r.deep_view() =~= dv.take(k as int).push(item@) + dv.subrange(
                k as int,
                i as int + 1,
            ));
        }
        i += 1;
    }
    proof {
        let rv = r.deep_view();
        assert(rv.len() == dv.len() + 1);
        assert forall|a: int, b: int| 0 <= a < b < rv.len() implies lex_lt(rv[a], rv[b]) by {
            let ka = k as int;
            if a < ka && b < ka {
            } else if a < ka && b == ka {
            } else if a < ka && b > ka {
            } else if a == ka && b > ka {
            } else {
                assert(lex_lt(dv[a - 1], dv[b - 1]));
            }
        }
        assert forall|x: Seq<char>| rv.contains(x) implies (dv.contains(x) || x == item@) by {
            let w = choose|w: int| 0 <= w < rv.len() && rv[w] == x;
            if w < k as int {
                assert(dv[w] == x);
            } else if w > k as int {
                assert(dv[w - 1] == x);
            }
        }
        assert forall|x: Seq<char>| dv.contains(x) implies rv.contains(x) by {
            let w = choose|w: int| 0 <= w < dv.len() && dv[w] == x;
            if w < k as int {
                assert(rv[w] == x);
            } else {
                assert(rv[w + 1] == x);
            }
        }
        assert(rv[k as int] == item@);
    }
    r
}

/// Sorts `v` lexicographically and removes duplicates: the result is
/// strictly sorted and holds exactly the entries of `v`.
pub fn sorted_dedup(v: &Vec<String>) -> (r: Vec<String>)
    ensures
        sorted_strict(r.deep_view()),
        r.deep_view().no_duplicates(),
        sorted(r.deep_view()),
        forall|x: Seq<char>| r.deep_view().contains(x) <==> v.deep_view().contains(x),
{
    let ghost dv = v.deep_view();
    let mut out: Vec<String> = Vec::new();
    let mut i: usize = 0;
    while i < v.len()
        invariant
            i <= v.len(),
            dv == v.deep_view(),
            dv.len() == v.len(),
            sorted_strict(out.deep_view()),
            forall|x: Seq<char>| out.deep_view().contains(x) <==> dv.take(i as int).contains(x),
        decreases v.len() - i,
    {
        let ghost prev = out.deep_view();
        if !contains_string(&out, &v[i]) {
            out = insert_sorted(&out, &v[i]);
        }
        proof {
            assert(v@[i as int]@ == dv[i as int]);
            assert forall|x: Seq<char>|
                out.deep_view().contains(x) <==> dv.take(i as int + 1).contains(x) by {
                assert(dv.take(i as int + 1) =~= dv.take(i as int).push(dv[i as int]));
                lemma_seq_contains_after_push(dv.take(i as int), dv[i as int], x);
            }
        }
        i += 1;
    }
    proof {
        assert(dv.take(dv.len() as int) =~= dv);
        lemma_sorted_strict_no_duplicates(out.deep_view());
    }
    out
}

} // verus!
