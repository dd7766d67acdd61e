//! Character-level string helpers with their specifications.
use vstd::prelude::*;

verus! {

/// `p` is a prefix of `s`.
pub open spec fn is_prefix(p: Seq<char>, s: Seq<char>) -> bool {
    p.len() <= s.len() && s.subrange(0, p.len() as int) == p
}

/// `p` is a suffix of `s`.
pub open spec fn is_suffix(p: Seq<char>, s: Seq<char>) -> bool {
    p.len() <= s.len() && s.subrange(s.len() - p.len(), s.len() as int) == p
}

/// `p` occurs in `s` starting at position `i`.
pub open spec fn occurs_at(s: Seq<char>, p: Seq<char>, i: int) -> bool {
    0 <= i && i + p.len() <= s.len() && s.subrange(i, i + p.len()) == p
}

/// `p` occurs somewhere in `s` (the empty sequence occurs everywhere).
pub open spec fn contains_seq(s: Seq<char>, p: Seq<char>) -> bool {
    exists|i: int| occurs_at(s, p, i)
}

/// The characters of a string slice, one per element.
pub fn chars_of(s: &str) -> (v: Vec<char>)
    ensures
        v@ == s@,
{
    let n = s.unicode_len();
    let mut v: Vec<char> = Vec::new();
    let mut i: usize = 0;
    while i < n
        invariant
            n == s@.len(),
            i <= n,
            v@ == s@.subrange(0, i as int),
        decreases n - i,
    {
        v.push(s.get_char(i));
        i = i + 1;
    }
    v
}

/// Collects characters into a `String` (std's `FromIterator<char>` for `String`).
#[verifier::external_body]
pub fn string_of(v: &Vec<char>) -> (s: String)
    ensures
        s@ == v@,
{
    v.iter().collect()
}

/// Whether `p` occurs in `s` at position `i`.
pub fn matches_at(s: &Vec<char>, p: &Vec<char>, i: usize) -> (r: bool)
    ensures
        r == occurs_at(s@, p@, i as int),
{
    if i > s.len() || p.len() > s.len() - i {
        return false;
    }
    let mut k: usize = 0;
    while k < p.len()
        invariant
            i + p@.len() <= s@.len(),
            s@.len() <= usize::MAX,
            k <= p@.len(),
            forall|j: int| 0 <= j < k ==> s@[i + j] == p@[j],
        decreases p.len() - k,
    {
        if s[i + k] != p[k] {
            assert(s@.subrange(i as int, i + p@.len())[k as int] != p@[k as int]);
            return false;
        }
        k = k + 1;
    }
    assert(s@.subrange(i as int, i + p@.len()) =~= p@);
    true
}

/// `s` starts with `p`.
pub fn starts_with(s: &str, p: &str) -> (r: bool)
    ensures
        r == is_prefix(p@, s@),
{
    let sv = chars_of(s);
    let pv = chars_of(p);
    matches_at(&sv, &pv, 0)
}

/// `s` ends with `p`.
pub fn ends_with(s: &str, p: &str) -> (r: bool)
    ensures
        r == is_suffix(p@, s@),
{
    let sv = chars_of(s);
    let pv = chars_of(p);
    if pv.len() > sv.len() {
        return false;
    }
    matches_at(&sv, &pv, sv.len() - pv.len())
}

/// `s` contains `p`.
pub fn contains(s: &str, p: &str) -> (r: bool)
    ensures
        r == contains_seq(s@, p@),
{
    let sv = chars_of(s);
    let pv = chars_of(p);
    if pv.len() > sv.len() {
        assert(forall|i: int| !occurs_at(s@, p@, i));
        return false;
    }
    let last = sv.len() - pv.len();
    let mut i: usize = 0;
    loop
        invariant
            sv@ == s@,
            pv@ == p@,
            last == sv@.len() - pv@.len(),
            i <= last,
            forall|j: int| 0 <= j < i ==> !occurs_at(s@, p@, j),
        decreases last - i,
    {
        if matches_at(&sv, &pv, i) {
            return true;
        }
        if i == last {
            assert(forall|j: int| !occurs_at(s@, p@, j));
            return false;
        }
        i = i + 1;
    }
}

/// Whether two string slices hold the same characters.
pub fn str_eq(a: &str, b: &str) -> (r: bool)
    ensures
        r == (a@ == b@),
{
    let av = chars_of(a);
    let bv = chars_of(b);
    if av.len() != bv.len() {
        return false;
    }
    let r = matches_at(&av, &bv, 0);
    assert(av@.subrange(0, bv@.len() as int) =~= av@);
    proof {
        if r {
            assert(av@ =~= av@.subrange(0, bv@.len() as int));
        }
    }
    r
}

} // verus!

verus! {

/// The decimal digit character of `d` (`0 <= d < 10`).
pub open spec fn digit_char(d: nat) -> char {
    ((d + 48) as u8) as char
}

/// The decimal representation of `n`, without leading zeros.
pub open spec fn dec(n: nat) -> Seq<char>
    decreases n,
{
    if n < 10 {
        seq![digit_char(n)]
    } else {
        dec(n / 10).push(digit_char(n % 10))
    }
}

/// Decimal text of a number, as `format!("{}", n)` writes it.
pub fn u64_to_string(n: u64) -> (s: String)
    ensures
        s@ == dec(n as nat),
{
    let mut digits: Vec<char> = Vec::new();
    let mut m: u64 = n;
    // digits are collected least significant first
    loop
        invariant_except_break
            m <= n,
            dec(n as nat) == dec(m as nat) + digits@.reverse(),
        ensures
            dec(n as nat) == digits@.reverse(),
        decreases m,
    {
        let d = (m % 10) as u8;
        let c = (d + 48) as char;
        if m < 10 {
            let ghost before = digits@;
            digits.push(c);
            assert(digits@.reverse() =~= seq![c] + before.reverse());
            assert(dec(m as nat) =~= seq![c]);
            assert(dec(n as nat) =~= digits@.reverse());
            break;
        }
        let ghost before = digits@;
        digits.push(c);
        assert(dec(m as nat) == dec((m / 10) as nat).push(c));
        assert(digits@.reverse() =~= seq![c] + before.reverse());
        assert(dec((m / 10) as nat) + digits@.reverse() =~= dec((m / 10) as nat).push(c) + before.reverse());
        m = m / 10;
    }
    let ghost all = digits@;
    let mut out: Vec<char> = Vec::new();
    let mut i: usize = digits.len();
    while i > 0
        invariant
            digits@ == all,
            i <= digits@.len(),
            out@ == all.reverse().subrange(0, (all.len() - i) as int),
        decreases i,
    {
        i = i - 1;
        out.push(digits[i]);
        assert(out@ =~= all.reverse().subrange(0, (all.len() - i) as int));
    }
    assert(out@ =~= all.reverse());
    assert(dec(n as nat) == all.reverse());
    string_of(&out)
}

/// Appends `b` to `a`.
pub fn concat(a: &str, b: &str) -> (s: String)
    ensures
        s@ == a@ + b@,
{
    let mut s = String::from_str(a);
    s.append(b);
    s
}

} // verus!

verus! {

/// Lexicographic order on texts by code point, which is the order of
/// Rust's `String` (UTF-8 preserves code point order).
pub open spec fn seq_le(a: Seq<char>, b: Seq<char>) -> bool
    decreases a.len(),
{
    if a.len() == 0 {
        true
    } else if b.len() == 0 {
        false
    } else if (a[0] as u32) < (b[0] as u32) {
        true
    } else if (a[0] as u32) > (b[0] as u32) {
        false
    } else {
        seq_le(a.drop_first(), b.drop_first())
    }
}

/// `seq_le` is total.
pub proof fn lemma_seq_le_total(a: Seq<char>, b: Seq<char>)
    ensures
        seq_le(a, b) || seq_le(b, a),
    decreases a.len(),
{
    if a.len() > 0 && b.len() > 0 && a[0] as u32 == b[0] as u32 {
        lemma_seq_le_total(a.drop_first(), b.drop_first());
    }
}

/// `seq_le` is transitive.
pub proof fn lemma_seq_le_trans(a: Seq<char>, b: Seq<char>, c: Seq<char>)
    requires
        seq_le(a, b),
        seq_le(b, c),
    ensures
        seq_le(a, c),
    decreases a.len(),
{
    if a.len() > 0 && b.len() > 0 && c.len() > 0 && a[0] as u32 == b[0] as u32 && b[0] as u32 == c[0] as u32 {
        lemma_seq_le_trans(a.drop_first(), b.drop_first(), c.drop_first());
    }
}

/// `seq_le` is antisymmetric.
pub proof fn lemma_seq_le_antisym(a: Seq<char>, b: Seq<char>)
    requires
        seq_le(a, b),
        seq_le(b, a),
    ensures
        a == b,
    decreases a.len(),
{
    if a.len() > 0 && b.len() > 0 {
        lemma_seq_le_antisym(a.drop_first(), b.drop_first());
        vstd::utf8::char_u32_cast(a[0], a[0] as u32);
        vstd::utf8::char_u32_cast(b[0], b[0] as u32);
        assert(a =~= seq![a[0]] + a.drop_first());
        assert(b =~= seq![b[0]] + b.drop_first());
    }
}

/// Whether `a` comes before or equals `b` in `String` order.
pub fn str_le(a: &str, b: &str) -> (r: bool)
    ensures
        r == seq_le(a@, b@),
{
    let av = chars_of(a);
    let bv = chars_of(b);
    let mut i: usize = 0;
    assert(a@.skip(0) =~= a@);
    assert(b@.skip(0) =~= b@);
    while i < av.len() && i < bv.len() && av[i] == bv[i]
        invariant
            av@ == a@,
            bv@ == b@,
            i <= av@.len(),
            i <= bv@.len(),
            seq_le(a@, b@) == seq_le(a@.skip(i as int), b@.skip(i as int)),
        decreases av.len() - i,
    {
        assert(a@.skip(i as int).drop_first() =~= a@.skip(i + 1));
        assert(b@.skip(i as int).drop_first() =~= b@.skip(i + 1));
        i = i + 1;
    }
    if i == av.len() {
        true
    } else if i == bv.len() {
        false
    } else {
        let ca = av[i];
        let cb = bv[i];
        proof {
            assert(a@.skip(i as int)[0] == ca);
            assert(b@.skip(i as int)[0] == cb);
            if ca as u32 == cb as u32 {
                vstd::utf8::char_u32_cast(ca, ca as u32);
                vstd::utf8::char_u32_cast(cb, cb as u32);
            }
        }
        (ca as u32) < (cb as u32)
    }
}

/// The texts of a sequence are in `String` order.
pub open spec fn sorted_seqs(s: Seq<Seq<char>>) -> bool {
    forall|i: int, j: int| 0 <= i < j < s.len() ==> seq_le(s[i], s[j])
}

/// Sorts strings into `String` order.
pub fn sort_strings(v: Vec<String>) -> (r: Vec<String>)
    ensures
        sorted_seqs(crate::directory::strs(r@)),
        crate::directory::strs(r@).to_multiset() == crate::directory::strs(v@).to_multiset(),
{
    broadcast use vstd::seq_lib::group_to_multiset_ensures;

    let mut out: Vec<String> = Vec::new();
    let mut i: usize = 0;
    while i < v.len()
        invariant
            i <= v@.len(),
            sorted_seqs(crate::directory::strs(out@)),
            crate::directory::strs(out@).to_multiset() == crate::directory::strs(v@.take(i as int)).to_multiset(),
        decreases v.len() - i,
    {
        let x = &v[i];
        let mut p: usize = 0;
        while p < out.len() && str_le(out[p].as_str(), x.as_str())
            invariant
                p <= out@.len(),
                forall|k: int| 0 <= k < p ==> seq_le(out@[k]@, x@),
            decreases out.len() - p,
        {
            p = p + 1;
        }
        let ghost before = crate::directory::strs(out@);
        out.insert(p, x.clone());
        let ghost after = crate::directory::strs(out@);
        proof {
            assert(after =~= before.insert(p as int, x@));
            assert(p < before.len() ==> !seq_le(before[p as int], x@));
            if p < before.len() {
                lemma_seq_le_total(before[p as int], x@);
            }
            assert forall|a: int, b: int| 0 <= a < b < after.len() implies seq_le(after[a], after[b]) by {
                if b < p {
                } else if a < p && b == p {
                } else if a == p {
                    assert(after[b] == before[b - 1]);
                    if b - 1 > p {
                        lemma_seq_le_trans(x@, before[p as int], before[b - 1]);
                    }
                } else if a < p && b > p {
                    assert(after[b] == before[b - 1]);
                    if b - 1 > p {
                        lemma_seq_le_trans(x@, before[p as int], before[b - 1]);
                    }
                    lemma_seq_le_trans(after[a], x@, after[b]);
                } else {
                    assert(after[a] == before[a - 1]);
                    assert(after[b] == before[b - 1]);
                }
            }
            assert(after.remove(p as int) =~= before);
            assert(after[p as int] == x@);
            after.to_multiset_ensures();
            assert(after.remove(p as int).to_multiset() =~= after.to_multiset().remove(after[p as int]));
            assert(after.to_multiset().remove(x@) =~= before.to_multiset());
            assert(after.contains(x@));
            assert(after.to_multiset().count(x@) > 0);
            assert(after.to_multiset() =~= before.to_multiset().insert(x@));
            assert(v@.take(i + 1) =~= v@.take(i as int).push(v@[i as int]));
            assert(crate::directory::strs(v@.take(i + 1)) =~= crate::directory::strs(v@.take(i as int)).push(x@));
            let pre = crate::directory::strs(v@.take(i as int));
            pre.to_multiset_ensures();
            assert(pre.push(x@).to_multiset() =~= pre.to_multiset().insert(x@));
        }
        i = i + 1;
    }
    assert(v@.take(v@.len() as int) =~= v@);
    out
}

} // verus!

verus! {

/// The texts joined with `sep` between consecutive ones.
pub open spec fn join_seqs(items: Seq<Seq<char>>, sep: Seq<char>) -> Seq<char>
    decreases items.len(),
{
    if items.len() == 0 {
        Seq::empty()
    } else if items.len() == 1 {
        items[0]
    } else {
        join_seqs(items.drop_last(), sep) + sep + items.last()
    }
}

/// Joins strings with a separator, as `[String]::join` does.
pub fn join(items: &Vec<String>, sep: &str) -> (r: String)
    ensures
        r@ == join_seqs(crate::directory::strs(items@), sep@),
{
    let ghost all = crate::directory::strs(items@);
    let mut r = String::new();
    let mut i: usize = 0;
    while i < items.len()
        invariant
            i <= items@.len(),
            all == crate::directory::strs(items@),
            r@ == join_seqs(all.take(i as int), sep@),
        decreases items.len() - i,
    {
        assert(all.take(i + 1).drop_last() =~= all.take(i as int));
        if i > 0 {
            r.append(sep);
        }
        r.append(items[i].as_str());
        i = i + 1;
    }
    assert(all.take(items@.len() as int) =~= all);
    r
}

} // verus!

verus! {

/// `i` is the first position where `p` occurs in `s`.
pub open spec fn is_first_occurrence(s: Seq<char>, p: Seq<char>, i: int) -> bool {
    occurs_at(s, p, i) && forall|j: int| 0 <= j < i ==> !occurs_at(s, p, j)
}

/// `i` is the last position where `p` occurs in `s`.
pub open spec fn is_last_occurrence(s: Seq<char>, p: Seq<char>, i: int) -> bool {
    occurs_at(s, p, i) && forall|j: int| i < j <= s.len() ==> !occurs_at(s, p, j)
}

/// The first position where `p` occurs in `s`.
pub fn find(s: &Vec<char>, p: &Vec<char>) -> (r: Option<usize>)
    ensures
        match r {
            Some(i) => is_first_occurrence(s@, p@, i as int),
            None => !contains_seq(s@, p@),
        },
{
    if p.len() > s.len() {
        return None;
    }
    let last = s.len() - p.len();
    let mut i: usize = 0;
    loop
        invariant
            last == s@.len() - p@.len(),
            i <= last,
            forall|j: int| 0 <= j < i ==> !occurs_at(s@, p@, j),
        decreases last - i,
    {
        if matches_at(s, p, i) {
            return Some(i);
        }
        if i == last {
            return None;
        }
        i = i + 1;
    }
}

/// The last position where `p` occurs in `s`.
pub fn rfind(s: &Vec<char>, p: &Vec<char>) -> (r: Option<usize>)
    ensures
        match r {
            Some(i) => is_last_occurrence(s@, p@, i as int),
            None => !contains_seq(s@, p@),
        },
{
    if p.len() > s.len() {
        return None;
    }
    let mut i: usize = s.len() - p.len();
    loop
        invariant
            i <= s@.len() - p@.len(),
            forall|j: int| i < j <= s@.len() ==> !occurs_at(s@, p@, j),
        decreases i,
    {
        if matches_at(s, p, i) {
            return Some(i);
        }
        if i == 0 {
            return None;
        }
        i = i - 1;
    }
}

/// The text before and after the first occurrence of `sep` in `s`.
pub open spec fn spec_split_once(s: Seq<char>, sep: Seq<char>) -> Option<(Seq<char>, Seq<char>)> {
    if contains_seq(s, sep) {
        let i = choose|i: int| is_first_occurrence(s, sep, i);
        Some((s.take(i), s.skip(i + sep.len())))
    } else {
        None
    }
}

/// The first position of an occurrence is unique.
pub proof fn lemma_first_occurrence_unique(s: Seq<char>, p: Seq<char>, i: int)
    requires
        is_first_occurrence(s, p, i),
    ensures
        forall|j: int| is_first_occurrence(s, p, j) ==> j == i,
{
}

/// Splits `s` at the first occurrence of `sep`, as `str::split_once` does.
pub fn split_once(s: &str, sep: &str) -> (r: Option<(String, String)>)
    ensures
        match r {
            Some((a, b)) => spec_split_once(s@, sep@) == Some((a@, b@)),
            None => spec_split_once(s@, sep@) is None,
        },
{
    let sv = chars_of(s);
    let pv = chars_of(sep);
    match find(&sv, &pv) {
        Some(i) => {
            proof {
                lemma_first_occurrence_unique(s@, sep@, i as int);
            }
            assert(is_first_occurrence(sv@, pv@, i as int));
            assert(occurs_at(sv@, pv@, i as int));
            assert(i + pv@.len() <= sv@.len());
            let n = sv.len();
            let end = i + pv.len();
            let a = s.substring_char(0, i);
            let b = s.substring_char(end, n);
            assert(a@ =~= s@.take(i as int));
            assert(b@ =~= s@.skip(i + sep@.len()));
            Some((String::from_str(a), String::from_str(b)))
        },
        None => None,
    }
}

} // verus!

verus! {

/// `s` without leading and trailing white space, as `str::trim` returns it.
pub uninterp spec fn spec_trim(s: Seq<char>) -> Seq<char>;

/// `str::trim`: the text without leading and trailing white space (Unicode
/// `White_Space`), copied into a `String`.
#[verifier::external_body]
pub fn trim(s: &str) -> (r: String)
    ensures
        r@ == spec_trim(s@),
{
    s.trim().to_string()
}

/// The lowercase text of `s`, as `str::to_lowercase` returns it.
pub uninterp spec fn spec_lowercase(s: Seq<char>) -> Seq<char>;

/// `str::to_lowercase`: the text with each character mapped by Unicode's
/// lowercase mapping.
#[verifier::external_body]
pub fn to_lowercase(s: &str) -> (r: String)
    ensures
        r@ == spec_lowercase(s@),
{
    s.to_lowercase()
}

/// The pieces of `s` between the separator characters `seps` (empty pieces
/// included), as `str::split` with a set of characters yields them.
pub open spec fn split_on(s: Seq<char>, seps: Seq<char>) -> Seq<Seq<char>>
    decreases s.len(),
{
    if s.len() == 0 {
        seq![Seq::empty()]
    } else {
        let pieces = split_on(s.drop_last(), seps);
        if seps.contains(s.last()) {
            pieces.push(Seq::empty())
        } else {
            pieces.update(pieces.len() - 1, pieces.last().push(s.last()))
        }
    }
}

/// `split_on` yields at least one piece.
pub proof fn lemma_split_on_nonempty(s: Seq<char>, seps: Seq<char>)
    ensures
        split_on(s, seps).len() > 0,
    decreases s.len(),
{
    if s.len() > 0 {
        lemma_split_on_nonempty(s.drop_last(), seps);
    }
}

/// Splits `s` at each character of `seps`.
pub fn split_chars(s: &str, seps: &Vec<char>) -> (r: Vec<String>)
    ensures
        crate::directory::strs(r@) == split_on(s@, seps@),
{
    let sv = chars_of(s);
    let mut pieces: Vec<String> = Vec::new();
    let mut cur: Vec<char> = Vec::new();
    let mut i: usize = 0;
    while i < sv.len()
        invariant
            i <= sv@.len(),
            sv@ == s@,
            crate::directory::strs(pieces@).push(cur@) == split_on(s@.take(i as int), seps@),
        decreases sv.len() - i,
    {
        let c = sv[i];
        assert(s@.take(i + 1).drop_last() =~= s@.take(i as int));
        let mut is_sep = false;
        let mut k: usize = 0;
        while k < seps.len()
            invariant
                k <= seps@.len(),
                is_sep == exists|j: int| 0 <= j < k && seps@[j] == c,
            decreases seps.len() - k,
        {
            if seps[k] == c {
                is_sep = true;
            }
            k = k + 1;
        }
        let ghost before = crate::directory::strs(pieces@);
        let ghost old_cur = cur@;
        if is_sep {
            let piece = string_of(&cur);
            pieces.push(piece);
            cur = Vec::new();
            assert(crate::directory::strs(pieces@) =~= before.push(old_cur));
            assert(crate::directory::strs(pieces@).push(cur@) =~= before.push(old_cur).push(Seq::empty()));
        } else {
            cur.push(c);
            assert(crate::directory::strs(pieces@).push(cur@) =~= before.push(old_cur).update(
                before.len() as int,
                old_cur.push(c),
            ));
        }
        i = i + 1;
    }
    assert(s@.take(sv@.len() as int) =~= s@);
    let ghost before = crate::directory::strs(pieces@);
    let last = string_of(&cur);
    pieces.push(last);
    assert(crate::directory::strs(pieces@) =~= before.push(cur@));
    pieces
}

} // verus!

verus! {

/// Every character of `s` is an ASCII digit.
pub open spec fn all_digits(s: Seq<char>) -> bool {
    forall|i: int| 0 <= i < s.len() ==> '0' <= #[trigger] s[i] <= '9'
}

/// The number the decimal digits `s` denote.
pub open spec fn digits_value(s: Seq<char>) -> nat
    decreases s.len(),
{
    if s.len() == 0 {
        0
    } else {
        digits_value(s.drop_last()) * 10 + ((s.last() as u32) - 48) as nat
    }
}

/// The digits after an optional leading `+`.
pub open spec fn unsigned_digits(s: Seq<char>) -> Seq<char> {
    if s.len() > 0 && s[0] == '+' { s.drop_first() } else { s }
}

/// The `u64` that `s` denotes as `u64::from_str` reads it: an optional `+`,
/// then one or more ASCII digits, within range.
pub open spec fn spec_parse_u64(s: Seq<char>) -> Option<u64> {
    let d = unsigned_digits(s);
    if d.len() > 0 && all_digits(d) && digits_value(d) <= u64::MAX {
        Some(digits_value(d) as u64)
    } else {
        None
    }
}

/// The value of the first `k` digits, when the first `k` are digits.
fn digit_value(c: char) -> (d: u64)
    requires
        '0' <= c <= '9',
    ensures
        d == (c as u32) - 48,
        d < 10,
{
    ((c as u32) - 48) as u64
}

/// Reads digits, `None` when one is not a digit or the value exceeds `limit`.
fn read_digits(d: &Vec<char>, start: usize, limit: u64) -> (r: Option<u64>)
    requires
        start <= d@.len(),
    ensures
        ({
            let s = d@.skip(start as int);
            match r {
                Some(v) => all_digits(s) && digits_value(s) <= limit && v == digits_value(s),
                None => !all_digits(s) || digits_value(s) > limit,
            }
        }),
{
    let ghost s = d@.skip(start as int);
    let n = d.len();
    let mut v: u64 = 0;
    let mut i: usize = start;
    while i < n
        invariant
            start <= i <= n,
            n == d@.len(),
            s == d@.skip(start as int),
            all_digits(s.take(i - start)),
            v == digits_value(s.take(i - start)),
            v <= limit,
        decreases n - i,
    {
        let c = d[i];
        assert(s.take(i + 1 - start).drop_last() =~= s.take(i - start));
        assert(s[i - start] == c);
        if !('0' <= c && c <= '9') {
            assert(!all_digits(s)) by {
                assert(s[i - start] == c);
            }
            return None;
        }
        let dv = digit_value(c);
        if dv > limit || v > (limit - dv) / 10 {
            // v * 10 + dv > limit, and no further digit makes the value smaller
            assert(digits_value(s.take(i + 1 - start)) == v * 10 + dv);
            if dv <= limit {
                assert(v * 10 + dv > limit) by (nonlinear_arith)
                    requires
                        v > (limit - dv) / 10,
                        dv <= limit,
                ;
            }
            proof {
                lemma_digits_value_prefix_le(s, (i + 1 - start) as int);
            }
            return None;
        }
        assert(v * 10 + dv <= limit) by (nonlinear_arith)
            requires
                v <= (limit - dv) / 10,
                dv < 10,
        ;
        v = v * 10 + dv;
        i = i + 1;
    }
    assert(s.take(n - start) =~= s);
    Some(v)
}

/// A prefix of digits has at most the value of the whole.
pub proof fn lemma_digits_value_prefix_le(s: Seq<char>, k: int)
    requires
        0 <= k <= s.len(),
        all_digits(s.take(k)),
    ensures
        all_digits(s) ==> digits_value(s.take(k)) <= digits_value(s),
    decreases s.len() - k,
{
    if k < s.len() && all_digits(s) {
        assert(all_digits(s.take(k + 1)));
        lemma_digits_value_prefix_le(s, k + 1);
        assert(s.take(k + 1).drop_last() =~= s.take(k));
    } else if k == s.len() {
        assert(s.take(k) =~= s);
    }
}

/// Reads a `u64` as `u64::from_str` does.
pub fn parse_u64(s: &str) -> (r: Option<u64>)
    ensures
        r == spec_parse_u64(s@),
{
    let d = chars_of(s);
    let start: usize = if d.len() > 0 && d[0] == '+' { 1 } else { 0 };
    assert(d@.skip(start as int) =~= unsigned_digits(s@));
    if start >= d.len() {
        return None;
    }
    read_digits(&d, start, u64::MAX)
}

/// The `i64` that `s` denotes as `i64::from_str` reads it: an optional `+`
/// or `-`, then one or more ASCII digits, within range.
pub open spec fn spec_parse_i64(s: Seq<char>) -> Option<i64> {
    if s.len() > 0 && s[0] == '-' {
        let d = s.drop_first();
        if d.len() > 0 && all_digits(d) && digits_value(d) <= 9223372036854775808 {
            Some((0 - digits_value(d)) as i64)
        } else {
            None
        }
    } else {
        let d = unsigned_digits(s);
        if d.len() > 0 && all_digits(d) && digits_value(d) <= i64::MAX {
            Some(digits_value(d) as i64)
        } else {
            None
        }
    }
}

/// Reads an `i64` as `i64::from_str` does.
pub fn parse_i64(s: &str) -> (r: Option<i64>)
    ensures
        r == spec_parse_i64(s@),
{
    let d = chars_of(s);
    if d.len() > 0 && d[0] == '-' {
        assert(d@.skip(1) =~= s@.drop_first());
        if d.len() == 1 {
            return None;
        }
        match read_digits(&d, 1, 9223372036854775808) {
            Some(v) => {
                if v == 9223372036854775808 {
                    Some(i64::MIN)
                } else {
                    Some(0 - (v as i64))
                }
            },
            None => None,
        }
    } else {
        let start: usize = if d.len() > 0 && d[0] == '+' { 1 } else { 0 };
        assert(d@.skip(start as int) =~= unsigned_digits(s@));
        if start >= d.len() {
            return None;
        }
        match read_digits(&d, start, 9223372036854775807) {
            Some(v) => Some(v as i64),
            None => None,
        }
    }
}

} // verus!
