//! Mail forwarding rules, the settings they are stored in, and the per-domain
//! Sieve scripts that carry them out.
use vstd::prelude::*;

use crate::directory::strs;
use crate::text::{
    chars_of, concat, contains_seq, ends_with, find, is_first_occurrence, is_last_occurrence, is_suffix,
    lemma_first_occurrence_unique, lemma_seq_le_antisym, lemma_seq_le_total, lemma_seq_le_trans, rfind, seq_le,
    sort_strings, sorted_seqs, split_chars, split_on, spec_lowercase, spec_trim, str_eq, str_le, string_of,
    to_lowercase, trim, u64_to_string, dec,
};

verus! {

/// A single email forwarding rule.
#[derive(Debug, Default, Clone, PartialEq, Eq)]
pub struct ForwardRule {
    /// Source address (e.g. `alice@example.com`).
    pub from: String,
    /// One or more destination addresses.
    pub to: Vec<String>,
    /// When true a copy is also delivered to the local mailbox.
    pub keep_copy: bool,
}

/// The part of an address after its first `@`, empty when there is none.
pub open spec fn spec_domain(from: Seq<char>) -> Seq<char> {
    if contains_seq(from, seq!['@']) {
        let i = choose|i: int| is_first_occurrence(from, seq!['@'], i);
        from.skip(i + 1)
    } else {
        Seq::empty()
    }
}

impl ForwardRule {
    /// Domain part of the source address (e.g. `example.com`).
    pub fn domain(&self) -> (r: &str)
        ensures
            r@ == spec_domain(self.from@),
    {
        let fv = chars_of(self.from.as_str());
        let mut at: Vec<char> = Vec::new();
        at.push('@');
        assert(at@ =~= seq!['@']);
        match find(&fv, &at) {
            Some(i) => {
                proof {
                    lemma_first_occurrence_unique(self.from@, seq!['@'], i as int);
                }
                let n = fv.len();
                let r = self.from.as_str().substring_char(i + 1, n);
                assert(r@ =~= self.from@.skip(i + 1));
                r
            },
            None => {
                proof {
                    reveal_strlit("");
                }
                ""
            },
        }
    }
}

/// Canonical settings key prefix for a forward rule.
pub fn forward_prefix(from: &str) -> (r: String)
    ensures
        r@ == "mail.forward."@ + from@,
{
    concat("mail.forward.", from)
}

/// The Sieve line that redirects to `dest`, keeping a copy or not.
pub open spec fn redirect_line(keep_copy: bool, dest: Seq<char>) -> Seq<char> {
    if keep_copy {
        "  redirect :copy \""@ + dest + "\";\n"@
    } else {
        "  redirect \""@ + dest + "\";\n"@
    }
}

/// One redirect line per destination.
pub open spec fn redirect_lines(keep_copy: bool, dests: Seq<Seq<char>>) -> Seq<char>
    decreases dests.len(),
{
    if dests.len() == 0 {
        Seq::empty()
    } else {
        redirect_lines(keep_copy, dests.drop_last()) + redirect_line(keep_copy, dests.last())
    }
}

/// The Sieve block of one rule: a test on the envelope recipient, then its redirects.
pub open spec fn rule_block(r: ForwardRule) -> Seq<char> {
    "if envelope :is \"to\" \""@ + r.from@ + "\" {\n"@ + redirect_lines(r.keep_copy, strs(r.to@)) + "}\n\n"@
}

/// The blocks of the rules, in order.
pub open spec fn rule_blocks(rules: Seq<ForwardRule>) -> Seq<char>
    decreases rules.len(),
{
    if rules.len() == 0 {
        Seq::empty()
    } else {
        rule_blocks(rules.drop_last()) + rule_block(rules.last())
    }
}

/// The rules of a domain that have destinations.
pub open spec fn selects(domain: Seq<char>) -> spec_fn(ForwardRule) -> bool {
    |r: ForwardRule| spec_domain(r.from@) == domain && r.to@.len() > 0
}

/// The header of every forwarding script.
pub open spec fn sieve_header() -> Seq<char> {
    "require [\"redirect\", \"envelope\", \"copy\"];\n\n"@
}

/// The script of a domain: empty when none of its rules has a destination,
/// otherwise the header and the block of each such rule.
pub open spec fn spec_sieve_script(domain: Seq<char>, rules: Seq<ForwardRule>) -> Seq<char> {
    let selected = rules.filter(selects(domain));
    if selected.len() == 0 {
        Seq::empty()
    } else {
        sieve_header() + rule_blocks(selected)
    }
}

/// Appends the block of one rule.
fn push_rule_block(s: &mut String, rule: &ForwardRule)
    ensures
        final(s)@ == old(s)@ + rule_block(*rule),
{
    let ghost dests = strs(rule.to@);
    s.append("if envelope :is \"to\" \"");
    s.append(rule.from.as_str());
    s.append("\" {\n");
    let ghost start = s@;
    let mut i: usize = 0;
    while i < rule.to.len()
        invariant
            i <= rule.to@.len(),
            dests == strs(rule.to@),
            s@ == start + redirect_lines(rule.keep_copy, dests.take(i as int)),
        decreases rule.to.len() - i,
    {
        assert(dests.take(i + 1).drop_last() =~= dests.take(i as int));
        let dest = &rule.to[i];
        if rule.keep_copy {
            s.append("  redirect :copy \"");
        } else {
            s.append("  redirect \"");
        }
        s.append(dest.as_str());
        s.append("\";\n");
        i = i + 1;
    }
    assert(dests.take(rule.to@.len() as int) =~= dests);
    s.append("}\n\n");
}

/// Generate a per-domain Sieve script from a list of rules.
///
/// Rules belonging to other domains are silently ignored, so callers
/// can pass the full list and this function handles the filtering.
pub fn build_sieve_script(domain: &str, rules: &[ForwardRule]) -> (r: String)
    ensures
        r@ == spec_sieve_script(domain@, rules@),
{
    let ghost pred = selects(domain@);
    let mut any = false;
    let mut s = String::from_str("require [\"redirect\", \"envelope\", \"copy\"];\n\n");
    let mut i: usize = 0;
    while i < rules.len()
        invariant
            i <= rules@.len(),
            pred == selects(domain@),
            any == (rules@.take(i as int).filter(pred).len() > 0),
            s@ == sieve_header() + rule_blocks(rules@.take(i as int).filter(pred)),
        decreases rules.len() - i,
    {
        let ghost prefix = rules@.take(i as int);
        assert(rules@.take(i + 1) =~= prefix.push(rules@[i as int]));
        proof {
            prefix.lemma_filter_push(rules@[i as int], pred);
        }
        let rule = &rules[i];
        let d = rule.domain();
        if crate::text::str_eq(d, domain) && rule.to.len() > 0 {
            push_rule_block(&mut s, rule);
            assert(prefix.filter(pred).push(*rule).drop_last() =~= prefix.filter(pred));
            any = true;
        }
        i = i + 1;
    }
    assert(rules@.take(rules@.len() as int) =~= rules@);
    if !any {
        return String::new();
    }
    s
}

/// Settings key of a domain's script: the domain with `_` in place of `.`.
pub open spec fn spec_script_id(domain: Seq<char>) -> Seq<char> {
    domain.map_values(|c: char| if c == '.' { '_' } else { c })
}

/// Sieve script settings key for a domain (underscores replace dots).
pub fn domain_script_id(domain: &str) -> (r: String)
    ensures
        r@ == spec_script_id(domain@),
{
    let dv = chars_of(domain);
    let mut out: Vec<char> = Vec::new();
    let mut i: usize = 0;
    while i < dv.len()
        invariant
            i <= dv@.len(),
            dv@ == domain@,
            out@ == spec_script_id(dv@.take(i as int)),
        decreases dv.len() - i,
    {
        let c = dv[i];
        out.push(if c == '.' { '_' } else { c });
        assert(spec_script_id(dv@.take(i + 1)) =~= spec_script_id(dv@.take(i as int)).push(
            if c == '.' { '_' } else { c },
        ));
        i = i + 1;
    }
    assert(dv@.take(dv@.len() as int) =~= dv@);
    string_of(&out)
}


// ----- settings ------------------------------------------------------------

/// The position of the last `.to.` in a key.
pub open spec fn last_to(key: Seq<char>) -> int {
    choose|pos: int| is_last_occurrence(key, ".to."@, pos)
}

/// A destination's index: one or more decimal digits.
pub open spec fn is_index(s: Seq<char>) -> bool {
    s.len() > 0 && crate::text::all_digits(s)
}

/// What a settings key (relative to `mail.forward`) addresses. Keys are
/// `<from>.<field>`, the field being `keep-copy` or `to.<N>`: a key that ends
/// in `.keep-copy` names the keep-copy flag of what stands before it; else a
/// key whose last `.to.` is followed by an index names a destination of what
/// stands before that `.to.` (`true` marks a destination); any other key
/// names nothing.
pub open spec fn spec_parse_key(key: Seq<char>) -> Option<(Seq<char>, bool)> {
    if is_suffix(".keep-copy"@, key) {
        Some((key.take(key.len() - ".keep-copy"@.len()), false))
    } else if contains_seq(key, ".to."@) && is_index(key.skip(last_to(key) + 4)) {
        Some((key.take(last_to(key)), true))
    } else {
        None
    }
}

/// The view of a settings entry.
pub open spec fn entry_view(e: (String, String)) -> (Seq<char>, Seq<char>) {
    (e.0@, e.1@)
}

/// The key addresses the rule of source address `f`.
pub open spec fn key_names(key: Seq<char>, f: Seq<char>) -> bool {
    spec_parse_key(key) matches Some((g, _)) && g == f
}

/// The source addresses the settings name.
pub open spec fn setting_froms(raw: Seq<(String, String)>) -> Set<Seq<char>> {
    Set::new(|f: Seq<char>| exists|i: int| 0 <= i < raw.len() && #[trigger] key_names(raw[i].0@, f))
}

/// The entry is a destination of `f`.
pub open spec fn is_dest_of(f: Seq<char>) -> spec_fn((String, String)) -> bool {
    |e: (String, String)| spec_parse_key(e.0@) == Some((f, true))
}

/// The destinations of `f`, in the order of the settings.
pub open spec fn dests_of(raw: Seq<(String, String)>, f: Seq<char>) -> Seq<Seq<char>> {
    raw.filter(is_dest_of(f)).map_values(|e: (String, String)| e.1@)
}

/// The keep-copy flag of `f`: its last keep-copy entry equals `true`, and
/// the flag is set when there is no such entry.
pub open spec fn keep_of(raw: Seq<(String, String)>, f: Seq<char>) -> bool
    decreases raw.len(),
{
    if raw.len() == 0 {
        true
    } else if spec_parse_key(raw.last().0@) == Some((f, false)) {
        raw.last().1@ == "true"@
    } else {
        keep_of(raw.drop_last(), f)
    }
}

/// The source addresses of rules, in order.
pub open spec fn froms(rules: Seq<ForwardRule>) -> Seq<Seq<char>> {
    rules.map_values(|r: ForwardRule| r.from@)
}

/// Whether the characters of `v` from `start` on are an index.
fn index_from(v: &Vec<char>, start: usize) -> (r: bool)
    requires
        start <= v@.len(),
    ensures
        r == is_index(v@.skip(start as int)),
{
    if start >= v.len() {
        return false;
    }
    let mut i = start;
    while i < v.len()
        invariant
            start <= i <= v@.len(),
            forall|j: int| start <= j < i ==> '0' <= #[trigger] v@[j] <= '9',
        decreases v.len() - i,
    {
        let c = v[i];
        if !('0' <= c && c <= '9') {
            assert(v@.skip(start as int)[i - start] == c);
            return false;
        }
        i = i + 1;
    }
    assert forall|k: int| 0 <= k < v@.skip(start as int).len() implies '0' <= #[trigger] v@.skip(start as int)[k] <= '9' by {
        assert(v@.skip(start as int)[k] == v@[start + k]);
    }
    true
}

/// Whether a key addresses a rule, and which (see [`spec_parse_key`]).
fn parse_key(key: &str) -> (r: Option<(String, bool)>)
    ensures
        match r {
            Some((f, is_to)) => spec_parse_key(key@) == Some((f@, is_to)),
            None => spec_parse_key(key@) is None,
        },
{
    proof {
        reveal_strlit(".keep-copy");
        reveal_strlit(".to.");
    }
    let kv = chars_of(key);
    if ends_with(key, ".keep-copy") {
        let n = kv.len();
        let f = key.substring_char(0, n - 10);
        assert(f@ =~= key@.take(key@.len() - 10));
        return Some((String::from_str(f), false));
    }
    let pat = chars_of(".to.");
    match rfind(&kv, &pat) {
        Some(pos) => {
            assert forall|p: int| is_last_occurrence(key@, ".to."@, p) implies p == pos by {
                if p < pos {
                    assert(crate::text::occurs_at(key@, ".to."@, pos as int));
                } else if p > pos {
                }
            }
            assert(contains_seq(key@, ".to."@)) by {
                assert(crate::text::occurs_at(key@, ".to."@, pos as int));
            }
            assert(last_to(key@) == pos);
            let klen = kv.len();
            assert(pos + 4 <= klen);
            if index_from(&kv, pos + 4) {
                let f = key.substring_char(0, pos);
                assert(f@ =~= key@.take(pos as int));
                Some((String::from_str(f), true))
            } else {
                None
            }
        },
        None => None,
    }
}

/// A copy of a list of strings.
fn clone_strings(v: &Vec<String>) -> (r: Vec<String>)
    ensures
        strs(r@) == strs(v@),
{
    let mut r: Vec<String> = Vec::new();
    let mut i: usize = 0;
    while i < v.len()
        invariant
            i <= v@.len(),
            strs(r@) == strs(v@).take(i as int),
        decreases v.len() - i,
    {
        let ghost before = strs(r@);
        let c = v[i].clone();
        r.push(c);
        assert(strs(r@) =~= before.push(v@[i as int]@));
        assert(strs(v@).take(i + 1) =~= strs(v@).take(i as int).push(v@[i as int]@));
        i = i + 1;
    }
    assert(strs(v@).take(v@.len() as int) =~= strs(v@));
    r
}

/// The rules the settings describe are well recorded after the first entries `raw`.
pub open spec fn rules_match(rules: Seq<ForwardRule>, raw: Seq<(String, String)>) -> bool {
    &&& sorted_seqs(froms(rules))
    &&& froms(rules).no_duplicates()
    &&& froms(rules).to_set() == setting_froms(raw)
    &&& forall|k: int|
        0 <= k < rules.len() ==> strs((#[trigger] rules[k]).to@) == dests_of(raw, rules[k].from@) && rules[k].keep_copy
            == keep_of(raw, rules[k].from@)
}

/// An entry that does not address `f` leaves its destinations and flag unchanged.
proof fn lemma_entry_other(raw: Seq<(String, String)>, e: (String, String), f: Seq<char>)
    requires
        !(key_names(e.0@, f)),
    ensures
        dests_of(raw.push(e), f) == dests_of(raw, f),
        keep_of(raw.push(e), f) == keep_of(raw, f),
{
    raw.lemma_filter_push(e, is_dest_of(f));
    assert(raw.push(e).drop_last() =~= raw);
}

/// A source address the settings do not name has no destination and the flag set.
proof fn lemma_unnamed(raw: Seq<(String, String)>, f: Seq<char>)
    requires
        !setting_froms(raw).contains(f),
    ensures
        dests_of(raw, f) == Seq::<Seq<char>>::empty(),
        keep_of(raw, f),
    decreases raw.len(),
{
    if raw.len() > 0 {
        let rest = raw.drop_last();
        assert(raw =~= rest.push(raw.last()));
        assert(!setting_froms(rest).contains(f)) by {
            if setting_froms(rest).contains(f) {
                let i = choose|i: int| 0 <= i < rest.len() && #[trigger] key_names(rest[i].0@, f);
                assert(raw[i] == rest[i]);
            }
        }
        lemma_unnamed(rest, f);
        assert(!(key_names(raw.last().0@, f))) by {
            if key_names(raw.last().0@, f) {
                assert(key_names(raw[raw.len() - 1].0@, f));
            }
        }
        lemma_entry_other(rest, raw.last(), f);
    } else {
        assert(raw.filter(is_dest_of(f)) =~= Seq::empty()) by {
            reveal(Seq::filter);
        }
    }
}

/// The named addresses after one more entry.
proof fn lemma_froms_push(raw: Seq<(String, String)>, e: (String, String))
    ensures
        setting_froms(raw.push(e)) == match spec_parse_key(e.0@) {
            Some((g, _)) => setting_froms(raw).insert(g),
            None => setting_froms(raw),
        },
{
    let n = raw.push(e);
    assert forall|f: Seq<char>| setting_froms(n).contains(f) <==> (match spec_parse_key(e.0@) {
        Some((g, _)) => setting_froms(raw).insert(g),
        None => setting_froms(raw),
    }).contains(f) by {
        if setting_froms(n).contains(f) {
            let i = choose|i: int| 0 <= i < n.len() && #[trigger] key_names(n[i].0@, f);
            if i < raw.len() {
                assert(n[i] == raw[i]);
            }
        }
        if setting_froms(raw).contains(f) {
            let i = choose|i: int| 0 <= i < raw.len() && #[trigger] key_names(raw[i].0@, f);
            assert(n[i] == raw[i]);
            assert(key_names(n[i].0@, f));
        }
        if key_names(e.0@, f) {
            assert(n[raw.len() as int] == e);
            assert(key_names(n[raw.len() as int].0@, f));
        }
    }
    assert(setting_froms(n) =~= match spec_parse_key(e.0@) {
        Some((g, _)) => setting_froms(raw).insert(g),
        None => setting_froms(raw),
    });
}

/// Parse a flat settings map (relative to prefix `mail.forward`) into rules:
/// one rule per source address the keys name, in `String` order of the
/// source addresses, each with its destinations in `String` order and its
/// keep-copy flag (set unless a `keep-copy` entry says otherwise).
#[verifier::rlimit(60)]
pub fn parse_forward_settings(raw: &Vec<(String, String)>) -> (rules: Vec<ForwardRule>)
    ensures
        sorted_seqs(froms(rules@)),
        froms(rules@).no_duplicates(),
        froms(rules@).to_set() == setting_froms(raw@),
        forall|k: int|
            0 <= k < rules@.len() ==> {
                &&& sorted_seqs(strs((#[trigger] rules@[k]).to@))
                &&& strs(rules@[k].to@).to_multiset() == dests_of(raw@, rules@[k].from@).to_multiset()
                &&& rules@[k].keep_copy == keep_of(raw@, rules@[k].from@)
            },
{
    let mut rules: Vec<ForwardRule> = Vec::new();
    let mut i: usize = 0;
    assert(setting_froms(raw@.take(0)) =~= Set::empty());
    assert(froms(rules@) =~= Seq::empty());
    assert(froms(rules@).to_set() =~= Set::empty());
    while i < raw.len()
        invariant
            i <= raw@.len(),
            rules_match(rules@, raw@.take(i as int)),
        decreases raw.len() - i,
    {
        let ghost prefix = raw@.take(i as int);
        let ghost e = raw@[i as int];
        let ghost next = raw@.take(i + 1);
        assert(next =~= prefix.push(e));
        proof {
            lemma_froms_push(prefix, e);
        }
        let key = &raw[i].0;
        let value = &raw[i].1;
        match parse_key(key.as_str()) {
            None => {
                proof {
                    assert forall|k: int| 0 <= k < rules@.len() implies strs((#[trigger] rules@[k]).to@) == dests_of(
                        next,
                        rules@[k].from@,
                    ) && rules@[k].keep_copy == keep_of(next, rules@[k].from@) by {
                        lemma_entry_other(prefix, e, rules@[k].from@);
                    }
                }
            },
            Some((from, is_to)) => {
                let ghost old_rules = rules@;
                let ghost fs = froms(old_rules);
                // position of the first rule whose source does not come before `from`
                let mut p: usize = 0;
                while p < rules.len() && str_le(rules[p].from.as_str(), from.as_str()) && !str_eq(
                    rules[p].from.as_str(),
                    from.as_str(),
                )
                    invariant
                        p <= rules@.len(),
                        rules@ == old_rules,
                        fs == froms(old_rules),
                        forall|k: int| 0 <= k < p ==> seq_le(fs[k], from@) && fs[k] != from@,
                    decreases rules.len() - p,
                {
                    p = p + 1;
                }
                let found = p < rules.len() && str_eq(rules[p].from.as_str(), from.as_str());
                let ghost later_after = p < fs.len() ==> (fs[p as int] == from@ || !seq_le(fs[p as int], from@));
                assert(p < fs.len() ==> fs[p as int] == rules@[p as int].from@);
                let mut rule = if found {
                    rules.remove(p)
                } else {
                    ForwardRule { from: from.clone(), to: Vec::new(), keep_copy: true }
                };
                proof {
                    if !found {
                        assert(!setting_froms(prefix).contains(from@)) by {
                            if setting_froms(prefix).contains(from@) {
                                assert(fs.to_set().contains(from@));
                                let k = choose|k: int| 0 <= k < fs.len() && fs[k] == from@;
                                if k >= p {
                                    if k > p {
                                        lemma_seq_le_total(fs[p as int], from@);
                                        lemma_seq_le_antisym(fs[p as int], fs[k]);
                                    }
                                }
                            }
                        }
                        lemma_unnamed(prefix, from@);
                        assert(strs(rule.to@) =~= Seq::empty());
                    }
                }
                let ghost before_to = strs(rule.to@);
                if is_to {
                    rule.to.push(value.clone());
                } else {
                    rule.keep_copy = str_eq(value.as_str(), "true");
                }
                proof {
                    prefix.lemma_filter_push(e, is_dest_of(from@));
                    assert(prefix.push(e).drop_last() =~= prefix);
                    if is_to {
                        assert(strs(rule.to@) =~= before_to.push(e.1@));
                    }
                    assert(strs(rule.to@) == dests_of(next, from@));
                    assert(rule.keep_copy == keep_of(next, from@));
                }
                let ghost mid = rules@;
                rules.insert(p, rule);
                proof {
                    let nf = froms(rules@);
                    if found {
                        assert(mid =~= old_rules.remove(p as int));
                        assert(rules@ =~= old_rules.update(p as int, rule));
                        assert(nf =~= fs);
                        assert(fs.to_set().insert(from@) =~= fs.to_set()) by {
                            assert(fs[p as int] == from@);
                        }
                    } else {
                        assert(rules@ =~= old_rules.insert(p as int, rule));
                        assert(nf =~= fs.insert(p as int, from@));
                        assert(p < fs.len() ==> !seq_le(fs[p as int], from@));
                        if p < fs.len() {
                            lemma_seq_le_total(fs[p as int], from@);
                        }
                        assert forall|a: int, b: int| 0 <= a < b < nf.len() implies seq_le(nf[a], nf[b]) by {
                            if a < p && b == p {
                            } else if a == p {
                                if b - 1 > p {
                                    lemma_seq_le_trans(from@, fs[p as int], fs[b - 1]);
                                }
                            } else if a < p && b > p {
                                if b - 1 > p {
                                    lemma_seq_le_trans(from@, fs[p as int], fs[b - 1]);
                                }
                                lemma_seq_le_trans(nf[a], from@, nf[b]);
                            } else if a > p {
                                assert(nf[a] == fs[a - 1]);
                                assert(nf[b] == fs[b - 1]);
                            }
                        }
                        assert forall|a: int, b: int| 0 <= a < b < nf.len() implies nf[a] != nf[b] by {
                            if a < p && b == p {
                            } else if a == p && b > p {
                                if nf[b] == from@ {
                                    lemma_seq_le_antisym(fs[p as int], from@);
                                    if b - 1 > p {
                                        lemma_seq_le_trans(from@, fs[p as int], fs[b - 1]);
                                        lemma_seq_le_antisym(fs[p as int], fs[b - 1]);
                                    }
                                }
                            } else if a > p {
                                assert(nf[a] == fs[a - 1]);
                                assert(nf[b] == fs[b - 1]);
                            } else if a < p && b > p {
                                assert(nf[b] == fs[b - 1]);
                            }
                        }
                        assert forall|x: Seq<char>| nf.to_set().contains(x) <==> fs.to_set().insert(from@).contains(x) by {
                            if nf.contains(x) {
                                let q = choose|q: int| 0 <= q < nf.len() && nf[q] == x;
                                if q < p {
                                    assert(fs[q] == x);
                                } else if q > p {
                                    assert(fs[q - 1] == x);
                                }
                            }
                            if fs.contains(x) {
                                let q = choose|q: int| 0 <= q < fs.len() && fs[q] == x;
                                if q < p {
                                    assert(nf[q] == x);
                                } else {
                                    assert(nf[q + 1] == x);
                                }
                            }
                            if x == from@ {
                                assert(nf[p as int] == x);
                            }
                        }
                    }
                    assert(nf.to_set() =~= setting_froms(next));
                    assert forall|k: int| 0 <= k < rules@.len() implies strs((#[trigger] rules@[k]).to@) == dests_of(
                        next,
                        rules@[k].from@,
                    ) && rules@[k].keep_copy == keep_of(next, rules@[k].from@) by {
                        if k != p {
                            let j = if found || k < p { k } else { k - 1 };
                            assert(rules@[k] == old_rules[j]);
                            assert(fs[j] != from@) by {
                                if found {
                                    assert(fs.no_duplicates());
                                    assert(fs[p as int] == from@);
                                } else {
                                    assert(!fs.contains(from@)) by {
                                        if fs.contains(from@) {
                                            let q = choose|q: int| 0 <= q < fs.len() && fs[q] == from@;
                                            assert(fs.to_set().contains(from@));
                                        }
                                    }
                                }
                            }
                            lemma_entry_other(prefix, e, rules@[k].from@);
                        }
                    }
                }
            },
        }
        i = i + 1;
    }
    assert(raw@.take(raw@.len() as int) =~= raw@);

    // destinations in `String` order
    let mut out: Vec<ForwardRule> = Vec::new();
    let mut k: usize = 0;
    while k < rules.len()
        invariant
            k <= rules@.len(),
            rules_match(rules@, raw@),
            out@.len() == k,
            froms(out@) == froms(rules@).take(k as int),
            forall|j: int|
                0 <= j < k ==> {
                    &&& sorted_seqs(strs((#[trigger] out@[j]).to@))
                    &&& strs(out@[j].to@).to_multiset() == dests_of(raw@, out@[j].from@).to_multiset()
                    &&& out@[j].keep_copy == keep_of(raw@, out@[j].from@)
                },
        decreases rules.len() - k,
    {
        let r = &rules[k];
        let to = sort_strings(clone_strings(&r.to));
        out.push(ForwardRule { from: r.from.clone(), to, keep_copy: r.keep_copy });
        assert(froms(out@) =~= froms(rules@).take(k + 1));
        k = k + 1;
    }
    assert(froms(rules@).take(rules@.len() as int) =~= froms(rules@));
    out
}


// ----- script updates ------------------------------------------------------

/// A change to the server settings.
#[derive(Debug, Clone, PartialEq, Eq)]
pub enum UpdateSettings {
    Delete { keys: Vec<String> },
    Clear { prefix: String, filter: Option<String> },
    Insert { prefix: Option<String>, values: Vec<(String, String)>, assert_empty: bool },
}

/// The settings key (below `sieve.trusted.scripts`) of a domain's script.
pub open spec fn script_key(domain: Seq<char>) -> Seq<char> {
    spec_script_id(domain) + ".contents"@
}

/// `u` stores the script of `domain` built from `rules`, or deletes it when
/// that script is empty.
pub open spec fn is_script_update(u: UpdateSettings, domain: Seq<char>, rules: Seq<ForwardRule>) -> bool {
    let content = spec_sieve_script(domain, rules);
    if content.len() == 0 {
        u matches UpdateSettings::Delete { keys } && strs(keys@) == seq!["sieve.trusted.scripts."@ + script_key(domain)]
    } else {
        u matches UpdateSettings::Insert { prefix, values, assert_empty } && !assert_empty && (prefix matches Some(
            p,
        ) && p@ == "sieve.trusted.scripts"@) && values@.len() == 1 && values@[0].0@ == script_key(domain)
            && values@[0].1@ == content
    }
}

/// The settings changes that regenerate (or delete) the Sieve script of each
/// affected domain, one per domain, in order.
pub fn sieve_updates(domains: &Vec<String>, all_rules: &[ForwardRule]) -> (updates: Vec<UpdateSettings>)
    ensures
        updates@.len() == domains@.len(),
        forall|i: int| 0 <= i < domains@.len() ==> is_script_update(#[trigger] updates@[i], domains@[i]@, all_rules@),
{
    let mut updates: Vec<UpdateSettings> = Vec::new();
    let mut i: usize = 0;
    while i < domains.len()
        invariant
            i <= domains@.len(),
            updates@.len() == i,
            forall|j: int| 0 <= j < i ==> is_script_update(#[trigger] updates@[j], domains@[j]@, all_rules@),
        decreases domains.len() - i,
    {
        let domain = domains[i].as_str();
        let script_id = domain_script_id(domain);
        let key = concat(script_id.as_str(), ".contents");
        let content = build_sieve_script(domain, all_rules);
        if content.as_str().is_empty() {
            let mut keys: Vec<String> = Vec::new();
            keys.push(concat("sieve.trusted.scripts.", key.as_str()));
            assert(strs(keys@) =~= seq!["sieve.trusted.scripts."@ + script_key(domain@)]);
            updates.push(UpdateSettings::Delete { keys });
        } else {
            let mut values: Vec<(String, String)> = Vec::new();
            values.push((key, content));
            updates.push(
                UpdateSettings::Insert {
                    prefix: Some(String::from_str("sieve.trusted.scripts")),
                    values,
                    assert_empty: false,
                },
            );
        }
        i = i + 1;
    }
    updates
}


// ----- editing -------------------------------------------------------------

/// An address as the editor keeps it: trimmed, then lowercased.
pub open spec fn clean_address(s: Seq<char>) -> Seq<char> {
    spec_lowercase(spec_trim(s))
}

/// The characters that separate destinations in the editor.
pub open spec fn destination_separators() -> Seq<char> {
    seq![',', '\n', ';']
}

/// The destinations typed in the editor: the pieces between separators,
/// cleaned, that contain an `@`.
pub open spec fn spec_destinations(input: Seq<char>) -> Seq<Seq<char>> {
    split_on(input, destination_separators()).map_values(|s: Seq<char>| clean_address(s)).filter(
        |s: Seq<char>| contains_seq(s, seq!['@']),
    )
}

/// The settings of a rule, relative to its prefix: `to.<i>` for each
/// destination, then `keep-copy`.
pub open spec fn spec_rule_values(to: Seq<Seq<char>>, keep_copy: bool) -> Seq<(Seq<char>, Seq<char>)> {
    Seq::new(to.len(), |i: int| ("to."@ + dec(i as nat), to[i])).push(
        ("keep-copy"@, if keep_copy { "true"@ } else { "false"@ }),
    )
}

/// Why the editor refuses to save a rule.
#[derive(Debug, Clone, Copy, PartialEq, Eq, Structural)]
pub enum ForwardSaveError {
    /// The source is empty or has no `@`.
    InvalidFrom,
    /// No destination has an `@`.
    NoDestination,
}

impl ForwardSaveError {
    /// The message shown for the error.
    pub fn message(&self) -> (r: &'static str)
        ensures
            r@ == match self {
                ForwardSaveError::InvalidFrom => "From address must be a valid email address."@,
                ForwardSaveError::NoDestination => "At least one valid destination address is required."@,
            },
    {
        match self {
            ForwardSaveError::InvalidFrom => "From address must be a valid email address.",
            ForwardSaveError::NoDestination => "At least one valid destination address is required.",
        }
    }
}

/// What saving a rule sends: the settings changes, and the domains whose
/// scripts must be rebuilt.
#[derive(Debug, Clone, PartialEq, Eq)]
pub struct ForwardSavePlan {
    pub updates: Vec<UpdateSettings>,
    pub affected: Vec<String>,
}

/// `u` clears the settings below `prefix` and a dot.
pub open spec fn is_clear(u: UpdateSettings, prefix: Seq<char>) -> bool {
    u matches UpdateSettings::Clear { prefix: p, filter } && p@ == prefix + "."@ && filter is None
}

/// `u` inserts `values` below `prefix`.
pub open spec fn is_insert(u: UpdateSettings, prefix: Seq<char>, values: Seq<(Seq<char>, Seq<char>)>) -> bool {
    u matches UpdateSettings::Insert { prefix: p, values: vs, assert_empty } && !assert_empty && (p matches Some(
        q,
    ) && q@ == prefix) && vs@.map_values(|e: (String, String)| entry_view(e)) == values
}

/// The part of an address after its first `@`.
pub fn address_domain(address: &str) -> (r: String)
    ensures
        r@ == spec_domain(address@),
{
    let rule = ForwardRule { from: String::from_str(address), to: Vec::new(), keep_copy: false };
    String::from_str(rule.domain())
}

/// The settings of a rule relative to its prefix (see [`spec_rule_values`]).
fn rule_values(to: &Vec<String>, keep_copy: bool) -> (r: Vec<(String, String)>)
    ensures
        r@.map_values(|e: (String, String)| entry_view(e)) == spec_rule_values(strs(to@), keep_copy),
{
    let ghost want = spec_rule_values(strs(to@), keep_copy);
    let mut r: Vec<(String, String)> = Vec::new();
    let mut i: usize = 0;
    while i < to.len()
        invariant
            i <= to@.len(),
            want == spec_rule_values(strs(to@), keep_copy),
            r@.len() == i,
            forall|j: int| 0 <= j < i ==> entry_view(#[trigger] r@[j]) == want[j],
        decreases to.len() - i,
    {
        let digits = u64_to_string(i as u64);
        r.push((concat("to.", digits.as_str()), to[i].clone()));
        i = i + 1;
    }
    r.push((String::from_str("keep-copy"), String::from_str(if keep_copy { "true" } else { "false" })));
    assert(r@.map_values(|e: (String, String)| entry_view(e)) =~= want);
    r
}

/// Checks an edited rule and plans its saving: clear the old source's
/// settings when the source was renamed, clear and rewrite the new source's
/// settings, and rebuild the scripts of the old and the new domain.
pub fn plan_forward_save(from_input: &str, to_input: &str, keep_copy: bool, old_from: &str, creating: bool) -> (r:
    Result<ForwardSavePlan, ForwardSaveError>)
    ensures
        ({
            let from = clean_address(from_input@);
            let dests = spec_destinations(to_input@);
            let renamed = !creating && old_from@ != from;
            match r {
                Err(ForwardSaveError::InvalidFrom) => from.len() == 0 || !contains_seq(from, seq!['@']),
                Err(ForwardSaveError::NoDestination) => from.len() > 0 && contains_seq(from, seq!['@']) && dests.len()
                    == 0,
                Ok(plan) => {
                    &&& from.len() > 0 && contains_seq(from, seq!['@']) && dests.len() > 0
                    &&& plan.updates@.len() == if renamed { 3nat } else { 2nat }
                    &&& renamed ==> is_clear(plan.updates@[0], "mail.forward."@ + old_from@)
                    &&& is_clear(plan.updates@[plan.updates@.len() - 2], "mail.forward."@ + from)
                    &&& is_insert(
                        plan.updates@[plan.updates@.len() - 1],
                        "mail.forward."@ + from,
                        spec_rule_values(dests, keep_copy),
                    )
                    &&& strs(plan.affected@) == if renamed && spec_domain(old_from@) != spec_domain(from) {
                        seq![spec_domain(old_from@), spec_domain(from)]
                    } else {
                        seq![spec_domain(from)]
                    }
                },
            }
        }),
{
    let from_val = to_lowercase(trim(from_input).as_str());
    let mut seps: Vec<char> = Vec::new();
    seps.push(',');
    seps.push('\n');
    seps.push(';');
    assert(seps@ =~= destination_separators());
    let pieces = split_chars(to_input, &seps);
    let ghost cleaned = strs(pieces@).map_values(|s: Seq<char>| clean_address(s));
    let ghost keep = |s: Seq<char>| contains_seq(s, seq!['@']);
    let mut to_val: Vec<String> = Vec::new();
    let mut i: usize = 0;
    while i < pieces.len()
        invariant
            i <= pieces@.len(),
            cleaned == strs(pieces@).map_values(|s: Seq<char>| clean_address(s)),
            keep == (|s: Seq<char>| contains_seq(s, seq!['@'])),
            strs(to_val@) == cleaned.take(i as int).filter(keep),
        decreases pieces.len() - i,
    {
        assert(cleaned.take(i + 1) =~= cleaned.take(i as int).push(cleaned[i as int]));
        proof {
            cleaned.take(i as int).lemma_filter_push(cleaned[i as int], keep);
        }
        let addr = to_lowercase(trim(pieces[i].as_str()).as_str());
        assert(strs(pieces@)[i as int] == pieces@[i as int]@);
        assert(cleaned[i as int] == addr@);
        proof {
            reveal_strlit("@");
        }
        assert("@"@ =~= seq!['@']);
        let ghost before = strs(to_val@);
        if crate::text::contains(addr.as_str(), "@") {
            to_val.push(addr);
            assert(strs(to_val@) =~= before.push(cleaned[i as int]));
        }
        i = i + 1;
    }
    assert(cleaned.take(pieces@.len() as int) =~= cleaned);
    proof {
        reveal_strlit("@");
    }
    assert("@"@ =~= seq!['@']);
    if from_val.as_str().is_empty() || !crate::text::contains(from_val.as_str(), "@") {
        return Err(ForwardSaveError::InvalidFrom);
    }
    if to_val.len() == 0 {
        return Err(ForwardSaveError::NoDestination);
    }
    let mut updates: Vec<UpdateSettings> = Vec::new();
    let mut affected: Vec<String> = Vec::new();
    let new_domain = address_domain(from_val.as_str());
    let renamed = !creating && !str_eq(old_from, from_val.as_str());
    if renamed {
        let old_domain = address_domain(old_from);
        let differs = !str_eq(old_domain.as_str(), new_domain.as_str());
        if differs {
            affected.push(old_domain);
        }
        let prefix = forward_prefix(old_from);
        updates.push(UpdateSettings::Clear { prefix: concat(prefix.as_str(), "."), filter: None });
    }
    let ghost before = strs(affected@);
    affected.push(new_domain);
    assert(strs(affected@) =~= before.push(spec_domain(from_val@)));
    let prefix = forward_prefix(from_val.as_str());
    updates.push(UpdateSettings::Clear { prefix: concat(prefix.as_str(), "."), filter: None });
    let values = rule_values(&to_val, keep_copy);
    updates.push(UpdateSettings::Insert { prefix: Some(prefix), values, assert_empty: false });
    Ok(ForwardSavePlan { updates, affected })
}


// ----- reading back what was saved -----------------------------------------

/// The settings `values` stored below the prefix of source `from`, as a
/// listing relative to `mail.forward` shows them: `<from>.<key>`.
pub open spec fn stored_below(from: Seq<char>, values: Seq<(Seq<char>, Seq<char>)>) -> Seq<(Seq<char>, Seq<char>)> {
    values.map_values(|e: (Seq<char>, Seq<char>)| (from + "."@ + e.0, e.1))
}

/// Decimal digits are digits.
proof fn lemma_dec_digits(n: nat)
    ensures
        dec(n).len() > 0,
        forall|k: int| 0 <= k < dec(n).len() ==> '0' <= #[trigger] dec(n)[k] <= '9',
    decreases n,
{
    if n >= 10 {
        lemma_dec_digits(n / 10);
    }
}

/// A filter that keeps everything keeps the sequence.
proof fn lemma_filter_keeps_all<A>(s: Seq<A>, pred: spec_fn(A) -> bool)
    requires
        forall|i: int| 0 <= i < s.len() ==> pred(#[trigger] s[i]),
    ensures
        s.filter(pred) == s,
    decreases s.len(),
{
    if s.len() > 0 {
        let rest = s.drop_last();
        lemma_filter_keeps_all(rest, pred);
        rest.lemma_filter_push(s.last(), pred);
        assert(rest.push(s.last()) =~= s);
    } else {
        assert(s.filter(pred) =~= s) by {
            reveal(Seq::filter);
        }
    }
}

/// The key of a destination of `from` names `from` as a destination.
proof fn lemma_dest_key(from: Seq<char>, i: nat)
    ensures
        spec_parse_key(from + "."@ + ("to."@ + dec(i))) == Some((from, true)),
{
    reveal_strlit(".");
    reveal_strlit("to.");
    reveal_strlit(".to.");
    reveal_strlit(".keep-copy");
    lemma_dec_digits(i);
    let d = dec(i);
    let key = from + "."@ + ("to."@ + d);
    let n = from.len() as int;
    assert(key =~= from + ".to."@ + d);
    assert(key.subrange(n, n + 4) =~= ".to."@);
    assert(crate::text::occurs_at(key, ".to."@, n));
    assert forall|j: int| n < j <= key.len() implies !crate::text::occurs_at(key, ".to."@, j) by {
        if crate::text::occurs_at(key, ".to."@, j) {
            assert(key.subrange(j, j + 4)[0] == '.');
            assert(key[j] == '.');
            if j == n + 1 {
                assert(key[j] == 't');
            } else if j == n + 2 {
                assert(key[j] == 'o');
            } else if j == n + 3 {
                assert(key.subrange(j, j + 4)[1] == 't');
                assert(key[j + 1] == d[0]);
            } else {
                assert(key[j] == d[j - n - 4]);
            }
        }
    }
    assert(crate::text::is_last_occurrence(key, ".to."@, n));
    assert forall|p: int| crate::text::is_last_occurrence(key, ".to."@, p) implies p == n by {
    }
    assert(last_to(key) == n);
    assert(key.skip(n + 4) =~= d);
    assert(!is_suffix(".keep-copy"@, key)) by {
        if is_suffix(".keep-copy"@, key) {
            assert(key[key.len() - 1] == ".keep-copy"@[9]);
            assert(key[key.len() - 1] == d[d.len() - 1]);
        }
    }
    assert(key.take(n) =~= from);
}

/// The key of the keep-copy flag of `from` names `from` as a flag.
proof fn lemma_keep_key(from: Seq<char>)
    ensures
        spec_parse_key(from + "."@ + "keep-copy"@) == Some((from, false)),
{
    reveal_strlit(".");
    reveal_strlit("keep-copy");
    reveal_strlit(".keep-copy");
    let key = from + "."@ + "keep-copy"@;
    assert(key =~= from + ".keep-copy"@);
    assert(key.subrange(key.len() - 10, key.len() as int) =~= ".keep-copy"@);
    assert(key.take(key.len() - 10) =~= from);
}

/// What saving writes is read back: the settings a saved rule leaves below
/// `mail.forward.<from>`, listed relative to `mail.forward`, name that one
/// source, with the saved destinations in order and the saved flag.
pub proof fn lemma_saved_rule_reads_back(
    from: Seq<char>,
    to: Seq<Seq<char>>,
    keep_copy: bool,
    raw: Seq<(String, String)>,
)
    requires
        raw.map_values(|e: (String, String)| entry_view(e)) == stored_below(from, spec_rule_values(to, keep_copy)),
    ensures
        setting_froms(raw) == Set::<Seq<char>>::empty().insert(from),
        dests_of(raw, from) == to,
        keep_of(raw, from) == keep_copy,
{
    let vals = spec_rule_values(to, keep_copy);
    let n = to.len() as int;
    assert(raw.len() == n + 1) by {
        assert(raw.map_values(|e: (String, String)| entry_view(e)).len() == raw.len());
    }
    assert forall|i: int| 0 <= i < raw.len() implies (#[trigger] raw[i]).0@ == from + "."@ + vals[i].0 && raw[i].1@
        == vals[i].1 by {
        assert(raw.map_values(|e: (String, String)| entry_view(e))[i] == entry_view(raw[i]));
    }
    assert forall|i: int| 0 <= i < n implies spec_parse_key((#[trigger] raw[i]).0@) == Some((from, true)) && raw[i].1@
        == to[i] by {
        lemma_dest_key(from, i as nat);
    }
    lemma_keep_key(from);
    assert(spec_parse_key(raw[n].0@) == Some((from, false)));
    // the named sources
    assert forall|f: Seq<char>| setting_froms(raw).contains(f) <==> f == from by {
        if f == from {
            assert(key_names(raw[n].0@, f));
        }
    }
    assert(setting_froms(raw) =~= Set::<Seq<char>>::empty().insert(from));
    // the destinations
    let dests = raw.take(n);
    assert(raw =~= dests.push(raw[n]));
    lemma_filter_keeps_all(dests, is_dest_of(from));
    dests.lemma_filter_push(raw[n], is_dest_of(from));
    assert(dests_of(raw, from) =~= to);
    // the flag
    reveal_strlit("true");
    reveal_strlit("false");
    assert(raw.last() == raw[n]);
    assert(vals[n].1 == if keep_copy { "true"@ } else { "false"@ });
    assert("false"@.len() != "true"@.len());
    assert(keep_of(raw, from) == (raw.last().1@ == "true"@));
}

/// A source set of one element is the source of exactly one rule.
pub proof fn lemma_one_source_one_rule(rules: Seq<ForwardRule>, from: Seq<char>)
    requires
        froms(rules).no_duplicates(),
        froms(rules).to_set() == Set::<Seq<char>>::empty().insert(from),
    ensures
        rules.len() == 1,
        rules[0].from@ == from,
{
    let fs = froms(rules);
    assert(fs.to_set().contains(from));
    let k = choose|k: int| 0 <= k < fs.len() && fs[k] == from;
    assert forall|j: int| 0 <= j < fs.len() implies #[trigger] fs[j] == from by {
        assert(fs.to_set().contains(fs[j]));
    }
    if fs.len() > 1 {
        assert(fs[0] == from && fs[1] == from);
    }
    if fs.len() == 0 {
        assert(fs.to_set().contains(from));
    }
}


/// A rule whose source lies in another domain, wherever it stands in the
/// list, leaves a domain's script as it is: each script depends on the rules
/// of its own domain only.
pub proof fn lemma_other_domain_ignored(
    domain: Seq<char>,
    before: Seq<ForwardRule>,
    rule: ForwardRule,
    after: Seq<ForwardRule>,
)
    requires
        spec_domain(rule.from@) != domain,
    ensures
        spec_sieve_script(domain, before + seq![rule] + after) == spec_sieve_script(domain, before + after),
{
    let pred = selects(domain);
    Seq::filter_distributes_over_add(before + seq![rule], after, pred);
    Seq::filter_distributes_over_add(before, seq![rule], pred);
    Seq::filter_distributes_over_add(before, after, pred);
    assert(seq![rule].filter(pred) =~= Seq::<ForwardRule>::empty()) by {
        reveal(Seq::filter);
        assert(!pred(rule));
        assert(seq![rule].last() == rule);
        assert(seq![rule].drop_last() =~= Seq::<ForwardRule>::empty());
        assert(Seq::<ForwardRule>::empty().filter(pred) =~= Seq::<ForwardRule>::empty());
    }
    assert(before.filter(pred) + Seq::<ForwardRule>::empty() =~= before.filter(pred));
}

// ----- deleting and loading ------------------------------------------------

/// What deleting rules sends: one clear per source, the domains whose scripts
/// must be rebuilt (each once), and the rules that remain.
#[derive(Debug, Clone, PartialEq, Eq)]
pub struct ForwardDeletePlan {
    pub updates: Vec<UpdateSettings>,
    pub affected: Vec<String>,
    pub remaining: Vec<ForwardRule>,
}

/// The rule's source is not one of `items`.
pub open spec fn kept_rule(items: Seq<Seq<char>>) -> spec_fn(ForwardRule) -> bool {
    |r: ForwardRule| !items.contains(r.from@)
}

/// Plans the deletion of the rules of the sources `items`.
pub fn plan_forward_delete(items: &Vec<String>, all_rules: &Vec<ForwardRule>) -> (plan: ForwardDeletePlan)
    ensures
        plan.updates@.len() == items@.len(),
        forall|i: int| 0 <= i < items@.len() ==> is_clear(#[trigger] plan.updates@[i], "mail.forward."@ + items@[i]@),
        strs(plan.affected@).no_duplicates(),
        strs(plan.affected@).to_set() == strs(items@).map_values(|f: Seq<char>| spec_domain(f)).to_set(),
        plan.remaining@.map_values(|r: ForwardRule| rule_view(r)) == all_rules@.filter(kept_rule(strs(items@))).map_values(
            |r: ForwardRule| rule_view(r),
        ),
{
    let ghost doms = strs(items@).map_values(|f: Seq<char>| spec_domain(f));
    let mut updates: Vec<UpdateSettings> = Vec::new();
    let mut affected: Vec<String> = Vec::new();
    let mut i: usize = 0;
    while i < items.len()
        invariant
            i <= items@.len(),
            doms == strs(items@).map_values(|f: Seq<char>| spec_domain(f)),
            updates@.len() == i,
            forall|j: int| 0 <= j < i ==> is_clear(#[trigger] updates@[j], "mail.forward."@ + items@[j]@),
            strs(affected@).no_duplicates(),
            strs(affected@).to_set() == doms.take(i as int).to_set(),
        decreases items.len() - i,
    {
        let domain = address_domain(items[i].as_str());
        assert(doms[i as int] == domain@);
        assert(doms.take(i + 1) =~= doms.take(i as int).push(domain@));
        proof {
            doms.take(i as int).lemma_push_to_set_commute(domain@);
        }
        let ghost before = strs(affected@);
        if !crate::directory::vec_contains_str(&affected, &domain) {
            affected.push(domain);
            proof {
                assert(strs(affected@) =~= before.push(doms[i as int]));
                before.lemma_push_to_set_commute(doms[i as int]);
                assert forall|a: int, b: int| 0 <= a < b < strs(affected@).len() implies strs(affected@)[a] != strs(
                    affected@,
                )[b] by {
                    if b == before.len() {
                        assert(before.contains(before[a]));
                    }
                }
            }
        } else {
            assert(doms.take(i as int).to_set().insert(domain@) =~= doms.take(i as int).to_set());
        }
        let prefix = forward_prefix(items[i].as_str());
        updates.push(UpdateSettings::Clear { prefix: concat(prefix.as_str(), "."), filter: None });
        i = i + 1;
    }
    assert(doms.take(items@.len() as int) =~= doms);
    let ghost pred = kept_rule(strs(items@));
    let mut remaining: Vec<ForwardRule> = Vec::new();
    let mut k: usize = 0;
    while k < all_rules.len()
        invariant
            k <= all_rules@.len(),
            pred == kept_rule(strs(items@)),
            remaining@.map_values(|r: ForwardRule| rule_view(r)) == all_rules@.take(k as int).filter(pred).map_values(
                |r: ForwardRule| rule_view(r),
            ),
        decreases all_rules.len() - k,
    {
        assert(all_rules@.take(k + 1) =~= all_rules@.take(k as int).push(all_rules@[k as int]));
        proof {
            all_rules@.take(k as int).lemma_filter_push(all_rules@[k as int], pred);
        }
        let r = &all_rules[k];
        let ghost before = remaining@;
        if !crate::directory::vec_contains_str(items, &r.from) {
            let c = copy_rule(r);
            remaining.push(c);
            assert(remaining@.map_values(|r: ForwardRule| rule_view(r)) =~= before.map_values(|r: ForwardRule| rule_view(r)).push(rule_view(*r)));
            assert(all_rules@.take(k as int).filter(pred).push(*r).map_values(|r: ForwardRule| rule_view(r)) =~= all_rules@.take(k as int).filter(pred).map_values(|r: ForwardRule| rule_view(r)).push(rule_view(*r)));
        }
        k = k + 1;
    }
    assert(all_rules@.take(all_rules@.len() as int) =~= all_rules@);
    ForwardDeletePlan { updates, affected, remaining }
}

/// Plans the deletion of every rule: one clear of all forwarding settings,
/// the domains of all the rules (each once), whose scripts must be rebuilt,
/// and no rule left.
pub fn plan_forward_delete_all(all_rules: &Vec<ForwardRule>) -> (plan: ForwardDeletePlan)
    ensures
        plan.updates@.len() == 1,
        is_clear(plan.updates@[0], "mail.forward"@),
        strs(plan.affected@).no_duplicates(),
        strs(plan.affected@).to_set() == froms(all_rules@).map_values(|f: Seq<char>| spec_domain(f)).to_set(),
        plan.remaining@.len() == 0,
{
    let ghost doms = froms(all_rules@).map_values(|f: Seq<char>| spec_domain(f));
    let mut affected: Vec<String> = Vec::new();
    let mut i: usize = 0;
    while i < all_rules.len()
        invariant
            i <= all_rules@.len(),
            doms == froms(all_rules@).map_values(|f: Seq<char>| spec_domain(f)),
            strs(affected@).no_duplicates(),
            strs(affected@).to_set() == doms.take(i as int).to_set(),
        decreases all_rules.len() - i,
    {
        let domain = address_domain(all_rules[i].from.as_str());
        assert(doms[i as int] == domain@);
        assert(doms.take(i + 1) =~= doms.take(i as int).push(domain@));
        proof {
            doms.take(i as int).lemma_push_to_set_commute(domain@);
        }
        let ghost before = strs(affected@);
        if !crate::directory::vec_contains_str(&affected, &domain) {
            affected.push(domain);
            proof {
                assert(strs(affected@) =~= before.push(doms[i as int]));
                before.lemma_push_to_set_commute(doms[i as int]);
                assert forall|a: int, b: int| 0 <= a < b < strs(affected@).len() implies strs(affected@)[a] != strs(
                    affected@,
                )[b] by {
                    if b == before.len() {
                        assert(before.contains(before[a]));
                    }
                }
            }
        } else {
            assert(doms.take(i as int).to_set().insert(domain@) =~= doms.take(i as int).to_set());
        }
        i = i + 1;
    }
    assert(doms.take(all_rules@.len() as int) =~= doms);
    let mut updates: Vec<UpdateSettings> = Vec::new();
    let prefix = String::from_str("mail.forward.");
    proof {
        reveal_strlit("mail.forward.");
        reveal_strlit("mail.forward");
        reveal_strlit(".");
        assert(prefix@ =~= "mail.forward"@ + "."@);
    }
    updates.push(UpdateSettings::Clear { prefix, filter: None });
    ForwardDeletePlan { updates, affected, remaining: Vec::new() }
}

// ----- listing -------------------------------------------------------------

/// Rules shown on each page of the forwarding list.
pub const FORWARD_PAGE_SIZE: u32 = 10;

/// The search text `f` occurs, ignoring case, in the rule's source or in
/// one of its destinations.
pub open spec fn rule_mentions(r: ForwardRule, f: Seq<char>) -> bool {
    contains_seq(spec_lowercase(r.from@), spec_lowercase(f)) || exists|i: int|
        0 <= i < r.to@.len() && contains_seq(spec_lowercase(#[trigger] r.to@[i]@), spec_lowercase(f))
}

/// Whether the list shows a rule: every rule without a filter, else the
/// rules the filter occurs in.
pub open spec fn rule_shown(r: ForwardRule, filter: Option<Seq<char>>) -> bool {
    match filter {
        Some(f) => rule_mentions(r, f),
        None => true,
    }
}

/// For each rule, whether the list shows it.
pub open spec fn shown_flags(rules: Seq<ForwardRule>, filter: Option<Seq<char>>) -> Seq<bool> {
    rules.map_values(|r: ForwardRule| rule_shown(r, filter))
}

/// Whether a rule mentions the lower-cased search text `fl`.
fn mentions(r: &ForwardRule, fl: &str, Ghost(f): Ghost<Seq<char>>) -> (b: bool)
    requires
        fl@ == spec_lowercase(f),
    ensures
        b == rule_mentions(*r, f),
{
    let from = to_lowercase(r.from.as_str());
    if crate::text::contains(from.as_str(), fl) {
        return true;
    }
    let mut i: usize = 0;
    while i < r.to.len()
        invariant
            i <= r.to@.len(),
            fl@ == spec_lowercase(f),
            !contains_seq(spec_lowercase(r.from@), spec_lowercase(f)),
            forall|j: int| 0 <= j < i ==> !contains_seq(spec_lowercase(#[trigger] r.to@[j]@), spec_lowercase(f)),
        decreases r.to.len() - i,
    {
        let d = to_lowercase(r.to[i].as_str());
        if crate::text::contains(d.as_str(), fl) {
            return true;
        }
        i = i + 1;
    }
    false
}

/// The forwarding list's page `page`: the positions of the shown rules on
/// it (ten to a page) and how many rules are shown in all. `filter` is the
/// list's search text (none for no search).
pub fn forward_page(rules: &Vec<ForwardRule>, filter: Option<&str>, page: u32) -> (r: (Vec<usize>, u64))
    requires
        page == 0 || (page - 1) * FORWARD_PAGE_SIZE <= u32::MAX,
    ensures
        r.0@.map_values(|k: usize| k as int) == crate::listing::page_positions(
            shown_flags(rules@, crate::listing::opt_chars(filter)),
            page as int,
            FORWARD_PAGE_SIZE as int,
        ),
        r.1 == crate::listing::matching(shown_flags(rules@, crate::listing::opt_chars(filter))).len(),
{
    let ghost want = shown_flags(rules@, crate::listing::opt_chars(filter));
    let fl = match filter {
        Some(f) => to_lowercase(f),
        None => String::new(),
    };
    let mut flags: Vec<bool> = Vec::new();
    let mut count: u64 = 0;
    let mut i: usize = 0;
    while i < rules.len()
        invariant
            i <= rules@.len(),
            want == shown_flags(rules@, crate::listing::opt_chars(filter)),
            filter matches Some(f) ==> fl@ == spec_lowercase(f@),
            flags@ == want.take(i as int),
            count == crate::listing::matching(want.take(i as int)).len(),
            count <= i,
        decreases rules.len() - i,
    {
        let shown = match filter {
            Some(f) => mentions(&rules[i], fl.as_str(), Ghost(f@)),
            None => true,
        };
        assert(shown == want[i as int]);
        flags.push(shown);
        assert(want.take(i + 1).drop_last() =~= want.take(i as int));
        assert(want.take(i + 1).last() == want[i as int]);
        if shown {
            count = count + 1;
        }
        assert(flags@ =~= want.take(i + 1));
        i = i + 1;
    }
    assert(want.take(rules@.len() as int) =~= want);
    let positions = crate::listing::page_indices(&flags, page);
    (positions, count)
}

/// A copy of a rule.
fn copy_rule(r: &ForwardRule) -> (c: ForwardRule)
    ensures
        rule_view(c) == rule_view(*r),
{
    let to = clone_strings(&r.to);
    ForwardRule { from: r.from.clone(), to, keep_copy: r.keep_copy }
}

/// The plain value of a rule: source, destinations and flag.
pub open spec fn rule_view(r: ForwardRule) -> (Seq<char>, Seq<Seq<char>>, bool) {
    (r.from@, strs(r.to@), r.keep_copy)
}

/// The rule of source `from` read from its settings (keys relative to its
/// prefix): the values of the `to.` keys in `String` order, and the flag of
/// the last `keep-copy` key (set when there is none).
pub fn rule_from_settings(from: &str, raw: &Vec<(String, String)>) -> (r: ForwardRule)
    ensures
        r.from@ == from@,
        sorted_seqs(strs(r.to@)),
        strs(r.to@).to_multiset() == raw@.filter(|e: (String, String)| crate::text::is_prefix("to."@, e.0@)).map_values(
            |e: (String, String)| e.1@,
        ).to_multiset(),
        r.keep_copy == local_keep(raw@),
{
    let ghost pred = |e: (String, String)| crate::text::is_prefix("to."@, e.0@);
    let ghost vals = |e: (String, String)| e.1@;
    let mut to: Vec<String> = Vec::new();
    let mut keep_copy = true;
    let mut i: usize = 0;
    while i < raw.len()
        invariant
            i <= raw@.len(),
            pred == (|e: (String, String)| crate::text::is_prefix("to."@, e.0@)),
            vals == (|e: (String, String)| e.1@),
            strs(to@) == raw@.take(i as int).filter(pred).map_values(vals),
            keep_copy == local_keep(raw@.take(i as int)),
        decreases raw.len() - i,
    {
        assert(raw@.take(i + 1) =~= raw@.take(i as int).push(raw@[i as int]));
        assert(raw@.take(i + 1).drop_last() =~= raw@.take(i as int));
        proof {
            raw@.take(i as int).lemma_filter_push(raw@[i as int], pred);
        }
        let key = raw[i].0.as_str();
        let value = raw[i].1.as_str();
        let ghost before = strs(to@);
        if crate::text::starts_with(key, "to.") {
            to.push(String::from_str(value));
            assert(strs(to@) =~= before.push(raw@[i as int].1@));
            assert(raw@.take(i as int).filter(pred).push(raw@[i as int]).map_values(vals) =~= raw@.take(i as int).filter(
                pred,
            ).map_values(vals).push(raw@[i as int].1@));
        } else if str_eq(key, "keep-copy") {
            keep_copy = str_eq(value, "true");
        }
        i = i + 1;
    }
    assert(raw@.take(raw@.len() as int) =~= raw@);
    let sorted = sort_strings(to);
    ForwardRule { from: String::from_str(from), to: sorted, keep_copy }
}

/// The flag of the last `keep-copy` key among settings relative to a rule's
/// prefix that are not `to.` keys, set when there is none.
pub open spec fn local_keep(raw: Seq<(String, String)>) -> bool
    decreases raw.len(),
{
    if raw.len() == 0 {
        true
    } else if !crate::text::is_prefix("to."@, raw.last().0@) && raw.last().0@ == "keep-copy"@ {
        raw.last().1@ == "true"@
    } else {
        local_keep(raw.drop_last())
    }
}


// ----- destination list editing -------------------------------------------------

/// Adds an empty destination to fill in, unless the last one is still empty.
pub fn add_destination_slot(dests: &mut Vec<String>)
    ensures
        (old(dests)@.len() == 0 || old(dests)@.last()@.len() > 0) ==> strs(final(dests)@) == strs(old(dests)@).push(
            Seq::empty(),
        ),
        !(old(dests)@.len() == 0 || old(dests)@.last()@.len() > 0) ==> final(dests)@ == old(dests)@,
{
    let add = dests.len() == 0 || dests[dests.len() - 1].as_str().unicode_len() > 0;
    if add {
        let ghost before = strs(dests@);
        dests.push(String::new());
        assert(strs(dests@) =~= before.push(Seq::empty()));
    }
}

/// Replaces the destination at `idx`, when there is one.
pub fn set_destination(dests: &mut Vec<String>, idx: usize, value: String)
    ensures
        idx < old(dests)@.len() ==> final(dests)@ == old(dests)@.update(idx as int, value),
        idx >= old(dests)@.len() ==> final(dests)@ == old(dests)@,
{
    if idx < dests.len() {
        dests.set(idx, value);
    }
}

/// Removes the destination at `idx`.
pub fn remove_destination(dests: &mut Vec<String>, idx: usize)
    requires
        idx < old(dests)@.len(),
    ensures
        final(dests)@ == old(dests)@.remove(idx as int),
{
    dests.remove(idx);
}

} // verus!
