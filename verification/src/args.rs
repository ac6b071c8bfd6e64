//! The Argument Set: a mapping from flag names to optional values, kept
//! sorted by key so that its canonical serialization — the lock-matching
//! key — is the same whatever order the arguments arrived in.

use vstd::prelude::*;

use crate::strutil::{lex_lt, lemma_lex_asym, lemma_lex_total, lemma_lex_trans, str_eq, str_lex_lt};

verus! {

/// One argument: a flag name, with a value for `key=value` tokens and
/// none for bare `flag` tokens.
pub struct ArgPair {
    pub key: String,
    pub value: Option<String>,
}

/// The character-level view of an optional value.
pub open spec fn opt_view(v: Option<String>) -> Option<Seq<char>> {
    match v {
        Some(s) => Some(s@),
        None => None,
    }
}

impl ArgPair {
    /// The character-level view of the pair.
    pub open spec fn kv(self) -> (Seq<char>, Option<Seq<char>>) {
        (self.key@, opt_view(self.value))
    }
}

/// The mapping that a sequence of pairs denotes; a later entry for the
/// same key overrides an earlier one.
pub open spec fn map_of(s: Seq<(Seq<char>, Option<Seq<char>>)>) -> Map<
    Seq<char>,
    Option<Seq<char>>,
>
    decreases s.len(),
{
    if s.len() == 0 {
        Map::empty()
    } else {
        map_of(s.drop_last()).insert(s.last().0, s.last().1)
    }
}

/// Keys strictly increasing in lexicographic order (hence unique).
pub open spec fn sorted_by_key(s: Seq<(Seq<char>, Option<Seq<char>>)>) -> bool {
    forall|i: int, j: int| 0 <= i < j < s.len() ==> lex_lt(s[i].0, s[j].0)
}

pub proof fn lemma_map_of_contains(s: Seq<(Seq<char>, Option<Seq<char>>)>, k: Seq<char>)
    ensures
        map_of(s).contains_key(k) <==> exists|i: int| 0 <= i < s.len() && s[i].0 == k,
    decreases s.len(),
{
    if s.len() > 0 {
        lemma_map_of_contains(s.drop_last(), k);
        if map_of(s).contains_key(k) {
            if s.last().0 == k {
                assert(s[s.len() - 1].0 == k);
            } else {
                let i = choose|i: int| 0 <= i < s.drop_last().len() && s.drop_last()[i].0 == k;
                assert(s[i].0 == k);
            }
        }
        if exists|i: int| 0 <= i < s.len() && s[i].0 == k {
            let i = choose|i: int| 0 <= i < s.len() && s[i].0 == k;
            if i < s.len() - 1 {
                assert(s.drop_last()[i].0 == k);
            }
        }
    }
}

pub proof fn lemma_map_of_index(s: Seq<(Seq<char>, Option<Seq<char>>)>, i: int)
    requires
        0 <= i < s.len(),
        forall|j: int| i < j < s.len() ==> s[j].0 != s[i].0,
    ensures
        map_of(s).contains_key(s[i].0),
        map_of(s)[s[i].0] == s[i].1,
    decreases s.len(),
{
    if i < s.len() - 1 {
        assert(s.drop_last()[i] == s[i]);
        lemma_map_of_index(s.drop_last(), i);
    }
}

pub proof fn lemma_map_of_insert_at(
    s: Seq<(Seq<char>, Option<Seq<char>>)>,
    idx: int,
    p: (Seq<char>, Option<Seq<char>>),
)
    requires
        0 <= idx <= s.len(),
        forall|i: int| idx <= i < s.len() ==> p.0 != s[i].0,
    ensures
        map_of(s.take(idx) + seq![p] + s.skip(idx)) == map_of(s).insert(p.0, p.1),
    decreases s.len() - idx,
{
    let t = s.take(idx) + seq![p] + s.skip(idx);
    if idx == s.len() {
        assert(t =~= s.push(p));
        assert(t.drop_last() =~= s);
    } else {
        let su = s.drop_last();
        let tu = su.take(idx) + seq![p] + su.skip(idx);
        assert(t.last() == s.last());
        assert(t.drop_last() =~= tu);
        lemma_map_of_insert_at(su, idx, p);
        assert(s[s.len() - 1].0 != p.0);
        assert(map_of(t) == map_of(su).insert(p.0, p.1).insert(s.last().0, s.last().1));
        assert(map_of(su).insert(p.0, p.1).insert(s.last().0, s.last().1) =~= map_of(
            su,
        ).insert(s.last().0, s.last().1).insert(p.0, p.1));
    }
}

pub proof fn lemma_map_of_update_at(
    s: Seq<(Seq<char>, Option<Seq<char>>)>,
    idx: int,
    p: (Seq<char>, Option<Seq<char>>),
)
    requires
        0 <= idx < s.len(),
        s[idx].0 == p.0,
        forall|i: int| idx < i < s.len() ==> p.0 != s[i].0,
    ensures
        map_of(s.update(idx, p)) == map_of(s).insert(p.0, p.1),
    decreases s.len(),
{
    let t = s.update(idx, p);
    if idx == s.len() - 1 {
        assert(t.drop_last() =~= s.drop_last());
        assert(t.last() == p);
        assert(map_of(s).insert(p.0, p.1) =~= map_of(s.drop_last()).insert(p.0, p.1));
    } else {
        assert(t.last() == s.last());
        assert(t.drop_last() =~= s.drop_last().update(idx, p));
        assert(s.drop_last()[idx] == s[idx]);
        lemma_map_of_update_at(s.drop_last(), idx, p);
        assert(s[s.len() - 1].0 != p.0);
        assert(map_of(s.drop_last()).insert(p.0, p.1).insert(s.last().0, s.last().1) =~= map_of(
            s.drop_last(),
        ).insert(s.last().0, s.last().1).insert(p.0, p.1));
    }
}

/// Two sorted pair sequences that denote the same mapping are the same
/// sequence.
pub proof fn lemma_sorted_same_map(
    x: Seq<(Seq<char>, Option<Seq<char>>)>,
    y: Seq<(Seq<char>, Option<Seq<char>>)>,
)
    requires
        sorted_by_key(x),
        sorted_by_key(y),
        map_of(x) == map_of(y),
    ensures
        x =~= y,
    decreases x.len(),
{
    if x.len() == 0 {
        if y.len() > 0 {
            lemma_map_of_contains(x, y.last().0);
            lemma_map_of_contains(y, y.last().0);
            assert(y[y.len() - 1].0 == y.last().0);
        }
    } else if y.len() == 0 {
        lemma_map_of_contains(x, x.last().0);
        lemma_map_of_contains(y, x.last().0);
        assert(x[x.len() - 1].0 == x.last().0);
    } else {
        let kx = x.last().0;
        let ky = y.last().0;
        // The two last keys are equal: each is present in the other
        // sequence, and in a sorted sequence every key is at most the
        // last one.
        lemma_map_of_contains(x, kx);
        lemma_map_of_contains(y, kx);
        lemma_map_of_contains(y, ky);
        lemma_map_of_contains(x, ky);
        let ix = choose|i: int| 0 <= i < y.len() && y[i].0 == kx;
        let iy = choose|i: int| 0 <= i < x.len() && x[i].0 == ky;
        if kx != ky {
            assert(ix < y.len() - 1);
            assert(lex_lt(kx, ky));
            assert(iy < x.len() - 1);
            assert(lex_lt(ky, kx));
            lemma_lex_asym(kx, ky);
            assert(false);
        }
        // Equal values for the last key.
        assert(forall|j: int| x.len() - 1 < j < x.len() ==> x[j].0 != kx);
        lemma_map_of_index(x, x.len() - 1);
        lemma_map_of_index(y, y.len() - 1);
        assert(x.last().1 == y.last().1);
        // The last key occurs in neither front part, so the front maps
        // are the full maps with that key removed.
        assert forall|j: int| 0 <= j < x.len() - 1 implies x[j].0 != kx by {
            if x[j].0 == kx {
                lemma_lex_asym(x[j].0, kx);
            }
        }
        assert forall|j: int| 0 <= j < y.len() - 1 implies y[j].0 != ky by {
            if y[j].0 == ky {
                lemma_lex_asym(y[j].0, ky);
            }
        }
        lemma_map_of_contains(x.drop_last(), kx);
        lemma_map_of_contains(y.drop_last(), ky);
        assert(map_of(x.drop_last()) =~= map_of(x).remove(kx));
        assert(map_of(y.drop_last()) =~= map_of(y).remove(ky));
        lemma_sorted_same_map(x.drop_last(), y.drop_last());
        assert(x =~= y) by {
            assert(forall|i: int|
                0 <= i < x.len() - 1 ==> x[i] == x.drop_last()[i] && y[i] == y.drop_last()[i]);
            assert(x.last() == y.last());
        }
    }
}

// ---------------------------------------------------------------------
// Canonical serialization
// ---------------------------------------------------------------------
/// A quote or backslash inside a key or value is escaped with a
/// backslash; every other character stands for itself.
pub open spec fn esc_char(c: char) -> Seq<char> {
    if c == '"' || c == '\\' {
        seq!['\\', c]
    } else {
        seq![c]
    }
}

pub open spec fn esc_seq(s: Seq<char>) -> Seq<char>
    decreases s.len(),
{
    if s.len() == 0 {
        Seq::empty()
    } else {
        esc_seq(s.drop_last()) + esc_char(s.last())
    }
}

pub open spec fn canon_value(v: Option<Seq<char>>) -> Seq<char> {
    match v {
        Some(s) => seq!['"'] + esc_seq(s) + seq!['"'],
        None => seq!['n', 'u', 'l', 'l'],
    }
}

pub open spec fn canon_entry(kv: (Seq<char>, Option<Seq<char>>)) -> Seq<char> {
    seq!['"'] + esc_seq(kv.0) + seq!['"', ':'] + canon_value(kv.1)
}

pub open spec fn canon_body(s: Seq<(Seq<char>, Option<Seq<char>>)>) -> Seq<char>
    decreases s.len(),
{
    if s.len() == 0 {
        Seq::empty()
    } else if s.len() == 1 {
        canon_entry(s[0])
    } else {
        canon_body(s.drop_last()) + seq![','] + canon_entry(s.last())
    }
}

/// The canonical serialization of a sorted argument sequence: an object
/// literal with the entries in key order.
pub open spec fn canon_of(s: Seq<(Seq<char>, Option<Seq<char>>)>) -> Seq<char> {
    seq!['{'] + canon_body(s) + seq!['}']
}

// ---------------------------------------------------------------------
// The Argument Set itself
// ---------------------------------------------------------------------
/// A set of command arguments, stored with the keys in strictly
/// increasing lexicographic order. Inserting an existing key replaces
/// its value, so the newest binding wins.
pub struct CommandArgs {
    entries: Vec<ArgPair>,
}

impl View for CommandArgs {
    type V = Map<Seq<char>, Option<Seq<char>>>;

    open spec fn view(&self) -> Map<Seq<char>, Option<Seq<char>>> {
        map_of(self.kvs())
    }
}

impl CommandArgs {
    /// The character-level key/value pairs, in storage order.
    pub closed spec fn kvs(self) -> Seq<(Seq<char>, Option<Seq<char>>)> {
        Seq::new(self.entries@.len(), |i: int| self.entries@[i].kv())
    }

    /// Well-formed: the keys are strictly sorted.
    pub open spec fn wf(self) -> bool {
        sorted_by_key(self.kvs())
    }

    /// An empty argument set.
    pub fn new() -> (r: CommandArgs)
        ensures
            r.wf(),
            r@ == Map::<Seq<char>, Option<Seq<char>>>::empty(),
            r.kvs().len() == 0,
    {
        let r = CommandArgs { entries: Vec::new() };
        proof {
            assert(r.kvs() =~= Seq::<(Seq<char>, Option<Seq<char>>)>::empty());
        }
        r
    }

    /// How many distinct flags are present.
    pub fn len(&self) -> (n: usize)
        ensures
            n == self.kvs().len(),
    {
        self.entries.len()
    }

    /// The index of the first key not below `key`, with everything in
    /// front of it strictly below.
    fn lower_bound(&self, key: &str) -> (idx: usize)
        requires
            self.wf(),
        ensures
            idx <= self.kvs().len(),
            forall|j: int| 0 <= j < idx ==> lex_lt(self.kvs()[j].0, key@),
            idx < self.kvs().len() ==> !lex_lt(self.kvs()[idx as int].0, key@),
    {
        let n = self.entries.len();
        let mut idx: usize = 0;
        loop
            invariant
                n == self.kvs().len(),
                idx <= n,
                self.wf(),
                forall|j: int| 0 <= j < idx ==> lex_lt(self.kvs()[j].0, key@),
            ensures
                idx <= n,
                forall|j: int| 0 <= j < idx ==> lex_lt(self.kvs()[j].0, key@),
                idx < n ==> !lex_lt(self.kvs()[idx as int].0, key@),
            decreases n - idx,
        {
            if idx >= n {
                break ;
            }
            if !str_lex_lt(self.entries[idx].key.as_str(), key) {
                break ;
            }
            idx += 1;
        }
        idx
    }

    /// Bind `key` to `value`, replacing any existing binding.
    pub fn insert(&mut self, key: String, value: Option<String>)
        requires
            old(self).wf(),
        ensures
            final(self).wf(),
            final(self)@ == old(self)@.insert(key@, opt_view(value)),
    {
        let ghost s = self.kvs();
        let idx = self.lower_bound(key.as_str());
        let found = idx < self.entries.len() && str_eq(self.entries[idx].key.as_str(), key.as_str());
        let p = ArgPair { key, value };
        proof {
            // Everything at or after the slot differs from the new key,
            // except possibly the slot itself.
            assert forall|i: int| idx < i < s.len() implies p.kv().0 != s[i].0 by {
                if idx < s.len() {
                    lemma_lex_total(s[idx as int].0, p.kv().0);
                    if s[idx as int].0 != p.kv().0 {
                        lemma_lex_trans(p.kv().0, s[idx as int].0, s[i].0);
                    } else {
                        assert(lex_lt(s[idx as int].0, s[i].0));
                    }
                    if p.kv().0 == s[i].0 {
                        lemma_lex_asym(p.kv().0, s[i].0);
                    }
                }
            }
        }
        if found {
            proof {
                lemma_map_of_update_at(s, idx as int, p.kv());
            }
            self.entries.set(idx, p);
            proof {
                assert(self.kvs() =~= s.update(idx as int, p.kv()));
            }
        } else {
            proof {
                if idx < s.len() {
                    lemma_lex_total(s[idx as int].0, p.kv().0);
                }
                assert forall|i: int| idx <= i < s.len() implies p.kv().0 != s[i].0 by {
                    if i == idx && p.kv().0 == s[i].0 {
                        lemma_lex_asym(p.kv().0, s[i].0);
                    }
                }
                lemma_map_of_insert_at(s, idx as int, p.kv());
            }
            self.entries.insert(idx, p);
            proof {
                assert(self.kvs() =~= s.take(idx as int) + seq![p.kv()] + s.skip(idx as int));
                let t = self.kvs();
                assert forall|i: int, j: int| 0 <= i < j < t.len() implies lex_lt(
                    t[i].0,
                    t[j].0,
                ) by {
                    if i == idx {
                        if j == idx + 1 && idx < s.len() {
                        } else {
                            lemma_lex_trans(t[i].0, s[idx as int].0, t[j].0);
                        }
                    }
                }
            }
        }
    }

    /// Look a flag up; absent and present-without-value are distinct
    /// outcomes.
    pub fn get(&self, key: &str) -> (r: Option<&Option<String>>)
        requires
            self.wf(),
        ensures
            match r {
                Some(v) => self@.contains_key(key@) && self@[key@] == opt_view(*v),
                None => !self@.contains_key(key@),
            },
    {
        let n = self.entries.len();
        let mut i: usize = 0;
        while i < n
            invariant
                n == self.kvs().len(),
                i <= n,
                self.wf(),
                forall|j: int| 0 <= j < i ==> self.kvs()[j].0 != key@,
            decreases n - i,
        {
            if str_eq(self.entries[i].key.as_str(), key) {
                proof {
                    assert forall|j: int| i < j < self.kvs().len() implies self.kvs()[j].0
                        != self.kvs()[i as int].0 by {
                        if self.kvs()[j].0 == self.kvs()[i as int].0 {
                            lemma_lex_asym(self.kvs()[i as int].0, self.kvs()[j].0);
                        }
                    }
                    lemma_map_of_index(self.kvs(), i as int);
                }
                return Some(&self.entries[i].value);
            }
            i += 1;
        }
        proof {
            lemma_map_of_contains(self.kvs(), key@);
        }
        None
    }
}

/// Append the escaped form of `s` to `out`.
fn append_escaped(out: &mut String, s: &str)
    ensures
        final(out)@ == old(out)@ + esc_seq(s@),
{
    let n = s.unicode_len();
    let mut i: usize = 0;
    proof {
        assert(s@.take(0) =~= Seq::<char>::empty());
        assert(out@ =~= out@ + esc_seq(s@.take(0)));
    }
    while i < n
        invariant
            n == s@.len(),
            i <= n,
            out@ == old(out)@ + esc_seq(s@.take(i as int)),
        decreases n - i,
    {
        let c = s.get_char(i);
        if c == '"' {
            out.append("\\\"");
            proof {
                reveal_strlit("\\\"");
            }
        } else if c == '\\' {
            out.append("\\\\");
            proof {
                reveal_strlit("\\\\");
            }
        } else {
            let piece = s.substring_char(i, i + 1);
            out.append(piece);
            proof {
                assert(piece@ =~= seq![s@[i as int]]);
            }
        }
        proof {
            assert(s@.take(i + 1).drop_last() =~= s@.take(i as int));
            assert(s@.take(i + 1).last() == s@[i as int]);
            assert(esc_seq(s@.take(i + 1)) == esc_seq(s@.take(i as int)) + esc_char(s@[i as int]));
        }
        i += 1;
    }
    proof {
        assert(s@.take(n as int) =~= s@);
    }
}

/// Append the canonical form of one entry to `out`.
fn append_entry(out: &mut String, p: &ArgPair)
    ensures
        final(out)@ == old(out)@ + canon_entry(p.kv()),
{
    proof {
        reveal_strlit("\"");
        reveal_strlit("\":");
        reveal_strlit("null");
    }
    out.append("\"");
    append_escaped(out, p.key.as_str());
    out.append("\":");
    match &p.value {
        Some(v) => {
            out.append("\"");
            append_escaped(out, v.as_str());
            out.append("\"");
        },
        None => {
            out.append("null");
        },
    }
    proof {
        assert(out@ =~= old(out)@ + canon_entry(p.kv()));
    }
}

impl CommandArgs {
    /// The canonical serialization: the entries in key order, each key
    /// and value quoted and escaped, a bare flag rendered as `null`.
    /// This string is the lock-matching key for non-parallel commands.
    pub fn canonical_string(&self) -> (r: String)
        ensures
            r@ == canon_of(self.kvs()),
    {
        proof {
            reveal_strlit("{");
            reveal_strlit("}");
            reveal_strlit(",");
        }
        let mut out = String::from_str("{");
        let n = self.entries.len();
        let mut i: usize = 0;
        proof {
            assert(out@ =~= seq!['{'] + canon_body(self.kvs().take(0)));
        }
        while i < n
            invariant
                n == self.kvs().len(),
                i <= n,
                out@ == seq!['{'] + canon_body(self.kvs().take(i as int)),
            decreases n - i,
        {
            if i > 0 {
                out.append(",");
            }
            append_entry(&mut out, &self.entries[i]);
            proof {
                reveal_strlit(",");
                let t = self.kvs().take(i + 1);
                assert(t.drop_last() =~= self.kvs().take(i as int));
                assert(t.last() == self.kvs()[i as int]);
                assert(t[0] == self.kvs()[0]);
                if i == 0 {
                    assert(canon_body(t) == canon_entry(self.kvs()[0]));
                    assert(out@ =~= seq!['{'] + canon_body(t));
                } else {
                    assert(canon_body(t) == canon_body(self.kvs().take(i as int)) + seq![',']
                        + canon_entry(self.kvs()[i as int]));
                    assert(out@ =~= seq!['{'] + canon_body(t));
                }
            }
            i += 1;
        }
        out.append("}");
        proof {
            reveal_strlit("}");
            assert(self.kvs().take(n as int) =~= self.kvs());
            assert(out@ =~= canon_of(self.kvs()));
        }
        out
    }
}

/// Canonicalization is deterministic: two well-formed Argument Sets that
/// denote the same key-to-value mapping — whatever order their entries
/// were inserted in — hold identical entry sequences, and so serialize
/// to byte-identical canonical strings.
pub proof fn lemma_canonical_deterministic(a: CommandArgs, b: CommandArgs)
    requires
        a.wf(),
        b.wf(),
        a@ == b@,
    ensures
        a.kvs() == b.kvs(),
        canon_of(a.kvs()) == canon_of(b.kvs()),
{
    lemma_sorted_same_map(a.kvs(), b.kvs());
}

} // verus!
