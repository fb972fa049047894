//! The table of configured targets, ordered and looked up by name.

use vstd::prelude::*;
use vstd::utf8::{encode_utf8, encode_utf8_decode_utf8};

use crate::config::{config_problem, lemma_accepted_config, Config, TargetConfig};
use crate::text::str_eq;

verus! {

/// The bytes by which a target name is ordered: its UTF-8 encoding.
pub open spec fn name_key(t: TargetConfig) -> Seq<u8> {
    encode_utf8(t.name@)
}

/// Lexicographic order on bytes, comparing from position `i` on, with a
/// proper prefix before the longer sequence.
pub open spec fn bytes_lt_from(a: Seq<u8>, b: Seq<u8>, i: int) -> bool
    decreases a.len() - i,
{
    if i >= a.len() {
        i < b.len()
    } else if i >= b.len() {
        false
    } else if a[i] < b[i] {
        true
    } else if a[i] > b[i] {
        false
    } else {
        bytes_lt_from(a, b, i + 1)
    }
}

/// Lexicographic byte order, the order of `str`.
pub open spec fn bytes_lt(a: Seq<u8>, b: Seq<u8>) -> bool {
    bytes_lt_from(a, b, 0)
}

proof fn lemma_lt_from_trans(a: Seq<u8>, b: Seq<u8>, c: Seq<u8>, i: int)
    requires
        0 <= i,
        bytes_lt_from(a, b, i),
        bytes_lt_from(b, c, i),
    ensures
        bytes_lt_from(a, c, i),
    decreases a.len() - i,
{
    if i < a.len() && i < b.len() && i < c.len() && a[i] == b[i] && b[i] == c[i] {
        lemma_lt_from_trans(a, b, c, i + 1);
    }
}

proof fn lemma_lt_from_asym(a: Seq<u8>, b: Seq<u8>, i: int)
    requires
        0 <= i,
        bytes_lt_from(a, b, i),
    ensures
        !bytes_lt_from(b, a, i),
    decreases a.len() - i,
{
    if i < a.len() && i < b.len() && a[i] == b[i] {
        lemma_lt_from_asym(a, b, i + 1);
    }
}

/// Byte order is transitive.
pub proof fn lemma_lt_trans(a: Seq<u8>, b: Seq<u8>, c: Seq<u8>)
    requires
        bytes_lt(a, b),
        bytes_lt(b, c),
    ensures
        bytes_lt(a, c),
{
    lemma_lt_from_trans(a, b, c, 0);
}

/// Byte order is asymmetric, and so irreflexive.
pub proof fn lemma_lt_asym(a: Seq<u8>, b: Seq<u8>)
    requires
        bytes_lt(a, b),
    ensures
        !bytes_lt(b, a),
        a != b,
{
    lemma_lt_from_asym(a, b, 0);
}

/// Names with the same encoding are the same name.
pub proof fn lemma_key_injective(a: Seq<char>, b: Seq<char>)
    requires
        encode_utf8(a) == encode_utf8(b),
    ensures
        a == b,
{
    encode_utf8_decode_utf8(a);
    encode_utf8_decode_utf8(b);
}

/// How two names compare.
#[derive(Debug)]
pub enum NameOrder {
    Less,
    Equal,
    Greater,
}

/// Compares two names by their bytes.
pub fn compare_names(a: &String, b: &String) -> (r: NameOrder)
    ensures
        (r is Less) == bytes_lt(encode_utf8(a@), encode_utf8(b@)),
        (r is Equal) == (a@ == b@),
        (r is Greater) == bytes_lt(encode_utf8(b@), encode_utf8(a@)),
{
    let x = a.as_str().as_bytes();
    let y = b.as_str().as_bytes();
    let ghost xa = encode_utf8(a@);
    let ghost yb = encode_utf8(b@);
    let mut k: usize = 0;
    while k < x.len() && k < y.len() && x[k] == y[k]
        invariant
            x@ == xa,
            y@ == yb,
            k <= x@.len(),
            k <= y@.len(),
            forall|j: int| 0 <= j < k ==> x@[j] == y@[j],
            bytes_lt(xa, yb) == bytes_lt_from(xa, yb, k as int),
            bytes_lt(yb, xa) == bytes_lt_from(yb, xa, k as int),
        decreases x@.len() - k,
    {
        k = k + 1;
    }
    if k == x.len() && k == y.len() {
        assert(xa =~= yb);
        proof {
            lemma_key_injective(a@, b@);
        }
        NameOrder::Equal
    } else if k == x.len() || (k < y.len() && x[k] < y[k]) {
        proof {
            lemma_lt_asym(xa, yb);
        }
        NameOrder::Less
    } else {
        proof {
            lemma_lt_asym(yb, xa);
        }
        NameOrder::Greater
    }
}

/// Targets strictly ordered by the bytes of their names, so no name occurs
/// twice.
pub open spec fn sorted_by_name(s: Seq<TargetConfig>) -> bool {
    forall|i: int, j: int| 0 <= i < j < s.len() ==> bytes_lt(#[trigger] name_key(s[i]), #[trigger] name_key(s[j]))
}

/// The last target in `ts` with the given name: a later target replaces an
/// earlier one of the same name.
pub open spec fn last_named(ts: Seq<TargetConfig>, name: Seq<char>) -> Option<TargetConfig>
    decreases ts.len(),
{
    if ts.len() == 0 {
        None
    } else if ts.last().name@ == name {
        Some(ts.last())
    } else {
        last_named(ts.drop_last(), name)
    }
}

/// The configured targets keyed by name, in increasing name order.
#[derive(Debug)]
pub struct TargetTable {
    entries: Vec<TargetConfig>,
}

impl TargetTable {
    /// The targets in the table, in increasing name order.
    pub closed spec fn entries(&self) -> Seq<TargetConfig> {
        self.entries@
    }

    /// Every table is strictly ordered by name, so no name occurs twice.
    #[verifier::type_invariant]
    closed spec fn ordered(self) -> bool {
        sorted_by_name(self.entries@)
    }

    /// The number of targets in the table.
    pub fn len(&self) -> (r: usize)
        ensures
            r == self.entries().len(),
            sorted_by_name(self.entries()),
    {
        proof {
            use_type_invariant(self);
        }
        self.entries.len()
    }

    /// The target at position `i` in name order.
    pub fn at(&self, i: usize) -> (r: &TargetConfig)
        requires
            i < self.entries().len(),
        ensures
            *r == self.entries()[i as int],
            sorted_by_name(self.entries()),
    {
        proof {
            use_type_invariant(self);
        }
        &self.entries[i]
    }

    /// The target with the given name, if there is one; there is at most
    /// one.
    #[verifier::loop_isolation(false)]
    pub fn get(&self, name: &str) -> (r: Option<&TargetConfig>)
        ensures
            sorted_by_name(self.entries()),
            r matches Some(t) ==> t.name@ == name@ && exists|i: int|
                0 <= i < self.entries().len() && self.entries()[i] == *t,
            r matches Some(t) ==> forall|i: int|
                0 <= i < self.entries().len() && #[trigger] self.entries()[i].name@ == name@ ==> self.entries()[i]
                    == *t,
            r is None ==> forall|i: int|
                0 <= i < self.entries().len() ==> #[trigger] self.entries()[i].name@ != name@,
    {
        proof {
            use_type_invariant(self);
            lemma_table_names_unique(self.entries@);
        }
        let mut i: usize = 0;
        while i < self.entries.len()
            invariant
                i <= self.entries@.len(),
                forall|j: int| 0 <= j < i ==> #[trigger] self.entries@[j].name@ != name@,
            decreases self.entries@.len() - i,
        {
            if str_eq(self.entries[i].name.as_str(), name) {
                assert(self.entries()[i as int] == self.entries@[i as int]);
                return Some(&self.entries[i]);
            }
            i = i + 1;
        }
        assert(self.entries() == self.entries@);
        None
    }
}

/// Puts `t` into a name-ordered list, replacing the entry of the same name
/// if there is one.
fn insert_target(entries: &mut Vec<TargetConfig>, t: TargetConfig)
    requires
        sorted_by_name(old(entries)@),
    ensures
        sorted_by_name(final(entries)@),
        exists|p: int| 0 <= p < final(entries)@.len() && final(entries)@[p] == t,
        forall|i: int|
            0 <= i < final(entries)@.len() ==> #[trigger] final(entries)@[i] == t || (
            final(entries)@[i].name@ != t.name@ && exists|k: int|
                0 <= k < old(entries)@.len() && old(entries)@[k] == final(entries)@[i]),
        forall|k: int|
            0 <= k < old(entries)@.len() && #[trigger] old(entries)@[k].name@ != t.name@ ==> exists|i: int|
                0 <= i < final(entries)@.len() && final(entries)@[i] == old(entries)@[k],
{
    let ghost old_e = entries@;
    let mut p: usize = 0;
    let mut found = false;
    while p < entries.len()
        invariant_except_break
            !found,
            p <= entries@.len(),
            entries@ == old_e,
            forall|q: int| 0 <= q < p ==> bytes_lt(#[trigger] name_key(old_e[q]), name_key(t)),
        ensures
            p <= entries@.len(),
            entries@ == old_e,
            forall|q: int| 0 <= q < p ==> bytes_lt(#[trigger] name_key(old_e[q]), name_key(t)),
            found ==> p < old_e.len() && old_e[p as int].name@ == t.name@,
            !found ==> p == old_e.len() || bytes_lt(name_key(t), name_key(old_e[p as int])),
        decreases entries@.len() - p,
    {
        match compare_names(&entries[p].name, &t.name) {
            NameOrder::Less => {
                p = p + 1;
            },
            NameOrder::Equal => {
                found = true;
                break;
            },
            NameOrder::Greater => {
                break;
            },
        }
    }
    let ghost tt = t;
    if found {
        entries.set(p, t);
        let ghost new_e = entries@;
        assert(new_e == old_e.update(p as int, tt));
        assert(name_key(tt) == name_key(old_e[p as int]));
        assert forall|i: int, j: int| 0 <= i < j < new_e.len() implies bytes_lt(
            #[trigger] name_key(new_e[i]),
            #[trigger] name_key(new_e[j]),
        ) by {
            assert(bytes_lt(name_key(old_e[i]), name_key(old_e[j])));
        }
        assert forall|i: int| 0 <= i < new_e.len() implies #[trigger] new_e[i] == tt || (
        new_e[i].name@ != tt.name@ && exists|k: int| 0 <= k < old_e.len() && old_e[k] == new_e[i]) by {
            if i != p {
                assert(new_e[i] == old_e[i]);
                if i < p {
                    lemma_lt_asym(name_key(old_e[i]), name_key(old_e[p as int]));
                } else {
                    lemma_lt_asym(name_key(old_e[p as int]), name_key(old_e[i]));
                }
            }
        }
        assert forall|k: int| 0 <= k < old_e.len() && #[trigger] old_e[k].name@ != tt.name@ implies exists|i: int|
            0 <= i < new_e.len() && new_e[i] == old_e[k] by {
            assert(k != p);
            assert(new_e[k] == old_e[k]);
        }
        assert(new_e[p as int] == tt);
    } else {
        entries.insert(p, t);
        let ghost new_e = entries@;
        assert(new_e == old_e.insert(p as int, tt));
        assert forall|q: int| p < q < new_e.len() implies bytes_lt(name_key(tt), #[trigger] name_key(new_e[q])) by {
            assert(new_e[q] == old_e[q - 1]);
            if q - 1 > p {
                assert(bytes_lt(name_key(old_e[p as int]), name_key(old_e[q - 1])));
                lemma_lt_trans(name_key(tt), name_key(old_e[p as int]), name_key(old_e[q - 1]));
            }
        }
        assert forall|i: int, j: int| 0 <= i < j < new_e.len() implies bytes_lt(
            #[trigger] name_key(new_e[i]),
            #[trigger] name_key(new_e[j]),
        ) by {
            if j < p {
                assert(new_e[i] == old_e[i] && new_e[j] == old_e[j]);
            } else if j == p {
                assert(new_e[i] == old_e[i]);
            } else if i < p {
                assert(new_e[i] == old_e[i] && new_e[j] == old_e[j - 1]);
                assert(bytes_lt(name_key(old_e[i]), name_key(tt)));
                assert(bytes_lt(name_key(tt), name_key(new_e[j])));
                lemma_lt_trans(name_key(old_e[i]), name_key(tt), name_key(old_e[j - 1]));
            } else if i == p {
            } else {
                assert(new_e[i] == old_e[i - 1] && new_e[j] == old_e[j - 1]);
                assert(bytes_lt(name_key(old_e[i - 1]), name_key(old_e[j - 1])));
            }
        }
        assert forall|i: int| 0 <= i < new_e.len() implies #[trigger] new_e[i] == tt || (
        new_e[i].name@ != tt.name@ && exists|k: int| 0 <= k < old_e.len() && old_e[k] == new_e[i]) by {
            if i < p {
                assert(new_e[i] == old_e[i]);
                assert(bytes_lt(name_key(old_e[i]), name_key(tt)));
                lemma_lt_asym(name_key(old_e[i]), name_key(tt));
            } else if i > p {
                assert(new_e[i] == old_e[i - 1]);
                assert(bytes_lt(name_key(tt), name_key(new_e[i])));
                lemma_lt_asym(name_key(tt), name_key(new_e[i]));
            }
        }
        assert forall|k: int| 0 <= k < old_e.len() && #[trigger] old_e[k].name@ != tt.name@ implies exists|i: int|
            0 <= i < new_e.len() && new_e[i] == old_e[k] by {
            if k < p {
                assert(new_e[k] == old_e[k]);
            } else {
                assert(new_e[k + 1] == old_e[k]);
            }
        }
        assert(new_e[p as int] == tt);
    }
}

/// Whether `table` holds the targets of `targets` keyed by name: strictly
/// ordered by name, each entry the last configured target of its name, and
/// every configured name present.
pub open spec fn indexes(table: Seq<TargetConfig>, targets: Seq<TargetConfig>) -> bool {
    &&& sorted_by_name(table)
    &&& forall|i: int|
        0 <= i < table.len() ==> Some(table[i]) == last_named(targets, #[trigger] table[i].name@)
    &&& forall|k: int|
        #![trigger targets[k]]
        0 <= k < targets.len() ==> exists|i: int|
            0 <= i < table.len() && #[trigger] table[i].name@ == targets[k].name@
}

impl Config {
    /// The configured targets keyed by name. When two targets share a name
    /// the later one is kept; a configuration that passes `validate` has no
    /// such pair.
    pub fn targets_by_name(&self) -> (r: TargetTable)
        ensures
            indexes(r.entries(), self.targets@),
    {
        let mut entries: Vec<TargetConfig> = Vec::new();
        let mut j: usize = 0;
        while j < self.targets.len()
            invariant
                j <= self.targets@.len(),
                sorted_by_name(entries@),
                forall|i: int|
                    0 <= i < entries@.len() ==> Some(entries@[i]) == last_named(
                        self.targets@.take(j as int),
                        #[trigger] entries@[i].name@,
                    ),
                forall|k: int|
                    #![trigger self.targets@[k]]
                    0 <= k < j ==> exists|i: int|
                        0 <= i < entries@.len() && #[trigger] entries@[i].name@ == self.targets@[k].name@,
            decreases self.targets@.len() - j,
        {
            let ghost before = entries@;
            let ghost ts = self.targets@;
            let t = self.targets[j].duplicate();
            insert_target(&mut entries, t);
            assert(ts.take(j + 1).drop_last() =~= ts.take(j as int));
            assert(ts.take(j + 1).last() == ts[j as int]);
            assert forall|i: int| 0 <= i < entries@.len() implies Some(entries@[i]) == last_named(
                ts.take(j + 1),
                #[trigger] entries@[i].name@,
            ) by {
                if entries@[i] != ts[j as int] {
                    let k = choose|k: int| 0 <= k < before.len() && before[k] == entries@[i];
                    assert(Some(before[k]) == last_named(ts.take(j as int), before[k].name@));
                }
            }
            assert forall|k: int| #![trigger ts[k]] 0 <= k < j + 1 implies exists|i: int|
                0 <= i < entries@.len() && #[trigger] entries@[i].name@ == ts[k].name@ by {
                if k < j {
                    let i0 = choose|i: int| 0 <= i < before.len() && #[trigger] before[i].name@ == ts[k].name@;
                    if before[i0].name@ != ts[j as int].name@ {
                        let i1 = choose|i: int| 0 <= i < entries@.len() && entries@[i] == before[i0];
                        assert(entries@[i1].name@ == ts[k].name@);
                    } else {
                        let p = choose|p: int| 0 <= p < entries@.len() && entries@[p] == ts[j as int];
                        assert(entries@[p].name@ == ts[k].name@);
                    }
                } else {
                    let p = choose|p: int| 0 <= p < entries@.len() && entries@[p] == ts[j as int];
                    assert(entries@[p].name@ == ts[k].name@);
                }
            }
            j = j + 1;
        }
        assert(self.targets@.take(j as int) =~= self.targets@);
        TargetTable { entries }
    }
}

/// In a name-ordered table no two entries share a name.
pub proof fn lemma_table_names_unique(table: Seq<TargetConfig>)
    requires
        sorted_by_name(table),
    ensures
        forall|i: int, j: int|
            0 <= i < table.len() && 0 <= j < table.len() && i != j ==> (#[trigger] table[i]).name@
                != (#[trigger] table[j]).name@,
{
    assert forall|i: int, j: int|
        0 <= i < table.len() && 0 <= j < table.len() && i != j implies (#[trigger] table[i]).name@
            != (#[trigger] table[j]).name@ by {
        if i < j {
            lemma_lt_asym(name_key(table[i]), name_key(table[j]));
        } else {
            lemma_lt_asym(name_key(table[j]), name_key(table[i]));
        }
    }
}

proof fn lemma_last_named_found(ts: Seq<TargetConfig>, name: Seq<char>)
    requires
        last_named(ts, name) is Some,
    ensures
        exists|k: int| 0 <= k < ts.len() && ts[k] == last_named(ts, name)->0,
        last_named(ts, name)->0.name@ == name,
    decreases ts.len(),
{
    if ts.last().name@ != name {
        lemma_last_named_found(ts.drop_last(), name);
        let k = choose|k: int| 0 <= k < ts.drop_last().len() && ts.drop_last()[k] == last_named(ts.drop_last(), name)->0;
        assert(ts[k] == ts.drop_last()[k]);
    } else {
        assert(ts[ts.len() - 1] == ts.last());
    }
}

proof fn lemma_last_named_unique(ts: Seq<TargetConfig>, k: int)
    requires
        0 <= k < ts.len(),
        forall|i: int, j: int| 0 <= i < j < ts.len() ==> (#[trigger] ts[i]).name@ != (#[trigger] ts[j]).name@,
    ensures
        last_named(ts, ts[k].name@) == Some(ts[k]),
    decreases ts.len(),
{
    if k < ts.len() - 1 {
        assert(ts[k].name@ != ts[ts.len() - 1].name@);
        let rest = ts.drop_last();
        assert(rest[k] == ts[k]);
        assert forall|i: int, j: int| 0 <= i < j < rest.len() implies (#[trigger] rest[i]).name@ != (#[trigger] rest[j]).name@ by {
            assert(rest[i] == ts[i] && rest[j] == ts[j]);
        }
        lemma_last_named_unique(rest, k);
    }
}

/// For a configuration that `validate` accepts, the table of targets by
/// name holds exactly the configured targets, each once.
pub proof fn lemma_table_of_accepted_config(table: Seq<TargetConfig>, c: Config)
    requires
        config_problem(c) is None,
        indexes(table, c.targets@),
    ensures
        table.len() == c.targets@.len(),
        forall|k: int|
            #![trigger c.targets@[k]]
            0 <= k < c.targets@.len() ==> exists|i: int| 0 <= i < table.len() && table[i] == c.targets@[k],
        forall|i: int|
            #![trigger table[i]]
            0 <= i < table.len() ==> exists|k: int| 0 <= k < c.targets@.len() && table[i] == c.targets@[k],
{
    let ts = c.targets@;
    lemma_accepted_config(c);
    lemma_table_names_unique(table);
    assert forall|k: int| #![trigger ts[k]] 0 <= k < ts.len() implies exists|i: int|
        0 <= i < table.len() && table[i] == ts[k] by {
        lemma_last_named_unique(ts, k);
        let i = choose|i: int| 0 <= i < table.len() && #[trigger] table[i].name@ == ts[k].name@;
        assert(Some(table[i]) == last_named(ts, table[i].name@));
    }
    assert forall|i: int| #![trigger table[i]] 0 <= i < table.len() implies exists|k: int|
        0 <= k < ts.len() && table[i] == ts[k] by {
        assert(Some(table[i]) == last_named(ts, table[i].name@));
        lemma_last_named_found(ts, table[i].name@);
    }
    assert(table.no_duplicates()) by {
        assert forall|i: int, j: int| (0 <= i < table.len() && 0 <= j < table.len() && i != j) implies table[i] != table[j] by {
            assert(table[i].name@ != table[j].name@);
        }
    }
    assert(ts.no_duplicates()) by {
        assert forall|i: int, j: int| (0 <= i < ts.len() && 0 <= j < ts.len() && i != j) implies ts[i] != ts[j] by {
            if i < j {
                assert(ts[i].name@ != ts[j].name@);
            } else {
                assert(ts[j].name@ != ts[i].name@);
            }
        }
    }
    assert(table.to_set() =~= ts.to_set()) by {
        assert forall|x: TargetConfig| table.to_set().contains(x) implies ts.to_set().contains(x) by {
            let i = choose|i: int| 0 <= i < table.len() && table[i] == x;
            assert(table[i] == x);
        }
        assert forall|x: TargetConfig| ts.to_set().contains(x) implies table.to_set().contains(x) by {
            let k = choose|k: int| 0 <= k < ts.len() && ts[k] == x;
            assert(ts[k] == x);
        }
    }
    table.unique_seq_to_set();
    ts.unique_seq_to_set();
}

/// For a configuration that `validate` accepts, the entry that the table
/// holds under a configured target's name is that target: a request that
/// names a target runs with exactly the host, port, user, key, known-hosts
/// file and keep-alive settings configured for it.
pub proof fn lemma_lookup_is_configured_target(table: Seq<TargetConfig>, c: Config, k: int, i: int)
    requires
        config_problem(c) is None,
        indexes(table, c.targets@),
        0 <= k < c.targets@.len(),
        0 <= i < table.len(),
        table[i].name@ == c.targets@[k].name@,
    ensures
        table[i] == c.targets@[k],
{
    lemma_accepted_config(c);
    lemma_last_named_unique(c.targets@, k);
    assert(Some(table[i]) == last_named(c.targets@, table[i].name@));
}

} // verus!
