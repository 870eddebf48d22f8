//! The sample record: a sparse mapping from string keys to scalar values.
//!
//! Entries are kept sorted by key in lexicographic order with no duplicate
//! keys, so the record denotes a finite map and renders deterministically:
//! the same mapping always produces the same JSON line.
use crate::jsontext::{entries_str, entry_str, object_str, push_quoted, push_value};
use crate::order::{
    key_cmp, lemma_lex_lt_asymmetric, lemma_lex_lt_irreflexive, lemma_lex_lt_transitive, lex_lt,
    KeyOrder,
};
use crate::value::Value;
use vstd::prelude::*;

verus! {

/// The finite map denoted by an entry list, later bindings winning.
pub open spec fn entries_to_map(es: Seq<(Seq<char>, Value)>) -> Map<Seq<char>, Value>
    decreases es.len(),
{
    if es.len() == 0 {
        Map::empty()
    } else {
        entries_to_map(es.drop_last()).insert(es.last().0, es.last().1)
    }
}

/// Inserting an entry whose key is absent from the tail denotes a map insert.
proof fn lemma_entries_to_map_mid(
    es1: Seq<(Seq<char>, Value)>,
    e: (Seq<char>, Value),
    es2: Seq<(Seq<char>, Value)>,
)
    requires
        forall|t: int| 0 <= t < es2.len() ==> (#[trigger] es2[t]).0 != e.0,
    ensures
        entries_to_map(es1 + seq![e] + es2) == entries_to_map(es1 + es2).insert(e.0, e.1),
    decreases es2.len(),
{
    if es2.len() == 0 {
        assert((es1 + seq![e] + es2).drop_last() =~= es1);
        assert((es1 + seq![e] + es2).last() == e);
        assert(es1 + es2 =~= es1);
        assert(entries_to_map(es1 + seq![e] + es2) == entries_to_map(es1).insert(e.0, e.1));
    } else {
        let s = es1 + seq![e] + es2;
        let last = es2.last();
        assert(s.last() == last);
        assert(s.drop_last() =~= es1 + seq![e] + es2.drop_last());
        lemma_entries_to_map_mid(es1, e, es2.drop_last());
        assert((es1 + es2).drop_last() =~= es1 + es2.drop_last());
        assert((es1 + es2).last() == last);
        assert(last.0 != e.0);
        assert(entries_to_map(es1 + es2.drop_last()).insert(e.0, e.1).insert(last.0, last.1)
            =~= entries_to_map(es1 + es2.drop_last()).insert(last.0, last.1).insert(e.0, e.1));
    }
}

/// A flat record: string keys bound to scalar values, kept sorted by key.
pub struct Record {
    entries: Vec<(String, Value)>,
}

impl Record {
    /// The entry list, as key text and value, in emission order.
    pub closed spec fn entry_seq(self) -> Seq<(Seq<char>, Value)> {
        self.entries@.map_values(|e: (String, Value)| (e.0@, e.1))
    }

    /// The finite map this record denotes.
    pub open spec fn as_map(self) -> Map<Seq<char>, Value> {
        entries_to_map(self.entry_seq())
    }

    /// Keys strictly increasing (hence unique) and every value well-formed.
    pub open spec fn wf(self) -> bool {
        &&& forall|i: int, j: int|
            0 <= i < j < self.entry_seq().len() ==> lex_lt(
                (#[trigger] self.entry_seq()[i]).0,
                (#[trigger] self.entry_seq()[j]).0,
            )
        &&& forall|i: int|
            0 <= i < self.entry_seq().len() ==> (#[trigger] self.entry_seq()[i]).1.wf()
    }

    /// The empty record.
    pub fn new() -> (r: Record)
        ensures
            r.wf(),
            r.as_map() == Map::<Seq<char>, Value>::empty(),
            r.entry_seq().len() == 0,
    {
        let r = Record { entries: Vec::new() };
        proof {
            assert(r.entry_seq() =~= Seq::<(Seq<char>, Value)>::empty());
        }
        r
    }

    /// Binds `key` to `value`, replacing any previous binding.
    pub fn insert(&mut self, key: String, value: Value)
        requires
            old(self).wf(),
            value.wf(),
        ensures
            final(self).wf(),
            final(self).as_map() == old(self).as_map().insert(key@, value),
    {
        let ghost start_seq = old(self).entry_seq();
        let n = self.entries.len();
        let mut p: usize = 0;
        while p < n
            invariant
                *self == *old(self),
                old(self).wf(),
                value.wf(),
                n == self.entries.len(),
                p <= n,
                forall|t: int| 0 <= t < p ==> lex_lt((#[trigger] start_seq[t]).0, key@),
                start_seq == old(self).entry_seq(),
            decreases n - p,
        {
            let cmp = key_cmp(key.as_str(), self.entries[p].0.as_str());
            proof {
                assert(start_seq[p as int] == (self.entries@[p as int].0@,
                self.entries@[p as int].1));
            }
            match cmp {
                KeyOrder::Less => {
                    proof {
                        assert forall|t: int| p <= t < n implies !lex_lt(
                            (#[trigger] start_seq[t]).0,
                            key@,
                        ) && start_seq[t].0 != key@ by {
                            if t > p {
                                lemma_lex_lt_transitive(key@, start_seq[p as int].0, start_seq[t].0);
                            }
                            lemma_lex_lt_asymmetric(key@, start_seq[t].0);
                            lemma_lex_lt_irreflexive(key@);
                        }
                    }
                    self.entries.insert(p, (key, value));
                    proof {
                        assert(self.entry_seq() =~= start_seq.insert(p as int, (key@, value)));
                        self.lemma_after_insert(start_seq, p as int, key@, value);
                    }
                    return ;
                },
                KeyOrder::Equal => {
                    self.entries.remove(p);
                    self.entries.insert(p, (key, value));
                    proof {
                        assert(self.entry_seq() =~= start_seq.update(p as int, (key@, value)));
                        self.lemma_after_replace(start_seq, p as int, key@, value);
                    }
                    return ;
                },
                KeyOrder::Greater => {
                    p = p + 1;
                },
            }
        }
        self.entries.insert(p, (key, value));
        proof {
            assert(self.entry_seq() =~= start_seq.insert(p as int, (key@, value)));
            self.lemma_after_insert(start_seq, p as int, key@, value);
        }
    }

    /// After replacing the entry at `p` (whose key equals the new key).
    proof fn lemma_after_replace(
        self,
        old_seq: Seq<(Seq<char>, Value)>,
        p: int,
        key: Seq<char>,
        value: Value,
    )
        requires
            0 <= p < old_seq.len(),
            self.entry_seq() =~= old_seq.update(p, (key, value)),
            old_seq[p].0 == key,
            forall|i: int, j: int|
                0 <= i < j < old_seq.len() ==> lex_lt(
                    (#[trigger] old_seq[i]).0,
                    (#[trigger] old_seq[j]).0,
                ),
            forall|i: int| 0 <= i < old_seq.len() ==> (#[trigger] old_seq[i]).1.wf(),
            value.wf(),
        ensures
            self.wf(),
            entries_to_map(self.entry_seq()) == entries_to_map(old_seq).insert(key, value),
    {
        let new_seq = self.entry_seq();
        assert forall|i: int, j: int| 0 <= i < j < new_seq.len() implies lex_lt(
            (#[trigger] new_seq[i]).0,
            (#[trigger] new_seq[j]).0,
        ) by {
            assert(new_seq[i].0 == old_seq[i].0);
            assert(new_seq[j].0 == old_seq[j].0);
        }
        let es1 = old_seq.take(p);
        let es2 = old_seq.skip(p + 1);
        assert forall|t: int| 0 <= t < es2.len() implies (#[trigger] es2[t]).0 != key by {
            assert(es2[t] == old_seq[p + 1 + t]);
            lemma_lex_lt_irreflexive(key);
        }
        assert(old_seq =~= es1 + seq![old_seq[p]] + es2);
        lemma_entries_to_map_mid(es1, old_seq[p], es2);
        assert(new_seq =~= es1 + seq![(key, value)] + es2);
        lemma_entries_to_map_mid(es1, (key, value), es2);
        assert(entries_to_map(old_seq).insert(key, value) =~= entries_to_map(es1 + es2).insert(
            key,
            value,
        ));
    }

    /// After inserting a fresh entry at `p`, between smaller and larger keys.
    proof fn lemma_after_insert(
        self,
        old_seq: Seq<(Seq<char>, Value)>,
        p: int,
        key: Seq<char>,
        value: Value,
    )
        requires
            0 <= p <= old_seq.len(),
            self.entry_seq() =~= old_seq.insert(p, (key, value)),
            forall|t: int| 0 <= t < p ==> lex_lt((#[trigger] old_seq[t]).0, key),
            forall|t: int| p <= t < old_seq.len() ==> (#[trigger] old_seq[t]).0 != key,
            forall|t: int| p <= t < old_seq.len() ==> !lex_lt((#[trigger] old_seq[t]).0, key),
            forall|i: int, j: int|
                0 <= i < j < old_seq.len() ==> lex_lt(
                    (#[trigger] old_seq[i]).0,
                    (#[trigger] old_seq[j]).0,
                ),
            forall|i: int| 0 <= i < old_seq.len() ==> (#[trigger] old_seq[i]).1.wf(),
            value.wf(),
        ensures
            self.wf(),
            entries_to_map(self.entry_seq()) == entries_to_map(old_seq).insert(key, value),
    {
        let new_seq = self.entry_seq();
        assert forall|t: int| p <= t < old_seq.len() implies lex_lt(
            key,
            (#[trigger] old_seq[t]).0,
        ) by {
            crate::order::lemma_lex_lt_connected(old_seq[t].0, key);
        }
        assert forall|i: int, j: int| 0 <= i < j < new_seq.len() implies lex_lt(
            (#[trigger] new_seq[i]).0,
            (#[trigger] new_seq[j]).0,
        ) by {
            if i < p && j == p {
                assert(new_seq[i] == old_seq[i]);
            } else if i == p && j > p {
                assert(new_seq[j] == old_seq[j - 1]);
            } else if i < p && j > p {
                assert(new_seq[i] == old_seq[i]);
                assert(new_seq[j] == old_seq[j - 1]);
            } else if i < p && j < p {
                assert(new_seq[i] == old_seq[i]);
                assert(new_seq[j] == old_seq[j]);
            } else {
                assert(new_seq[i] == old_seq[i - 1]);
                assert(new_seq[j] == old_seq[j - 1]);
            }
        }
        let es1 = old_seq.take(p);
        let es2 = old_seq.skip(p);
        assert forall|t: int| 0 <= t < es2.len() implies (#[trigger] es2[t]).0 != key by {
            assert(es2[t] == old_seq[p + t]);
        }
        assert(new_seq =~= es1 + seq![(key, value)] + es2);
        assert(old_seq =~= es1 + es2);
        lemma_entries_to_map_mid(es1, (key, value), es2);
    }

    /// Renders the record as one JSON object with keys in order.
    pub fn to_json_line(&self) -> (r: String)
        requires
            self.wf(),
        ensures
            r@ == object_str(self.entry_seq()),
    {
        let mut s = String::new();
        s.push('{');
        let ghost es = self.entry_seq();
        proof {
            assert(s@ =~= seq!['{'] + entries_str(es.take(0)));
        }
        let n = self.entries.len();
        let mut i: usize = 0;
        while i < n
            invariant
                self.wf(),
                n == self.entries.len(),
                es == self.entry_seq(),
                i <= n,
                s@ == seq!['{'] + entries_str(es.take(i as int)),
            decreases n - i,
        {
            if i > 0 {
                s.push(',');
            }
            let e = &self.entries[i];
            proof {
                assert(es[i as int] == (e.0@, e.1));
                assert(es[i as int].1.wf());
            }
            push_quoted(&mut s, e.0.as_str());
            s.push(':');
            push_value(&mut s, &e.1);
            proof {
                assert(es[i as int] == (e.0@, e.1));
                let t = es.take(i + 1 as int);
                assert(t.drop_last() =~= es.take(i as int));
                assert(t.last() == es[i as int]);
                if i == 0 {
                    assert(t.len() == 1);
                    assert(t[0] == es[0]);
                    assert(s@ =~= seq!['{'] + entries_str(t));
                } else {
                    assert(entries_str(t) == entries_str(es.take(i as int)) + seq![',']
                        + entry_str(es[i as int]));
                    assert(s@ =~= seq!['{'] + entries_str(t));
                }
            }
            i = i + 1;
        }
        s.push('}');
        proof {
            assert(es.take(n as int) =~= es);
            assert(s@ =~= object_str(es));
        }
        s
    }

    /// Number of bindings in the record.
    pub fn len(&self) -> (r: usize)
        ensures
            r == self.entry_seq().len(),
    {
        self.entries.len()
    }
}

} // verus!
