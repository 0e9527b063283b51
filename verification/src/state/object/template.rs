//! Templates: the attribute records a caller hands over, with one value per
//! attribute kind. Where a kind is given more than once, the last value wins
//! and the kind keeps the place of its first record.
use vstd::prelude::*;

use crate::cryptoki::bindings::{CK_ATTRIBUTE, CK_ATTRIBUTE_TYPE};

verus! {

/// An attribute as contracts see it: its kind and its value bytes.
pub type AttributeView = (CK_ATTRIBUTE_TYPE, Seq<u8>);

/// The records of `raw`, each by its view.
pub open spec fn records(raw: Seq<CK_ATTRIBUTE>) -> Seq<AttributeView> {
    Seq::new(raw.len(), |i: int| raw[i]@)
}

/// No kind occurs twice in `s`.
pub open spec fn distinct_kinds(s: Seq<AttributeView>) -> bool {
    forall|i: int, j: int| 0 <= i < j < s.len() ==> s[i].0 != s[j].0
}

/// Some record of `s` has the kind `kind`.
pub open spec fn has_kind(s: Seq<AttributeView>, kind: CK_ATTRIBUTE_TYPE) -> bool {
    exists|i: int| 0 <= i < s.len() && s[i].0 == kind
}

/// The place of a record of kind `kind` in `s`, where there is one.
pub open spec fn index_of_kind(s: Seq<AttributeView>, kind: CK_ATTRIBUTE_TYPE) -> int {
    choose|i: int| 0 <= i < s.len() && s[i].0 == kind
}

/// The value of the last record of kind `kind` in `s`, if there is one.
pub open spec fn last_value(s: Seq<AttributeView>, kind: CK_ATTRIBUTE_TYPE) -> Option<Seq<u8>>
    decreases s.len(),
{
    if s.len() == 0 {
        None
    } else if s.last().0 == kind {
        Some(s.last().1)
    } else {
        last_value(s.drop_last(), kind)
    }
}

/// `s` after `record` was written to it: in place of the record of the same
/// kind if `s` has one, at the end otherwise.
pub open spec fn upsert(s: Seq<AttributeView>, record: AttributeView) -> Seq<AttributeView> {
    if has_kind(s, record.0) {
        s.update(index_of_kind(s, record.0), record)
    } else {
        s.push(record)
    }
}

/// The template that the records `raw` give, written one after the other.
pub open spec fn build_spec(raw: Seq<AttributeView>) -> Seq<AttributeView>
    decreases raw.len(),
{
    if raw.len() == 0 {
        Seq::empty()
    } else {
        upsert(build_spec(raw.drop_last()), raw.last())
    }
}

/// In a sequence without repeated kinds, a kind resolves to the value of the
/// one record that has it.
pub proof fn lemma_last_value_at(s: Seq<AttributeView>, i: int)
    requires
        distinct_kinds(s),
        0 <= i < s.len(),
    ensures
        last_value(s, s[i].0) == Some(s[i].1),
    decreases s.len(),
{
    if i < s.len() - 1 {
        lemma_last_value_at(s.drop_last(), i);
    }
}

/// A kind that no record has resolves to nothing, and the other way round.
pub proof fn lemma_last_value_none(s: Seq<AttributeView>, kind: CK_ATTRIBUTE_TYPE)
    ensures
        last_value(s, kind) is None <==> !has_kind(s, kind),
    decreases s.len(),
{
    if s.len() > 0 {
        lemma_last_value_none(s.drop_last(), kind);
        if s.last().0 == kind {
            assert(s[s.len() - 1].0 == kind);
        } else if has_kind(s, kind) {
            let i = index_of_kind(s, kind);
            assert(s.drop_last()[i].0 == kind);
        } else if has_kind(s.drop_last(), kind) {
            let i = index_of_kind(s.drop_last(), kind);
            assert(s[i].0 == kind);
        }
    }
}

/// Writing a record keeps the kinds distinct, makes its kind resolve to its
/// value, and leaves every other kind as it was.
pub proof fn lemma_upsert(s: Seq<AttributeView>, record: AttributeView, kind: CK_ATTRIBUTE_TYPE)
    requires
        distinct_kinds(s),
    ensures
        distinct_kinds(upsert(s, record)),
        last_value(upsert(s, record), kind) == if kind == record.0 {
            Some(record.1)
        } else {
            last_value(s, kind)
        },
{
    let t = upsert(s, record);
    if has_kind(s, record.0) {
        let p = index_of_kind(s, record.0);
        assert(distinct_kinds(t));
        if kind == record.0 {
            lemma_last_value_at(t, p);
        } else {
            lemma_last_value_none(s, kind);
            lemma_last_value_none(t, kind);
            if has_kind(s, kind) {
                let i = index_of_kind(s, kind);
                assert(t[i] == s[i]);
                lemma_last_value_at(s, i);
                lemma_last_value_at(t, i);
            } else if has_kind(t, kind) {
                let i = index_of_kind(t, kind);
                assert(s[i].0 == kind);
            }
        }
    } else {
        assert(t.drop_last() == s);
        assert forall|i: int, j: int| 0 <= i < j < t.len() implies t[i].0 != t[j].0 by {
            if j == s.len() {
                assert(s[i].0 != record.0);
            }
        }
    }
}

/// A built template holds no kind twice.
pub proof fn lemma_build_distinct(raw: Seq<AttributeView>)
    ensures
        distinct_kinds(build_spec(raw)),
    decreases raw.len(),
{
    if raw.len() > 0 {
        lemma_build_distinct(raw.drop_last());
        lemma_upsert(build_spec(raw.drop_last()), raw.last(), 0);
    }
}

/// Last write wins: in the built template every kind resolves to the value
/// of the last record of that kind among those given.
pub proof fn lemma_build_last_write_wins(raw: Seq<AttributeView>, kind: CK_ATTRIBUTE_TYPE)
    ensures
        last_value(build_spec(raw), kind) == last_value(raw, kind),
    decreases raw.len(),
{
    if raw.len() > 0 {
        lemma_build_distinct(raw.drop_last());
        lemma_build_last_write_wins(raw.drop_last(), kind);
        lemma_upsert(build_spec(raw.drop_last()), raw.last(), kind);
    }
}

/// The kinds of the records of `s`, in their order.
pub open spec fn kinds_of(s: Seq<AttributeView>) -> Seq<CK_ATTRIBUTE_TYPE> {
    Seq::new(s.len(), |i: int| s[i].0)
}

/// The kinds that occur in `raw`, each once, in the order in which they
/// occur first.
pub open spec fn first_kinds(raw: Seq<AttributeView>) -> Seq<CK_ATTRIBUTE_TYPE>
    decreases raw.len(),
{
    if raw.len() == 0 {
        Seq::empty()
    } else if first_kinds(raw.drop_last()).contains(raw.last().0) {
        first_kinds(raw.drop_last())
    } else {
        first_kinds(raw.drop_last()).push(raw.last().0)
    }
}

/// First place stays: the built template holds the kinds of the records
/// given, each once, in the order in which they were given first.
pub proof fn lemma_build_keeps_first_place(raw: Seq<AttributeView>)
    ensures
        kinds_of(build_spec(raw)) == first_kinds(raw),
    decreases raw.len(),
{
    if raw.len() == 0 {
        assert(kinds_of(build_spec(raw)) =~= first_kinds(raw));
    } else {
        let before = build_spec(raw.drop_last());
        let record = raw.last();
        lemma_build_keeps_first_place(raw.drop_last());
        if has_kind(before, record.0) {
            let p = index_of_kind(before, record.0);
            assert(kinds_of(before)[p] == record.0);
            assert(kinds_of(before.update(p, record)) =~= kinds_of(before));
        } else {
            if kinds_of(before).contains(record.0) {
                let i = choose|i: int| 0 <= i < before.len() && kinds_of(before)[i] == record.0;
                assert(before[i].0 == record.0);
            }
            assert(kinds_of(before.push(record)) =~= kinds_of(before).push(record.0));
        }
    }
}

/// A validated, ordered collection of attributes, one value per kind.
pub struct Template {
    attributes: Vec<CK_ATTRIBUTE>,
}

impl View for Template {
    type V = Seq<AttributeView>;

    /// The attributes in order, each by its view.
    closed spec fn view(&self) -> Seq<AttributeView> {
        records(self.attributes@)
    }
}

impl Template {
    /// No kind occurs twice.
    pub open spec fn wf(&self) -> bool {
        distinct_kinds(self@)
    }

    /// The template without attributes.
    pub fn new() -> (t: Template)
        ensures
            t.wf(),
            t@ == Seq::<AttributeView>::empty(),
    {
        let t = Template { attributes: Vec::new() };
        assert(t@ =~= Seq::<AttributeView>::empty());
        t
    }

    /// Builds the template from a caller's records, in their order. A kind
    /// that was given before has its value replaced; a new kind is added at
    /// the end. No kind is rejected.
    pub fn build(raw: Vec<CK_ATTRIBUTE>) -> (t: Template)
        ensures
            t.wf(),
            t@ == build_spec(records(raw@)),
            kinds_of(t@) == first_kinds(records(raw@)),
            forall|kind: CK_ATTRIBUTE_TYPE|
                last_value(t@, kind) == #[trigger] last_value(records(raw@), kind),
    {
        let ghost all = records(raw@);
        let mut t = Template::new();
        for record in it: raw
            invariant
                all == records(raw@),
                it.seq() == raw@,
                t.wf(),
                t@ == build_spec(all.take(it.index() as int)),
        {
            proof {
                let n = it.index() as int;
                assert(all.take(n + 1).drop_last() =~= all.take(n));
                assert(all.take(n + 1).last() == record@);
            }
            t.set(record);
        }
        proof {
            assert(all.take(raw@.len() as int) =~= all);
            lemma_build_keeps_first_place(all);
            assert forall|kind: CK_ATTRIBUTE_TYPE|
                last_value(t@, kind) == #[trigger] last_value(all, kind) by {
                lemma_build_last_write_wins(all, kind);
            }
        }
        t
    }

    /// Writes one attribute: over the value of its kind if the template has
    /// that kind, at the end otherwise.
    pub fn set(&mut self, record: CK_ATTRIBUTE)
        requires
            old(self).wf(),
        ensures
            final(self).wf(),
            final(self)@ == upsert(old(self)@, record@),
    {
        let ghost before = self@;
        let ghost written = record@;
        let mut i: usize = 0;
        while i < self.attributes.len()
            invariant
                i <= self.attributes.len(),
                self@ == before,
                before == old(self)@,
                written == record@,
                distinct_kinds(before),
                forall|j: int| 0 <= j < i ==> before[j].0 != written.0,
            decreases self.attributes.len() - i,
        {
            if self.attributes[i].kind == record.kind {
                proof {
                    assert(before[i as int].0 == written.0);
                    assert(has_kind(before, written.0));
                    assert(index_of_kind(before, written.0) == i);
                    lemma_upsert(before, written, 0);
                }
                self.attributes.set(i, record);
                assert(self@ =~= before.update(i as int, written));
                return ;
            }
            i += 1;
        }
        proof {
            assert(!has_kind(before, written.0));
            lemma_upsert(before, written, 0);
        }
        self.attributes.push(record);
        assert(self@ =~= before.push(written));
    }

    /// The value of the attribute of kind `kind`, if the template has one.
    pub fn get(&self, kind: CK_ATTRIBUTE_TYPE) -> (value: Option<&Vec<u8>>)
        requires
            self.wf(),
        ensures
            match value {
                Some(bytes) => last_value(self@, kind) == Some(bytes@),
                None => last_value(self@, kind) is None,
            },
    {
        let mut i: usize = 0;
        while i < self.attributes.len()
            invariant
                i <= self.attributes.len(),
                self.wf(),
                forall|j: int| 0 <= j < i ==> self@[j].0 != kind,
            decreases self.attributes.len() - i,
        {
            if self.attributes[i].kind == kind {
                proof {
                    assert(self@[i as int] == self.attributes@[i as int]@);
                    lemma_last_value_at(self@, i as int);
                }
                return Some(&self.attributes[i].value);
            }
            i += 1;
        }
        proof {
            lemma_last_value_none(self@, kind);
        }
        None
    }

    /// The kinds of the attributes, in their order.
    pub fn kinds(&self) -> (kinds: Vec<CK_ATTRIBUTE_TYPE>)
        ensures
            kinds@ == kinds_of(self@),
    {
        let mut kinds: Vec<CK_ATTRIBUTE_TYPE> = Vec::new();
        let mut i: usize = 0;
        while i < self.attributes.len()
            invariant
                i <= self.attributes.len(),
                kinds@ == kinds_of(self@).take(i as int),
            decreases self.attributes.len() - i,
        {
            kinds.push(self.attributes[i].kind);
            i += 1;
        }
        kinds
    }

    /// The number of attributes.
    pub fn len(&self) -> (n: usize)
        ensures
            n == self@.len(),
    {
        self.attributes.len()
    }
}

} // verus!
