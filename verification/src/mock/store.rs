//! What the engine holds: its topics, which of their fields are split into words, and the
//! registries saved while it runs.
//!
//! The topics are fixed once loaded. The choice of word-split fields can change — choosing
//! it and seeing searching change is the thing worth demonstrating — and so can the
//! registry list, which is kept only until the process ends.

use vstd::prelude::*;

use crate::mock::data::MockTopic;
use crate::order::{
    collect_sorted_set, first_index, law_sorted_set, law_stable_sort, lemma_first_index,
    lemma_first_index_props, lemma_first_index_push, ordered_by, sorted_set, stable_sort,
    strict_order, strictly_increasing,
};
use crate::registry::RegistryResource;
use crate::text::{
    clone_strings, lemma_seq_le_antisym, lemma_seq_le_trans, owned, seq_le, seq_lt, str_eq,
    str_le, views,
};

verus! {

/// What `str::to_lowercase` gives for a text: its Unicode lower-case mapping.
pub uninterp spec fn lowercase(s: Seq<char>) -> Seq<char>;

/// Calls `str::to_lowercase`. Its result is named `lowercase` of the argument: the same text
/// always lowers to the same text. Nothing else is said of the mapping itself.
#[verifier::external_body]
fn to_lowercase(s: &str) -> (r: String)
    ensures
        r@ == lowercase(s@),
{
    s.to_lowercase()
}

/// The topics, the word-split fields per topic, and the saved registries.
#[derive(Debug)]
pub struct MockStore {
    pub topics: Vec<MockTopic>,
    /// Per topic, the fields split into words, as an ordered set.
    tokenized: Vec<(String, Vec<String>)>,
    /// Registries added while running.
    registries: Vec<RegistryResource>,
}

// ── Specifications ──────────────────────────────────────────────────────────

/// Whether a topic has this name.
pub open spec fn named(name: Seq<char>) -> spec_fn(MockTopic) -> bool {
    |t: MockTopic| t.name@ == name
}

/// Where the first topic with this name is; the length when there is none.
pub open spec fn topic_index(topics: Seq<MockTopic>, name: Seq<char>) -> nat {
    first_index(topics, named(name))
}

/// The topics a filter picks: all of them, or for each name in turn the topic of that
/// name, where there is one.
pub open spec fn topics_for_spec(topics: Seq<MockTopic>, filter: Option<Seq<String>>) -> Seq<MockTopic> {
    match filter {
        None => topics,
        Some(names) => named_topics(topics, names),
    }
}

pub open spec fn named_topics(topics: Seq<MockTopic>, names: Seq<String>) -> Seq<MockTopic>
    decreases names.len(),
{
    if names.len() == 0 {
        Seq::empty()
    } else {
        let rest = named_topics(topics, names.drop_last());
        let i = topic_index(topics, names.last()@);
        if i < topics.len() {
            rest.push(topics[i as int])
        } else {
            rest
        }
    }
}

/// The topics a list of references points at.
pub open spec fn derefs(s: Seq<&MockTopic>) -> Seq<MockTopic> {
    s.map_values(|t: &MockTopic| *t)
}

/// Whether an entry of the word-split table is for this topic.
pub open spec fn entry_for(topic: Seq<char>) -> spec_fn((String, Vec<String>)) -> bool {
    |e: (String, Vec<String>)| e.0@ == topic
}

/// The word-split fields a table records for a topic; none when it has no entry.
pub open spec fn tok_lookup(entries: Seq<(String, Vec<String>)>, topic: Seq<char>) -> Seq<Seq<char>> {
    let i = first_index(entries, entry_for(topic));
    if i < entries.len() {
        views(entries[i as int].1@)
    } else {
        Seq::empty()
    }
}

/// Whether a table has an entry for a topic.
pub open spec fn has_entry(entries: Seq<(String, Vec<String>)>, topic: Seq<char>) -> bool {
    first_index(entries, entry_for(topic)) < entries.len()
}

/// The word-split fields of `t` after those of `topic` were set to `fields`, given what
/// they were before: the chosen fields as an ordered set for that topic, the same as
/// before for any other.
pub open spec fn tokenized_after(
    before: Seq<Seq<char>>,
    t: Seq<char>,
    topic: Seq<char>,
    fields: Seq<Seq<char>>,
) -> Seq<Seq<char>> {
    if t == topic {
        sorted_set(fields)
    } else {
        before
    }
}

/// Whether a registry has this id.
pub open spec fn has_id(id: Seq<char>) -> spec_fn(RegistryResource) -> bool {
    |r: RegistryResource| r.id@ == id
}

/// The registry list after saving `r`: it replaces the first one with its id, or is added
/// at the end.
pub open spec fn save_spec(regs: Seq<RegistryResource>, r: RegistryResource) -> Seq<RegistryResource> {
    let i = first_index(regs, has_id(r.id@));
    if i < regs.len() {
        regs.update(i as int, r)
    } else {
        regs.push(r)
    }
}

/// The registry list after removing those with this id.
pub open spec fn delete_spec(regs: Seq<RegistryResource>, id: Seq<char>) -> Seq<RegistryResource> {
    regs.filter(other_id(id))
}

/// Whether a registry has an id other than this one.
pub open spec fn other_id(id: Seq<char>) -> spec_fn(RegistryResource) -> bool {
    |r: RegistryResource| r.id@ != id
}

/// `a` sorts strictly before `b`: its name in lower case comes first.
pub open spec fn name_before(a: RegistryResource, b: RegistryResource) -> bool {
    seq_lt(lowercase(a.name@), lowercase(b.name@))
}

pub open spec fn by_name() -> spec_fn(RegistryResource, RegistryResource) -> bool {
    |a: RegistryResource, b: RegistryResource| name_before(a, b)
}

/// No two registries share an id.
pub open spec fn ids_unique(regs: Seq<RegistryResource>) -> bool {
    forall|i: int, j: int| 0 <= i < j < regs.len() ==> #[trigger] regs[i].id@ != #[trigger] regs[j].id@
}

impl MockStore {
    /// The topics, in the order they were loaded.
    pub closed spec fn topic_list(self) -> Seq<MockTopic> {
        self.topics@
    }

    /// The word-split fields currently chosen for a topic.
    pub closed spec fn tokenized_fields(self, topic: Seq<char>) -> Seq<Seq<char>> {
        tok_lookup(self.tokenized@, topic)
    }

    /// The saved registries, in the order they were first saved.
    pub closed spec fn registry_list(self) -> Seq<RegistryResource> {
        self.registries@
    }
}

// ── Operations ──────────────────────────────────────────────────────────────

impl MockStore {
    /// A store of these topics, with no field split into words and no registry saved.
    pub fn with_topics(topics: Vec<MockTopic>) -> (s: Self)
        ensures
            s.topic_list() == topics@,
            forall|t: Seq<char>| #[trigger] s.tokenized_fields(t) == Seq::<Seq<char>>::empty(),
            s.registry_list() == Seq::<RegistryResource>::empty(),
    {
        MockStore { topics, tokenized: Vec::new(), registries: Vec::new() }
    }

    /// The topics, in the order they were loaded.
    pub fn topic_vec(&self) -> (r: &Vec<MockTopic>)
        ensures
            r@ == self.topic_list(),
    {
        &self.topics
    }

    /// The first topic of that name.
    pub fn topic(&self, name: &str) -> (r: Option<&MockTopic>)
        ensures
            r is None <==> topic_index(self.topic_list(), name@) == self.topic_list().len(),
            r matches Some(t) ==> *t == self.topic_list()[topic_index(self.topic_list(), name@) as int],
    {
        let mut i: usize = 0;
        while i < self.topics.len()
            invariant
                i <= self.topics@.len(),
                forall|k: int| 0 <= k < i ==> !named(name@)(#[trigger] self.topics@[k]),
            decreases self.topics.len() - i,
        {
            if str_eq(self.topics[i].name.as_str(), name) {
                proof {
                    lemma_first_index(self.topics@, named(name@), i as int);
                }
                return Some(&self.topics[i]);
            }
            i += 1;
        }
        proof {
            lemma_first_index(self.topics@, named(name@), i as int);
        }
        None
    }

    /// All topics, or only those named that exist.
    pub fn topics_for(&self, filter: Option<&[String]>) -> (r: Vec<&MockTopic>)
        ensures
            derefs(r@) == topics_for_spec(
                self.topic_list(),
                match filter {
                    Some(f) => Some(f@),
                    None => None,
                },
            ),
    {
        let mut out: Vec<&MockTopic> = Vec::new();
        match filter {
            None => {
                let mut i: usize = 0;
                while i < self.topics.len()
                    invariant
                        i <= self.topics@.len(),
                        derefs(out@) == self.topics@.subrange(0, i as int),
                    decreases self.topics.len() - i,
                {
                    let ghost before = out@;
                    out.push(&self.topics[i]);
                    assert(out@ == before.push(&self.topics@[i as int]));
                    assert(derefs(out@) =~= derefs(before).push(self.topics@[i as int]));
                    assert(derefs(out@) =~= self.topics@.subrange(0, i + 1));
                    i += 1;
                }
                assert(self.topics@.subrange(0, self.topics@.len() as int) == self.topics@);
            },
            Some(names) => {
                let mut i: usize = 0;
                while i < names.len()
                    invariant
                        i <= names@.len(),
                        derefs(out@) == named_topics(
                            self.topics@,
                            names@.subrange(0, i as int),
                        ),
                    decreases names.len() - i,
                {
                    let ghost before = out@;
                    proof {
                        let w = names@.subrange(0, i + 1);
                        assert(w.drop_last() == names@.subrange(0, i as int));
                        assert(w.last() == names@[i as int]);
                    }
                    let found = self.topic(names[i].as_str());
                    proof {
                        let w = names@.subrange(0, i + 1);
                        let j = topic_index(self.topics@, names@[i as int]@);
                        lemma_first_index_props(self.topics@, named(names@[i as int]@));
                        assert(named_topics(self.topics@, w) == (if j < self.topics@.len() {
                            named_topics(self.topics@, names@.subrange(0, i as int)).push(self.topics@[j as int])
                        } else {
                            named_topics(self.topics@, names@.subrange(0, i as int))
                        }));
                    }
                    match found {
                        Some(t) => {
                            out.push(t);
                            assert(out@ == before.push(t));
                            assert(derefs(out@) =~= derefs(before).push(*t));
                        },
                        None => {},
                    }
                    i += 1;
                }
                assert(names@.subrange(0, names@.len() as int) == names@);
            },
        }
        out
    }

    /// Which fields of a topic are currently split into words, as an ordered set.
    pub fn tokenized_for(&self, topic: &str) -> (r: Vec<String>)
        ensures
            views(r@) == self.tokenized_fields(topic@),
    {
        let mut i: usize = 0;
        while i < self.tokenized.len()
            invariant
                i <= self.tokenized@.len(),
                forall|k: int| 0 <= k < i ==> !entry_for(topic@)(#[trigger] self.tokenized@[k]),
            decreases self.tokenized.len() - i,
        {
            if str_eq(self.tokenized[i].0.as_str(), topic) {
                proof {
                    lemma_first_index(self.tokenized@, entry_for(topic@), i as int);
                }
                return clone_strings(&self.tokenized[i].1);
            }
            i += 1;
        }
        proof {
            lemma_first_index(self.tokenized@, entry_for(topic@), i as int);
        }
        Vec::new()
    }

    /// Replaces which fields of a topic are split into words; an empty list turns it off.
    pub fn set_tokenized(&mut self, topic: &str, fields: Vec<String>)
        ensures
            final(self).topic_list() == old(self).topic_list(),
            final(self).registry_list() == old(self).registry_list(),
            forall|t: Seq<char>| #[trigger] final(self).tokenized_fields(t) == tokenized_after(
                old(self).tokenized_fields(t),
                t,
                topic@,
                views(fields@),
            ),
    {
        let set = collect_sorted_set(&fields);
        let ghost old_entries = self.tokenized@;
        let mut kept: Vec<(String, Vec<String>)> = Vec::new();
        let n = self.tokenized.len();
        let mut i: usize = 0;
        while i < n
            invariant
                n == old_entries.len(),
                self.tokenized@ == old_entries,
                i <= n,
                forall|k: int| 0 <= k < kept@.len() ==> (#[trigger] kept@[k]).0@ != topic@,
                forall|t: Seq<char>| t != topic@ ==> #[trigger] has_entry(kept@, t) == has_entry(
                    old_entries.subrange(0, i as int),
                    t,
                ),
                forall|t: Seq<char>| t != topic@ ==> #[trigger] tok_lookup(kept@, t) == tok_lookup(
                    old_entries.subrange(0, i as int),
                    t,
                ),
            decreases n - i,
        {
            let ghost sub = old_entries.subrange(0, i as int);
            let ghost kept_before = kept@;
            proof {
                assert(old_entries.subrange(0, i + 1) == sub.push(old_entries[i as int]));
            }
            if !str_eq(self.tokenized[i].0.as_str(), topic) {
                let e = (self.tokenized[i].0.clone(), clone_strings(&self.tokenized[i].1));
                kept.push(e);
                proof {
                    assert(e.0@ == old_entries[i as int].0@);
                    assert(views(e.1@) == views(old_entries[i as int].1@));
                    assert(kept@ == kept_before.push(e));
                    assert forall|t: Seq<char>|
                        #![trigger has_entry(kept@, t)]
                        #![trigger tok_lookup(kept@, t)]
                        t != topic@ implies has_entry(kept@, t)
                        == has_entry(old_entries.subrange(0, i + 1), t) && tok_lookup(kept@, t)
                        == tok_lookup(old_entries.subrange(0, i + 1), t) by {
                        lemma_first_index_push(kept_before, entry_for(t), e);
                        lemma_first_index_push(sub, entry_for(t), old_entries[i as int]);
                        assert(entry_for(t)(e) == entry_for(t)(old_entries[i as int]));
                        lemma_first_index_props(kept_before, entry_for(t));
                        lemma_first_index_props(sub, entry_for(t));
                        assert(has_entry(kept_before, t) == has_entry(sub, t));
                        assert(tok_lookup(kept_before, t) == tok_lookup(sub, t));
                    }
                }
            } else {
                proof {
                    assert forall|t: Seq<char>|
                        #![trigger has_entry(kept@, t)]
                        #![trigger tok_lookup(kept@, t)]
                        t != topic@ implies has_entry(kept@, t)
                        == has_entry(old_entries.subrange(0, i + 1), t) && tok_lookup(kept@, t)
                        == tok_lookup(old_entries.subrange(0, i + 1), t) by {
                        lemma_first_index_push(sub, entry_for(t), old_entries[i as int]);
                        lemma_first_index_props(sub, entry_for(t));
                        assert(has_entry(kept_before, t) == has_entry(sub, t));
                        assert(tok_lookup(kept_before, t) == tok_lookup(sub, t));
                    }
                }
            }
            i += 1;
        }
        proof {
            assert(old_entries.subrange(0, n as int) == old_entries);
        }
        let ghost kept_final = kept@;
        proof {
            assert forall|k: int| 0 <= k < kept_final.len() implies !entry_for(topic@)(
                #[trigger] kept_final[k],
            ) by {}
            lemma_first_index(kept_final, entry_for(topic@), kept_final.len() as int);
        }
        if set.len() > 0 {
            let e = (owned(topic), set);
            kept.push(e);
            proof {
                assert(kept@ == kept_final.push(e));
                assert forall|t: Seq<char>| #[trigger] tok_lookup(kept@, t) == tokenized_after(
                    tok_lookup(old_entries, t),
                    t,
                    topic@,
                    views(fields@),
                ) by {
                    lemma_first_index_push(kept_final, entry_for(t), e);
                    lemma_first_index_props(kept_final, entry_for(t));
                    if t != topic@ {
                        assert(has_entry(kept_final, t) == has_entry(old_entries, t));
                        assert(tok_lookup(kept_final, t) == tok_lookup(old_entries, t));
                    }
                }
            }
        } else {
            proof {
                assert forall|t: Seq<char>| #[trigger] tok_lookup(kept@, t) == tokenized_after(
                    tok_lookup(old_entries, t),
                    t,
                    topic@,
                    views(fields@),
                ) by {
                    if t == topic@ {
                        assert(views(set@).len() == 0);
                        assert(views(set@) =~= Seq::<Seq<char>>::empty());
                    } else {
                        assert(tok_lookup(kept_final, t) == tok_lookup(old_entries, t));
                    }
                }
            }
        }
        self.tokenized = kept;
    }
    /// Registries by name, ignoring case; those of equal names keep the order they were
    /// saved in.
    pub fn list_registries(&self) -> (r: Vec<RegistryResource>)
        ensures
            r@ == stable_sort(self.registry_list(), by_name()),
    {
        let ghost input = self.registries@;
        let n = self.registries.len();
        let mut out: Vec<RegistryResource> = Vec::new();
        // The lower-case name of each entry of `out`, at the same index.
        let mut keys: Vec<String> = Vec::new();
        let mut i: usize = 0;
        while i < n
            invariant
                n == input.len(),
                input == self.registries@,
                i <= n,
                out@ == stable_sort(input.subrange(0, i as int), by_name()),
                keys@.len() == out@.len(),
                forall|k: int| 0 <= k < keys@.len() ==> (#[trigger] keys@[k])@ == lowercase(
                    out@[k].name@,
                ),
            decreases n - i,
        {
            let x = self.registries[i].clone();
            let kx = to_lowercase(x.name.as_str());
            let ghost t = out@;
            let mut j: usize = 0;
            while j < out.len() && !(str_le(kx.as_str(), keys[j].as_str()) && !str_eq(
                kx.as_str(),
                keys[j].as_str(),
            ))
                invariant
                    j <= out@.len(),
                    t == out@,
                    keys@.len() == out@.len(),
                    kx@ == lowercase(x.name@),
                    forall|k: int| 0 <= k < keys@.len() ==> (#[trigger] keys@[k])@ == lowercase(
                        out@[k].name@,
                    ),
                    forall|k: int| 0 <= k < j ==> !name_before(x, #[trigger] t[k]),
                decreases out.len() - j,
            {
                assert(keys@[j as int]@ == lowercase(out@[j as int].name@));
                j += 1;
            }
            proof {
                if j < out.len() {
                    assert(keys@[j as int]@ == lowercase(out@[j as int].name@));
                }
                lemma_first_index(t, |y: RegistryResource| by_name()(x, y), j as int);
                let w = input.subrange(0, i + 1);
                assert(w.drop_last() == input.subrange(0, i as int));
                assert(w.last() == x);
            }
            let ghost kb = keys@;
            out.insert(j, x);
            keys.insert(j, kx);
            proof {
                assert forall|k: int| 0 <= k < keys@.len() implies (#[trigger] keys@[k])@
                    == lowercase(out@[k].name@) by {
                    if k < j {
                        assert(keys@[k] == kb[k] && out@[k] == t[k]);
                    } else if k > j {
                        assert(keys@[k] == kb[k - 1] && out@[k] == t[k - 1]);
                    }
                }
            }
            i += 1;
        }
        proof {
            assert(input.subrange(0, n as int) == input);
        }
        out
    }

    /// Adds a registry, or replaces the first one with its id.
    pub fn save_registry(&mut self, resource: RegistryResource)
        ensures
            final(self).topic_list() == old(self).topic_list(),
            forall|t: Seq<char>| #[trigger] final(self).tokenized_fields(t) == old(
                self,
            ).tokenized_fields(t),
            final(self).registry_list() == save_spec(old(self).registry_list(), resource),
    {
        let mut i: usize = 0;
        while i < self.registries.len()
            invariant
                *self == *old(self),
                i <= self.registries@.len(),
                forall|k: int| 0 <= k < i ==> !has_id(resource.id@)(#[trigger] self.registries@[k]),
            decreases self.registries.len() - i,
        {
            if str_eq(self.registries[i].id.as_str(), resource.id.as_str()) {
                proof {
                    lemma_first_index(self.registries@, has_id(resource.id@), i as int);
                }
                self.registries.set(i, resource);
                return;
            }
            i += 1;
        }
        proof {
            lemma_first_index(self.registries@, has_id(resource.id@), i as int);
        }
        self.registries.push(resource);
    }

    /// Removes the registries with this id.
    pub fn delete_registry(&mut self, id: &str)
        ensures
            final(self).topic_list() == old(self).topic_list(),
            forall|t: Seq<char>| #[trigger] final(self).tokenized_fields(t) == old(
                self,
            ).tokenized_fields(t),
            final(self).registry_list() == delete_spec(old(self).registry_list(), id@),
    {
        let ghost input = self.registries@;
        let mut out: Vec<RegistryResource> = Vec::new();
        let n = self.registries.len();
        let mut i: usize = 0;
        while i < n
            invariant
                n == input.len(),
                input == self.registries@,
                i <= n,
                out@ == input.subrange(0, i as int).filter(other_id(id@)),
            decreases n - i,
        {
            proof {
                assert(input.subrange(0, i + 1) == input.subrange(0, i as int).push(input[i as int]));
                input.subrange(0, i as int).lemma_filter_push(input[i as int], other_id(id@));
            }
            if !str_eq(self.registries[i].id.as_str(), id) {
                out.push(self.registries[i].clone());
            }
            i += 1;
        }
        proof {
            assert(input.subrange(0, n as int) == input);
        }
        self.registries = out;
    }
}

// ── Laws ────────────────────────────────────────────────────────────────────

/// What is chosen for word splitting is read back as the chosen fields, each once and in
/// increasing order; an empty choice reads back as none; choosing for one topic leaves
/// every other topic as it was.
pub proof fn law_tokenized_read_back(
    before: Seq<Seq<char>>,
    t: Seq<char>,
    topic: Seq<char>,
    fields: Seq<Seq<char>>,
)
    ensures
        tokenized_after(before, topic, topic, fields).to_set() == fields.to_set(),
        strictly_increasing(tokenized_after(before, topic, topic, fields)),
        fields.len() == 0 ==> tokenized_after(before, topic, topic, fields).len() == 0,
        t != topic ==> tokenized_after(before, t, topic, fields) == before,
{
    law_sorted_set(fields);
}

/// The word-split fields of `t` after a run of choices, each a topic and its fields, in
/// the order they were made, given what `t` had before.
pub open spec fn tokenized_after_calls(
    before: Seq<Seq<char>>,
    t: Seq<char>,
    calls: Seq<(Seq<char>, Seq<Seq<char>>)>,
) -> Seq<Seq<char>>
    decreases calls.len(),
{
    if calls.len() == 0 {
        before
    } else {
        tokenized_after(
            tokenized_after_calls(before, t, calls.drop_last()),
            t,
            calls.last().0,
            calls.last().1,
        )
    }
}

/// Over a run of choices, the last choice for a topic decides what it reads back: those
/// fields as an ordered set, whatever choices for other topics came after. A topic never
/// chosen keeps what it had, which in a fresh store is nothing.
pub proof fn law_last_choice_decides(
    before: Seq<Seq<char>>,
    t: Seq<char>,
    calls: Seq<(Seq<char>, Seq<Seq<char>>)>,
)
    ensures
        forall|k: int|
            #![trigger calls[k]]
            0 <= k < calls.len() && calls[k].0 == t && (forall|j: int|
                k < j < calls.len() ==> #[trigger] calls[j].0 != t)
                ==> tokenized_after_calls(before, t, calls) == sorted_set(calls[k].1),
        (forall|j: int| 0 <= j < calls.len() ==> #[trigger] calls[j].0 != t)
            ==> tokenized_after_calls(before, t, calls) == before,
    decreases calls.len(),
{
    if calls.len() > 0 {
        let init = calls.drop_last();
        law_last_choice_decides(before, t, init);
        let n = calls.len() - 1;
        assert forall|k: int|
            #![trigger calls[k]]
            0 <= k < calls.len() && calls[k].0 == t && (forall|j: int|
                k < j < calls.len() ==> #[trigger] calls[j].0 != t)
            implies tokenized_after_calls(before, t, calls) == sorted_set(calls[k].1) by {
            if k < n {
                assert(calls[n].0 != t);
                assert(init[k] == calls[k]);
                assert forall|j: int| k < j < init.len() implies #[trigger] init[j].0 != t by {
                    assert(init[j] == calls[j]);
                }
            }
        }
        if forall|j: int| 0 <= j < calls.len() ==> #[trigger] calls[j].0 != t {
            assert(calls[n].0 != t);
            assert forall|j: int| 0 <= j < init.len() implies #[trigger] init[j].0 != t by {
                assert(init[j] == calls[j]);
            }
        }
    }
}

/// Saving a registry puts it in the list. Under an id already there it replaces that
/// entry and the list does not grow; under a new id it is added. Every registry with
/// another id stays, and ids that were unique stay unique.
pub proof fn law_save_registry(regs: Seq<RegistryResource>, r: RegistryResource)
    ensures
        save_spec(regs, r).contains(r),
        (exists|i: int| 0 <= i < regs.len() && #[trigger] regs[i].id@ == r.id@) ==> save_spec(
            regs,
            r,
        ).len() == regs.len(),
        (forall|i: int| 0 <= i < regs.len() ==> #[trigger] regs[i].id@ != r.id@) ==> save_spec(
            regs,
            r,
        ).len() == regs.len() + 1,
        forall|x: RegistryResource|
            regs.contains(x) && x.id@ != r.id@ ==> #[trigger] save_spec(regs, r).contains(x),
        ids_unique(regs) ==> ids_unique(save_spec(regs, r)),
{
    let p = has_id(r.id@);
    lemma_first_index_props(regs, p);
    let j = first_index(regs, p) as int;
    let after = save_spec(regs, r);
    if j < regs.len() {
        assert(after[j] == r);
    } else {
        assert(after[regs.len() as int] == r);
        assert forall|i: int| 0 <= i < regs.len() implies #[trigger] regs[i].id@ != r.id@ by {
            assert(!p(regs[i]));
        }
    }
    if exists|i: int| 0 <= i < regs.len() && #[trigger] regs[i].id@ == r.id@ {
        let i = choose|i: int| 0 <= i < regs.len() && #[trigger] regs[i].id@ == r.id@;
        assert(p(regs[i]));
    }
    assert forall|x: RegistryResource| regs.contains(x) && x.id@ != r.id@ implies #[trigger] after.contains(x) by {
        let k = choose|k: int| 0 <= k < regs.len() && regs[k] == x;
        assert(after[k] == x);
    }
    if ids_unique(regs) {
        assert forall|a: int, b: int| 0 <= a < b < after.len() implies #[trigger] after[a].id@
            != #[trigger] after[b].id@ by {
            if j < regs.len() {
                if a == j {
                    assert(regs[b].id@ != regs[j].id@);
                } else if b == j {
                    assert(regs[a].id@ != regs[j].id@);
                }
            } else if b == regs.len() {
                assert(!p(regs[a]));
            }
        }
    }
}

/// Deleting removes every registry with that id and keeps all the others.
pub proof fn law_delete_registry(regs: Seq<RegistryResource>, id: Seq<char>)
    ensures
        forall|x: RegistryResource| #[trigger] delete_spec(regs, id).contains(x) <==> (regs.contains(x)
            && x.id@ != id),
        delete_spec(regs, id).len() <= regs.len(),
{
    broadcast use vstd::seq_lib::group_filter_ensures;
    let pred = other_id(id);
    regs.lemma_filter_len(pred);
    assert forall|x: RegistryResource| #[trigger] delete_spec(regs, id).contains(x) <==> (regs.contains(x)
        && x.id@ != id) by {
        if regs.contains(x) && x.id@ != id {
            let k = choose|k: int| 0 <= k < regs.len() && regs[k] == x;
            regs.lemma_filter_contains(pred, k);
        }
        if delete_spec(regs, id).contains(x) {
            regs.lemma_filter_contains_rev(pred, x);
            let k = choose|k: int| 0 <= k < regs.filter(pred).len() && regs.filter(pred)[k] == x;
            regs.lemma_filter_pred(pred, k);
        }
    }
}

/// Listing gives every saved registry, each as many times as it was there, ordered by
/// name ignoring case.
pub proof fn law_registries_listed_by_name(regs: Seq<RegistryResource>)
    ensures
        stable_sort(regs, by_name()).to_multiset() == regs.to_multiset(),
        stable_sort(regs, by_name()).len() == regs.len(),
        ordered_by(stable_sort(regs, by_name()), by_name()),
{
    assert forall|a: RegistryResource, b: RegistryResource, c: RegistryResource|
        #[trigger] by_name()(a, b) && #[trigger] by_name()(b, c) implies by_name()(a, c) by {
        let (la, lb, lc) = (lowercase(a.name@), lowercase(b.name@), lowercase(c.name@));
        lemma_seq_le_trans(la, lb, lc);
        if la == lc {
            lemma_seq_le_antisym(la, lb);
        }
    }
    assert(strict_order(by_name()));
    law_stable_sort(regs, by_name());
}

impl Default for MockStore {
    fn default() -> (s: Self)
        ensures
            s.topic_list() == Seq::<MockTopic>::empty(),
            forall|t: Seq<char>| #[trigger] s.tokenized_fields(t) == Seq::<Seq<char>>::empty(),
            s.registry_list() == Seq::<RegistryResource>::empty(),
    {
        MockStore::with_topics(Vec::new())
    }
}

} // verus!
