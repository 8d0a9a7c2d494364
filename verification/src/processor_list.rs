//! The selectable, searchable processor list backing the picker.

use vstd::prelude::*;

use vstd::multiset::Multiset;

use crate::processor::ProcessorInfo;
use crate::text::lemma_str_le_total;
use crate::text::lemma_str_le_trans;
use crate::text::lower_of;
use crate::text::spec_contains_seq;
use crate::text::spec_str_le;
use crate::text::str_contains;
use crate::text::str_eq;
use crate::text::str_le;
use crate::text::to_lowercase_str;

verus! {

broadcast use vstd::seq_lib::group_to_multiset_ensures, vstd::multiset::group_multiset_axioms;

/// One processor as the picker shows it, with its selection state.
#[derive(Debug, Clone)]
pub struct ProcessorCard {
    pub id: String,
    pub name: String,
    pub description: String,
    pub icon: String,
    pub version: String,
    pub available: bool,
    pub selected: bool,
}

/// A card carries a description's fields, with a default icon when the
/// description has none, and starts unselected.
pub open spec fn card_of_info(card: ProcessorCard, info: ProcessorInfo) -> bool {
    &&& card.id@ == info.id@
    &&& card.name@ == info.name@
    &&& card.description@ == info.description@
    &&& (match info.icon {
        Some(icon) => card.icon@ == icon@,
        None => card.icon@ == "📊"@,
    })
    &&& card.version@ == info.version@
    &&& card.available == info.available
    &&& !card.selected
}

impl ProcessorCard {
    /// Builds a card from a processor description; a missing icon falls back
    /// to a default, and the card starts unselected.
    pub fn from_processor_info(info: ProcessorInfo) -> (card: ProcessorCard)
        ensures
            card_of_info(card, info),
    {
        let icon = match info.icon {
            Some(icon) => icon,
            None => "📊".to_owned(),
        };
        ProcessorCard {
            id: info.id,
            name: info.name,
            description: info.description,
            icon,
            version: info.version,
            available: info.available,
            selected: false,
        }
    }
}

/// A card matches a query when its lowercased name, description or identifier
/// contains the lowercased query.
pub open spec fn card_matches_query(card: ProcessorCard, query: Seq<char>) -> bool {
    ||| spec_contains_seq(lower_of(card.name@), lower_of(query))
    ||| spec_contains_seq(lower_of(card.description@), lower_of(query))
    ||| spec_contains_seq(lower_of(card.id@), lower_of(query))
}

/// A card's selection flag under a current selection.
pub open spec fn card_selected_flag(card: ProcessorCard, selection: Option<String>) -> bool {
    match selection {
        Some(id) => card.id@ == id@,
        None => false,
    }
}

/// The position of the first card with the given identifier, if any.
pub open spec fn spec_first_card(cards: Seq<ProcessorCard>, id: Seq<char>) -> Option<int>
    decreases cards.len(),
{
    if cards.len() == 0 {
        None
    } else if cards[0].id@ == id {
        Some(0int)
    } else {
        match spec_first_card(cards.subrange(1, cards.len() as int), id) {
            Some(j) => Some(j + 1),
            None => None,
        }
    }
}

proof fn lemma_first_card_at(cards: Seq<ProcessorCard>, id: Seq<char>, i: int)
    requires
        0 <= i < cards.len(),
        forall|k: int| 0 <= k < i ==> (#[trigger] cards[k]).id@ != id,
        cards[i].id@ == id,
    ensures
        spec_first_card(cards, id) == Some(i),
    decreases i,
{
    if i > 0 {
        let rest = cards.subrange(1, cards.len() as int);
        assert(forall|k: int| 0 <= k < i - 1 ==> rest[k] == cards[k + 1]);
        lemma_first_card_at(rest, id, i - 1);
    }
}

proof fn lemma_first_card_none(cards: Seq<ProcessorCard>, id: Seq<char>)
    requires
        forall|k: int| 0 <= k < cards.len() ==> (#[trigger] cards[k]).id@ != id,
    ensures
        spec_first_card(cards, id) is None,
    decreases cards.len(),
{
    if cards.len() > 0 {
        let rest = cards.subrange(1, cards.len() as int);
        assert(forall|k: int| 0 <= k < rest.len() ==> rest[k] == cards[k + 1]);
        lemma_first_card_none(rest, id);
    }
}

/// Where a card whose key renders as `name` is inserted into already-sorted
/// cards: after every card whose key is less than or equal to it, so that
/// insertion keeps the order and ties keep their insertion order.
pub open spec fn spec_card_insert_pos(
    cards: Seq<ProcessorCard>,
    key: spec_fn(ProcessorCard) -> Seq<char>,
    name: Seq<char>,
) -> int
    decreases cards.len(),
{
    if cards.len() == 0 {
        0
    } else if !spec_str_le(key(cards[0]), name) {
        0
    } else {
        1 + spec_card_insert_pos(cards.subrange(1, cards.len() as int), key, name)
    }
}

/// The stable sort of the cards under the given key: each card, in its
/// original order, inserted after the already-placed cards whose keys are
/// less than or equal to its own.
pub open spec fn spec_sort_cards(
    cards: Seq<ProcessorCard>,
    key: spec_fn(ProcessorCard) -> Seq<char>,
) -> Seq<ProcessorCard>
    decreases cards.len(),
{
    if cards.len() == 0 {
        Seq::empty()
    } else {
        let sorted = spec_sort_cards(cards.drop_last(), key);
        sorted.insert(spec_card_insert_pos(sorted, key, key(cards.last())), cards.last())
    }
}

proof fn lemma_card_insert_pos_properties(
    cards: Seq<ProcessorCard>,
    key: spec_fn(ProcessorCard) -> Seq<char>,
    name: Seq<char>,
)
    ensures
        0 <= spec_card_insert_pos(cards, key, name) <= cards.len(),
        forall|k: int|
            0 <= k < spec_card_insert_pos(cards, key, name) ==> spec_str_le(
                key(#[trigger] cards[k]),
                name,
            ),
        spec_card_insert_pos(cards, key, name) < cards.len() ==> !spec_str_le(
            key(cards[spec_card_insert_pos(cards, key, name)]),
            name,
        ),
    decreases cards.len(),
{
    if cards.len() > 0 && spec_str_le(key(cards[0]), name) {
        let rest = cards.subrange(1, cards.len() as int);
        lemma_card_insert_pos_properties(rest, key, name);
        assert(forall|k: int| 0 <= k < rest.len() ==> rest[k] == cards[k + 1]);
        assert forall|k: int|
            0 <= k < spec_card_insert_pos(cards, key, name) implies spec_str_le(
            key(#[trigger] cards[k]),
            name,
        ) by {
            if k > 0 {
                assert(rest[k - 1] == cards[k]);
                assert(0 <= k - 1 < spec_card_insert_pos(rest, key, name));
            }
        }
    }
}

proof fn lemma_card_insert_multiset(s: Seq<ProcessorCard>, pos: int, v: ProcessorCard)
    requires
        0 <= pos <= s.len(),
    ensures
        s.insert(pos, v).to_multiset() =~= s.to_multiset().insert(v),
{
    let t = s.insert(pos, v);
    assert(t.remove(pos) =~= s);
    assert(t[pos] == v);
    assert(t.remove(pos).to_multiset() =~= t.to_multiset().remove(t[pos]));
    assert(t.to_multiset().count(v) > 0) by {
        assert(t.contains(v)) by {
            assert(t[pos] == v);
        }
    }
    assert forall|a: ProcessorCard|
        t.to_multiset().count(a) == s.to_multiset().insert(v).count(a) by {
        assert(s.to_multiset().count(a) == t.to_multiset().remove(v).count(a));
    }
}

/// The picker's state: the cards, the search query and the selection.
#[derive(Debug)]
pub struct ProcessorListView {
    pub processors: Vec<ProcessorCard>,
    pub search_query: String,
    pub selected_processor_id: Option<String>,
}

impl ProcessorListView {
    /// Builds an empty picker.
    pub fn new() -> (v: ProcessorListView)
        ensures
            v.processors@.len() == 0,
            v.search_query@.len() == 0,
            v.selected_processor_id is None,
    {
        ProcessorListView {
            processors: Vec::new(),
            search_query: String::new(),
            selected_processor_id: None,
        }
    }

    /// Replaces the cards with ones built from the given descriptions and
    /// re-applies the selection flags.
    #[verifier::loop_isolation(false)]
    pub fn set_processors(&mut self, processor_infos: Vec<ProcessorInfo>)
        ensures
            final(self).search_query == old(self).search_query,
            final(self).selected_processor_id == old(self).selected_processor_id,
            final(self).processors@.len() == processor_infos@.len(),
            forall|k: int|
                0 <= k < final(self).processors@.len() ==> {
                    let card = #[trigger] final(self).processors@[k];
                    let info = processor_infos@[k];
                    card.id@ == info.id@ && card.name@ == info.name@ && card.description@
                        == info.description@ && card.version@ == info.version@ && card.available
                        == info.available && card.selected == card_selected_flag(
                        card,
                        final(self).selected_processor_id,
                    )
                },
    {
        let n = processor_infos.len();
        let mut cards: Vec<ProcessorCard> = Vec::new();
        let mut i: usize = 0;
        let mut infos = processor_infos;
        while i < n
            invariant
                i <= n,
                n == infos@.len() + i,
                cards@.len() == i,
                forall|k: int|
                    0 <= k < i ==> {
                        let card = #[trigger] cards@[k];
                        card.id@ == processor_infos@[k].id@ && card.name@
                            == processor_infos@[k].name@ && card.description@
                            == processor_infos@[k].description@ && card.version@
                            == processor_infos@[k].version@ && card.available
                            == processor_infos@[k].available
                    },
                forall|k: int| 0 <= k < infos@.len() ==> infos@[k] == processor_infos@[i + k],
            decreases n - i,
        {
            let info = infos.remove(0);
            proof {
                assert(info == processor_infos@[i as int]);
            }
            cards.push(ProcessorCard::from_processor_info(info));
            i += 1;
        }
        self.processors = cards;
        self.update_selection();
    }

    /// The cards, in catalogue order.
    pub fn processors(&self) -> (r: &Vec<ProcessorCard>)
        ensures
            r@ == self.processors@,
    {
        &self.processors
    }

    /// The cards that match the current search query, or every card when the
    /// query is empty, in catalogue order.
    #[verifier::loop_isolation(false)]
    pub fn filtered_processors(&self) -> (r: Vec<&ProcessorCard>)
        ensures
            r@.map_values(|c: &ProcessorCard| *c) == (if self.search_query@.len() == 0 {
                self.processors@
            } else {
                self.processors@.filter(
                    |c: ProcessorCard| card_matches_query(c, self.search_query@),
                )
            }),
    {
        let n = self.processors.len();
        let mut r: Vec<&ProcessorCard> = Vec::new();
        if self.search_query.as_str().unicode_len() == 0 {
            let mut i: usize = 0;
            while i < n
                invariant
                    i <= n,
                    n == self.processors@.len(),
                    r@.len() == i,
                    forall|k: int| 0 <= k < i ==> *(#[trigger] r@[k]) == self.processors@[k],
                decreases n - i,
            {
                r.push(&self.processors[i]);
                i += 1;
            }
            proof {
                assert(r@.map_values(|c: &ProcessorCard| *c) =~= self.processors@);
            }
            r
        } else {
            let query_lower = to_lowercase_str(self.search_query.as_str());
            let mut i: usize = 0;
            proof {
                assert(r@.map_values(|c: &ProcessorCard| *c) =~= self.processors@.subrange(
                    0,
                    0,
                ).filter(|c: ProcessorCard| card_matches_query(c, self.search_query@)));
            }
            while i < n
                invariant
                    i <= n,
                    n == self.processors@.len(),
                    query_lower@ == lower_of(self.search_query@),
                    r@.map_values(|c: &ProcessorCard| *c) == self.processors@.subrange(
                        0,
                        i as int,
                    ).filter(|c: ProcessorCard| card_matches_query(c, self.search_query@)),
                decreases n - i,
            {
                let ghost pre = self.processors@.subrange(0, i as int);
                let ghost post = self.processors@.subrange(0, i as int + 1);
                proof {
                    assert(post.drop_last() =~= pre);
                    assert(post.last() == self.processors@[i as int]);
                    reveal_with_fuel(Seq::filter, 2);
                }
                let ghost old_r = r@;
                let card = &self.processors[i];
                let name_lower = to_lowercase_str(card.name.as_str());
                let desc_lower = to_lowercase_str(card.description.as_str());
                let id_lower = to_lowercase_str(card.id.as_str());
                let hit = str_contains(name_lower.as_str(), query_lower.as_str())
                    || str_contains(desc_lower.as_str(), query_lower.as_str()) || str_contains(
                    id_lower.as_str(),
                    query_lower.as_str(),
                );
                if hit {
                    r.push(card);
                    proof {
                        assert(r@.map_values(|c: &ProcessorCard| *c) =~= old_r.map_values(
                            |c: &ProcessorCard| *c,
                        ).push(self.processors@[i as int]));
                    }
                }
                i += 1;
            }
            proof {
                assert(self.processors@.subrange(0, n as int) =~= self.processors@);
            }
            r
        }
    }

    /// The cards marked available, in catalogue order.
    #[verifier::loop_isolation(false)]
    pub fn available_processors(&self) -> (r: Vec<&ProcessorCard>)
        ensures
            r@.map_values(|c: &ProcessorCard| *c) == self.processors@.filter(
                |c: ProcessorCard| c.available,
            ),
    {
        let n = self.processors.len();
        let mut r: Vec<&ProcessorCard> = Vec::new();
        let mut i: usize = 0;
        proof {
            assert(r@.map_values(|c: &ProcessorCard| *c) =~= self.processors@.subrange(
                0,
                0,
            ).filter(|c: ProcessorCard| c.available));
        }
        while i < n
            invariant
                i <= n,
                n == self.processors@.len(),
                r@.map_values(|c: &ProcessorCard| *c) == self.processors@.subrange(
                    0,
                    i as int,
                ).filter(|c: ProcessorCard| c.available),
            decreases n - i,
        {
            let ghost pre = self.processors@.subrange(0, i as int);
            let ghost post = self.processors@.subrange(0, i as int + 1);
            proof {
                assert(post.drop_last() =~= pre);
                assert(post.last() == self.processors@[i as int]);
                reveal_with_fuel(Seq::filter, 2);
            }
            let ghost old_r = r@;
            let card = &self.processors[i];
            if card.available {
                r.push(card);
                proof {
                    assert(r@.map_values(|c: &ProcessorCard| *c) =~= old_r.map_values(
                        |c: &ProcessorCard| *c,
                    ).push(self.processors@[i as int]));
                }
            }
            i += 1;
        }
        proof {
            assert(self.processors@.subrange(0, n as int) =~= self.processors@);
        }
        r
    }

    /// Sets the search query.
    pub fn set_search_query(&mut self, query: String)
        ensures
            final(self).search_query == query,
            final(self).processors == old(self).processors,
            final(self).selected_processor_id == old(self).selected_processor_id,
    {
        self.search_query = query;
    }

    /// The current search query.
    pub fn search_query(&self) -> (r: &str)
        ensures
            r@ == self.search_query@,
    {
        self.search_query.as_str()
    }

    /// Empties the search query.
    pub fn clear_search(&mut self)
        ensures
            final(self).search_query@.len() == 0,
            final(self).processors == old(self).processors,
            final(self).selected_processor_id == old(self).selected_processor_id,
    {
        self.search_query = String::new();
    }

    /// Selects the processor with the given identifier and re-applies the
    /// selection flags.
    pub fn select_processor(&mut self, processor_id: &str)
        ensures
            final(self).search_query == old(self).search_query,
            final(self).selected_processor_id matches Some(id) && id@ == processor_id@,
            final(self).processors@.len() == old(self).processors@.len(),
            forall|k: int|
                0 <= k < final(self).processors@.len() ==> {
                    let card = #[trigger] final(self).processors@[k];
                    let was = old(self).processors@[k];
                    card.id == was.id && card.name == was.name && card.description
                        == was.description && card.icon == was.icon && card.version == was.version
                        && card.available == was.available && card.selected == (was.id@
                        == processor_id@)
                },
    {
        self.selected_processor_id = Some(processor_id.to_owned());
        self.update_selection();
    }

    /// Clears the selection and the cards' selection flags.
    pub fn deselect(&mut self)
        ensures
            final(self).search_query == old(self).search_query,
            final(self).selected_processor_id is None,
            final(self).processors@.len() == old(self).processors@.len(),
            forall|k: int|
                0 <= k < final(self).processors@.len() ==> {
                    let card = #[trigger] final(self).processors@[k];
                    let was = old(self).processors@[k];
                    card.id == was.id && card.name == was.name && card.description
                        == was.description && card.icon == was.icon && card.version == was.version
                        && card.available == was.available && !card.selected
                },
    {
        self.selected_processor_id = None;
        self.update_selection();
    }

    /// The selected processor's identifier, if any.
    pub fn selected_processor_id(&self) -> (r: Option<&str>)
        ensures
            (r is Some) == (self.selected_processor_id is Some),
            r matches Some(s) ==> (self.selected_processor_id matches Some(id) && s@ == id@),
    {
        match &self.selected_processor_id {
            Some(id) => Some(id.as_str()),
            None => None,
        }
    }

    /// The selected card, if a selection exists and a card carries its
    /// identifier; the first such card when several do.
    #[verifier::loop_isolation(false)]
    pub fn selected_processor(&self) -> (r: Option<&ProcessorCard>)
        ensures
            self.selected_processor_id is None ==> r is None,
            self.selected_processor_id matches Some(id) ==> {
                &&& (r is Some) == (spec_first_card(self.processors@, id@) is Some)
                &&& (r matches Some(c) ==> spec_first_card(self.processors@, id@) matches Some(j)
                    && *c == self.processors@[j])
            },
    {
        let selected = match &self.selected_processor_id {
            Some(id) => id,
            None => {
                return None;
            },
        };
        let n = self.processors.len();
        let mut i: usize = 0;
        while i < n
            invariant
                i <= n,
                n == self.processors@.len(),
                forall|k: int| 0 <= k < i ==> (#[trigger] self.processors@[k]).id@ != selected@,
            decreases n - i,
        {
            let card = &self.processors[i];
            if str_eq(card.id.as_str(), selected.as_str()) {
                proof {
                    lemma_first_card_at(self.processors@, selected@, i as int);
                }
                return Some(card);
            }
            i += 1;
        }
        proof {
            lemma_first_card_none(self.processors@, selected@);
        }
        None
    }

    /// Whether a processor is selected.
    pub fn has_selection(&self) -> (r: bool)
        ensures
            r == (self.selected_processor_id is Some),
    {
        match &self.selected_processor_id {
            Some(_) => true,
            None => false,
        }
    }

    /// Re-applies the selection flags: a card is marked selected exactly when
    /// its identifier is the selected one.
    #[verifier::loop_isolation(false)]
    fn update_selection(&mut self)
        ensures
            final(self).search_query == old(self).search_query,
            final(self).selected_processor_id == old(self).selected_processor_id,
            final(self).processors@.len() == old(self).processors@.len(),
            forall|k: int|
                0 <= k < final(self).processors@.len() ==> {
                    let card = #[trigger] final(self).processors@[k];
                    let was = old(self).processors@[k];
                    card.id == was.id && card.name == was.name && card.description
                        == was.description && card.icon == was.icon && card.version == was.version
                        && card.available == was.available && card.selected == card_selected_flag(
                        was,
                        old(self).selected_processor_id,
                    )
                },
    {
        let n = self.processors.len();
        let mut i: usize = 0;
        while i < n
            invariant
                i <= n,
                n == self.processors@.len(),
                self.search_query == old(self).search_query,
                self.selected_processor_id == old(self).selected_processor_id,
                forall|k: int|
                    i <= k < n ==> #[trigger] self.processors@[k] == old(self).processors@[k],
                forall|k: int|
                    0 <= k < i ==> {
                        let card = #[trigger] self.processors@[k];
                        let was = old(self).processors@[k];
                        card.id == was.id && card.name == was.name && card.description
                            == was.description && card.icon == was.icon && card.version
                            == was.version && card.available == was.available && card.selected
                            == card_selected_flag(was, old(self).selected_processor_id)
                    },
            decreases n - i,
        {
            let flag = match &self.selected_processor_id {
                Some(id) => str_eq(self.processors[i].id.as_str(), id.as_str()),
                None => false,
            };
            let card = &mut self.processors[i];
            card.selected = flag;
            i += 1;
        }
    }

    /// How many cards the picker holds.
    pub fn processor_count(&self) -> (n: usize)
        ensures
            n == self.processors@.len(),
    {
        self.processors.len()
    }

    /// How many cards are marked available.
    #[verifier::loop_isolation(false)]
    pub fn available_count(&self) -> (n: usize)
        ensures
            n == self.processors@.filter(|c: ProcessorCard| c.available).len(),
    {
        let found = self.available_processors();
        proof {
            assert(found@.map_values(|c: &ProcessorCard| *c).len() == found@.len());
        }
        found.len()
    }

    /// Orders the cards by name: exactly the stable insertion sort of the
    /// current cards, so the result is sorted lexicographically by name and
    /// cards with equal names keep their relative order.
    #[verifier::loop_isolation(false)]
    pub fn sort_by_name(&mut self)
        ensures
            final(self).search_query == old(self).search_query,
            final(self).selected_processor_id == old(self).selected_processor_id,
            final(self).processors@ == spec_sort_cards(
                old(self).processors@,
                (|c: ProcessorCard| c.name@),
            ),
            final(self).processors@.to_multiset() == old(self).processors@.to_multiset(),
            forall|i: int, j: int|
                0 <= i < j < final(self).processors@.len() ==> spec_str_le(
                    (#[trigger] final(self).processors@[i]).name@,
                    (#[trigger] final(self).processors@[j]).name@,
                ),
    {
        let ghost orig = self.processors@;
        let ghost key = (|c: ProcessorCard| c.name@);
        let mut remaining: Vec<ProcessorCard> = Vec::new();
        core::mem::swap(&mut remaining, &mut self.processors);
        let n = remaining.len();
        let mut i: usize = 0;
        proof {
            assert(self.processors@ =~= Seq::<ProcessorCard>::empty());
            assert(orig.subrange(0, 0) =~= Seq::<ProcessorCard>::empty());
            assert(self.processors@ == spec_sort_cards(orig.subrange(0, 0), key));
            assert(self.processors@.to_multiset().add(remaining@.to_multiset())
                =~= orig.to_multiset());
        }
        while i < n
            invariant
                i <= n,
                n == orig.len(),
                i + remaining@.len() == n,
                forall|k: int| 0 <= k < remaining@.len() ==> remaining@[k] == orig[i + k],
                self.processors@ == spec_sort_cards(orig.subrange(0, i as int), key),
                forall|a: int, b: int|
                    0 <= a < b < self.processors@.len() ==> spec_str_le(
                        (#[trigger] self.processors@[a]).name@,
                        (#[trigger] self.processors@[b]).name@,
                    ),
                self.processors@.to_multiset().add(remaining@.to_multiset())
                    == orig.to_multiset(),
                self.search_query == old(self).search_query,
                self.selected_processor_id == old(self).selected_processor_id,
            decreases n - i,
        {
            let ghost rem0 = remaining@;
            let card = remaining.remove(0);
            proof {
                assert(card == orig[i as int]);
                assert(forall|k: int|
                    0 <= k < remaining@.len() ==> remaining@[k] == rem0[k + 1]);
                assert(rem0.remove(0).to_multiset() =~= rem0.to_multiset().remove(card));
                assert(rem0.contains(card)) by {
                    assert(rem0[0] == card);
                }
                assert(rem0.to_multiset().count(card) > 0);
            }
            let len = self.processors.len();
            let mut pos: usize = 0;
            while pos < len && str_le(self.processors[pos].name.as_str(), card.name.as_str())
                invariant
                    pos <= len,
                    len == self.processors@.len(),
                    forall|k: int|
                        0 <= k < pos ==> spec_str_le(
                            (#[trigger] self.processors@[k]).name@,
                            card.name@,
                        ),
                decreases len - pos,
            {
                pos += 1;
            }
            let ghost out0 = self.processors@;
            proof {
                lemma_card_insert_pos_properties(out0, key, card.name@);
                let ip = spec_card_insert_pos(out0, key, card.name@);
                if ip < pos {
                    assert(!spec_str_le(key(out0[ip]), card.name@));
                    assert(spec_str_le(out0[ip].name@, card.name@));
                }
                if pos < ip {
                    assert(!spec_str_le(out0[pos as int].name@, card.name@));
                    assert(spec_str_le(key(out0[pos as int]), card.name@));
                }
                assert(pos as int == ip);
            }
            self.processors.insert(pos, card);
            proof {
                let pre = orig.subrange(0, i as int);
                let post = orig.subrange(0, i as int + 1);
                assert(post.drop_last() =~= pre);
                assert(post.last() == orig[i as int]);
                assert(self.processors@ == spec_sort_cards(post, key));
                lemma_card_insert_multiset(out0, pos as int, card);
                assert(self.processors@.to_multiset().add(remaining@.to_multiset())
                    =~= orig.to_multiset()) by {
                    assert forall|x: ProcessorCard|
                        self.processors@.to_multiset().add(remaining@.to_multiset()).count(x)
                            == orig.to_multiset().count(x) by {
                        assert(self.processors@.to_multiset().count(x) == out0.to_multiset().count(
                            x,
                        ) + (if x == card {
                            1int
                        } else {
                            0int
                        }));
                        assert(remaining@.to_multiset().count(x) == rem0.to_multiset().count(x) - (
                        if x == card {
                            1int
                        } else {
                            0int
                        }));
                    }
                }
                assert forall|a: int, b: int|
                    0 <= a < b < self.processors@.len() implies spec_str_le(
                    (#[trigger] self.processors@[a]).name@,
                    (#[trigger] self.processors@[b]).name@,
                ) by {
                    if b < pos {
                        assert(self.processors@[a] == out0[a]);
                        assert(self.processors@[b] == out0[b]);
                    } else if a < pos && b == pos {
                        assert(self.processors@[a] == out0[a]);
                        assert(self.processors@[b] == card);
                    } else if a < pos && b > pos {
                        assert(self.processors@[a] == out0[a]);
                        assert(self.processors@[b] == out0[b - 1]);
                    } else if a == pos && b > pos {
                        assert(self.processors@[a] == card);
                        assert(self.processors@[b] == out0[b - 1]);
                        assert(!spec_str_le(out0[pos as int].name@, card.name@));
                        lemma_str_le_total(out0[pos as int].name@, card.name@);
                        if b - 1 == pos {
                            lemma_str_le_total(out0[pos as int].name@, out0[pos as int].name@);
                        }
                        lemma_str_le_trans(
                            card.name@,
                            out0[pos as int].name@,
                            out0[b - 1].name@,
                        );
                    } else {
                        assert(self.processors@[a] == out0[a - 1]);
                        assert(self.processors@[b] == out0[b - 1]);
                    }
                }
            }
            i += 1;
        }
        proof {
            assert(orig.subrange(0, n as int) =~= orig);
            assert(remaining@.to_multiset() =~= Multiset::<ProcessorCard>::empty());
            assert(self.processors@.to_multiset().add(remaining@.to_multiset())
                =~= self.processors@.to_multiset());
        }
    }

    /// Orders the cards by identifier: exactly the stable insertion sort of
    /// the current cards, so the result is sorted lexicographically by
    /// identifier and cards with equal identifiers keep their relative order.
    #[verifier::loop_isolation(false)]
    pub fn sort_by_id(&mut self)
        ensures
            final(self).search_query == old(self).search_query,
            final(self).selected_processor_id == old(self).selected_processor_id,
            final(self).processors@ == spec_sort_cards(
                old(self).processors@,
                (|c: ProcessorCard| c.id@),
            ),
            final(self).processors@.to_multiset() == old(self).processors@.to_multiset(),
            forall|i: int, j: int|
                0 <= i < j < final(self).processors@.len() ==> spec_str_le(
                    (#[trigger] final(self).processors@[i]).id@,
                    (#[trigger] final(self).processors@[j]).id@,
                ),
    {
        let ghost orig = self.processors@;
        let ghost key = (|c: ProcessorCard| c.id@);
        let mut remaining: Vec<ProcessorCard> = Vec::new();
        core::mem::swap(&mut remaining, &mut self.processors);
        let n = remaining.len();
        let mut i: usize = 0;
        proof {
            assert(self.processors@ =~= Seq::<ProcessorCard>::empty());
            assert(orig.subrange(0, 0) =~= Seq::<ProcessorCard>::empty());
            assert(self.processors@ == spec_sort_cards(orig.subrange(0, 0), key));
            assert(self.processors@.to_multiset().add(remaining@.to_multiset())
                =~= orig.to_multiset());
        }
        while i < n
            invariant
                i <= n,
                n == orig.len(),
                i + remaining@.len() == n,
                forall|k: int| 0 <= k < remaining@.len() ==> remaining@[k] == orig[i + k],
                self.processors@ == spec_sort_cards(orig.subrange(0, i as int), key),
                forall|a: int, b: int|
                    0 <= a < b < self.processors@.len() ==> spec_str_le(
                        (#[trigger] self.processors@[a]).id@,
                        (#[trigger] self.processors@[b]).id@,
                    ),
                self.processors@.to_multiset().add(remaining@.to_multiset())
                    == orig.to_multiset(),
                self.search_query == old(self).search_query,
                self.selected_processor_id == old(self).selected_processor_id,
            decreases n - i,
        {
            let ghost rem0 = remaining@;
            let card = remaining.remove(0);
            proof {
                assert(card == orig[i as int]);
                assert(forall|k: int|
                    0 <= k < remaining@.len() ==> remaining@[k] == rem0[k + 1]);
                assert(rem0.remove(0).to_multiset() =~= rem0.to_multiset().remove(card));
                assert(rem0.contains(card)) by {
                    assert(rem0[0] == card);
                }
                assert(rem0.to_multiset().count(card) > 0);
            }
            let len = self.processors.len();
            let mut pos: usize = 0;
            while pos < len && str_le(self.processors[pos].id.as_str(), card.id.as_str())
                invariant
                    pos <= len,
                    len == self.processors@.len(),
                    forall|k: int|
                        0 <= k < pos ==> spec_str_le(
                            (#[trigger] self.processors@[k]).id@,
                            card.id@,
                        ),
                decreases len - pos,
            {
                pos += 1;
            }
            let ghost out0 = self.processors@;
            proof {
                lemma_card_insert_pos_properties(out0, key, card.id@);
                let ip = spec_card_insert_pos(out0, key, card.id@);
                if ip < pos {
                    assert(!spec_str_le(key(out0[ip]), card.id@));
                    assert(spec_str_le(out0[ip].id@, card.id@));
                }
                if pos < ip {
                    assert(!spec_str_le(out0[pos as int].id@, card.id@));
                    assert(spec_str_le(key(out0[pos as int]), card.id@));
                }
                assert(pos as int == ip);
            }
            self.processors.insert(pos, card);
            proof {
                let pre = orig.subrange(0, i as int);
                let post = orig.subrange(0, i as int + 1);
                assert(post.drop_last() =~= pre);
                assert(post.last() == orig[i as int]);
                assert(self.processors@ == spec_sort_cards(post, key));
                lemma_card_insert_multiset(out0, pos as int, card);
                assert(self.processors@.to_multiset().add(remaining@.to_multiset())
                    =~= orig.to_multiset()) by {
                    assert forall|x: ProcessorCard|
                        self.processors@.to_multiset().add(remaining@.to_multiset()).count(x)
                            == orig.to_multiset().count(x) by {
                        assert(self.processors@.to_multiset().count(x) == out0.to_multiset().count(
                            x,
                        ) + (if x == card {
                            1int
                        } else {
                            0int
                        }));
                        assert(remaining@.to_multiset().count(x) == rem0.to_multiset().count(x) - (
                        if x == card {
                            1int
                        } else {
                            0int
                        }));
                    }
                }
                assert forall|a: int, b: int|
                    0 <= a < b < self.processors@.len() implies spec_str_le(
                    (#[trigger] self.processors@[a]).id@,
                    (#[trigger] self.processors@[b]).id@,
                ) by {
                    if b < pos {
                        assert(self.processors@[a] == out0[a]);
                        assert(self.processors@[b] == out0[b]);
                    } else if a < pos && b == pos {
                        assert(self.processors@[a] == out0[a]);
                        assert(self.processors@[b] == card);
                    } else if a < pos && b > pos {
                        assert(self.processors@[a] == out0[a]);
                        assert(self.processors@[b] == out0[b - 1]);
                    } else if a == pos && b > pos {
                        assert(self.processors@[a] == card);
                        assert(self.processors@[b] == out0[b - 1]);
                        assert(!spec_str_le(out0[pos as int].id@, card.id@));
                        lemma_str_le_total(out0[pos as int].id@, card.id@);
                        if b - 1 == pos {
                            lemma_str_le_total(out0[pos as int].id@, out0[pos as int].id@);
                        }
                        lemma_str_le_trans(card.id@, out0[pos as int].id@, out0[b - 1].id@);
                    } else {
                        assert(self.processors@[a] == out0[a - 1]);
                        assert(self.processors@[b] == out0[b - 1]);
                    }
                }
            }
            i += 1;
        }
        proof {
            assert(orig.subrange(0, n as int) =~= orig);
            assert(remaining@.to_multiset() =~= Multiset::<ProcessorCard>::empty());
            assert(self.processors@.to_multiset().add(remaining@.to_multiset())
                =~= self.processors@.to_multiset());
        }
    }

    /// Replaces the cards and re-selects the previously selected processor.
    pub fn refresh(&mut self, processor_infos: Vec<ProcessorInfo>)
        ensures
            final(self).search_query == old(self).search_query,
            final(self).processors@.len() == processor_infos@.len(),
            (final(self).selected_processor_id is Some) == (old(
                self,
            ).selected_processor_id is Some),
    {
        let selected_id = match &self.selected_processor_id {
            Some(id) => Some(id.clone()),
            None => None,
        };
        self.set_processors(processor_infos);
        match selected_id {
            Some(id) => {
                self.select_processor(id.as_str());
            },
            None => {},
        }
    }
}

impl Default for ProcessorListView {
    /// An empty picker.
    fn default() -> (v: ProcessorListView)
        ensures
            v.processors@.len() == 0,
            v.search_query@.len() == 0,
            v.selected_processor_id is None,
    {
        ProcessorListView::new()
    }
}

} // verus!
