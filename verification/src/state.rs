use crate::error::ContractError;
use vstd::multiset::group_multiset_axioms;
use vstd::seq_lib::{to_multiset_build, to_multiset_contains, to_multiset_len};
use vstd::prelude::*;

verus! {

/// The contract's configuration, set once when the store is created.
#[derive(Clone, Debug, PartialEq, Eq)]
pub struct Config {
    pub admin_address: String,
}

/// Tierlist item having a name and an optional image.
#[derive(Clone, Debug, PartialEq, Eq)]
pub struct TierlistItem {
    pub name: String,
    pub image_url: Option<String>,
}

/// A template: the title and the items that people tier.
#[derive(Clone, Debug, PartialEq, Eq)]
pub struct TierlistTemplate {
    pub id: u64,
    pub title: String,
    pub items: Vec<TierlistItem>,
    pub creator: String,
}

/// A tierlist a user is completing. Unassigned items carry the empty label.
#[derive(Clone, Debug, PartialEq, Eq)]
pub struct Tierlist {
    pub template_id: u64,
    pub items_to_tiers: Vec<(TierlistItem, String)>,
}

/// What an item is: its name and, if it has one, the address of its image.
pub struct ItemView {
    pub name: Seq<char>,
    pub image_url: Option<Seq<char>>,
}

/// What a template is.
pub struct TemplateView {
    pub id: u64,
    pub title: Seq<char>,
    pub items: Seq<ItemView>,
    pub creator: Seq<char>,
}

/// What a tierlist is: the template it ranks and, in order, each item with its label.
pub struct TierlistView {
    pub template_id: u64,
    pub items_to_tiers: Seq<(ItemView, Seq<char>)>,
}

impl View for Config {
    type V = Seq<char>;

    open spec fn view(&self) -> Seq<char> {
        self.admin_address@
    }
}

impl View for TierlistItem {
    type V = ItemView;

    open spec fn view(&self) -> ItemView {
        ItemView {
            name: self.name@,
            image_url: match self.image_url {
                Some(url) => Some(url@),
                None => None,
            },
        }
    }
}

/// The items of a list, each by its view.
pub open spec fn items_view(items: Seq<TierlistItem>) -> Seq<ItemView> {
    Seq::new(items.len(), |i: int| items[i]@)
}

/// The entries of a ranking, each by its views.
pub open spec fn entries_view(entries: Seq<(TierlistItem, String)>) -> Seq<(ItemView, Seq<char>)> {
    Seq::new(entries.len(), |i: int| (entries[i].0@, entries[i].1@))
}

impl View for TierlistTemplate {
    type V = TemplateView;

    open spec fn view(&self) -> TemplateView {
        TemplateView {
            id: self.id,
            title: self.title@,
            items: items_view(self.items@),
            creator: self.creator@,
        }
    }
}

impl View for Tierlist {
    type V = TierlistView;

    open spec fn view(&self) -> TierlistView {
        TierlistView { template_id: self.template_id, items_to_tiers: entries_view(self.items_to_tiers@) }
    }
}

/// The blank ranking of a template: its items in order, none assigned.
pub open spec fn blank(template: TemplateView) -> TierlistView {
    TierlistView {
        template_id: template.id,
        items_to_tiers: Seq::new(template.items.len(), |i: int| (template.items[i], Seq::<char>::empty())),
    }
}

/// The items that a ranking places, in order, without their labels.
pub open spec fn ranked_items(tierlist: TierlistView) -> Seq<ItemView> {
    Seq::new(tierlist.items_to_tiers.len(), |i: int| tierlist.items_to_tiers[i].0)
}

/// A ranking fits a template when it names the template and places exactly
/// the template's items, each as often as the template lists it, in any order.
pub open spec fn fits(tierlist: TierlistView, template: TemplateView) -> bool {
    &&& tierlist.template_id == template.id
    &&& ranked_items(tierlist).to_multiset() =~= template.items.to_multiset()
}

/// The ranking with every entry of `item` relabelled, and the others as they were.
pub open spec fn assigned(tierlist: TierlistView, item: ItemView, tier: Seq<char>) -> TierlistView {
    TierlistView {
        template_id: tierlist.template_id,
        items_to_tiers: Seq::new(
            tierlist.items_to_tiers.len(),
            |i: int|
                if tierlist.items_to_tiers[i].0 == item {
                    (item, tier)
                } else {
                    tierlist.items_to_tiers[i]
                },
        ),
    }
}

/// `i` is the place of the first entry of `item` in the ranking.
pub open spec fn is_first_entry(tierlist: TierlistView, item: ItemView, i: int) -> bool {
    &&& 0 <= i < tierlist.items_to_tiers.len()
    &&& tierlist.items_to_tiers[i].0 == item
    &&& forall|j: int| 0 <= j < i ==> (#[trigger] tierlist.items_to_tiers[j]).0 != item
}

/// The ranking places `item`.
pub open spec fn places(tierlist: TierlistView, item: ItemView) -> bool {
    exists|i: int| 0 <= i < tierlist.items_to_tiers.len() && (#[trigger] tierlist.items_to_tiers[i]).0 == item
}

/// The label of the first entry of `item`, if the ranking places it.
pub open spec fn tier_of(tierlist: TierlistView, item: ItemView) -> Option<Seq<char>> {
    if exists|i: int| is_first_entry(tierlist, item, i) {
        Some(tierlist.items_to_tiers[choose|i: int| is_first_entry(tierlist, item, i)].1)
    } else {
        None
    }
}

impl TierlistItem {
    /// Whether two items have the same name and the same image.
    pub fn same(&self, other: &TierlistItem) -> (r: bool)
        ensures
            r == (self@ == other@),
    {
        if self.name != other.name {
            return false;
        }
        match &self.image_url {
            Some(a) => match &other.image_url {
                Some(b) => *a == *b,
                None => false,
            },
            None => other.image_url.is_none(),
        }
    }

    /// A copy of the item.
    pub fn duplicate(&self) -> (r: TierlistItem)
        ensures
            r@ == self@,
    {
        let image_url = match &self.image_url {
            Some(url) => Some(url.clone()),
            None => None,
        };
        TierlistItem { name: self.name.clone(), image_url }
    }
}

/// A copy of a list of items.
pub fn duplicate_items(items: &Vec<TierlistItem>) -> (r: Vec<TierlistItem>)
    ensures
        items_view(r@) == items_view(items@),
{
    let mut copy: Vec<TierlistItem> = Vec::new();
    let mut i: usize = 0;
    while i < items.len()
        invariant
            i <= items.len(),
            copy.len() == i,
            forall|j: int| 0 <= j < i ==> (#[trigger] copy[j])@ == items[j]@,
        decreases items.len() - i,
    {
        copy.push(items[i].duplicate());
        i += 1;
    }
    assert(items_view(copy@) =~= items_view(items@));
    copy
}

impl TierlistTemplate {
    /// A copy of the template.
    pub fn duplicate(&self) -> (r: TierlistTemplate)
        ensures
            r@ == self@,
    {
        TierlistTemplate {
            id: self.id,
            title: self.title.clone(),
            items: duplicate_items(&self.items),
            creator: self.creator.clone(),
        }
    }
}

/// How often `x` stands in `items`.
fn occurrences(items: &Vec<TierlistItem>, x: &TierlistItem) -> (n: usize)
    ensures
        n == items_view(items@).to_multiset().count(x@),
{
    broadcast use group_multiset_axioms;

    let ghost all = items_view(items@);
    let mut n: usize = 0;
    let mut i: usize = 0;
    proof {
        to_multiset_contains(all.subrange(0, 0), x@);
    }
    while i < items.len()
        invariant
            all == items_view(items@),
            i <= items.len(),
            n <= i,
            n == all.subrange(0, i as int).to_multiset().count(x@),
        decreases items.len() - i,
    {
        proof {
            assert(all.subrange(0, i + 1) =~= all.subrange(0, i as int).push(all[i as int]));
            to_multiset_build(all.subrange(0, i as int), all[i as int]);
        }
        if items[i].same(x) {
            n += 1;
        }
        i += 1;
    }
    assert(all.subrange(0, i as int) =~= all);
    n
}

/// Every item of `a` stands in `a` as often as in `b`.
pub open spec fn agrees_on_own(a: Seq<ItemView>, b: Seq<ItemView>) -> bool {
    forall|i: int| 0 <= i < a.len() ==> a.to_multiset().count(#[trigger] a[i]) == b.to_multiset().count(a[i])
}

fn agree(a: &Vec<TierlistItem>, b: &Vec<TierlistItem>) -> (r: bool)
    ensures
        r == agrees_on_own(items_view(a@), items_view(b@)),
{
    let mut i: usize = 0;
    while i < a.len()
        invariant
            i <= a.len(),
            forall|j: int|
                0 <= j < i ==> items_view(a@).to_multiset().count(#[trigger] items_view(a@)[j])
                    == items_view(b@).to_multiset().count(items_view(a@)[j]),
        decreases a.len() - i,
    {
        if occurrences(a, &a[i]) != occurrences(b, &a[i]) {
            assert(items_view(a@)[i as int] == a[i as int]@);
            return false;
        }
        i += 1;
    }
    true
}

/// Two lists hold the same items equally often exactly when each agrees with
/// the other on its own items.
pub proof fn lemma_same_items(a: Seq<ItemView>, b: Seq<ItemView>)
    ensures
        (a.to_multiset() =~= b.to_multiset()) == (agrees_on_own(a, b) && agrees_on_own(b, a)),
{
    broadcast use group_multiset_axioms;

    if agrees_on_own(a, b) && agrees_on_own(b, a) {
        assert forall|x: ItemView| a.to_multiset().count(x) == b.to_multiset().count(x) by {
            to_multiset_contains(a, x);
            to_multiset_contains(b, x);
            if a.contains(x) {
                let i = choose|i: int| 0 <= i < a.len() && a[i] == x;
                assert(a.to_multiset().count(a[i]) == b.to_multiset().count(a[i]));
            } else if b.contains(x) {
                let i = choose|i: int| 0 <= i < b.len() && b[i] == x;
                assert(b.to_multiset().count(b[i]) == a.to_multiset().count(b[i]));
            }
        }
        assert(a.to_multiset() =~= b.to_multiset());
    }
}

impl Tierlist {
    /// The blank tierlist of a template: each of its items, in order, unassigned.
    pub fn from_template(template: TierlistTemplate) -> (r: Tierlist)
        ensures
            r@ == blank(template@),
    {
        let mut items_to_tiers: Vec<(TierlistItem, String)> = Vec::new();
        let mut i: usize = 0;
        while i < template.items.len()
            invariant
                i <= template.items.len(),
                items_to_tiers.len() == i,
                forall|j: int|
                    0 <= j < i ==> (#[trigger] items_to_tiers[j]).0@ == template.items[j]@
                        && items_to_tiers[j].1@ == Seq::<char>::empty(),
            decreases template.items.len() - i,
        {
            items_to_tiers.push((template.items[i].duplicate(), String::new()));
            i += 1;
        }
        let r = Tierlist { items_to_tiers, template_id: template.id };
        assert(r@.items_to_tiers =~= blank(template@).items_to_tiers);
        r
    }

    /// A copy of the tierlist.
    pub fn duplicate(&self) -> (r: Tierlist)
        ensures
            r@ == self@,
    {
        let mut items_to_tiers: Vec<(TierlistItem, String)> = Vec::new();
        let mut i: usize = 0;
        while i < self.items_to_tiers.len()
            invariant
                i <= self.items_to_tiers.len(),
                items_to_tiers.len() == i,
                forall|j: int|
                    0 <= j < i ==> (#[trigger] items_to_tiers[j]).0@ == self.items_to_tiers[j].0@
                        && items_to_tiers[j].1@ == self.items_to_tiers[j].1@,
            decreases self.items_to_tiers.len() - i,
        {
            let entry = &self.items_to_tiers[i];
            items_to_tiers.push((entry.0.duplicate(), entry.1.clone()));
            i += 1;
        }
        let r = Tierlist { template_id: self.template_id, items_to_tiers };
        assert(r@.items_to_tiers =~= self@.items_to_tiers);
        r
    }

    /// The items that the tierlist places, in order.
    fn items(&self) -> (r: Vec<TierlistItem>)
        ensures
            items_view(r@) == ranked_items(self@),
    {
        let mut items: Vec<TierlistItem> = Vec::new();
        let mut i: usize = 0;
        while i < self.items_to_tiers.len()
            invariant
                i <= self.items_to_tiers.len(),
                items.len() == i,
                forall|j: int| 0 <= j < i ==> (#[trigger] items[j])@ == self.items_to_tiers[j].0@,
            decreases self.items_to_tiers.len() - i,
        {
            items.push(self.items_to_tiers[i].0.duplicate());
            i += 1;
        }
        assert(items_view(items@) =~= ranked_items(self@));
        items
    }

    /// Whether the tierlist names `template` and places exactly its items.
    /// The labels play no part, nor does the order.
    pub fn validate_against_template(self, template: TierlistTemplate) -> (r: bool)
        ensures
            r == fits(self@, template@),
    {
        if self.template_id != template.id {
            return false;
        }
        let items = self.items();
        proof {
            lemma_same_items(ranked_items(self@), template@.items);
        }
        agree(&items, &template.items) && agree(&template.items, &items)
    }

    /// Gives every entry of `item` the label `tier`. A tierlist that does not
    /// place `item` stays as it is.
    pub fn assign(&mut self, item: TierlistItem, tier: String)
        ensures
            final(self)@ == assigned(old(self)@, item@, tier@),
    {
        let mut it: Vec<(TierlistItem, String)> = Vec::new();
        let mut i: usize = 0;
        let ghost goal = assigned(self@, item@, tier@).items_to_tiers;
        while i < self.items_to_tiers.len()
            invariant
                *self == *old(self),
                goal == assigned(self@, item@, tier@).items_to_tiers,
                i <= self.items_to_tiers.len(),
                it.len() == i,
                forall|j: int| 0 <= j < i ==> ((#[trigger] it[j]).0@, it[j].1@) == goal[j],
            decreases self.items_to_tiers.len() - i,
        {
            let entry = &self.items_to_tiers[i];
            assert(self@.items_to_tiers[i as int] == (entry.0@, entry.1@));
            if entry.0.same(&item) {
                it.push((item.duplicate(), tier.clone()));
            } else {
                it.push((entry.0.duplicate(), entry.1.clone()));
            }
            i += 1;
        }
        self.items_to_tiers = it;
        assert(self@.items_to_tiers =~= goal);
    }

    /// The label of the first entry of `item`; `NotFound` where the tierlist
    /// does not place it.
    pub fn get_tier(&self, item: TierlistItem) -> (r: Result<String, ContractError>)
        ensures
            r is Ok == places(self@, item@),
            match r {
                Ok(tier) => tier_of(self@, item@) == Some(tier@),
                Err(e) => e == ContractError::NotFound && tier_of(self@, item@).is_none(),
            },
    {
        let mut i: usize = 0;
        while i < self.items_to_tiers.len()
            invariant
                i <= self.items_to_tiers.len(),
                forall|j: int| 0 <= j < i ==> (#[trigger] self@.items_to_tiers[j]).0 != item@,
            decreases self.items_to_tiers.len() - i,
        {
            let entry = &self.items_to_tiers[i];
            assert(self@.items_to_tiers[i as int] == (entry.0@, entry.1@));
            if entry.0.same(&item) {
                proof {
                    assert(is_first_entry(self@, item@, i as int));
                    lemma_first_entry(self@, item@, i as int);
                }
                return Ok(entry.1.clone());
            }
            i += 1;
        }
        Err(ContractError::NotFound)
    }
}

/// A ranking has one first entry of an item at most, and `tier_of` reads it.
pub proof fn lemma_first_entry(tierlist: TierlistView, item: ItemView, i: int)
    requires
        is_first_entry(tierlist, item, i),
    ensures
        tier_of(tierlist, item) == Some(tierlist.items_to_tiers[i].1),
        places(tierlist, item),
{
    let k = choose|k: int| is_first_entry(tierlist, item, k);
    if k < i {
        assert(tierlist.items_to_tiers[k].0 != item);
    }
    if i < k {
        assert(tierlist.items_to_tiers[i].0 != item);
    }
}

/// The blank ranking of a template fits that template.
pub proof fn lemma_blank_fits(template: TemplateView)
    ensures
        fits(blank(template), template),
{
    assert(ranked_items(blank(template)) =~= template.items);
}

/// A ranking made from the blank one by taking one entry out does not fit the template.
pub proof fn lemma_entry_missing(template: TemplateView, tierlist: TierlistView, i: int)
    requires
        0 <= i < template.items.len(),
        tierlist.items_to_tiers == blank(template).items_to_tiers.remove(i),
    ensures
        !fits(tierlist, template),
{
    to_multiset_len(ranked_items(tierlist));
    to_multiset_len(template.items);
}

/// A ranking made from the blank one by putting one more entry in, at any
/// place and for any item, does not fit the template.
pub proof fn lemma_entry_added(
    template: TemplateView,
    tierlist: TierlistView,
    i: int,
    entry: (ItemView, Seq<char>),
)
    requires
        0 <= i <= template.items.len(),
        tierlist.items_to_tiers == blank(template).items_to_tiers.insert(i, entry),
    ensures
        !fits(tierlist, template),
{
    to_multiset_len(ranked_items(tierlist));
    to_multiset_len(template.items);
}

/// Assigning the same label to the same item twice is assigning it once.
pub proof fn lemma_assign_idempotent(tierlist: TierlistView, item: ItemView, tier: Seq<char>)
    ensures
        assigned(assigned(tierlist, item, tier), item, tier) == assigned(tierlist, item, tier),
{
    assert(assigned(assigned(tierlist, item, tier), item, tier).items_to_tiers =~= assigned(
        tierlist,
        item,
        tier,
    ).items_to_tiers);
}

/// Where an entry of `item` stands at `i`, a first entry of it stands at or before `i`.
proof fn lemma_first_entry_exists(tierlist: TierlistView, item: ItemView, i: int) -> (k: int)
    requires
        0 <= i < tierlist.items_to_tiers.len(),
        tierlist.items_to_tiers[i].0 == item,
    ensures
        is_first_entry(tierlist, item, k),
    decreases i,
{
    if exists|j: int| 0 <= j < i && (#[trigger] tierlist.items_to_tiers[j]).0 == item {
        let j = choose|j: int| 0 <= j < i && (#[trigger] tierlist.items_to_tiers[j]).0 == item;
        lemma_first_entry_exists(tierlist, item, j)
    } else {
        i
    }
}

/// A ranking has a label for exactly the items that it places.
pub proof fn lemma_tier_of_placed(tierlist: TierlistView, item: ItemView)
    ensures
        tier_of(tierlist, item) is Some == places(tierlist, item),
{
    if places(tierlist, item) {
        let i = choose|i: int|
            0 <= i < tierlist.items_to_tiers.len() && (#[trigger] tierlist.items_to_tiers[i]).0 == item;
        let k = lemma_first_entry_exists(tierlist, item, i);
    }
    if tier_of(tierlist, item) is Some {
        let k = choose|k: int| is_first_entry(tierlist, item, k);
        lemma_first_entry(tierlist, item, k);
    }
}

/// After a label was assigned to an item that the ranking places, that label
/// is the item's tier.
pub proof fn lemma_assign_then_tier(tierlist: TierlistView, item: ItemView, tier: Seq<char>)
    requires
        places(tierlist, item),
    ensures
        tier_of(assigned(tierlist, item, tier), item) == Some(tier),
{
    let i = choose|i: int|
        0 <= i < tierlist.items_to_tiers.len() && (#[trigger] tierlist.items_to_tiers[i]).0 == item;
    let k = lemma_first_entry_exists(tierlist, item, i);
    let after = assigned(tierlist, item, tier);
    assert forall|j: int| 0 <= j < k implies (#[trigger] after.items_to_tiers[j]).0 != item by {
        assert(tierlist.items_to_tiers[j].0 != item);
    }
    assert(is_first_entry(after, item, k));
    lemma_first_entry(after, item, k);
}

/// Assigning a label to an item that the ranking does not place changes nothing.
pub proof fn lemma_assign_absent(tierlist: TierlistView, item: ItemView, tier: Seq<char>)
    requires
        !places(tierlist, item),
    ensures
        assigned(tierlist, item, tier) == tierlist,
{
    assert(assigned(tierlist, item, tier).items_to_tiers =~= tierlist.items_to_tiers);
}

/// Assigning a label changes neither the items of a ranking nor whether it fits a template.
pub proof fn lemma_assign_keeps_items(
    tierlist: TierlistView,
    item: ItemView,
    tier: Seq<char>,
    template: TemplateView,
)
    ensures
        ranked_items(assigned(tierlist, item, tier)) == ranked_items(tierlist),
        fits(assigned(tierlist, item, tier), template) == fits(tierlist, template),
{
    assert(ranked_items(assigned(tierlist, item, tier)) =~= ranked_items(tierlist));
}

} // verus!
