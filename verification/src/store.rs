use crate::state::{Config, Tierlist, TierlistTemplate, TierlistView, TemplateView};
use crate::table::{is_page, Table};
use vstd::prelude::*;

verus! {

/// The rankings that one owner has saved, by the id of the template ranked.
struct Shelf {
    owner: String,
    tierlists: Table<Tierlist>,
}

/// Everything the contract keeps: its configuration, the counter that hands
/// out template ids, the templates by id, and each owner's rankings.
pub struct Store {
    config: Config,
    next_id: u64,
    catalog: Table<TierlistTemplate>,
    shelves: Vec<Shelf>,
}

/// The first components of a page's entries.
pub open spec fn page_keys<V>(page: Seq<(u64, V)>) -> Seq<u64> {
    Seq::new(page.len(), |i: int| page[i].0)
}

impl Store {
    /// The administrator's address.
    pub closed spec fn admin(&self) -> Seq<char> {
        self.config.admin_address@
    }

    /// The id that the next template will get.
    pub closed spec fn next(&self) -> u64 {
        self.next_id
    }

    /// The templates, by id.
    pub closed spec fn templates(&self) -> Map<u64, TemplateView> {
        self.catalog@.map_values(|t: TierlistTemplate| t@)
    }

    /// The rankings of one owner, by template id.
    closed spec fn shelf_of(&self, owner: Seq<char>) -> Map<u64, TierlistView> {
        if exists|i: int| 0 <= i < self.shelves.len() && (#[trigger] self.shelves[i]).owner@ == owner {
            let i = choose|i: int| 0 <= i < self.shelves.len() && (#[trigger] self.shelves[i]).owner@ == owner;
            self.shelves[i].tierlists@.map_values(|t: Tierlist| t@)
        } else {
            Map::empty()
        }
    }

    /// The saved rankings, by owner and template id.
    pub closed spec fn tierlists(&self) -> Map<(Seq<char>, u64), TierlistView> {
        Map::new(
            |k: (Seq<char>, u64)| self.shelf_of(k.0).contains_key(k.1),
            |k: (Seq<char>, u64)| self.shelf_of(k.0)[k.1],
        )
    }

    /// The ids of the templates that `owner` has a saved ranking of.
    pub open spec fn ranked_by(&self, owner: Seq<char>) -> Set<u64> {
        Set::new(|id: u64| self.tierlists().contains_key((owner, id)))
    }

    /// The tables are in order, every record is stored under its own id, no
    /// stored template has an id that the counter has yet to hand out, and no
    /// owner has two shelves.
    pub closed spec fn wf(&self) -> bool {
        &&& self.catalog.wf()
        &&& forall|k: u64| #[trigger]
            self.catalog@.contains_key(k) ==> k < self.next_id && self.catalog@[k].id == k
        &&& forall|i: int|
            0 <= i < self.shelves.len() ==> (#[trigger] self.shelves[i]).tierlists.wf()
        &&& forall|i: int, k: u64|
            0 <= i < self.shelves.len() && #[trigger] self.shelves[i].tierlists@.contains_key(k)
                ==> self.shelves[i].tierlists@[k].template_id == k
        &&& forall|i: int, j: int|
            0 <= i < j < self.shelves.len() ==> (#[trigger] self.shelves[i]).owner@ != (
            #[trigger] self.shelves[j]).owner@
    }

    /// Every stored template has the id it is stored under, and the counter is
    /// above it: an id is never handed out twice. Every saved ranking names the
    /// template it is stored under.
    pub proof fn lemma_keys(&self)
        requires
            self.wf(),
        ensures
            forall|k: u64| #[trigger]
                self.templates().contains_key(k) ==> k < self.next() && self.templates()[k].id == k,
            forall|k: (Seq<char>, u64)| #[trigger]
                self.tierlists().contains_key(k) ==> self.tierlists()[k].template_id == k.1,
    {
        assert forall|k: (Seq<char>, u64)| #[trigger] self.tierlists().contains_key(k) implies self.tierlists()[k].template_id
            == k.1 by {
            let i = choose|i: int| 0 <= i < self.shelves.len() && (#[trigger] self.shelves[i]).owner@ == k.0;
            assert(self.shelves[i].tierlists@.contains_key(k.1));
        }
    }

    /// The shelf at `i` is the shelf of its owner.
    proof fn lemma_shelf(&self, i: int)
        requires
            self.wf(),
            0 <= i < self.shelves.len(),
        ensures
            self.shelf_of(self.shelves[i].owner@) == self.shelves[i].tierlists@.map_values(|t: Tierlist| t@),
    {
        let owner = self.shelves[i].owner@;
        let c = choose|c: int| 0 <= c < self.shelves.len() && (#[trigger] self.shelves[c]).owner@ == owner;
        if c < i {
            assert(self.shelves[c].owner@ != self.shelves[i].owner@);
        }
        if i < c {
            assert(self.shelves[i].owner@ != self.shelves[c].owner@);
        }
    }

    /// A store with the given configuration and counter, and nothing saved.
    pub fn new(config: Config, next_id: u64) -> (store: Store)
        ensures
            store.wf(),
            store.admin() == config@,
            store.next() == next_id,
            store.templates() == Map::<u64, TemplateView>::empty(),
            store.tierlists() == Map::<(Seq<char>, u64), TierlistView>::empty(),
    {
        let store = Store { config, next_id, catalog: Table::new(), shelves: Vec::new() };
        assert(store.templates() =~= Map::<u64, TemplateView>::empty());
        assert(store.tierlists() =~= Map::<(Seq<char>, u64), TierlistView>::empty());
        store
    }

    /// The configuration.
    pub fn config(&self) -> (config: &Config)
        ensures
            config@ == self.admin(),
    {
        &self.config
    }

    /// The id that the next template will get.
    pub fn next_id(&self) -> (id: u64)
        ensures
            id == self.next(),
    {
        self.next_id
    }

    /// Hands out the next template id and moves the counter past it.
    pub fn allocate(&mut self) -> (id: u64)
        requires
            old(self).wf(),
            old(self).next() < u64::MAX,
        ensures
            final(self).wf(),
            id == old(self).next(),
            final(self).next() == id + 1,
            final(self).admin() == old(self).admin(),
            final(self).templates() == old(self).templates(),
            final(self).tierlists() == old(self).tierlists(),
            !final(self).templates().contains_key(id),
    {
        let id = self.next_id;
        self.next_id = id + 1;
        assert(self.shelves == old(self).shelves);
        assert(self.tierlists() =~= old(self).tierlists()) by {
            assert forall|o: Seq<char>| self.shelf_of(o) == old(self).shelf_of(o) by {}
        }
        assert(!self.catalog@.contains_key(id));
        id
    }

    /// The template stored under `id`, if there is one.
    pub fn template(&self, id: u64) -> (r: Option<&TierlistTemplate>)
        requires
            self.wf(),
        ensures
            match r {
                Some(template) => self.templates().contains_key(id) && self.templates()[id] == template@,
                None => !self.templates().contains_key(id),
            },
    {
        self.catalog.get(id)
    }

    /// Stores `template` under its id, in place of what was stored there.
    pub fn put_template(&mut self, template: TierlistTemplate)
        requires
            old(self).wf(),
            template.id < old(self).next(),
        ensures
            final(self).wf(),
            final(self).templates() == old(self).templates().insert(template.id, template@),
            final(self).admin() == old(self).admin(),
            final(self).next() == old(self).next(),
            final(self).tierlists() == old(self).tierlists(),
    {
        self.catalog.put(template.id, template);
        assert(self.templates() =~= old(self).templates().insert(template.id, template@));
        assert(self.shelves == old(self).shelves);
        assert(self.tierlists() =~= old(self).tierlists()) by {
            assert forall|o: Seq<char>| self.shelf_of(o) == old(self).shelf_of(o) by {}
        }
    }

    /// Removes the template stored under `id`, if there is one.
    pub fn remove_template(&mut self, id: u64)
        requires
            old(self).wf(),
        ensures
            final(self).wf(),
            final(self).templates() == old(self).templates().remove(id),
            final(self).admin() == old(self).admin(),
            final(self).next() == old(self).next(),
            final(self).tierlists() == old(self).tierlists(),
    {
        self.catalog.remove(id);
        assert(self.templates() =~= old(self).templates().remove(id));
        assert(self.shelves == old(self).shelves);
        assert(self.tierlists() =~= old(self).tierlists()) by {
            assert forall|o: Seq<char>| self.shelf_of(o) == old(self).shelf_of(o) by {}
        }
    }

    /// One page of the templates: those with an id behind `start_after`, lowest
    /// id first, `limit` of them at most, each with its id.
    pub fn template_page(&self, start_after: Option<u64>, limit: usize) -> (page: Vec<(u64, TierlistTemplate)>)
        requires
            self.wf(),
        ensures
            is_page(self.templates().dom(), start_after, limit as nat, page_keys(page@)),
            forall|i: int| 0 <= i < page.len() ==> (#[trigger] page[i]).1@ == self.templates()[page[i].0],
    {
        let keys = self.catalog.keys_after(start_after, limit);
        let mut page: Vec<(u64, TierlistTemplate)> = Vec::new();
        let mut i: usize = 0;
        assert(self.templates().dom() =~= self.catalog@.dom());
        while i < keys.len()
            invariant
                self.wf(),
                i <= keys.len(),
                page.len() == i,
                forall|j: int| 0 <= j < keys.len() ==> self.catalog@.contains_key(#[trigger] keys[j]),
                forall|j: int|
                    0 <= j < i ==> (#[trigger] page[j]).0 == keys[j] && page[j].1@ == self.templates()[keys[j]],
            decreases keys.len() - i,
        {
            let key = keys[i];
            match self.catalog.get(key) {
                Some(template) => {
                    page.push((key, template.duplicate()));
                },
                None => {
                    assert(false);
                },
            }
            i += 1;
        }
        assert(page_keys(page@) =~= keys@);
        page
    }

    /// The place of the shelf of `owner`, if there is one.
    fn shelf_index(&self, owner: &String) -> (r: Option<usize>)
        ensures
            match r {
                Some(i) => i < self.shelves.len() && self.shelves[i as int].owner@ == owner@,
                None => forall|i: int| 0 <= i < self.shelves.len() ==> (#[trigger] self.shelves[i]).owner@ != owner@,
            },
    {
        let mut i: usize = 0;
        while i < self.shelves.len()
            invariant
                i <= self.shelves.len(),
                forall|j: int| 0 <= j < i ==> (#[trigger] self.shelves[j]).owner@ != owner@,
            decreases self.shelves.len() - i,
        {
            if self.shelves[i].owner == *owner {
                return Some(i);
            }
            i += 1;
        }
        None
    }

    /// The ranking that `owner` saved of the template `id`, if there is one.
    pub fn tierlist(&self, owner: &String, id: u64) -> (r: Option<&Tierlist>)
        requires
            self.wf(),
        ensures
            match r {
                Some(tierlist) => self.tierlists().contains_key((owner@, id)) && self.tierlists()[(owner@, id)]
                    == tierlist@,
                None => !self.tierlists().contains_key((owner@, id)),
            },
    {
        match self.shelf_index(owner) {
            Some(i) => {
                proof {
                    self.lemma_shelf(i as int);
                }
                self.shelves[i].tierlists.get(id)
            },
            None => None,
        }
    }

    /// Stores `tierlist` as the ranking that `owner` has of its template, in
    /// place of the one stored before.
    pub fn put_tierlist(&mut self, owner: String, tierlist: Tierlist)
        requires
            old(self).wf(),
        ensures
            final(self).wf(),
            final(self).tierlists() == old(self).tierlists().insert((owner@, tierlist.template_id), tierlist@),
            final(self).admin() == old(self).admin(),
            final(self).next() == old(self).next(),
            final(self).templates() == old(self).templates(),
    {
        let id = tierlist.template_id;
        let ghost before = self.shelves@;
        let ghost added = tierlist@;
        let ghost who = owner@;
        let found = self.shelf_index(&owner);
        let at: usize = match found {
            Some(i) => i,
            None => self.shelves.len(),
        };
        let mut shelf = match found {
            Some(i) => self.shelves.remove(i),
            None => Shelf { owner, tierlists: Table::new() },
        };
        let ghost was = shelf.tierlists@;
        shelf.tierlists.put(id, tierlist);
        let ghost now = shelf;
        self.shelves.insert(at, shelf);
        proof {
            assert(self.shelves.len() == if found is Some { before.len() } else { before.len() + 1 });
            assert(self.shelves[at as int] == now);
            assert forall|i: int| 0 <= i < self.shelves.len() && i != at implies #[trigger] self.shelves[i]
                == before[i] by {}
            assert(self.wf()) by {
                assert forall|i: int, k: u64|
                    0 <= i < self.shelves.len() && #[trigger] self.shelves[i].tierlists@.contains_key(
                        k,
                    ) implies self.shelves[i].tierlists@[k].template_id == k by {
                    if i != at {
                        assert(before[i].tierlists@.contains_key(k));
                    } else if k != id && found is Some {
                        assert(before[i].tierlists@.contains_key(k));
                    }
                }
                assert forall|i: int, j: int| 0 <= i < j < self.shelves.len() implies (#[trigger] self.shelves[i]).owner@
                    != (#[trigger] self.shelves[j]).owner@ by {
                    if found is Some {
                        assert(before[i].owner@ != before[j].owner@);
                    } else if j < before.len() {
                        assert(before[i].owner@ != before[j].owner@);
                    } else {
                        assert(before[i].owner@ != who);
                    }
                }
            }
            self.lemma_shelf(at as int);
            if found is Some {
                old(self).lemma_shelf(at as int);
            }
            assert(self.shelf_of(who) =~= old(self).shelf_of(who).insert(id, added));
            assert forall|o: Seq<char>| o != who implies self.shelf_of(o) == old(self).shelf_of(o) by {
                if exists|i: int| 0 <= i < before.len() && (#[trigger] before[i]).owner@ == o {
                    let i = choose|i: int| 0 <= i < before.len() && (#[trigger] before[i]).owner@ == o;
                    assert(self.shelves[i] == before[i]);
                    self.lemma_shelf(i);
                    old(self).lemma_shelf(i);
                } else if exists|i: int| 0 <= i < self.shelves.len() && (#[trigger] self.shelves[i]).owner@ == o {
                    let i = choose|i: int| 0 <= i < self.shelves.len() && (#[trigger] self.shelves[i]).owner@ == o;
                    assert(self.shelves[i] == before[i]);
                }
            }
            assert(self.tierlists() =~= old(self).tierlists().insert((who, id), added));
        }
    }

    /// One page of the rankings of `owner`: those of templates with an id
    /// behind `start_after`, lowest id first, `limit` of them at most, each
    /// with the id of its template.
    pub fn tierlist_page(
        &self,
        owner: &String,
        start_after: Option<u64>,
        limit: usize,
    ) -> (page: Vec<(u64, Tierlist)>)
        requires
            self.wf(),
        ensures
            is_page(self.ranked_by(owner@), start_after, limit as nat, page_keys(page@)),
            forall|i: int|
                0 <= i < page.len() ==> (#[trigger] page[i]).1@ == self.tierlists()[(owner@, page[i].0)],
    {
        let mut page: Vec<(u64, Tierlist)> = Vec::new();
        match self.shelf_index(owner) {
            Some(s) => {
                let shelf = &self.shelves[s];
                let keys = shelf.tierlists.keys_after(start_after, limit);
                proof {
                    self.lemma_shelf(s as int);
                    assert(self.ranked_by(owner@) =~= shelf.tierlists@.dom());
                }
                let mut i: usize = 0;
                while i < keys.len()
                    invariant
                        shelf.tierlists.wf(),
                        self.shelf_of(owner@) == shelf.tierlists@.map_values(|t: Tierlist| t@),
                        i <= keys.len(),
                        page.len() == i,
                        forall|j: int| 0 <= j < keys.len() ==> shelf.tierlists@.contains_key(#[trigger] keys[j]),
                        forall|j: int|
                            0 <= j < i ==> (#[trigger] page[j]).0 == keys[j] && page[j].1@
                                == self.tierlists()[(owner@, keys[j])],
                    decreases keys.len() - i,
                {
                    let key = keys[i];
                    match shelf.tierlists.get(key) {
                        Some(tierlist) => {
                            page.push((key, tierlist.duplicate()));
                        },
                        None => {
                            assert(false);
                        },
                    }
                    i += 1;
                }
                assert(page_keys(page@) =~= keys@);
            },
            None => {
                assert(self.ranked_by(owner@) =~= Set::<u64>::empty());
                assert(page_keys(page@) =~= Seq::<u64>::empty());
            },
        }
        page
    }
}

} // verus!
