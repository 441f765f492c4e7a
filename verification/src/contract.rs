use crate::error::ContractError;
use crate::msg::{ExecuteMsg, InstantiateMsg, QueryMsg, QueryResponse, TemplateResponse, TierlistResponse};
use crate::state::{
    blank, fits, items_view, Config, ItemView, TemplateView, Tierlist, TierlistItem, TierlistTemplate,
    TierlistView,
};
use crate::store::{page_keys, Store};
use crate::table::is_page;
use vstd::prelude::*;

verus! {

/// The number of entries in a page when the query names no limit.
pub const DEFAULT_LIMIT: u32 = 10;

/// The number of entries that a page may hold.
pub open spec fn page_limit(limit: Option<u32>) -> nat {
    match limit {
        Some(n) => n as nat,
        None => DEFAULT_LIMIT as nat,
    }
}

/// Who may change a template: its creator and the administrator.
pub open spec fn permitted(actor: Seq<char>, creator: Seq<char>, admin: Seq<char>) -> bool {
    actor == creator || actor == admin
}

/// What the guard answers: `Ok` to the creator and to the administrator, `Unauthorized` to anyone else.
pub open spec fn authorization(
    actor: Seq<char>,
    creator: Seq<char>,
    admin: Seq<char>,
) -> Result<(), ContractError> {
    if permitted(actor, creator, admin) {
        Ok(())
    } else {
        Err(ContractError::Unauthorized)
    }
}

/// Whether `actor` may change the template `id`: `NotFound` where there is no
/// such template, and only then `Unauthorized` where the actor is neither its
/// creator nor the administrator.
pub open spec fn guard(
    templates: Map<u64, TemplateView>,
    admin: Seq<char>,
    id: u64,
    actor: Seq<char>,
) -> Result<(), ContractError> {
    if !templates.contains_key(id) {
        Err(ContractError::NotFound)
    } else if permitted(actor, templates[id].creator, admin) {
        Ok(())
    } else {
        Err(ContractError::Unauthorized)
    }
}

/// Whether `tierlist` may be saved: `NotFound` where its template is not
/// stored, `InvalidTierlist` where it does not fit the template.
pub open spec fn save_guard(
    templates: Map<u64, TemplateView>,
    tierlist: TierlistView,
) -> Result<(), ContractError> {
    if !templates.contains_key(tierlist.template_id) {
        Err(ContractError::NotFound)
    } else if fits(tierlist, templates[tierlist.template_id]) {
        Ok(())
    } else {
        Err(ContractError::InvalidTierlist)
    }
}

/// `after` is `before` with a new template of `sender`, stored under the id `id`
/// that the counter handed out.
pub open spec fn created(
    before: Store,
    sender: Seq<char>,
    title: Seq<char>,
    items: Seq<ItemView>,
    after: Store,
    id: u64,
) -> bool {
    &&& id == before.next()
    &&& after.next() == id + 1
    &&& after.admin() == before.admin()
    &&& after.tierlists() == before.tierlists()
    &&& after.templates() == before.templates().insert(id, (TemplateView { id, title, items, creator: sender }))
}

/// `after` is `before` with the title and items of the template `id` replaced,
/// where `sender` may do that, and `before` where not. The creator stays.
pub open spec fn edited(
    before: Store,
    sender: Seq<char>,
    id: u64,
    title: Seq<char>,
    items: Seq<ItemView>,
    after: Store,
    r: Result<(), ContractError>,
) -> bool {
    &&& r == guard(before.templates(), before.admin(), id, sender)
    &&& after.next() == before.next()
    &&& after.admin() == before.admin()
    &&& after.tierlists() == before.tierlists()
    &&& after.templates() == if r is Ok {
        before.templates().insert(
            id,
            (TemplateView { id, title, items, creator: before.templates()[id].creator }),
        )
    } else {
        before.templates()
    }
}

/// `after` is `before` without the template `id`, where `sender` may remove it,
/// and `before` where not.
pub open spec fn deleted(
    before: Store,
    sender: Seq<char>,
    id: u64,
    after: Store,
    r: Result<(), ContractError>,
) -> bool {
    &&& r == guard(before.templates(), before.admin(), id, sender)
    &&& after.next() == before.next()
    &&& after.admin() == before.admin()
    &&& after.tierlists() == before.tierlists()
    &&& after.templates() == if r is Ok {
        before.templates().remove(id)
    } else {
        before.templates()
    }
}

/// `after` is `before` with `tierlist` as the ranking that `sender` has of its
/// template, where it may be saved, and `before` where not.
pub open spec fn saved(
    before: Store,
    sender: Seq<char>,
    tierlist: TierlistView,
    after: Store,
    r: Result<(), ContractError>,
) -> bool {
    &&& r == save_guard(before.templates(), tierlist)
    &&& after.next() == before.next()
    &&& after.admin() == before.admin()
    &&& after.templates() == before.templates()
    &&& after.tierlists() == if r is Ok {
        before.tierlists().insert((sender, tierlist.template_id), tierlist)
    } else {
        before.tierlists()
    }
}

/// What `execute` does with each message.
pub open spec fn executed(
    before: Store,
    sender: Seq<char>,
    msg: ExecuteMsg,
    after: Store,
    r: Result<(), ContractError>,
) -> bool {
    match msg {
        ExecuteMsg::CreateTemplate { title, items } => r is Ok && created(
            before,
            sender,
            title@,
            items_view(items@),
            after,
            before.next(),
        ),
        ExecuteMsg::DeleteTemplate { id } => deleted(before, sender, id, after, r),
        ExecuteMsg::EditTemplate { id, title, items } => edited(
            before,
            sender,
            id,
            title@,
            items_view(items@),
            after,
            r,
        ),
        ExecuteMsg::SaveTierlist { tierlist } => saved(before, sender, tierlist@, after, r),
    }
}

/// The answer names the template `id` if it is stored, and nothing if not.
pub open spec fn template_answer(store: Store, id: u64, r: TemplateResponse) -> bool {
    match r.template {
        Some(template) => store.templates().contains_key(id) && template@ == store.templates()[id],
        None => !store.templates().contains_key(id),
    }
}

/// The answer is the blank tierlist of the template `id` if it is stored, and
/// nothing if not.
pub open spec fn blank_answer(store: Store, id: u64, r: TierlistResponse) -> bool {
    match r.tierlist {
        Some(tierlist) => store.templates().contains_key(id) && tierlist@ == blank(store.templates()[id]),
        None => !store.templates().contains_key(id),
    }
}

/// The answer is the ranking that `address` saved of the template `id`, and
/// nothing if there is none.
pub open spec fn tierlist_answer(store: Store, address: Seq<char>, id: u64, r: TierlistResponse) -> bool {
    match r.tierlist {
        Some(tierlist) => store.tierlists().contains_key((address, id)) && tierlist@ == store.tierlists()[(
            address,
            id,
        )],
        None => !store.tierlists().contains_key((address, id)),
    }
}

/// The answer is the page of templates behind `start_after`.
pub open spec fn templates_answer(
    store: Store,
    start_after: Option<u64>,
    limit: Option<u32>,
    page: Seq<(u64, TierlistTemplate)>,
) -> bool {
    &&& is_page(store.templates().dom(), start_after, page_limit(limit), page_keys(page))
    &&& forall|i: int| 0 <= i < page.len() ==> (#[trigger] page[i]).1@ == store.templates()[page[i].0]
}

/// The answer is the page of the rankings of `address` behind `start_after`.
pub open spec fn tierlists_answer(
    store: Store,
    address: Seq<char>,
    start_after: Option<u64>,
    limit: Option<u32>,
    page: Seq<(u64, Tierlist)>,
) -> bool {
    &&& is_page(store.ranked_by(address), start_after, page_limit(limit), page_keys(page))
    &&& forall|i: int|
        0 <= i < page.len() ==> (#[trigger] page[i]).1@ == store.tierlists()[(address, page[i].0)]
}

/// What `query` answers to each message.
pub open spec fn answered(store: Store, msg: QueryMsg, r: QueryResponse) -> bool {
    match msg {
        QueryMsg::Config {} => r matches QueryResponse::Config(config) && config@ == store.admin(),
        QueryMsg::Template { id } => r matches QueryResponse::Template(t) && template_answer(store, id, t),
        QueryMsg::TierlistFromTemplate { id } => r matches QueryResponse::Tierlist(t) && blank_answer(
            store,
            id,
            t,
        ),
        QueryMsg::Tierlist { address, id } => r matches QueryResponse::Tierlist(t) && tierlist_answer(
            store,
            address@,
            id,
            t,
        ),
        QueryMsg::TierlistsByAddress { address, start_after, limit } => r matches QueryResponse::Tierlists(page)
            && tierlists_answer(store, address@, start_after, limit, page@),
        QueryMsg::Templates { start_after, limit } => r matches QueryResponse::Templates(page)
            && templates_answer(store, start_after, limit, page@),
    }
}

/// Whatever is executed, the administrator stays, the counter does not fall
/// and counts past every id it hands out, a template that is still stored has
/// kept its id and its creator, and a refused request changes nothing.
pub proof fn lemma_execute_keeps(
    before: Store,
    sender: Seq<char>,
    msg: ExecuteMsg,
    after: Store,
    r: Result<(), ContractError>,
    id: u64,
)
    requires
        before.wf(),
        executed(before, sender, msg, after, r),
    ensures
        after.admin() == before.admin(),
        after.next() >= before.next(),
        after.templates().contains_key(id) ==> id < after.next() && after.templates()[id].id == id,
        before.templates().contains_key(id) && after.templates().contains_key(id)
            ==> after.templates()[id].creator == before.templates()[id].creator,
        r is Err ==> after.next() == before.next() && after.templates() == before.templates()
            && after.tierlists() == before.tierlists(),
{
    before.lemma_keys();
}

/// A ranking is saved only if it fits its template as stored at that time,
/// and then under the sender's own address, whatever it holds.
pub proof fn lemma_saved_fits(
    before: Store,
    sender: Seq<char>,
    tierlist: TierlistView,
    after: Store,
    r: Result<(), ContractError>,
)
    requires
        saved(before, sender, tierlist, after, r),
    ensures
        r is Ok <==> before.templates().contains_key(tierlist.template_id) && fits(
            tierlist,
            before.templates()[tierlist.template_id],
        ),
        r is Ok ==> after.tierlists()[(sender, tierlist.template_id)] == tierlist,
        forall|k: (Seq<char>, u64)|
            k != (sender, tierlist.template_id) ==> after.tierlists().contains_key(k)
                == before.tierlists().contains_key(k) && after.tierlists()[k] == before.tierlists()[k],
{
}

/// Only a template's creator and the administrator may edit or delete it;
/// for them the request succeeds whenever the template is stored.
pub proof fn lemma_guard(templates: Map<u64, TemplateView>, admin: Seq<char>, id: u64, actor: Seq<char>)
    requires
        templates.contains_key(id),
    ensures
        actor == templates[id].creator || actor == admin ==> guard(templates, admin, id, actor) is Ok,
        actor != templates[id].creator && actor != admin ==> guard(templates, admin, id, actor)
            == Err::<(), ContractError>(ContractError::Unauthorized),
{
}

/// Lets the creator of a resource and the administrator through, and nobody else.
pub fn check(actor: &String, creator: &String, admin: &String) -> (r: Result<(), ContractError>)
    ensures
        r == authorization(actor@, creator@, admin@),
{
    if *actor == *creator || *actor == *admin {
        Ok(())
    } else {
        Err(ContractError::Unauthorized)
    }
}

/// The number of entries that a page may hold, as a length.
fn limit_of(limit: Option<u32>) -> (n: usize)
    ensures
        n == page_limit(limit),
{
    match limit {
        Some(n) => n as usize,
        None => DEFAULT_LIMIT as usize,
    }
}

/// Creates the store: the administrator is set, the counter stands at 0 and
/// nothing is saved.
pub fn instantiate(msg: InstantiateMsg) -> (store: Store)
    ensures
        store.wf(),
        store.admin() == msg.admin_address@,
        store.next() == 0,
        store.templates() == Map::<u64, TemplateView>::empty(),
        store.tierlists() == Map::<(Seq<char>, u64), TierlistView>::empty(),
{
    Store::new(Config { admin_address: msg.admin_address }, 0)
}

/// Carries out the change that `msg` asks for, on behalf of `sender`.
pub fn execute(store: &mut Store, sender: String, msg: ExecuteMsg) -> (r: Result<(), ContractError>)
    requires
        old(store).wf(),
        msg is CreateTemplate ==> old(store).next() < u64::MAX,
    ensures
        final(store).wf(),
        executed(*old(store), sender@, msg, *final(store), r),
{
    match msg {
        ExecuteMsg::CreateTemplate { title, items } => {
            let _id: u64 = execute_create_template(store, sender, title, items);
            Ok(())
        },
        ExecuteMsg::DeleteTemplate { id } => execute_delete_template(store, sender, id),
        ExecuteMsg::EditTemplate { id, title, items } => execute_edit_template(store, sender, id, title, items),
        ExecuteMsg::SaveTierlist { tierlist } => execute_save_tierlist(store, sender, tierlist),
    }
}

/// Stores a new template of `sender` under the next id, and returns that id.
pub fn execute_create_template(
    store: &mut Store,
    sender: String,
    title: String,
    items: Vec<TierlistItem>,
) -> (id: u64)
    requires
        old(store).wf(),
        old(store).next() < u64::MAX,
    ensures
        final(store).wf(),
        created(*old(store), sender@, title@, items_view(items@), *final(store), id),
{
    let id = store.allocate();
    let template = TierlistTemplate { id, title, items, creator: sender };
    store.put_template(template);
    id
}

/// Removes the template `id`, if `sender` is its creator or the administrator.
pub fn execute_delete_template(store: &mut Store, sender: String, id: u64) -> (r: Result<(), ContractError>)
    requires
        old(store).wf(),
    ensures
        final(store).wf(),
        deleted(*old(store), sender@, id, *final(store), r),
{
    let allowed = match store.template(id) {
        None => Err(ContractError::NotFound),
        Some(template) => check(&sender, &template.creator, &store.config().admin_address),
    };
    if allowed.is_ok() {
        store.remove_template(id);
    }
    allowed
}

/// Replaces the title and the items of the template `id`, if `sender` is its
/// creator or the administrator. Its id and its creator stay as they are.
pub fn execute_edit_template(
    store: &mut Store,
    sender: String,
    id: u64,
    title: String,
    items: Vec<TierlistItem>,
) -> (r: Result<(), ContractError>)
    requires
        old(store).wf(),
    ensures
        final(store).wf(),
        edited(*old(store), sender@, id, title@, items_view(items@), *final(store), r),
{
    let creator = match store.template(id) {
        None => {
            return Err(ContractError::NotFound);
        },
        Some(existing) => {
            if check(&sender, &existing.creator, &store.config().admin_address).is_err() {
                return Err(ContractError::Unauthorized);
            }
            existing.creator.clone()
        },
    };
    proof {
        store.lemma_keys();
    }
    let template = TierlistTemplate { id, title, items, creator };
    store.put_template(template);
    Ok(())
}

/// Saves `tierlist` as the ranking that `sender` has of its template, if the
/// template is stored and the tierlist fits it.
pub fn execute_save_tierlist(
    store: &mut Store,
    sender: String,
    tierlist: Tierlist,
) -> (r: Result<(), ContractError>)
    requires
        old(store).wf(),
    ensures
        final(store).wf(),
        saved(*old(store), sender@, tierlist@, *final(store), r),
{
    let valid = match store.template(tierlist.template_id) {
        None => {
            return Err(ContractError::NotFound);
        },
        Some(template) => tierlist.duplicate().validate_against_template(template.duplicate()),
    };
    if !valid {
        return Err(ContractError::InvalidTierlist);
    }
    store.put_tierlist(sender, tierlist);
    Ok(())
}

/// Answers the question that `msg` asks.
pub fn query(store: &Store, msg: QueryMsg) -> (r: QueryResponse)
    requires
        store.wf(),
    ensures
        answered(*store, msg, r),
{
    match msg {
        QueryMsg::Config {} => QueryResponse::Config(
            Config { admin_address: store.config().admin_address.clone() },
        ),
        QueryMsg::Template { id } => QueryResponse::Template(query_template(store, id)),
        QueryMsg::TierlistFromTemplate { id } => QueryResponse::Tierlist(query_tierlist_from_template(store, id)),
        QueryMsg::Tierlist { address, id } => QueryResponse::Tierlist(query_tierlist(store, address, id)),
        QueryMsg::TierlistsByAddress { address, start_after, limit } => QueryResponse::Tierlists(
            query_tierlists_by_address(store, address, start_after, limit),
        ),
        QueryMsg::Templates { start_after, limit } => QueryResponse::Templates(
            query_tierlist_templates(store, start_after, limit),
        ),
    }
}

/// The template `id`, if it is stored.
pub fn query_template(store: &Store, id: u64) -> (r: TemplateResponse)
    requires
        store.wf(),
    ensures
        template_answer(*store, id, r),
{
    match store.template(id) {
        None => TemplateResponse { template: None },
        Some(template) => TemplateResponse { template: Some(template.duplicate()) },
    }
}

/// The blank tierlist of the template `id`, if it is stored.
pub fn query_tierlist_from_template(store: &Store, id: u64) -> (r: TierlistResponse)
    requires
        store.wf(),
    ensures
        blank_answer(*store, id, r),
{
    match store.template(id) {
        None => TierlistResponse { tierlist: None },
        Some(template) => TierlistResponse { tierlist: Some(Tierlist::from_template(template.duplicate())) },
    }
}

/// The ranking that `address` saved of the template `id`, if there is one.
pub fn query_tierlist(store: &Store, address: String, id: u64) -> (r: TierlistResponse)
    requires
        store.wf(),
    ensures
        tierlist_answer(*store, address@, id, r),
{
    match store.tierlist(&address, id) {
        None => TierlistResponse { tierlist: None },
        Some(tierlist) => TierlistResponse { tierlist: Some(tierlist.duplicate()) },
    }
}

/// One page of the templates, in ascending order of id: those with an id
/// above `start_after`, at most `limit` of them, or `DEFAULT_LIMIT` where no
/// limit is given.
pub fn query_tierlist_templates(
    store: &Store,
    start_after: Option<u64>,
    limit: Option<u32>,
) -> (page: Vec<(u64, TierlistTemplate)>)
    requires
        store.wf(),
    ensures
        templates_answer(*store, start_after, limit, page@),
{
    store.template_page(start_after, limit_of(limit))
}

/// One page of the rankings of `address`, in ascending order of template id:
/// those of a template with an id above `start_after`, at most `limit` of
/// them, or `DEFAULT_LIMIT` where no limit is given.
pub fn query_tierlists_by_address(
    store: &Store,
    address: String,
    start_after: Option<u64>,
    limit: Option<u32>,
) -> (page: Vec<(u64, Tierlist)>)
    requires
        store.wf(),
    ensures
        tierlists_answer(*store, address@, start_after, limit, page@),
{
    store.tierlist_page(&address, start_after, limit_of(limit))
}

} // verus!
