use cw_tierlist::contract::{
    check, execute, execute_create_template, execute_delete_template, execute_edit_template,
    execute_save_tierlist, instantiate, query, query_template, query_tierlist,
    query_tierlist_from_template, query_tierlist_templates, query_tierlists_by_address,
    DEFAULT_LIMIT,
};
use cw_tierlist::error::ContractError;
use cw_tierlist::msg::{
    ExecuteMsg, InstantiateMsg, QueryMsg, QueryResponse, TemplateResponse, TierlistResponse,
};
use cw_tierlist::state::{Config, Tierlist, TierlistItem, TierlistTemplate};
use cw_tierlist::store::Store;

pub const ADDR1: &str = "addr1";
pub const ADDR2: &str = "addr2";
pub const ADMIN: &str = "admin";

fn item(name: &str) -> TierlistItem {
    TierlistItem {
        name: name.to_string(),
        image_url: None,
    }
}

fn abc() -> Vec<TierlistItem> {
    vec![item("A"), item("B"), item("C")]
}

fn def() -> Vec<TierlistItem> {
    vec![item("D"), item("E"), item("F")]
}

fn start(admin: &str) -> Store {
    instantiate(InstantiateMsg {
        admin_address: admin.to_string(),
    })
}

fn template_of(response: QueryResponse) -> TemplateResponse {
    match response {
        QueryResponse::Template(t) => t,
        other => panic!("not a template answer: {:?}", other),
    }
}

fn tierlist_of(response: QueryResponse) -> TierlistResponse {
    match response {
        QueryResponse::Tierlist(t) => t,
        other => panic!("not a tierlist answer: {:?}", other),
    }
}

fn tierlists_of(response: QueryResponse) -> Vec<(u64, Tierlist)> {
    match response {
        QueryResponse::Tierlists(page) => page,
        other => panic!("not a page of tierlists: {:?}", other),
    }
}

fn templates_of(response: QueryResponse) -> Vec<(u64, TierlistTemplate)> {
    match response {
        QueryResponse::Templates(page) => page,
        other => panic!("not a page of templates: {:?}", other),
    }
}

#[test]
fn test_instantiate() {
    let store = instantiate(InstantiateMsg {
        admin_address: ADDR1.to_string(),
    });

    let config = match query(&store, QueryMsg::Config {}) {
        QueryResponse::Config(config) => config,
        other => panic!("not a configuration: {:?}", other),
    };
    assert_eq!(
        config,
        Config {
            admin_address: ADDR1.to_string()
        }
    );
}

#[test]
fn test_create_template() {
    let mut store = start(ADDR1);

    let msg = ExecuteMsg::CreateTemplate {
        title: "Tierlist 1".to_string(),
        items: vec![
            TierlistItem {
                name: "A".to_string(),
                image_url: None,
            },
            TierlistItem {
                name: "B".to_string(),
                image_url: None,
            },
            TierlistItem {
                name: "C".to_string(),
                image_url: None,
            },
        ],
    };
    execute(&mut store, ADDR1.to_string(), msg).unwrap();

    let msg = QueryMsg::Template { id: 0 };
    let template = template_of(query(&store, msg));
    assert_eq!(
        template.template,
        Some(TierlistTemplate {
            id: 0,
            title: "Tierlist 1".to_string(),
            items: vec![
                TierlistItem {
                    name: "A".to_string(),
                    image_url: None,
                },
                TierlistItem {
                    name: "B".to_string(),
                    image_url: None,
                },
                TierlistItem {
                    name: "C".to_string(),
                    image_url: None,
                },
            ],
            creator: ADDR1.to_string()
        })
    );
}

#[test]
fn test_edit_template() {
    let mut store = start(ADDR1);

    let msg = ExecuteMsg::CreateTemplate {
        title: "Tierlist 1".to_string(),
        items: abc(),
    };
    execute(&mut store, ADDR1.to_string(), msg).unwrap();

    let msg = ExecuteMsg::EditTemplate {
        id: 0,
        title: "NewTitle".to_string(),
        items: vec![
            TierlistItem {
                name: "A".to_string(),
                image_url: None,
            },
            TierlistItem {
                name: "C".to_string(),
                image_url: None,
            },
        ],
    };
    // Try and edit as non admin non owner
    execute(&mut store, ADDR2.to_string(), msg.clone()).unwrap_err();

    // Valid edit
    execute(&mut store, ADDR1.to_string(), msg).unwrap();

    // Query the template
    let msg = QueryMsg::Template { id: 0 };
    let template = template_of(query(&store, msg));
    assert_eq!(
        template.template,
        Some(TierlistTemplate {
            id: 0,
            title: "NewTitle".to_string(),
            items: vec![
                TierlistItem {
                    name: "A".to_string(),
                    image_url: None,
                },
                TierlistItem {
                    name: "C".to_string(),
                    image_url: None,
                },
            ],
            creator: ADDR1.to_string()
        })
    )
}

#[test]
fn test_delete_template() {
    let mut store = start(ADDR1);

    let msg = ExecuteMsg::CreateTemplate {
        title: "Tierlist 1".to_string(),
        items: abc(),
    };
    execute(&mut store, ADDR1.to_string(), msg).unwrap();

    let msg = ExecuteMsg::DeleteTemplate { id: 0 };
    // Try to delete as non admin or creator
    execute(&mut store, ADDR2.to_string(), msg.clone()).unwrap_err();
    // Valid delete
    execute(&mut store, ADDR1.to_string(), msg).unwrap();

    let msg = QueryMsg::Template { id: 0 };
    let res = template_of(query(&store, msg));
    assert_eq!(res.template, None);
}

#[test]
fn test_save_tierlist() {
    let mut store = start(ADDR1);

    let msg = ExecuteMsg::CreateTemplate {
        title: "Tierlist 1".to_string(),
        items: abc(),
    };
    execute(&mut store, ADDR1.to_string(), msg).unwrap();

    // Valid tierlist
    let tierlist = Tierlist {
        template_id: 0,
        items_to_tiers: vec![
            (item("A"), "S".to_string()),
            (item("B"), "A".to_string()),
            (item("C"), "B".to_string()),
        ],
    };
    let msg = ExecuteMsg::SaveTierlist {
        tierlist: tierlist.clone(),
    };
    execute(&mut store, ADDR1.to_string(), msg).unwrap();

    // Query for it
    let msg = QueryMsg::Tierlist {
        address: ADDR1.to_string(),
        id: 0,
    };
    let res = tierlist_of(query(&store, msg));
    assert_eq!(res.tierlist, Some(tierlist));

    // Query for nonexistent
    let msg = QueryMsg::Tierlist {
        address: ADDR2.to_string(),
        id: 0,
    };
    let res = tierlist_of(query(&store, msg));
    assert_eq!(res.tierlist, None);

    // Invalid tierlist, missing options
    let tierlist = Tierlist {
        template_id: 0,
        items_to_tiers: vec![(item("A"), "S".to_string()), (item("B"), "A".to_string())],
    };
    let msg = ExecuteMsg::SaveTierlist { tierlist };
    execute(&mut store, ADDR1.to_string(), msg).unwrap_err();

    // Invalid tierlist, additional options
    let tierlist = Tierlist {
        template_id: 0,
        items_to_tiers: vec![
            (item("A"), "S".to_string()),
            (item("B"), "A".to_string()),
            (item("C"), "A".to_string()),
            (item("D"), "A".to_string()),
        ],
    };
    let msg = ExecuteMsg::SaveTierlist { tierlist };
    execute(&mut store, ADDR1.to_string(), msg).unwrap_err();
}

#[test]
fn test_query_tierlists() {
    let mut store = start(ADDR1);

    let msg = ExecuteMsg::CreateTemplate {
        title: "Tierlist 1".to_string(),
        items: abc(),
    };
    execute(&mut store, ADDR1.to_string(), msg).unwrap();

    let msg = ExecuteMsg::CreateTemplate {
        title: "Tierlist 2".to_string(),
        items: def(),
    };
    execute(&mut store, ADDR1.to_string(), msg).unwrap();

    let tierlist_1 = Tierlist::from_template(TierlistTemplate {
        id: 0,
        title: "Tierlist 1".to_string(),
        items: abc(),
        creator: ADDR1.to_string(),
    });

    let tierlist_2 = Tierlist::from_template(TierlistTemplate {
        id: 1,
        title: "Tierlist 2".to_string(),
        items: def(),
        creator: ADDR1.to_string(),
    });

    let msg = ExecuteMsg::SaveTierlist {
        tierlist: tierlist_1,
    };
    execute(&mut store, ADDR1.to_string(), msg).unwrap();
    let msg = ExecuteMsg::SaveTierlist {
        tierlist: tierlist_2,
    };
    execute(&mut store, ADDR1.to_string(), msg).unwrap();

    let msg = QueryMsg::TierlistsByAddress {
        address: ADDR1.to_string(),
        start_after: None,
        limit: None,
    };
    let res = tierlists_of(query(&store, msg));
    assert_eq!(res.len(), 2);

    let msg = QueryMsg::TierlistsByAddress {
        address: ADDR2.to_string(),
        start_after: None,
        limit: None,
    };
    let res = tierlists_of(query(&store, msg));
    assert_eq!(res.len(), 0);
}

#[test]
fn test_query_templates() {
    let mut store = start(ADDR1);

    let msg = ExecuteMsg::CreateTemplate {
        title: "Tierlist 1".to_string(),
        items: abc(),
    };
    execute(&mut store, ADDR1.to_string(), msg).unwrap();

    let msg = ExecuteMsg::CreateTemplate {
        title: "Tierlist 2".to_string(),
        items: def(),
    };
    execute(&mut store, ADDR1.to_string(), msg).unwrap();

    let msg = QueryMsg::Templates {
        start_after: None,
        limit: None,
    };
    let res = templates_of(query(&store, msg));
    assert_eq!(
        res,
        vec![
            (
                0,
                TierlistTemplate {
                    id: 0,
                    title: "Tierlist 1".to_string(),
                    items: vec![
                        TierlistItem {
                            name: "A".to_string(),
                            image_url: None
                        },
                        TierlistItem {
                            name: "B".to_string(),
                            image_url: None
                        },
                        TierlistItem {
                            name: "C".to_string(),
                            image_url: None
                        }
                    ],
                    creator: ADDR1.to_string()
                }
            ),
            (
                1,
                TierlistTemplate {
                    id: 1,
                    title: "Tierlist 2".to_string(),
                    items: vec![
                        TierlistItem {
                            name: "D".to_string(),
                            image_url: None
                        },
                        TierlistItem {
                            name: "E".to_string(),
                            image_url: None
                        },
                        TierlistItem {
                            name: "F".to_string(),
                            image_url: None
                        }
                    ],
                    creator: ADDR1.to_string()
                }
            ),
        ]
    );
}

#[test]
fn fresh_store_is_empty() {
    let store = start(ADMIN);
    assert_eq!(store.config().admin_address, ADMIN.to_string());
    assert_eq!(store.next_id(), 0);
    assert_eq!(query_template(&store, 0).template, None);
    assert_eq!(query_tierlist_from_template(&store, 0).tierlist, None);
    assert_eq!(query_tierlist(&store, ADDR1.to_string(), 0).tierlist, None);
    assert!(query_tierlist_templates(&store, None, None).is_empty());
    assert!(query_tierlists_by_address(&store, ADDR1.to_string(), None, None).is_empty());
}

#[test]
fn guard_lets_creator_and_admin_through() {
    let (u1, u2, admin) = (ADDR1.to_string(), ADDR2.to_string(), ADMIN.to_string());
    assert_eq!(check(&u1, &u1, &admin), Ok(()));
    assert_eq!(check(&admin, &u1, &admin), Ok(()));
    assert_eq!(check(&u2, &u1, &admin), Err(ContractError::Unauthorized));
}

#[test]
fn ids_count_up_and_are_not_reused_after_delete() {
    let mut store = start(ADMIN);
    assert_eq!(
        execute_create_template(&mut store, ADDR1.to_string(), "T1".to_string(), abc()),
        0
    );
    assert_eq!(
        execute_create_template(&mut store, ADDR2.to_string(), "T2".to_string(), def()),
        1
    );
    assert_eq!(execute_delete_template(&mut store, ADDR2.to_string(), 1), Ok(()));
    assert_eq!(
        execute_create_template(&mut store, ADDR2.to_string(), "T3".to_string(), def()),
        2
    );
    assert_eq!(store.next_id(), 3);
    assert_eq!(query_template(&store, 1).template, None);
    let ids: Vec<u64> = query_tierlist_templates(&store, None, None)
        .iter()
        .map(|entry| entry.0)
        .collect();
    assert_eq!(ids, vec![0, 2]);
}

#[test]
fn edit_and_delete_of_missing_template_are_not_found() {
    let mut store = start(ADMIN);
    assert_eq!(
        execute_edit_template(&mut store, ADMIN.to_string(), 0, "T".to_string(), abc()),
        Err(ContractError::NotFound)
    );
    assert_eq!(
        execute_delete_template(&mut store, ADMIN.to_string(), 0),
        Err(ContractError::NotFound)
    );
    // a stranger learns no more than the administrator does
    assert_eq!(
        execute_delete_template(&mut store, ADDR2.to_string(), 5),
        Err(ContractError::NotFound)
    );
}

#[test]
fn stranger_may_neither_edit_nor_delete() {
    let mut store = start(ADMIN);
    execute_create_template(&mut store, ADDR1.to_string(), "T1".to_string(), abc());
    assert_eq!(
        execute_edit_template(&mut store, ADDR2.to_string(), 0, "Mine".to_string(), def()),
        Err(ContractError::Unauthorized)
    );
    assert_eq!(
        execute_delete_template(&mut store, ADDR2.to_string(), 0),
        Err(ContractError::Unauthorized)
    );
    // nothing changed
    assert_eq!(
        query_template(&store, 0).template,
        Some(TierlistTemplate {
            id: 0,
            title: "T1".to_string(),
            items: abc(),
            creator: ADDR1.to_string(),
        })
    );
}

#[test]
fn admin_edit_keeps_the_creator() {
    let mut store = start(ADMIN);
    execute_create_template(&mut store, ADDR1.to_string(), "T1".to_string(), abc());
    assert_eq!(
        execute_edit_template(&mut store, ADMIN.to_string(), 0, "Edited".to_string(), def()),
        Ok(())
    );
    assert_eq!(
        query_template(&store, 0).template,
        Some(TierlistTemplate {
            id: 0,
            title: "Edited".to_string(),
            items: def(),
            creator: ADDR1.to_string(),
        })
    );
    // the creator may still edit, and the administrator may delete
    assert_eq!(
        execute_edit_template(&mut store, ADDR1.to_string(), 0, "Again".to_string(), abc()),
        Ok(())
    );
    assert_eq!(execute_delete_template(&mut store, ADMIN.to_string(), 0), Ok(()));
    assert_eq!(query_template(&store, 0).template, None);
}

#[test]
fn save_for_missing_template_is_not_found() {
    let mut store = start(ADMIN);
    let tierlist = Tierlist {
        template_id: 3,
        items_to_tiers: vec![],
    };
    assert_eq!(
        execute_save_tierlist(&mut store, ADDR1.to_string(), tierlist),
        Err(ContractError::NotFound)
    );
}

#[test]
fn save_overwrites_and_keeps_owners_apart() {
    let mut store = start(ADMIN);
    execute_create_template(&mut store, ADDR1.to_string(), "T1".to_string(), abc());
    let template = query_template(&store, 0).template.unwrap();
    let mut first = Tierlist::from_template(template.clone());
    first.assign(item("A"), "S".to_string());
    let mut second = Tierlist::from_template(template);
    second.assign(item("B"), "F".to_string());

    assert_eq!(execute_save_tierlist(&mut store, ADDR1.to_string(), first.clone()), Ok(()));
    assert_eq!(execute_save_tierlist(&mut store, ADDR2.to_string(), first.clone()), Ok(()));
    assert_eq!(execute_save_tierlist(&mut store, ADDR1.to_string(), second.clone()), Ok(()));

    assert_eq!(query_tierlist(&store, ADDR1.to_string(), 0).tierlist, Some(second.clone()));
    assert_eq!(query_tierlist(&store, ADDR2.to_string(), 0).tierlist, Some(first.clone()));
    assert_eq!(
        query_tierlists_by_address(&store, ADDR1.to_string(), None, None),
        vec![(0, second)]
    );
    assert_eq!(store.tierlist(&ADDR2.to_string(), 0), Some(&first));
    assert_eq!(store.tierlist(&ADDR2.to_string(), 1), None);
}

#[test]
fn saved_ranking_survives_edit_and_delete_of_its_template() {
    let mut store = start(ADMIN);
    execute_create_template(&mut store, ADDR1.to_string(), "T1".to_string(), abc());
    let blank = query_tierlist_from_template(&store, 0).tierlist.unwrap();
    assert_eq!(execute_save_tierlist(&mut store, ADDR2.to_string(), blank.clone()), Ok(()));
    assert_eq!(
        execute_edit_template(&mut store, ADDR1.to_string(), 0, "T1".to_string(), def()),
        Ok(())
    );
    assert_eq!(query_tierlist(&store, ADDR2.to_string(), 0).tierlist, Some(blank.clone()));
    // the old ranking no longer fits
    assert_eq!(
        execute_save_tierlist(&mut store, ADDR2.to_string(), blank.clone()),
        Err(ContractError::InvalidTierlist)
    );
    assert_eq!(execute_delete_template(&mut store, ADDR1.to_string(), 0), Ok(()));
    assert_eq!(query_tierlist(&store, ADDR2.to_string(), 0).tierlist, Some(blank));
}

fn store_with_templates(n: u64) -> Store {
    let mut store = start(ADMIN);
    for i in 0..n {
        let id = execute_create_template(&mut store, ADDR1.to_string(), format!("T{}", i), abc());
        assert_eq!(id, i);
    }
    store
}

fn template_ids(store: &Store, start_after: Option<u64>, limit: Option<u32>) -> Vec<u64> {
    query_tierlist_templates(store, start_after, limit)
        .iter()
        .map(|entry| {
            assert_eq!(entry.0, entry.1.id);
            entry.0
        })
        .collect()
}

#[test]
fn templates_page_defaults_to_ten() {
    assert_eq!(DEFAULT_LIMIT, 10);
    let store = store_with_templates(13);
    assert_eq!(template_ids(&store, None, None), vec![0, 1, 2, 3, 4, 5, 6, 7, 8, 9]);
    assert_eq!(template_ids(&store, Some(9), None), vec![10, 11, 12]);
    assert_eq!(template_ids(&store, Some(3), None), vec![4, 5, 6, 7, 8, 9, 10, 11, 12]);
    assert_eq!(template_ids(&store, Some(1), None), vec![2, 3, 4, 5, 6, 7, 8, 9, 10, 11]);
}

#[test]
fn templates_page_honours_cursor_and_limit() {
    let mut store = store_with_templates(6);
    assert_eq!(execute_delete_template(&mut store, ADDR1.to_string(), 2), Ok(()));
    assert_eq!(template_ids(&store, None, Some(3)), vec![0, 1, 3]);
    assert_eq!(template_ids(&store, Some(1), Some(2)), vec![3, 4]);
    assert_eq!(template_ids(&store, Some(2), Some(2)), vec![3, 4]);
    assert_eq!(template_ids(&store, Some(4), Some(100)), vec![5]);
    assert_eq!(template_ids(&store, Some(5), Some(100)), Vec::<u64>::new());
    assert_eq!(template_ids(&store, Some(u64::MAX), None), Vec::<u64>::new());
    assert_eq!(template_ids(&store, None, Some(0)), Vec::<u64>::new());
    assert_eq!(template_ids(&store, None, Some(u32::MAX)), vec![0, 1, 3, 4, 5]);
}

#[test]
fn tierlists_page_is_ascending_within_one_owner() {
    let mut store = store_with_templates(12);
    // saved out of order, by two owners
    for id in [7u64, 2, 11, 0, 5, 9, 1, 3, 10, 4, 8, 6] {
        let blank = query_tierlist_from_template(&store, id).tierlist.unwrap();
        assert_eq!(execute_save_tierlist(&mut store, ADDR1.to_string(), blank.clone()), Ok(()));
        if id % 2 == 0 {
            assert_eq!(execute_save_tierlist(&mut store, ADDR2.to_string(), blank), Ok(()));
        }
    }
    let ids = |owner: &str, start_after: Option<u64>, limit: Option<u32>| -> Vec<u64> {
        query_tierlists_by_address(&store, owner.to_string(), start_after, limit)
            .iter()
            .map(|entry| {
                assert_eq!(entry.0, entry.1.template_id);
                entry.0
            })
            .collect()
    };
    assert_eq!(ids(ADDR1, None, None), vec![0, 1, 2, 3, 4, 5, 6, 7, 8, 9]);
    assert_eq!(ids(ADDR1, Some(9), None), vec![10, 11]);
    assert_eq!(ids(ADDR2, None, None), vec![0, 2, 4, 6, 8, 10]);
    assert_eq!(ids(ADDR2, Some(4), Some(2)), vec![6, 8]);
    assert_eq!(ids(ADDR2, Some(5), Some(2)), vec![6, 8]);
    assert_eq!(ids(ADDR2, Some(10), None), Vec::<u64>::new());
    assert_eq!(ids(ADMIN, None, None), Vec::<u64>::new());
}

#[test]
fn end_to_end() {
    let mut store = start(ADMIN);
    let (u1, u2) = ("U1".to_string(), "U2".to_string());
    let create = ExecuteMsg::CreateTemplate {
        title: "T1".to_string(),
        items: abc(),
    };
    assert_eq!(execute(&mut store, u1.clone(), create), Ok(()));
    assert_eq!(
        query_template(&store, 0).template.map(|t| (t.id, t.creator)),
        Some((0, u1.clone()))
    );

    let blank = tierlist_of(query(&store, QueryMsg::TierlistFromTemplate { id: 0 }));
    assert_eq!(
        blank.tierlist,
        Some(Tierlist {
            template_id: 0,
            items_to_tiers: vec![
                (item("A"), "".to_string()),
                (item("B"), "".to_string()),
                (item("C"), "".to_string()),
            ],
        })
    );
    assert_eq!(
        tierlist_of(query(&store, QueryMsg::TierlistFromTemplate { id: 1 })).tierlist,
        None
    );

    let full = Tierlist {
        template_id: 0,
        items_to_tiers: vec![
            (item("A"), "S".to_string()),
            (item("B"), "A".to_string()),
            (item("C"), "B".to_string()),
        ],
    };
    assert_eq!(
        execute(&mut store, u1.clone(), ExecuteMsg::SaveTierlist { tierlist: full }),
        Ok(())
    );
    let short = Tierlist {
        template_id: 0,
        items_to_tiers: vec![(item("A"), "S".to_string()), (item("B"), "A".to_string())],
    };
    assert_eq!(
        execute(&mut store, u1.clone(), ExecuteMsg::SaveTierlist { tierlist: short }),
        Err(ContractError::InvalidTierlist)
    );
    assert_eq!(
        execute(&mut store, u2, ExecuteMsg::DeleteTemplate { id: 0 }),
        Err(ContractError::Unauthorized)
    );
    assert_eq!(
        execute(&mut store, u1, ExecuteMsg::DeleteTemplate { id: 0 }),
        Ok(())
    );
    assert_eq!(query_template(&store, 0).template, None);
}

#[test]
fn restored_store_holds_what_was_put() {
    let mut store = Store::new(
        Config {
            admin_address: ADMIN.to_string(),
        },
        5,
    );
    assert_eq!(store.next_id(), 5);
    let template = TierlistTemplate {
        id: 3,
        title: "T".to_string(),
        items: abc(),
        creator: ADDR1.to_string(),
    };
    store.put_template(template.clone());
    assert_eq!(store.template(3), Some(&template));
    assert_eq!(store.template(4), None);
    assert_eq!(store.allocate(), 5);
    assert_eq!(store.next_id(), 6);
    store.put_tierlist(ADDR1.to_string(), Tierlist::from_template(template.clone()));
    assert_eq!(
        store.tierlist_page(&ADDR1.to_string(), None, 10),
        vec![(3, Tierlist::from_template(template.clone()))]
    );
    assert_eq!(store.template_page(Some(2), 1), vec![(3, template)]);
    store.remove_template(3);
    store.remove_template(3);
    assert_eq!(store.template(3), None);
}
