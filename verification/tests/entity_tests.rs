use saas::entity::{Cmd, CollisionResult, Entity, Kind, PropEvent, PropKind, SnakeEvent, Tag};

#[test]
fn tags_project_each_variant() {
    assert_eq!(
        Entity::Prop(42, PropKind::GrowFood).tag(),
        Tag { kind: Kind::Prop, id: 0 }
    );
    assert_eq!(
        Entity::Prop(42, PropKind::BadFood).tag(),
        Tag { kind: Kind::Prop, id: 1 }
    );
    assert_eq!(Entity::SnakeBody(3).tag(), Tag { kind: Kind::SnakeBody, id: 3 });
    assert_eq!(Entity::SnakeHead(4).tag(), Tag { kind: Kind::SnakeHead, id: 4 });
    assert_eq!(
        Entity::ImmortalSnakeHead(5).tag(),
        Tag { kind: Kind::SnakeHead, id: 5 }
    );
}

#[test]
fn variant_predicates() {
    assert!(Entity::Prop(0, PropKind::GrowFood).is_prop());
    assert!(!Entity::SnakeHead(0).is_prop());
    assert!(Entity::SnakeHead(0).is_snake_head());
    assert!(!Entity::ImmortalSnakeHead(0).is_snake_head());
    assert!(!Entity::SnakeBody(0).is_snake_head());
}

#[test]
fn grow_food_policy_and_events() {
    let p = PropKind::GrowFood;
    assert!(matches!(p.collision_result(), CollisionResult::RemoveSelf));
    assert_eq!(
        p.collision_events(9),
        vec![
            SnakeEvent { id: 9, cmd: Cmd::Grow(1) },
            SnakeEvent { id: 9, cmd: Cmd::GiveScore(1) },
        ]
    );
    assert_eq!(p.id(), 0);
    assert!(p.get_timer().is_some());
}

#[test]
fn bad_food_policy_and_events() {
    let p = PropKind::BadFood;
    assert!(matches!(p.collision_result(), CollisionResult::RemoveBoth));
    assert_eq!(p.collision_events(9), vec![SnakeEvent { id: 9, cmd: Cmd::Kill }]);
    assert_eq!(p.id(), 1);
}

#[test]
fn collide_many_empty_and_single() {
    let (en, pevs, sevs) = Entity::collide_many(vec![]).unwrap();
    assert!(en.is_none());
    assert!(pevs.is_empty());
    assert!(sevs.is_empty());

    let (en, pevs, sevs) = Entity::collide_many(vec![Entity::SnakeBody(7)]).unwrap();
    assert_eq!(en, Some(Entity::SnakeBody(7)));
    assert!(pevs.is_empty());
    assert!(sevs.is_empty());
}

#[test]
fn two_heads_annihilate() {
    let (en, pevs, sevs) =
        Entity::collide_many(vec![Entity::SnakeHead(1), Entity::SnakeHead(2)]).unwrap();
    assert_eq!(en, None);
    assert!(pevs.is_empty());
    assert_eq!(
        sevs,
        vec![
            SnakeEvent { id: 1, cmd: Cmd::Kill },
            SnakeEvent { id: 2, cmd: Cmd::Kill },
        ]
    );
}

#[test]
fn head_vs_body_kills_head_keeps_body() {
    for ens in [
        vec![Entity::SnakeHead(1), Entity::SnakeBody(2)],
        vec![Entity::SnakeBody(2), Entity::SnakeHead(1)],
    ] {
        let (en, pevs, sevs) = Entity::collide_many(ens).unwrap();
        assert_eq!(en, Some(Entity::SnakeBody(2)));
        assert!(pevs.is_empty());
        assert_eq!(sevs, vec![SnakeEvent { id: 1, cmd: Cmd::Kill }]);
    }
}

#[test]
fn head_vs_immortal_head_kills_mortal_one() {
    let (en, _, sevs) =
        Entity::collide_many(vec![Entity::SnakeHead(1), Entity::ImmortalSnakeHead(2)]).unwrap();
    assert_eq!(en, Some(Entity::ImmortalSnakeHead(2)));
    assert_eq!(sevs, vec![SnakeEvent { id: 1, cmd: Cmd::Kill }]);
}

#[test]
fn head_vs_grow_prop() {
    let (en, pevs, sevs) =
        Entity::collide_many(vec![Entity::SnakeHead(1), Entity::Prop(33, PropKind::GrowFood)])
            .unwrap();
    assert_eq!(en, Some(Entity::SnakeHead(1)));
    assert_eq!(pevs, vec![PropEvent::Remove(33)]);
    assert_eq!(
        sevs,
        vec![
            SnakeEvent { id: 1, cmd: Cmd::Grow(1) },
            SnakeEvent { id: 1, cmd: Cmd::GiveScore(1) },
        ]
    );
}

#[test]
fn head_vs_bad_prop() {
    let (en, pevs, sevs) =
        Entity::collide_many(vec![Entity::SnakeHead(1), Entity::Prop(33, PropKind::BadFood)])
            .unwrap();
    assert_eq!(en, None);
    assert_eq!(pevs, vec![PropEvent::Remove(33)]);
    assert_eq!(sevs, vec![SnakeEvent { id: 1, cmd: Cmd::Kill }]);
}

#[test]
fn four_heads_converging_all_die() {
    let (en, pevs, sevs) = Entity::collide_many(vec![
        Entity::SnakeHead(1),
        Entity::SnakeHead(2),
        Entity::SnakeHead(3),
        Entity::SnakeHead(4),
    ])
    .unwrap();
    assert_eq!(en, None);
    assert!(pevs.is_empty());
    assert_eq!(
        sevs,
        vec![
            SnakeEvent { id: 1, cmd: Cmd::Kill },
            SnakeEvent { id: 2, cmd: Cmd::Kill },
            SnakeEvent { id: 3, cmd: Cmd::Kill },
            SnakeEvent { id: 4, cmd: Cmd::Kill },
        ]
    );
}

#[test]
fn three_heads_and_a_body_keep_the_body() {
    let (en, pevs, sevs) = Entity::collide_many(vec![
        Entity::SnakeHead(1),
        Entity::SnakeBody(9),
        Entity::SnakeHead(2),
        Entity::SnakeHead(3),
    ])
    .unwrap();
    assert_eq!(en, Some(Entity::SnakeBody(9)));
    assert!(pevs.is_empty());
    assert_eq!(
        sevs,
        vec![
            SnakeEvent { id: 1, cmd: Cmd::Kill },
            SnakeEvent { id: 2, cmd: Cmd::Kill },
            SnakeEvent { id: 3, cmd: Cmd::Kill },
        ]
    );
}

#[test]
fn three_heads_and_a_grow_prop_feed_no_one() {
    let (en, pevs, sevs) = Entity::collide_many(vec![
        Entity::SnakeHead(1),
        Entity::Prop(5, PropKind::GrowFood),
        Entity::SnakeHead(2),
        Entity::SnakeHead(3),
    ])
    .unwrap();
    // the prop is removed per its policy, but its targeted events reach no
    // snake: only the kills fire
    assert_eq!(en, None);
    assert_eq!(pevs, vec![PropEvent::Remove(5)]);
    assert_eq!(
        sevs,
        vec![
            SnakeEvent { id: 1, cmd: Cmd::Kill },
            SnakeEvent { id: 2, cmd: Cmd::Kill },
            SnakeEvent { id: 3, cmd: Cmd::Kill },
        ]
    );
}

#[test]
fn impossible_shapes_are_reported() {
    // two resting occupants can never contend for one cell
    assert!(Entity::collide_many(vec![Entity::SnakeBody(1), Entity::SnakeBody(2)]).is_err());
    assert!(Entity::collide_many(vec![
        Entity::SnakeHead(1),
        Entity::Prop(5, PropKind::GrowFood),
        Entity::SnakeBody(2),
    ])
    .is_err());
}

#[test]
fn collide_reorders_so_the_head_acts_first() {
    // the pair may come in either order; the head is recognised either way
    let (en, pevs, sevs) =
        Entity::collide(Entity::Prop(8, PropKind::GrowFood), Entity::SnakeHead(6));
    assert_eq!(en, Some(Entity::SnakeHead(6)));
    assert_eq!(pevs, vec![PropEvent::Remove(8)]);
    assert_eq!(sevs.len(), 2);
}

#[test]
fn collide_snake_heads_emits_one_kill_each() {
    let heads = vec![Entity::SnakeHead(4), Entity::SnakeHead(5), Entity::SnakeHead(6)];
    let evs = Entity::collide_snake_heads(&heads);
    assert_eq!(
        evs,
        vec![
            SnakeEvent { id: 4, cmd: Cmd::Kill },
            SnakeEvent { id: 5, cmd: Cmd::Kill },
            SnakeEvent { id: 6, cmd: Cmd::Kill },
        ]
    );
}
