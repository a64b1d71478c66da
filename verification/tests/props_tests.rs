use saas::props::{food_spawner, PropManager};
use saas::entity::PropKind;
use saas::util::{Index2D, Timer};

#[test]
fn manager_tracks_and_ticks_records() {
    let mut pm = PropManager::new();
    assert_eq!(pm.props.len(), 0);
    pm.add(Some(Timer::new(2)), 10, Index2D::new(0, 0));
    pm.add(None, 11, Index2D::new(1, 1));
    assert_eq!(pm.props.len(), 2);
    pm.tick();
    // the timed record advanced, the timerless one is untouched
    assert_eq!(pm.props[0].0, Some(Timer { elapsed: 1, limit: 2 }));
    assert_eq!(pm.props[1].0, None);
}

#[test]
fn remove_by_id_drops_only_that_record() {
    let mut pm = PropManager::new();
    pm.add(None, 10, Index2D::new(0, 0));
    pm.add(None, 11, Index2D::new(1, 1));
    pm.add(None, 12, Index2D::new(2, 2));
    pm.remove_by_id(11);
    assert_eq!(pm.props.len(), 2);
    assert_eq!(pm.props[0].1, 10);
    assert_eq!(pm.props[1].1, 12);
    pm.remove_by_id(99);
    assert_eq!(pm.props.len(), 2);
}

#[test]
fn expiry_drains_only_completed_timers() {
    let mut pm = PropManager::new();
    pm.add(Some(Timer::new(1)), 10, Index2D::new(0, 3));
    pm.add(Some(Timer::new(5)), 11, Index2D::new(1, 1));
    pm.add(None, 12, Index2D::new(2, 2));
    pm.tick();
    let gone = pm.indices_to_remove();
    assert_eq!(gone.len(), 1);
    assert_eq!(gone[0].get(), (0, 3));
    assert_eq!(pm.props.len(), 2);
    assert_eq!(pm.props[0].1, 11);
    assert_eq!(pm.props[1].1, 12);
    // records without a timer never expire by time
    for _ in 0..100 {
        pm.tick();
    }
    let gone = pm.indices_to_remove();
    assert_eq!(gone.len(), 1);
    assert_eq!(pm.props.len(), 1);
    assert_eq!(pm.props[0].1, 12);
}

#[test]
fn draw_selects_catalog_entries() {
    assert!(matches!(PropKind::of_draw(0), PropKind::GrowFood));
    assert!(matches!(PropKind::of_draw(1), PropKind::BadFood));
    assert!(matches!(PropKind::of_draw(6), PropKind::GrowFood));
    for _ in 0..20 {
        let p = food_spawner();
        assert!(matches!(p, PropKind::GrowFood | PropKind::BadFood));
    }
}
