use ahash::AHashSet;
use mc_networking::entity::chunk::{ChunkLocationComponent, ChunkObserverComponent};
use mc_networking::entity::NetworkIdComponent;

#[test]
fn network_ids_all_start_at_zero() {
    assert_eq!(NetworkIdComponent::new().0, 0);
    assert_eq!(NetworkIdComponent::new().0, 0);
}

#[test]
fn chunk_location_updates() {
    let mut c = ChunkLocationComponent::new(3, 4);
    assert!(c.changed);
    assert_eq!((c.last_x, c.last_z), (0, 0));
    c.update(3, 4);
    assert!(!c.changed);
    c.update(5, 4);
    assert!(c.changed);
    assert_eq!((c.last_x, c.last_z, c.x, c.z), (3, 4, 5, 4));
}

#[test]
fn observer_loads_around_and_forgets_far_chunks() {
    let mut obs = ChunkObserverComponent { radius: 2, loaded_chunks: AHashSet::from([(100, 100), (0, 0)]) };
    let loc = ChunkLocationComponent::new(0, 0);
    let r = obs.update_loadings(&loc);
    assert_eq!(r.unload, vec![(100, 100)]);
    // the nearest ring first, row by row
    assert_eq!(
        &r.load[..8],
        &[(-1, -1), (-1, 0), (-1, 1), (0, -1), (0, 1), (1, -1), (1, 0), (1, 1)]
    );
    assert_eq!(r.load.len(), 8 + 16);
    assert_eq!(&r.load[8..13], &[(-2, -2), (-2, -1), (-2, 0), (-2, 1), (-2, 2)]);
    let mut expected = AHashSet::new();
    for dx in -2..=2 {
        for dz in -2..=2 {
            expected.insert((dx, dz));
        }
    }
    assert_eq!(obs.loaded_chunks, expected);
    let mut still = ChunkLocationComponent::new(0, 0);
    still.update(0, 0);
    let r = obs.update_loadings(&still);
    assert!(r.load.is_empty() && r.unload.is_empty());
}

#[test]
fn observer_starts_empty() {
    let obs = ChunkObserverComponent::new(3);
    assert_eq!(obs.radius, 3);
    assert!(obs.loaded_chunks.is_empty());
}

#[test]
fn observer_with_negative_radius_holds_nothing() {
    let mut obs = ChunkObserverComponent { radius: -1, loaded_chunks: AHashSet::from([(0, 0)]) };
    let r = obs.update_loadings(&ChunkLocationComponent::new(0, 0));
    assert!(r.load.is_empty());
    assert_eq!(r.unload, vec![(0, 0)]);
    assert!(obs.loaded_chunks.is_empty());
}

#[test]
fn observer_holds_exactly_the_square_and_loads_each_chunk_once() {
    let mut obs = ChunkObserverComponent::new(4);
    let mut loc = ChunkLocationComponent::new(0, 0);
    let r = obs.update_loadings(&loc);
    assert_eq!(r.load.len(), 81);
    assert!(obs.loaded_chunks.contains(&(3, -3)));
    assert!(obs.loaded_chunks.contains(&(-4, 4)));
    for (x, z) in [(1, 0), (5, 5), (5, 6), (-20, 3)] {
        loc.update(x, z);
        let before = obs.loaded_chunks.clone();
        let r = obs.update_loadings(&loc);
        for c in obs.loaded_chunks.iter() {
            assert!((c.0 - x).abs() <= 4 && (c.1 - z).abs() <= 4);
        }
        assert_eq!(obs.loaded_chunks.len(), 81);
        let mut seen = std::collections::HashSet::new();
        for c in &r.load {
            assert!(seen.insert(*c), "{:?} is loaded twice", c);
            assert!(!before.contains(c));
        }
        for c in &r.unload {
            assert!(before.contains(c));
            assert!((c.0 - x).abs() > 4 || (c.1 - z).abs() > 4);
        }
        assert_eq!(before.len() - r.unload.len() + r.load.len(), 81);
    }
}

#[test]
fn chunk_pool_view_updates() {
    let mut loaded = vec![(50, 50)];
    let u = mc_networking::chunk_pool::update_view(4, None, (0, 0), &mut loaded).unwrap();
    assert_eq!(u.center, (0, 0));
    assert_eq!(u.load.len(), 16);
    assert_eq!(&u.load[..3], &[(-2, -2), (-2, -1), (-2, 0)]);
    // the far edge of the square is sent and at once unloaded again
    assert_eq!(u.unload[0], (50, 50));
    assert_eq!(u.unload.len(), 8);
    assert!(u.unload.contains(&(-2, 1)) && u.unload.contains(&(1, -2)));
    assert_eq!(loaded.len(), 9);
    for c in &loaded {
        assert!(c.0.abs() < 2 && c.1.abs() < 2);
    }
    assert!(mc_networking::chunk_pool::update_view(4, Some((0, 0)), (0, 0), &mut loaded).is_none());
    let u = mc_networking::chunk_pool::update_view(5, Some((0, 0)), (1, 0), &mut loaded).unwrap();
    // from -2 to 1 on both axes around (1, 0), without the nine chunks held
    assert_eq!(u.load.len(), 16 - 9);
    assert_eq!(loaded.len(), 9);
}

#[test]
fn chunk_pool_holds_the_square_of_half_the_view_distance() {
    let mut loaded = vec![(1, 1), (-7, 2)];
    mc_networking::chunk_pool::update_view(6, None, (10, -4), &mut loaded).unwrap();
    assert_eq!(loaded.len(), 25);
    for dx in -2..=2 {
        for dz in -2..=2 {
            assert!(loaded.contains(&(10 + dx, -4 + dz)));
        }
    }
    let mut loaded = vec![(0, 0)];
    let u = mc_networking::chunk_pool::update_view(-6, None, (0, 0), &mut loaded).unwrap();
    assert!(u.load.is_empty());
    assert_eq!(u.unload, vec![(0, 0)]);
    assert!(loaded.is_empty());
}

#[test]
fn chunk_pool_sends_nothing_to_a_synced_player() {
    let mut pool = mc_networking::chunk_pool::ChunkPool::new(4);
    let mut loaded = vec![];
    let u = pool.tick_player(7, (0, 0), &mut loaded).unwrap();
    assert_eq!(u.load.len(), 16);
    assert_eq!(loaded.len(), 9);
    // the player has not moved: nothing more
    assert!(pool.tick_player(7, (0, 0), &mut loaded).is_none());
    assert_eq!(loaded.len(), 9);
    // another player in the same chunk is not synced yet
    let mut other = vec![];
    assert!(pool.tick_player(8, (0, 0), &mut other).is_some());
    // after it moves, the first player is brought up to date again
    let u = pool.tick_player(7, (1, 0), &mut loaded).unwrap();
    assert_eq!(u.center, (1, 0));
    pool.remove_player(7);
    assert!(pool.tick_player(7, (1, 0), &mut loaded).is_some());
}
