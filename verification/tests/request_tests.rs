use termcraft::world::requests::{plan_chunk_loads, spawn_search_chunk_range, ChunkRequest, ChunkRequestQueue};

#[test]
fn test_chunk_request_priority_prefers_nearer_chunks() {
    let mut queue = ChunkRequestQueue::new();
    queue.push(ChunkRequest {
        chunk_x: 20,
        distance: 6,
        seq: 0,
    });
    queue.push(ChunkRequest {
        chunk_x: 4,
        distance: 2,
        seq: 1,
    });
    queue.push(ChunkRequest {
        chunk_x: -2,
        distance: 3,
        seq: 2,
    });

    let first = queue.pop().expect("priority queue should not be empty");
    assert_eq!(first.chunk_x, 4);
}

#[test]
fn chunk_loads_lead_the_player_direction() {
    // Moving right near the right edge of chunk 0: chunk 2 loads at once.
    let right = plan_chunk_loads(0, 1);
    assert_eq!((right.active_min, right.active_max), (-1, 2));
    assert_eq!(right.prefetch, vec![-3, -2, 3, 4]);
    // Moving left near the left edge of chunk 1: chunk -1 loads at once.
    let left = plan_chunk_loads(1, -1);
    assert_eq!((left.active_min, left.active_max), (-1, 2));
    assert_eq!(left.prefetch, vec![-3, -2, 3, 4]);
    let still = plan_chunk_loads(5, 0);
    assert_eq!((still.active_min, still.active_max), (4, 6));
    assert_eq!(still.prefetch, vec![2, 3, 7, 8]);
}

#[test]
fn spawn_search_covers_the_requested_radius() {
    assert_eq!(spawn_search_chunk_range(0, 56), (-2, 1));
    assert_eq!(spawn_search_chunk_range(100, -5), (3, 3));
    assert_eq!(spawn_search_chunk_range(-1, 0), (-1, -1));
}

#[test]
fn test_motion_aware_chunk_loading_leads_player_direction() {
    // Moving right at 0.9 of chunk 0's width (0.3 per tick): chunk 2 loads.
    let right = plan_chunk_loads(0, 1);
    assert!((right.active_min..=right.active_max).contains(&2));
    // Moving left just inside chunk 1 (-0.3 per tick): chunk -1 loads.
    let left = plan_chunk_loads(1, -1);
    assert!((left.active_min..=left.active_max).contains(&-1));
}

#[test]
fn test_spawn_search_chunk_loading_covers_requested_radius() {
    let (min_chunk, max_chunk) = spawn_search_chunk_range(0, 56);
    assert_eq!(min_chunk, (-56i32).div_euclid(32));
    assert_eq!(max_chunk, 56i32.div_euclid(32));
    for chunk_x in (-56i32).div_euclid(32)..=56i32.div_euclid(32) {
        assert!((min_chunk..=max_chunk).contains(&chunk_x));
    }
}
