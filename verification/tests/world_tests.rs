use termcraft::world::block::BlockType;
use termcraft::world::chunk::{Chunk, CHUNK_HEIGHT, CHUNK_WIDTH};
use termcraft::world::item::ItemType;
use termcraft::world::redstone::{PISTON_PUSH_LIMIT, REDSTONE_MAX_POWER, TNT_FUSE_TICKS};
use termcraft::world::requests::ChunkRequest;
use termcraft::world::rules::{
    nether_wart_drop_count_at, nether_wart_growth_due_at, sapling_growth_due_at, BiomeType, Dimension,
};
use termcraft::world::fortress::nether_fortress_layout;
use termcraft::world::World;

/// The overworld with the five empty chunk columns around the origin loaded,
/// all of plains.
fn loaded_world() -> World {
    let mut world = World::new();
    for cx in -2..=2 {
        assert!(world.insert_loaded_chunk(
            Chunk::new(cx, "overworld"),
            vec![BiomeType::Plains; CHUNK_WIDTH],
            false,
            true,
        ));
    }
    world
}

/// One world tick around column `x`, with no explosion to handle.
fn tick(world: &mut World, x: i32) {
    let detonations = world.begin_update(x);
    assert!(detonations.is_empty());
    world.finish_update(x);
}

#[test]
fn test_chunk_request_backpressure_caps_pending_queue() {
    let mut world = World::new();
    for x in 0..(24 + 16) {
        world.enqueue_chunk_request(3000 + x, 0);
    }
    assert_eq!(world.pending_count(), 24);
    assert_eq!(world.queued_count(), 24);
}

#[test]
fn test_trim_stale_chunk_requests_compacts_heap() {
    let mut world = World::new();
    world.enqueue_chunk_request(1, 0);
    world.enqueue_chunk_request(2, 0);
    world.enqueue_chunk_request(100, 0);
    assert_eq!(world.request_queue_len(), 3);

    world.trim_stale_chunk_requests(0);

    assert!(world.is_queued(1));
    assert!(world.is_queued(2));
    assert!(!world.is_queued(100));
    assert_eq!(world.pending_count(), 2);
    assert_eq!(world.request_queue_len(), 2);
    assert!(world.queued_request_columns().iter().all(|&c| c != 100));
}

#[test]
fn test_trim_stale_chunk_requests_deduplicates_chunk_entries() {
    let mut world = World::new();
    world.enqueue_chunk_request(1, 0);
    world.push_chunk_request(ChunkRequest {
        chunk_x: 1,
        distance: 1,
        seq: 0,
    });
    assert_eq!(world.request_queue_len(), 2);
    assert_eq!(world.queued_count(), 1);

    world.trim_stale_chunk_requests(0);

    assert_eq!(world.request_queue_len(), 1);
    assert_eq!(
        world
            .queued_request_columns()
            .iter()
            .filter(|&&c| c == 1)
            .count(),
        1
    );
}

#[test]
fn test_fluid_flow_down() {
    let mut world = loaded_world();

    for x in 0..5 {
        for y in 0..10 {
            world.set_block(x, y, BlockType::Air);
        }
    }

    world.set_block(2, 2, BlockType::Water(8));

    world.update_fluids(0);

    assert_eq!(world.get_block(2, 3), BlockType::Water(7));
    assert_eq!(world.get_block(2, 2), BlockType::Water(8));
}

#[test]
fn test_fluid_flow_horizontal() {
    let mut world = loaded_world();

    for x in 0..5 {
        for y in 0..5 {
            world.set_block(x, y, BlockType::Air);
        }
        world.set_block(x, 3, BlockType::Stone);
    }

    world.set_block(2, 2, BlockType::Water(8));

    world.update_fluids(0);

    assert_eq!(world.get_block(1, 2), BlockType::Water(7));
    assert_eq!(world.get_block(3, 2), BlockType::Water(7));
    assert_eq!(world.get_block(2, 2), BlockType::Water(8));
}

#[test]
fn test_water_source_regenerates_between_two_sources() {
    let mut world = loaded_world();

    for x in 0..5 {
        for y in 0..6 {
            world.set_block(x, y, BlockType::Air);
        }
        world.set_block(x, 3, BlockType::Stone);
    }
    world.set_block(1, 2, BlockType::Water(8));
    world.set_block(3, 2, BlockType::Water(8));

    world.update_fluids(0);

    assert_eq!(world.get_block(2, 2), BlockType::Water(8));
}

#[test]
fn test_water_contact_with_lava_source_creates_obsidian() {
    let mut world = loaded_world();

    for x in 0..5 {
        for y in 0..6 {
            world.set_block(x, y, BlockType::Air);
        }
    }

    world.set_block(2, 2, BlockType::Water(8));
    world.set_block(2, 3, BlockType::Lava(8));

    world.update_fluids(0);

    assert_eq!(world.get_block(2, 3), BlockType::Obsidian);
}

#[test]
fn test_water_contact_with_flowing_lava_creates_cobblestone() {
    let mut world = loaded_world();

    for x in 0..5 {
        for y in 0..6 {
            world.set_block(x, y, BlockType::Air);
        }
    }

    world.set_block(2, 2, BlockType::Water(8));
    world.set_block(2, 3, BlockType::Lava(7));

    world.update_fluids(0);

    assert_eq!(world.get_block(2, 3), BlockType::Cobblestone);
}

#[test]
fn test_lava_falling_into_water_creates_stone() {
    let mut world = loaded_world();

    for x in 0..5 {
        for y in 0..6 {
            world.set_block(x, y, BlockType::Air);
        }
    }

    world.set_block(2, 2, BlockType::Lava(8));
    world.set_block(2, 3, BlockType::Water(8));

    world.update_fluids(0);

    assert_eq!(world.get_block(2, 3), BlockType::Stone);
}

#[test]
fn test_overworld_lava_horizontal_spread_stops_after_three_blocks() {
    let mut world = loaded_world();

    for x in 0..9 {
        for y in 0..5 {
            world.set_block(x, y, BlockType::Air);
        }
        world.set_block(x, 3, BlockType::Stone);
    }

    world.set_block(3, 2, BlockType::Lava(8));

    for _ in 0..4 {
        world.update_fluids(0);
    }

    assert_eq!(world.get_block(0, 2), BlockType::Lava(5));
    assert_eq!(world.get_block(6, 2), BlockType::Lava(5));
    assert_eq!(world.get_block(7, 2), BlockType::Air);
}

#[test]
fn test_world_update_uses_slow_overworld_lava_cadence() {
    let mut world = loaded_world();

    for x in 0..6 {
        for y in 0..5 {
            world.set_block(x, y, BlockType::Air);
        }
        world.set_block(x, 3, BlockType::Stone);
    }

    world.set_block(2, 2, BlockType::Lava(8));

    for _ in 0..5 {
        tick(&mut world, 0);
    }
    assert_eq!(world.get_block(1, 2), BlockType::Air);
    assert_eq!(world.get_block(3, 2), BlockType::Air);

    for _ in 5..30 {
        tick(&mut world, 0);
    }
    assert_eq!(world.get_block(1, 2), BlockType::Lava(7));
    assert_eq!(world.get_block(3, 2), BlockType::Lava(7));
}

#[test]
fn test_stable_fluid_chunk_drops_out_of_active_frontier() {
    let mut world = loaded_world();

    for x in -64..=64 {
        for y in 0..CHUNK_HEIGHT as i32 {
            world.set_block(x, y, BlockType::Air);
        }
    }
    world.clear_fluid_frontier();

    world.set_block(1, 2, BlockType::Stone);
    world.set_block(3, 2, BlockType::Stone);
    world.set_block(2, 3, BlockType::Stone);
    world.set_block(2, 2, BlockType::Water(8));

    assert!(world.is_fluid_chunk_active(0));

    world.update_fluids(0);

    assert!(!world.is_fluid_chunk_active(0));
    assert_eq!(world.get_block(2, 2), BlockType::Water(8));
}

#[test]
fn test_block_change_adjacent_to_static_water_reactivates_frontier() {
    let mut world = loaded_world();

    for x in -64..=64 {
        for y in 0..CHUNK_HEIGHT as i32 {
            world.set_block(x, y, BlockType::Air);
        }
    }
    world.clear_fluid_frontier();

    world.set_block(1, 2, BlockType::Stone);
    world.set_block(3, 2, BlockType::Stone);
    world.set_block(2, 3, BlockType::Stone);
    world.set_block(2, 2, BlockType::Water(8));
    world.update_fluids(0);
    assert!(!world.is_fluid_chunk_active(0));

    world.set_block(3, 2, BlockType::Air);
    assert!(world.is_fluid_chunk_active(0));

    world.update_fluids(0);

    assert_eq!(world.get_block(3, 2), BlockType::Water(7));
}

#[test]
fn test_fluid_decay() {
    let mut world = loaded_world();

    world.set_block(2, 2, BlockType::Water(7));

    world.update_fluids(0);

    assert_eq!(world.get_block(2, 2), BlockType::Water(6));

    for _ in 0..6 {
        world.update_fluids(0);
    }

    assert_eq!(world.get_block(2, 2), BlockType::Air);
}

/// Clears columns `0..width`, rows `0..height`, and lays a stone floor on
/// row `floor`.
fn floor_world(width: i32, height: i32, floor: i32) -> World {
    let mut world = loaded_world();
    for x in 0..width {
        for y in 0..height {
            world.set_block(x, y, BlockType::Air);
        }
        world.set_block(x, floor, BlockType::Stone);
    }
    world
}

#[test]
fn test_redstone_propagates_from_redstone_torch() {
    let mut world = floor_world(8, 8, 4);

    world.set_block(1, 3, BlockType::RedstoneTorch(true));
    world.set_block(2, 3, BlockType::RedstoneDust(0));
    world.set_block(3, 3, BlockType::RedstoneDust(0));
    world.set_block(4, 3, BlockType::RedstoneDust(0));

    for _ in 0..6 {
        world.update_redstone(0);
    }

    assert_eq!(world.get_block(2, 3), BlockType::RedstoneDust(15));
    assert_eq!(world.get_block(3, 3), BlockType::RedstoneDust(14));
    assert_eq!(world.get_block(4, 3), BlockType::RedstoneDust(13));
}

#[test]
fn test_redstone_decays_after_source_removed() {
    let mut world = floor_world(8, 8, 4);

    world.set_block(1, 3, BlockType::RedstoneTorch(true));
    world.set_block(2, 3, BlockType::RedstoneDust(0));
    world.set_block(3, 3, BlockType::RedstoneDust(0));
    world.set_block(4, 3, BlockType::RedstoneDust(0));
    for _ in 0..6 {
        world.update_redstone(0);
    }

    world.set_block(1, 3, BlockType::Air);
    for _ in 0..50 {
        world.update_redstone(0);
    }

    assert_eq!(world.get_block(2, 3), BlockType::RedstoneDust(0));
    assert_eq!(world.get_block(3, 3), BlockType::RedstoneDust(0));
    assert_eq!(world.get_block(4, 3), BlockType::RedstoneDust(0));
}

#[test]
fn test_stone_button_pulse_expires() {
    let mut world = loaded_world();
    world.set_block(1, 1, BlockType::StoneButton(3));

    world.update_redstone(0);
    assert_eq!(world.get_block(1, 1), BlockType::StoneButton(2));
    world.update_redstone(0);
    assert_eq!(world.get_block(1, 1), BlockType::StoneButton(1));
    world.update_redstone(0);
    assert_eq!(world.get_block(1, 1), BlockType::StoneButton(0));
}

#[test]
fn test_redstone_torch_inverter_turns_off_when_powered() {
    let mut world = floor_world(6, 6, 4);

    world.set_block(2, 3, BlockType::Lever(true));
    world.set_block(3, 3, BlockType::RedstoneTorch(true));
    for _ in 0..3 {
        world.update_redstone(0);
    }
    assert_eq!(world.get_block(3, 3), BlockType::RedstoneTorch(false));

    world.set_block(2, 3, BlockType::Lever(false));
    for _ in 0..3 {
        world.update_redstone(0);
    }
    assert_eq!(world.get_block(3, 3), BlockType::RedstoneTorch(true));
}

#[test]
fn test_repeater_input_to_torch_is_directional() {
    let mut world = floor_world(8, 8, 4);

    world.set_block(3, 3, BlockType::RedstoneTorch(true));
    world.set_block(
        4,
        3,
        BlockType::RedstoneRepeater {
            powered: true,
            delay: 1,
            facing_right: true,
            timer: 0,
            target_powered: true,
        },
    );
    for _ in 0..3 {
        world.update_redstone(0);
    }
    assert_eq!(world.get_block(3, 3), BlockType::RedstoneTorch(true));

    world.set_block(5, 3, BlockType::Lever(true));
    world.set_block(
        4,
        3,
        BlockType::RedstoneRepeater {
            powered: true,
            delay: 1,
            facing_right: false,
            timer: 0,
            target_powered: true,
        },
    );
    for _ in 0..3 {
        world.update_redstone(0);
    }
    assert_eq!(world.get_block(3, 3), BlockType::RedstoneTorch(false));
}

#[test]
fn test_redstone_branches_power_both_arms() {
    let mut world = floor_world(10, 8, 4);

    world.set_block(5, 3, BlockType::RedstoneTorch(true));
    world.set_block(4, 3, BlockType::RedstoneDust(0));
    world.set_block(3, 3, BlockType::RedstoneDust(0));
    world.set_block(6, 3, BlockType::RedstoneDust(0));
    world.set_block(7, 3, BlockType::RedstoneDust(0));

    for _ in 0..8 {
        world.update_redstone(0);
    }

    assert_eq!(world.get_block(4, 3), BlockType::RedstoneDust(REDSTONE_MAX_POWER));
    assert_eq!(world.get_block(3, 3), BlockType::RedstoneDust(REDSTONE_MAX_POWER - 1));
    assert_eq!(world.get_block(6, 3), BlockType::RedstoneDust(REDSTONE_MAX_POWER));
    assert_eq!(world.get_block(7, 3), BlockType::RedstoneDust(REDSTONE_MAX_POWER - 1));
}

#[test]
fn test_redstone_branch_decays_after_source_removed() {
    let mut world = floor_world(10, 8, 4);

    world.set_block(5, 3, BlockType::RedstoneTorch(true));
    world.set_block(4, 3, BlockType::RedstoneDust(0));
    world.set_block(3, 3, BlockType::RedstoneDust(0));
    world.set_block(6, 3, BlockType::RedstoneDust(0));
    world.set_block(7, 3, BlockType::RedstoneDust(0));
    for _ in 0..8 {
        world.update_redstone(0);
    }

    world.set_block(5, 3, BlockType::Air);
    for _ in 0..60 {
        world.update_redstone(0);
    }

    assert_eq!(world.get_block(4, 3), BlockType::RedstoneDust(0));
    assert_eq!(world.get_block(3, 3), BlockType::RedstoneDust(0));
    assert_eq!(world.get_block(6, 3), BlockType::RedstoneDust(0));
    assert_eq!(world.get_block(7, 3), BlockType::RedstoneDust(0));
}

#[test]
fn test_redstone_tick_cadence_applies_on_world_update() {
    let mut world = floor_world(8, 8, 4);

    world.set_block(1, 3, BlockType::RedstoneTorch(true));
    world.set_block(2, 3, BlockType::RedstoneDust(0));

    tick(&mut world, 0);
    assert_eq!(world.get_block(2, 3), BlockType::RedstoneDust(0));

    tick(&mut world, 0);
    assert_eq!(world.get_block(2, 3), BlockType::RedstoneDust(REDSTONE_MAX_POWER));
}

#[test]
fn test_redstone_power_query_reports_neighbor_sources() {
    let mut world = loaded_world();

    world.set_block(2, 2, BlockType::Lever(true));
    assert!(world.is_redstone_powered(3, 2));
    assert_eq!(world.redstone_neighbor_power(3, 2), REDSTONE_MAX_POWER);
    assert_eq!(world.redstone_power_at(2, 2), REDSTONE_MAX_POWER);
}

#[test]
fn test_redstone_power_query_reports_dust_output_strength() {
    let mut world = loaded_world();

    world.set_block(1, 1, BlockType::RedstoneDust(11));
    assert_eq!(world.redstone_power_at(1, 1), 10);
}

#[test]
fn test_repeater_outputs_only_in_facing_direction() {
    let mut world = floor_world(8, 8, 4);

    world.set_block(
        3,
        3,
        BlockType::RedstoneRepeater {
            powered: true,
            delay: 1,
            facing_right: true,
            timer: 0,
            target_powered: true,
        },
    );

    assert!(world.is_redstone_powered(4, 3));
    assert!(!world.is_redstone_powered(2, 3));
}

#[test]
fn test_repeater_applies_delay_before_state_change() {
    let mut world = floor_world(10, 8, 4);

    world.set_block(2, 3, BlockType::Lever(true));
    world.set_block(
        3,
        3,
        BlockType::RedstoneRepeater {
            powered: false,
            delay: 2,
            facing_right: true,
            timer: 0,
            target_powered: false,
        },
    );
    world.set_block(4, 3, BlockType::RedstoneDust(0));

    world.update_redstone(0);
    assert_eq!(
        world.get_block(3, 3),
        BlockType::RedstoneRepeater {
            powered: false,
            delay: 2,
            facing_right: true,
            timer: 2,
            target_powered: true
        }
    );
    assert_eq!(world.get_block(4, 3), BlockType::RedstoneDust(0));

    world.update_redstone(0);
    assert_eq!(
        world.get_block(3, 3),
        BlockType::RedstoneRepeater {
            powered: false,
            delay: 2,
            facing_right: true,
            timer: 1,
            target_powered: true
        }
    );

    world.update_redstone(0);
    assert_eq!(
        world.get_block(3, 3),
        BlockType::RedstoneRepeater {
            powered: true,
            delay: 2,
            facing_right: true,
            timer: 0,
            target_powered: true
        }
    );
    assert_eq!(world.get_block(4, 3), BlockType::RedstoneDust(15));

    world.set_block(2, 3, BlockType::Lever(false));
    world.update_redstone(0);
    assert_eq!(
        world.get_block(3, 3),
        BlockType::RedstoneRepeater {
            powered: true,
            delay: 2,
            facing_right: true,
            timer: 2,
            target_powered: false
        }
    );

    world.update_redstone(0);
    world.update_redstone(0);
    assert_eq!(
        world.get_block(3, 3),
        BlockType::RedstoneRepeater {
            powered: false,
            delay: 2,
            facing_right: true,
            timer: 0,
            target_powered: false
        }
    );
    assert_eq!(world.get_block(4, 3), BlockType::RedstoneDust(0));
}

#[test]
fn test_trigger_chain_powers_tnt_and_piston_output() {
    let mut world = floor_world(12, 10, 6);

    world.set_block(1, 5, BlockType::Lever(true));
    world.set_block(2, 5, BlockType::RedstoneDust(0));
    world.set_block(3, 5, BlockType::RedstoneDust(0));
    world.set_block(4, 5, BlockType::RedstoneDust(0));

    world.set_block(5, 5, BlockType::Tnt);
    world.set_block(
        3,
        4,
        BlockType::Piston {
            extended: false,
            facing_right: true,
        },
    );
    world.set_block(4, 4, BlockType::Stone);

    for _ in 0..6 {
        world.update_redstone(0);
    }
    world.update_redstone_outputs(0);

    assert_eq!(world.get_block(5, 5), BlockType::PrimedTnt(TNT_FUSE_TICKS));
    assert_eq!(
        world.get_block(3, 4),
        BlockType::Piston {
            extended: true,
            facing_right: true
        }
    );
    assert_eq!(world.get_block(4, 4), BlockType::Air);
    assert_eq!(world.get_block(5, 4), BlockType::Stone);
}

#[test]
fn test_tnt_primes_when_powered() {
    let mut world = floor_world(8, 8, 5);

    world.set_block(2, 4, BlockType::Lever(true));
    world.set_block(3, 4, BlockType::Tnt);

    world.update_redstone_outputs(0);
    assert_eq!(world.get_block(3, 4), BlockType::PrimedTnt(TNT_FUSE_TICKS));
}

/// Clears columns `0..width`, rows `0..8`, and places a piston facing right
/// at (2, 4).
fn piston_world(width: i32, sticky: bool) -> World {
    let mut world = loaded_world();
    for x in 0..width {
        for y in 0..8 {
            world.set_block(x, y, BlockType::Air);
        }
    }
    let piston = if sticky {
        BlockType::StickyPiston {
            extended: false,
            facing_right: true,
        }
    } else {
        BlockType::Piston {
            extended: false,
            facing_right: true,
        }
    };
    world.set_block(2, 4, piston);
    world
}

#[test]
fn test_piston_extends_and_pushes_once() {
    let mut world = piston_world(10, false);
    world.set_block(3, 4, BlockType::Stone);
    world.set_block(2, 3, BlockType::Lever(true));

    world.update_redstone_outputs(0);
    assert_eq!(
        world.get_block(2, 4),
        BlockType::Piston {
            extended: true,
            facing_right: true
        }
    );
    assert_eq!(world.get_block(3, 4), BlockType::Air);
    assert_eq!(world.get_block(4, 4), BlockType::Stone);

    world.update_redstone_outputs(0);
    assert_eq!(world.get_block(4, 4), BlockType::Stone);
    assert_eq!(world.get_block(5, 4), BlockType::Air);
}

#[test]
fn test_piston_retracts_when_unpowered() {
    let mut world = piston_world(8, false);
    world.set_block(2, 3, BlockType::Lever(true));

    world.update_redstone_outputs(0);
    world.set_block(2, 3, BlockType::Lever(false));
    world.update_redstone_outputs(0);

    assert_eq!(
        world.get_block(2, 4),
        BlockType::Piston {
            extended: false,
            facing_right: true
        }
    );
}

#[test]
fn test_piston_blocked_by_immovable_block_does_not_extend() {
    let mut world = piston_world(8, false);
    world.set_block(3, 4, BlockType::Obsidian);
    world.set_block(2, 3, BlockType::Lever(true));

    world.update_redstone_outputs(0);

    assert_eq!(
        world.get_block(2, 4),
        BlockType::Piston {
            extended: false,
            facing_right: true
        }
    );
    assert_eq!(world.get_block(3, 4), BlockType::Obsidian);
}

#[test]
fn test_piston_push_limit_prevents_extension() {
    let mut world = piston_world(32, false);
    for x in 3..=(3 + PISTON_PUSH_LIMIT as i32) {
        world.set_block(x, 4, BlockType::Stone);
    }
    world.set_block(2, 3, BlockType::Lever(true));

    world.update_redstone_outputs(0);

    assert_eq!(
        world.get_block(2, 4),
        BlockType::Piston {
            extended: false,
            facing_right: true
        }
    );
    assert_eq!(world.get_block(3, 4), BlockType::Stone);
    assert_eq!(world.get_block(3 + PISTON_PUSH_LIMIT as i32, 4), BlockType::Stone);
}

#[test]
fn test_sticky_piston_pulls_block_on_retract() {
    let mut world = piston_world(10, true);
    world.set_block(3, 4, BlockType::Stone);
    world.set_block(2, 3, BlockType::Lever(true));

    world.update_redstone_outputs(0);
    assert_eq!(world.get_block(4, 4), BlockType::Stone);

    world.set_block(2, 3, BlockType::Lever(false));
    world.update_redstone_outputs(0);

    assert_eq!(
        world.get_block(2, 4),
        BlockType::StickyPiston {
            extended: false,
            facing_right: true
        }
    );
    assert_eq!(world.get_block(3, 4), BlockType::Stone);
    assert_eq!(world.get_block(4, 4), BlockType::Air);
}

#[test]
fn test_regular_piston_does_not_pull_on_retract() {
    let mut world = piston_world(10, false);
    world.set_block(3, 4, BlockType::Stone);
    world.set_block(2, 3, BlockType::Lever(true));

    world.update_redstone_outputs(0);
    assert_eq!(world.get_block(4, 4), BlockType::Stone);

    world.set_block(2, 3, BlockType::Lever(false));
    world.update_redstone_outputs(0);

    assert_eq!(
        world.get_block(2, 4),
        BlockType::Piston {
            extended: false,
            facing_right: true
        }
    );
    assert_eq!(world.get_block(3, 4), BlockType::Air);
    assert_eq!(world.get_block(4, 4), BlockType::Stone);
}

/// Clears columns `-half..=half`, rows `0..height`.
fn cleared_world(half: i32, height: i32) -> World {
    let mut world = loaded_world();
    for x in -half..=half {
        for y in 0..height {
            world.set_block(x, y, BlockType::Air);
        }
    }
    world
}

#[test]
fn test_set_block_breaks_unsupported_flower_and_queues_drop() {
    let mut world = cleared_world(2, 24);
    for x in -2..=2 {
        world.set_block(x, 10, BlockType::Grass);
    }
    world.recent_environment_drops.clear();

    world.set_block(0, 9, BlockType::RedFlower);
    assert_eq!(world.get_block(0, 9), BlockType::RedFlower);

    world.set_block(0, 10, BlockType::Air);

    assert_eq!(world.get_block(0, 9), BlockType::Air);
    assert!(world
        .recent_environment_drops
        .contains(&(0, 9, ItemType::RedFlower)));
}

#[test]
fn test_grass_spread_turns_exposed_dirt_green() {
    let mut world = cleared_world(2, 24);
    for x in -2..=2 {
        world.set_block(x, 10, BlockType::Grass);
    }
    world.set_block(1, 10, BlockType::Dirt);

    let spread_phase = (0_i32..=4)
        .find(|phase| {
            ((1_i32.wrapping_mul(13) ^ 10_i32.wrapping_mul(7) ^ (*phase).wrapping_mul(5)) & 3) == 0
        })
        .expect("expected a deterministic spread phase");
    world.set_tick(spread_phase as u64 * 20);
    world.update_grass_spread(0);

    assert_eq!(world.get_block(1, 10), BlockType::Grass);
}

#[test]
fn test_cactus_breaks_and_drops_when_support_is_removed() {
    let mut world = cleared_world(2, 24);
    world.recent_environment_drops.clear();

    world.set_block(0, 10, BlockType::Sand);
    world.set_block(0, 9, BlockType::Cactus);
    assert_eq!(world.get_block(0, 9), BlockType::Cactus);

    world.set_block(0, 10, BlockType::Air);

    assert_eq!(world.get_block(0, 9), BlockType::Air);
    assert!(world
        .recent_environment_drops
        .contains(&(0, 9, ItemType::Cactus)));
}

/// A column and phase where a leaf on row `wy` both decays and drops a
/// sapling.
fn leaf_decay_spot(wy: i32) -> Option<(i32, i32)> {
    (-8_i32..=8).find_map(|wx| {
        (0_i32..=8).find_map(|phase| {
            let decay_due =
                ((wx.wrapping_mul(31) ^ wy.wrapping_mul(17) ^ phase.wrapping_mul(13)) & 3) == 0;
            let sapling_due = ((wx.wrapping_mul(19) ^ wy.wrapping_mul(23) ^ phase.wrapping_mul(7))
                .rem_euclid(7))
                == 0;
            if decay_due && sapling_due {
                Some((wx, phase))
            } else {
                None
            }
        })
    })
}

#[test]
fn test_leaf_decay_can_drop_saplings_after_logs_are_removed() {
    let mut world = cleared_world(4, 28);
    for x in -4..=4 {
        world.set_block(x, 12, BlockType::Grass);
    }
    world.recent_environment_drops.clear();

    let wy = 8_i32;
    let (wx, phase) = leaf_decay_spot(wy).expect("expected a deterministic leaf-decay position");

    world.set_block(wx, wy, BlockType::Leaves);
    world.set_tick(phase as u64 * 20);
    world.update_leaf_decay(0);

    assert_eq!(world.get_block(wx, wy), BlockType::Air);
    assert!(world
        .recent_environment_drops
        .contains(&(wx, wy, ItemType::Sapling)));
}

#[test]
fn test_birch_leaf_decay_drops_birch_saplings() {
    let mut world = cleared_world(4, 28);
    for x in -4..=4 {
        world.set_block(x, 12, BlockType::Grass);
    }
    world.recent_environment_drops.clear();

    let wy = 8_i32;
    let (wx, phase) =
        leaf_decay_spot(wy).expect("expected a deterministic birch leaf-decay position");

    world.set_block(wx, wy, BlockType::BirchLeaves);
    world.set_tick(phase as u64 * 20);
    world.update_leaf_decay(0);

    assert_eq!(world.get_block(wx, wy), BlockType::Air);
    assert!(world
        .recent_environment_drops
        .contains(&(wx, wy, ItemType::BirchSapling)));
}

/// A column and phase where a sapling on row `wy` grows.
fn sapling_spot(wy: i32) -> Option<(i32, i32)> {
    (-4_i32..=4).find_map(|wx| {
        (0_i32..=12).find_map(|phase| sapling_growth_due_at(wx, wy, phase).then_some((wx, phase)))
    })
}

#[test]
fn test_sapling_grows_into_tree_during_farming_tick() {
    let mut world = cleared_world(6, 28);
    for x in -6..=6 {
        world.set_block(x, 12, BlockType::Grass);
    }

    let wy = 11_i32;
    let (wx, phase) = sapling_spot(wy).expect("expected a deterministic sapling growth position");

    world.set_block(wx, wy, BlockType::Sapling);
    world.set_tick(phase as u64 * 20);
    world.update_farming(0);

    assert!(matches!(
        world.get_block(wx, wy),
        BlockType::Wood | BlockType::BirchWood
    ));
    let has_leaves = ((wx - 2)..=(wx + 2)).any(|leaf_x| {
        ((wy - 5)..=wy).any(|leaf_y| {
            matches!(
                world.get_block(leaf_x, leaf_y),
                BlockType::Leaves | BlockType::BirchLeaves
            )
        })
    });
    assert!(has_leaves);
}

#[test]
fn test_birch_sapling_grows_into_birch_tree_during_farming_tick() {
    let mut world = cleared_world(6, 28);
    for x in -6..=6 {
        world.set_block(x, 12, BlockType::Grass);
    }

    let wy = 11_i32;
    let (wx, phase) =
        sapling_spot(wy).expect("expected a deterministic birch sapling growth position");

    world.set_block(wx, wy, BlockType::BirchSapling);
    world.set_tick(phase as u64 * 20);
    world.update_farming(0);

    assert_eq!(world.get_block(wx, wy), BlockType::BirchWood);
    let has_birch_leaves = ((wx - 2)..=(wx + 2)).any(|leaf_x| {
        ((wy - 5)..=wy).any(|leaf_y| world.get_block(leaf_x, leaf_y) == BlockType::BirchLeaves)
    });
    assert!(has_birch_leaves);
}

#[test]
fn test_nether_wart_grows_on_soul_sand_during_farming_tick() {
    let mut world = cleared_world(6, 24);
    for x in -6..=6 {
        world.set_block(x, 12, BlockType::Netherrack);
    }

    let wy = 11_i32;
    let wx = 1_i32;
    world.set_block(wx, wy + 1, BlockType::SoulSand);
    world.set_block(wx, wy, BlockType::NetherWart(0));

    let phase = (0_i32..=24)
        .find(|phase| nether_wart_growth_due_at(wx, wy, *phase))
        .expect("expected deterministic nether wart growth phase");

    world.set_tick(phase as u64 * 20);
    world.update_farming(0);

    assert_eq!(world.get_block(wx, wy), BlockType::NetherWart(1));
}

#[test]
fn test_dry_farmland_does_not_revert_on_first_farming_tick() {
    let mut world = cleared_world(4, 20);

    let wx = 1;
    let wy = 10;
    world.set_block(wx, wy, BlockType::Farmland(1));
    world.set_tick(0);
    world.update_farming(0);

    assert_eq!(world.get_block(wx, wy), BlockType::Farmland(0));
}

#[test]
fn test_dry_farmland_eventually_reverts_without_crop() {
    let mut world = cleared_world(4, 20);

    let wx = 1;
    let wy = 10;
    world.set_block(wx, wy, BlockType::Farmland(1));

    for phase in 0..32 {
        world.set_tick(phase * 20);
        world.update_farming(0);
        if world.get_block(wx, wy) == BlockType::Dirt {
            return;
        }
    }

    panic!("expected dry farmland to revert to dirt after an extended delay");
}

#[test]
fn test_dry_farmland_with_crop_does_not_revert() {
    let mut world = cleared_world(4, 20);

    let wx = 1;
    let wy = 10;
    world.set_block(wx, wy, BlockType::Farmland(0));
    world.set_block(wx, wy - 1, BlockType::Crops(0));

    for phase in 0..24 {
        world.set_tick(phase * 20);
        world.update_farming(0);
    }

    assert!(
        matches!(world.get_block(wx, wy), BlockType::Farmland(_)),
        "expected farmland under crops to stay tilled"
    );
}

#[test]
fn test_support_break_drops_multiple_mature_nether_wart_items() {
    let mut world = cleared_world(4, 20);

    let wx = 2;
    let wy = 9;
    world.set_block(wx, wy + 1, BlockType::SoulSand);
    world.set_block(wx, wy, BlockType::NetherWart(3));
    world.recent_environment_drops.clear();

    world.set_block(wx, wy + 1, BlockType::Air);

    let expected = nether_wart_drop_count_at(wx, wy, true) as usize;
    let actual = world
        .recent_environment_drops
        .iter()
        .filter(|drop| matches!(drop, (x, y, ItemType::NetherWart) if *x == wx && *y == wy))
        .count();
    assert_eq!(world.get_block(wx, wy), BlockType::Air);
    assert_eq!(actual, expected);
}

#[test]
fn test_apply_chunk_column_snapshot_replaces_chunk_blocks_without_dirty_save_state() {
    let mut world = loaded_world();

    let mut blocks = vec![BlockType::Air; CHUNK_WIDTH * CHUNK_HEIGHT];
    blocks[11 * CHUNK_WIDTH + 5] = BlockType::Stone;
    blocks[12 * CHUNK_WIDTH + 6] = BlockType::Chest;

    assert!(world.apply_chunk_column_snapshot(0, &blocks));
    assert_eq!(world.get_block(5, 11), BlockType::Stone);
    assert_eq!(world.get_block(6, 12), BlockType::Chest);
    let chunk = world
        .chunk_at_column(0)
        .expect("chunk should remain loaded after snapshot apply");
    assert!(!chunk.dirty);
}

#[test]
fn test_apply_chunk_column_snapshot_rejects_invalid_payload_length() {
    let mut world = loaded_world();
    let before = world.get_block(0, 0);

    assert!(!world.apply_chunk_column_snapshot(0, &[BlockType::Air; 8]));
    assert_eq!(world.get_block(0, 0), before);
}

#[test]
fn bone_meal_ripens_young_crops() {
    let mut world = cleared_world(4, 20);
    world.set_block(1, 10, BlockType::Farmland(7));
    world.set_block(1, 9, BlockType::Crops(2));
    assert!(world.apply_bone_meal(1, 9));
    assert_eq!(world.get_block(1, 9), BlockType::Crops(7));
    // Ripe crops take no more.
    assert!(!world.apply_bone_meal(1, 9));
    assert_eq!(world.get_block(1, 9), BlockType::Crops(7));
}

#[test]
fn bone_meal_does_nothing_on_stone_or_air() {
    let mut world = cleared_world(4, 20);
    world.set_block(1, 10, BlockType::Stone);
    assert!(!world.apply_bone_meal(1, 10));
    assert!(!world.apply_bone_meal(1, 9));
    assert_eq!(world.get_block(1, 10), BlockType::Stone);
    assert_eq!(world.get_block(1, 9), BlockType::Air);
}

#[test]
fn bone_meal_on_grass_grows_flora_over_the_middle_column() {
    let mut world = cleared_world(6, 20);
    for x in -6..=6 {
        world.set_block(x, 10, BlockType::Grass);
    }
    assert!(world.apply_bone_meal(0, 10));
    // The middle column always gets something.
    assert!(matches!(
        world.get_block(0, 9),
        BlockType::TallGrass | BlockType::RedFlower | BlockType::YellowFlower
    ));
    // Nothing grows beyond three columns from where it was used.
    assert_eq!(world.get_block(4, 9), BlockType::Air);
    assert_eq!(world.get_block(-4, 9), BlockType::Air);
    // Used on the flora, it works on the grass below and leaves the flora.
    let flora = world.get_block(0, 9);
    world.apply_bone_meal(0, 9);
    assert_eq!(world.get_block(0, 9), flora);
}

#[test]
fn bone_meal_grows_a_sapling_with_room() {
    let mut world = cleared_world(6, 28);
    for x in -6..=6 {
        world.set_block(x, 12, BlockType::Grass);
    }
    world.set_block(0, 11, BlockType::Sapling);
    assert!(world.apply_bone_meal(0, 11));
    assert_eq!(world.get_block(0, 11), BlockType::Wood);

    // Without room above, nothing happens.
    world.set_block(3, 11, BlockType::BirchSapling);
    world.set_block(3, 10, BlockType::Stone);
    assert!(!world.apply_bone_meal(3, 11));
    assert_eq!(world.get_block(3, 11), BlockType::BirchSapling);
}

#[test]
fn placed_block_reads_back_and_other_columns_stay() {
    let mut world = cleared_world(4, 20);
    world.set_block(1, 10, BlockType::Stone);
    world.set_block(2, 10, BlockType::Dirt);
    world.set_block(1, 9, BlockType::Torch);
    assert_eq!(world.get_block(1, 9), BlockType::Torch);
    assert_eq!(world.get_block(2, 10), BlockType::Dirt);
    // Placing the same block again changes nothing and sets nothing loose.
    world.recent_environment_drops.clear();
    world.set_block(1, 9, BlockType::Torch);
    assert!(world.recent_environment_drops.is_empty());
    // Writes where no chunk is loaded are ignored.
    world.set_block(5000, 10, BlockType::Stone);
    assert_eq!(world.get_block(5000, 10), BlockType::Air);
}

#[test]
fn column_snapshot_applied_back_keeps_blocks() {
    let mut world = cleared_world(4, 20);
    world.set_block(3, 10, BlockType::Stone);
    world.set_block(3, 9, BlockType::Chest);
    let (_, blocks) = world.chunk_column_snapshot(0).expect("column 0 is loaded");
    assert!(world.apply_chunk_column_snapshot(0, &blocks));
    assert_eq!(world.get_block(3, 10), BlockType::Stone);
    assert_eq!(world.get_block(3, 9), BlockType::Chest);
    assert!(world.chunk_column_snapshot(40).is_none());
}

#[test]
fn nether_fortress_zone_follows_the_layout() {
    let layout = nether_fortress_layout(0, 0, 10);
    // Region 0, six chunks in: centre on column 6 * 32 + 16; floor on row 50.
    assert_eq!(layout.center_x, 208);
    assert_eq!(layout.left_x, 112);
    assert_eq!(layout.right_x, 304);
    assert_eq!(layout.base_y, 50);
    assert_eq!(layout.roof_y, 45);
    let nether = World::new_for_dimension(Dimension::Nether);
    assert!(nether.is_nether_fortress_zone(208, 48, layout));
    assert!(nether.is_nether_fortress_zone(112, 40, layout));
    assert!(nether.is_nether_fortress_zone(304, 52, layout));
    assert!(!nether.is_nether_fortress_zone(111, 48, layout));
    assert!(!nether.is_nether_fortress_zone(208, 39, layout));
    assert!(!nether.is_nether_fortress_zone(208, 53, layout));
    let overworld = World::new();
    assert!(!overworld.is_nether_fortress_zone(208, 48, layout));
}

#[test]
fn dispatch_hands_out_nearest_requests_and_caps_workers() {
    let mut world = World::new();
    for x in 0..20 {
        world.enqueue_chunk_request(x, 0);
    }
    let sent = world.dispatch_chunk_requests();
    assert_eq!(sent.len(), 12);
    assert_eq!(sent[0], 0);
    assert_eq!(sent[1], 1);
    assert_eq!(world.queued_count(), 8);
    assert!(world.dispatch_chunk_requests().is_empty());
    assert_eq!(world.pending_count(), 20);
}

#[test]
fn ticks_advance_and_dirty_chunks_are_listed() {
    let mut world = loaded_world();
    assert_eq!(world.tick(), 0);
    tick(&mut world, 0);
    assert_eq!(world.tick(), 1);
    assert!(!world.has_dirty_chunks());
    world.set_block(40, 10, BlockType::Stone);
    assert!(world.has_dirty_chunks());
    assert_eq!(world.dirty_columns(4), vec![1]);
    assert!(world.mark_chunk_saved(1));
    assert!(!world.has_dirty_chunks());
    assert!(!world.mark_chunk_saved(77));
    assert_eq!(world.loaded_columns().len(), 5);
}
