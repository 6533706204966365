use vstd::prelude::*;
use super::block::BlockType;

verus! {

/// The strongest redstone signal.
pub const REDSTONE_MAX_POWER: u8 = 15;

/// Shortest repeater delay, in redstone ticks.
pub const REDSTONE_REPEATER_MIN_DELAY: u8 = 1;

/// Longest repeater delay, in redstone ticks.
pub const REDSTONE_REPEATER_MAX_DELAY: u8 = 4;

/// Fuse of TNT lit by redstone, in redstone ticks.
pub const TNT_FUSE_TICKS: u8 = 35;

/// Most blocks a piston moves at once.
pub const PISTON_PUSH_LIMIT: usize = 12;

/// The larger of two signal strengths.
pub open spec fn max_u8(a: u8, b: u8) -> u8 {
    if a >= b {
        a
    } else {
        b
    }
}

/// The signal a block gives off: full from an active lever, a pressed
/// button, a lit torch or a powered repeater; dust gives one level less than
/// it carries.
pub open spec fn spec_source_power(b: BlockType) -> u8 {
    match b {
        BlockType::Lever(on) => if on { 15 } else { 0 },
        BlockType::StoneButton(t) => if t > 0 { 15 } else { 0 },
        BlockType::RedstoneTorch(lit) => if lit { 15 } else { 0 },
        BlockType::RedstoneRepeater { powered, .. } => if powered { 15 } else { 0 },
        BlockType::RedstoneDust(level) => if level > 0 { (level - 1) as u8 } else { 0 },
        _ => 0,
    }
}

/// The signal a block gives off.
pub fn source_power(b: BlockType) -> (r: u8)
    ensures
        r == spec_source_power(b),
{
    match b {
        BlockType::Lever(true) => REDSTONE_MAX_POWER,
        BlockType::StoneButton(timer) => if timer > 0 { REDSTONE_MAX_POWER } else { 0 },
        BlockType::RedstoneTorch(true) => REDSTONE_MAX_POWER,
        BlockType::RedstoneRepeater { powered: true, .. } => REDSTONE_MAX_POWER,
        BlockType::RedstoneDust(level) => level.saturating_sub(1),
        _ => 0,
    }
}

/// The signal block `b` at (sx, sy) sends to (dx, dy): full from an active
/// lever, a pressed button or a lit torch; full from a powered repeater only
/// to the cell it faces; dust passes its level on, one less when `decay`.
pub open spec fn spec_power_from_to(b: BlockType, sx: int, sy: int, dx: int, dy: int, decay: bool) -> u8 {
    match b {
        BlockType::Lever(on) => if on { 15 } else { 0 },
        BlockType::StoneButton(t) => if t > 0 { 15 } else { 0 },
        BlockType::RedstoneTorch(lit) => if lit { 15 } else { 0 },
        BlockType::RedstoneRepeater { powered, facing_right, .. } => if powered && dy == sy && dx == (if facing_right {
            sx + 1
        } else {
            sx - 1
        }) {
            15
        } else {
            0
        },
        BlockType::RedstoneDust(level) => if decay {
            if level > 0 { (level - 1) as u8 } else { 0 }
        } else {
            level
        },
        _ => 0,
    }
}

/// The signal block `b` at (src_x, src_y) sends to (dst_x, dst_y).
pub fn power_from_to(b: BlockType, src_x: i32, src_y: i32, dst_x: i32, dst_y: i32, decay_dust: bool) -> (r: u8)
    requires
        i32::MIN < src_x < i32::MAX,
    ensures
        r == spec_power_from_to(b, src_x as int, src_y as int, dst_x as int, dst_y as int, decay_dust),
{
    match b {
        BlockType::Lever(true) => REDSTONE_MAX_POWER,
        BlockType::StoneButton(timer) => if timer > 0 { REDSTONE_MAX_POWER } else { 0 },
        BlockType::RedstoneTorch(true) => REDSTONE_MAX_POWER,
        BlockType::RedstoneRepeater { powered, facing_right, .. } => {
            if !powered {
                return 0;
            }
            let out_x = if facing_right { src_x + 1 } else { src_x - 1 };
            if dst_x == out_x && dst_y == src_y {
                REDSTONE_MAX_POWER
            } else {
                0
            }
        },
        BlockType::RedstoneDust(level) => {
            if decay_dust {
                level.saturating_sub(1)
            } else {
                level
            }
        },
        _ => 0,
    }
}

/// The signal block `b` at (sx, sy) feeds into a torch or other input at
/// (dx, dy): full from an active lever or a pressed button, full from a
/// powered repeater facing it; dust and torches feed nothing.
pub open spec fn spec_input_power_from_to(b: BlockType, sx: int, sy: int, dx: int, dy: int) -> u8 {
    match b {
        BlockType::Lever(on) => if on { 15 } else { 0 },
        BlockType::StoneButton(t) => if t > 0 { 15 } else { 0 },
        BlockType::RedstoneRepeater { powered, facing_right, .. } => if powered && dy == sy && dx == (if facing_right {
            sx + 1
        } else {
            sx - 1
        }) {
            15
        } else {
            0
        },
        _ => 0,
    }
}

/// The signal block `b` at (src_x, src_y) feeds into an input at (dst_x, dst_y).
pub fn input_power_from_to(b: BlockType, src_x: i32, src_y: i32, dst_x: i32, dst_y: i32) -> (r: u8)
    requires
        i32::MIN < src_x < i32::MAX,
    ensures
        r == spec_input_power_from_to(b, src_x as int, src_y as int, dst_x as int, dst_y as int),
{
    match b {
        BlockType::Lever(true) => REDSTONE_MAX_POWER,
        BlockType::StoneButton(timer) => if timer > 0 { REDSTONE_MAX_POWER } else { 0 },
        BlockType::RedstoneRepeater { powered: true, facing_right, .. } => {
            let out_x = if facing_right { src_x + 1 } else { src_x - 1 };
            if dst_x == out_x && dst_y == src_y {
                REDSTONE_MAX_POWER
            } else {
                0
            }
        },
        _ => 0,
    }
}

/// Whether a piston can move `b`: not air, fluids, portals and their
/// frames, primed TNT, doors, spawners, bedrock, obsidian or other pistons.
pub open spec fn spec_can_piston_push(b: BlockType) -> bool {
    !matches!(
        b,
        BlockType::Air
            | BlockType::Bedrock
            | BlockType::Obsidian
            | BlockType::Water(_)
            | BlockType::Lava(_)
            | BlockType::NetherPortal
            | BlockType::EndPortal
            | BlockType::EndPortalFrame { .. }
            | BlockType::PrimedTnt(_)
            | BlockType::IronDoor(_)
            | BlockType::WoodDoor(_)
            | BlockType::SilverfishSpawner
            | BlockType::BlazeSpawner
            | BlockType::ZombieSpawner
            | BlockType::SkeletonSpawner
            | BlockType::Piston { .. }
            | BlockType::StickyPiston { .. }
    )
}

/// Whether a piston can move `b`.
pub fn can_piston_push(b: BlockType) -> (r: bool)
    ensures
        r == spec_can_piston_push(b),
{
    !matches!(
        b,
        BlockType::Air
            | BlockType::Bedrock
            | BlockType::Obsidian
            | BlockType::Water(_)
            | BlockType::Lava(_)
            | BlockType::NetherPortal
            | BlockType::EndPortal
            | BlockType::EndPortalFrame { .. }
            | BlockType::PrimedTnt(_)
            | BlockType::IronDoor(_)
            | BlockType::WoodDoor(_)
            | BlockType::SilverfishSpawner
            | BlockType::BlazeSpawner
            | BlockType::ZombieSpawner
            | BlockType::SkeletonSpawner
            | BlockType::Piston { .. }
            | BlockType::StickyPiston { .. }
    )
}

/// The state a repeater moves to in one redstone tick when `desired` tells
/// whether its rear is powered: its delay is clamped to 1..=4; a repeater
/// already showing the desired state rests; a change of desired state
/// (re)starts the countdown; otherwise the countdown runs and the output
/// switches when it ends.
pub open spec fn repeater_step(
    powered: bool,
    delay: u8,
    timer: u8,
    target_powered: bool,
    desired: bool,
) -> (bool, u8, u8, bool) {
    let clamped = if delay < 1 { 1u8 } else if delay > 4 { 4u8 } else { delay };
    if desired == powered {
        (powered, clamped, 0u8, powered)
    } else if timer == 0 || target_powered != desired {
        (powered, clamped, clamped, desired)
    } else {
        let t = (timer - 1) as u8;
        (if t == 0 { target_powered } else { powered }, clamped, t, target_powered)
    }
}

/// One redstone tick of a repeater.
pub fn step_repeater(powered: bool, delay: u8, timer: u8, target_powered: bool, desired: bool) -> (r: (
    bool,
    u8,
    u8,
    bool,
))
    ensures
        r == repeater_step(powered, delay, timer, target_powered, desired),
{
    let clamped_delay = if delay < REDSTONE_REPEATER_MIN_DELAY {
        REDSTONE_REPEATER_MIN_DELAY
    } else if delay > REDSTONE_REPEATER_MAX_DELAY {
        REDSTONE_REPEATER_MAX_DELAY
    } else {
        delay
    };
    let mut next_powered = powered;
    let mut next_timer = timer;
    let mut next_target = target_powered;
    if desired == powered {
        next_timer = 0;
        next_target = powered;
    } else if timer == 0 || target_powered != desired {
        next_timer = clamped_delay;
        next_target = desired;
    } else {
        next_timer = next_timer.saturating_sub(1);
        if next_timer == 0 {
            next_powered = next_target;
        }
    }
    (next_powered, clamped_delay, next_timer, next_target)
}


/// No component gives off more than full power, as long as dust carries a
/// level within full power.
pub proof fn law_source_power_is_bounded(b: BlockType)
    requires
        b matches BlockType::RedstoneDust(level) ==> level <= REDSTONE_MAX_POWER,
    ensures
        spec_source_power(b) <= REDSTONE_MAX_POWER,
{
}

/// A repeater that already shows the signal it is given settles: its timer
/// clears and it keeps its state.
pub proof fn law_settled_repeater_stays(powered: bool, delay: u8, timer: u8, target_powered: bool)
    ensures
        repeater_step(powered, delay, timer, target_powered, powered).0 == powered,
        repeater_step(powered, delay, timer, target_powered, powered).2 == 0,
{
}

/// A repeater switches to a new input only after its delay: the step that
/// sees the change arms the timer with the delay (kept within one to four)
/// and leaves the output as it was.
pub proof fn law_repeater_waits_before_switching(powered: bool, delay: u8, timer: u8, target_powered: bool)
    requires
        timer == 0 || target_powered == powered,
    ensures
        repeater_step(powered, delay, timer, target_powered, !powered).0 == powered,
        REDSTONE_REPEATER_MIN_DELAY <= repeater_step(powered, delay, timer, target_powered, !powered).2
            <= REDSTONE_REPEATER_MAX_DELAY,
{
}

} // verus!
