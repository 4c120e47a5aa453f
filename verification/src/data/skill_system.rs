//! # Skill system
//!
//! Facts about the behaviors that skills are made of.

use vstd::prelude::*;
use crate::api::bytes_eq;
use vstd::string::StringSliceAdditionalSpecFns;

verus! {

/// Whether a behavior parameter of this name holds the id of another
/// behavior (an "action" that the behavior may run).
pub open spec fn is_action_key(key: Seq<u8>) -> bool {
    ||| key == "action".spec_bytes()
    ||| key == "behavior 1".spec_bytes()
    ||| key == "behavior 2".spec_bytes()
    ||| key == "miss action".spec_bytes()
    ||| key == "blocked action".spec_bytes()
    ||| key == "on_fail_blocked".spec_bytes()
    ||| key == "action_false".spec_bytes()
    ||| key == "action_true".spec_bytes()
    ||| key == "start_action".spec_bytes()
    ||| key == "behavior 3".spec_bytes()
    ||| key == "bahavior 2".spec_bytes()
    ||| key == "behavior 4".spec_bytes()
    ||| key == "on_success".spec_bytes()
    ||| key == "behavior 5".spec_bytes()
    ||| key == "chain_action".spec_bytes()
    ||| key == "behavior 0".spec_bytes()
    ||| key == "behavior 6".spec_bytes()
    ||| key == "behavior 7".spec_bytes()
    ||| key == "behavior 8".spec_bytes()
    ||| key == "on_fail_armor".spec_bytes()
    ||| key == "behavior".spec_bytes()
    ||| key == "break_action".spec_bytes()
    ||| key == "double_jump_action".spec_bytes()
    ||| key == "ground_action".spec_bytes()
    ||| key == "jump_action".spec_bytes()
    ||| key == "hit_action".spec_bytes()
    ||| key == "hit_action_enemy".spec_bytes()
    ||| key == "timeout_action".spec_bytes()
    ||| key == "air_action".spec_bytes()
    ||| key == "falling_action".spec_bytes()
    ||| key == "jetpack_action".spec_bytes()
    ||| key == "spawn_fail_action".spec_bytes()
    ||| key == "action_failed".spec_bytes()
    ||| key == "action_consumed".spec_bytes()
    ||| key == "blocked_action".spec_bytes()
    ||| key == "on_fail_immune".spec_bytes()
    ||| key == "moving_action".spec_bytes()
    ||| key == "behavior 10".spec_bytes()
    ||| key == "behavior 9".spec_bytes()
}

/// Whether a behavior parameter of this name holds the id of another
/// behavior.
pub fn match_action_key(key: &[u8]) -> (r: bool)
    ensures
        r == is_action_key(key@),
{
    bytes_eq(key, "action".as_bytes())
        || bytes_eq(key, "behavior 1".as_bytes())
        || bytes_eq(key, "behavior 2".as_bytes())
        || bytes_eq(key, "miss action".as_bytes())
        || bytes_eq(key, "blocked action".as_bytes())
        || bytes_eq(key, "on_fail_blocked".as_bytes())
        || bytes_eq(key, "action_false".as_bytes())
        || bytes_eq(key, "action_true".as_bytes())
        || bytes_eq(key, "start_action".as_bytes())
        || bytes_eq(key, "behavior 3".as_bytes())
        || bytes_eq(key, "bahavior 2".as_bytes())
        || bytes_eq(key, "behavior 4".as_bytes())
        || bytes_eq(key, "on_success".as_bytes())
        || bytes_eq(key, "behavior 5".as_bytes())
        || bytes_eq(key, "chain_action".as_bytes())
        || bytes_eq(key, "behavior 0".as_bytes())
        || bytes_eq(key, "behavior 6".as_bytes())
        || bytes_eq(key, "behavior 7".as_bytes())
        || bytes_eq(key, "behavior 8".as_bytes())
        || bytes_eq(key, "on_fail_armor".as_bytes())
        || bytes_eq(key, "behavior".as_bytes())
        || bytes_eq(key, "break_action".as_bytes())
        || bytes_eq(key, "double_jump_action".as_bytes())
        || bytes_eq(key, "ground_action".as_bytes())
        || bytes_eq(key, "jump_action".as_bytes())
        || bytes_eq(key, "hit_action".as_bytes())
        || bytes_eq(key, "hit_action_enemy".as_bytes())
        || bytes_eq(key, "timeout_action".as_bytes())
        || bytes_eq(key, "air_action".as_bytes())
        || bytes_eq(key, "falling_action".as_bytes())
        || bytes_eq(key, "jetpack_action".as_bytes())
        || bytes_eq(key, "spawn_fail_action".as_bytes())
        || bytes_eq(key, "action_failed".as_bytes())
        || bytes_eq(key, "action_consumed".as_bytes())
        || bytes_eq(key, "blocked_action".as_bytes())
        || bytes_eq(key, "on_fail_immune".as_bytes())
        || bytes_eq(key, "moving_action".as_bytes())
        || bytes_eq(key, "behavior 10".as_bytes())
        || bytes_eq(key, "behavior 9".as_bytes())
}

} // verus!
