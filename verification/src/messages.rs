use vstd::prelude::*;

use crate::text::{decimal, push_decimal};
use crate::vibe::Vibe;

verus! {

/// Log line announcing a new room.
pub open spec fn room_text(room: u32, vibe: Vibe) -> Seq<char> {
    "Room "@ + decimal(room as nat) + " dropped: "@ + vibe.name_text()
}

/// Log line for walking into a wall or off the map.
pub open spec fn bonk_text() -> Seq<char> {
    "You bonk into the architecture."@
}

/// Log line for picking up treasure.
pub open spec fn treasure_text() -> Seq<char> {
    "You pocket cursed treasure. +10 score."@
}

/// Log line for drinking a potion that heals `heal`.
pub open spec fn potion_text(heal: nat) -> Seq<char> {
    "You chug a suspicious potion. +"@ + decimal(heal) + " HP."@
}

/// Log line for reaching the exit.
pub open spec fn exit_text() -> Seq<char> {
    "You found the exit. Crowd goes wild. +25 score."@
}

/// Log line for killing a monster.
pub open spec fn monster_deleted_text() -> Seq<char> {
    "Monster deleted from the dance floor. +15 score."@
}

/// Log line for an exchange of blows in which the monster survives.
pub open spec fn slap_text(player_hit: nat, monster_hit: nat) -> Seq<char> {
    "You slap the monster for "@ + decimal(player_hit) + ". It slaps back for "@ + decimal(
        monster_hit,
    ) + "."@
}

/// Log line for a monster hitting the player on its own turn.
pub open spec fn body_check_text(damage: nat) -> Seq<char> {
    "A monster body-checks you for "@ + decimal(damage) + "."@
}

/// Death message selected by a roll: 0 to 3 pick the first four, anything
/// else the last one.
pub open spec fn death_text(r: int) -> Seq<char> {
    if r == 0 {
        "You were booed to death by a skeleton trio."@
    } else if r == 1 {
        "The goblin funk consumed you."@
    } else if r == 2 {
        "A cursed beat drop ended your career."@
    } else if r == 3 {
        "You got folded by dungeon nightlife."@
    } else {
        "Your set ended in catastrophic vibes."@
    }
}

/// Floating text for picked-up treasure.
pub open spec fn gold_floater_text() -> Seq<char> {
    "+10 GOLD"@
}

/// Floating text for a heal of `heal`.
pub open spec fn heal_floater_text(heal: nat) -> Seq<char> {
    "+"@ + decimal(heal) + " HP"@
}

/// Floating text for damage `n`.
pub open spec fn damage_floater_text(n: nat) -> Seq<char> {
    "-"@ + decimal(n)
}

/// Floating text for a kill.
pub open spec fn ko_floater_text() -> Seq<char> {
    "KO!"@
}

pub fn room_message(room: u32, vibe: Vibe) -> (s: String)
    ensures
        s@ == room_text(room, vibe),
{
    let mut s = String::from_str("Room ");
    push_decimal(&mut s, room);
    s.append(" dropped: ");
    s.append(vibe.name());
    s
}

pub fn bonk_message() -> (s: String)
    ensures
        s@ == bonk_text(),
{
    String::from_str("You bonk into the architecture.")
}

pub fn treasure_message() -> (s: String)
    ensures
        s@ == treasure_text(),
{
    String::from_str("You pocket cursed treasure. +10 score.")
}

pub fn potion_message(heal: u32) -> (s: String)
    ensures
        s@ == potion_text(heal as nat),
{
    let mut s = String::from_str("You chug a suspicious potion. +");
    push_decimal(&mut s, heal);
    s.append(" HP.");
    s
}

pub fn exit_message() -> (s: String)
    ensures
        s@ == exit_text(),
{
    String::from_str("You found the exit. Crowd goes wild. +25 score.")
}

pub fn monster_deleted_message() -> (s: String)
    ensures
        s@ == monster_deleted_text(),
{
    String::from_str("Monster deleted from the dance floor. +15 score.")
}

pub fn slap_message(player_hit: u32, monster_hit: u32) -> (s: String)
    ensures
        s@ == slap_text(player_hit as nat, monster_hit as nat),
{
    let mut s = String::from_str("You slap the monster for ");
    push_decimal(&mut s, player_hit);
    s.append(". It slaps back for ");
    push_decimal(&mut s, monster_hit);
    s.append(".");
    s
}

pub fn body_check_message(damage: u32) -> (s: String)
    ensures
        s@ == body_check_text(damage as nat),
{
    let mut s = String::from_str("A monster body-checks you for ");
    push_decimal(&mut s, damage);
    s.append(".");
    s
}

/// The death message that a roll selects.
pub fn death_message(r: i32) -> (s: String)
    ensures
        s@ == death_text(r as int),
{
    match r {
        0 => String::from_str("You were booed to death by a skeleton trio."),
        1 => String::from_str("The goblin funk consumed you."),
        2 => String::from_str("A cursed beat drop ended your career."),
        3 => String::from_str("You got folded by dungeon nightlife."),
        _ => String::from_str("Your set ended in catastrophic vibes."),
    }
}

pub fn gold_floater() -> (s: String)
    ensures
        s@ == gold_floater_text(),
{
    String::from_str("+10 GOLD")
}

pub fn heal_floater(heal: u32) -> (s: String)
    ensures
        s@ == heal_floater_text(heal as nat),
{
    let mut s = String::from_str("+");
    push_decimal(&mut s, heal);
    s.append(" HP");
    s
}

pub fn damage_floater(n: u32) -> (s: String)
    ensures
        s@ == damage_floater_text(n as nat),
{
    let mut s = String::from_str("-");
    push_decimal(&mut s, n);
    s
}

pub fn ko_floater() -> (s: String)
    ensures
        s@ == ko_floater_text(),
{
    String::from_str("KO!")
}

} // verus!
