//! The vocabulary shared with the physics engine.
use vstd::prelude::*;
use crate::game;

verus! {

/// The block kinds that the physics engine can build, by its own numbering.
#[derive(Clone, Copy, Debug, PartialEq, Eq, Structural)]
pub enum BlockType {
    IBlock,
    JBlock,
    LBlock,
    OBlock,
    SBlock,
    TBlock,
    ZBlock,
    Custom,
}

/// Surface materials known to the physics engine.
#[derive(Clone, Copy, Debug, PartialEq, Eq, Structural)]
pub enum MaterialType {
    Normal,
    Heavy,
    Light,
    Bouncy,
    Ice,
    Sticky,
    Custom,
}

pub open spec fn spec_block_for_shape(shape: game::BlockType) -> BlockType {
    match shape {
        game::BlockType::I => BlockType::IBlock,
        game::BlockType::J => BlockType::JBlock,
        game::BlockType::L => BlockType::LBlock,
        game::BlockType::O => BlockType::OBlock,
        game::BlockType::S => BlockType::SBlock,
        game::BlockType::T => BlockType::TBlock,
        game::BlockType::Z => BlockType::ZBlock,
    }
}

/// The engine's block kind for a tetromino.
pub fn block_for_shape(shape: game::BlockType) -> (b: BlockType)
    ensures
        b == spec_block_for_shape(shape),
{
    match shape {
        game::BlockType::I => BlockType::IBlock,
        game::BlockType::J => BlockType::JBlock,
        game::BlockType::L => BlockType::LBlock,
        game::BlockType::O => BlockType::OBlock,
        game::BlockType::S => BlockType::SBlock,
        game::BlockType::T => BlockType::TBlock,
        game::BlockType::Z => BlockType::ZBlock,
    }
}

/// The engine's numbering of a block kind.
pub fn block_type_code(b: BlockType) -> (c: i32)
    ensures
        0 <= c <= 7,
        c == match b {
            BlockType::IBlock => 0i32,
            BlockType::JBlock => 1,
            BlockType::LBlock => 2,
            BlockType::OBlock => 3,
            BlockType::SBlock => 4,
            BlockType::TBlock => 5,
            BlockType::ZBlock => 6,
            BlockType::Custom => 7,
        },
{
    match b {
        BlockType::IBlock => 0,
        BlockType::JBlock => 1,
        BlockType::LBlock => 2,
        BlockType::OBlock => 3,
        BlockType::SBlock => 4,
        BlockType::TBlock => 5,
        BlockType::ZBlock => 6,
        BlockType::Custom => 7,
    }
}

/// The engine's numbering of a material.
pub fn material_code(m: MaterialType) -> (c: i32)
    ensures
        0 <= c <= 6,
        c == match m {
            MaterialType::Normal => 0i32,
            MaterialType::Heavy => 1,
            MaterialType::Light => 2,
            MaterialType::Bouncy => 3,
            MaterialType::Ice => 4,
            MaterialType::Sticky => 5,
            MaterialType::Custom => 6,
        },
{
    match m {
        MaterialType::Normal => 0,
        MaterialType::Heavy => 1,
        MaterialType::Light => 2,
        MaterialType::Bouncy => 3,
        MaterialType::Ice => 4,
        MaterialType::Sticky => 5,
        MaterialType::Custom => 6,
    }
}

} // verus!
