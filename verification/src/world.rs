//! Blocks of the world, looked up by the identifiers of their layer and of the block.
use vstd::prelude::*;
use crate::identifier::Identifier;
use crate::registry::{index_of_identifier, Id, Registry};

verus! {

/// A block placed in the world.
#[derive(Clone, Copy)]
pub struct Block {
    pub id: Id<BlockDesc>,
    pub layer: Id<BlockLayer>,
    pub collision: bool,
}

impl Block {
    pub fn get_collision(&self) -> (r: bool)
        ensures
            r == self.collision,
    {
        self.collision
    }
}

/// What a kind of block is like.
pub struct BlockDesc {
    pub collision: bool,
}

impl BlockDesc {
    /// A block of this kind, with the given ids.
    pub fn create(&self, id: Id<BlockDesc>, layer: Id<BlockLayer>) -> (r: Block)
        ensures
            r.id == id,
            r.layer == layer,
            r.collision == self.collision,
    {
        Block { id, layer, collision: self.collision }
    }
}

/// A layer of the world and the kinds of block it holds.
pub struct BlockLayer {
    pub blocks: Registry<BlockDesc>,
}

/// Why a block could not be created.
pub enum WorldError {
    /// No block layer has this identifier.
    UnknownLayer(Identifier),
    /// The layer has no block with this identifier: the block, then the layer.
    UnknownBlock(Identifier, Identifier),
}

impl WorldError {
    /// The message that describes the error to a user.
    pub fn to_string(&self) -> (r: String)
        ensures
            self matches WorldError::UnknownLayer(l) ==> r@ == "Could not find BlockLayer \""@ + l.namespace@ + seq![':'] + l.path@ + "\""@,
            self matches WorldError::UnknownBlock(b, l) ==> r@ == "Could not find Block \""@ + b.namespace@ + seq![':'] + b.path@
                + "\" on layer \""@ + l.namespace@ + seq![':'] + l.path@ + "\""@,
    {
        match self {
            WorldError::UnknownLayer(l) => {
                let mut r = String::from_str("Could not find BlockLayer \"");
                let name = l.to_string();
                r.append(name.as_str());
                r.append("\"");
                r
            },
            WorldError::UnknownBlock(b, l) => {
                let mut r = String::from_str("Could not find Block \"");
                let block_name = b.to_string();
                r.append(block_name.as_str());
                r.append("\" on layer \"");
                let layer_name = l.to_string();
                r.append(layer_name.as_str());
                r.append("\"");
                proof {
                    assert(r@ =~= "Could not find Block \""@ + b.namespace@ + seq![':'] + b.path@
                        + "\" on layer \""@ + l.namespace@ + seq![':'] + l.path@ + "\""@);
                }
                r
            },
        }
    }
}

/// The outcome of looking up block `block` on layer `layer`, given the layers.
pub open spec fn spec_create_block(layers: Seq<(Identifier, u32, BlockLayer)>, layer: Identifier, block: Identifier) -> Result<(int, int, bool), WorldError> {
    match index_of_identifier(layers, layer@) {
        None => Err(WorldError::UnknownLayer(layer)),
        Some(li) => {
            let blocks = layers[li].2.blocks.entries();
            match index_of_identifier(blocks, block@) {
                None => Err(WorldError::UnknownBlock(block, layer)),
                Some(bi) => Ok((bi, li, blocks[bi].2.collision)),
            }
        },
    }
}

/// The block layers of the world.
pub struct WorldAPI {
    pub block_layer: Registry<BlockLayer>,
}

impl WorldAPI {
    /// Creates the block with identifier `block` on the layer with identifier `layer`.
    pub fn create_block(&self, layer: Identifier, block: Identifier) -> (r: Result<Block, WorldError>)
        ensures
            match spec_create_block(self.block_layer.entries(), layer, block) {
                Ok((bi, li, collision)) => r matches Ok(b) && b.id.key == bi && b.layer.key == li && b.collision == collision,
                Err(e) => r matches Err(re) && re == e,
            },
    {
        let layer_id = match self.block_layer.get_id(&layer) {
            Some(id) => id,
            None => return Err(WorldError::UnknownLayer(layer)),
        };
        proof {
            self.block_layer.lemma_index_in_range(layer@);
        }
        let block_layer = self.block_layer.get(layer_id);
        let id = match block_layer.blocks.get_id(&block) {
            Some(id) => id,
            None => return Err(WorldError::UnknownBlock(block, layer)),
        };
        proof {
            block_layer.blocks.lemma_index_in_range(block@);
        }
        let desc = block_layer.blocks.get(id);
        let block = desc.create(id, layer_id);
        Ok(block)
    }

    pub fn block_layer(&self) -> (r: &Registry<BlockLayer>)
        ensures
            r == &self.block_layer,
    {
        &self.block_layer
    }
}

} // verus!
