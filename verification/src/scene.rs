//! The baked scene, as far as the viewer's decisions read it.
//!
//! The whole map is one pool of vertices and one pool of indices. An instance is
//! a slice of the index pool, drawn with a base vertex and a transform, so 1,482
//! placements of a pipe share one copy of the pipe.
use crate::single::Single;
use vstd::prelude::*;

verus! {

/// One vertex record, as its eight 32-bit words: position, normal, texture
/// coordinates.
pub type Vertex = [u32; 8];

/// One placement of a piece of geometry.
pub struct Instance {
    /// Where its indices start in the index pool.
    pub first_index: u32,
    /// How many indices it draws.
    pub index_count: u32,
    /// What is added to each index to find its vertex.
    pub base_vertex: u32,
    /// Which material it is drawn with.
    pub material: u32,
    /// The stem of the model it was placed from.
    pub name: String,
    /// Rows of the 3x4 matrix that takes it to world metres.
    pub transform: [Single; 12],
    /// Least corner of its world bounding box, in metres.
    pub aabb_min: [Single; 3],
    /// Greatest corner of its world bounding box, in metres.
    pub aabb_max: [Single; 3],
}

/// One material.
pub struct Material {
    /// The path of the material in the game's files.
    pub name: String,
    /// Linear RGBA.
    pub colour: [Single; 4],
}

/// A scene.
pub struct Scene {
    pub instances: Vec<Instance>,
    pub materials: Vec<Material>,
    pub vertices: Vec<Vertex>,
    pub indices: Vec<u32>,
    /// Least corner of the whole scene, in metres.
    pub scene_min: [Single; 3],
    /// Greatest corner of the whole scene, in metres.
    pub scene_max: [Single; 3],
    /// Identifies the bake that the scene came from.
    pub bake_hash: u64,
    /// How large the file is that the scene was read from.
    pub byte_len: usize,
}

impl Scene {
    /// The file counts its instances in 32 bits.
    pub open spec fn wf(&self) -> bool {
        self.instances@.len() <= u32::MAX
    }

    /// The name of a material, empty when there is no such material.
    pub open spec fn material_text(&self, material: u32) -> Seq<char> {
        if (material as int) < self.materials@.len() {
            self.materials@[material as int].name@
        } else {
            Seq::empty()
        }
    }

    /// The path of the material an instance is drawn with.
    pub open spec fn material_of(&self, id: int) -> Seq<char> {
        self.material_text(self.instances@[id].material)
    }

    /// The model stem of an instance.
    pub open spec fn name_of(&self, id: int) -> Seq<char> {
        self.instances@[id].name@
    }

    /// The name of a material, empty when there is no such material.
    pub fn material_name(&self, material: u32) -> (r: &str)
        ensures
            r@ == self.material_text(material),
    {
        let at: usize = material as usize;
        if at < self.materials.len() {
            self.materials[at].name.as_str()
        } else {
            proof {
                reveal_strlit("");
                assert(""@ =~= Seq::empty());
            }
            ""
        }
    }
}

/// An instance is made of the material that it names by number, and of none when
/// there is no such material; it is called what it says.
pub proof fn law_what_an_instance_is_made_of(scene: &Scene, id: int)
    requires
        0 <= id < scene.instances@.len(),
    ensures
        scene.instances@[id].material < scene.materials@.len() ==> scene.material_of(id)
            == scene.materials@[scene.instances@[id].material as int].name@,
        scene.instances@[id].material >= scene.materials@.len() ==> scene.material_of(id).len() == 0,
        scene.name_of(id) == scene.instances@[id].name@,
{
}

} // verus!
