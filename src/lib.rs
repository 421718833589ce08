use vstd::prelude::*;

pub mod entity;
pub mod layout;
pub mod scene;
pub mod shader;
pub mod vertex_attribute;

pub use entity::{DrawCall, Entity};
pub use layout::{AttribPointer, LayoutError};
pub use scene::{Drawable, Scene};
pub use shader::{ShaderLib, ShaderProgram, ShaderStage};
pub use vertex_attribute::VertexAttribute;

use scene::draws_of;

verus! {

/// The library's side of a graphics context: the scenes it holds, of which the
/// first is the one drawn each frame.
#[derive(Debug)]
pub struct Renderer<T> {
    pub scenes: Vec<Scene<T>>,
}

/// Starts a renderer that holds no scene yet.
pub fn init<T>() -> (r: Renderer<T>)
    ensures
        r.scenes@.len() == 0,
{
    Renderer { scenes: Vec::new() }
}

impl<T> Renderer<T> {
    /// The draw calls of one frame: those of the first scene, or none.
    pub open spec fn frame_calls(&self) -> Result<Seq<DrawCall>, LayoutError> {
        if self.scenes@.len() == 0 {
            Ok(Seq::empty())
        } else {
            draws_of(self.scenes@[0].entities@)
        }
    }

    pub fn push_scene(&mut self, scene: Scene<T>)
        ensures
            final(self).scenes@ == old(self).scenes@.push(scene),
    {
        self.scenes.push(scene);
    }

    /// The draw calls to issue for one frame.
    pub fn frame(&self) -> (r: Result<Vec<DrawCall>, LayoutError>)
        ensures
            match r {
                Ok(v) => self.frame_calls() == Ok::<Seq<DrawCall>, LayoutError>(v@),
                Err(e) => self.frame_calls() == Err::<Seq<DrawCall>, LayoutError>(e),
            },
    {
        if self.scenes.len() == 0 {
            Ok(Vec::new())
        } else {
            self.scenes[0].draw()
        }
    }
}

} // verus!
