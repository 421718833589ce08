use vstd::prelude::*;

use crate::layout::{
    attribute_pointers, layout_view, pointers_result, vertex_count, vertex_count_result,
    AttribPointer, LayoutError,
};
use crate::shader::ShaderProgram;
use crate::vertex_attribute::VertexAttribute;

verus! {

/// The components of a sequence of three-component vertices, vertex after vertex.
pub open spec fn flattened<T>(vertices: Seq<[T; 3]>) -> Seq<T>
    decreases vertices.len(),
{
    if vertices.len() == 0 {
        Seq::empty()
    } else {
        flattened(vertices.drop_last()) + vertices.last()@
    }
}

proof fn lemma_flattened_len<T>(vertices: Seq<[T; 3]>)
    ensures
        flattened(vertices).len() == 3 * vertices.len(),
    decreases vertices.len(),
{
    if vertices.len() > 0 {
        lemma_flattened_len(vertices.drop_last());
    }
}

/// Lays three-component vertices out as one flat sequence of components.
pub fn flatten_vertices<T: Copy>(vertices: &Vec<[T; 3]>) -> (r: Vec<T>)
    ensures
        r@ == flattened(vertices@),
        r@.len() == 3 * vertices@.len(),
{
    let mut out: Vec<T> = Vec::new();
    let mut i: usize = 0;
    while i < vertices.len()
        invariant
            i <= vertices@.len(),
            out@ == flattened(vertices@.take(i as int)),
        decreases vertices@.len() - i,
    {
        let v: [T; 3] = vertices[i];
        out.push(v[0]);
        out.push(v[1]);
        out.push(v[2]);
        assert(vertices@.take(i + 1).drop_last() =~= vertices@.take(i as int));
        assert(out@ =~= flattened(vertices@.take(i as int)) + v@);
        i = i + 1;
    }
    assert(vertices@.take(i as int) =~= vertices@);
    proof {
        lemma_flattened_len(vertices@);
    }
    out
}

/// One draw of a triangle list: the program to bind first (if any), the vertex
/// array to bind, and the range of vertices to draw.
#[derive(Debug, Clone, Copy, PartialEq, Eq, Structural)]
pub struct DrawCall {
    pub program: Option<u32>,
    pub vao: u32,
    pub first: i32,
    pub count: i32,
}

/// Flat vertex data, the vertex array it is bound to, the program it is drawn
/// with, and the attribute layout of one vertex record (`None` slots are gaps).
#[derive(Debug)]
pub struct Entity<T> {
    pub vertices: Vec<T>,
    pub vao: u32,
    pub shader: Option<ShaderProgram>,
    pub attributes: Option<Vec<Option<VertexAttribute>>>,
}

/// What drawing entity `e` issues, or why its vertex count cannot be drawn.
pub open spec fn draw_of<T>(e: Entity<T>) -> Result<DrawCall, LayoutError> {
    match vertex_count_result(e.vertices@.len() as int, layout_view(e.attributes)) {
        Ok(n) => Ok(
            DrawCall {
                program: match e.shader {
                    Some(s) => Some(s.id),
                    None => None,
                },
                vao: e.vao,
                first: 0,
                count: n,
            },
        ),
        Err(x) => Err(x),
    }
}

/// The pointer bindings an entity's layout needs: none without a layout.
pub open spec fn entity_pointers_result(attrs: Option<Seq<Option<VertexAttribute>>>) -> Result<
    Seq<AttribPointer>,
    LayoutError,
> {
    match attrs {
        Some(s) => pointers_result(s),
        None => Ok(Seq::empty()),
    }
}

impl<T> Entity<T> {
    /// Builds an entity on vertex array `vao` from three-component vertices,
    /// which are stored flattened.
    pub fn new(
        vertices: Vec<[T; 3]>,
        vao: u32,
        shader: Option<ShaderProgram>,
        vertex_attributes: Option<Vec<Option<VertexAttribute>>>,
    ) -> (r: Entity<T>) where T: Copy
        ensures
            r.vertices@ == flattened(vertices@),
            r.vertices@.len() == 3 * vertices@.len(),
            r.vao == vao,
            r.shader == shader,
            r.attributes == vertex_attributes,
    {
        let data = flatten_vertices(&vertices);
        Entity { vertices: data, vao, shader, attributes: vertex_attributes }
    }

    /// The pointer bindings to set up for this entity's buffer, in slot order.
    pub fn attribute_pointers(&self) -> (r: Result<Vec<AttribPointer>, LayoutError>)
        ensures
            match r {
                Ok(v) => entity_pointers_result(layout_view(self.attributes)) == Ok::<
                    Seq<AttribPointer>,
                    LayoutError,
                >(v@),
                Err(e) => entity_pointers_result(layout_view(self.attributes)) == Err::<
                    Seq<AttribPointer>,
                    LayoutError,
                >(e),
            },
    {
        match &self.attributes {
            Some(attrs) => attribute_pointers(attrs),
            None => Ok(Vec::new()),
        }
    }

    /// The draw call for this entity: its program and vertex array, and as many
    /// vertices as its flat data holds records of the layout's component count.
    pub fn draw(&self) -> (r: Result<DrawCall, LayoutError>)
        ensures
            r == draw_of(*self),
    {
        let count = match vertex_count(self.vertices.len(), &self.attributes) {
            Ok(n) => n,
            Err(e) => return Err(e),
        };
        let program = match &self.shader {
            Some(s) => Some(s.id),
            None => None,
        };
        Ok(DrawCall { program, vao: self.vao, first: 0, count })
    }

    /// Makes `shader` the program this entity is drawn with.
    pub fn bind_shader(&mut self, shader: ShaderProgram)
        ensures
            final(self).shader == Some(shader),
            final(self).vertices == old(self).vertices,
            final(self).vao == old(self).vao,
            final(self).attributes == old(self).attributes,
    {
        self.shader = Some(shader);
    }

    /// The layout is fixed once the entity's buffer is bound, so this leaves
    /// the entity as it is.
    pub fn push_vertex_attribute(&mut self, _attribute: VertexAttribute)
        ensures
            *final(self) == *old(self),
    {
    }
}

} // verus!
