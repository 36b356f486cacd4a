//! Handles of drawable things, and how their vertices are laid out.
//!
//! The handles themselves belong to the graphics library; nothing here looks
//! into them.

use vstd::prelude::*;

verus! {

/// A linked shader program with its uniforms.
#[derive(Clone, Copy, Debug)]
pub struct Program<P, U> {
    pub id: Option<P>,
    pub u_mvp: Option<U>,
    pub u_color: Option<U>,
}

/// The two programs: flat colour and textured.
#[derive(Clone, Copy, Debug)]
pub struct Shaders<P, U> {
    pub color: Program<P, U>,
    pub tex: Program<P, U>,
}

/// A texture, or none.
#[derive(Clone, Copy, Debug)]
pub struct Texture<T> {
    pub id: Option<T>,
}

impl<T> Texture<T> {
    /// No texture.
    pub fn none() -> (t: Texture<T>)
        ensures
            t.id is None,
    {
        Texture { id: None }
    }

    /// Whether there is none.
    pub fn is_none(&self) -> (b: bool)
        ensures
            b == (self.id is None),
    {
        self.id.is_none()
    }
}

/// A vertex attribute: its index and its number of components.
#[derive(Clone, Copy, Debug, PartialEq, Eq, Structural)]
pub struct Attribute {
    pub index: u32,
    pub components: i32,
}

/// Where an attribute lies in a vertex.
#[derive(Clone, Copy, Debug, PartialEq, Eq, Structural)]
pub struct AttributeAt {
    pub index: u32,
    pub components: i32,
    /// Bytes from the start of the vertex.
    pub offset: i32,
}

/// A run of vertices that make one primitive.
#[derive(Clone, Copy, Debug, PartialEq, Eq, Structural)]
pub struct VertexRange {
    pub first: i32,
    pub count: i32,
}

/// Vertices in one buffer, drawn as one or more primitives.
#[derive(Debug)]
pub struct Mesh<B> {
    pub vbo: Option<B>,
    pub ranges: Vec<VertexRange>,
    pub mode: u32,
    pub layout: [Attribute; 2],
    /// Bytes of a vertex.
    pub stride: i32,
}

/// All of `count` vertices.
pub open spec fn whole(count: usize) -> Seq<VertexRange> {
    seq![VertexRange { first: 0, count: count as i32 }]
}

/// Two attributes with that many components each.
pub open spec fn both(components: i32) -> Seq<Attribute> {
    seq![Attribute { index: 0, components }, Attribute { index: 1, components }]
}

impl<B> Mesh<B> {
    /// The attributes fill the vertex.
    pub open spec fn wf(&self) -> bool {
        &&& 0 <= self.layout@[0].components <= 4
        &&& 0 <= self.layout@[1].components <= 4
        &&& self.stride == 4 * (self.layout@[0].components + self.layout@[1].components)
    }

    /// `count` coloured vertices: position and colour, three numbers each.
    pub fn from_color_verts(vbo: Option<B>, count: usize, mode: u32) -> (m: Mesh<B>)
        requires
            count <= i32::MAX,
        ensures
            m.wf(),
            m.vbo == vbo,
            m.ranges@ == whole(count),
            m.mode == mode,
            m.layout@ == both(3),
            m.stride == 24,
    {
        let mut ranges: Vec<VertexRange> = Vec::new();
        ranges.push(VertexRange { first: 0, count: count as i32 });
        assert(ranges@ =~= whole(count));
        Mesh::from_color_verts_ranges(vbo, ranges, mode)
    }

    /// Coloured vertices that make several primitives.
    pub fn from_color_verts_ranges(vbo: Option<B>, ranges: Vec<VertexRange>, mode: u32) -> (m:
        Mesh<B>)
        ensures
            m.wf(),
            m.vbo == vbo,
            m.ranges@ == ranges@,
            m.mode == mode,
            m.layout@ == both(3),
            m.stride == 24,
    {
        let layout: [Attribute; 2] = [
            Attribute { index: 0, components: 3 },
            Attribute { index: 1, components: 3 },
        ];
        assert(layout@ =~= both(3));
        Mesh { vbo, ranges, mode, layout, stride: 24 }
    }

    /// `count` textured vertices: position and texture coordinates, two numbers
    /// each.
    pub fn from_uv_verts(vbo: Option<B>, count: usize, mode: u32) -> (m: Mesh<B>)
        requires
            count <= i32::MAX,
        ensures
            m.wf(),
            m.vbo == vbo,
            m.ranges@ == whole(count),
            m.mode == mode,
            m.layout@ == both(2),
            m.stride == 16,
    {
        let layout: [Attribute; 2] = [
            Attribute { index: 0, components: 2 },
            Attribute { index: 1, components: 2 },
        ];
        assert(layout@ =~= both(2));
        let mut ranges: Vec<VertexRange> = Vec::new();
        ranges.push(VertexRange { first: 0, count: count as i32 });
        assert(ranges@ =~= whole(count));
        Mesh { vbo, ranges, mode, layout, stride: 16 }
    }

    /// The buffer was filled anew with `count` vertices.  Without a buffer
    /// nothing changes.
    pub fn replace_uv_verts(&mut self, count: usize)
        requires
            count <= i32::MAX,
        ensures
            final(self).vbo == old(self).vbo,
            final(self).mode == old(self).mode,
            final(self).layout == old(self).layout,
            final(self).stride == old(self).stride,
            final(self).ranges@ == (if old(self).vbo is Some {
                whole(count)
            } else {
                old(self).ranges@
            }),
    {
        if self.vbo.is_some() {
            self.ranges.clear();
            self.ranges.push(VertexRange { first: 0, count: count as i32 });
            assert(self.ranges@ =~= whole(count));
        }
    }

    /// Where the attributes lie in a vertex: one after the other, four bytes
    /// for each component.
    pub fn attributes(&self) -> (a: [AttributeAt; 2])
        requires
            self.wf(),
        ensures
            a@[0] == (AttributeAt {
                index: self.layout@[0].index,
                components: self.layout@[0].components,
                offset: 0,
            }),
            a@[1] == (AttributeAt {
                index: self.layout@[1].index,
                components: self.layout@[1].components,
                offset: (4 * self.layout@[0].components) as i32,
            }),
            a@[1].offset + 4 * a@[1].components == self.stride,
    {
        let first: Attribute = self.layout[0];
        let second: Attribute = self.layout[1];
        [
            AttributeAt { index: first.index, components: first.components, offset: 0 },
            AttributeAt {
                index: second.index,
                components: second.components,
                offset: 4 * first.components,
            },
        ]
    }
}

} // verus!
