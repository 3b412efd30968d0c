use vstd::prelude::*;

verus! {

/// Length of one block edge in fixed-point geometry units. Baked
/// geometry lives in the cube `[0, BLOCK_UNIT]` on each axis; dividing
/// a coordinate by `BLOCK_UNIT` yields the block-local position.
pub const BLOCK_UNIT: i64 = 256;

/// One vertex of baked block geometry: a position inside the unit cube
/// of the block and a texture coordinate, all in fixed-point units.
#[derive(Copy, Clone, PartialEq, Eq, Structural, Debug)]
pub struct BakedBlockMeshVertex {
    pub x: i64,
    pub y: i64,
    pub z: i64,
    pub u: i64,
    pub v: i64,
}

/// The position of a baked vertex stays inside the unit cube of its block.
pub open spec fn baked_vertex_wf(v: BakedBlockMeshVertex) -> bool {
    &&& 0 <= v.x <= BLOCK_UNIT
    &&& 0 <= v.y <= BLOCK_UNIT
    &&& 0 <= v.z <= BLOCK_UNIT
}

/// A quad: four baked vertices in winding order.
#[derive(Copy, Clone, PartialEq, Eq, Structural, Debug)]
pub struct Quad {
    pub a: BakedBlockMeshVertex,
    pub b: BakedBlockMeshVertex,
    pub c: BakedBlockMeshVertex,
    pub d: BakedBlockMeshVertex,
}

pub open spec fn quad_wf(q: Quad) -> bool {
    &&& baked_vertex_wf(q.a)
    &&& baked_vertex_wf(q.b)
    &&& baked_vertex_wf(q.c)
    &&& baked_vertex_wf(q.d)
}

/// The four vertices of a quad, in order.
pub open spec fn quad_vertices(q: Quad) -> Seq<BakedBlockMeshVertex> {
    seq![q.a, q.b, q.c, q.d]
}

/// One of the six axis-aligned directions a face can point in.
#[derive(Copy, Clone, PartialEq, Eq, Structural, Debug)]
pub enum Side {
    PosX,
    PosY,
    PosZ,
    NegX,
    NegY,
    NegZ,
}

/// One face of a baked block model: a quad that is culled when the
/// neighbour on its side is solid.
#[derive(Copy, Clone, PartialEq, Eq, Structural, Debug)]
pub struct BakedFace {
    pub side: Side,
    pub quad: Quad,
}

/// The baked geometry of one block type.
pub struct BlockModel {
    pub faces: Vec<BakedFace>,
}

impl BlockModel {
    pub open spec fn wf(self) -> bool {
        forall|i: int| 0 <= i < self.faces@.len() ==> quad_wf((#[trigger] self.faces@[i]).quad)
    }

    /// The model of a plain full cube: one square face per side, each
    /// culled when the neighbour on that side is solid. The texture
    /// coordinates span the whole unit square on every face.
    pub fn unit_cube() -> (r: BlockModel)
        ensures
            r.wf(),
            r.faces@.len() == 6,
            r.faces@[0].side == Side::PosX,
            r.faces@[1].side == Side::PosY,
            r.faces@[2].side == Side::PosZ,
            r.faces@[3].side == Side::NegX,
            r.faces@[4].side == Side::NegY,
            r.faces@[5].side == Side::NegZ,
    {
        let e = BLOCK_UNIT;
        let mut faces: Vec<BakedFace> = Vec::new();
        faces.push(
            BakedFace {
                side: Side::PosX,
                quad: Quad {
                    a: BakedBlockMeshVertex { x: e, y: 0, z: 0, u: 0, v: 0 },
                    b: BakedBlockMeshVertex { x: e, y: e, z: 0, u: 0, v: e },
                    c: BakedBlockMeshVertex { x: e, y: e, z: e, u: e, v: e },
                    d: BakedBlockMeshVertex { x: e, y: 0, z: e, u: e, v: 0 },
                },
            },
        );
        faces.push(
            BakedFace {
                side: Side::PosY,
                quad: Quad {
                    a: BakedBlockMeshVertex { x: 0, y: e, z: 0, u: 0, v: 0 },
                    b: BakedBlockMeshVertex { x: 0, y: e, z: e, u: 0, v: e },
                    c: BakedBlockMeshVertex { x: e, y: e, z: e, u: e, v: e },
                    d: BakedBlockMeshVertex { x: e, y: e, z: 0, u: e, v: 0 },
                },
            },
        );
        faces.push(
            BakedFace {
                side: Side::PosZ,
                quad: Quad {
                    a: BakedBlockMeshVertex { x: 0, y: 0, z: e, u: 0, v: 0 },
                    b: BakedBlockMeshVertex { x: e, y: 0, z: e, u: e, v: 0 },
                    c: BakedBlockMeshVertex { x: e, y: e, z: e, u: e, v: e },
                    d: BakedBlockMeshVertex { x: 0, y: e, z: e, u: 0, v: e },
                },
            },
        );
        faces.push(
            BakedFace {
                side: Side::NegX,
                quad: Quad {
                    a: BakedBlockMeshVertex { x: 0, y: 0, z: 0, u: 0, v: 0 },
                    b: BakedBlockMeshVertex { x: 0, y: 0, z: e, u: e, v: 0 },
                    c: BakedBlockMeshVertex { x: 0, y: e, z: e, u: e, v: e },
                    d: BakedBlockMeshVertex { x: 0, y: e, z: 0, u: 0, v: e },
                },
            },
        );
        faces.push(
            BakedFace {
                side: Side::NegY,
                quad: Quad {
                    a: BakedBlockMeshVertex { x: 0, y: 0, z: 0, u: 0, v: 0 },
                    b: BakedBlockMeshVertex { x: e, y: 0, z: 0, u: e, v: 0 },
                    c: BakedBlockMeshVertex { x: e, y: 0, z: e, u: e, v: e },
                    d: BakedBlockMeshVertex { x: 0, y: 0, z: e, u: 0, v: e },
                },
            },
        );
        faces.push(
            BakedFace {
                side: Side::NegZ,
                quad: Quad {
                    a: BakedBlockMeshVertex { x: 0, y: 0, z: 0, u: 0, v: 0 },
                    b: BakedBlockMeshVertex { x: 0, y: e, z: 0, u: 0, v: e },
                    c: BakedBlockMeshVertex { x: e, y: e, z: 0, u: e, v: e },
                    d: BakedBlockMeshVertex { x: e, y: 0, z: 0, u: e, v: 0 },
                },
            },
        );
        BlockModel { faces }
    }
}

/// The transient, per-block occlusion record: six booleans saying which
/// axis-aligned neighbour is solid, plus a flag saying whether the
/// record holds any occlusion data at all. Without data, every face is
/// drawn.
#[derive(Copy, Clone, PartialEq, Eq, Structural, Debug)]
pub struct BakeryContext {
    pub occlude_pos_x: bool,
    pub occlude_pos_y: bool,
    pub occlude_pos_z: bool,
    pub occlude_neg_x: bool,
    pub occlude_neg_y: bool,
    pub occlude_neg_z: bool,
    pub has_data: bool,
}

/// True when the occlusion record marks the neighbour on `side` as solid.
pub open spec fn side_occluded(ctx: BakeryContext, side: Side) -> bool {
    match side {
        Side::PosX => ctx.occlude_pos_x,
        Side::PosY => ctx.occlude_pos_y,
        Side::PosZ => ctx.occlude_pos_z,
        Side::NegX => ctx.occlude_neg_x,
        Side::NegY => ctx.occlude_neg_y,
        Side::NegZ => ctx.occlude_neg_z,
    }
}

/// A face is drawn unless the record holds data and marks its side as
/// occluded.
pub open spec fn face_visible(ctx: BakeryContext, side: Side) -> bool {
    !(ctx.has_data && side_occluded(ctx, side))
}

impl BakeryContext {
    /// A fresh record without occlusion data.
    pub fn new() -> (r: BakeryContext)
        ensures
            r == (BakeryContext {
                occlude_pos_x: false,
                occlude_pos_y: false,
                occlude_pos_z: false,
                occlude_neg_x: false,
                occlude_neg_y: false,
                occlude_neg_z: false,
                has_data: false,
            }),
    {
        BakeryContext {
            occlude_pos_x: false,
            occlude_pos_y: false,
            occlude_pos_z: false,
            occlude_neg_x: false,
            occlude_neg_y: false,
            occlude_neg_z: false,
            has_data: false,
        }
    }

    /// Overwrites the whole record with the six neighbour flags.
    pub fn set_occlusion(
        &mut self,
        x_pos: bool,
        y_pos: bool,
        z_pos: bool,
        x_neg: bool,
        y_neg: bool,
        z_neg: bool,
        has_data: bool,
    )
        ensures
            *final(self) == (BakeryContext {
                occlude_pos_x: x_pos,
                occlude_pos_y: y_pos,
                occlude_pos_z: z_pos,
                occlude_neg_x: x_neg,
                occlude_neg_y: y_neg,
                occlude_neg_z: z_neg,
                has_data,
            }),
    {
        self.occlude_pos_x = x_pos;
        self.occlude_pos_y = y_pos;
        self.occlude_pos_z = z_pos;
        self.occlude_neg_x = x_neg;
        self.occlude_neg_y = y_neg;
        self.occlude_neg_z = z_neg;
        self.has_data = has_data;
    }

    /// Whether the neighbour on `side` is marked solid.
    pub fn is_occluded(&self, side: Side) -> (r: bool)
        ensures
            r == side_occluded(*self, side),
    {
        match side {
            Side::PosX => self.occlude_pos_x,
            Side::PosY => self.occlude_pos_y,
            Side::PosZ => self.occlude_pos_z,
            Side::NegX => self.occlude_neg_x,
            Side::NegY => self.occlude_neg_y,
            Side::NegZ => self.occlude_neg_z,
        }
    }
}

/// The vertices emitted for `faces` under occlusion record `ctx`: the
/// quads of the visible faces, four vertices each, in face order.
pub open spec fn rendered_faces(faces: Seq<BakedFace>, ctx: BakeryContext) -> Seq<
    BakedBlockMeshVertex,
>
    decreases faces.len(),
{
    if faces.len() == 0 {
        Seq::empty()
    } else {
        rendered_faces(faces.drop_last(), ctx) + (if face_visible(ctx, faces.last().side) {
            quad_vertices(faces.last().quad)
        } else {
            Seq::empty()
        })
    }
}

/// `faces` with every face pointing in direction `side` removed.
pub open spec fn faces_without_side(faces: Seq<BakedFace>, side: Side) -> Seq<BakedFace>
    decreases faces.len(),
{
    if faces.len() == 0 {
        Seq::empty()
    } else {
        faces_without_side(faces.drop_last(), side) + (if faces.last().side == side {
            Seq::empty()
        } else {
            seq![faces.last()]
        })
    }
}

/// The static block bakery: per-block-type baked face geometry, indexed
/// by the block state's id. A state without a registered model emits no
/// geometry.
pub struct StaticBlockBakery {
    pub models: Vec<BlockModel>,
}

impl StaticBlockBakery {
    pub open spec fn wf(self) -> bool {
        forall|i: int| 0 <= i < self.models@.len() ==> (#[trigger] self.models@[i]).wf()
    }

    /// The faces baked for `state`.
    pub open spec fn spec_model_faces(self, state: crate::registry::BlockState) -> Seq<BakedFace> {
        if state.id < self.models@.len() {
            self.models@[state.id as int].faces@
        } else {
            Seq::empty()
        }
    }

    /// The vertices that `render_block` emits for `state` under `ctx`.
    pub open spec fn spec_render(
        self,
        ctx: BakeryContext,
        state: crate::registry::BlockState,
    ) -> Seq<BakedBlockMeshVertex> {
        rendered_faces(self.spec_model_faces(state), ctx)
    }

    /// A bakery with no models: every block state bakes to nothing.
    pub fn new() -> (r: StaticBlockBakery)
        ensures
            r.wf(),
            r.models@.len() == 0,
    {
        StaticBlockBakery { models: Vec::new() }
    }

    /// Appends the model for the next block id.
    pub fn register_model(&mut self, model: BlockModel)
        requires
            old(self).wf(),
            model.wf(),
        ensures
            final(self).wf(),
            final(self).models@ == old(self).models@.push(model),
    {
        self.models.push(model);
    }

    /// Appends the quads of the visible faces of `state`'s model to
    /// `out`, four vertices per quad, in face order.
    pub fn render_block(
        &self,
        context: &BakeryContext,
        state: &crate::registry::BlockState,
        out: &mut Vec<BakedBlockMeshVertex>,
    )
        ensures
            final(out)@ == old(out)@ + self.spec_render(*context, *state),
    {
        let ghost out0 = out@;
        let id = state.id as usize;
        if id >= self.models.len() {
            proof {
                assert(out@ =~= out0 + self.spec_render(*context, *state));
            }
            return ;
        }
        let model = &self.models[id];
        let ghost faces = model.faces@;
        let n = model.faces.len();
        for i in 0..n
            invariant
                n == faces.len(),
                faces == model.faces@,
                model == &self.models@[id as int],
                id == state.id,
                id < self.models@.len(),
                out@ == out0 + rendered_faces(faces.take(i as int), *context),
        {
            let face = &model.faces[i];
            let visible = if context.has_data {
                !context.is_occluded(face.side)
            } else {
                true
            };
            proof {
                assert(faces.take(i + 1).drop_last() =~= faces.take(i as int));
                assert(faces.take(i + 1).last() == faces[i as int]);
            }
            if visible {
                out.push(face.quad.a);
                out.push(face.quad.b);
                out.push(face.quad.c);
                out.push(face.quad.d);
                proof {
                    assert(out@ =~= out0 + rendered_faces(faces.take(i + 1), *context));
                }
            } else {
                proof {
                    assert(out@ =~= out0 + rendered_faces(faces.take(i + 1), *context));
                }
            }
        }
        proof {
            assert(faces.take(n as int) =~= faces);
        }
    }
}

/// Every visible face contributes four vertices, so the emitted vertex
/// count is a multiple of four.
pub proof fn lemma_rendered_len_mod4(faces: Seq<BakedFace>, ctx: BakeryContext)
    ensures
        rendered_faces(faces, ctx).len() % 4 == 0,
    decreases faces.len(),
{
    if faces.len() > 0 {
        lemma_rendered_len_mod4(faces.drop_last(), ctx);
    }
}

/// When every face of the list is visible under `ctx`, all of them are
/// emitted: four vertices per face.
pub proof fn lemma_rendered_all_visible(faces: Seq<BakedFace>, ctx: BakeryContext)
    requires
        forall|i: int| 0 <= i < faces.len() ==> face_visible(ctx, (#[trigger] faces[i]).side),
    ensures
        rendered_faces(faces, ctx).len() == 4 * faces.len(),
    decreases faces.len(),
{
    if faces.len() > 0 {
        assert(forall|i: int|
            0 <= i < faces.drop_last().len() ==> face_visible(
                ctx,
                (#[trigger] faces.drop_last()[i]).side,
            ));
        lemma_rendered_all_visible(faces.drop_last(), ctx);
    }
}

/// When no face of the list is visible under `ctx`, nothing is emitted.
pub proof fn lemma_rendered_none_visible(faces: Seq<BakedFace>, ctx: BakeryContext)
    requires
        forall|i: int| 0 <= i < faces.len() ==> !face_visible(ctx, (#[trigger] faces[i]).side),
    ensures
        rendered_faces(faces, ctx).len() == 0,
    decreases faces.len(),
{
    if faces.len() > 0 {
        assert(forall|i: int|
            0 <= i < faces.drop_last().len() ==> !face_visible(
                ctx,
                (#[trigger] faces.drop_last()[i]).side,
            ));
        lemma_rendered_none_visible(faces.drop_last(), ctx);
    }
}

/// Faces of well-formed quads emit only vertices inside the unit cube.
pub proof fn lemma_rendered_vertex_wf(faces: Seq<BakedFace>, ctx: BakeryContext)
    requires
        forall|i: int| 0 <= i < faces.len() ==> quad_wf((#[trigger] faces[i]).quad),
    ensures
        forall|j: int|
            0 <= j < rendered_faces(faces, ctx).len() ==> baked_vertex_wf(
                #[trigger] rendered_faces(faces, ctx)[j],
            ),
    decreases faces.len(),
{
    if faces.len() > 0 {
        assert(forall|i: int|
            0 <= i < faces.drop_last().len() ==> quad_wf((#[trigger] faces.drop_last()[i]).quad));
        lemma_rendered_vertex_wf(faces.drop_last(), ctx);
        let pre = rendered_faces(faces.drop_last(), ctx);
        let whole = rendered_faces(faces, ctx);
        assert(faces.last() == faces[faces.len() - 1]);
        assert forall|j: int| 0 <= j < whole.len() implies baked_vertex_wf(whole[j]) by {
            if j < pre.len() {
                assert(whole[j] == pre[j]);
            } else {
                assert(whole[j] == quad_vertices(faces.last().quad)[j - pre.len()]);
            }
        }
    }
}

/// A face whose side is occluded contributes nothing: rendering a face
/// list equals rendering the list with every face on that side removed.
pub proof fn lemma_side_culling(faces: Seq<BakedFace>, ctx: BakeryContext, side: Side)
    requires
        ctx.has_data,
        side_occluded(ctx, side),
    ensures
        rendered_faces(faces, ctx) == rendered_faces(faces_without_side(faces, side), ctx),
    decreases faces.len(),
{
    if faces.len() > 0 {
        lemma_side_culling(faces.drop_last(), ctx, side);
        let rest = faces_without_side(faces.drop_last(), side);
        if faces.last().side == side {
            assert(faces_without_side(faces, side) =~= rest);
        } else {
            assert(faces_without_side(faces, side) =~= rest.push(faces.last()));
            assert(faces_without_side(faces, side).drop_last() =~= rest);
        }
    }
}

} // verus!
