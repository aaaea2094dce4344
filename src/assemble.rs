//! Assembly of one component: object labels, merged buffers, and the
//! configuration chunks that declare them.
use vstd::prelude::*;
use vstd::string::StringExecFns;
use crate::buffers::{
    index_values, law_renumber_adds_offset, le_value,
    lemma_part_lengths,
    blend_part, copy_records, position_part, record_count, renumber_indices, renumbered,
    index_count, split_records, texcoord_part, whole_part, BLEND_END, POSITION_BYTES,
};
use crate::ini::{attr_line, inserted, ChunkView, IniChunk, IniConfig, SlotView};
use crate::model::{file_views, BuildError, Component, ObjectBuffers, OutputFile, TextureSlot};
use crate::text::{concat, decimal, digits, texts};

verus! {

/// A chunk to be put into a slot: the slot's name and the chunk.
pub type Entry = (Seq<char>, ChunkView);

/// The slots after each entry has been inserted, in order.
pub open spec fn insert_all(slots: Seq<SlotView>, entries: Seq<Entry>) -> Seq<SlotView>
    decreases entries.len(),
{
    if entries.len() == 0 {
        slots
    } else {
        let e = entries.last();
        inserted(insert_all(slots, entries.drop_last()), e.0, e.1)
    }
}

pub(crate) proof fn lemma_insert_all_append(slots: Seq<SlotView>, a: Seq<Entry>, b: Seq<Entry>)
    ensures
        insert_all(slots, a + b) == insert_all(insert_all(slots, a), b),
    decreases b.len(),
{
    if b.len() == 0 {
        assert(a + b =~= a);
    } else {
        assert((a + b).drop_last() =~= a + b.drop_last());
        lemma_insert_all_append(slots, a, b.drop_last());
    }
}

/// Inserts a chunk and records the insertion.
fn put(config: &mut IniConfig, slot: &str, chunk: IniChunk, base: Ghost<Seq<SlotView>>, entries: Ghost<Seq<Entry>>)
    requires
        old(config)@ == insert_all(base@, entries@),
    ensures
        final(config)@ == insert_all(base@, entries@.push((slot@, chunk@))),
{
    let ghost c = chunk@;
    config.insert(slot, chunk);
    assert(entries@.push((slot@, c)).drop_last() =~= entries@);
}

/// The labels used when a component names none.
pub open spec fn default_classes() -> Seq<Seq<char>> {
    seq!["Head"@, "Body"@, "Extra"@]
}

/// The labels of a component's objects.
pub open spec fn classes_of(c: Component) -> Seq<Seq<char>> {
    match c.object_classifications {
        Some(v) => texts(v@),
        None => default_classes(),
    }
}

/// The component's own name, empty when it has none.
pub open spec fn name_of(c: Component) -> Seq<char> {
    match c.component_name {
        Some(n) => n@,
        None => Seq::empty(),
    }
}

/// The label of object `i`: the `i`-th label while there is one, then the
/// last label followed by a number that counts on from 2.
pub open spec fn label_of(classes: Seq<Seq<char>>, i: nat) -> Seq<char> {
    if i < classes.len() {
        classes[i as int]
    } else {
        classes.last() + digits((i + 2 - classes.len()) as nat, false)
    }
}

/// The name shared by a component's files: the mod's name then the
/// component's.
pub open spec fn prefix_of(mod_name: Seq<char>, c: Component) -> Seq<char> {
    mod_name + name_of(c)
}

/// The file name (without extension) of object `i`.
pub open spec fn object_file(mod_name: Seq<char>, c: Component, i: nat) -> Seq<char> {
    prefix_of(mod_name, c) + label_of(classes_of(c), i)
}

/// The labels of a component's objects, the default ones when it names none.
pub fn classifications(c: &Component) -> (r: Vec<String>)
    ensures
        texts(r@) == classes_of(*c),
{
    match &c.object_classifications {
        Some(v) => v.clone(),
        None => {
            let mut r: Vec<String> = Vec::new();
            r.push(String::from_str("Head"));
            r.push(String::from_str("Body"));
            r.push(String::from_str("Extra"));
            assert(texts(r@) =~= default_classes());
            r
        },
    }
}

/// The component's own name, empty when it has none.
pub fn component_name(c: &Component) -> (r: String)
    ensures
        r@ == name_of(*c),
{
    match &c.component_name {
        Some(n) => n.clone(),
        None => String::new(),
    }
}

/// The label of object `i` among `classes`.
pub fn object_label(classes: &Vec<String>, i: usize) -> (r: String)
    requires
        classes.len() > 0,
        i < usize::MAX - 2,
    ensures
        r@ == label_of(texts(classes@), i as nat),
{
    if i < classes.len() {
        classes[i].clone()
    } else {
        let n = decimal(i + 2 - classes.len());
        concat(classes[classes.len() - 1].as_str(), n.as_str())
    }
}

/// What a texture slot holds.
pub struct TextureView {
    pub label: Seq<char>,
    pub extension: Seq<char>,
    pub hash: Seq<char>,
}

pub open spec fn texture_view(t: TextureSlot) -> TextureView {
    TextureView { label: t.label@, extension: t.extension@, hash: t.hash@ }
}

pub open spec fn texture_views(v: Seq<TextureSlot>) -> Seq<TextureView> {
    v.map_values(|t: TextureSlot| texture_view(t))
}

/// The texture slots of an object whose component lists none.
pub open spec fn default_textures() -> Seq<TextureView> {
    seq![
        TextureView { label: "Diffuse"@, extension: ".dds"@, hash: "_"@ },
        TextureView { label: "LightMap"@, extension: ".dds"@, hash: "_"@ },
    ]
}

/// Whether a component is the face, which is matched on its diffuse texture.
pub open spec fn is_face(c: Component) -> bool {
    name_of(c) == "Face"@
}

/// The texture slots listed for object `i`.
pub open spec fn listed_textures(c: Component, i: int) -> Seq<TextureView> {
    match c.texture_hashes {
        Some(v) => texture_views(v@[i]@),
        None => default_textures(),
    }
}

/// The texture slots used for object `i`: the face keeps its first only.
pub open spec fn textures_of(c: Component, i: int) -> Seq<TextureView> {
    if is_face(c) {
        listed_textures(c, i).take(1)
    } else {
        listed_textures(c, i)
    }
}

/// Whether a component's metadata can describe its objects: it has at least
/// one label, a texture list for every object, and a face has a texture
/// for every object.
pub open spec fn metadata_ok(c: Component) -> bool {
    &&& classes_of(c).len() > 0
    &&& c.object_indexes.len() < usize::MAX - 2
    &&& match c.texture_hashes {
        Some(v) => v.len() >= c.object_indexes.len(),
        None => true,
    }
    &&& is_face(c) ==> forall|i: int|
        0 <= i < c.object_indexes.len() ==> #[trigger] listed_textures(c, i).len() > 0
}

/// Whether a texture is dropped: the ramp-like slots when ramps are suppressed.
pub open spec fn is_ramp(label: Seq<char>) -> bool {
    label == "ShadowRamp"@ || label == "MetalMap"@ || label == "DiffuseGuide"@
}

pub open spec fn texture_kept(no_ramps: bool, t: TextureView) -> bool {
    !(no_ramps && is_ramp(t.label))
}

/// The resource that names a texture's file.
pub open spec fn texture_resource(file: Seq<char>, t: TextureView) -> ChunkView {
    ChunkView {
        name: "Resource"@ + file + t.label,
        attrs: seq![attr_line("filename"@, "./assets/"@ + file + t.label + t.extension)],
    }
}

/// The lines that bind the kept textures among the first `n` slots, each to
/// its shader slot `ps-t<j>`, `j` counted over all slots.
pub open spec fn bind_lines(file: Seq<char>, texs: Seq<TextureView>, no_ramps: bool, n: nat) -> Seq<Seq<char>>
    decreases n,
{
    if n == 0 {
        Seq::empty()
    } else {
        let t = texs[n - 1];
        let prev = bind_lines(file, texs, no_ramps, (n - 1) as nat);
        if texture_kept(no_ramps, t) {
            prev.push(attr_line("ps-t"@ + digits((n - 1) as nat, false), "Resource"@ + file + t.label))
        } else {
            prev
        }
    }
}

/// The texture resources of the kept textures among the first `n` slots.
pub open spec fn texture_entries(file: Seq<char>, texs: Seq<TextureView>, no_ramps: bool, n: nat) -> Seq<Entry>
    decreases n,
{
    if n == 0 {
        Seq::empty()
    } else {
        let t = texs[n - 1];
        let prev = texture_entries(file, texs, no_ramps, (n - 1) as nat);
        if texture_kept(no_ramps, t) {
            prev.push(("tex_res"@, texture_resource(file, t)))
        } else {
            prev
        }
    }
}

/// The file names of the kept textures among the first `n` slots.
pub open spec fn texture_files(file: Seq<char>, texs: Seq<TextureView>, no_ramps: bool, n: nat) -> Seq<Seq<char>>
    decreases n,
{
    if n == 0 {
        Seq::empty()
    } else {
        let t = texs[n - 1];
        let prev = texture_files(file, texs, no_ramps, (n - 1) as nat);
        if texture_kept(no_ramps, t) {
            prev.push(file + t.label + t.extension)
        } else {
            prev
        }
    }
}

fn is_ramp_label(label: &String) -> (r: bool)
    ensures
        r == is_ramp(label@),
{
    let a = String::from_str("ShadowRamp");
    let b = String::from_str("MetalMap");
    let c = String::from_str("DiffuseGuide");
    *label == a || *label == b || *label == c
}

/// Declares the kept textures of `texs` for the object whose files are named
/// `file`: each gets a resource chunk and a binding line in `over`, and its
/// file name is recorded.
fn texture_pass(
    config: &mut IniConfig,
    file: &String,
    texs: &Vec<TextureSlot>,
    count: usize,
    no_ramps: bool,
    over: IniChunk,
    files: &mut Vec<String>,
    base: Ghost<Seq<SlotView>>,
    entries: Ghost<Seq<Entry>>,
) -> (r: IniChunk)
    requires
        old(config)@ == insert_all(base@, entries@),
        count <= texs.len(),
    ensures
        r@ == (ChunkView {
            name: over@.name,
            attrs: over@.attrs + bind_lines(file@, texture_views(texs@), no_ramps, count as nat),
        }),
        final(config)@ == insert_all(
            base@,
            entries@ + texture_entries(file@, texture_views(texs@), no_ramps, count as nat),
        ),
        texts(final(files)@) == texts(old(files)@) + texture_files(
            file@,
            texture_views(texs@),
            no_ramps,
            count as nat,
        ),
{
    let ghost tv = texture_views(texs@);
    let mut over = over;
    let ghost over0 = over@;
    let mut j: usize = 0;
    while j < count
        invariant
            j <= count <= texs.len(),
            tv == texture_views(texs@),
            over@ == (ChunkView { name: over0.name, attrs: over0.attrs + bind_lines(file@, tv, no_ramps, j as nat) }),
            config@ == insert_all(base@, entries@ + texture_entries(file@, tv, no_ramps, j as nat)),
            texts(files@) == texts(old(files)@) + texture_files(file@, tv, no_ramps, j as nat),
        decreases count - j,
    {
        let t = &texs[j];
        let ghost t_view = tv[j as int];
        assert(texture_view(*t) == t_view);
        let ramp = is_ramp_label(&t.label);
        if !(no_ramps && ramp) {
            let res_name = concat(concat("Resource", file.as_str()).as_str(), t.label.as_str());
            let slot_name = concat("ps-t", decimal(j).as_str());
            let ghost before = over@;
            over = over.attr(slot_name.as_str(), res_name.as_str());
            let full = concat(concat(file.as_str(), t.label.as_str()).as_str(), t.extension.as_str());
            let path = concat("./assets/", full.as_str());
            let res = IniChunk::new(res_name.as_str()).attr("filename", path.as_str());
            proof {
                assert(path@ =~= "./assets/"@ + file@ + t_view.label + t_view.extension);
                assert(res@ == texture_resource(file@, t_view)) by {
                    assert(res@.attrs =~= seq![attr_line("filename"@, "./assets/"@ + file@ + t_view.label + t_view.extension)]);
                    assert(res@.name =~= "Resource"@ + file@ + t_view.label);
                }
                assert(over@.attrs =~= over0.attrs + bind_lines(file@, tv, no_ramps, (j + 1) as nat));
                assert(entries@ + texture_entries(file@, tv, no_ramps, (j + 1) as nat)
                    =~= (entries@ + texture_entries(file@, tv, no_ramps, j as nat)).push(("tex_res"@, res@)));
            }
            put(config, "tex_res", res, base, Ghost(entries@ + texture_entries(file@, tv, no_ramps, j as nat)));
            let ghost files_before = files@;
            files.push(full);
            assert(texts(files@) =~= texts(files_before).push(full@));
        }
        j = j + 1;
    }
    over
}

/// How many of an object's texture slots are used: the face keeps its first.
pub open spec fn texture_count(c: Component, i: int) -> nat {
    if is_face(c) { 1 } else { listed_textures(c, i).len() }
}

/// The resource that names an object's index file.
pub open spec fn ib_resource(file: Seq<char>) -> ChunkView {
    ChunkView {
        name: "Resource"@ + file + "IB"@,
        attrs: seq![
            attr_line("type"@, "Buffer"@),
            attr_line("format"@, "DXGI_FORMAT_R32_UINT"@),
            attr_line("filename"@, "./vertex/"@ + file + ".ib"@),
        ],
    }
}

/// The override that matches an object by the component's index buffer and
/// its first index, and binds its own index file (`null` when it is empty).
pub open spec fn object_override(file: Seq<char>, c: Component, i: int, ib_empty: bool) -> ChunkView {
    ChunkView {
        name: "TextureOverride"@ + file,
        attrs: seq![
            attr_line("hash"@, c.ib@),
            attr_line("match_first_index"@, digits(c.object_indexes@[i] as nat, false)),
            attr_line("ib"@, if ib_empty { "null"@ } else { "Resource"@ + file + "IB"@ }),
        ],
    }
}

/// The override that matches the face by its diffuse texture.
pub open spec fn face_override(file: Seq<char>, t: TextureView) -> ChunkView {
    ChunkView { name: "TextureOverride"@ + file + t.label, attrs: seq![attr_line("hash"@, t.hash)] }
}

/// The chunks of object `i` of a component with vertex buffers.
pub open spec fn object_entries(file: Seq<char>, c: Component, i: int, ib_empty: bool, no_ramps: bool) -> Seq<Entry> {
    let texs = listed_textures(c, i);
    let n = texture_count(c, i);
    let plain = object_override(file, c, i, ib_empty);
    let base = if is_face(c) { face_override(file, texs[0]) } else { plain };
    let bound = ChunkView { name: base.name, attrs: base.attrs + bind_lines(file, texs, no_ramps, n) };
    seq![("ib_res"@, ib_resource(file))]
        + (if is_face(c) { seq![("ib_override"@, plain)] } else { Seq::empty() })
        + texture_entries(file, texs, no_ramps, n)
        + seq![("ib_override"@, bound)]
}

/// The override that skips the component's own draw call.
pub open spec fn ib_header(prefix: Seq<char>, c: Component) -> ChunkView {
    ChunkView {
        name: "TextureOverride"@ + prefix + "IB"@,
        attrs: seq![
            attr_line("hash"@, c.ib@),
            attr_line("handling"@, "skip"@),
            attr_line("drawindexed"@, "auto"@),
        ],
    }
}

/// Vertex records of the first `n` objects.
pub open spec fn records_before(objs: Seq<ObjectBuffers>, stride: nat, n: int) -> nat
    decreases n,
{
    if n <= 0 {
        0
    } else {
        records_before(objs, stride, n - 1) + record_count(objs[n - 1].vb@.len(), stride)
    }
}

/// The index stream of object `i`, renumbered past the vertices of the
/// objects before it.
pub open spec fn object_indices(objs: Seq<ObjectBuffers>, stride: nat, i: int) -> Seq<u8> {
    renumbered(objs[i].ib@, records_before(objs, stride, i), index_count(objs[i].ib@.len()))
}

/// The position stream (or the whole records, without a split) of the first
/// `n` objects, one after another.
pub open spec fn merged_position(objs: Seq<ObjectBuffers>, stride: nat, split: bool, n: int) -> Seq<u8>
    decreases n,
{
    if n <= 0 {
        Seq::empty()
    } else {
        merged_position(objs, stride, split, n - 1) + if split {
            position_part(objs[n - 1].vb@, stride)
        } else {
            whole_part(objs[n - 1].vb@, stride)
        }
    }
}

/// The blend stream of the first `n` objects.
pub open spec fn merged_blend(objs: Seq<ObjectBuffers>, stride: nat, n: int) -> Seq<u8>
    decreases n,
{
    if n <= 0 {
        Seq::empty()
    } else {
        merged_blend(objs, stride, n - 1) + blend_part(objs[n - 1].vb@, stride)
    }
}

/// The texcoord stream of the first `n` objects.
pub open spec fn merged_texcoord(objs: Seq<ObjectBuffers>, stride: nat, n: int) -> Seq<u8>
    decreases n,
{
    if n <= 0 {
        Seq::empty()
    } else {
        merged_texcoord(objs, stride, n - 1) + texcoord_part(objs[n - 1].vb@, stride)
    }
}

/// The chunks of the first `n` objects.
pub open spec fn objects_entries(mod_name: Seq<char>, c: Component, objs: Seq<ObjectBuffers>, stride: nat, no_ramps: bool, n: int) -> Seq<Entry>
    decreases n,
{
    if n <= 0 {
        Seq::empty()
    } else {
        objects_entries(mod_name, c, objs, stride, no_ramps, n - 1) + object_entries(
            object_file(mod_name, c, (n - 1) as nat),
            c,
            n - 1,
            index_count(objs[n - 1].ib@.len()) == 0,
            no_ramps,
        )
    }
}

/// The index files of the first `n` objects.
pub open spec fn objects_files(mod_name: Seq<char>, c: Component, objs: Seq<ObjectBuffers>, stride: nat, n: int) -> Seq<(Seq<char>, Seq<u8>)>
    decreases n,
{
    if n <= 0 {
        Seq::empty()
    } else {
        objects_files(mod_name, c, objs, stride, n - 1).push(
            ("vertex/"@ + object_file(mod_name, c, (n - 1) as nat) + ".ib"@, object_indices(objs, stride, n - 1)),
        )
    }
}

/// The texture files that the first `n` objects use.
pub open spec fn objects_textures(mod_name: Seq<char>, c: Component, no_ramps: bool, n: int) -> Seq<Seq<char>>
    decreases n,
{
    if n <= 0 {
        Seq::empty()
    } else {
        objects_textures(mod_name, c, no_ramps, n - 1) + texture_files(
            object_file(mod_name, c, (n - 1) as nat),
            listed_textures(c, n - 1),
            no_ramps,
            texture_count(c, n - 1),
        )
    }
}

fn is_face_component(c: &Component) -> (r: bool)
    ensures
        r == is_face(*c),
{
    component_name(c) == String::from_str("Face")
}

/// The texture slots of an object whose component lists none.
pub fn default_texture_slots() -> (r: Vec<TextureSlot>)
    ensures
        texture_views(r@) == default_textures(),
{
    let mut r: Vec<TextureSlot> = Vec::new();
    r.push(TextureSlot {
        label: String::from_str("Diffuse"),
        extension: String::from_str(".dds"),
        hash: String::from_str("_"),
    });
    r.push(TextureSlot {
        label: String::from_str("LightMap"),
        extension: String::from_str(".dds"),
        hash: String::from_str("_"),
    });
    assert(texture_views(r@) =~= default_textures());
    r
}

fn object_pass(
    config: &mut IniConfig,
    file: &String,
    c: &Component,
    i: usize,
    ib_empty: bool,
    no_ramps: bool,
    defaults: &Vec<TextureSlot>,
    copies: &mut Vec<String>,
    base: Ghost<Seq<SlotView>>,
    entries: Ghost<Seq<Entry>>,
)
    requires
        metadata_ok(*c),
        i < c.object_indexes.len(),
        texture_views(defaults@) == default_textures(),
        old(config)@ == insert_all(base@, entries@),
    ensures
        final(config)@ == insert_all(base@, entries@ + object_entries(file@, *c, i as int, ib_empty, no_ramps)),
        texts(final(copies)@) == texts(old(copies)@) + texture_files(
            file@,
            listed_textures(*c, i as int),
            no_ramps,
            texture_count(*c, i as int),
        ),
{
    let texs: &Vec<TextureSlot> = match &c.texture_hashes {
        Some(v) => &v[i],
        None => defaults,
    };
    assert(texture_views(texs@) == listed_textures(*c, i as int));
    let face = is_face_component(c);
    assert(face ==> listed_textures(*c, i as int).len() > 0);
    let count: usize = if face { 1 } else { texs.len() };
    let res_ib = concat(concat("Resource", file.as_str()).as_str(), "IB");
    let ib_value = if ib_empty { String::from_str("null") } else { res_ib.clone() };
    let plain = IniChunk::new(concat("TextureOverride", file.as_str()).as_str())
        .attr("hash", c.ib.as_str())
        .attr("match_first_index", decimal(c.object_indexes[i]).as_str())
        .attr("ib", ib_value.as_str());
    let vertex_path = concat(concat("./vertex/", file.as_str()).as_str(), ".ib");
    let res = IniChunk::new(res_ib.as_str())
        .attr("type", "Buffer")
        .attr("format", "DXGI_FORMAT_R32_UINT")
        .attr("filename", vertex_path.as_str());
    proof {
        assert(plain@.attrs =~= object_override(file@, *c, i as int, ib_empty).attrs);
        assert(res@.attrs =~= ib_resource(file@).attrs);
    }
    let ghost e1 = entries@.push(("ib_res"@, res@));
    put(config, "ib_res", res, base, entries);
    let ghost e2 = if face { e1.push(("ib_override"@, plain@)) } else { e1 };
    let over = if face {
        put(config, "ib_override", plain, base, Ghost(e1));
        let t = &texs[0];
        let name = concat(concat("TextureOverride", file.as_str()).as_str(), t.label.as_str());
        let f = IniChunk::new(name.as_str()).attr("hash", t.hash.as_str());
        proof {
            assert(texture_view(*t) == listed_textures(*c, i as int)[0]);
            assert(f@ =~= face_override(file@, listed_textures(*c, i as int)[0]));
        }
        f
    } else {
        plain
    };
    let ghost tv = texture_views(texs@);
    let over = texture_pass(config, file, texs, count, no_ramps, over, copies, base, Ghost(e2));
    let ghost e3 = e2 + texture_entries(file@, tv, no_ramps, count as nat);
    put(config, "ib_override", over, base, Ghost(e3));
    proof {
        let oe = object_entries(file@, *c, i as int, ib_empty, no_ramps);
        assert(e3.push(("ib_override"@, over@)) =~= entries@ + oe);
    }
}

/// Whether a component's vertex records are split into position, blend and
/// texcoord streams.
pub open spec fn splits(c: Component) -> bool {
    c.blend_vb@.len() > 0
}

/// The chunk with the line `$active = 1` added when building a packaged
/// variant.
pub open spec fn activated(chunk: ChunkView, packaged: bool) -> ChunkView {
    if packaged {
        ChunkView { name: chunk.name, attrs: chunk.attrs.push(attr_line("$active"@, "1"@)) }
    } else {
        chunk
    }
}

/// The resource that names a merged vertex buffer file.
pub open spec fn buffer_resource(name: Seq<char>, stride_text: Seq<char>) -> ChunkView {
    ChunkView {
        name: "Resource"@ + name,
        attrs: seq![
            attr_line("type"@, "Buffer"@),
            attr_line("stride"@, stride_text),
            attr_line("filename"@, "./vertex/"@ + name + ".buf"@),
        ],
    }
}

/// The vertex buffer chunks of a split component.
pub open spec fn split_tail(p: Seq<char>, c: Component, stride: nat, records: nat, packaged: bool) -> Seq<Entry> {
    seq![
        ("vb_override"@, activated(ChunkView {
            name: "TextureOverride"@ + p + "Position"@,
            attrs: seq![attr_line("hash"@, c.position_vb@), attr_line("vb0"@, "Resource"@ + p + "Position"@)],
        }, packaged)),
        ("vb_override"@, ChunkView {
            name: "TextureOverride"@ + p + "Blend"@,
            attrs: seq![
                attr_line("hash"@, c.blend_vb@),
                attr_line("vb1"@, "Resource"@ + p + "Blend"@),
                attr_line("handling"@, "skip"@),
                attr_line("draw"@, digits(records, false) + ", 0"@),
            ],
        }),
        ("vb_override"@, ChunkView {
            name: "TextureOverride"@ + p + "Texcoord"@,
            attrs: seq![attr_line("hash"@, c.texcoord_vb@), attr_line("vb1"@, "Resource"@ + p + "Texcoord"@)],
        }),
        ("vb_override"@, ChunkView {
            name: "TextureOverride"@ + p + "VertexLimitRaise"@,
            attrs: seq![attr_line("hash"@, c.draw_vb@)],
        }),
        ("vb_res"@, buffer_resource(p + "Position"@, "40"@)),
        ("vb_res"@, buffer_resource(p + "Blend"@, "32"@)),
        ("vb_res"@, buffer_resource(p + "Texcoord"@, digits((stride - 72) as nat, false))),
    ]
}

/// The vertex buffer chunks of a component whose records stay whole.
pub open spec fn single_tail(p: Seq<char>, c: Component, stride: nat, packaged: bool) -> Seq<Entry> {
    seq![
        ("vb_override"@, activated(ChunkView {
            name: "TextureOverride"@ + p,
            attrs: seq![attr_line("hash"@, c.draw_vb@), attr_line("vb0"@, "Resource"@ + p)],
        }, packaged)),
        ("vb_res"@, buffer_resource(p, digits(stride, false))),
    ]
}

/// All chunks of a component with vertex buffers.
pub open spec fn draw_entries(m: Seq<char>, c: Component, objs: Seq<ObjectBuffers>, stride: nat, no_ramps: bool, packaged: bool) -> Seq<Entry> {
    let n = c.object_indexes.len() as int;
    let p = prefix_of(m, c);
    seq![("ib_override"@, ib_header(p, c))] + objects_entries(m, c, objs, stride, no_ramps, n) + if splits(c) {
        split_tail(p, c, stride, records_before(objs, stride, n), packaged)
    } else {
        single_tail(p, c, stride, packaged)
    }
}

/// All files of a component with vertex buffers: each object's index file,
/// then the merged vertex streams.
pub open spec fn draw_files(m: Seq<char>, c: Component, objs: Seq<ObjectBuffers>, stride: nat) -> Seq<(Seq<char>, Seq<u8>)> {
    let n = c.object_indexes.len() as int;
    let p = prefix_of(m, c);
    objects_files(m, c, objs, stride, n) + if splits(c) {
        seq![
            ("vertex/"@ + p + "Position.buf"@, merged_position(objs, stride, true, n)),
            ("vertex/"@ + p + "Blend.buf"@, merged_blend(objs, stride, n)),
            ("vertex/"@ + p + "Texcoord.buf"@, merged_texcoord(objs, stride, n)),
        ]
    } else {
        seq![("vertex/"@ + p + ".buf"@, merged_position(objs, stride, false, n))]
    }
}

fn output_file(prefix: &String, suffix: &str, bytes: Vec<u8>) -> (r: OutputFile)
    ensures
        r.path@ == "vertex/"@ + prefix@ + suffix@,
        r.bytes@ == bytes@,
{
    OutputFile { path: concat(concat("vertex/", prefix.as_str()).as_str(), suffix), bytes }
}

fn activate(chunk: IniChunk, packaged: bool) -> (r: IniChunk)
    ensures
        r@ == activated(chunk@, packaged),
{
    if packaged { chunk.attr("$active", "1") } else { chunk }
}

fn buffer_resource_chunk(name: &String, stride_text: &str) -> (r: IniChunk)
    ensures
        r@ == buffer_resource(name@, stride_text@),
{
    let path = concat(concat("./vertex/", name.as_str()).as_str(), ".buf");
    let r = IniChunk::new(concat("Resource", name.as_str()).as_str())
        .attr("type", "Buffer")
        .attr("stride", stride_text)
        .attr("filename", path.as_str());
    assert(r@.attrs =~= buffer_resource(name@, stride_text@).attrs);
    r
}

fn split_tail_pass(
    config: &mut IniConfig,
    p: &String,
    c: &Component,
    stride: usize,
    records: usize,
    packaged: bool,
    base: Ghost<Seq<SlotView>>,
    entries: Ghost<Seq<Entry>>,
)
    requires
        stride >= 72,
        old(config)@ == insert_all(base@, entries@),
    ensures
        final(config)@ == insert_all(base@, entries@ + split_tail(p@, *c, stride as nat, records as nat, packaged)),
{
    let tail = Ghost(split_tail(p@, *c, stride as nat, records as nat, packaged));
    let pos = IniChunk::new(concat(concat("TextureOverride", p.as_str()).as_str(), "Position").as_str())
        .attr("hash", c.position_vb.as_str())
        .attr("vb0", concat(concat("Resource", p.as_str()).as_str(), "Position").as_str());
    assert(pos@.attrs =~= seq![attr_line("hash"@, c.position_vb@), attr_line("vb0"@, "Resource"@ + p@ + "Position"@)]);
    let pos = activate(pos, packaged);
    put(config, "vb_override", pos, base, entries);
    assert(entries@.push(tail@[0]) =~= entries@ + tail@.take(1));
    let draw = concat(decimal(records).as_str(), ", 0");
    let blend = IniChunk::new(concat(concat("TextureOverride", p.as_str()).as_str(), "Blend").as_str())
        .attr("hash", c.blend_vb.as_str())
        .attr("vb1", concat(concat("Resource", p.as_str()).as_str(), "Blend").as_str())
        .attr("handling", "skip")
        .attr("draw", draw.as_str());
    assert(blend@.attrs =~= tail@[1].1.attrs);
    put(config, "vb_override", blend, base, Ghost(entries@ + tail@.take(1)));
    let tex = IniChunk::new(concat(concat("TextureOverride", p.as_str()).as_str(), "Texcoord").as_str())
        .attr("hash", c.texcoord_vb.as_str())
        .attr("vb1", concat(concat("Resource", p.as_str()).as_str(), "Texcoord").as_str());
    assert(tex@.attrs =~= tail@[2].1.attrs);
    assert((entries@ + tail@.take(1)).push(tail@[1]) =~= entries@ + tail@.take(2));
    put(config, "vb_override", tex, base, Ghost(entries@ + tail@.take(2)));
    let raise = IniChunk::new(concat(concat("TextureOverride", p.as_str()).as_str(), "VertexLimitRaise").as_str())
        .attr("hash", c.draw_vb.as_str());
    assert(raise@.attrs =~= tail@[3].1.attrs);
    assert((entries@ + tail@.take(2)).push(tail@[2]) =~= entries@ + tail@.take(3));
    put(config, "vb_override", raise, base, Ghost(entries@ + tail@.take(3)));
    let pos_res = buffer_resource_chunk(&concat(p.as_str(), "Position"), "40");
    assert((entries@ + tail@.take(3)).push(tail@[3]) =~= entries@ + tail@.take(4));
    put(config, "vb_res", pos_res, base, Ghost(entries@ + tail@.take(4)));
    let blend_res = buffer_resource_chunk(&concat(p.as_str(), "Blend"), "32");
    assert((entries@ + tail@.take(4)).push(tail@[4]) =~= entries@ + tail@.take(5));
    put(config, "vb_res", blend_res, base, Ghost(entries@ + tail@.take(5)));
    let tex_stride = decimal(stride - BLEND_END);
    let tex_res = buffer_resource_chunk(&concat(p.as_str(), "Texcoord"), tex_stride.as_str());
    assert((entries@ + tail@.take(5)).push(tail@[5]) =~= entries@ + tail@.take(6));
    put(config, "vb_res", tex_res, base, Ghost(entries@ + tail@.take(6)));
    assert((entries@ + tail@.take(6)).push(tail@[6]) =~= entries@ + tail@);
}

fn single_tail_pass(
    config: &mut IniConfig,
    p: &String,
    c: &Component,
    stride: usize,
    packaged: bool,
    base: Ghost<Seq<SlotView>>,
    entries: Ghost<Seq<Entry>>,
)
    requires
        old(config)@ == insert_all(base@, entries@),
    ensures
        final(config)@ == insert_all(base@, entries@ + single_tail(p@, *c, stride as nat, packaged)),
{
    let tail = Ghost(single_tail(p@, *c, stride as nat, packaged));
    let over = IniChunk::new(concat("TextureOverride", p.as_str()).as_str())
        .attr("hash", c.draw_vb.as_str())
        .attr("vb0", concat("Resource", p.as_str()).as_str());
    assert(over@.attrs =~= seq![attr_line("hash"@, c.draw_vb@), attr_line("vb0"@, "Resource"@ + p@)]);
    let over = activate(over, packaged);
    put(config, "vb_override", over, base, entries);
    let res = buffer_resource_chunk(p, decimal(stride).as_str());
    assert(entries@.push(tail@[0]) =~= entries@ + tail@.take(1));
    put(config, "vb_res", res, base, Ghost(entries@ + tail@.take(1)));
    assert((entries@ + tail@.take(1)).push(tail@[1]) =~= entries@ + tail@);
}

proof fn lemma_merged_length(objs: Seq<ObjectBuffers>, stride: nat, split: bool, n: int)
    requires
        0 <= n <= objs.len(),
        stride > 0,
        split ==> stride >= 72,
    ensures
        merged_position(objs, stride, split, n).len() == (if split { 40 } else { stride })
            * records_before(objs, stride, n),
    decreases n,
{
    if n > 0 {
        lemma_merged_length(objs, stride, split, n - 1);
        lemma_part_lengths(objs[n - 1].vb@, stride);
        let per: int = if split { 40 } else { stride as int };
        let a = records_before(objs, stride, n - 1);
        let b = record_count(objs[n - 1].vb@.len(), stride);
        assert(per * (a + b) == per * a + per * b) by (nonlinear_arith);
        assert(b * stride == stride * b) by (nonlinear_arith);
    } else {
        let per: int = if split { 40 } else { stride as int };
        assert(per * 0 == 0);
    }
}

/// Assembles a component that has vertex buffers: merges its objects'
/// vertex records, renumbers their index records, and declares both.
fn assemble_draw(
    config: &mut IniConfig,
    mod_name: &str,
    c: &Component,
    stride: usize,
    objs: &Vec<ObjectBuffers>,
    no_ramps: bool,
    packaged: bool,
    copies: &mut Vec<String>,
    base: Ghost<Seq<SlotView>>,
    entries: Ghost<Seq<Entry>>,
) -> (r: Vec<OutputFile>)
    requires
        metadata_ok(*c),
        objs.len() == c.object_indexes.len(),
        stride > 0,
        splits(*c) ==> stride >= 72,
        old(config)@ == insert_all(base@, entries@),
    ensures
        file_views(r@) == draw_files(mod_name@, *c, objs@, stride as nat),
        final(config)@ == insert_all(
            base@,
            entries@ + draw_entries(mod_name@, *c, objs@, stride as nat, no_ramps, packaged),
        ),
        texts(final(copies)@) == texts(old(copies)@) + objects_textures(
            mod_name@,
            *c,
            no_ramps,
            c.object_indexes.len() as int,
        ),
{
    let ghost m = mod_name@;
    let ghost st = stride as nat;
    let classes = classifications(c);
    let name = component_name(c);
    let prefix = concat(mod_name, name.as_str());
    let defaults = default_texture_slots();
    let split = !c.blend_vb.as_str().is_empty();
    assert(split == splits(*c));
    let per: usize = if split { POSITION_BYTES } else { stride };
    let header = IniChunk::new(concat(concat("TextureOverride", prefix.as_str()).as_str(), "IB").as_str())
        .attr("hash", c.ib.as_str())
        .attr("handling", "skip")
        .attr("drawindexed", "auto");
    assert(header@.attrs =~= ib_header(prefix@, *c).attrs);
    put(config, "ib_override", header, base, entries);
    let ghost e0 = entries@.push(("ib_override"@, ib_header(prefix@, *c)));
    let mut position: Vec<u8> = Vec::new();
    let mut blend: Vec<u8> = Vec::new();
    let mut texcoord: Vec<u8> = Vec::new();
    let mut files: Vec<OutputFile> = Vec::new();
    let mut offset: usize = 0;
    let n = objs.len();
    let mut i: usize = 0;
    assert(position@ =~= merged_position(objs@, st, split, 0));
    assert(file_views(files@) =~= objects_files(m, *c, objs@, st, 0));
    assert(e0 + objects_entries(m, *c, objs@, st, no_ramps, 0) =~= e0);
    assert(texts(copies@) =~= texts(old(copies)@) + objects_textures(m, *c, no_ramps, 0));
    while i < n
        invariant
            n == objs.len() == c.object_indexes.len(),
            metadata_ok(*c),
            i <= n,
            st == stride,
            stride > 0,
            split == splits(*c),
            split ==> stride >= 72,
            per == if split { 40 } else { stride },
            texts(classes@) == classes_of(*c),
            name@ == name_of(*c),
            prefix@ == prefix_of(m, *c),
            texture_views(defaults@) == default_textures(),
            e0 == entries@.push(("ib_override"@, ib_header(prefix@, *c))),
            position@ == merged_position(objs@, st, split, i as int),
            split ==> blend@ == merged_blend(objs@, st, i as int),
            split ==> texcoord@ == merged_texcoord(objs@, st, i as int),
            offset == records_before(objs@, st, i as int),
            file_views(files@) == objects_files(m, *c, objs@, st, i as int),
            config@ == insert_all(base@, e0 + objects_entries(m, *c, objs@, st, no_ramps, i as int)),
            texts(copies@) == texts(old(copies)@) + objects_textures(m, *c, no_ramps, i as int),
        decreases n - i,
    {
        let label = object_label(&classes, i);
        let file = concat(prefix.as_str(), label.as_str());
        assert(file@ == object_file(m, *c, i as nat));
        let obj = &objs[i];
        if split {
            split_records(&obj.vb, stride, &mut position, &mut blend, &mut texcoord);
        } else {
            copy_records(&obj.vb, stride, &mut position);
        }
        let ib = renumber_indices(&obj.ib, offset);
        let ib_empty = ib.len() == 0;
        proof {
            crate::buffers::lemma_renumbered_len(obj.ib@, offset as nat, index_count(obj.ib@.len()));
        }
        let ghost files_before = files@;
        files.push(output_file(&file, ".ib", ib));
        assert(file_views(files@) =~= file_views(files_before).push(
            ("vertex/"@ + object_file(m, *c, i as nat) + ".ib"@, object_indices(objs@, st, i as int)),
        ));
        let ghost before = e0 + objects_entries(m, *c, objs@, st, no_ramps, i as int);
        let ghost copies_before = copies@;
        object_pass(config, &file, c, i, ib_empty, no_ramps, &defaults, copies, base, Ghost(before));
        proof {
            assert(before + object_entries(file@, *c, i as int, ib_empty, no_ramps)
                =~= e0 + objects_entries(m, *c, objs@, st, no_ramps, i as int + 1));
            assert(texts(copies@) =~= texts(old(copies)@) + objects_textures(m, *c, no_ramps, i as int + 1));
            lemma_merged_length(objs@, st, split, i as int + 1);
            assert(position@ =~= merged_position(objs@, st, split, i as int + 1));
            if split {
                assert(blend@ =~= merged_blend(objs@, st, i as int + 1));
                assert(texcoord@ =~= merged_texcoord(objs@, st, i as int + 1));
            }
            let total = records_before(objs@, st, i as int + 1);
            assert((per * total) / (per as int) == total) by (nonlinear_arith)
                requires per > 0;
        }
        offset = position.len() / per;
        i = i + 1;
    }
    let ghost e1 = e0 + objects_entries(m, *c, objs@, st, no_ramps, n as int);
    let ghost files_mid = files@;
    if split {
        split_tail_pass(config, &prefix, c, stride, offset, packaged, base, Ghost(e1));
        files.push(output_file(&prefix, "Position.buf", position));
        files.push(output_file(&prefix, "Blend.buf", blend));
        files.push(output_file(&prefix, "Texcoord.buf", texcoord));
    } else {
        single_tail_pass(config, &prefix, c, stride, packaged, base, Ghost(e1));
        files.push(output_file(&prefix, ".buf", position));
    }
    proof {
        assert(file_views(files@) =~= draw_files(m, *c, objs@, st));
        let tail = if split {
            split_tail(prefix@, *c, st, records_before(objs@, st, n as int), packaged)
        } else {
            single_tail(prefix@, *c, st, packaged)
        };
        assert(e1 + tail =~= entries@ + draw_entries(m, *c, objs@, st, no_ramps, packaged));
    }
    files
}

/// The override that matches one texture of a component without vertex
/// buffers and binds it to its shader slot.
pub open spec fn texture_override(file: Seq<char>, t: TextureView, j: nat) -> ChunkView {
    ChunkView {
        name: "TextureOverride"@ + file + t.label,
        attrs: seq![
            attr_line("hash"@, t.hash),
            attr_line("ps-t"@ + digits(j, false), "Resource"@ + file + t.label),
        ],
    }
}

/// The chunks of the kept textures among the first `n` slots of an object
/// of a component without vertex buffers.
pub open spec fn plain_texture_entries(file: Seq<char>, texs: Seq<TextureView>, no_ramps: bool, n: nat) -> Seq<Entry>
    decreases n,
{
    if n == 0 {
        Seq::empty()
    } else {
        let t = texs[n - 1];
        let prev = plain_texture_entries(file, texs, no_ramps, (n - 1) as nat);
        if texture_kept(no_ramps, t) {
            prev.push(("ib_override"@, texture_override(file, t, (n - 1) as nat))).push(
                ("tex_res"@, texture_resource(file, t)),
            )
        } else {
            prev
        }
    }
}

/// The chunks of the first `n` objects of a component without vertex
/// buffers.
pub open spec fn texture_only_entries(m: Seq<char>, c: Component, no_ramps: bool, n: int) -> Seq<Entry>
    decreases n,
{
    if n <= 0 {
        Seq::empty()
    } else {
        texture_only_entries(m, c, no_ramps, n - 1) + plain_texture_entries(
            object_file(m, c, (n - 1) as nat),
            listed_textures(c, n - 1),
            no_ramps,
            texture_count(c, n - 1),
        )
    }
}

fn texture_only_pass(
    config: &mut IniConfig,
    file: &String,
    texs: &Vec<TextureSlot>,
    count: usize,
    no_ramps: bool,
    copies: &mut Vec<String>,
    base: Ghost<Seq<SlotView>>,
    entries: Ghost<Seq<Entry>>,
)
    requires
        old(config)@ == insert_all(base@, entries@),
        count <= texs.len(),
    ensures
        final(config)@ == insert_all(
            base@,
            entries@ + plain_texture_entries(file@, texture_views(texs@), no_ramps, count as nat),
        ),
        texts(final(copies)@) == texts(old(copies)@) + texture_files(
            file@,
            texture_views(texs@),
            no_ramps,
            count as nat,
        ),
{
    let ghost tv = texture_views(texs@);
    let mut j: usize = 0;
    while j < count
        invariant
            j <= count <= texs.len(),
            tv == texture_views(texs@),
            config@ == insert_all(base@, entries@ + plain_texture_entries(file@, tv, no_ramps, j as nat)),
            texts(copies@) == texts(old(copies)@) + texture_files(file@, tv, no_ramps, j as nat),
        decreases count - j,
    {
        let t = &texs[j];
        let ghost t_view = tv[j as int];
        assert(texture_view(*t) == t_view);
        let ramp = is_ramp_label(&t.label);
        if !(no_ramps && ramp) {
            let res_name = concat(concat("Resource", file.as_str()).as_str(), t.label.as_str());
            let slot_name = concat("ps-t", decimal(j).as_str());
            let over_name = concat(concat("TextureOverride", file.as_str()).as_str(), t.label.as_str());
            let over = IniChunk::new(over_name.as_str())
                .attr("hash", t.hash.as_str())
                .attr(slot_name.as_str(), res_name.as_str());
            let full = concat(concat(file.as_str(), t.label.as_str()).as_str(), t.extension.as_str());
            let path = concat("./assets/", full.as_str());
            let res = IniChunk::new(res_name.as_str()).attr("filename", path.as_str());
            let ghost e = entries@ + plain_texture_entries(file@, tv, no_ramps, j as nat);
            proof {
                assert(over@.attrs =~= texture_override(file@, t_view, j as nat).attrs);
                assert(path@ =~= "./assets/"@ + file@ + t_view.label + t_view.extension);
                assert(res@.attrs =~= texture_resource(file@, t_view).attrs);
                assert(entries@ + plain_texture_entries(file@, tv, no_ramps, (j + 1) as nat)
                    =~= e.push(("ib_override"@, over@)).push(("tex_res"@, res@)));
            }
            put(config, "ib_override", over, base, Ghost(e));
            put(config, "tex_res", res, base, Ghost(e.push(("ib_override"@, over@))));
            let ghost files_before = copies@;
            copies.push(full);
            assert(texts(copies@) =~= texts(files_before).push(full@));
        }
        j = j + 1;
    }
}

/// Declares the textures of a component that has no vertex buffers.
fn assemble_textures(
    config: &mut IniConfig,
    mod_name: &str,
    c: &Component,
    no_ramps: bool,
    copies: &mut Vec<String>,
    base: Ghost<Seq<SlotView>>,
    entries: Ghost<Seq<Entry>>,
)
    requires
        metadata_ok(*c),
        old(config)@ == insert_all(base@, entries@),
    ensures
        final(config)@ == insert_all(
            base@,
            entries@ + texture_only_entries(mod_name@, *c, no_ramps, c.object_indexes.len() as int),
        ),
        texts(final(copies)@) == texts(old(copies)@) + objects_textures(
            mod_name@,
            *c,
            no_ramps,
            c.object_indexes.len() as int,
        ),
{
    let ghost m = mod_name@;
    let classes = classifications(c);
    let name = component_name(c);
    let prefix = concat(mod_name, name.as_str());
    let defaults = default_texture_slots();
    let face = is_face_component(c);
    let n = c.object_indexes.len();
    let mut i: usize = 0;
    assert(entries@ + texture_only_entries(m, *c, no_ramps, 0) =~= entries@);
    assert(texts(copies@) =~= texts(old(copies)@) + objects_textures(m, *c, no_ramps, 0));
    while i < n
        invariant
            n == c.object_indexes.len(),
            metadata_ok(*c),
            i <= n,
            face == is_face(*c),
            texts(classes@) == classes_of(*c),
            name@ == name_of(*c),
            prefix@ == prefix_of(m, *c),
            texture_views(defaults@) == default_textures(),
            config@ == insert_all(base@, entries@ + texture_only_entries(m, *c, no_ramps, i as int)),
            texts(copies@) == texts(old(copies)@) + objects_textures(m, *c, no_ramps, i as int),
        decreases n - i,
    {
        let label = object_label(&classes, i);
        let file = concat(prefix.as_str(), label.as_str());
        assert(file@ == object_file(m, *c, i as nat));
        let texs: &Vec<TextureSlot> = match &c.texture_hashes {
            Some(v) => &v[i],
            None => &defaults,
        };
        assert(texture_views(texs@) == listed_textures(*c, i as int));
        assert(face ==> listed_textures(*c, i as int).len() > 0);
        let count: usize = if face { 1 } else { texs.len() };
        let ghost before = entries@ + texture_only_entries(m, *c, no_ramps, i as int);
        texture_only_pass(config, &file, texs, count, no_ramps, copies, base, Ghost(before));
        proof {
            assert(before + plain_texture_entries(file@, texture_views(texs@), no_ramps, count as nat)
                =~= entries@ + texture_only_entries(m, *c, no_ramps, i as int + 1));
            assert(texts(copies@) =~= texts(old(copies)@) + objects_textures(m, *c, no_ramps, i as int + 1));
        }
        i = i + 1;
    }
}

/// Whether a component has vertex buffers to merge.
pub open spec fn has_draw(c: Component) -> bool {
    c.draw_vb@.len() > 0
}

/// What keeps a component from being assembled, if anything.
pub open spec fn component_error(c: Component, objects: nat, stride: nat) -> Option<BuildError> {
    if !metadata_ok(c) {
        Some(BuildError::MetadataMalformed)
    } else if has_draw(c) && objects != c.object_indexes.len() {
        Some(BuildError::SourcesMismatch)
    } else if has_draw(c) && (stride == 0 || (splits(c) && stride < 72)) {
        Some(BuildError::BadStride)
    } else {
        None
    }
}

/// All chunks of a component.
pub open spec fn component_entries(m: Seq<char>, c: Component, objs: Seq<ObjectBuffers>, stride: nat, no_ramps: bool, packaged: bool) -> Seq<Entry> {
    if has_draw(c) {
        draw_entries(m, c, objs, stride, no_ramps, packaged)
    } else {
        texture_only_entries(m, c, no_ramps, c.object_indexes.len() as int)
    }
}

/// All buffer files of a component.
pub open spec fn component_files(m: Seq<char>, c: Component, objs: Seq<ObjectBuffers>, stride: nat) -> Seq<(Seq<char>, Seq<u8>)> {
    if has_draw(c) {
        draw_files(m, c, objs, stride)
    } else {
        Seq::empty()
    }
}

/// Whether a component's metadata can describe its objects.
pub fn metadata_valid(c: &Component) -> (r: bool)
    ensures
        r == metadata_ok(*c),
{
    let classes = classifications(c);
    if classes.len() == 0 {
        return false;
    }
    let n = c.object_indexes.len();
    if n >= usize::MAX - 2 {
        return false;
    }
    if let Some(v) = &c.texture_hashes {
        if v.len() < n {
            return false;
        }
    }
    if is_face_component(c) {
        if let Some(v) = &c.texture_hashes {
            let mut i: usize = 0;
            while i < n
                invariant
                    i <= n <= v.len(),
                    n == c.object_indexes.len(),
                    c.texture_hashes == Some(*v),
                    is_face(*c),
                    forall|k: int| 0 <= k < i ==> #[trigger] listed_textures(*c, k).len() > 0,
                decreases n - i,
            {
                if v[i].len() == 0 {
                    assert(listed_textures(*c, i as int).len() == 0);
                    return false;
                }
                i = i + 1;
            }
        }
    }
    true
}

/// Assembles one component: merges its objects' vertex records (split into
/// position, blend and texcoord streams when it has a blend buffer),
/// renumbers each object's index records past the vertices before it, and
/// adds the chunks that declare all of it to `config`. The texture files
/// that the chunks name are appended to `textures`.
pub fn assemble_component(
    config: &mut IniConfig,
    mod_name: &str,
    c: &Component,
    stride: usize,
    objs: &Vec<ObjectBuffers>,
    no_ramps: bool,
    packaged: bool,
    textures: &mut Vec<String>,
) -> (r: Result<Vec<OutputFile>, BuildError>)
    ensures
        match component_error(*c, objs.len() as nat, stride as nat) {
            Some(e) => r == Err::<Vec<OutputFile>, BuildError>(e) && final(config)@ == old(config)@
                && final(textures)@ == old(textures)@,
            None => r is Ok && file_views(r->Ok_0@) == component_files(mod_name@, *c, objs@, stride as nat)
                && final(config)@ == insert_all(
                    old(config)@,
                    component_entries(mod_name@, *c, objs@, stride as nat, no_ramps, packaged),
                ) && texts(final(textures)@) == texts(old(textures)@) + objects_textures(
                    mod_name@,
                    *c,
                    no_ramps,
                    c.object_indexes.len() as int,
                ),
        },
{
    if !metadata_valid(c) {
        return Err(BuildError::MetadataMalformed);
    }
    let draw = !c.draw_vb.as_str().is_empty();
    let split = !c.blend_vb.as_str().is_empty();
    if draw && objs.len() != c.object_indexes.len() {
        return Err(BuildError::SourcesMismatch);
    }
    if draw && (stride == 0 || (split && stride < BLEND_END)) {
        return Err(BuildError::BadStride);
    }
    let ghost base = config@;
    let ghost none = Seq::<Entry>::empty();
    if draw {
        let files = assemble_draw(config, mod_name, c, stride, objs, no_ramps, packaged, textures, Ghost(base), Ghost(none));
        assert(none + draw_entries(mod_name@, *c, objs@, stride as nat, no_ramps, packaged)
            =~= draw_entries(mod_name@, *c, objs@, stride as nat, no_ramps, packaged));
        Ok(files)
    } else {
        assemble_textures(config, mod_name, c, no_ramps, textures, Ghost(base), Ghost(none));
        assert(none + texture_only_entries(mod_name@, *c, no_ramps, c.object_indexes.len() as int)
            =~= texture_only_entries(mod_name@, *c, no_ramps, c.object_indexes.len() as int));
        let files: Vec<OutputFile> = Vec::new();
        assert(file_views(files@) =~= Seq::empty());
        Ok(files)
    }
}

/// Each object's index stream holds its own indices shifted by the number of
/// vertex records of the objects before it; the second object's are
/// shifted by the records of the first.
pub proof fn law_indices_follow_earlier_records(objs: Seq<ObjectBuffers>, stride: nat, i: int)
    requires
        0 <= i < objs.len(),
    ensures
        index_values(object_indices(objs, stride, i), index_count(objs[i].ib@.len())) == Seq::new(
            index_count(objs[i].ib@.len()),
            |k: int| (le_value(objs[i].ib@, k) + records_before(objs, stride, i)) % 0x1_0000_0000,
        ),
        i == 1 ==> records_before(objs, stride, i) == record_count(objs[0].vb@.len(), stride),
{
    law_renumber_adds_offset(objs[i].ib@, records_before(objs, stride, i));
    if i == 1 {
        assert(records_before(objs, stride, 0) == 0);
    }
}

/// The file name (without extension) of object `i` of a component, or
/// `None` when the component names no label.
pub fn object_file_name(mod_name: &str, c: &Component, i: usize) -> (r: Option<String>)
    ensures
        classes_of(*c).len() == 0 || i >= usize::MAX - 2 ==> r is None,
        classes_of(*c).len() > 0 && i < usize::MAX - 2 ==> (r matches Some(f) && f@ == object_file(mod_name@, *c, i as nat)),
{
    let classes = classifications(c);
    if classes.len() == 0 || i >= usize::MAX - 2 {
        return None;
    }
    let label = object_label(&classes, i);
    let prefix = concat(mod_name, component_name(c).as_str());
    Some(concat(prefix.as_str(), label.as_str()))
}

/// Whether an object's buffers hold a remainder that is left out: vertex
/// bytes past the last whole record, or index bytes past the last whole
/// index.
pub open spec fn misaligned(o: ObjectBuffers, stride: nat) -> bool {
    o.vb@.len() % stride != 0 || o.ib@.len() % 4 != 0
}

/// The positions of the objects whose buffers do not divide into whole
/// records, in order: their remainders are left out of the build.
pub fn misaligned_objects(objs: &Vec<ObjectBuffers>, stride: usize) -> (r: Vec<usize>)
    requires
        stride > 0,
    ensures
        forall|k: int| 0 <= k < r.len() ==> r@[k] < objs.len() && misaligned(objs@[r@[k] as int], stride as nat),
        forall|i: int| 0 <= i < objs.len() && misaligned(objs@[i], stride as nat) ==> r@.contains(i as usize),
        forall|a: int, b: int| 0 <= a < b < r.len() ==> r@[a] < r@[b],
{
    let mut r: Vec<usize> = Vec::new();
    let mut i: usize = 0;
    while i < objs.len()
        invariant
            i <= objs.len(),
            stride > 0,
            forall|k: int| 0 <= k < r.len() ==> r@[k] < i && misaligned(objs@[r@[k] as int], stride as nat),
            forall|j: int| 0 <= j < i && misaligned(objs@[j], stride as nat) ==> r@.contains(j as usize),
            forall|a: int, b: int| 0 <= a < b < r.len() ==> r@[a] < r@[b],
        decreases objs.len() - i,
    {
        let o = &objs[i];
        if o.vb.len() % stride != 0 || o.ib.len() % 4 != 0 {
            let ghost before = r@;
            r.push(i);
            proof {
                assert forall|j: int| 0 <= j < i + 1 && misaligned(objs@[j], stride as nat) implies r@.contains(j as usize) by {
                    if j < i {
                        let k = choose|k: int| 0 <= k < before.len() && before[k] == j as usize;
                        assert(r@[k] == j as usize);
                    } else {
                        assert(r@[r.len() - 1] == i);
                    }
                }
            }
        }
        i = i + 1;
    }
    r
}

} // verus!
