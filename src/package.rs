//! The build of a whole mod: every component assembled in turn, the variant
//! notice for packaged builds, and the configuration text.
use vstd::prelude::*;
use vstd::string::StringExecFns;
use crate::assemble::{
    assemble_component, component_entries, lemma_insert_all_append, component_error, component_files, has_draw,
    insert_all, objects_textures, Entry,
};
use crate::ini::{attr_line, render, ChunkView, IniChunk, IniConfig, SlotView};
use crate::model::{file_views, BuildError, Component, ObjectBuffers, OutputFile};
use crate::parse::{parse_unsigned, stride_field, stride_from_lines, trim_end, trim_start};
use crate::text::{concat, push_char, texts};

verus! {

/// What was captured for one component: the lines of its side-file (read
/// only when it has vertex buffers) and each object's buffers.
#[derive(Debug, Clone)]
pub struct ComponentSources {
    pub stride_lines: Vec<String>,
    pub objects: Vec<ObjectBuffers>,
}

/// What a build produces: the buffer files, the texture files to copy into
/// the package, and the configuration file.
#[derive(Debug, Clone)]
pub struct BuildOutput {
    pub files: Vec<OutputFile>,
    pub texture_copies: Vec<String>,
    pub ini_name: String,
    pub ini_text: String,
}

/// The stride that a component's side-file gives, if it gives one.
pub open spec fn stride_of(lines: Seq<Seq<char>>) -> Option<nat> {
    parse_unsigned(trim_end(trim_start(stride_field(lines))))
}

/// The stride a component is assembled with: read from its side-file when
/// it has vertex buffers, unused (zero) otherwise.
pub open spec fn component_stride(c: Component, src: ComponentSources) -> Result<nat, BuildError> {
    if has_draw(c) {
        match stride_of(texts(src.stride_lines@)) {
            Some(v) => Ok(v),
            None => Err(BuildError::BadStride),
        }
    } else {
        Ok(0)
    }
}

/// Why component `i` cannot be assembled, if it cannot.
pub open spec fn component_failure(c: Component, src: ComponentSources) -> Option<BuildError> {
    match component_stride(c, src) {
        Err(e) => Some(e),
        Ok(s) => component_error(c, src.objects.len() as nat, s),
    }
}

pub open spec fn stride_value(c: Component, src: ComponentSources) -> nat {
    match component_stride(c, src) {
        Ok(s) => s,
        Err(_) => 0,
    }
}

/// The first failure among the first `n` components.
pub open spec fn first_failure(comps: Seq<Component>, srcs: Seq<ComponentSources>, n: int) -> Option<BuildError>
    decreases n,
{
    if n <= 0 {
        None
    } else {
        match first_failure(comps, srcs, n - 1) {
            Some(e) => Some(e),
            None => component_failure(comps[n - 1], srcs[n - 1]),
        }
    }
}

/// The chunks of the first `n` components.
pub open spec fn all_entries(m: Seq<char>, comps: Seq<Component>, srcs: Seq<ComponentSources>, no_ramps: bool, packaged: bool, n: int) -> Seq<Entry>
    decreases n,
{
    if n <= 0 {
        Seq::empty()
    } else {
        all_entries(m, comps, srcs, no_ramps, packaged, n - 1) + component_entries(
            m,
            comps[n - 1],
            srcs[n - 1].objects@,
            stride_value(comps[n - 1], srcs[n - 1]),
            no_ramps,
            packaged,
        )
    }
}

/// The buffer files of the first `n` components.
pub open spec fn all_files(m: Seq<char>, comps: Seq<Component>, srcs: Seq<ComponentSources>, n: int) -> Seq<(Seq<char>, Seq<u8>)>
    decreases n,
{
    if n <= 0 {
        Seq::empty()
    } else {
        all_files(m, comps, srcs, n - 1) + component_files(
            m,
            comps[n - 1],
            srcs[n - 1].objects@,
            stride_value(comps[n - 1], srcs[n - 1]),
        )
    }
}

/// The texture files that the first `n` components use.
pub open spec fn all_textures(m: Seq<char>, comps: Seq<Component>, no_ramps: bool, n: int) -> Seq<Seq<char>>
    decreases n,
{
    if n <= 0 {
        Seq::empty()
    } else {
        all_textures(m, comps, no_ramps, n - 1) + objects_textures(
            m,
            comps[n - 1],
            no_ramps,
            comps[n - 1].object_indexes.len() as int,
        )
    }
}

/// The chunks that show the variant's identifier once when it is activated.
pub open spec fn variant_entries(variant: Seq<char>) -> Seq<Entry> {
    seq![
        ("constant"@, ChunkView {
            name: "Constants"@,
            attrs: seq![attr_line("global $active"@, "0"@), attr_line("global $variantsinfo"@, "0"@)],
        }),
        ("constant"@, ChunkView {
            name: "Present"@,
            attrs: seq![attr_line("post $active"@, "0"@), attr_line("run"@, "CommandListVariantsInfo"@)],
        }),
        ("command"@, ChunkView {
            name: "CommandListVariantsInfo"@,
            attrs: seq![
                "if $variantsinfo == 0 && $active == 1"@,
                "pre Resource\\ShaderFixes\\help.ini\\Notification = ResourceVariantsInfo"@,
                "pre run = CustomShader\\ShaderFixes\\help.ini\\FormatText"@,
                "pre $\\ShaderFixes\\help.ini\\notification_timeout = time + 8.0"@,
                "$variantsinfo = 1"@,
                "endif"@,
            ],
        }),
        ("other"@, ChunkView {
            name: "ResourceVariantsInfo"@,
            attrs: seq!["type = Buffer\ndata = "@ + seq!['"'] + variant + " (by xiaoeyun)"@ + seq!['"'] + "\n\n"@],
        }),
    ]
}

/// The configuration's layout: a placeholder for each slot, in the order
/// that the runtime reads them, and the attribution footer.
pub open spec fn template_text() -> Seq<char> {
    ";Constants -------------------------\n<constant>\n;Overrides -----------------------\n<vb_override>\n<ib_override>\n;CommandList ---------------------\n<command>\n;Resources -----------------------\n<vb_res>\n<ib_res>\n<tex_res>\n<other>\n;.ini generated by HornyLoader (Discord `xiaoeyun`)\n; based GIMI (Genshin-Impact-Model-Importer)"@
}

/// The configuration's layout.
pub fn ini_template() -> (r: &'static str)
    ensures
        r@ == template_text(),
{
    ";Constants -------------------------\n<constant>\n;Overrides -----------------------\n<vb_override>\n<ib_override>\n;CommandList ---------------------\n<command>\n;Resources -----------------------\n<vb_res>\n<ib_res>\n<tex_res>\n<other>\n;.ini generated by HornyLoader (Discord `xiaoeyun`)\n; based GIMI (Genshin-Impact-Model-Importer)"
}

/// Adds the chunks that show the variant's identifier once it is activated.
pub fn add_variant_info(config: &mut IniConfig, variant: &str)
    ensures
        final(config)@ == insert_all(old(config)@, variant_entries(variant@)),
{
    let ghost base = old(config)@;
    let ghost v = variant_entries(variant@);
    let constants = IniChunk::new("Constants").attr("global $active", "0").attr("global $variantsinfo", "0");
    assert(constants@.attrs =~= v[0].1.attrs);
    assert(constants@ == v[0].1);
    assert(v.take(1).last() == v[0]);
    config.insert("constant", constants);
    assert(v.take(1).drop_last() =~= Seq::<Entry>::empty());
    assert(insert_all(base, Seq::<Entry>::empty()) == base);
    assert(config@ == insert_all(base, v.take(1)));
    let present = IniChunk::new("Present").attr("post $active", "0").attr("run", "CommandListVariantsInfo");
    assert(present@.attrs =~= v[1].1.attrs);
    assert(present@ == v[1].1);
    assert(v.take(2).last() == v[1]);
    config.insert("constant", present);
    assert(v.take(2).drop_last() =~= v.take(1));
    assert(config@ == insert_all(base, v.take(2)));
    let command = IniChunk::new("CommandListVariantsInfo")
        .push("if $variantsinfo == 0 && $active == 1")
        .push("pre Resource\\ShaderFixes\\help.ini\\Notification = ResourceVariantsInfo")
        .push("pre run = CustomShader\\ShaderFixes\\help.ini\\FormatText")
        .push("pre $\\ShaderFixes\\help.ini\\notification_timeout = time + 8.0")
        .push("$variantsinfo = 1")
        .push("endif");
    assert(command@.attrs =~= v[2].1.attrs);
    assert(command@ == v[2].1);
    assert(v.take(3).last() == v[2]);
    config.insert("command", command);
    assert(v.take(3).drop_last() =~= v.take(2));
    assert(config@ == insert_all(base, v.take(3)));
    let mut text = String::from_str("type = Buffer\ndata = ");
    push_char(&mut text, '"');
    text.append(variant);
    text.append(" (by xiaoeyun)");
    push_char(&mut text, '"');
    text.append("\n\n");
    assert(text@ =~= "type = Buffer\ndata = "@ + seq!['"'] + variant@ + " (by xiaoeyun)"@ + seq!['"'] + "\n\n"@);
    let other = IniChunk::new("ResourceVariantsInfo").push(text.as_str());
    assert(other@.attrs =~= v[3].1.attrs);
    assert(other@ == v[3].1);
    assert(v.take(4).last() == v[3]);
    config.insert("other", other);
    assert(v.drop_last() =~= v.take(3));
}

/// Builds a mod from its components and what was captured for them: each
/// component is assembled in turn (the first failure stops the build), a
/// packaged build (one with a variant identifier) gets the variant notice and
/// copies its textures, and the configuration is rendered into the layout.
pub fn build_genshin_mod(
    mod_name: &str,
    components: &Vec<Component>,
    sources: &Vec<ComponentSources>,
    no_ramps: bool,
    variant: &str,
) -> (r: Result<BuildOutput, BuildError>)
    ensures
        mod_name@.len() == 0 ==> r == Err::<BuildOutput, BuildError>(BuildError::MissingName),
        mod_name@.len() > 0 && components.len() != sources.len() ==> r == Err::<BuildOutput, BuildError>(
            BuildError::SourcesMismatch,
        ),
        mod_name@.len() > 0 && components.len() == sources.len() ==> match first_failure(
            components@,
            sources@,
            components.len() as int,
        ) {
            Some(e) => r == Err::<BuildOutput, BuildError>(e),
            None => r is Ok && {
                let out = r->Ok_0;
                let n = components.len() as int;
                let packaged = variant@.len() > 0;
                &&& file_views(out.files@) == all_files(mod_name@, components@, sources@, n)
                &&& texts(out.texture_copies@) == if packaged {
                    all_textures(mod_name@, components@, no_ramps, n)
                } else {
                    Seq::empty()
                }
                &&& out.ini_name@ == mod_name@ + ".ini"@
                &&& out.ini_text@ == render(
                    template_text(),
                    insert_all(
                        Seq::empty(),
                        all_entries(mod_name@, components@, sources@, no_ramps, packaged, n) + if packaged {
                            variant_entries(variant@)
                        } else {
                            Seq::empty()
                        },
                    ),
                )
            },
        },
{
    if mod_name.is_empty() {
        return Err(BuildError::MissingName);
    }
    if components.len() != sources.len() {
        return Err(BuildError::SourcesMismatch);
    }
    let ghost m = mod_name@;
    let packaged = !variant.is_empty();
    let mut config = IniConfig::new();
    let mut files: Vec<OutputFile> = Vec::new();
    let mut textures: Vec<String> = Vec::new();
    let n = components.len();
    let mut i: usize = 0;
    assert(insert_all(Seq::empty(), Seq::<Entry>::empty()) == Seq::<SlotView>::empty());
    assert(file_views(files@) =~= Seq::empty());
    assert(texts(textures@) =~= Seq::empty());
    while i < n
        invariant
            n == components.len() == sources.len(),
            mod_name@.len() > 0,
            m == mod_name@,
            i <= n,
            packaged == (variant@.len() > 0),
            first_failure(components@, sources@, i as int) is None,
            config@ == insert_all(Seq::empty(), all_entries(m, components@, sources@, no_ramps, packaged, i as int)),
            file_views(files@) == all_files(m, components@, sources@, i as int),
            texts(textures@) == all_textures(m, components@, no_ramps, i as int),
        decreases n - i,
    {
        let c = &components[i];
        let src = &sources[i];
        let draw = !c.draw_vb.as_str().is_empty();
        let stride: usize = if draw {
            match stride_from_lines(&src.stride_lines) {
                Ok(s) => s,
                Err(e) => {
                    assert(first_failure(components@, sources@, i as int + 1) == Some(e));
                    proof { lemma_failure_stays(components@, sources@, i as int + 1, n as int); }
                    return Err(e);
                },
            }
        } else {
            0
        };
        assert(component_stride(*c, *src) == Ok::<nat, BuildError>(stride as nat));
        let ghost before_config = config@;
        let ghost before_textures = textures@;
        match assemble_component(&mut config, mod_name, c, stride, &src.objects, no_ramps, packaged, &mut textures) {
            Err(e) => {
                assert(first_failure(components@, sources@, i as int + 1) == Some(e));
                proof { lemma_failure_stays(components@, sources@, i as int + 1, n as int); }
                return Err(e);
            },
            Ok(mut part) => {
                let ghost before_files = files@;
                let ghost part_v = part@;
                files.append(&mut part);
                proof {
                    assert(file_views(files@) =~= file_views(before_files) + file_views(part_v));
                    assert(stride_value(*c, *src) == stride);
                    assert(all_entries(m, components@, sources@, no_ramps, packaged, i as int + 1)
                        == all_entries(m, components@, sources@, no_ramps, packaged, i as int)
                        + component_entries(m, *c, src.objects@, stride as nat, no_ramps, packaged));
                    lemma_insert_all_append(
                        Seq::empty(),
                        all_entries(m, components@, sources@, no_ramps, packaged, i as int),
                        component_entries(m, *c, src.objects@, stride as nat, no_ramps, packaged),
                    );
                }
            },
        }
        i = i + 1;
    }
    let ghost comp_entries = all_entries(m, components@, sources@, no_ramps, packaged, n as int);
    if packaged {
        add_variant_info(&mut config, variant);
        proof {
            lemma_insert_all_append(Seq::empty(), comp_entries, variant_entries(variant@));
        }
    } else {
        assert(comp_entries + Seq::<Entry>::empty() =~= comp_entries);
    }
    let ini_text = config.format(ini_template());
    let copies = if packaged { textures } else { Vec::new() };
    assert(texts(copies@) =~= if packaged { all_textures(m, components@, no_ramps, n as int) } else { Seq::empty() });
    Ok(BuildOutput { files, texture_copies: copies, ini_name: concat(mod_name, ".ini"), ini_text })
}

proof fn lemma_failure_stays(comps: Seq<Component>, srcs: Seq<ComponentSources>, i: int, n: int)
    requires
        0 <= i <= n,
        first_failure(comps, srcs, i) is Some,
    ensures
        first_failure(comps, srcs, n) == first_failure(comps, srcs, i),
    decreases n - i,
{
    if i < n {
        lemma_failure_stays(comps, srcs, i, n - 1);
    }
}

/// Where the component metadata was found.
#[derive(Debug, Clone)]
pub enum HashSource {
    /// `hash.json`: the list of components.
    Current(Vec<Component>),
    /// The older `hash_info.json`: one component per mod name.
    Legacy(Vec<(String, Component)>),
    /// Neither file exists.
    Missing,
}

/// Whether some legacy entry is keyed by `name`.
pub open spec fn has_key(entries: Seq<(String, Component)>, name: Seq<char>) -> bool {
    exists|i: int| 0 <= i < entries.len() && entries[i].0@ == name
}

/// The first legacy entry keyed by `name`.
pub open spec fn first_key(entries: Seq<(String, Component)>, name: Seq<char>) -> int {
    choose|i: int| 0 <= i < entries.len() && entries[i].0@ == name && forall|j: int| 0 <= j < i ==> entries[j].0@ != name
}

/// The components to build for the mod `name`: all of `hash.json`, or the
/// one that `hash_info.json` keeps under `name`.
pub fn select_components(source: HashSource, name: &str) -> (r: Result<Vec<Component>, BuildError>)
    ensures
        match source {
            HashSource::Current(v) => r == Ok::<Vec<Component>, BuildError>(v),
            HashSource::Legacy(entries) => if has_key(entries@, name@) {
                r matches Ok(w) && w@ == seq![entries@[first_key(entries@, name@)].1]
            } else {
                r == Err::<Vec<Component>, BuildError>(BuildError::ComponentNotFound)
            },
            HashSource::Missing => r == Err::<Vec<Component>, BuildError>(BuildError::HashesNotFound),
        },
{
    match source {
        HashSource::Current(v) => Ok(v),
        HashSource::Missing => Err(BuildError::HashesNotFound),
        HashSource::Legacy(entries) => {
            let ghost es = entries@;
            let key = String::from_str(name);
            for e in it: entries
                invariant
                    es == it.seq(),
                    source matches HashSource::Legacy(x) && x@ == es,
                    key@ == name@,
                    forall|j: int| 0 <= j < it.index() ==> es[j].0@ != name@,
            {
                if e.0 == key {
                    proof {
                        let i = it.index() as int;
                        assert(es[i] == e);
                        assert(has_key(es, name@));
                        let f = first_key(es, name@);
                        assert(0 <= i < es.len() && es[i].0@ == name@ && forall|j: int| 0 <= j < i ==> es[j].0@ != name@);
                        if f < i {
                            assert(es[f].0@ != name@);
                        }
                        if f > i {
                            assert(es[i].0@ != name@);
                        }
                    }
                    let mut w: Vec<Component> = Vec::new();
                    w.push(e.1);
                    assert(w@ =~= seq![es[first_key(es, name@)].1]);
                    return Ok(w);
                }
            }
            assert(!has_key(es, name@));
            Err(BuildError::ComponentNotFound)
        },
    }
}

/// Checks what a build needs before it starts: a mod name, then the
/// `assets` folder, then the `temp` folder.
pub fn check_build_request(name: &str, has_assets: bool, has_temp: bool) -> (r: Result<(), BuildError>)
    ensures
        name@.len() == 0 ==> r == Err::<(), BuildError>(BuildError::MissingName),
        name@.len() > 0 && !has_assets ==> r == Err::<(), BuildError>(BuildError::MissingAssets),
        name@.len() > 0 && has_assets && !has_temp ==> r == Err::<(), BuildError>(BuildError::MissingTemp),
        name@.len() > 0 && has_assets && has_temp ==> r is Ok,
{
    if name.is_empty() {
        Err(BuildError::MissingName)
    } else if !has_assets {
        Err(BuildError::MissingAssets)
    } else if !has_temp {
        Err(BuildError::MissingTemp)
    } else {
        Ok(())
    }
}

} // verus!
