use hornyloader::assemble::{assemble_component, classifications, object_label, metadata_valid};
use hornyloader::ini::IniConfig;
use hornyloader::model::{BuildError, Component, ObjectBuffers, TextureSlot};
use hornyloader::package::{build_genshin_mod, check_build_request, select_components, ComponentSources, HashSource};
use hornyloader::parse::{parse_usize, stride_from_lines};

fn component(name: Option<&str>, draw: &str, blend: &str, objects: usize) -> Component {
    Component {
        component_name: name.map(|s| s.to_string()),
        draw_vb: draw.to_string(),
        position_vb: "pos".to_string(),
        blend_vb: blend.to_string(),
        texcoord_vb: "tex".to_string(),
        ib: "ibhash".to_string(),
        object_indexes: (0..objects).map(|i| i * 100).collect(),
        object_classifications: None,
        texture_hashes: None,
    }
}

fn indices(v: &[u32]) -> Vec<u8> {
    v.iter().flat_map(|x| x.to_le_bytes()).collect()
}

fn decode(b: &[u8]) -> Vec<u32> {
    b.chunks(4).map(|c| u32::from_le_bytes([c[0], c[1], c[2], c[3]])).collect()
}

fn sources(lines: &[&str], objects: Vec<ObjectBuffers>) -> ComponentSources {
    ComponentSources { stride_lines: lines.iter().map(|s| s.to_string()).collect(), objects }
}

#[test]
fn second_object_indices_follow_first_object_records() {
    let c = component(None, "draw", "", 2);
    let objs = vec![
        ObjectBuffers { vb: vec![0; 80], ib: indices(&[0, 1, 2]) },
        ObjectBuffers { vb: vec![0; 80], ib: indices(&[0, 1, 2]) },
    ];
    let mut cfg = IniConfig::new();
    let mut tex = vec![];
    let files = assemble_component(&mut cfg, "Mod", &c, 40, &objs, false, false, &mut tex).unwrap();
    let mut merged = files[0].bytes.clone();
    merged.extend(&files[1].bytes);
    assert_eq!(decode(&merged), vec![0, 1, 2, 2, 3, 4]);
    assert_eq!(files[0].path, "vertex/ModHead.ib");
    assert_eq!(files[1].path, "vertex/ModBody.ib");
}

#[test]
fn blendless_component_end_to_end() {
    let c = component(None, "draw", "", 2);
    let objs = vec![
        ObjectBuffers { vb: vec![1; 88], ib: indices(&[0, 1, 0]) },
        ObjectBuffers { vb: vec![2; 88], ib: indices(&[1, 0, 1]) },
    ];
    let out = build_genshin_mod("Mod", &vec![c], &vec![sources(&["format: x", "stride: 44"], objs)], true, "").unwrap();
    let bufs: Vec<_> = out.files.iter().filter(|f| f.path.ends_with(".buf")).collect();
    assert_eq!(bufs.len(), 1);
    assert_eq!(bufs[0].path, "vertex/Mod.buf");
    assert_eq!(bufs[0].bytes.len(), 176);
    assert_eq!(decode(&out.files[0].bytes), vec![0, 1, 0]);
    assert_eq!(decode(&out.files[1].bytes), vec![3, 2, 3]);
    assert_eq!(out.ini_name, "Mod.ini");
    assert!(out.ini_text.contains("[ResourceMod]\ntype = Buffer\nstride = 44\nfilename = ./vertex/Mod.buf\n"));
    assert!(out.ini_text.contains("[TextureOverrideModBody]\nhash = ibhash\nmatch_first_index = 100\nib = ResourceModBodyIB\nps-t0 = ResourceModBodyDiffuse\nps-t1 = ResourceModBodyLightMap\n"));
    assert!(!out.ini_text.contains("$active"));
    assert!(out.texture_copies.is_empty());
    assert!(out.ini_text.contains("<constant>"));
}

#[test]
fn split_component_declares_three_streams() {
    let c = component(Some("Body"), "draw", "blend", 1);
    let objs = vec![ObjectBuffers { vb: (0..160).map(|i| i as u8).collect(), ib: indices(&[0, 1]) }];
    let out = build_genshin_mod("Mod", &vec![c], &vec![sources(&["stride: 80"], objs)], false, "3a").unwrap();
    let paths: Vec<_> = out.files.iter().map(|f| f.path.clone()).collect();
    assert_eq!(paths, vec!["vertex/ModBodyHead.ib", "vertex/ModBodyPosition.buf", "vertex/ModBodyBlend.buf", "vertex/ModBodyTexcoord.buf"]);
    assert_eq!(out.files[1].bytes.len(), 80);
    assert_eq!(out.files[2].bytes.len(), 64);
    assert_eq!(out.files[3].bytes.len(), 16);
    assert_eq!(out.files[3].bytes[..8].to_vec(), (72..80).map(|i| i as u8).collect::<Vec<_>>());
    assert!(out.ini_text.contains("draw = 2, 0"));
    assert!(out.ini_text.contains("stride = 8\n"));
    assert!(out.ini_text.contains("vb0 = ResourceModBodyPosition\n$active = 1\n"));
    assert!(out.ini_text.contains("data = \"3a (by xiaoeyun)\""));
    assert_eq!(out.texture_copies, vec!["ModBodyHeadDiffuse.dds", "ModBodyHeadLightMap.dds"]);
}

#[test]
fn ramps_are_left_out_when_suppressed() {
    let mut c = component(None, "", "", 1);
    let slot = |l: &str| TextureSlot { label: l.to_string(), extension: ".dds".to_string(), hash: format!("h{}", l) };
    c.texture_hashes = Some(vec![vec![slot("Diffuse"), slot("ShadowRamp"), slot("LightMap")]]);
    let out = build_genshin_mod("Mod", &vec![c.clone()], &vec![sources(&[], vec![])], true, "v").unwrap();
    assert!(!out.ini_text.contains("ShadowRamp"));
    assert!(out.ini_text.contains("[TextureOverrideModHeadLightMap]\nhash = hLightMap\nps-t2 = ResourceModHeadLightMap\n"));
    let out = build_genshin_mod("Mod", &vec![c], &vec![sources(&[], vec![])], false, "v").unwrap();
    assert!(out.ini_text.contains("ps-t1 = ResourceModHeadShadowRamp"));
    assert_eq!(out.texture_copies.len(), 3);
}

#[test]
fn face_uses_its_first_texture_only() {
    let mut c = component(Some("Face"), "draw", "", 1);
    let slot = |l: &str| TextureSlot { label: l.to_string(), extension: ".dds".to_string(), hash: format!("h{}", l) };
    c.texture_hashes = Some(vec![vec![slot("Diffuse"), slot("LightMap")]]);
    let objs = vec![ObjectBuffers { vb: vec![0; 8], ib: vec![] }];
    let out = build_genshin_mod("Mod", &vec![c], &vec![sources(&["stride: 8"], objs)], false, "").unwrap();
    assert!(out.ini_text.contains("[TextureOverrideModFaceHead]\nhash = ibhash\nmatch_first_index = 0\nib = null\n"));
    assert!(out.ini_text.contains("[TextureOverrideModFaceHeadDiffuse]\nhash = hDiffuse\nps-t0 = ResourceModFaceHeadDiffuse\n"));
    assert!(!out.ini_text.contains("LightMap"));
}

#[test]
fn labels_count_on_past_the_last() {
    let c = component(None, "", "", 5);
    let classes = classifications(&c);
    assert_eq!(object_label(&classes, 1), "Body");
    assert_eq!(object_label(&classes, 3), "Extra2");
    assert_eq!(object_label(&classes, 4), "Extra3");
}

#[test]
fn build_errors() {
    let c = component(None, "draw", "blend", 1);
    let objs = vec![ObjectBuffers { vb: vec![], ib: vec![] }];
    assert_eq!(build_genshin_mod("", &vec![], &vec![], false, "").unwrap_err(), BuildError::MissingName);
    assert_eq!(build_genshin_mod("M", &vec![c.clone()], &vec![], false, "").unwrap_err(), BuildError::SourcesMismatch);
    assert_eq!(build_genshin_mod("M", &vec![c.clone()], &vec![sources(&["stride: 40"], objs.clone())], false, "").unwrap_err(), BuildError::BadStride);
    assert_eq!(build_genshin_mod("M", &vec![c.clone()], &vec![sources(&["stride: x"], objs.clone())], false, "").unwrap_err(), BuildError::BadStride);
    assert_eq!(build_genshin_mod("M", &vec![c.clone()], &vec![sources(&[], objs.clone())], false, "").unwrap_err(), BuildError::BadStride);
    assert_eq!(build_genshin_mod("M", &vec![c.clone()], &vec![sources(&["stride: 80"], vec![])], false, "").unwrap_err(), BuildError::SourcesMismatch);
    let mut bad = c.clone();
    bad.object_classifications = Some(vec![]);
    assert!(!metadata_valid(&bad));
    assert_eq!(build_genshin_mod("M", &vec![bad], &vec![sources(&["stride: 80"], objs.clone())], false, "").unwrap_err(), BuildError::MetadataMalformed);
    let mut short = c;
    short.texture_hashes = Some(vec![]);
    assert_eq!(build_genshin_mod("M", &vec![short], &vec![sources(&["stride: 80"], objs)], false, "").unwrap_err(), BuildError::MetadataMalformed);
}

#[test]
fn stride_lines_are_read_like_the_side_file() {
    let lines = |v: &[&str]| v.iter().map(|s| s.to_string()).collect::<Vec<_>>();
    assert_eq!(stride_from_lines(&lines(&["a", "stride: 40", "b"])), Ok(40));
    assert_eq!(stride_from_lines(&lines(&["stride: 40", "  stride:\t 72 \r"])), Ok(72));
    assert_eq!(stride_from_lines(&lines(&[])), Ok(0));
    assert_eq!(stride_from_lines(&lines(&["stride: -1"])), Err(BuildError::BadStride));
    assert_eq!(parse_usize("+12"), Some(12));
    assert_eq!(parse_usize("+"), None);
    assert_eq!(parse_usize("18446744073709551616"), None);
    assert_eq!(parse_usize("18446744073709551615"), Some(usize::MAX));
}

#[test]
fn metadata_sources() {
    let a = component(Some("A"), "", "", 0);
    let b = component(Some("B"), "", "", 0);
    let got = select_components(HashSource::Legacy(vec![("x".to_string(), a.clone()), ("y".to_string(), b)]), "y").unwrap();
    assert_eq!(got[0].component_name.as_deref(), Some("B"));
    assert_eq!(select_components(HashSource::Legacy(vec![("x".to_string(), a.clone())]), "y").unwrap_err(), BuildError::ComponentNotFound);
    assert_eq!(select_components(HashSource::Missing, "y").unwrap_err(), BuildError::HashesNotFound);
    assert_eq!(select_components(HashSource::Current(vec![a]), "y").unwrap().len(), 1);
    assert_eq!(check_build_request("", true, true), Err(BuildError::MissingName));
    assert_eq!(check_build_request("m", false, true), Err(BuildError::MissingAssets));
    assert_eq!(check_build_request("m", true, false), Err(BuildError::MissingTemp));
    assert_eq!(check_build_request("m", true, true), Ok(()));
}
