use hornyloader::ini::{IniChunk, IniConfig};
use hornyloader::package::ini_template;

#[test]
fn chunk_format_lists_lines() {
    let c = IniChunk::new("TextureOverrideX").attr("hash", "abc").push("endif");
    assert_eq!(c.format(), "[TextureOverrideX]\nhash = abc\nendif\n");
}

#[test]
fn chunk_without_lines() {
    let c = IniChunk::new("Empty");
    assert_eq!(c.format(), "[Empty]\n\n");
}

#[test]
fn slot_keeps_insertion_order() {
    let mut cfg = IniConfig::new();
    cfg.insert("x", IniChunk::new("A").attr("k", "1"));
    cfg.insert("x", IniChunk::new("B").attr("k", "2"));
    assert_eq!(cfg.format("<x>"), "[A]\nk = 1\n\n\n[B]\nk = 2\n");
}

#[test]
fn unfilled_slot_stays_in_output() {
    let mut cfg = IniConfig::new();
    cfg.insert("x", IniChunk::new("A"));
    assert_eq!(cfg.format("<y>|<x>"), "<y>|[A]\n\n");
}

#[test]
fn slots_fill_their_own_placeholders() {
    let mut cfg = IniConfig::new();
    cfg.insert("b", IniChunk::new("B"));
    cfg.insert("a", IniChunk::new("A"));
    assert_eq!(cfg.format("<a>-<b>-<a>"), "[A]\n\n-[B]\n\n-[A]\n\n");
}

#[test]
fn template_has_every_slot_in_order() {
    let t = ini_template();
    let order = ["<constant>", "<vb_override>", "<ib_override>", "<command>", "<vb_res>", "<ib_res>", "<tex_res>", "<other>"];
    let mut last = 0;
    for tok in order {
        let at = t.find(tok).unwrap();
        assert!(at >= last);
        last = at;
    }
    assert!(t.ends_with("; based GIMI (Genshin-Impact-Model-Importer)"));
}
