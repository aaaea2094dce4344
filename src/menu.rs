//! Menu choices and the selection of a packaged variant.
use vstd::prelude::*;
use vstd::string::StringExecFns;
use crate::parse::{parse_unsigned, parse_usize};
use crate::text::{chars_of, concat, digits, radix_string, texts};

verus! {

/// What `str::to_lowercase` makes of a text.
pub uninterp spec fn lower_of(s: Seq<char>) -> Seq<char>;

/// Relies on `str::to_lowercase`: the result depends on the characters
/// alone.
#[verifier::external_body]
fn lowercase(s: &str) -> (r: String)
    ensures
        r@ == lower_of(s@),
{
    s.to_lowercase()
}

/// Whether some entry equals `key`.
pub open spec fn has_entry(entries: Seq<Seq<char>>, key: Seq<char>) -> bool {
    exists|i: int| 0 <= i < entries.len() && entries[i] == key
}

/// The first entry equal to `key`.
pub open spec fn first_entry(entries: Seq<Seq<char>>, key: Seq<char>) -> int {
    choose|i: int| 0 <= i < entries.len() && entries[i] == key && forall|j: int| 0 <= j < i ==> entries[j] != key
}

/// The menu entry chosen by `input`, given the lower-cased input and
/// entries: the first one when the input is empty and there is a default,
/// else the first entry equal to the input (case aside), else the entry whose
/// number the input writes.
pub open spec fn choice_of(input: Seq<char>, lowered: Seq<char>, entries: Seq<Seq<char>>, default: bool) -> Option<nat> {
    if default && input.len() == 0 && entries.len() > 0 {
        Some(0)
    } else if has_entry(entries, lowered) {
        Some(first_entry(entries, lowered) as nat)
    } else {
        match parse_unsigned(input) {
            Some(v) => if v < entries.len() { Some(v) } else { None },
            None => None,
        }
    }
}

/// The menu entry that `input` chooses, from the lower-cased input and
/// entries.
pub fn choose_lowered(input: &str, lowered: &str, lowered_entries: &Vec<String>, default: bool) -> (r: Option<usize>)
    ensures
        match choice_of(input@, lowered@, texts(lowered_entries@), default) {
            Some(v) => r == Some(v as usize),
            None => r is None,
        },
{
    let ghost es = texts(lowered_entries@);
    if default && input.is_empty() && lowered_entries.len() > 0 {
        return Some(0);
    }
    let key = String::from_str(lowered);
    let mut i: usize = 0;
    while i < lowered_entries.len()
        invariant
            i <= lowered_entries.len(),
            es == texts(lowered_entries@),
            key@ == lowered@,
            !(default && input@.len() == 0 && es.len() > 0),
            forall|j: int| 0 <= j < i ==> es[j] != lowered@,
        decreases lowered_entries.len() - i,
    {
        if lowered_entries[i] == key {
            proof {
                assert(es[i as int] == lowered@);
                assert(has_entry(es, lowered@));
                let f = first_entry(es, lowered@);
                assert(0 <= i < es.len() && es[i as int] == lowered@ && forall|j: int| 0 <= j < i ==> es[j] != lowered@);
                if f < i {
                    assert(es[f] != lowered@);
                }
                if f > i {
                    assert(es[i as int] != lowered@);
                }
                assert(f == i);
                assert(choice_of(input@, lowered@, es, default) == Some(i as nat));
            }
            return Some(i);
        }
        i = i + 1;
    }
    assert(!has_entry(es, lowered@));
    match parse_usize(input) {
        Some(v) => if v < lowered_entries.len() { Some(v) } else { None },
        None => None,
    }
}

/// The menu entry that `input` chooses among `entries`: the first one when
/// the input is empty and there is a default, else the first entry equal to
/// the input regardless of case, else the entry whose number it writes.
pub fn choose_entry(input: &str, entries: &Vec<String>, default: bool) -> (r: Option<usize>)
    ensures
        match choice_of(input@, lower_of(input@), texts(entries@).map_values(|e: Seq<char>| lower_of(e)), default) {
            Some(v) => r == Some(v as usize),
            None => r is None,
        },
{
    let mut lowered: Vec<String> = Vec::new();
    let mut i: usize = 0;
    while i < entries.len()
        invariant
            i <= entries.len(),
            lowered.len() == i,
            forall|k: int| 0 <= k < i ==> #[trigger] lowered@[k]@ == lower_of(entries@[k]@),
        decreases entries.len() - i,
    {
        lowered.push(lowercase(entries[i].as_str()));
        i = i + 1;
    }
    assert(texts(lowered@) =~= texts(entries@).map_values(|e: Seq<char>| lower_of(e)));
    let input_lower = lowercase(input);
    choose_lowered(input, input_lower.as_str(), &lowered, default)
}

/// One configurable option of a packaged mod: its label and its variants.
#[derive(Debug, Clone)]
pub struct VariantOption {
    pub label: String,
    pub variants: Vec<String>,
}

/// A packaged mod's selection config: its name and its options.
#[derive(Debug, Clone)]
pub struct ModConfig {
    pub name: String,
    pub options: Vec<VariantOption>,
}

/// The identifier of a choice of variants: each option's chosen index in
/// hexadecimal, in option order.
pub open spec fn variant_id_of(chosen: Seq<usize>) -> Seq<char>
    decreases chosen.len(),
{
    if chosen.len() == 0 {
        Seq::empty()
    } else {
        variant_id_of(chosen.drop_last()) + digits(chosen.last() as nat, true)
    }
}

/// The identifier of a choice of variants.
pub fn variant_id(chosen: &Vec<usize>) -> (r: String)
    ensures
        r@ == variant_id_of(chosen@),
{
    let mut r = String::new();
    let mut i: usize = 0;
    while i < chosen.len()
        invariant
            i <= chosen.len(),
            r@ == variant_id_of(chosen@.take(i as int)),
        decreases chosen.len() - i,
    {
        let h = radix_string(chosen[i], true);
        r.append(h.as_str());
        i = i + 1;
        assert(chosen@.take(i as int).drop_last() =~= chosen@.take(i - 1));
    }
    assert(chosen@.take(i as int) =~= chosen@);
    r
}

/// Whether every option's choice names one of its variants.
pub open spec fn choices_fit(config: ModConfig, chosen: Seq<usize>) -> bool {
    &&& chosen.len() == config.options.len()
    &&& forall|i: int| 0 <= i < chosen.len() ==> chosen[i] < (#[trigger] config.options@[i]).variants.len()
}

/// The lines of the variant menu: `label: variant` for each option, then
/// `Exit` and `Finished`.
pub fn variant_menu(config: &ModConfig, chosen: &Vec<usize>) -> (r: Vec<String>)
    requires
        choices_fit(*config, chosen@),
    ensures
        r.len() == config.options.len() + 2,
        forall|i: int| 0 <= i < config.options.len() ==> #[trigger] r@[i]@ == config.options@[i].label@
            + ": "@ + config.options@[i].variants@[chosen@[i] as int]@,
        r@[config.options.len() as int]@ == "Exit"@,
        r@[config.options.len() + 1]@ == "Finished"@,
{
    let n = config.options.len();
    let mut r: Vec<String> = Vec::new();
    let mut i: usize = 0;
    while i < n
        invariant
            n == config.options.len(),
            choices_fit(*config, chosen@),
            i <= n,
            r.len() == i,
            forall|k: int| 0 <= k < i ==> #[trigger] r@[k]@ == config.options@[k].label@ + ": "@
                + config.options@[k].variants@[chosen@[k] as int]@,
        decreases n - i,
    {
        let o = &config.options[i];
        assert(chosen@[i as int] < o.variants.len());
        let line = concat(concat(o.label.as_str(), ": ").as_str(), o.variants[chosen[i]].as_str());
        r.push(line);
        i = i + 1;
    }
    r.push(String::from_str("Exit"));
    r.push(String::from_str("Finished"));
    r
}

/// What a line of the variant menu does.
#[derive(Debug, Clone, Copy, PartialEq, Eq, Structural)]
pub enum VariantAction {
    /// Change the variant of this option.
    Change(usize),
    /// Leave the menu.
    Exit,
    /// Build the chosen variant.
    Finish,
}

/// The action of line `choice` of a variant menu with `options` options.
pub fn variant_action(choice: usize, options: usize) -> (r: VariantAction)
    requires
        choice < options + 2,
    ensures
        choice < options ==> r == VariantAction::Change(choice),
        choice == options ==> r == VariantAction::Exit,
        choice == options + 1 ==> r == VariantAction::Finish,
{
    if choice < options {
        VariantAction::Change(choice)
    } else if choice == options {
        VariantAction::Exit
    } else {
        VariantAction::Finish
    }
}

/// Whether an archive entry belongs to variant `id`: its name starts with
/// `id/`.
pub fn in_variant(entry_name: &str, id: &str) -> (r: bool)
    ensures
        r == (id@ + seq!['/']).is_prefix_of(entry_name@),
{
    let name = chars_of(entry_name);
    let mut pre = chars_of(id);
    pre.push('/');
    if pre.len() > name.len() {
        return false;
    }
    let mut i: usize = 0;
    while i < pre.len()
        invariant
            pre.len() <= name.len(),
            pre@ == id@ + seq!['/'],
            name@ == entry_name@,
            i <= pre.len(),
            forall|k: int| 0 <= k < i ==> pre@[k] == name@[k],
        decreases pre.len() - i,
    {
        if pre[i] != name[i] {
            return false;
        }
        i = i + 1;
    }
    true
}

} // verus!
