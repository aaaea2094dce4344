//! The override configuration: named chunks of attribute lines, collected
//! under named slots and rendered into a text template.
use vstd::prelude::*;
use vstd::string::StringExecFns;
use crate::text::{join, join_strings, push_char, replace_all, replace_str, texts};

verus! {

/// What a chunk holds: its section name and its lines, in order.
pub struct ChunkView {
    pub name: Seq<char>,
    pub attrs: Seq<Seq<char>>,
}

/// What a slot holds: its name and its chunks in insertion order.
pub struct SlotView {
    pub name: Seq<char>,
    pub chunks: Seq<ChunkView>,
}

pub open spec fn newline() -> Seq<char> {
    seq!['\n']
}

pub open spec fn blank_line() -> Seq<char> {
    seq!['\n', '\n']
}

/// The line `name = value`.
pub open spec fn attr_line(name: Seq<char>, value: Seq<char>) -> Seq<char> {
    name + seq![' ', '=', ' '] + value
}

/// A chunk as it appears in the configuration: `[name]`, its lines, and a
/// closing line break.
pub open spec fn chunk_text(c: ChunkView) -> Seq<char> {
    seq!['['] + c.name + seq![']', '\n'] + join(c.attrs, newline()) + newline()
}

/// The chunks of a slot, rendered and separated by a blank line.
pub open spec fn slot_text(s: SlotView) -> Seq<char> {
    join(s.chunks.map_values(|c: ChunkView| chunk_text(c)), blank_line())
}

/// The placeholder `<name>` that a template holds for a slot.
pub open spec fn token(name: Seq<char>) -> Seq<char> {
    seq!['<'] + name + seq!['>']
}

/// The template once each slot's placeholder, slot by slot in order, has been
/// replaced by the slot's text.
pub open spec fn render(template: Seq<char>, slots: Seq<SlotView>) -> Seq<char>
    decreases slots.len(),
{
    if slots.len() == 0 {
        template
    } else {
        replace_all(
            render(template, slots.drop_last()),
            token(slots.last().name),
            slot_text(slots.last()),
        )
    }
}

/// Whether some slot is named `name`.
pub open spec fn has_slot(slots: Seq<SlotView>, name: Seq<char>) -> bool {
    exists|j: int| 0 <= j < slots.len() && slots[j].name == name
}

/// The first slot named `name`.
pub open spec fn first_slot(slots: Seq<SlotView>, name: Seq<char>) -> int {
    choose|j: int|
        0 <= j < slots.len() && slots[j].name == name && forall|k: int|
            0 <= k < j ==> slots[k].name != name
}

#[verifier::opaque]
/// The slots once `chunk` has been appended to the slot `name`, which is
/// added at the end when it is new.
pub open spec fn inserted(slots: Seq<SlotView>, name: Seq<char>, chunk: ChunkView) -> Seq<SlotView> {
    if has_slot(slots, name) {
        let j = first_slot(slots, name);
        slots.update(j, SlotView { name, chunks: slots[j].chunks.push(chunk) })
    } else {
        slots.push(SlotView { name, chunks: seq![chunk] })
    }
}

proof fn lemma_inserted_existing(slots: Seq<SlotView>, name: Seq<char>, chunk: ChunkView, i: int)
    requires
        0 <= i < slots.len(),
        i == first_slot(slots, name),
        has_slot(slots, name),
    ensures
        inserted(slots, name, chunk) == slots.update(
            i,
            SlotView { name, chunks: slots[i].chunks.push(chunk) },
        ),
{
    reveal(inserted);
}

proof fn lemma_inserted_new(slots: Seq<SlotView>, name: Seq<char>, chunk: ChunkView)
    requires
        !has_slot(slots, name),
    ensures
        inserted(slots, name, chunk) == slots.push(SlotView { name, chunks: seq![chunk] }),
{
    reveal(inserted);
}

/// A slot name without angle brackets.
pub open spec fn plain_name(n: Seq<char>) -> bool {
    !n.contains('<') && !n.contains('>')
}

proof fn lemma_no_open_bracket_unchanged(s: Seq<char>, x: Seq<char>, with: Seq<char>)
    requires
        !s.contains('<'),
    ensures
        replace_all(s, token(x), with) == s,
    decreases s.len(),
{
    let p = token(x);
    if s.len() >= p.len() {
        assert(s.subrange(0, p.len() as int)[0] == s[0]);
        assert(s.subrange(0, p.len() as int) != p);
        assert(!s.drop_first().contains('<')) by {
            if s.drop_first().contains('<') {
                let k = choose|k: int| 0 <= k < s.drop_first().len() && s.drop_first()[k] == '<';
                assert(s[k + 1] == '<');
            }
        }
        lemma_no_open_bracket_unchanged(s.drop_first(), x, with);
        assert(seq![s[0]] + s.drop_first() =~= s);
    }
}

proof fn lemma_other_token_untouched(x: Seq<char>, y: Seq<char>, with: Seq<char>)
    requires
        plain_name(y),
        x != y,
    ensures
        replace_all(token(y), token(x), with) == token(y),
{
    let s = token(y);
    let p = token(x);
    if s.len() >= p.len() {
        if s.subrange(0, p.len() as int) == p {
            if p.len() == s.len() {
                assert(s.subrange(0, p.len() as int) =~= s);
                assert(x =~= p.subrange(1, p.len() - 1));
                assert(y =~= s.subrange(1, s.len() - 1));
            } else {
                assert(p[p.len() - 1] == '>');
                assert(s[p.len() - 1] == y[p.len() - 2]);
                assert(y.contains('>'));
            }
        }
        let rest = s.drop_first();
        assert(rest =~= y + seq!['>']);
        assert(!rest.contains('<')) by {
            if rest.contains('<') {
                let k = choose|k: int| 0 <= k < rest.len() && rest[k] == '<';
                if k < y.len() {
                    assert(y[k] == '<');
                }
            }
        }
        lemma_no_open_bracket_unchanged(rest, x, with);
        assert(seq![s[0]] + rest =~= s);
    }
}

/// Chunks put into one slot come out in the order in which they went in:
/// rendering `<x>` after inserting `a` then `b` into slot `x` of an empty
/// configuration gives `a`'s text, a blank line, then `b`'s text.
pub proof fn law_slot_keeps_insertion_order(x: Seq<char>, a: ChunkView, b: ChunkView)
    ensures
        render(token(x), inserted(inserted(Seq::empty(), x, a), x, b))
            == chunk_text(a) + blank_line() + chunk_text(b),
{
    let empty = Seq::<SlotView>::empty();
    assert(!has_slot(empty, x));
    lemma_inserted_new(empty, x, a);
    let one = inserted(empty, x, a);
    assert(one[0].name == x);
    assert(has_slot(one, x));
    let j = first_slot(one, x);
    assert(j == 0);
    lemma_inserted_existing(one, x, b, 0);
    let two = inserted(one, x, b);
    let slot = two.last();
    assert(slot.chunks =~= seq![a, b]);
    let parts = slot.chunks.map_values(|c: ChunkView| chunk_text(c));
    assert(parts =~= seq![chunk_text(a), chunk_text(b)]);
    assert(parts.drop_last() =~= seq![chunk_text(a)]);
    assert(two.drop_last() =~= empty);
    let t = token(x);
    assert(t.subrange(0, t.len() as int) =~= t);
    let rest = t.subrange(t.len() as int, t.len() as int);
    assert(replace_all(rest, t, slot_text(slot)) == rest);
    assert(rest =~= Seq::<char>::empty());
    assert(slot_text(slot) + rest =~= slot_text(slot));
    assert(slot.name == x);
    assert(render(t, two.drop_last()) == t);
    assert(replace_all(t, t, slot_text(slot)) == slot_text(slot));
    assert(join(parts.drop_last(), blank_line()) == chunk_text(a));
    assert(slot_text(slot) == chunk_text(a) + blank_line() + chunk_text(b));
}

/// A placeholder whose slot received no chunk is left in the output as it
/// is, whatever the other slots hold.
pub proof fn law_unfilled_slot_stays(slots: Seq<SlotView>, y: Seq<char>)
    requires
        !has_slot(slots, y),
        plain_name(y),
    ensures
        render(token(y), slots) == token(y),
    decreases slots.len(),
{
    if slots.len() > 0 {
        let rest = slots.drop_last();
        assert(!has_slot(rest, y)) by {
            if has_slot(rest, y) {
                let j = choose|j: int| 0 <= j < rest.len() && rest[j].name == y;
                assert(slots[j].name == y);
            }
        }
        law_unfilled_slot_stays(rest, y);
        assert(slots[slots.len() - 1].name != y);
        lemma_other_token_untouched(slots.last().name, y, slot_text(slots.last()));
    }
}

/// Whether `pat` occurs in `s` at position `k`.
pub open spec fn occurs_at(s: Seq<char>, pat: Seq<char>, k: int) -> bool {
    0 <= k && k + pat.len() <= s.len() && s.subrange(k, k + pat.len()) == pat
}

/// Whether `pat` occurs in `s`.
pub open spec fn occurs(s: Seq<char>, pat: Seq<char>) -> bool {
    exists|k: int| occurs_at(s, pat, k)
}

proof fn lemma_skip_plain_prefix(u: Seq<char>, v: Seq<char>, x: Seq<char>, with: Seq<char>)
    requires
        !u.contains('<'),
    ensures
        replace_all(u + v, token(x), with) == u + replace_all(v, token(x), with),
    decreases u.len(),
{
    let p = token(x);
    let s = u + v;
    if u.len() == 0 {
        assert(s =~= v);
        assert(u + replace_all(v, p, with) =~= replace_all(v, p, with));
    } else if s.len() < p.len() {
        assert(replace_all(v, p, with) == v);
    } else {
        assert(s.subrange(0, p.len() as int)[0] == u[0]);
        assert(u[0] != '<');
        assert(s.subrange(0, p.len() as int) != p);
        assert(s.drop_first() =~= u.drop_first() + v);
        assert(!u.drop_first().contains('<')) by {
            if u.drop_first().contains('<') {
                let k = choose|k: int| 0 <= k < u.drop_first().len() && u.drop_first()[k] == '<';
                assert(u[k + 1] == '<');
            }
        }
        lemma_skip_plain_prefix(u.drop_first(), v, x, with);
        assert(seq![s[0]] + (u.drop_first() + replace_all(v, p, with)) =~= u + replace_all(v, p, with));
    }
}

proof fn lemma_token_survives(s: Seq<char>, x: Seq<char>, y: Seq<char>, with: Seq<char>, k: int)
    requires
        plain_name(x),
        plain_name(y),
        x != y,
        occurs_at(s, token(y), k),
    ensures
        occurs(replace_all(s, token(x), with), token(y)),
    decreases s.len(),
{
    let p = token(x);
    let t = token(y);
    let n = p.len() as int;
    let out = replace_all(s, p, with);
    if s.len() < n {
        assert(occurs_at(out, t, k));
    } else if s.subrange(0, n) == p {
        let rest = s.subrange(n, s.len() as int);
        if k >= n {
            assert(rest.subrange(k - n, k - n + t.len()) =~= s.subrange(k, k + t.len()));
            lemma_token_survives(rest, x, y, with, k - n);
            let inner = replace_all(rest, p, with);
            let j = choose|j: int| occurs_at(inner, t, j);
            assert((with + inner).subrange(with.len() + j, with.len() + j + t.len()) =~= inner.subrange(j, j + t.len()));
            assert(occurs_at(out, t, with.len() + j));
        } else {
            assert(s[k] == t[0]);
            assert(s[k] == p[k]);
            if k == 0 {
                if x.len() == y.len() {
                    assert(x =~= p.subrange(1, n - 1));
                    assert(y =~= t.subrange(1, n - 1));
                    assert(p.subrange(1, n - 1) =~= s.subrange(1, n - 1));
                    assert(t.subrange(1, n - 1) =~= s.subrange(1, n - 1));
                } else if x.len() < y.len() {
                    assert(s[n - 1] == p[n - 1]);
                    assert(s[n - 1] == t[n - 1]);
                    assert(y[n - 2] == '>');
                } else {
                    let m = t.len() - 1;
                    assert(s[m] == t[m]);
                    assert(s[m] == p[m]);
                    assert(x[m - 1] == '>');
                }
            } else if k < n - 1 {
                assert(x[k - 1] == '<');
            }
        }
    } else {
        let tail = s.drop_first();
        if k >= 1 {
            assert(tail.subrange(k - 1, k - 1 + t.len()) =~= s.subrange(k, k + t.len()));
            lemma_token_survives(tail, x, y, with, k - 1);
            let inner = replace_all(tail, p, with);
            let j = choose|j: int| occurs_at(inner, t, j);
            assert((seq![s[0]] + inner).subrange(1 + j, 1 + j + t.len()) =~= inner.subrange(j, j + t.len()));
            assert(occurs_at(out, t, 1 + j));
        } else {
            let u = y + seq!['>'];
            let w = s.subrange(t.len() as int, s.len() as int);
            assert(s.subrange(0, t.len() as int) == t);
            assert forall|i: int| 0 <= i < t.len() implies s[i] == t[i] by {
                assert(s.subrange(0, t.len() as int)[i] == s[i]);
            }
            assert(t[0] == '<');
            assert(tail =~= u + w);
            assert(!u.contains('<')) by {
                if u.contains('<') {
                    let i = choose|i: int| 0 <= i < u.len() && u[i] == '<';
                    if i < y.len() {
                        assert(y[i] == '<');
                    }
                }
            }
            lemma_skip_plain_prefix(u, w, x, with);
            let z = replace_all(w, p, with);
            assert(s[0] == '<');
            assert((seq![s[0]] + (u + z)).subrange(0, t.len() as int) =~= t);
            assert(occurs_at(out, t, 0));
        }
    }
}

/// A placeholder whose slot received no chunk stays in the output wherever
/// the template holds it, whatever the other slots hold (slot names being
/// free of angle brackets).
pub proof fn law_unfilled_placeholder_survives(template: Seq<char>, slots: Seq<SlotView>, y: Seq<char>)
    requires
        !has_slot(slots, y),
        plain_name(y),
        forall|j: int| 0 <= j < slots.len() ==> plain_name(#[trigger] slots[j].name),
        occurs(template, token(y)),
    ensures
        occurs(render(template, slots), token(y)),
    decreases slots.len(),
{
    if slots.len() > 0 {
        let rest = slots.drop_last();
        assert(!has_slot(rest, y)) by {
            if has_slot(rest, y) {
                let j = choose|j: int| 0 <= j < rest.len() && rest[j].name == y;
                assert(slots[j].name == y);
            }
        }
        assert forall|j: int| 0 <= j < rest.len() implies plain_name(#[trigger] rest[j].name) by {
            assert(rest[j] == slots[j]);
        }
        law_unfilled_placeholder_survives(template, rest, y);
        let before = render(template, rest);
        let k = choose|k: int| occurs_at(before, token(y), k);
        assert(slots[slots.len() - 1].name != y);
        assert(plain_name(slots[slots.len() - 1].name));
        lemma_token_survives(before, slots.last().name, y, slot_text(slots.last()), k);
    }
}

/// One section of the configuration.
#[derive(Debug, Clone)]
pub struct IniChunk {
    name: String,
    attrs: Vec<String>,
}

impl View for IniChunk {
    type V = ChunkView;

    closed spec fn view(&self) -> ChunkView {
        ChunkView { name: self.name@, attrs: texts(self.attrs@) }
    }
}

impl IniChunk {
    /// A chunk named `name`, with no lines yet.
    pub fn new(name: &str) -> (r: IniChunk)
        ensures
            r@ == (ChunkView { name: name@, attrs: Seq::empty() }),
    {
        let r = IniChunk { name: String::from_str(name), attrs: Vec::new() };
        assert(texts(r.attrs@) =~= Seq::empty());
        r
    }

    /// The chunk with the line `name = value` added at the end.
    pub fn attr(self, name: &str, value: &str) -> (r: IniChunk)
        ensures
            r@ == (ChunkView { name: self@.name, attrs: self@.attrs.push(attr_line(name@, value@)) }),
    {
        let mut line = String::from_str(name);
        push_char(&mut line, ' ');
        push_char(&mut line, '=');
        push_char(&mut line, ' ');
        line.append(value);
        assert(line@ =~= attr_line(name@, value@));
        self.push_line(line)
    }

    /// The chunk with the line `text` added at the end, as it is.
    pub fn push(self, text: &str) -> (r: IniChunk)
        ensures
            r@ == (ChunkView { name: self@.name, attrs: self@.attrs.push(text@) }),
    {
        self.push_line(String::from_str(text))
    }

    fn push_line(self, line: String) -> (r: IniChunk)
        ensures
            r@ == (ChunkView { name: self@.name, attrs: self@.attrs.push(line@) }),
    {
        let mut r = self;
        r.attrs.push(line);
        assert(texts(r.attrs@) =~= texts(self.attrs@).push(line@));
        r
    }

    /// The chunk as text: `[name]`, then each line, then a line break.
    pub fn format(&self) -> (r: String)
        ensures
            r@ == chunk_text(self@),
    {
        let mut r = String::new();
        push_char(&mut r, '[');
        r.append(self.name.as_str());
        push_char(&mut r, ']');
        push_char(&mut r, '\n');
        let mut sep = String::new();
        push_char(&mut sep, '\n');
        let body = join_strings(&self.attrs, sep.as_str());
        r.append(body.as_str());
        push_char(&mut r, '\n');
        assert(r@ =~= chunk_text(self@));
        r
    }
}

/// The chunks collected under one slot name.
#[derive(Debug, Clone)]
pub struct Slot {
    name: String,
    chunks: Vec<IniChunk>,
}

impl View for Slot {
    type V = SlotView;

    closed spec fn view(&self) -> SlotView {
        SlotView { name: self.name@, chunks: self.chunks@.map_values(|c: IniChunk| c@) }
    }
}

/// The whole configuration: slots in the order in which they were first used.
#[derive(Debug, Clone)]
pub struct IniConfig {
    slots: Vec<Slot>,
}

impl View for IniConfig {
    type V = Seq<SlotView>;

    closed spec fn view(&self) -> Seq<SlotView> {
        self.slots@.map_values(|s: Slot| s@)
    }
}

impl IniConfig {
    /// A configuration with no slot.
    pub fn new() -> (r: IniConfig)
        ensures
            r@ == Seq::<SlotView>::empty(),
    {
        let r = IniConfig { slots: Vec::new() };
        assert(r@ =~= Seq::<SlotView>::empty());
        r
    }

    /// Appends `chunk` to the slot `name`, creating the slot on first use.
    pub fn insert(&mut self, name: &str, chunk: IniChunk)
        ensures
            final(self)@ == inserted(old(self)@, name@, chunk@),
    {
        let key = String::from_str(name);
        match self.find(&key) {
            Some(i) => {
                self.append_at(i, chunk);
                proof {
                    lemma_inserted_existing(old(self)@, name@, chunk@, i as int);
                }
            },
            None => {
                self.add_slot(key, chunk);
                proof {
                    lemma_inserted_new(old(self)@, name@, chunk@);
                }
            },
        }
    }

    fn append_at(&mut self, i: usize, chunk: IniChunk)
        requires
            i < old(self)@.len(),
        ensures
            final(self)@ == old(self)@.update(
                i as int,
                SlotView { name: old(self)@[i as int].name, chunks: old(self)@[i as int].chunks.push(chunk@) },
            ),
    {
        let ghost before = self.slots[i as int].chunks@;
        self.slots[i].chunks.push(chunk);
        proof {
            assert(self.slots[i as int].chunks@.map_values(|c: IniChunk| c@)
                =~= before.map_values(|c: IniChunk| c@).push(chunk@));
            assert(self.slots@ =~= old(self).slots@.update(i as int, self.slots@[i as int]));
        }
        assert(self@ =~= old(self)@.update(
            i as int,
            SlotView { name: old(self)@[i as int].name, chunks: old(self)@[i as int].chunks.push(chunk@) },
        ));
    }

    fn add_slot(&mut self, key: String, chunk: IniChunk)
        ensures
            final(self)@ == old(self)@.push(SlotView { name: key@, chunks: seq![chunk@] }),
    {
        let mut chunks: Vec<IniChunk> = Vec::new();
        chunks.push(chunk);
        let slot = Slot { name: key, chunks };
        assert(slot@.chunks =~= seq![chunk@]);
        self.slots.push(slot);
        assert(self@ =~= old(self)@.push(SlotView { name: key@, chunks: seq![chunk@] }));
    }

    /// The position of the first slot named `key`.
    fn find(&self, key: &String) -> (r: Option<usize>)
        ensures
            match r {
                Some(i) => i < self@.len() && self@[i as int].name == key@ && has_slot(self@, key@) && i == first_slot(self@, key@),
                None => !has_slot(self@, key@),
            },
    {
        let mut i: usize = 0;
        while i < self.slots.len()
            invariant
                i <= self.slots.len(),
                forall|k: int| 0 <= k < i ==> self@[k].name != key@,
            decreases self.slots.len() - i,
        {
            if self.slots[i].name == *key {
                proof {
                    assert(self@[i as int].name == key@);
                    assert(has_slot(self@, key@));
                    assert(forall|k: int| 0 <= k < i ==> self@[k].name != key@);
                    let j = first_slot(self@, key@);
                    if j < i {
                        assert(self@[j].name != key@);
                    }
                    if j > i {
                        assert(self@[i as int].name != key@);
                    }
                }
                return Some(i);
            }
            i = i + 1;
        }
        None
    }

    /// Replaces, slot by slot, each slot's placeholder `<name>` in `template`
    /// by the slot's chunks, separated by a blank line. A placeholder with no
    /// slot stays as it is.
    pub fn format(&self, template: &str) -> (r: String)
        ensures
            r@ == render(template@, self@),
    {
        let mut text = String::from_str(template);
        let mut i: usize = 0;
        while i < self.slots.len()
            invariant
                i <= self.slots.len(),
                text@ == render(template@, self@.take(i as int)),
            decreases self.slots.len() - i,
        {
            let slot = &self.slots[i];
            let mut tok = String::new();
            push_char(&mut tok, '<');
            tok.append(slot.name.as_str());
            push_char(&mut tok, '>');
            let mut parts: Vec<String> = Vec::new();
            let mut k: usize = 0;
            while k < slot.chunks.len()
                invariant
                    k <= slot.chunks.len(),
                    parts.len() == k,
                    forall|m: int| 0 <= m < k ==> parts@[m]@ == chunk_text(slot.chunks@[m]@),
                decreases slot.chunks.len() - k,
            {
                parts.push(slot.chunks[k].format());
                k = k + 1;
            }
            let mut sep = String::new();
            push_char(&mut sep, '\n');
            push_char(&mut sep, '\n');
            let body = join_strings(&parts, sep.as_str());
            proof {
                assert(texts(parts@) =~= slot@.chunks.map_values(|c: ChunkView| chunk_text(c)));
                assert(tok@ =~= token(slot@.name));
                assert(self@.take(i as int + 1).drop_last() =~= self@.take(i as int));
                assert(self@.take(i as int + 1).last() == slot@);
                assert(sep@ =~= blank_line());
                assert(body@ == slot_text(slot@));
            }
            text = replace_str(text.as_str(), tok.as_str(), body.as_str());
            i = i + 1;
        }
        assert(self@.take(i as int) =~= self@);
        text
    }
}

} // verus!
