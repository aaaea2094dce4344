//! Conversion of source textures into compressed DDS files: which paths are
//! in flight, and what the converted file is called.
use vstd::prelude::*;
use vstd::string::StringExecFns;
use crate::text::chars_of;
use crate::watch::{path_of, paths_of, same_path};

verus! {

/// The paths whose conversion is running, each once, and the mod folder
/// that receives the converted files.
#[derive(Debug)]
pub struct DDSParser {
    path: String,
    running: Vec<Vec<String>>,
}

/// What the converter holds.
pub struct ParserView {
    pub path: Seq<char>,
    pub running: Seq<Seq<Seq<char>>>,
}

impl View for DDSParser {
    type V = ParserView;

    closed spec fn view(&self) -> ParserView {
        ParserView { path: self.path@, running: paths_of(self.running@) }
    }
}

/// The paths in flight once `p` has been submitted, and whether a
/// conversion of `p` starts: only when it was not already in flight.
pub open spec fn submitted(running: Seq<Seq<Seq<char>>>, p: Seq<Seq<char>>) -> (Seq<Seq<Seq<char>>>, bool) {
    if running.contains(p) { (running, false) } else { (running.push(p), true) }
}

/// The paths in flight once the conversion of `p` has ended.
pub open spec fn finished_path(running: Seq<Seq<Seq<char>>>, p: Seq<Seq<char>>) -> Seq<Seq<Seq<char>>>
    decreases running.len(),
{
    if running.len() == 0 {
        Seq::empty()
    } else {
        let prev = finished_path(running.drop_last(), p);
        if running.last() != p { prev.push(running.last()) } else { prev }
    }
}

proof fn lemma_submitted_distinct(running: Seq<Seq<Seq<char>>>, p: Seq<Seq<char>>)
    requires
        running.no_duplicates(),
    ensures
        submitted(running, p).0.no_duplicates(),
{
    if !running.contains(p) {
        let r = running.push(p);
        assert forall|i: int, j: int| 0 <= i < r.len() && 0 <= j < r.len() && i != j implies r[i] != r[j] by {
            if i == running.len() {
                assert(running[j] != p);
            } else if j == running.len() {
                assert(running[i] != p);
            }
        }
    }
}

proof fn lemma_finished_distinct(running: Seq<Seq<Seq<char>>>, p: Seq<Seq<char>>)
    requires
        running.no_duplicates(),
    ensures
        finished_path(running, p).no_duplicates(),
        forall|q: Seq<Seq<char>>| finished_path(running, p).contains(q) ==> running.contains(q) && q != p,
    decreases running.len(),
{
    if running.len() > 0 {
        let rest = running.drop_last();
        assert(rest.no_duplicates());
        lemma_finished_distinct(rest, p);
        let prev = finished_path(rest, p);
        assert forall|q: Seq<Seq<char>>| prev.contains(q) implies running.contains(q) by {
            assert(rest.contains(q));
            let k = choose|k: int| 0 <= k < rest.len() && rest[k] == q;
            assert(running[k] == q);
        }
        if running.last() != p {
            let r = prev.push(running.last());
            assert(!prev.contains(running.last())) by {
                if prev.contains(running.last()) {
                    assert(rest.contains(running.last()));
                    let k = choose|k: int| 0 <= k < rest.len() && rest[k] == running.last();
                    assert(running[k] == running[running.len() - 1]);
                }
            }
            assert forall|i: int, j: int| 0 <= i < r.len() && 0 <= j < r.len() && i != j implies r[i] != r[j] by {
                if i == prev.len() {
                    assert(prev.contains(prev[j]));
                } else if j == prev.len() {
                    assert(prev.contains(prev[i]));
                }
            }
            assert forall|q: Seq<Seq<char>>| r.contains(q) implies running.contains(q) && q != p by {
                let k = choose|k: int| 0 <= k < r.len() && r[k] == q;
                if k < prev.len() {
                    assert(prev[k] == q);
                    assert(prev.contains(q));
                    assert(finished_path(rest, p).contains(q));
                    assert(rest.contains(q));
                    assert(q != p);
                    assert(running.contains(q));
                } else {
                    assert(running[running.len() - 1] == q);
                    assert(running.contains(q));
                }
            }
        }
    }
}

/// Submitting a path twice while its first conversion has not ended starts
/// exactly one conversion, and the second submission changes nothing.
pub proof fn law_submit_is_deduplicated(running: Seq<Seq<Seq<char>>>, p: Seq<Seq<char>>)
    requires
        !running.contains(p),
    ensures
        submitted(running, p).1,
        !submitted(submitted(running, p).0, p).1,
        submitted(submitted(running, p).0, p).0 == submitted(running, p).0,
{
    let first = submitted(running, p).0;
    assert(first[first.len() - 1] == p);
    assert(first.contains(p));
}

impl DDSParser {
    /// A converter that writes into the mod folder `path`, with nothing in
    /// flight.
    pub fn new(path: String) -> (r: DDSParser)
        ensures
            r@ == (ParserView { path: path@, running: Seq::empty() }),
            r@.running.no_duplicates(),
    {
        let r = DDSParser { path, running: Vec::new() };
        assert(paths_of(r.running@) =~= Seq::empty());
        r
    }

    /// The mod folder that receives converted files.
    pub fn output_path(&self) -> (r: String)
        ensures
            r@ == self@.path,
    {
        self.path.clone()
    }

    /// Sends later conversions to the mod folder `path`.
    pub fn reload(&mut self, path: String)
        ensures
            final(self)@ == (ParserView { path: path@, running: old(self)@.running }),
            old(self)@.running.no_duplicates() ==> final(self)@.running.no_duplicates(),
    {
        if path != self.path {
            self.path = path;
        }
    }

    /// Submits `p` for conversion: returns whether a conversion must start,
    /// which is when `p` is a regular file (`is_file`) not already in flight;
    /// it is then in flight. Otherwise nothing changes.
    pub fn parse(&mut self, p: Vec<String>, is_file: bool) -> (r: bool)
        ensures
            !is_file ==> !r && final(self)@ == old(self)@,
            is_file ==> (final(self)@.running, r) == submitted(old(self)@.running, path_of(p)),
            final(self)@.path == old(self)@.path,
            old(self)@.running.no_duplicates() ==> final(self)@.running.no_duplicates(),
    {
        proof {
            if old(self)@.running.no_duplicates() {
                lemma_submitted_distinct(old(self)@.running, path_of(p));
            }
        }
        if !is_file {
            return false;
        }
        let mut i: usize = 0;
        while i < self.running.len()
            invariant
                i <= self.running.len(),
                forall|k: int| 0 <= k < i ==> paths_of(self.running@)[k] != path_of(p),
            decreases self.running.len() - i,
        {
            if same_path(&self.running[i], &p) {
                assert(paths_of(self.running@)[i as int] == path_of(p));
                assert(paths_of(self.running@).contains(path_of(p)));
                return false;
            }
            i = i + 1;
        }
        assert(!paths_of(self.running@).contains(path_of(p)));
        let ghost before = self.running@;
        self.running.push(p);
        assert(paths_of(self.running@) =~= paths_of(before).push(path_of(p)));
        true
    }

    /// Ends the conversion of `p`, whether it succeeded or not.
    pub fn finish(&mut self, p: &Vec<String>)
        ensures
            final(self)@ == (ParserView { path: old(self)@.path, running: finished_path(old(self)@.running, path_of(*p)) }),
            old(self)@.running.no_duplicates() ==> final(self)@.running.no_duplicates(),
    {
        proof {
            if old(self)@.running.no_duplicates() {
                lemma_finished_distinct(old(self)@.running, path_of(*p));
            }
        }
        let mut kept: Vec<Vec<String>> = Vec::new();
        let mut old_running: Vec<Vec<String>> = Vec::new();
        std::mem::swap(&mut old_running, &mut self.running);
        let ghost all = paths_of(old_running@);
        for q in it: old_running
            invariant
                all == paths_of(it.seq()),
                paths_of(kept@) == finished_path(all.take(it.index() as int), path_of(*p)),
        {
            proof {
                let k = it.index() as int;
                assert(all.take(k + 1).drop_last() =~= all.take(k));
                assert(all.take(k + 1).last() == path_of(q));
            }
            if !same_path(&q, p) {
                let ghost before = kept@;
                kept.push(q);
                assert(paths_of(kept@) =~= paths_of(before).push(path_of(q)));
            }
        }
        assert(all.take(all.len() as int) =~= all);
        self.running = kept;
    }

    /// Whether no conversion is in flight.
    pub fn finished(&self) -> (r: bool)
        ensures
            r == (self@.running.len() == 0),
    {
        self.running.len() == 0
    }
}

/// The position of the last `.` in `s`, if any.
pub open spec fn last_dot(s: Seq<char>) -> Option<int>
    decreases s.len(),
{
    if s.len() == 0 {
        None
    } else if s.last() == '.' {
        Some(s.len() - 1)
    } else {
        last_dot(s.drop_last())
    }
}

/// The stem of a file name: the part before the last `.`, or the whole name
/// when it has no `.` but a leading one.
pub open spec fn stem_of(name: Seq<char>) -> Seq<char> {
    match last_dot(name) {
        Some(k) => if k > 0 { name.take(k) } else { name },
        None => name,
    }
}

/// The name of the converted file: the source's stem with `.dds`.
pub fn dds_file_name(file_name: &str) -> (r: String)
    ensures
        r@ == stem_of(file_name@) + ".dds"@,
{
    let cs = chars_of(file_name);
    let mut k: usize = cs.len();
    assert(cs@.take(k as int) =~= cs@);
    while k > 0 && cs[k - 1] != '.'
        invariant
            k <= cs.len(),
            last_dot(cs@) == last_dot(cs@.take(k as int)),
        decreases k,
    {
        assert(cs@.take(k as int).drop_last() =~= cs@.take(k - 1));
        k = k - 1;
    }
    let end: usize = if k > 1 { k - 1 } else { cs.len() };
    proof {
        if k > 0 {
            assert(last_dot(cs@.take(k as int)) == Some(k - 1));
        } else {
            assert(cs@.take(0) =~= Seq::<char>::empty());
        }
    }
    let mut r = String::new();
    let mut i: usize = 0;
    while i < end
        invariant
            end <= cs.len(),
            i <= end,
            r@ == cs@.take(i as int),
        decreases end - i,
    {
        crate::text::push_char(&mut r, cs[i]);
        i = i + 1;
        assert(r@ =~= cs@.take(i as int));
    }
    assert(cs@.take(cs.len() as int) =~= cs@);
    r.append(".dds");
    r
}

} // verus!
