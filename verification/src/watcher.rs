//! What a changed file asks the orchestrator to do, and how the requests of
//! one debounce window merge into a batch.

use vstd::prelude::*;
use crate::text::{split_all, split_all_exec, to_chars};

verus! {

/// The workflow a change calls for.
#[derive(Debug, Clone, Copy, PartialEq, Eq, Structural)]
pub enum Intent {
    /// Web sources changed: rebuild the docs.
    Web,
    /// API sources changed: restart the API and regenerate the docs.
    Api,
    /// The common crate changed: rebuild it, restart the API, regenerate docs.
    Common,
    /// Dev-tools sources changed: rebuild them and regenerate the docs.
    DevTools,
}

/// The intents gathered in one debounce window.
#[derive(Debug, Clone, Copy, PartialEq, Eq, Structural, Default)]
pub struct IntentBatch {
    /// A web change was seen.
    pub web: bool,
    /// An API change was seen.
    pub api: bool,
    /// A common-crate change was seen.
    pub common: bool,
    /// A dev-tools change was seen.
    pub dev_tools: bool,
}

/// Whether the batch holds the intent.
pub open spec fn batch_has(b: IntentBatch, i: Intent) -> bool {
    match i {
        Intent::Web => b.web,
        Intent::Api => b.api,
        Intent::Common => b.common,
        Intent::DevTools => b.dev_tools,
    }
}

/// The batch as it is run: with a common change, the API and web intents
/// are dropped.
pub open spec fn merged(b: IntentBatch) -> IntentBatch {
    if b.common {
        IntentBatch { web: false, api: false, common: true, dev_tools: b.dev_tools }
    } else {
        b
    }
}

impl IntentBatch {
    /// An empty batch.
    pub fn new() -> (b: IntentBatch)
        ensures
            forall|i: Intent| !batch_has(b, i),
    {
        IntentBatch { web: false, api: false, common: false, dev_tools: false }
    }

    /// Adds an intent to the batch.
    pub fn add(&mut self, intent: Intent)
        ensures
            forall|i: Intent| batch_has(*final(self), i) == (batch_has(*old(self), i) || i == intent),
    {
        match intent {
            Intent::Web => self.web = true,
            Intent::Api => self.api = true,
            Intent::Common => self.common = true,
            Intent::DevTools => self.dev_tools = true,
        }
    }

    /// Whether no intent was added.
    pub fn is_empty(&self) -> (b: bool)
        ensures
            b == forall|i: Intent| !batch_has(*self, i),
    {
        let r = !self.web && !self.api && !self.common && !self.dev_tools;
        proof {
            if !r {
                if self.web {
                    assert(batch_has(*self, Intent::Web));
                } else if self.api {
                    assert(batch_has(*self, Intent::Api));
                } else if self.common {
                    assert(batch_has(*self, Intent::Common));
                } else {
                    assert(batch_has(*self, Intent::DevTools));
                }
            }
        }
        r
    }

    /// The batch as it is run: a common change already restarts the API and
    /// rebuilds the docs, so it drops the API and web intents.
    pub fn merged_for_execution(self) -> (r: IntentBatch)
        ensures
            r == merged(self),
    {
        if self.common {
            IntentBatch { web: false, api: false, common: true, dev_tools: self.dev_tools }
        } else {
            self
        }
    }
}

// ---------------------------------------------------------------------------
// Paths
// ---------------------------------------------------------------------------

/// A piece between separators that names a directory entry: neither empty
/// nor `.`.
pub open spec fn is_normal_piece(p: Seq<char>) -> bool {
    p.len() > 0 && p != seq!['.']
}

/// The pieces of `pieces` that name directory entries, in order.
pub open spec fn normal_pieces(pieces: Seq<Seq<char>>) -> Seq<Seq<char>>
    decreases pieces.len(),
{
    if pieces.len() == 0 {
        seq![]
    } else if is_normal_piece(pieces.last()) {
        normal_pieces(pieces.drop_last()).push(pieces.last())
    } else {
        normal_pieces(pieces.drop_last())
    }
}

/// The components of a Unix path as `Path::components` yields them, each by
/// its text: a leading `/` gives the root `/`, a leading `.` piece gives
/// `.`, and otherwise repeated separators and `.` pieces are dropped.
pub open spec fn path_components(s: Seq<char>) -> Seq<Seq<char>> {
    if s.len() > 0 && s[0] == '/' {
        seq![seq!['/']] + normal_pieces(split_all(s.drop_first(), '/'))
    } else {
        let pieces = split_all(s, '/');
        if pieces[0] == seq!['.'] {
            seq![seq!['.']] + normal_pieces(pieces.drop_first())
        } else {
            normal_pieces(pieces)
        }
    }
}

proof fn lemma_split_all_nonempty(s: Seq<char>, c: char)
    ensures
        split_all(s, c).len() > 0,
{
}

fn normal_pieces_exec(pieces: &Vec<Vec<char>>, from: usize) -> (r: Vec<Vec<char>>)
    requires
        from <= pieces.len(),
    ensures
        r@.map_values(|v: Vec<char>| v@) == normal_pieces(
            pieces@.map_values(|v: Vec<char>| v@).skip(from as int),
        ),
{
    let ghost all = pieces@.map_values(|v: Vec<char>| v@);
    let mut out: Vec<Vec<char>> = Vec::new();
    let mut i = from;
    proof {
        assert(all.skip(from as int).take(0) =~= Seq::<Seq<char>>::empty());
    }
    while i < pieces.len()
        invariant
            from <= i <= pieces.len(),
            all == pieces@.map_values(|v: Vec<char>| v@),
            out@.map_values(|v: Vec<char>| v@) == normal_pieces(
                all.skip(from as int).take(i - from),
            ),
        decreases pieces.len() - i,
    {
        let p = &pieces[i];
        let keep = p.len() > 0 && !(p.len() == 1 && p[0] == '.');
        proof {
            let t = all.skip(from as int).take(i + 1 - from);
            assert(t.drop_last() =~= all.skip(from as int).take(i - from));
            assert(t.last() == p@);
            if p@ == seq!['.'] {
                assert(p@.len() == 1 && p@[0] == '.');
            }
            if p.len() == 1 && p[0] == '.' {
                assert(p@ =~= seq!['.']);
            }
        }
        if keep {
            let ghost old_out = out@;
            out.push(copy_piece(p));
            proof {
                assert(out@.map_values(|v: Vec<char>| v@) =~= old_out.map_values(
                    |v: Vec<char>| v@,
                ).push(p@));
            }
        }
        i += 1;
    }
    proof {
        assert(all.skip(from as int).take(i - from) =~= all.skip(from as int));
    }
    out
}

fn copy_piece(p: &Vec<char>) -> (r: Vec<char>)
    ensures
        r@ == p@,
{
    crate::text::copy_chars(p)
}

/// The components of a Unix path, each as its text (`Path::components`).
pub fn path_components_exec(path: &str) -> (r: Vec<Vec<char>>)
    ensures
        r@.map_values(|v: Vec<char>| v@) == path_components(path@),
{
    let s = to_chars(path);
    if s.len() > 0 && s[0] == '/' {
        let rest = crate::text::slice_chars(&s, 1, s.len());
        proof {
            assert(rest@ =~= s@.drop_first());
        }
        let pieces = split_all_exec(&rest, '/');
        let tail = normal_pieces_exec(&pieces, 0);
        let mut out: Vec<Vec<char>> = Vec::new();
        let mut root: Vec<char> = Vec::new();
        root.push('/');
        out.push(root);
        let ghost first = out@;
        let mut tail = tail;
        out.append(&mut tail);
        proof {
            assert(pieces@.map_values(|v: Vec<char>| v@).skip(0) =~= pieces@.map_values(
                |v: Vec<char>| v@,
            ));
            assert(out@.map_values(|v: Vec<char>| v@) =~= seq![seq!['/']] + normal_pieces(
                split_all(s@.drop_first(), '/'),
            ));
        }
        out
    } else {
        let pieces = split_all_exec(&s, '/');
        proof {
            lemma_split_all_nonempty(s@, '/');
            assert(pieces@.map_values(|v: Vec<char>| v@).len() > 0);
            assert(pieces@.len() > 0);
            assert(pieces@.map_values(|v: Vec<char>| v@)[0] == pieces@[0]@);
        }
        let first_is_dot = pieces[0].len() == 1 && pieces[0][0] == '.';
        proof {
            if pieces@[0]@ == seq!['.'] {
                assert(pieces@[0]@.len() == 1 && pieces@[0]@[0] == '.');
            }
            if first_is_dot {
                assert(pieces@[0]@ =~= seq!['.']);
            }
        }
        if first_is_dot {
            let mut out: Vec<Vec<char>> = Vec::new();
            let mut dot: Vec<char> = Vec::new();
            dot.push('.');
            out.push(dot);
            let mut tail = normal_pieces_exec(&pieces, 1);
            out.append(&mut tail);
            proof {
                assert(pieces@.map_values(|v: Vec<char>| v@).skip(1) =~= pieces@.map_values(
                    |v: Vec<char>| v@,
                ).drop_first());
                assert(out@.map_values(|v: Vec<char>| v@) =~= seq![seq!['.']] + normal_pieces(
                    split_all(s@, '/').drop_first(),
                ));
            }
            out
        } else {
            let out = normal_pieces_exec(&pieces, 0);
            proof {
                assert(pieces@.map_values(|v: Vec<char>| v@).skip(0) =~= pieces@.map_values(
                    |v: Vec<char>| v@,
                ));
            }
            out
        }
    }
}

/// Generated output that never triggers work: `web/dist` and `web/.trunk`.
pub open spec fn is_ignored_generated(comps: Seq<Seq<char>>) -> bool {
    &&& comps.len() >= 2
    &&& comps[0] == seq!['w', 'e', 'b']
    &&& (comps[1] == seq!['d', 'i', 's', 't'] || comps[1] == seq!['.', 't', 'r', 'u', 'n', 'k'])
}

/// The intent of a path's first component.
pub open spec fn intent_of_component(c: Seq<char>) -> Option<Intent> {
    if c == seq!['w', 'e', 'b'] {
        Some(Intent::Web)
    } else if c == seq!['a', 'p', 'i'] {
        Some(Intent::Api)
    } else if c == seq!['c', 'o', 'm', 'm', 'o', 'n'] {
        Some(Intent::Common)
    } else if c == seq!['d', 'e', 'v', '-', 't', 'o', 'o', 'l', 's'] {
        Some(Intent::DevTools)
    } else {
        None
    }
}

/// The intent of a changed workspace-relative path.
pub open spec fn path_intent(path: Seq<char>) -> Option<Intent> {
    let comps = path_components(path);
    if comps.len() == 0 || is_ignored_generated(comps) {
        None
    } else {
        intent_of_component(comps[0])
    }
}

fn piece_is(p: &Vec<char>, lit: &str) -> (b: bool)
    ensures
        b == (p@ == lit@),
{
    let l = to_chars(lit);
    crate::text::chars_equal(p, &l)
}

/// Whether a path lies in generated web output (`web/dist`, `web/.trunk`).
pub fn is_ignored_generated_path(path: &str) -> (b: bool)
    ensures
        b == is_ignored_generated(path_components(path@)),
{
    let comps = path_components_exec(path);
    proof {
        reveal_strlit("web");
        reveal_strlit("dist");
        reveal_strlit(".trunk");
        assert(comps@.len() == path_components(path@).len());
    }
    if comps.len() < 2 {
        return false;
    }
    proof {
        assert(comps@.map_values(|v: Vec<char>| v@)[0] == comps@[0]@);
        assert(comps@.map_values(|v: Vec<char>| v@)[1] == comps@[1]@);
        assert("web"@ =~= seq!['w', 'e', 'b']);
        assert("dist"@ =~= seq!['d', 'i', 's', 't']);
        assert(".trunk"@ =~= seq!['.', 't', 'r', 'u', 'n', 'k']);
    }
    piece_is(&comps[0], "web") && (piece_is(&comps[1], "dist") || piece_is(&comps[1], ".trunk"))
}

/// The intent of a changed workspace-relative path: by its first component,
/// except for generated web output.
pub fn classify_path(path: &str) -> (r: Option<Intent>)
    ensures
        r == path_intent(path@),
{
    if is_ignored_generated_path(path) {
        return None;
    }
    let comps = path_components_exec(path);
    proof {
        assert(comps@.len() == path_components(path@).len());
    }
    if comps.len() == 0 {
        return None;
    }
    proof {
        assert(comps@.map_values(|v: Vec<char>| v@)[0] == comps@[0]@);
        reveal_strlit("web");
        reveal_strlit("api");
        reveal_strlit("common");
        reveal_strlit("dev-tools");
        assert("web"@ =~= seq!['w', 'e', 'b']);
        assert("api"@ =~= seq!['a', 'p', 'i']);
        assert("common"@ =~= seq!['c', 'o', 'm', 'm', 'o', 'n']);
        assert("dev-tools"@ =~= seq!['d', 'e', 'v', '-', 't', 'o', 'o', 'l', 's']);
    }
    let first = &comps[0];
    if piece_is(first, "web") {
        Some(Intent::Web)
    } else if piece_is(first, "api") {
        Some(Intent::Api)
    } else if piece_is(first, "common") {
        Some(Intent::Common)
    } else if piece_is(first, "dev-tools") {
        Some(Intent::DevTools)
    } else {
        None
    }
}

/// Merging is idempotent: a batch merged for execution is unchanged by a
/// second merge, and it runs every intent of the batch that the common
/// rebuild does not already cover.
pub proof fn law_merge_idempotent(b: IntentBatch)
    ensures
        merged(merged(b)) == merged(b),
        batch_has(merged(b), Intent::Common) == batch_has(b, Intent::Common),
        batch_has(merged(b), Intent::DevTools) == batch_has(b, Intent::DevTools),
        !batch_has(b, Intent::Common) ==> merged(b) == b,
{
}

} // verus!
