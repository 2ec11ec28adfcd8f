//! Finding the `use` that brought a node into the scene, so that it can be
//! wrapped in a group.

use vstd::prelude::*;

use super::connections::{ancestors, is_chain, is_rooted, lemma_one_chain, parent_of};
use crate::paths::{is_stem, path_stem};
use crate::scene::{node_at, SceneGraph, SceneNode};
use crate::span::Span;
use crate::text::{opt_is, opt_view, str_eq};

verus! {

/// A node of the parsed source.
pub struct AstNode {
    pub kind: String,
    pub name: Option<String>,
    pub span: Span,
    pub children: Vec<AstNode>,
}

// ---- searching the parsed source -------------------------------------------

/// The first `use` that lies within the bounds, in the order of the source. A
/// node that sticks out of the bounds is passed over with all its children.
pub open spec fn first_use_within(nodes: Seq<AstNode>, bounds: Span) -> Option<AstNode>
    decreases nodes,
{
    if nodes.len() == 0 {
        None
    } else {
        let n = nodes[0];
        let here = if !bounds.covers(n.span) {
            None
        } else if n.kind@ == "use"@ {
            Some(n)
        } else {
            first_use_within(n.children@, bounds)
        };
        if here is Some {
            here
        } else {
            first_use_within(nodes.drop_first(), bounds)
        }
    }
}

/// The first `use` of the module `name`, in the order of the source.
pub open spec fn first_use_of(nodes: Seq<AstNode>, name: Seq<char>) -> Option<AstNode>
    decreases nodes,
{
    if nodes.len() == 0 {
        None
    } else {
        let n = nodes[0];
        let here = if n.kind@ == "use"@ && opt_view(n.name) == Some(name) {
            Some(n)
        } else {
            first_use_of(n.children@, name)
        };
        if here is Some {
            here
        } else {
            first_use_of(nodes.drop_first(), name)
        }
    }
}

/// The first `use` that lies within the bounds.
pub fn find_first_use_within(nodes: &Vec<AstNode>, bounds: Span) -> (r: Option<&AstNode>)
    ensures
        match r {
            Some(n) => first_use_within(nodes@, bounds) == Some(*n),
            None => first_use_within(nodes@, bounds) is None,
        },
    decreases nodes,
{
    let mut i: usize = 0;
    assert(nodes@.skip(0) =~= nodes@);
    while i < nodes.len()
        invariant
            i <= nodes@.len(),
            first_use_within(nodes@, bounds) == first_use_within(nodes@.skip(i as int), bounds),
        decreases nodes.len() - i,
    {
        let n = &nodes[i];
        assert(nodes@.skip(i as int)[0] == *n);
        assert(nodes@.skip(i as int).drop_first() =~= nodes@.skip(i + 1));
        if n.span.start >= bounds.start && n.span.end <= bounds.end {
            if str_eq(n.kind.as_str(), "use") {
                return Some(n);
            }
            if let Some(c) = find_first_use_within(&n.children, bounds) {
                return Some(c);
            }
        }
        i = i + 1;
    }
    None
}

/// The first `use` of the module `name`.
pub fn find_use<'a>(nodes: &'a Vec<AstNode>, name: &str) -> (r: Option<&'a AstNode>)
    ensures
        match r {
            Some(n) => first_use_of(nodes@, name@) == Some(*n),
            None => first_use_of(nodes@, name@) is None,
        },
    decreases nodes,
{
    let mut i: usize = 0;
    assert(nodes@.skip(0) =~= nodes@);
    while i < nodes.len()
        invariant
            i <= nodes@.len(),
            first_use_of(nodes@, name@) == first_use_of(nodes@.skip(i as int), name@),
        decreases nodes.len() - i,
    {
        let n = &nodes[i];
        assert(nodes@.skip(i as int)[0] == *n);
        assert(nodes@.skip(i as int).drop_first() =~= nodes@.skip(i + 1));
        if str_eq(n.kind.as_str(), "use") && opt_is(&n.name, name) {
            return Some(n);
        }
        if let Some(c) = find_use(&n.children, name) {
            return Some(c);
        }
        i = i + 1;
    }
    None
}

// ---- the target ------------------------------------------------------------

/// The place of the nearest ancestor that another `use`, or none, brought in.
/// It is none when the chain ends first, leaves the scene, or leads to a node
/// that has no place.
pub open spec fn enclosing_span(s: SceneGraph, chain: Seq<u32>, use_id: Option<u32>) -> Option<Span>
    decreases chain.len(),
{
    if chain.len() == 0 {
        None
    } else {
        match node_at(s, chain[0]) {
            None => None,
            Some(n) => if n.use_id != use_id {
                n.source_span
            } else {
                enclosing_span(s, chain.drop_first(), use_id)
            },
        }
    }
}

/// The `use` to wrap for a node of an imported file with the stem `stem`.
pub open spec fn imported_target(ast: Option<Vec<AstNode>>, stem: Seq<char>) -> Option<
    (Span, Seq<char>),
> {
    match ast {
        None => None,
        Some(nodes) => match first_use_of(nodes@, stem) {
            Some(n) => Some((n.span, stem)),
            None => None,
        },
    }
}

/// The `use` to wrap for a node of a local module: the first one within the
/// nearest ancestor that is not part of the module.
pub open spec fn local_target(
    s: SceneGraph,
    chain: Seq<u32>,
    use_id: Option<u32>,
    ast: Option<Vec<AstNode>>,
) -> Option<(Span, Seq<char>)> {
    match (enclosing_span(s, chain, use_id), ast) {
        (Some(bounds), Some(nodes)) => match first_use_within(nodes@, bounds) {
            Some(n) => match n.name {
                Some(name) => Some((n.span, name@)),
                None => None,
            },
            None => None,
        },
        _ => None,
    }
}

/// The view of a target.
pub open spec fn target_view(t: Option<(Span, String)>) -> Option<(Span, Seq<char>)> {
    match t {
        Some(x) => Some((x.0, x.1@)),
        None => None,
    }
}

/// Whether `t` is the `use` to wrap for a node: by the file it was imported
/// from, or else by the module around it.
pub open spec fn is_wrap_target(
    s: SceneGraph,
    n: SceneNode,
    ast: Option<Vec<AstNode>>,
    t: Option<(Span, Seq<char>)>,
) -> bool {
    match n.origin {
        None => is_local_target(s, n, ast, t),
        Some(p) => exists|stem: Option<Seq<char>>| #[trigger]
            is_stem(p@, stem) && match stem {
                Some(x) => t == imported_target(ast, x),
                None => is_local_target(s, n, ast, t),
            },
    }
}

/// Whether `t` is the `use` to wrap by the module around a node.
pub open spec fn is_local_target(
    s: SceneGraph,
    n: SceneNode,
    ast: Option<Vec<AstNode>>,
    t: Option<(Span, Seq<char>)>,
) -> bool {
    exists|chain: Seq<u32>| #[trigger]
        is_chain(s, n.parent, chain) && t == local_target(s, chain, n.use_id, ast)
}

fn enclosing(s: &SceneGraph, chain: &Vec<u32>, use_id: Option<u32>) -> (r: Option<Span>)
    ensures
        r == enclosing_span(*s, chain@, use_id),
{
    let mut i: usize = 0;
    assert(chain@.skip(0) =~= chain@);
    while i < chain.len()
        invariant
            i <= chain@.len(),
            enclosing_span(*s, chain@, use_id) == enclosing_span(
                *s,
                chain@.skip(i as int),
                use_id,
            ),
        decreases chain.len() - i,
    {
        let id = chain[i];
        assert(chain@.skip(i as int)[0] == id);
        assert(chain@.skip(i as int).drop_first() =~= chain@.skip(i + 1));
        if (id as usize) >= s.nodes.len() {
            return None;
        }
        let n = &s.nodes[id as usize];
        if n.use_id != use_id {
            return n.source_span;
        }
        i = i + 1;
    }
    None
}

fn local(s: &SceneGraph, n: &SceneNode, ast: &Option<Vec<AstNode>>) -> (r: Option<(Span, String)>)
    requires
        is_rooted(*s, n.parent),
    ensures
        is_local_target(*s, *n, *ast, target_view(r)),
{
    let chain = match ancestors(s, n.parent) {
        Some(chain) => chain,
        None => Vec::new(),
    };
    assert(is_chain(*s, n.parent, chain@));
    match enclosing(s, &chain, n.use_id) {
        None => None,
        Some(bounds) => match ast {
            None => None,
            Some(nodes) => match find_first_use_within(nodes, bounds) {
                None => None,
                Some(u) => match &u.name {
                    Some(name) => Some((u.span, name.clone())),
                    None => None,
                },
            },
        },
    }
}

/// The `use` that brought a node into the scene, with the name for a group
/// around it. `ast` is the parsed source, or none when it does not parse.
pub fn resolve_use_wrap_target(
    s: &SceneGraph,
    n: &SceneNode,
    ast: &Option<Vec<AstNode>>,
) -> (r: Option<(Span, String)>)
    requires
        is_rooted(*s, n.parent),
    ensures
        is_wrap_target(*s, *n, *ast, target_view(r)),
{
    if let Some(p) = &n.origin {
        let found = path_stem(p.as_str());
        assert(is_stem(p@, opt_view(found)));
        if let Some(stem) = found {
            return match ast {
                None => None,
                Some(nodes) => match find_use(nodes, stem.as_str()) {
                    Some(u) => Some((u.span, stem)),
                    None => None,
                },
            };
        }
    }
    local(s, n, ast)
}

// ---- what the search guarantees --------------------------------------------

/// The `use` that is found within bounds is one, and lies within them.
pub proof fn law_found_use_lies_within(nodes: Seq<AstNode>, bounds: Span)
    ensures
        first_use_within(nodes, bounds) matches Some(n) ==> n.kind@ == "use"@ && bounds.covers(
            n.span,
        ),
    decreases nodes,
{
    if nodes.len() > 0 {
        let n = nodes[0];
        if bounds.covers(n.span) && n.kind@ != "use"@ {
            law_found_use_lies_within(n.children@, bounds);
        }
        law_found_use_lies_within(nodes.drop_first(), bounds);
    }
}

/// A `use` that is found under a name is a `use` of that name.
pub proof fn law_found_use_has_the_name(nodes: &Vec<AstNode>, name: &str, r: Option<&AstNode>)
    requires
        call_ensures(find_use, (nodes, name), r),
    ensures
        r matches Some(n) ==> n.kind@ == "use"@ && (n.name matches Some(m) && m@ == name@),
{
    lemma_use_of(nodes@, name@);
}

proof fn lemma_use_of(nodes: Seq<AstNode>, name: Seq<char>)
    ensures
        first_use_of(nodes, name) matches Some(n) ==> n.kind@ == "use"@ && opt_view(n.name) == Some(
            name,
        ),
    decreases nodes,
{
    if nodes.len() > 0 {
        lemma_use_of(nodes[0].children@, name);
        lemma_use_of(nodes.drop_first(), name);
    }
}

/// A `use` among the nodes is found, and so is one below them: the search
/// finds something wherever there is something to find.
pub proof fn law_uses_are_found(
    nodes: &Vec<AstNode>,
    name: &str,
    r: Option<&AstNode>,
    i: int,
    j: int,
)
    requires
        call_ensures(find_use, (nodes, name), r),
        0 <= i < nodes@.len(),
        (nodes@[i].kind@ == "use"@ && opt_view(nodes@[i].name) == Some(name@)) || (0 <= j
            < nodes@[i].children@.len() && nodes@[i].children@[j].kind@ == "use"@ && opt_view(
            nodes@[i].children@[j].name,
        ) == Some(name@)),
    ensures
        r is Some,
{
    if !(nodes@[i].kind@ == "use"@ && opt_view(nodes@[i].name) == Some(name@)) {
        lemma_use_found(nodes@[i].children@, name@, j);
    }
    lemma_use_found_at(nodes@, name@, i);
}

proof fn lemma_use_found(nodes: Seq<AstNode>, name: Seq<char>, j: int)
    requires
        0 <= j < nodes.len(),
        nodes[j].kind@ == "use"@,
        opt_view(nodes[j].name) == Some(name),
    ensures
        first_use_of(nodes, name) is Some,
    decreases j,
{
    if j > 0 {
        lemma_use_found(nodes.drop_first(), name, j - 1);
    }
}

proof fn lemma_use_found_at(nodes: Seq<AstNode>, name: Seq<char>, i: int)
    requires
        0 <= i < nodes.len(),
        (nodes[i].kind@ == "use"@ && opt_view(nodes[i].name) == Some(name)) || first_use_of(
            nodes[i].children@,
            name,
        ) is Some,
    ensures
        first_use_of(nodes, name) is Some,
    decreases i,
{
    if i > 0 {
        lemma_use_found_at(nodes.drop_first(), name, i - 1);
    }
}

/// A `use` that lies within the bounds, in nodes that do, is found.
pub proof fn law_uses_within_are_found(
    nodes: &Vec<AstNode>,
    bounds: Span,
    r: Option<&AstNode>,
    i: int,
)
    requires
        call_ensures(find_first_use_within, (nodes, bounds), r),
        0 <= i < nodes@.len(),
        nodes@[i].kind@ == "use"@,
        bounds.start <= nodes@[i].span.start,
        nodes@[i].span.end <= bounds.end,
    ensures
        r matches Some(n) && n.kind@ == "use"@ && bounds.start <= n.span.start && n.span.end
            <= bounds.end,
{
    lemma_use_within(nodes@, bounds, i);
    law_found_use_lies_within(nodes@, bounds);
}

proof fn lemma_use_within(nodes: Seq<AstNode>, bounds: Span, i: int)
    requires
        0 <= i < nodes.len(),
        nodes[i].kind@ == "use"@,
        bounds.covers(nodes[i].span),
    ensures
        first_use_within(nodes, bounds) is Some,
    decreases i,
{
    if i > 0 {
        lemma_use_within(nodes.drop_first(), bounds, i - 1);
    }
}

/// The `use` to wrap for a node of an imported file stands in the source and
/// has the name of the group; without a parsed source there is none.
pub proof fn law_wrap_target_stands_in_the_source(
    s: &SceneGraph,
    n: &SceneNode,
    ast: &Option<Vec<AstNode>>,
    r: Option<(Span, String)>,
)
    requires
        call_ensures(resolve_use_wrap_target, (s, n, ast), r),
    ensures
        *ast is None ==> r is None,
        n.origin is None ==> is_local_target(*s, *n, *ast, target_view(r)),
{
}

/// The `use` to wrap for a node right below a node that is not part of its
/// module lies within that node; without a place in the source there is none.
pub proof fn law_target_lies_within_the_parent(
    s: &SceneGraph,
    n: &SceneNode,
    ast: &Option<Vec<AstNode>>,
    r: Option<(Span, String)>,
    p: u32,
)
    requires
        call_ensures(resolve_use_wrap_target, (s, n, ast), r),
        n.origin is None,
        n.parent == Some(p),
        p < s.nodes@.len(),
        s.nodes@[p as int].use_id != n.use_id,
    ensures
        s.nodes@[p as int].source_span is None ==> r is None,
        s.nodes@[p as int].source_span matches Some(b) ==> (r matches Some(t) ==> b.start
            <= t.0.start && t.0.end <= b.end),
{
    let chain = choose|chain: Seq<u32>| #[trigger]
        is_chain(*s, n.parent, chain) && target_view(r) == local_target(*s, chain, n.use_id, *ast);
    assert(chain[0] == p);
    assert(enclosing_span(*s, chain, n.use_id) == s.nodes@[p as int].source_span);
    if let Some(b) = s.nodes@[p as int].source_span {
        if let Some(nodes) = *ast {
            law_found_use_lies_within(nodes@, b);
        }
    }
}

/// The nodes of one use of a module have one target: that of a node is that of
/// its parent, as long as the parent belongs to the same use.
pub proof fn law_members_of_a_use_share_the_target(
    s: &SceneGraph,
    n: &SceneNode,
    parent: &SceneNode,
    ast: &Option<Vec<AstNode>>,
    r: Option<(Span, String)>,
    above: Option<(Span, String)>,
    p: u32,
)
    requires
        call_ensures(resolve_use_wrap_target, (s, n, ast), r),
        call_ensures(resolve_use_wrap_target, (s, parent, ast), above),
        n.origin is None,
        parent.origin is None,
        n.parent == Some(p),
        p < s.nodes@.len(),
        *parent == s.nodes@[p as int],
        parent.use_id == n.use_id,
    ensures
        r is Some <==> above is Some,
        r matches Some(t) ==> t.0 == (above->0).0 && t.1@ == (above->0).1@,
{
    let chain = choose|chain: Seq<u32>| #[trigger]
        is_chain(*s, n.parent, chain) && target_view(r) == local_target(*s, chain, n.use_id, *ast);
    let up = choose|up: Seq<u32>| #[trigger]
        is_chain(*s, parent.parent, up) && target_view(above) == local_target(
            *s,
            up,
            parent.use_id,
            *ast,
        );
    let rest = chain.drop_first();
    assert(chain[0] == p);
    assert(parent_of(*s, p) == parent.parent);
    assert(is_chain(*s, parent.parent, rest)) by {
        if chain.len() > 1 {
            assert(parent_of(*s, chain[0]) == Some(chain[0int + 1]));
            assert(rest[0] == chain[1]);
            assert(rest.last() == chain.last());
        }
        assert forall|i: int| 0 <= i < rest.len() - 1 implies parent_of(*s, #[trigger] rest[i])
            == Some(rest[i + 1]) by {
            assert(parent_of(*s, chain[i + 1]) == Some(chain[i + 1 + 1]));
        }
    }
    lemma_one_chain(*s, parent.parent, rest, up);
    assert(enclosing_span(*s, chain, n.use_id) == enclosing_span(*s, up, n.use_id));
}

} // verus!
